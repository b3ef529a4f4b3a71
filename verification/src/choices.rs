//! The choices that commands offer besides the servers.

use vstd::prelude::*;
use vstd::string::StringExecFns;
use crate::text::{same_text, views};

verus! {

/// Which list a todo item belongs to.
#[derive(Clone, Copy, Debug, PartialEq, Eq, Structural)]
pub enum TodoChoice {
    Creative,
    Survival,
}

/// A word that names no todo list.
#[derive(Clone, Debug, PartialEq, Eq)]
pub struct InvalidTodoChoice {
    pub word: String,
}

impl TodoChoice {
    /// The word for the list.
    pub open spec fn word(self) -> Seq<char> {
        match self {
            TodoChoice::Creative => "creative"@,
            TodoChoice::Survival => "survival"@,
        }
    }

    /// The list that a word names, if it names one.
    pub open spec fn named(word: Seq<char>) -> Option<TodoChoice> {
        if word == "creative"@ {
            Some(TodoChoice::Creative)
        } else if word == "survival"@ {
            Some(TodoChoice::Survival)
        } else {
            None
        }
    }

    /// The word for the list.
    pub fn to_string(&self) -> (s: String)
        ensures
            s@ == self.word(),
    {
        match self {
            TodoChoice::Creative => String::from_str("creative"),
            TodoChoice::Survival => String::from_str("survival"),
        }
    }

    /// The list that `s` names.
    pub fn from_str(s: &str) -> (r: Result<TodoChoice, InvalidTodoChoice>)
        ensures
            match TodoChoice::named(s@) {
                Some(choice) => r == Ok::<TodoChoice, InvalidTodoChoice>(choice),
                None => r is Err && r->Err_0.word@ == s@,
            },
    {
        if same_text(s, "creative") {
            Ok(TodoChoice::Creative)
        } else if same_text(s, "survival") {
            Ok(TodoChoice::Survival)
        } else {
            Err(InvalidTodoChoice { word: String::from_str(s) })
        }
    }
}

/// A list of todo items as it is shown: each title on a line of its own
/// behind a bullet.
pub open spec fn todo_lines(titles: Seq<Seq<char>>) -> Seq<char>
    decreases titles.len(),
{
    if titles.len() == 0 {
        Seq::empty()
    } else if titles.len() == 1 {
        seq!['\u{2022}', ' '] + titles[0]
    } else {
        todo_lines(titles.drop_last()) + seq!['\n', '\u{2022}', ' '] + titles.last()
    }
}

/// Shows a list of todo items.
pub fn display_todos(titles: &Vec<String>) -> (out: String)
    ensures
        out@ == todo_lines(views(titles@)),
{
    let mut out = String::new();
    let mut i: usize = 0;
    while i < titles.len()
        invariant
            i <= titles.len(),
            out@ == todo_lines(views(titles@).take(i as int)),
        decreases titles.len() - i,
    {
        proof {
            let upto = views(titles@).take(i + 1);
            assert(upto.drop_last() =~= views(titles@).take(i as int));
            assert(upto.last() == titles@[i as int]@);
        }
        if i > 0 {
            out.push('\n');
        }
        out.push('\u{2022}');
        out.push(' ');
        out.append(titles[i].as_str());
        proof {
            let upto = views(titles@).take(i + 1);
            if i == 0 {
                assert(out@ =~= seq!['\u{2022}', ' '] + titles@[0]@);
            } else {
                assert(out@ =~= todo_lines(upto.drop_last()) + seq!['\n', '\u{2022}', ' ']
                    + upto.last());
            }
        }
        i = i + 1;
    }
    proof {
        assert(views(titles@).take(titles.len() as int) =~= views(titles@));
    }
    out
}

/// The animals of which a picture can be asked for.
#[derive(Clone, Copy, Debug, PartialEq, Eq, Structural)]
pub enum AnimalChoice {
    Fox,
    Cat,
    Dog,
}

impl AnimalChoice {
    /// The address that answers with a picture of the animal.
    pub open spec fn source(self) -> Seq<char> {
        match self {
            AnimalChoice::Fox => "https://randomfox.ca/floof/"@,
            AnimalChoice::Cat => "https://api.thecatapi.com/v1/images/search"@,
            AnimalChoice::Dog => "https://api.thedogapi.com/v1/images/search"@,
        }
    }

    /// The address that answers with a picture of the animal.
    pub fn api_url(self) -> (url: &'static str)
        ensures
            url@ == self.source(),
    {
        match self {
            AnimalChoice::Fox => "https://randomfox.ca/floof/",
            AnimalChoice::Cat => "https://api.thecatapi.com/v1/images/search",
            AnimalChoice::Dog => "https://api.thedogapi.com/v1/images/search",
        }
    }
}

} // verus!

//! Todo items as they are stored and as they are shown.

use vstd::prelude::*;
use crate::choices::TodoChoice;
use crate::numerals::{numeral_u64, parse_u64};

verus! {

/// A todo item as the store holds it.
#[derive(Clone, Debug, PartialEq, Eq)]
pub struct StoredTodo {
    pub id: i32,
    pub title: String,
    /// The word for the list the item belongs to.
    pub todo_type: String,
    /// The id of the user who wrote the item, as a numeral.
    pub created_by: String,
}

/// A todo item that was found to be in order.
#[derive(Clone, Debug, PartialEq, Eq)]
pub struct Todo {
    pub id: i32,
    pub title: String,
    pub todo_type: TodoChoice,
    pub created_by: u64,
}

/// Why a stored item is not in order.
#[derive(Clone, Debug, PartialEq, Eq)]
pub enum TodoError {
    /// The id is below zero.
    NegativeId,
    /// The title is empty.
    EmptyTitle,
    /// The word names no list. Holds the word.
    InvalidType(String),
    /// The user is no number that fits sixty-four bits. Holds what was stored.
    InvalidUser(String),
}

/// The items of the two lists, each in the order in which they were stored.
#[derive(Clone, Debug, PartialEq, Eq)]
pub struct TodoByType {
    pub survival: Vec<Todo>,
    pub creative: Vec<Todo>,
}

/// A stored item as the contracts speak of it.
pub ghost struct StoredModel {
    pub id: i32,
    pub title: Seq<char>,
    pub todo_type: Seq<char>,
    pub created_by: Seq<char>,
}

/// An item as the contracts speak of it.
pub ghost struct TodoModel {
    pub id: i32,
    pub title: Seq<char>,
    pub todo_type: TodoChoice,
    pub created_by: u64,
}

/// A fault as the contracts speak of it.
pub ghost enum TodoFault {
    NegativeId,
    EmptyTitle,
    InvalidType(Seq<char>),
    InvalidUser(Seq<char>),
}

impl View for StoredTodo {
    type V = StoredModel;

    open spec fn view(&self) -> StoredModel {
        StoredModel {
            id: self.id,
            title: self.title@,
            todo_type: self.todo_type@,
            created_by: self.created_by@,
        }
    }
}

impl View for Todo {
    type V = TodoModel;

    open spec fn view(&self) -> TodoModel {
        TodoModel {
            id: self.id,
            title: self.title@,
            todo_type: self.todo_type,
            created_by: self.created_by,
        }
    }
}

impl View for TodoError {
    type V = TodoFault;

    open spec fn view(&self) -> TodoFault {
        match self {
            TodoError::NegativeId => TodoFault::NegativeId,
            TodoError::EmptyTitle => TodoFault::EmptyTitle,
            TodoError::InvalidType(s) => TodoFault::InvalidType(s@),
            TodoError::InvalidUser(s) => TodoFault::InvalidUser(s@),
        }
    }
}

/// The views of a list of stored items.
pub open spec fn stored_views(v: Seq<StoredTodo>) -> Seq<StoredModel> {
    Seq::new(v.len(), |i: int| v[i]@)
}

/// The views of a list of items.
pub open spec fn todo_views(v: Seq<Todo>) -> Seq<TodoModel> {
    Seq::new(v.len(), |i: int| v[i]@)
}

/// What a stored item is, if it is in order. The checks come in this
/// order: the id, the title, the list, the user.
pub open spec fn checked(stored: StoredModel) -> Result<TodoModel, TodoFault> {
    if stored.id < 0 {
        Err(TodoFault::NegativeId)
    } else if stored.title.len() == 0 {
        Err(TodoFault::EmptyTitle)
    } else {
        match TodoChoice::named(stored.todo_type) {
            None => Err(TodoFault::InvalidType(stored.todo_type)),
            Some(todo_type) => match numeral_u64(stored.created_by) {
                None => Err(TodoFault::InvalidUser(stored.created_by)),
                Some(created_by) => Ok(
                    TodoModel { id: stored.id, title: stored.title, todo_type, created_by },
                ),
            },
        }
    }
}

/// The first place at which a stored item is not in order, or the number of
/// items where all are.
pub open spec fn first_fault(stored: Seq<StoredModel>) -> int
    decreases stored.len(),
{
    if stored.len() == 0 {
        0
    } else if checked(stored[0]) is Err {
        0
    } else {
        1 + first_fault(stored.drop_first())
    }
}

/// The items of `list` among `todos`, in their order.
pub open spec fn of_list(todos: Seq<TodoModel>, list: TodoChoice) -> Seq<TodoModel> {
    todos.filter(|t: TodoModel| t.todo_type == list)
}

/// The model of what `read_todo` returns.
pub open spec fn todo_result(r: Result<Todo, TodoError>) -> Result<TodoModel, TodoFault> {
    match r {
        Ok(t) => Ok(t@),
        Err(e) => Err(e@),
    }
}

/// Takes a stored item for what it is.
pub fn read_todo(stored: StoredTodo) -> (r: Result<Todo, TodoError>)
    ensures
        todo_result(r) == checked(stored@),
{
    if stored.id < 0 {
        return Err(TodoError::NegativeId);
    }
    if stored.title.as_str().unicode_len() == 0 {
        return Err(TodoError::EmptyTitle);
    }
    let todo_type = match TodoChoice::from_str(stored.todo_type.as_str()) {
        Ok(choice) => choice,
        Err(_) => {
            return Err(TodoError::InvalidType(stored.todo_type));
        },
    };
    let created_by = match parse_u64(stored.created_by.as_str()) {
        Some(n) => n,
        None => {
            return Err(TodoError::InvalidUser(stored.created_by));
        },
    };
    Ok(Todo { id: stored.id, title: stored.title, todo_type, created_by })
}

/// Sorts stored items into the two lists.
///
/// Fails with the fault of the first item that is not in order. Otherwise
/// each list holds its items, all of them, in the order they were stored in.
pub fn group_todos(stored: Vec<StoredTodo>) -> (r: Result<TodoByType, TodoError>)
    ensures
        ({
            let all = stored_views(stored@);
            let at = first_fault(all);
            if at < all.len() {
                r is Err && Err::<TodoModel, TodoFault>(r->Err_0@) == checked(all[at])
            } else {
                let todos = Seq::new(all.len(), |i: int| checked(all[i])->Ok_0);
                &&& r is Ok
                &&& todo_views(r->Ok_0.survival@) == of_list(todos, TodoChoice::Survival)
                &&& todo_views(r->Ok_0.creative@) == of_list(todos, TodoChoice::Creative)
            }
        }),
{
    let ghost all = stored_views(stored@);
    let mut survival: Vec<Todo> = Vec::new();
    let mut creative: Vec<Todo> = Vec::new();
    let ghost mut todos: Seq<TodoModel> = Seq::empty();
    let mut i: usize = 0;
    proof {
        assert(all.skip(0) =~= all);
        assert(todo_views(survival@) =~= of_list(todos, TodoChoice::Survival));
        assert(todo_views(creative@) =~= of_list(todos, TodoChoice::Creative));
    }
    while i < stored.len()
        invariant
            i <= stored.len(),
            all == stored_views(stored@),
            first_fault(all) == i + first_fault(all.skip(i as int)),
            todos.len() == i,
            forall|j: int| 0 <= j < i ==> checked(all[j]) == Ok::<TodoModel, TodoFault>(#[trigger] todos[j]),
            todo_views(survival@) == of_list(todos, TodoChoice::Survival),
            todo_views(creative@) == of_list(todos, TodoChoice::Creative),
        decreases stored.len() - i,
    {
        proof {
            let rest = all.skip(i as int);
            assert(rest[0] == all[i as int]);
            assert(rest.drop_first() =~= all.skip(i + 1));
        }
        match read_todo(stored[i].clone_stored()) {
            Err(e) => {
                return Err(e);
            },
            Ok(todo) => {
                proof {
                    let next = todos.push(todo@);
                    let survival_test = |t: TodoModel| t.todo_type == TodoChoice::Survival;
                    let creative_test = |t: TodoModel| t.todo_type == TodoChoice::Creative;
                    assert(next.drop_last() =~= todos);
                    reveal(Seq::filter);
                    assert(next.filter(survival_test) == if survival_test(todo@) {
                        todos.filter(survival_test).push(todo@)
                    } else {
                        todos.filter(survival_test)
                    });
                    assert(next.filter(creative_test) == if creative_test(todo@) {
                        todos.filter(creative_test).push(todo@)
                    } else {
                        todos.filter(creative_test)
                    });
                    todos = next;
                }
                match todo.todo_type {
                    TodoChoice::Survival => {
                        proof {
                            assert(todo_views(survival@.push(todo)) =~= todo_views(
                                survival@,
                            ).push(todo@));
                        }
                        survival.push(todo);
                    },
                    TodoChoice::Creative => {
                        proof {
                            assert(todo_views(creative@.push(todo)) =~= todo_views(
                                creative@,
                            ).push(todo@));
                        }
                        creative.push(todo);
                    },
                }
            },
        }
        i = i + 1;
    }
    proof {
        assert(todos =~= Seq::new(all.len(), |i: int| checked(all[i])->Ok_0));
    }
    Ok(TodoByType { survival, creative })
}

impl StoredTodo {
    /// A copy of the item.
    fn clone_stored(&self) -> (copy: StoredTodo)
        ensures
            copy@ == self@,
    {
        StoredTodo {
            id: self.id,
            title: self.title.clone(),
            todo_type: self.todo_type.clone(),
            created_by: self.created_by.clone(),
        }
    }
}

} // verus!

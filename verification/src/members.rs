//! What a user types about a member: in-game names in a row, and the day
//! the member joined.

use vstd::prelude::*;
use crate::numerals::{numeral_i32, numeral_u32, parse_i32, parse_u32};
use crate::text::{chars_of, slice_text, split, split_on, views};

verus! {

/// `c` is white space as Unicode counts it: the controls from tab to
/// carriage return, the space, the next-line control, the no-break space,
/// the ogham space mark, the spaces from en quad to hair space, the line and
/// the paragraph separator, the narrow no-break space, the medium
/// mathematical space and the ideographic space.
pub open spec fn is_whitespace(c: char) -> bool {
    let n = c as u32;
    ||| 0x0009 <= n <= 0x000d
    ||| n == 0x0020
    ||| n == 0x0085
    ||| n == 0x00a0
    ||| n == 0x1680
    ||| 0x2000 <= n <= 0x200a
    ||| n == 0x2028
    ||| n == 0x2029
    ||| n == 0x202f
    ||| n == 0x205f
    ||| n == 0x3000
}

/// Whether `c` is white space.
pub fn whitespace(c: char) -> (yes: bool)
    ensures
        yes == is_whitespace(c),
{
    let n = c as u32;
    (0x0009 <= n && n <= 0x000d) || n == 0x0020 || n == 0x0085 || n == 0x00a0 || n == 0x1680 || (
    0x2000 <= n && n <= 0x200a) || n == 0x2028 || n == 0x2029 || n == 0x202f || n == 0x205f || n
        == 0x3000
}

/// The number of white space characters at the beginning of `s`.
pub open spec fn leading_blanks(s: Seq<char>) -> int
    decreases s.len(),
{
    if s.len() > 0 && is_whitespace(s[0]) {
        1 + leading_blanks(s.drop_first())
    } else {
        0
    }
}

/// The number of white space characters at the end of `s`.
pub open spec fn trailing_blanks(s: Seq<char>) -> int
    decreases s.len(),
{
    if s.len() > 0 && is_whitespace(s.last()) {
        1 + trailing_blanks(s.drop_last())
    } else {
        0
    }
}

/// `s` without the white space at its beginning and at its end.
pub open spec fn trimmed(s: Seq<char>) -> Seq<char> {
    let from = leading_blanks(s);
    if from == s.len() {
        Seq::empty()
    } else {
        s.subrange(from, s.len() - trailing_blanks(s))
    }
}

/// The in-game names in a row of names parted by commas, each trimmed.
pub open spec fn names_in(row: Seq<char>) -> Seq<Seq<char>> {
    let parts = split_on(row, seq![',']);
    Seq::new(parts.len(), |i: int| trimmed(parts[i]))
}

/// Why text is no date.
#[derive(Clone, Copy, Debug, PartialEq, Eq, Structural)]
pub enum DateError {
    /// There are not three parts between hyphens. Holds their number.
    Parts(usize),
    /// The first part is no year.
    Year,
    /// The second part is no month.
    Month,
    /// The third part is no day.
    Day,
}

/// Year, month and day as they are written in `date`: three numbers parted
/// by hyphens. Whether there is such a day is left to the calendar.
pub open spec fn date_of(date: Seq<char>) -> Result<(i32, u32, u32), DateError> {
    let parts = split_on(date, seq!['-']);
    if parts.len() != 3 {
        Err(DateError::Parts(parts.len() as usize))
    } else {
        match numeral_i32(parts[0]) {
            None => Err(DateError::Year),
            Some(year) => match numeral_u32(parts[1]) {
                None => Err(DateError::Month),
                Some(month) => match numeral_u32(parts[2]) {
                    None => Err(DateError::Day),
                    Some(day) => Ok((year, month, day)),
                },
            },
        }
    }
}

/// Takes the white space off both ends of `s`.
pub fn trim_text(s: &str) -> (out: String)
    ensures
        out@ == trimmed(s@),
{
    let text = chars_of(s);
    let len = text.len();
    let mut from: usize = 0;
    proof {
        assert(text@.skip(0) =~= text@);
    }
    while from < len && whitespace(text[from])
        invariant
            from <= len == text.len(),
            leading_blanks(text@) == from + leading_blanks(text@.skip(from as int)),
        decreases len - from,
    {
        proof {
            let rest = text@.skip(from as int);
            assert(rest[0] == text@[from as int]);
            assert(rest.drop_first() =~= text@.skip(from + 1));
        }
        from = from + 1;
    }
    proof {
        if from < len {
            assert(text@.skip(from as int)[0] == text@[from as int]);
        }
    }
    if from == len {
        return String::new();
    }
    let mut to: usize = len;
    proof {
        assert(text@.take(len as int) =~= text@);
    }
    while whitespace(text[to - 1])
        invariant
            from < to <= len == text.len(),
            !is_whitespace(text@[from as int]),
            trailing_blanks(text@) == (len - to) + trailing_blanks(text@.take(to as int)),
        decreases to,
    {
        proof {
            let head = text@.take(to as int);
            assert(head.last() == text@[to - 1]);
            assert(head.drop_last() =~= text@.take(to - 1));
        }
        to = to - 1;
    }
    proof {
        assert(text@.take(to as int).last() == text@[to - 1]);
    }
    slice_text(&text, from, to)
}

/// Whether `s` holds nothing but white space.
pub fn is_blank(s: &str) -> (blank: bool)
    ensures
        blank == (trimmed(s@).len() == 0),
{
    trim_text(s).as_str().unicode_len() == 0
}

/// The in-game names in a row of names parted by commas.
pub fn split_igns(igns: &str) -> (names: Vec<String>)
    ensures
        views(names@) == names_in(igns@),
{
    proof {
        reveal_strlit(",");
        assert(","@ =~= seq![',']);
    }
    let parts = split(igns, ",");
    let mut names: Vec<String> = Vec::new();
    let mut i: usize = 0;
    while i < parts.len()
        invariant
            i <= parts.len(),
            views(parts@) == split_on(igns@, seq![',']),
            names@.len() == i,
            forall|j: int| 0 <= j < i ==> (#[trigger] names@[j])@ == trimmed(parts@[j]@),
        decreases parts.len() - i,
    {
        names.push(trim_text(parts[i].as_str()));
        i = i + 1;
    }
    proof {
        assert forall|j: int| 0 <= j < parts.len() implies views(names@)[j] == names_in(igns@)[j] by {
            assert(views(parts@)[j] == parts@[j]@);
        }
        assert(views(names@) =~= names_in(igns@));
    }
    names
}

/// Reads year, month and day from a date written as `YYYY-MM-DD`.
pub fn date_parts(date_str: &str) -> (r: Result<(i32, u32, u32), DateError>)
    ensures
        r == date_of(date_str@),
{
    proof {
        reveal_strlit("-");
        assert("-"@ =~= seq!['-']);
    }
    let parts = split(date_str, "-");
    if parts.len() != 3 {
        return Err(DateError::Parts(parts.len()));
    }
    let year = match parse_i32(parts[0].as_str()) {
        Some(n) => n,
        None => {
            return Err(DateError::Year);
        },
    };
    let month = match parse_u32(parts[1].as_str()) {
        Some(n) => n,
        None => {
            return Err(DateError::Month);
        },
    };
    let day = match parse_u32(parts[2].as_str()) {
        Some(n) => n,
        None => {
            return Err(DateError::Day);
        },
    };
    Ok((year, month, day))
}

} // verus!

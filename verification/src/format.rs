//! Text as it is shown to users: names with ids, code spans, and markdown
//! taken literally.

use vstd::prelude::*;
use vstd::string::StringExecFns;
use crate::numerals::{decimal_of, decimal_text, decimal_u64};
use crate::text::chars_of;

verus! {

/// Something that has a name and an id, both of which can be shown.
pub trait HasNameAndID {
    /// The name.
    fn name(&self) -> &str;

    /// The id, as text.
    fn id(&self) -> String;
}

/// `c` is an ASCII letter or digit.
pub open spec fn is_ascii_alphanumeric(c: char) -> bool {
    ||| '0' as u32 <= c as u32 <= '9' as u32
    ||| 'A' as u32 <= c as u32 <= 'Z' as u32
    ||| 'a' as u32 <= c as u32 <= 'z' as u32
}

/// `s` with a backslash before every character that is no ASCII letter or
/// digit, so that markdown takes each for itself.
pub open spec fn escaped(s: Seq<char>) -> Seq<char>
    decreases s.len(),
{
    if s.len() == 0 {
        Seq::empty()
    } else if is_ascii_alphanumeric(s.last()) {
        escaped(s.drop_last()).push(s.last())
    } else {
        escaped(s.drop_last()).push('\\').push(s.last())
    }
}

/// `text` between two copies of `fence`.
pub open spec fn fenced(fence: Seq<char>, text: Seq<char>) -> Seq<char> {
    fence + text + fence
}

/// A name with its id in round brackets.
pub open spec fn shown(name: Seq<char>, id: Seq<char>) -> Seq<char> {
    name + " ("@ + id + ")"@
}

/// Whether `c` is an ASCII letter or digit.
fn ascii_alphanumeric(c: char) -> (yes: bool)
    ensures
        yes == is_ascii_alphanumeric(c),
{
    let n = c as u32;
    ('0' as u32 <= n && n <= '9' as u32) || ('A' as u32 <= n && n <= 'Z' as u32) || ('a' as u32
        <= n && n <= 'z' as u32)
}

/// A name with its id, as `name (id)`.
pub fn name_with_id(name: &str, id: &str) -> (out: String)
    ensures
        out@ == shown(name@, id@),
{
    let mut out = String::from_str(name);
    out.append(" (");
    out.append(id);
    out.append(")");
    out
}

/// A name with its id for markdown: the name escaped, the id as inline code.
pub fn marked_name_with_id(name: &str, id: &str) -> (out: String)
    ensures
        out@ == shown(escaped(name@), fenced("`"@, id@)),
{
    let mut out = escape_markdown(name);
    out.append(" (");
    out.append(inline_code(id).as_str());
    out.append(")");
    out
}

/// The name and the id of `input`, as `name (id)`: `name_with_id` of what
/// `input` gives as its name and its id.
pub fn display<T: HasNameAndID>(input: &T) -> (out: String)
    ensures
        exists|name: &str, id: String|
            call_ensures(T::name, (input,), name) && call_ensures(T::id, (input,), id) && out@
                == shown(name@, id@),
{
    let id = input.id();
    name_with_id(input.name(), id.as_str())
}

/// The name and the id of `input` for markdown: `marked_name_with_id` of
/// what `input` gives as its name and its id.
pub fn fdisplay<T: HasNameAndID>(input: &T) -> (out: String)
    ensures
        exists|name: &str, id: String|
            call_ensures(T::name, (input,), name) && call_ensures(T::id, (input,), id) && out@
                == shown(escaped(name@), fenced("`"@, id@)),
{
    let id = input.id();
    marked_name_with_id(input.name(), id.as_str())
}

/// `input` as inline code: between two backticks.
pub fn inline_code(input: &str) -> (out: String)
    ensures
        out@ == fenced("`"@, input@),
{
    let mut out = String::from_str("`");
    out.append(input);
    out.append("`");
    out
}

/// `input` as a code block: between two fences of three backticks.
pub fn block_code(input: &str) -> (out: String)
    ensures
        out@ == fenced("```"@, input@),
{
    let mut out = String::from_str("```");
    out.append(input);
    out.append("```");
    out
}

/// The tag that mentions the user with the id `id`.
pub open spec fn mention_tag(id: u64) -> Seq<char> {
    seq!['<', '@'] + decimal_of(id as int) + seq!['>']
}

/// The tag that mentions the user with the id `id`.
pub fn user_mention(id: u64) -> (out: String)
    ensures
        out@ == mention_tag(id),
{
    let mut out = String::new();
    out.push('<');
    out.push('@');
    out.append(decimal_u64(id).as_str());
    out.push('>');
    assert(out@ =~= mention_tag(id));
    out
}

/// How a point in time is shown.
#[derive(Clone, Copy, Debug, PartialEq, Eq, Structural)]
pub enum TimestampStyle {
    ShortTime,
    LongTime,
    ShortDate,
    LongDate,
    ShortDateTime,
    LongDateTime,
    Relative,
}

impl TimestampStyle {
    /// The letter that stands for the style.
    pub open spec fn letter(self) -> char {
        match self {
            TimestampStyle::ShortTime => 't',
            TimestampStyle::LongTime => 'T',
            TimestampStyle::ShortDate => 'd',
            TimestampStyle::LongDate => 'D',
            TimestampStyle::ShortDateTime => 'f',
            TimestampStyle::LongDateTime => 'F',
            TimestampStyle::Relative => 'R',
        }
    }
}

/// The tag that shows the point in time `timestamp` seconds after the
/// beginning of 1970 in the style `style`.
pub open spec fn time_tag(timestamp: int, style: TimestampStyle) -> Seq<char> {
    seq!['<', 't', ':'] + decimal_of(timestamp) + seq![':', style.letter(), '>']
}

/// The tag that shows a point in time, given in seconds since the beginning
/// of 1970, in a style.
pub fn time(timestamp: i64, style: TimestampStyle) -> (out: String)
    ensures
        out@ == time_tag(timestamp as int, style),
{
    let mut out = String::new();
    out.push('<');
    out.push('t');
    out.push(':');
    out.append(decimal_text(timestamp).as_str());
    out.push(':');
    out.push(
        match style {
            TimestampStyle::ShortTime => 't',
            TimestampStyle::LongTime => 'T',
            TimestampStyle::ShortDate => 'd',
            TimestampStyle::LongDate => 'D',
            TimestampStyle::ShortDateTime => 'f',
            TimestampStyle::LongDateTime => 'F',
            TimestampStyle::Relative => 'R',
        },
    );
    out.push('>');
    assert(out@ =~= time_tag(timestamp as int, style));
    out
}

/// A point in time as its date and, on the next line, how long ago it was.
pub fn display_time(timestamp: i64) -> (out: String)
    ensures
        out@ == time_tag(timestamp as int, TimestampStyle::LongDate) + seq!['\n'] + time_tag(
            timestamp as int,
            TimestampStyle::Relative,
        ),
{
    let mut out = time(timestamp, TimestampStyle::LongDate);
    out.push('\n');
    out.append(time(timestamp, TimestampStyle::Relative).as_str());
    assert(out@ =~= time_tag(timestamp as int, TimestampStyle::LongDate) + seq!['\n'] + time_tag(
        timestamp as int,
        TimestampStyle::Relative,
    ));
    out
}

/// Puts a backslash before every character of `input` that is no ASCII
/// letter or digit.
pub fn escape_markdown(input: &str) -> (out: String)
    ensures
        out@ == escaped(input@),
{
    let text = chars_of(input);
    let mut out = String::new();
    let mut i: usize = 0;
    while i < text.len()
        invariant
            i <= text.len(),
            text@ == input@,
            out@ == escaped(text@.take(i as int)),
        decreases text.len() - i,
    {
        let c = text[i];
        proof {
            assert(text@.take(i + 1).drop_last() =~= text@.take(i as int));
        }
        if !ascii_alphanumeric(c) {
            out.push('\\');
        }
        out.push(c);
        i = i + 1;
    }
    proof {
        assert(text@.take(text.len() as int) =~= text@);
    }
    out
}

} // verus!

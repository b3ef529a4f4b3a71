//! Running one command for a user: who may, and how its output is shown.

use vstd::prelude::*;
use vstd::string::{StringExecFns, StringSliceAdditionalSpecFns};
use vstd::utf8::*;
use crate::config::ServerChoice;
use crate::format::{block_code, fenced};

verus! {

/// The longest output, in bytes, that is shown whole.
pub const SHOWN_WHOLE: usize = 2000;

/// The bytes that are kept of an output that is not shown whole.
pub const KEPT: usize = 1950;

/// What is shown in place of an empty output.
pub open spec fn no_response() -> Seq<char> {
    "Command ran successfully but there was no response."@
}

/// What is put behind an output that was cut.
pub open spec fn cut_mark() -> Seq<char> {
    "...\n\nResponse was too long and was truncated."@
}

/// The last place at or before `limit` at which `bytes`, the encoding of a
/// text, can be cut between two characters.
pub open spec fn last_boundary(bytes: Seq<u8>, limit: int) -> int
    decreases limit,
{
    if limit <= 0 {
        0
    } else if is_char_boundary(bytes, limit) {
        limit
    } else {
        last_boundary(bytes, limit - 1)
    }
}

/// An output as it is shown, before it is fenced: whole, where its encoding
/// has at most `SHOWN_WHOLE` bytes; else what of it fits `KEPT` bytes without
/// cutting a character, and the mark that it was cut.
pub open spec fn trimmed(text: Seq<char>) -> Seq<char> {
    let bytes = encode_utf8(text);
    if bytes.len() > SHOWN_WHOLE {
        decode_utf8(bytes.subrange(0, last_boundary(bytes, KEPT as int))) + cut_mark()
    } else {
        text
    }
}

/// The reply to a command as it is shown: the output, or a sentence in
/// place of none, trimmed and fenced as a code block.
pub open spec fn shown_reply(reply: Option<Seq<char>>) -> Seq<char> {
    fenced(
        "```"@,
        trimmed(
            match reply {
                Some(text) => text,
                None => no_response(),
            },
        ),
    )
}

/// Whether running commands on the chosen server is left to administrators:
/// it is on the survival server.
pub fn requires_admin(choice: ServerChoice) -> (yes: bool)
    ensures
        yes == (choice == ServerChoice::Smp),
{
    choice == ServerChoice::Smp
}

/// Trims an output to what is shown of it.
pub fn trim_response(text: &str) -> (out: String)
    ensures
        out@ == trimmed(text@),
{
    if text.as_bytes().len() <= SHOWN_WHOLE {
        return String::from_str(text);
    }
    broadcast use {
        encode_utf8_valid_utf8,
        encode_utf8_decode_utf8,
        is_char_boundary_start_end_of_seq,
    };

    let ghost bytes = text.spec_bytes();
    let mut end: usize = KEPT;
    while end > 0 && !text.is_char_boundary(end)
        invariant
            end <= KEPT,
            bytes == text.spec_bytes(),
            last_boundary(bytes, KEPT as int) == last_boundary(bytes, end as int),
        decreases end,
    {
        end = end - 1;
    }
    assert(is_char_boundary(bytes, end as int));
    let (head, _) = text.split_at(end);
    proof {
        assert(head.spec_bytes() == bytes.subrange(0, end as int));
        assert(decode_utf8(encode_utf8(head@)) == head@);
    }
    let mut out = String::from_str(head);
    out.append("...\n\nResponse was too long and was truncated.");
    out
}

/// Shows the reply to a command.
pub fn shape_response(reply: Option<String>) -> (out: String)
    ensures
        out@ == shown_reply(
            match reply {
                Some(text) => Some(text@),
                None => None,
            },
        ),
{
    let trimmed = match reply {
        Some(text) => trim_response(text.as_str()),
        None => trim_response("Command ran successfully but there was no response."),
    };
    block_code(trimmed.as_str())
}

} // verus!

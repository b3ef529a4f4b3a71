//! Character sequences: finding, cutting and joining. The model is
//! `Seq<char>`; the executable scanners are verified against it.

use vstd::prelude::*;
use vstd::string::StringExecFns;

verus! {

/// `String::push` of the standard library: appends one character.
pub assume_specification[ String::push ](s: &mut String, ch: char)
    ensures
        final(s)@ == old(s)@.push(ch),
;

/// `pat` occurs in `s` at position `at`.
pub open spec fn matches_at(s: Seq<char>, pat: Seq<char>, at: int) -> bool {
    &&& 0 <= at
    &&& at + pat.len() <= s.len()
    &&& forall|k: int| 0 <= k < pat.len() ==> s[at + k] == pat[k]
}

/// `pat` occurs somewhere in `s`.
pub open spec fn occurs_in(s: Seq<char>, pat: Seq<char>) -> bool {
    exists|at: int| matches_at(s, pat, at)
}

/// `s` begins with `pat`.
pub open spec fn starts_with(s: Seq<char>, pat: Seq<char>) -> bool {
    matches_at(s, pat, 0)
}

/// The pieces of `s` from the piece that begins at `start`, when the text
/// between `start` and `at` holds no occurrence of `sep` that begins there:
/// the scan moves right from `at`, closes a piece at the leftmost occurrence
/// and resumes behind it.
pub open spec fn split_scan(s: Seq<char>, sep: Seq<char>, start: int, at: int) -> Seq<Seq<char>>
    decreases s.len() - at,
{
    if sep.len() == 0 || start < 0 || at < start || at + sep.len() > s.len() {
        seq![s.subrange(start, s.len() as int)]
    } else if matches_at(s, sep, at) {
        seq![s.subrange(start, at)] + split_scan(s, sep, at + sep.len(), at + sep.len())
    } else {
        split_scan(s, sep, start, at + 1)
    }
}

/// The pieces that the non-overlapping occurrences of `sep` cut `s` into,
/// occurrences taken leftmost first. There is always at least one piece; two
/// occurrences in a row, or one at either end, leave an empty piece. An
/// empty `sep` cuts nowhere.
pub open spec fn split_on(s: Seq<char>, sep: Seq<char>) -> Seq<Seq<char>> {
    split_scan(s, sep, 0, 0)
}

/// The pieces put together again, `sep` between each two neighbours.
pub open spec fn join(pieces: Seq<Seq<char>>, sep: Seq<char>) -> Seq<char>
    decreases pieces.len(),
{
    if pieces.len() == 0 {
        Seq::empty()
    } else if pieces.len() == 1 {
        pieces[0]
    } else {
        pieces[0] + sep + join(pieces.drop_first(), sep)
    }
}

/// `s` with `to` in the place of every occurrence of `from`, occurrences
/// taken leftmost first and not overlapping. An empty `from` occurs nowhere.
pub open spec fn replaced(s: Seq<char>, from: Seq<char>, to: Seq<char>) -> Seq<char> {
    join(split_on(s, from), to)
}

/// The views of a list of strings.
pub open spec fn views(v: Seq<String>) -> Seq<Seq<char>> {
    Seq::new(v.len(), |i: int| v[i]@)
}

/// A scan yields at least one piece.
pub proof fn lemma_scan_yields(s: Seq<char>, sep: Seq<char>, start: int, at: int)
    ensures
        split_scan(s, sep, start, at).len() >= 1,
    decreases s.len() - at,
{
    if sep.len() == 0 || start < 0 || at < start || at + sep.len() > s.len() {
    } else if matches_at(s, sep, at) {
        lemma_scan_yields(s, sep, at + sep.len(), at + sep.len());
    } else {
        lemma_scan_yields(s, sep, start, at + 1);
    }
}

/// The pieces of a scan, joined by the separator, are the text from where
/// the first piece begins.
pub proof fn lemma_join_scan(s: Seq<char>, sep: Seq<char>, start: int, at: int)
    requires
        0 <= start <= at <= s.len(),
    ensures
        join(split_scan(s, sep, start, at), sep) == s.subrange(start, s.len() as int),
    decreases s.len() - at,
{
    let len = s.len() as int;
    let k = sep.len() as int;
    if k == 0 || at + k > len {
    } else if matches_at(s, sep, at) {
        let first = s.subrange(start, at);
        let rest = split_scan(s, sep, at + k, at + k);
        lemma_join_scan(s, sep, at + k, at + k);
        lemma_scan_yields(s, sep, at + k, at + k);
        assert((seq![first] + rest).drop_first() =~= rest);
        assert(s.subrange(at, at + k) =~= sep);
        assert(first + sep + s.subrange(at + k, len) =~= s.subrange(start, len));
    } else {
        lemma_join_scan(s, sep, start, at + 1);
    }
}

/// Cutting loses nothing: the pieces of `s`, joined by `sep`, are `s`.
pub proof fn lemma_join_split(s: Seq<char>, sep: Seq<char>)
    ensures
        split_on(s, sep).len() >= 1,
        join(split_on(s, sep), sep) == s,
{
    lemma_scan_yields(s, sep, 0, 0);
    lemma_join_scan(s, sep, 0, 0);
    assert(s.subrange(0, s.len() as int) =~= s);
}

/// An occurrence in a stretch of a text is an occurrence in the text.
proof fn lemma_match_in_stretch(s: Seq<char>, sep: Seq<char>, from: int, to: int, at: int)
    requires
        0 <= from <= to <= s.len(),
        matches_at(s.subrange(from, to), sep, at),
    ensures
        matches_at(s, sep, from + at),
{
    assert forall|j: int| 0 <= j < sep.len() implies s[from + at + j] == sep[j] by {
        assert(s.subrange(from, to)[at + j] == sep[j]);
    }
}

/// No piece of a scan holds the separator, where none begins between the
/// beginning of the first piece and the place the scan is at.
pub proof fn lemma_scan_pieces_clean(s: Seq<char>, sep: Seq<char>, start: int, at: int)
    requires
        sep.len() > 0,
        0 <= start <= at <= s.len(),
        forall|p: int| start <= p < at ==> !matches_at(s, sep, p),
    ensures
        forall|i: int|
            0 <= i < split_scan(s, sep, start, at).len() ==> !occurs_in(
                #[trigger] split_scan(s, sep, start, at)[i],
                sep,
            ),
    decreases s.len() - at,
{
    let len = s.len() as int;
    let k = sep.len() as int;
    let pieces = split_scan(s, sep, start, at);
    if at + k > len {
        let last = s.subrange(start, len);
        assert forall|o: int| !matches_at(last, sep, o) by {
            if matches_at(last, sep, o) {
                lemma_match_in_stretch(s, sep, start, len, o);
            }
        }
        assert(pieces =~= seq![last]);
        assert(!occurs_in(last, sep));
    } else if matches_at(s, sep, at) {
        let first = s.subrange(start, at);
        let rest = split_scan(s, sep, at + k, at + k);
        lemma_scan_pieces_clean(s, sep, at + k, at + k);
        assert forall|o: int| !matches_at(first, sep, o) by {
            if matches_at(first, sep, o) {
                lemma_match_in_stretch(s, sep, start, at, o);
            }
        }
        assert(!occurs_in(first, sep));
        assert(pieces =~= seq![first] + rest);
        assert forall|i: int| 0 <= i < pieces.len() implies !occurs_in(
            #[trigger] pieces[i],
            sep,
        ) by {
            if i > 0 {
                assert(pieces[i] == rest[i - 1]);
            }
        }
    } else {
        lemma_scan_pieces_clean(s, sep, start, at + 1);
        assert(pieces == split_scan(s, sep, start, at + 1));
    }
}

/// Cutting cuts everywhere: no piece of `s` holds `sep`.
pub proof fn lemma_split_pieces_clean(s: Seq<char>, sep: Seq<char>)
    requires
        sep.len() > 0,
    ensures
        forall|i: int|
            0 <= i < split_on(s, sep).len() ==> !occurs_in(#[trigger] split_on(s, sep)[i], sep),
{
    lemma_scan_pieces_clean(s, sep, 0, 0);
}

/// Joining one piece more puts the separator and the piece at the end.
pub proof fn lemma_join_push(pieces: Seq<Seq<char>>, last: Seq<char>, sep: Seq<char>)
    ensures
        join(pieces.push(last), sep) == if pieces.len() == 0 {
            last
        } else {
            join(pieces, sep) + sep + last
        },
    decreases pieces.len(),
{
    let all = pieces.push(last);
    if pieces.len() == 0 {
        assert(all[0] == last);
    } else {
        let rest = pieces.drop_first();
        lemma_join_push(rest, last, sep);
        assert(all.drop_first() =~= rest.push(last));
        assert(all[0] == pieces[0]);
        if pieces.len() > 1 {
            assert(pieces[0] + sep + (join(rest, sep) + sep + last) =~= pieces[0] + sep + join(
                rest,
                sep,
            ) + sep + last);
        }
    }
}

/// The characters of `s`, in order.
pub fn chars_of(s: &str) -> (out: Vec<char>)
    ensures
        out@ == s@,
{
    let mut out: Vec<char> = Vec::new();
    for c in it: s.chars()
        invariant
            out@ == it.seq().take(it.index() as int),
            it.seq() == s@,
    {
        out.push(c);
    }
    out
}

/// The characters of `s` from position `from` up to, not including, `to`.
pub(crate) fn slice_text(s: &Vec<char>, from: usize, to: usize) -> (piece: String)
    requires
        from <= to <= s@.len(),
    ensures
        piece@ == s@.subrange(from as int, to as int),
{
    let mut piece = String::new();
    let mut i: usize = from;
    while i < to
        invariant
            from <= i <= to <= s@.len(),
            piece@ == s@.subrange(from as int, i as int),
        decreases to - i,
    {
        piece.push(s[i]);
        assert(piece@ =~= s@.subrange(from as int, i + 1));
        i = i + 1;
    }
    piece
}

/// Whether `pat` occurs in `s` at position `at`.
pub(crate) fn occurs_at(s: &Vec<char>, pat: &Vec<char>, at: usize) -> (found: bool)
    ensures
        found == matches_at(s@, pat@, at as int),
{
    if at > s.len() || pat.len() > s.len() - at {
        return false;
    }
    let mut k: usize = 0;
    while k < pat.len()
        invariant
            k <= pat.len(),
            at + pat.len() <= s.len(),
            forall|j: int| 0 <= j < k ==> s@[at + j] == pat@[j],
        decreases pat.len() - k,
    {
        if s[at + k] != pat[k] {
            return false;
        }
        k += 1;
    }
    true
}

/// Whether `s` begins with `pat`.
pub fn has_prefix(s: &str, pat: &str) -> (found: bool)
    ensures
        found == starts_with(s@, pat@),
{
    let text = chars_of(s);
    let prefix = chars_of(pat);
    occurs_at(&text, &prefix, 0)
}

/// Whether two strings hold the same characters.
pub fn same_text(a: &str, b: &str) -> (same: bool)
    ensures
        same == (a@ == b@),
{
    let left = chars_of(a);
    let right = chars_of(b);
    if left.len() != right.len() {
        return false;
    }
    let found = occurs_at(&left, &right, 0);
    proof {
        if found {
            assert(left@ =~= right@);
        }
    }
    found
}

/// Cuts `s` at each occurrence of `sep`. An empty `sep` cuts nowhere.
pub fn split(s: &str, sep: &str) -> (pieces: Vec<String>)
    ensures
        views(pieces@) == split_on(s@, sep@),
{
    let text = chars_of(s);
    let pat = chars_of(sep);
    let mut pieces: Vec<String> = Vec::new();
    let mut start: usize = 0;
    let mut at: usize = 0;
    proof {
        assert(views(pieces@) + split_scan(s@, sep@, 0, 0) =~= split_on(s@, sep@));
    }
    while pat.len() > 0 && pat.len() <= text.len() - at
        invariant
            start <= at <= text.len(),
            text@ == s@,
            pat@ == sep@,
            split_on(s@, sep@) == views(pieces@) + split_scan(s@, sep@, start as int, at as int),
        decreases text.len() - at,
    {
        if occurs_at(&text, &pat, at) {
            let piece = slice_text(&text, start, at);
            proof {
                assert(views(pieces@.push(piece)) =~= views(pieces@) + seq![piece@]);
            }
            pieces.push(piece);
            at = at + pat.len();
            start = at;
        } else {
            at = at + 1;
        }
    }
    let last = slice_text(&text, start, text.len());
    proof {
        assert(views(pieces@.push(last)) =~= views(pieces@) + seq![last@]);
    }
    pieces.push(last);
    pieces
}

/// Puts pieces together, `sep` between each two neighbours.
pub fn join_text(pieces: &Vec<String>, sep: &str) -> (out: String)
    ensures
        out@ == join(views(pieces@), sep@),
{
    let mut out = String::new();
    let mut i: usize = 0;
    while i < pieces.len()
        invariant
            i <= pieces.len(),
            out@ == join(views(pieces@).take(i as int), sep@),
        decreases pieces.len() - i,
    {
        proof {
            let before = views(pieces@).take(i as int);
            assert(views(pieces@).take(i + 1) =~= before.push(pieces@[i as int]@));
            lemma_join_push(before, pieces@[i as int]@, sep@);
        }
        if i > 0 {
            out.append(sep);
        }
        out.append(pieces[i].as_str());
        proof {
            if i == 0 {
                assert(Seq::<char>::empty() + pieces@[0]@ =~= pieces@[0]@);
            }
        }
        i = i + 1;
    }
    proof {
        assert(views(pieces@).take(pieces.len() as int) =~= views(pieces@));
    }
    out
}

/// Puts `to` in the place of every occurrence of `from` in `s`.
pub fn replace_text(s: &str, from: &str, to: &str) -> (out: String)
    ensures
        out@ == replaced(s@, from@, to@),
{
    let pieces = split(s, from);
    join_text(&pieces, to)
}

} // verus!

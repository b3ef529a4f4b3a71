//! The order in which lists of player names are shown.
//!
//! Names that begin with a character that is neither letter nor digit come
//! first; within each group the names stand in the order of their lowercase
//! forms. Names that this does not tell apart keep the order they came in.

use vstd::prelude::*;
use crate::text::{chars_of, views};

verus! {

/// Whether `char::is_alphanumeric` of the standard library holds of `c`:
/// whether Unicode counts it as a letter or a number.
pub uninterp spec fn is_alphanumeric(c: char) -> bool;

/// What `str::to_lowercase` of the standard library gives for `s`: its
/// lowercase form as Unicode defines it.
pub uninterp spec fn lowercase(s: Seq<char>) -> Seq<char>;

/// `char::is_alphanumeric` of the standard library. It depends on `c` alone;
/// this names its result and claims nothing more.
#[verifier::external_body]
fn alphanumeric(c: char) -> (yes: bool)
    ensures
        yes == is_alphanumeric(c),
{
    c.is_alphanumeric()
}

/// `str::to_lowercase` of the standard library. It depends on `s` alone;
/// this names its result and claims nothing more.
#[verifier::external_body]
fn to_lowercase(s: &str) -> (lower: String)
    ensures
        lower@ == lowercase(s@),
{
    s.to_lowercase()
}

/// `a` stands before `b` as strings are ordered: at the first place where
/// they differ `a` has the smaller character, or `a` ends there and `b` goes on.
pub open spec fn text_lt(a: Seq<char>, b: Seq<char>) -> bool
    decreases a.len(),
{
    if b.len() == 0 {
        false
    } else if a.len() == 0 {
        true
    } else if a[0] == b[0] {
        text_lt(a.drop_first(), b.drop_first())
    } else {
        (a[0] as u32) < (b[0] as u32)
    }
}

/// The name begins with a character that is neither letter nor digit.
pub open spec fn marked(name: Seq<char>) -> bool {
    name.len() > 0 && !is_alphanumeric(name[0])
}

/// `a` is shown before `b`, wherever the two stand.
pub open spec fn name_lt(a: Seq<char>, b: Seq<char>) -> bool {
    if marked(a) == marked(b) {
        text_lt(lowercase(a), lowercase(b))
    } else {
        marked(a)
    }
}

/// The order does not tell `a` and `b` apart.
pub open spec fn name_tie(a: Seq<char>, b: Seq<char>) -> bool {
    marked(a) == marked(b) && lowercase(a) == lowercase(b)
}

/// The name at `i` is shown before the name at `j`: by the order of names,
/// and by their places where that order does not tell them apart.
pub open spec fn precedes(names: Seq<Seq<char>>, i: int, j: int) -> bool {
    name_lt(names[i], names[j]) || (name_tie(names[i], names[j]) && i < j)
}

/// `p` lists the place `x`.
pub open spec fn has_place(p: Seq<int>, x: int) -> bool {
    exists|k: int| 0 <= k < p.len() && #[trigger] p[k] == x
}

/// `p` lists the places below `n`, each once.
pub open spec fn lists_places(p: Seq<int>, n: int) -> bool {
    &&& p.len() == n
    &&& forall|k: int| 0 <= k < n ==> 0 <= #[trigger] p[k] < n
    &&& forall|k: int, l: int| 0 <= k < l < n ==> p[k] != p[l]
    &&& forall|x: int| 0 <= x < n ==> #[trigger] has_place(p, x)
}

/// `p` lists the first `n` places in the order in which their names are
/// shown: every place once, and before all those shown behind it.
pub open spec fn shows_first(names: Seq<Seq<char>>, p: Seq<int>, n: int) -> bool {
    &&& lists_places(p, n)
    &&& forall|k: int, l: int| 0 <= k < l < n ==> precedes(names, #[trigger] p[k], #[trigger] p[l])
}

/// `p` is the order in which the names are shown.
pub open spec fn is_showing_order(names: Seq<Seq<char>>, p: Seq<int>) -> bool {
    shows_first(names, p, names.len() as int)
}

/// `after` is `before` in the order in which names are shown: the same
/// names, each as often, sorted, names that tie in the order they had.
pub open spec fn sorted_stably(before: Seq<Seq<char>>, after: Seq<Seq<char>>) -> bool {
    exists|p: Seq<int>| #[trigger]
        is_showing_order(before, p) && after.len() == before.len() && forall|k: int|
            0 <= k < after.len() ==> after[k] == before[p[k]]
}

/// No text stands before itself, and of two texts at most one before the other.
pub proof fn lemma_text_lt_asymmetric(a: Seq<char>, b: Seq<char>)
    ensures
        !(text_lt(a, b) && text_lt(b, a)),
        !text_lt(a, a),
    decreases a.len(),
{
    if a.len() > 0 {
        lemma_text_lt_asymmetric(a.drop_first(), a.drop_first());
        if b.len() > 0 && a[0] == b[0] {
            lemma_text_lt_asymmetric(a.drop_first(), b.drop_first());
        }
    }
}

/// Of two different texts one stands before the other.
pub proof fn lemma_text_lt_total(a: Seq<char>, b: Seq<char>)
    ensures
        a == b || text_lt(a, b) || text_lt(b, a),
    decreases a.len(),
{
    if a.len() == 0 || b.len() == 0 {
        if a.len() == 0 && b.len() == 0 {
            assert(a =~= b);
        }
    } else if a[0] == b[0] {
        lemma_text_lt_total(a.drop_first(), b.drop_first());
        if a.drop_first() == b.drop_first() {
            assert(a =~= seq![a[0]] + a.drop_first());
            assert(b =~= seq![b[0]] + b.drop_first());
        }
    } else {
        vstd::utf8::char_u32_cast(a[0], a[0] as u32);
        vstd::utf8::char_u32_cast(b[0], b[0] as u32);
    }
}

/// What stands before a text stands before all that the text stands before.
pub proof fn lemma_text_lt_transitive(a: Seq<char>, b: Seq<char>, c: Seq<char>)
    requires
        text_lt(a, b),
        text_lt(b, c),
    ensures
        text_lt(a, c),
    decreases a.len(),
{
    if a.len() > 0 && a[0] == b[0] && b[0] == c[0] {
        lemma_text_lt_transitive(a.drop_first(), b.drop_first(), c.drop_first());
    }
}

/// Of two places exactly one is shown before the other, and none before itself.
pub proof fn lemma_precedes_total(names: Seq<Seq<char>>, i: int, j: int)
    ensures
        i != j ==> (precedes(names, i, j) <==> !precedes(names, j, i)),
        !precedes(names, i, i),
{
    let a = lowercase(names[i]);
    let b = lowercase(names[j]);
    lemma_text_lt_asymmetric(a, b);
    lemma_text_lt_asymmetric(a, a);
    lemma_text_lt_total(a, b);
}

/// What is shown before a place is shown before all that the place is shown before.
pub proof fn lemma_precedes_transitive(names: Seq<Seq<char>>, i: int, j: int, k: int)
    requires
        precedes(names, i, j),
        precedes(names, j, k),
    ensures
        precedes(names, i, k),
{
    let a = lowercase(names[i]);
    let b = lowercase(names[j]);
    let c = lowercase(names[k]);
    if text_lt(a, b) && text_lt(b, c) {
        lemma_text_lt_transitive(a, b, c);
    }
}

/// There is one order of showing: two lists in that order are the same list.
/// So `sorted_stably` leaves no choice of what the sorted list is.
pub proof fn lemma_showing_order_unique(names: Seq<Seq<char>>, p: Seq<int>, q: Seq<int>)
    requires
        is_showing_order(names, p),
        is_showing_order(names, q),
    ensures
        p == q,
{
    let n = names.len() as int;
    assert forall|k: int| 0 <= k < n implies p[k] == q[k] by {
        lemma_same_up_to(names, p, q, k);
    }
    assert(p =~= q);
}

/// Two lists in the order of showing agree at `k` and before.
proof fn lemma_same_up_to(names: Seq<Seq<char>>, p: Seq<int>, q: Seq<int>, k: int)
    requires
        is_showing_order(names, p),
        is_showing_order(names, q),
        0 <= k < names.len(),
    ensures
        forall|m: int| 0 <= m <= k ==> p[m] == q[m],
    decreases k,
{
    if k > 0 {
        lemma_same_up_to(names, p, q, k - 1);
    }
    let n = names.len() as int;
    let x = p[k];
    assert(has_place(q, x));
    let l = choose|l: int| 0 <= l < n && q[l] == x;
    let y = q[k];
    assert(has_place(p, y));
    let m = choose|m: int| 0 <= m < n && p[m] == y;
    if l < k {
        assert(p[l] == q[l]);
        assert(p[l] != p[k]);
    } else if l > k {
        assert(precedes(names, q[k], q[l]));
        if m < k {
            assert(p[m] == q[m]);
            assert(q[m] != q[k]);
        } else if m > k {
            assert(precedes(names, p[k], p[m]));
            lemma_precedes_total(names, x, y);
        }
    }
}

/// The places that a list of indices holds.
pub open spec fn places(order: Seq<usize>) -> Seq<int> {
    Seq::new(order.len(), |k: int| order[k] as int)
}

/// Whether `a` stands before `b` as strings are ordered.
fn text_less(a: &Vec<char>, b: &Vec<char>) -> (less: bool)
    ensures
        less == text_lt(a@, b@),
{
    let mut i: usize = 0;
    proof {
        assert(a@.skip(0) =~= a@);
        assert(b@.skip(0) =~= b@);
    }
    while i < a.len() && i < b.len()
        invariant
            i <= a.len(),
            i <= b.len(),
            text_lt(a@, b@) == text_lt(a@.skip(i as int), b@.skip(i as int)),
        decreases a.len() - i,
    {
        if a[i] != b[i] {
            return (a[i] as u32) < (b[i] as u32);
        }
        proof {
            assert(a@.skip(i as int).drop_first() =~= a@.skip(i + 1));
            assert(b@.skip(i as int).drop_first() =~= b@.skip(i + 1));
        }
        i = i + 1;
    }
    i < b.len()
}

/// Whether two texts are the same.
fn text_same(a: &Vec<char>, b: &Vec<char>) -> (same: bool)
    ensures
        same == (a@ == b@),
{
    if a.len() != b.len() {
        return false;
    }
    let mut i: usize = 0;
    while i < a.len()
        invariant
            i <= a.len(),
            a.len() == b.len(),
            forall|j: int| 0 <= j < i ==> a@[j] == b@[j],
        decreases a.len() - i,
    {
        if a[i] != b[i] {
            return false;
        }
        i = i + 1;
    }
    assert(a@ =~= b@);
    true
}

/// What the order looks at in a name: whether it is marked, and its
/// lowercase form.
struct Key {
    marked: bool,
    lower: Vec<char>,
}

impl Key {
    spec fn is_of(&self, name: Seq<char>) -> bool {
        self.marked == marked(name) && self.lower@ == lowercase(name)
    }
}

/// What the order looks at in `name`.
fn key_of(name: &str) -> (key: Key)
    ensures
        key.is_of(name@),
{
    let text = chars_of(name);
    let marked = text.len() > 0 && !alphanumeric(text[0]);
    let lower = to_lowercase(name);
    Key { marked, lower: chars_of(lower.as_str()) }
}

/// Whether the name at `i` is shown before the name at `j`.
fn shown_before(keys: &Vec<Key>, i: usize, j: usize, Ghost(names): Ghost<Seq<Seq<char>>>) -> (before:
    bool)
    requires
        i < keys.len(),
        j < keys.len(),
        keys.len() == names.len(),
        forall|k: int| 0 <= k < keys.len() ==> (#[trigger] keys[k]).is_of(names[k]),
    ensures
        before == precedes(names, i as int, j as int),
{
    let a = &keys[i];
    let b = &keys[j];
    proof {
        lemma_text_lt_asymmetric(a.lower@, b.lower@);
    }
    if a.marked != b.marked {
        a.marked
    } else if text_less(&a.lower, &b.lower) {
        true
    } else {
        i < j && text_same(&a.lower, &b.lower)
    }
}

/// Puts the place `k` into a list of the places before it, where it is shown.
fn insert_place(
    order: &mut Vec<usize>,
    keys: &Vec<Key>,
    k: usize,
    Ghost(names): Ghost<Seq<Seq<char>>>,
)
    requires
        k < keys.len(),
        keys.len() == names.len(),
        forall|i: int| 0 <= i < keys.len() ==> (#[trigger] keys[i]).is_of(names[i]),
        shows_first(names, places(old(order)@), k as int),
    ensures
        shows_first(names, places(final(order)@), k + 1),
{
    let ghost p = places(order@);
    let mut j: usize = k;
    let mut found = false;
    while j > 0 && !found
        invariant
            j <= k,
            k < keys.len(),
            keys.len() == names.len(),
            forall|i: int| 0 <= i < keys.len() ==> (#[trigger] keys[i]).is_of(names[i]),
            order@.len() == k,
            p == places(order@),
            shows_first(names, p, k as int),
            forall|m: int| j <= m < k ==> precedes(names, k as int, #[trigger] p[m]),
            found ==> j > 0 && precedes(names, p[j - 1], k as int),
        decreases
                2 * j + if found {
                    0int
                } else {
                    1int
                },
    {
        assert(p[j - 1] == order@[j - 1]);
        if shown_before(keys, order[j - 1], k, Ghost(names)) {
            found = true;
        } else {
            proof {
                lemma_precedes_total(names, p[j - 1], k as int);
            }
            j = j - 1;
        }
    }
    order.insert(j, k);
    proof {
        let q = places(order@);
        assert(q =~= p.insert(j as int, k as int));
        assert forall|a: int| 0 <= a < k + 1 implies 0 <= #[trigger] q[a] < k + 1 by {
            if a < j {
                assert(q[a] == p[a]);
            } else if a > j {
                assert(q[a] == p[a - 1]);
            }
        }
        assert forall|a: int, b: int| 0 <= a < b < k + 1 implies q[a] != q[b] && precedes(
            names,
            #[trigger] q[a],
            #[trigger] q[b],
        ) by {
            if b < j {
                assert(q[a] == p[a] && q[b] == p[b]);
            } else if b == j {
                assert(q[a] == p[a]);
                assert(precedes(names, p[j - 1], k as int));
                if a < j - 1 {
                    assert(precedes(names, p[a], p[j - 1]));
                    lemma_precedes_transitive(names, p[a], p[j - 1], k as int);
                }
            } else if a == j {
                assert(q[b] == p[b - 1]);
            } else if a < j {
                assert(q[a] == p[a] && q[b] == p[b - 1]);
            } else {
                assert(q[a] == p[a - 1] && q[b] == p[b - 1]);
            }
        }
        assert forall|x: int| 0 <= x < k + 1 implies #[trigger] has_place(q, x) by {
            if x == k {
                assert(q[j as int] == x);
            } else {
                assert(has_place(p, x));
                let a = choose|a: int| 0 <= a < k && p[a] == x;
                if a < j {
                    assert(q[a] == x);
                } else {
                    assert(q[a + 1] == x);
                }
            }
        }
    }
}

/// Sorts names into the order in which they are shown.
pub fn sort_player_list(player_list: &mut Vec<String>)
    ensures
        sorted_stably(views(old(player_list)@), views(final(player_list)@)),
{
    let ghost names = views(player_list@);
    let n = player_list.len();
    let mut keys: Vec<Key> = Vec::new();
    let mut i: usize = 0;
    while i < n
        invariant
            i <= n,
            n == player_list.len(),
            names == views(player_list@),
            keys.len() == i,
            forall|k: int| 0 <= k < i ==> (#[trigger] keys[k]).is_of(names[k]),
        decreases n - i,
    {
        keys.push(key_of(player_list[i].as_str()));
        i = i + 1;
    }
    let mut order: Vec<usize> = Vec::new();
    let mut k: usize = 0;
    while k < n
        invariant
            k <= n,
            n == names.len(),
            keys.len() == n,
            forall|i: int| 0 <= i < keys.len() ==> (#[trigger] keys[i]).is_of(names[i]),
            shows_first(names, places(order@), k as int),
        decreases n - k,
    {
        insert_place(&mut order, &keys, k, Ghost(names));
        k = k + 1;
    }
    let ghost p = places(order@);
    let mut sorted: Vec<String> = Vec::new();
    let mut i: usize = 0;
    while i < n
        invariant
            i <= n,
            n == player_list.len(),
            names == views(player_list@),
            order@.len() == n,
            p == places(order@),
            shows_first(names, p, n as int),
            sorted@.len() == i,
            forall|k: int| 0 <= k < i ==> (#[trigger] sorted@[k])@ == names[p[k]],
        decreases n - i,
    {
        assert(0 <= p[i as int] < n);
        sorted.push(player_list[order[i]].clone());
        i = i + 1;
    }
    *player_list = sorted;
    proof {
        let after = views(player_list@);
        assert(is_showing_order(names, p));
        assert forall|k: int| 0 <= k < after.len() implies after[k] == names[p[k]] by {
            assert(after[k] == sorted@[k]@);
        }
    }
}

} // verus!

//! Text as sequences of characters: the order by code points, substrings, and
//! sorted lists of strings without repetition.

use vstd::prelude::*;

verus! {

broadcast use vstd::string::group_string_axioms;

/// The order of strings by their code points, character by character; a proper
/// prefix comes before what it is a prefix of. It is the order of the strings'
/// bytes in UTF-8.
pub open spec fn text_less(a: Seq<char>, b: Seq<char>) -> bool
    decreases a.len(),
{
    if b.len() == 0 {
        false
    } else if a.len() == 0 {
        true
    } else if a[0] == b[0] {
        text_less(a.drop_first(), b.drop_first())
    } else {
        (a[0] as int) < (b[0] as int)
    }
}

/// No text comes before itself.
pub proof fn lemma_text_less_irreflexive(a: Seq<char>)
    ensures
        !text_less(a, a),
    decreases a.len(),
{
    if a.len() > 0 {
        lemma_text_less_irreflexive(a.drop_first());
    }
}

/// The order is transitive.
pub proof fn lemma_text_less_transitive(a: Seq<char>, b: Seq<char>, c: Seq<char>)
    requires
        text_less(a, b),
        text_less(b, c),
    ensures
        text_less(a, c),
    decreases a.len(),
{
    if a.len() > 0 && a[0] == b[0] && b[0] == c[0] {
        lemma_text_less_transitive(a.drop_first(), b.drop_first(), c.drop_first());
    }
}

/// Of two different texts one comes before the other.
pub proof fn lemma_text_less_total(a: Seq<char>, b: Seq<char>)
    ensures
        a == b || text_less(a, b) || text_less(b, a),
    decreases a.len(),
{
    if a.len() > 0 && b.len() > 0 {
        if a[0] == b[0] {
            lemma_text_less_total(a.drop_first(), b.drop_first());
            if a.drop_first() == b.drop_first() {
                assert(a =~= seq![a[0]] + a.drop_first());
                assert(b =~= seq![b[0]] + b.drop_first());
            }
        } else {
            assert(a[0] as int != b[0] as int);
        }
    } else if a.len() == 0 && b.len() == 0 {
        assert(a =~= b);
    }
}

/// The characters of a string, in a vector.
pub fn chars_of(s: &str) -> (r: Vec<char>)
    ensures
        r@ == s@,
{
    let mut r: Vec<char> = Vec::new();
    for c in it: s.chars()
        invariant
            it.seq() == s@,
            r@ == it.seq().take(it.index()),
    {
        r.push(c);
    }
    r
}

/// Whether two strings hold the same text.
pub fn same_text(a: &str, b: &str) -> (r: bool)
    ensures
        r == (a@ == b@),
{
    let x: String = a.to_owned();
    let y: String = b.to_owned();
    x == y
}

fn chars_less(a: &Vec<char>, b: &Vec<char>) -> (r: bool)
    ensures
        r == text_less(a@, b@),
{
    let mut i: usize = 0;
    assert(a@.skip(0) =~= a@ && b@.skip(0) =~= b@);
    while i < a.len() && i < b.len()
        invariant
            i <= a.len(),
            i <= b.len(),
            text_less(a@, b@) == text_less(a@.skip(i as int), b@.skip(i as int)),
        decreases a.len() - i,
    {
        let x: char = a[i];
        let y: char = b[i];
        if x != y {
            return x < y;
        }
        proof {
            assert(a@.skip(i as int).drop_first() == a@.skip(i + 1));
            assert(b@.skip(i as int).drop_first() == b@.skip(i + 1));
        }
        i += 1;
    }
    i < b.len()
}

/// Whether `a` comes before `b` in the order by code points.
pub fn string_less(a: &str, b: &str) -> (r: bool)
    ensures
        r == text_less(a@, b@),
{
    let ca = chars_of(a);
    let cb = chars_of(b);
    chars_less(&ca, &cb)
}

/// `needle` occurs in `hay` as a run of consecutive characters. The empty text
/// occurs in every text.
pub open spec fn text_contains(hay: Seq<char>, needle: Seq<char>) -> bool {
    exists|at: int|
        0 <= at <= hay.len() - needle.len() && #[trigger] hay.subrange(at, at + needle.len())
            == needle
}

fn occurs_at(hay: &Vec<char>, needle: &Vec<char>, at: usize) -> (r: bool)
    requires
        at + needle.len() <= hay.len(),
    ensures
        r == (hay@.subrange(at as int, at + needle.len()) == needle@),
{
    let mut k: usize = 0;
    while k < needle.len()
        invariant
            k <= needle.len(),
            at + needle.len() <= hay.len(),
            forall|j: int| 0 <= j < k ==> hay@[at + j] == needle@[j],
        decreases needle.len() - k,
    {
        if hay[at + k] != needle[k] {
            assert(hay@.subrange(at as int, at + needle.len())[k as int] != needle@[k as int]);
            return false;
        }
        k += 1;
    }
    assert(hay@.subrange(at as int, at + needle.len()) =~= needle@);
    true
}

/// Whether `needle` occurs in `hay`.
pub fn string_contains(hay: &str, needle: &str) -> (r: bool)
    ensures
        r == text_contains(hay@, needle@),
{
    let h = chars_of(hay);
    let n = chars_of(needle);
    if n.len() > h.len() {
        return false;
    }
    let last: usize = h.len() - n.len();
    let mut at: usize = 0;
    loop
        invariant
            at <= last,
            last == h.len() - n.len(),
            n.len() <= h.len(),
            h@ == hay@,
            n@ == needle@,
            forall|j: int| 0 <= j < at ==> #[trigger] h@.subrange(j, j + n.len()) != n@,
        decreases last - at,
    {
        if occurs_at(&h, &n, at) {
            assert(hay@.subrange(at as int, at + needle@.len()) == needle@);
            return true;
        }
        if at == last {
            return false;
        }
        at += 1;
    }
}

/// The lower-case form that std's `str::to_lowercase` gives a text.
pub uninterp spec fn lowercase_of(text: Seq<char>) -> Seq<char>;

/// Calls std's `str::to_lowercase`, which maps a text to its lower-case form
/// by Unicode's rules; the contract names that form.
#[verifier::external_body]
pub(crate) fn lowercase(s: &str) -> (r: String)
    ensures
        r@ == lowercase_of(s@),
{
    s.to_lowercase()
}

/// The texts of a list of strings.
pub open spec fn texts(v: Seq<String>) -> Seq<Seq<char>> {
    v.map_values(|s: String| s@)
}

/// Ascending by code points, and so without repetition.
pub open spec fn strictly_sorted(s: Seq<Seq<char>>) -> bool {
    forall|i: int, j: int| 0 <= i < j < s.len() ==> text_less(s[i], s[j])
}

/// The members of a finite set of texts in ascending order.
pub open spec fn sorted_of(set: Set<Seq<char>>) -> Seq<Seq<char>> {
    choose|s: Seq<Seq<char>>| strictly_sorted(s) && s.to_set() == set
}

/// Two ascending lists with the same members are the same list.
pub proof fn lemma_sorted_unique(a: Seq<Seq<char>>, b: Seq<Seq<char>>)
    requires
        strictly_sorted(a),
        strictly_sorted(b),
        a.to_set() == b.to_set(),
    ensures
        a == b,
    decreases a.len(),
{
    if a.len() == 0 {
        if b.len() > 0 {
            assert(b.to_set().contains(b[0]));
            assert(a.to_set().contains(b[0]));
        }
        assert(a =~= b);
    } else {
        assert(a.to_set().contains(a[0]));
        assert(b.to_set().contains(a[0]));
        let k = choose|k: int| 0 <= k < b.len() && b[k] == a[0];
        assert(b.to_set().contains(b[0]));
        assert(a.to_set().contains(b[0]));
        let m = choose|m: int| 0 <= m < a.len() && a[m] == b[0];
        lemma_text_less_irreflexive(a[0]);
        if k > 0 {
            if m > 0 {
                lemma_text_less_transitive(a[0], a[m], b[k]);
            }
        }
        assert(a[0] == b[0]);
        let ta = a.drop_first();
        let tb = b.drop_first();
        assert forall|x: Seq<char>| ta.to_set().contains(x) <==> tb.to_set().contains(x) by {
            if ta.to_set().contains(x) {
                let i = choose|i: int| 0 <= i < ta.len() && ta[i] == x;
                assert(a[i + 1] == x);
                lemma_text_less_irreflexive(x);
                assert(b.to_set().contains(x));
                let j = choose|j: int| 0 <= j < b.len() && b[j] == x;
                assert(tb[j - 1] == x);
            }
            if tb.to_set().contains(x) {
                let i = choose|i: int| 0 <= i < tb.len() && tb[i] == x;
                assert(b[i + 1] == x);
                lemma_text_less_irreflexive(x);
                assert(a.to_set().contains(x));
                let j = choose|j: int| 0 <= j < a.len() && a[j] == x;
                assert(ta[j - 1] == x);
            }
        }
        assert(ta.to_set() =~= tb.to_set());
        lemma_sorted_unique(ta, tb);
        assert(a =~= seq![a[0]] + ta);
        assert(b =~= seq![b[0]] + tb);
    }
}

/// An ascending list is the sorted list of its own members.
pub proof fn lemma_sorted_of(s: Seq<Seq<char>>)
    requires
        strictly_sorted(s),
    ensures
        sorted_of(s.to_set()) == s,
{
    lemma_sorted_unique(sorted_of(s.to_set()), s);
}

/// An ascending list with one more member: the result holds `x` and the
/// members of `s`, in ascending order.
pub proof fn lemma_sorted_with(s: Seq<Seq<char>>, x: Seq<char>) -> (r: Seq<Seq<char>>)
    requires
        strictly_sorted(s),
    ensures
        strictly_sorted(r),
        r.to_set() == s.to_set().insert(x),
    decreases s.len(),
{
    if s.len() == 0 {
        let r = seq![x];
        assert(r[0] == x);
        assert(r.to_set() =~= s.to_set().insert(x));
        r
    } else if s.last() == x {
        assert(s.to_set().contains(x));
        assert(s.to_set() =~= s.to_set().insert(x));
        s
    } else if text_less(s.last(), x) {
        let r = s.push(x);
        assert forall|i: int, j: int| 0 <= i < j < r.len() implies text_less(r[i], r[j]) by {
            if j == s.len() && i < s.len() - 1 {
                lemma_text_less_transitive(s[i], s.last(), x);
            }
        }
        assert forall|t: Seq<char>| r.to_set().contains(t) <==> s.to_set().insert(x).contains(
            t,
        ) by {
            if r.to_set().contains(t) {
                let i = choose|i: int| 0 <= i < r.len() && r[i] == t;
                if i < s.len() {
                    assert(s[i] == t);
                }
            }
            if s.to_set().contains(t) {
                let i = choose|i: int| 0 <= i < s.len() && s[i] == t;
                assert(r[i] == t);
            }
            if t == x {
                assert(r[s.len() as int] == t);
            }
        }
        assert(r.to_set() =~= s.to_set().insert(x));
        r
    } else {
        lemma_text_less_total(s.last(), x);
        let front = s.drop_last();
        let placed = lemma_sorted_with(front, x);
        let r = placed.push(s.last());
        assert forall|i: int| 0 <= i < placed.len() implies text_less(placed[i], s.last()) by {
            assert(placed.to_set().contains(placed[i]));
            if placed[i] != x {
                assert(front.to_set().contains(placed[i]));
                let k = choose|k: int| 0 <= k < front.len() && front[k] == placed[i];
                assert(s[k] == placed[i]);
            }
        }
        assert forall|t: Seq<char>| r.to_set().contains(t) <==> s.to_set().insert(x).contains(
            t,
        ) by {
            if r.to_set().contains(t) {
                let i = choose|i: int| 0 <= i < r.len() && r[i] == t;
                if i < placed.len() {
                    assert(placed.to_set().contains(t));
                    if t != x {
                        assert(front.to_set().contains(t));
                        let k = choose|k: int| 0 <= k < front.len() && front[k] == t;
                        assert(s[k] == t);
                    }
                } else {
                    assert(s[s.len() - 1] == t);
                }
            }
            if s.to_set().contains(t) {
                let i = choose|i: int| 0 <= i < s.len() && s[i] == t;
                if i < s.len() - 1 {
                    assert(front[i] == t);
                    assert(front.to_set().contains(t));
                    assert(placed.to_set().contains(t));
                    let k = choose|k: int| 0 <= k < placed.len() && placed[k] == t;
                    assert(r[k] == t);
                } else {
                    assert(r[placed.len() as int] == t);
                }
            }
            if t == x {
                assert(placed.to_set().contains(t));
                let k = choose|k: int| 0 <= k < placed.len() && placed[k] == t;
                assert(r[k] == t);
            }
        }
        assert(r.to_set() =~= s.to_set().insert(x));
        r
    }
}

/// Every finite set of texts has its sorted list: ascending, and with exactly
/// the members of the set.
pub proof fn lemma_sorted_of_finite(set: Set<Seq<char>>)
    requires
        set.finite(),
    ensures
        strictly_sorted(sorted_of(set)),
        sorted_of(set).to_set() == set,
    decreases set.len(),
{
    if set.len() == 0 {
        let none = Seq::<Seq<char>>::empty();
        assert(none.to_set() =~= set);
        assert(strictly_sorted(none) && none.to_set() == set);
    } else {
        let x = set.choose();
        let rest = set.remove(x);
        lemma_sorted_of_finite(rest);
        let r = lemma_sorted_with(sorted_of(rest), x);
        assert(rest.insert(x) =~= set);
        assert(strictly_sorted(r) && r.to_set() == set);
    }
}

/// Puts `s` into an ascending list at its place, unless it is there already.
pub fn insert_sorted(v: &mut Vec<String>, s: String)
    requires
        strictly_sorted(texts(old(v)@)),
    ensures
        strictly_sorted(texts(final(v)@)),
        texts(final(v)@).to_set() == texts(old(v)@).to_set().insert(s@),
{
    let ghost before = texts(v@);
    let mut i: usize = 0;
    while i < v.len() && string_less(v[i].as_str(), s.as_str())
        invariant
            i <= v.len(),
            v@ == old(v)@,
            before == texts(v@),
            forall|j: int| 0 <= j < i ==> text_less(#[trigger] before[j], s@),
        decreases v.len() - i,
    {
        i += 1;
    }
    if i < v.len() && v[i] == s {
        assert(before[i as int] == s@);
        assert(before.to_set().contains(s@));
        assert(before.to_set() =~= before.to_set().insert(s@));
        return ;
    }
    let ghost text = s@;
    v.insert(i, s);
    proof {
        let after = texts(v@);
        assert(after =~= before.insert(i as int, text));
        if i < before.len() {
            lemma_text_less_total(before[i as int], text);
        }
        assert forall|x: int, y: int| 0 <= x < y < after.len() implies text_less(
            after[x],
            after[y],
        ) by {
            if y == i {
            } else if x == i {
                if y > i + 1 {
                    lemma_text_less_transitive(text, before[i as int], before[y - 1]);
                }
            } else if x < i && y > i {
                assert(text_less(before[x], before[y - 1]));
            } else if x < i {
                assert(text_less(before[x], before[y]));
            } else {
                assert(text_less(before[x - 1], before[y - 1]));
            }
        }
        assert forall|t: Seq<char>| after.to_set().contains(t) <==> before.to_set().insert(
            text,
        ).contains(t) by {
            if after.to_set().contains(t) {
                let x = choose|x: int| 0 <= x < after.len() && after[x] == t;
                if x < i {
                    assert(before[x] == t);
                } else if x > i {
                    assert(before[x - 1] == t);
                }
            }
            if before.to_set().contains(t) {
                let x = choose|x: int| 0 <= x < before.len() && before[x] == t;
                if x < i {
                    assert(after[x] == t);
                } else {
                    assert(after[x + 1] == t);
                }
            }
            if t == text {
                assert(after[i as int] == t);
            }
        }
        assert(after.to_set() =~= before.to_set().insert(text));
    }
}

} // verus!

//! The order of strings and the sorted, duplicate-free lists built on it.
//!
//! `String`'s `Ord` compares UTF-8 bytes lexicographically; UTF-8 keeps the
//! order of code points, so on characters it is the lexicographic order by
//! code point that `text_lt` defines.
use vstd::prelude::*;

verus! {

/// Lexicographic order on texts, character by character by code point; a
/// proper prefix comes first.
pub open spec fn text_lt(a: Seq<char>, b: Seq<char>) -> bool
    decreases a.len(),
{
    if a.len() == 0 {
        b.len() > 0
    } else if b.len() == 0 {
        false
    } else if (a[0] as u32) < (b[0] as u32) {
        true
    } else if a[0] == b[0] {
        text_lt(a.drop_first(), b.drop_first())
    } else {
        false
    }
}

/// Every element strictly before the next one.
pub open spec fn strictly_sorted(s: Seq<Seq<char>>) -> bool {
    forall|i: int, j: int| 0 <= i < j < s.len() ==> text_lt(#[trigger] s[i], #[trigger] s[j])
}

/// The distinct elements of `items`, in increasing order.
pub open spec fn sorted_distinct(items: Seq<Seq<char>>) -> Seq<Seq<char>> {
    choose|r: Seq<Seq<char>>| strictly_sorted(r) && r.to_set() == items.to_set()
}

/// No text comes before itself.
pub proof fn lemma_text_lt_irreflexive(a: Seq<char>)
    ensures
        !text_lt(a, a),
    decreases a.len(),
{
    if a.len() > 0 {
        lemma_text_lt_irreflexive(a.drop_first());
    }
}

/// The order is transitive.
pub proof fn lemma_text_lt_transitive(a: Seq<char>, b: Seq<char>, c: Seq<char>)
    requires
        text_lt(a, b),
        text_lt(b, c),
    ensures
        text_lt(a, c),
    decreases a.len(),
{
    if a.len() > 0 && b.len() > 0 && c.len() > 0 {
        if a[0] == b[0] && b[0] == c[0] {
            lemma_text_lt_transitive(a.drop_first(), b.drop_first(), c.drop_first());
        }
    }
}

/// Two different texts are ordered one way or the other.
pub proof fn lemma_text_lt_total(a: Seq<char>, b: Seq<char>)
    requires
        a != b,
    ensures
        text_lt(a, b) || text_lt(b, a),
    decreases a.len(),
{
    if a.len() > 0 && b.len() > 0 {
        if a[0] == b[0] {
            if a.drop_first() == b.drop_first() {
                assert(a =~= seq![a[0]] + a.drop_first());
                assert(b =~= seq![b[0]] + b.drop_first());
            }
            lemma_text_lt_total(a.drop_first(), b.drop_first());
        } else if (a[0] as u32) == (b[0] as u32) {
            vstd::utf8::char_u32_cast(a[0], a[0] as u32);
            vstd::utf8::char_u32_cast(b[0], b[0] as u32);
        }
    } else if a.len() == 0 && b.len() == 0 {
        assert(a =~= b);
    }
}

/// Two strictly sorted lists with the same elements are the same list.
pub proof fn lemma_sorted_unique(r: Seq<Seq<char>>, s: Seq<Seq<char>>)
    requires
        strictly_sorted(r),
        strictly_sorted(s),
        r.to_set() == s.to_set(),
    ensures
        r == s,
    decreases r.len(),
{
    if r.len() == 0 {
        if s.len() > 0 {
            assert(s.to_set().contains(s[0]));
        }
        assert(r =~= s);
    } else {
        assert(r.to_set().contains(r[0]));
        assert(s.len() > 0);
        assert(s.to_set().contains(s[0]));
        let i = choose|i: int| 0 <= i < s.len() && s[i] == r[0];
        let j = choose|j: int| 0 <= j < r.len() && r[j] == s[0];
        if i > 0 {
            assert(text_lt(s[0], s[i]));
            if j > 0 {
                assert(text_lt(r[0], r[j]));
                lemma_text_lt_transitive(r[0], s[0], r[0]);
                lemma_text_lt_irreflexive(r[0]);
            } else {
                lemma_text_lt_irreflexive(r[0]);
            }
        }
        assert(s[0] == r[0]);
        let r1 = r.drop_first();
        let s1 = s.drop_first();
        assert forall|x: Seq<char>| r1.to_set().contains(x) implies s1.to_set().contains(x) by {
            let k = choose|k: int| 0 <= k < r1.len() && r1[k] == x;
            assert(r[k + 1] == x);
            assert(s.to_set().contains(x));
            let m = choose|m: int| 0 <= m < s.len() && s[m] == x;
            if m == 0 {
                assert(text_lt(r[0], r[k + 1]));
                lemma_text_lt_irreflexive(x);
            }
            assert(s1[m - 1] == x);
        }
        assert forall|x: Seq<char>| s1.to_set().contains(x) implies r1.to_set().contains(x) by {
            let k = choose|k: int| 0 <= k < s1.len() && s1[k] == x;
            assert(s[k + 1] == x);
            assert(r.to_set().contains(x));
            let m = choose|m: int| 0 <= m < r.len() && r[m] == x;
            if m == 0 {
                assert(text_lt(s[0], s[k + 1]));
                lemma_text_lt_irreflexive(x);
            }
            assert(r1[m - 1] == x);
        }
        assert(r1.to_set() =~= s1.to_set());
        assert forall|a: int, b: int| 0 <= a < b < r1.len() implies text_lt(
            #[trigger] r1[a],
            #[trigger] r1[b],
        ) by {
            assert(r1[a] == r[a + 1] && r1[b] == r[b + 1]);
        }
        assert forall|a: int, b: int| 0 <= a < b < s1.len() implies text_lt(
            #[trigger] s1[a],
            #[trigger] s1[b],
        ) by {
            assert(s1[a] == s[a + 1] && s1[b] == s[b + 1]);
        }
        lemma_sorted_unique(r1, s1);
        assert(r =~= seq![r[0]] + r1);
        assert(s =~= seq![s[0]] + s1);
    }
}

/// A strictly sorted list with the elements of `items` is their sorted
/// distinct list.
pub proof fn lemma_sorted_distinct_is(items: Seq<Seq<char>>, r: Seq<Seq<char>>)
    requires
        strictly_sorted(r),
        r.to_set() == items.to_set(),
    ensures
        sorted_distinct(items) == r,
{
    let c = sorted_distinct(items);
    assert(strictly_sorted(c) && c.to_set() == items.to_set());
    lemma_sorted_unique(c, r);
}

/// Whether `a` comes strictly before `b`.
pub fn chars_lt(a: &Vec<char>, b: &Vec<char>) -> (r: bool)
    ensures
        r == text_lt(a@, b@),
{
    let mut i: usize = 0;
    assert(a@.skip(0) =~= a@);
    assert(b@.skip(0) =~= b@);
    while i < a.len() && i < b.len() && a[i] == b[i]
        invariant
            i <= a.len(),
            i <= b.len(),
            text_lt(a@, b@) == text_lt(a@.skip(i as int), b@.skip(i as int)),
        decreases a.len() - i,
    {
        assert(a@.skip(i as int).drop_first() =~= a@.skip(i + 1));
        assert(b@.skip(i as int).drop_first() =~= b@.skip(i + 1));
        i += 1;
    }
    if i < a.len() && i < b.len() {
        (a[i] as u32) < (b[i] as u32)
    } else {
        i == a.len() && i < b.len()
    }
}

/// Whether `a` and `b` hold the same characters.
pub fn chars_eq(a: &Vec<char>, b: &Vec<char>) -> (r: bool)
    ensures
        r == (a@ == b@),
{
    if a.len() != b.len() {
        return false;
    }
    let mut i: usize = 0;
    while i < a.len()
        invariant
            i <= a.len(),
            a.len() == b.len(),
            a@.take(i as int) == b@.take(i as int),
        decreases a.len() - i,
    {
        if a[i] != b[i] {
            assert(a@[i as int] != b@[i as int]);
            return false;
        }
        assert(a@.take(i + 1) =~= a@.take(i as int).push(a@[i as int]));
        assert(b@.take(i + 1) =~= b@.take(i as int).push(b@[i as int]));
        i += 1;
    }
    assert(a@.take(a.len() as int) =~= a@);
    assert(b@.take(b.len() as int) =~= b@);
    true
}

/// The character sequences of a vector of character vectors.
pub open spec fn vec_views(v: Seq<Vec<char>>) -> Seq<Seq<char>> {
    v.map_values(|x: Vec<char>| x@)
}

/// Puts `x` into a strictly sorted list, unless it is there already.
pub fn insert_sorted(out: &mut Vec<Vec<char>>, x: Vec<char>)
    requires
        strictly_sorted(vec_views(old(out)@)),
    ensures
        strictly_sorted(vec_views(final(out)@)),
        vec_views(final(out)@).to_set() == vec_views(old(out)@).to_set().insert(x@),
{
    let ghost s = vec_views(out@);
    let mut i: usize = 0;
    while i < out.len() && chars_lt(&out[i], &x)
        invariant
            i <= out.len(),
            s == vec_views(out@),
            strictly_sorted(s),
            forall|k: int| 0 <= k < i ==> text_lt(#[trigger] s[k], x@),
        decreases out.len() - i,
    {
        assert(s[i as int] == out@[i as int]@);
        i += 1;
    }
    if i < out.len() && chars_eq(&out[i], &x) {
        assert(s[i as int] == x@);
        assert(s.to_set().insert(x@) =~= s.to_set());
        return;
    }
    proof {
        if i < out.len() {
            assert(s[i as int] == out@[i as int]@);
            assert(!text_lt(s[i as int], x@));
            assert(s[i as int] != x@);
            lemma_text_lt_total(s[i as int], x@);
        }
    }
    out.insert(i, x);
    let ghost t = vec_views(out@);
    assert(t =~= s.take(i as int).push(x@) + s.skip(i as int));
    assert forall|a: int, b: int| 0 <= a < b < t.len() implies text_lt(
        #[trigger] t[a],
        #[trigger] t[b],
    ) by {
        if b < i {
            assert(t[a] == s[a] && t[b] == s[b]);
        } else if b == i {
            assert(t[a] == s[a]);
        } else if a < i {
            assert(t[a] == s[a] && t[b] == s[b - 1]);
            if a < b - 1 {
            }
        } else if a == i {
            assert(t[b] == s[b - 1]);
            if b - 1 > i {
                lemma_text_lt_transitive(x@, s[i as int], s[b - 1]);
            }
        } else {
            assert(t[a] == s[a - 1] && t[b] == s[b - 1]);
        }
    }
    assert forall|y: Seq<char>| #[trigger] t.to_set().contains(y) == s.to_set().insert(x@).contains(y) by {
        if t.to_set().contains(y) {
            let k = choose|k: int| 0 <= k < t.len() && t[k] == y;
            if k < i {
                assert(s[k] == y);
            } else if k > i {
                assert(s[k - 1] == y);
            }
        }
        if s.to_set().contains(y) {
            let k = choose|k: int| 0 <= k < s.len() && s[k] == y;
            if k < i {
                assert(t[k] == y);
            } else {
                assert(t[k + 1] == y);
            }
        }
        if y == x@ {
            assert(t[i as int] == y);
        }
    }
    assert(t.to_set() =~= s.to_set().insert(x@));
}

/// The distinct texts of `items`, in increasing order.
pub fn sort_distinct(items: &Vec<Vec<char>>) -> (r: Vec<Vec<char>>)
    ensures
        vec_views(r@) == sorted_distinct(vec_views(items@)),
{
    let ghost all = vec_views(items@);
    let mut out: Vec<Vec<char>> = Vec::new();
    let mut i: usize = 0;
    assert(vec_views(out@).to_set() =~= all.take(0).to_set());
    while i < items.len()
        invariant
            i <= items.len(),
            all == vec_views(items@),
            strictly_sorted(vec_views(out@)),
            vec_views(out@).to_set() == all.take(i as int).to_set(),
        decreases items.len() - i,
    {
        let x = items[i].clone();
        insert_sorted(&mut out, x);
        proof {
            assert(all.take(i + 1) =~= all.take(i as int).push(all[i as int]));
            all.take(i as int).lemma_push_to_set_commute(all[i as int]);
        }
        i += 1;
    }
    assert(all.take(items.len() as int) =~= all);
    proof {
        lemma_sorted_distinct_is(all, vec_views(out@));
    }
    out
}

/// The position of the first element of `r` not before `x`.
pub open spec fn first_not_below(r: Seq<Seq<char>>, x: Seq<char>) -> nat
    decreases r.len(),
{
    if r.len() == 0 || !text_lt(r[0], x) {
        0
    } else {
        1 + first_not_below(r.drop_first(), x)
    }
}

proof fn lemma_first_not_below(r: Seq<Seq<char>>, x: Seq<char>)
    ensures
        first_not_below(r, x) <= r.len(),
        forall|k: int| 0 <= k < first_not_below(r, x) ==> text_lt(#[trigger] r[k], x),
        first_not_below(r, x) < r.len() ==> !text_lt(r[first_not_below(r, x) as int], x),
    decreases r.len(),
{
    if r.len() > 0 && text_lt(r[0], x) {
        let t = r.drop_first();
        lemma_first_not_below(t, x);
        assert forall|k: int| 0 <= k < first_not_below(r, x) implies text_lt(#[trigger] r[k], x) by {
            if k > 0 {
                assert(r[k] == t[k - 1]);
            }
        }
        if first_not_below(r, x) < r.len() {
            assert(r[first_not_below(r, x) as int] == t[first_not_below(t, x) as int]);
        }
    }
}

/// Every list has a sorted, duplicate-free list of its elements.
pub proof fn lemma_sorted_distinct_exists(items: Seq<Seq<char>>)
    ensures
        exists|r: Seq<Seq<char>>| strictly_sorted(r) && r.to_set() == items.to_set(),
    decreases items.len(),
{
    if items.len() == 0 {
        let r = Seq::<Seq<char>>::empty();
        assert(r.to_set() =~= items.to_set());
        assert(strictly_sorted(r));
    } else {
        let t = items.drop_last();
        let x = items.last();
        lemma_sorted_distinct_exists(t);
        let r = choose|r: Seq<Seq<char>>| strictly_sorted(r) && r.to_set() == t.to_set();
        lemma_first_not_below(r, x);
        let i = first_not_below(r, x) as int;
        assert(items =~= t.push(x));
        t.lemma_push_to_set_commute(x);
        if i < r.len() && r[i] == x {
            assert(r.to_set().contains(x));
            assert(r.to_set() =~= items.to_set());
        } else {
            if i < r.len() {
                lemma_text_lt_total(r[i], x);
            }
            let u = r.take(i).push(x) + r.skip(i);
            assert forall|a: int, b: int| 0 <= a < b < u.len() implies text_lt(
                #[trigger] u[a],
                #[trigger] u[b],
            ) by {
                if b < i {
                    assert(u[a] == r[a] && u[b] == r[b]);
                } else if b == i {
                    assert(u[a] == r[a]);
                } else if a < i {
                    assert(u[a] == r[a] && u[b] == r[b - 1]);
                    if a < b - 1 {
                    }
                } else if a == i {
                    assert(u[b] == r[b - 1]);
                    if b - 1 > i {
                        lemma_text_lt_transitive(x, r[i], r[b - 1]);
                    }
                } else {
                    assert(u[a] == r[a - 1] && u[b] == r[b - 1]);
                }
            }
            assert forall|y: Seq<char>| #[trigger] u.to_set().contains(y) == r.to_set().insert(
                x,
            ).contains(y) by {
                if u.contains(y) {
                    let k = choose|k: int| 0 <= k < u.len() && u[k] == y;
                    if k < i {
                        assert(r[k] == y);
                    } else if k > i {
                        assert(r[k - 1] == y);
                    }
                }
                if r.contains(y) {
                    let k = choose|k: int| 0 <= k < r.len() && r[k] == y;
                    if k < i {
                        assert(u[k] == y);
                    } else {
                        assert(u[k + 1] == y);
                    }
                }
                if y == x {
                    assert(u[i] == y);
                }
            }
            assert(u.to_set() =~= items.to_set());
        }
    }
}

/// The sorted distinct list of any list is strictly sorted and has exactly
/// its elements.
pub proof fn law_sorted_distinct(items: Seq<Seq<char>>)
    ensures
        strictly_sorted(sorted_distinct(items)),
        sorted_distinct(items).to_set() == items.to_set(),
        sorted_distinct(items).no_duplicates(),
{
    lemma_sorted_distinct_exists(items);
    let r = sorted_distinct(items);
    assert forall|a: int, b: int| 0 <= a < r.len() && 0 <= b < r.len() && a != b implies r[a]
        != r[b] by {
        if a < b {
            assert(text_lt(r[a], r[b]));
        } else {
            assert(text_lt(r[b], r[a]));
        }
        lemma_text_lt_irreflexive(r[a]);
    }
}

} // verus!

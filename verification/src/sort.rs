//! Sorting of the lists the hardware discovery works with: directory names
//! in byte order and channel numbers in numeric order.

use vstd::prelude::*;
use vstd::string::*;

use crate::text::lex_le;

verus! {

broadcast use vstd::seq_lib::group_to_multiset_ensures;

/// The views of a list of strings.
pub open spec fn views(v: Seq<String>) -> Seq<Seq<char>> {
    v.map_values(|s: String| s@)
}

/// Every string of `s` is at most every string after it.
pub open spec fn strings_sorted(s: Seq<Seq<char>>) -> bool {
    forall|i: int, j: int| 0 <= i < j < s.len() ==> lex_le(#[trigger] s[i], #[trigger] s[j])
}

/// Every number of `s` is at most every number after it.
pub open spec fn numbers_sorted(s: Seq<u32>) -> bool {
    forall|i: int, j: int| 0 <= i < j < s.len() ==> #[trigger] s[i] <= #[trigger] s[j]
}

/// Any two strings are ordered one way or the other.
pub proof fn lemma_lex_total(a: Seq<char>, b: Seq<char>)
    ensures
        lex_le(a, b) || lex_le(b, a),
    decreases a.len(),
{
    if a.len() > 0 && b.len() > 0 {
        if a[0] == b[0] {
            lemma_lex_total(a.drop_first(), b.drop_first());
        } else {
            assert((a[0] as int) != (b[0] as int));
        }
    }
}

/// The order is transitive.
pub proof fn lemma_lex_transitive(a: Seq<char>, b: Seq<char>, c: Seq<char>)
    requires
        lex_le(a, b),
        lex_le(b, c),
    ensures
        lex_le(a, c),
    decreases a.len(),
{
    if a.len() > 0 && b.len() > 0 && c.len() > 0 && a[0] == b[0] && b[0] == c[0] {
        lemma_lex_transitive(a.drop_first(), b.drop_first(), c.drop_first());
    }
}

/// Inserting into a sequence adds one occurrence to its multiset.
pub proof fn lemma_insert_to_multiset<A>(s: Seq<A>, pos: int, x: A)
    requires
        0 <= pos <= s.len(),
    ensures
        s.insert(pos, x).to_multiset() =~= s.to_multiset().insert(x),
{
    let t = s.insert(pos, x);
    assert(t.remove(pos) =~= s);
    assert(t[pos] == x);
    assert(t.contains(x));
}

/// `a <= b` on strings, as `str` compares.
pub fn lex_le_str(a: &str, b: &str) -> (r: bool)
    ensures
        r == lex_le(a@, b@),
{
    let na = a.unicode_len();
    let nb = b.unicode_len();
    let mut i: usize = 0;
    assert(a@.skip(0) =~= a@ && b@.skip(0) =~= b@);
    while i < na && i < nb && a.get_char(i) == b.get_char(i)
        invariant
            na == a@.len(),
            nb == b@.len(),
            i <= na,
            i <= nb,
            lex_le(a@, b@) == lex_le(a@.skip(i as int), b@.skip(i as int)),
        decreases na - i,
    {
        assert(a@.skip(i as int).drop_first() =~= a@.skip(i + 1));
        assert(b@.skip(i as int).drop_first() =~= b@.skip(i + 1));
        i = i + 1;
    }
    if i == na {
        true
    } else if i == nb {
        false
    } else {
        let ca = a.get_char(i);
        let cb = b.get_char(i);
        assert(a@.skip(i as int)[0] == ca && b@.skip(i as int)[0] == cb);
        ca < cb
    }
}

/// The strings of `v` in ascending byte order.
pub fn sort_strings(v: Vec<String>) -> (r: Vec<String>)
    ensures
        views(r@).to_multiset() == views(v@).to_multiset(),
        strings_sorted(views(r@)),
{
    let mut r: Vec<String> = Vec::new();
    let mut i: usize = 0;
    assert(views(v@).take(0) =~= Seq::<Seq<char>>::empty());
    assert(views(r@) =~= Seq::<Seq<char>>::empty());
    while i < v.len()
        invariant
            i <= v.len(),
            views(r@).to_multiset() == views(v@).take(i as int).to_multiset(),
            strings_sorted(views(r@)),
        decreases v.len() - i,
    {
        let x = &v[i];
        let mut pos: usize = 0;
        while pos < r.len() && lex_le_str(r[pos].as_str(), x.as_str())
            invariant
                pos <= r.len(),
                forall|k: int| 0 <= k < pos ==> lex_le(#[trigger] views(r@)[k], x@),
            decreases r.len() - pos,
        {
            assert(views(r@)[pos as int] == r@[pos as int]@);
            pos = pos + 1;
        }
        let ghost old_views = views(r@);
        proof {
            if pos < r.len() {
                assert(old_views[pos as int] == r@[pos as int]@);
                lemma_lex_total(old_views[pos as int], x@);
            }
        }
        r.insert(pos, x.clone());
        let ghost new_views = views(r@);
        assert(new_views =~= old_views.insert(pos as int, x@));
        proof {
            lemma_insert_to_multiset(old_views, pos as int, x@);
            assert(views(v@).take(i + 1) =~= views(v@).take(i as int).push(x@));
            assert forall|a: int, b: int| 0 <= a < b < new_views.len() implies lex_le(
                #[trigger] new_views[a],
                #[trigger] new_views[b],
            ) by {
                if b < pos {
                } else if a < pos && b == pos {
                } else if a < pos && b > pos {
                    assert(lex_le(old_views[a], x@));
                    assert(lex_le(x@, old_views[pos as int]));
                    if b - 1 > pos {
                        assert(lex_le(old_views[pos as int], old_views[b - 1]));
                        lemma_lex_transitive(x@, old_views[pos as int], old_views[b - 1]);
                    }
                    lemma_lex_transitive(old_views[a], x@, old_views[b - 1]);
                } else if a == pos {
                    assert(lex_le(x@, old_views[pos as int]));
                    if b - 1 > pos {
                        assert(lex_le(old_views[pos as int], old_views[b - 1]));
                        lemma_lex_transitive(x@, old_views[pos as int], old_views[b - 1]);
                    }
                } else {
                }
            }
        }
        i = i + 1;
    }
    assert(views(v@).take(v.len() as int) =~= views(v@));
    r
}

/// The numbers of `v` in ascending order.
pub fn sort_numbers(v: Vec<u32>) -> (r: Vec<u32>)
    ensures
        r@.to_multiset() == v@.to_multiset(),
        numbers_sorted(r@),
{
    let mut r: Vec<u32> = Vec::new();
    let mut i: usize = 0;
    assert(v@.take(0) =~= Seq::<u32>::empty());
    while i < v.len()
        invariant
            i <= v.len(),
            r@.to_multiset() == v@.take(i as int).to_multiset(),
            numbers_sorted(r@),
        decreases v.len() - i,
    {
        let x = v[i];
        let mut pos: usize = 0;
        while pos < r.len() && r[pos] <= x
            invariant
                pos <= r.len(),
                forall|k: int| 0 <= k < pos ==> #[trigger] r@[k] <= x,
            decreases r.len() - pos,
        {
            pos = pos + 1;
        }
        let ghost old_r = r@;
        r.insert(pos, x);
        proof {
            lemma_insert_to_multiset(old_r, pos as int, x);
            assert(v@.take(i + 1) =~= v@.take(i as int).push(x));
            assert forall|a: int, b: int| 0 <= a < b < r@.len() implies #[trigger] r@[a]
                <= #[trigger] r@[b] by {
                if b < pos {
                    assert(r@[a] == old_r[a] && r@[b] == old_r[b]);
                } else if b == pos {
                    assert(r@[a] == old_r[a]);
                } else if a < pos {
                    assert(r@[a] == old_r[a] && r@[b] == old_r[b - 1]);
                    assert(old_r[pos as int] <= old_r[b - 1]);
                } else if a == pos {
                    assert(r@[b] == old_r[b - 1]);
                    assert(old_r[pos as int] <= old_r[b - 1]);
                } else {
                    assert(r@[a] == old_r[a - 1] && r@[b] == old_r[b - 1]);
                }
            }
        }
        i = i + 1;
    }
    assert(v@.take(v.len() as int) =~= v@);
    r
}

} // verus!

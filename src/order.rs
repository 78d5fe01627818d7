use vstd::prelude::*;
use vstd::multiset::Multiset;
use vstd::seq_lib::*;

verus! {

broadcast use {group_to_multiset_ensures, to_multiset_insert, vstd::multiset::group_multiset_axioms};

/// Byte-wise lexicographic order: `a` sorts before or with `b`.
pub open spec fn lex_le(a: Seq<u8>, b: Seq<u8>) -> bool
    decreases a.len(),
{
    if a.len() == 0 {
        true
    } else if b.len() == 0 {
        false
    } else if a[0] != b[0] {
        a[0] < b[0]
    } else {
        lex_le(a.drop_first(), b.drop_first())
    }
}

proof fn lemma_lex_total(a: Seq<u8>, b: Seq<u8>)
    ensures
        lex_le(a, b) || lex_le(b, a),
    decreases a.len(),
{
    if a.len() > 0 && b.len() > 0 && a[0] == b[0] {
        lemma_lex_total(a.drop_first(), b.drop_first());
    }
}

proof fn lemma_lex_trans(a: Seq<u8>, b: Seq<u8>, c: Seq<u8>)
    requires
        lex_le(a, b),
        lex_le(b, c),
    ensures
        lex_le(a, c),
    decreases a.len(),
{
    if a.len() > 0 && b.len() > 0 && c.len() > 0 && a[0] == b[0] && b[0] == c[0] {
        lemma_lex_trans(a.drop_first(), b.drop_first(), c.drop_first());
    }
}

/// Compares two byte strings in lexicographic order.
pub fn bytes_le(a: &Vec<u8>, b: &Vec<u8>) -> (r: bool)
    ensures
        r == lex_le(a@, b@),
{
    let mut i: usize = 0;
    assert(a@.subrange(0, a@.len() as int) =~= a@);
    assert(b@.subrange(0, b@.len() as int) =~= b@);
    while i < a.len() && i < b.len() && a[i] == b[i]
        invariant
            i <= a@.len(),
            i <= b@.len(),
            lex_le(a@, b@) == lex_le(
                a@.subrange(i as int, a@.len() as int),
                b@.subrange(i as int, b@.len() as int),
            ),
        decreases a@.len() - i,
    {
        assert(a@.subrange(i as int, a@.len() as int).drop_first() =~= a@.subrange(i + 1, a@.len() as int));
        assert(b@.subrange(i as int, b@.len() as int).drop_first() =~= b@.subrange(i + 1, b@.len() as int));
        i = i + 1;
    }
    if i == a.len() {
        true
    } else if i == b.len() {
        false
    } else {
        a[i] < b[i]
    }
}

/// Ascending by index.
pub open spec fn sorted_by_index<T>(s: Seq<(i32, T)>) -> bool {
    forall|i: int, j: int| 0 <= i < j < s.len() ==> s[i].0 <= s[j].0
}

/// Ascending by name, in byte-wise lexicographic order.
pub open spec fn sorted_by_name<T>(s: Seq<(Vec<u8>, T)>) -> bool {
    forall|i: int, j: int| 0 <= i < j < s.len() ==> lex_le(s[i].0@, s[j].0@)
}

/// The items in ascending order of index; items of equal index keep their
/// order.
pub fn sort_by_index<T>(items: Vec<(i32, T)>) -> (r: Vec<(i32, T)>)
    ensures
        sorted_by_index(r@),
        r@.to_multiset() == items@.to_multiset(),
{
    let mut rest = items;
    assert(Seq::<(i32, T)>::empty().to_multiset() =~= Multiset::empty());
    let mut out: Vec<(i32, T)> = Vec::new();
    while rest.len() > 0
        invariant
            sorted_by_index(out@),
            out@.to_multiset().add(rest@.to_multiset()) == items@.to_multiset(),
        decreases rest@.len(),
    {
        let ghost before = rest@;
        let ghost before_out = out@;
        let item = rest.remove(0);
        let mut p: usize = out.len();
        while p > 0 && out[p - 1].0 > item.0
            invariant
                p <= out@.len(),
                forall|j: int| p <= j < out@.len() ==> out@[j].0 > item.0,
            decreases p,
        {
            p = p - 1;
        }
        let ghost prev = out@;
        out.insert(p, item);
        proof {
            assert(before.remove(0) == rest@);
            assert(before[0] == item);
            assert(before.contains(item));
            assert(out@ == before_out.insert(p as int, item));
            assert(out@.to_multiset().add(rest@.to_multiset()) =~= before_out.to_multiset().add(
                before.to_multiset(),
            ));
            assert forall|i: int, j: int| 0 <= i < j < out@.len() implies out@[i].0 <= out@[j].0 by {
                if j == p {
                    assert(out@[i] == prev[i]);
                    assert(prev[i].0 <= prev[p - 1].0 || i == p - 1);
                } else if i == p {
                    assert(out@[j] == prev[j - 1]);
                } else {
                    let pi = if i < p { i } else { i - 1 };
                    let pj = if j < p { j } else { j - 1 };
                    assert(out@[i] == prev[pi]);
                    assert(out@[j] == prev[pj]);
                }
            }
        }
    }
    proof {
        assert(rest@.to_multiset() =~= Multiset::empty());
    }
    out
}

/// The items in ascending byte-wise order of name; items of equal name keep
/// their order.
pub fn sort_by_name<T>(items: Vec<(Vec<u8>, T)>) -> (r: Vec<(Vec<u8>, T)>)
    ensures
        sorted_by_name(r@),
        r@.to_multiset() == items@.to_multiset(),
{
    let mut rest = items;
    assert(Seq::<(Vec<u8>, T)>::empty().to_multiset() =~= Multiset::empty());
    let mut out: Vec<(Vec<u8>, T)> = Vec::new();
    while rest.len() > 0
        invariant
            sorted_by_name(out@),
            out@.to_multiset().add(rest@.to_multiset()) == items@.to_multiset(),
        decreases rest@.len(),
    {
        let ghost before = rest@;
        let ghost before_out = out@;
        let item = rest.remove(0);
        let mut p: usize = out.len();
        while p > 0 && !bytes_le(&out[p - 1].0, &item.0)
            invariant
                p <= out@.len(),
                forall|j: int| p <= j < out@.len() ==> !lex_le(#[trigger] out@[j].0@, item.0@),
            decreases p,
        {
            p = p - 1;
        }
        let ghost prev = out@;
        out.insert(p, item);
        proof {
            assert(before.remove(0) == rest@);
            assert(before[0] == item);
            assert(before.contains(item));
            assert(out@ == before_out.insert(p as int, item));
            assert(out@.to_multiset().add(rest@.to_multiset()) =~= before_out.to_multiset().add(
                before.to_multiset(),
            ));
            assert forall|i: int, j: int| 0 <= i < j < out@.len() implies lex_le(out@[i].0@, out@[j].0@) by {
                if j == p {
                    assert(out@[i] == prev[i]);
                    if i < p - 1 {
                        lemma_lex_trans(prev[i].0@, prev[p - 1].0@, item.0@);
                    }
                } else if i == p {
                    assert(out@[j] == prev[j - 1]);
                    lemma_lex_total(item.0@, prev[j - 1].0@);
                } else {
                    let pi = if i < p { i } else { i - 1 };
                    let pj = if j < p { j } else { j - 1 };
                    assert(out@[i] == prev[pi]);
                    assert(out@[j] == prev[pj]);
                }
            }
        }
    }
    proof {
        assert(rest@.to_multiset() =~= Multiset::empty());
    }
    out
}

} // verus!

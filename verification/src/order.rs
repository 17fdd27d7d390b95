//! Lexicographic order on sensor identifiers, by Unicode code point:
//! the order in which the source catalog is returned (descending).

use vstd::prelude::*;
use vstd::string::StrSliceExecFns;

verus! {

/// Strict lexicographic comparison of `a` and `b`, both already equal
/// before position `i`.
pub open spec fn lex_lt_from(a: Seq<char>, b: Seq<char>, i: int) -> bool
    recommends
        0 <= i,
    decreases b.len() - i,
{
    if i >= b.len() {
        false
    } else if i >= a.len() {
        true
    } else if (a[i] as int) < (b[i] as int) {
        true
    } else if a[i] == b[i] {
        lex_lt_from(a, b, i + 1)
    } else {
        false
    }
}

/// `a` is strictly before `b` in lexicographic code-point order.
pub open spec fn lex_lt(a: Seq<char>, b: Seq<char>) -> bool {
    lex_lt_from(a, b, 0)
}

proof fn lemma_lex_from_total(a: Seq<char>, b: Seq<char>, i: int)
    requires
        0 <= i <= a.len(),
        0 <= i <= b.len(),
        !lex_lt_from(a, b, i),
        !lex_lt_from(b, a, i),
    ensures
        a.len() == b.len(),
        forall|j: int| i <= j < a.len() ==> a[j] == b[j],
    decreases a.len() - i,
{
    if i >= b.len() {
        assert(i >= a.len());
    } else {
        assert(i < a.len());
        assert(a[i] == b[i]);
        lemma_lex_from_total(a, b, i + 1);
    }
}

/// Totality: two identifiers neither of which is before the other are
/// the same sequence of characters.
pub proof fn lemma_lex_trichotomy(a: Seq<char>, b: Seq<char>)
    requires
        !lex_lt(a, b),
        !lex_lt(b, a),
    ensures
        a == b,
{
    lemma_lex_from_total(a, b, 0);
    assert(a =~= b);
}

proof fn lemma_lex_from_trans(a: Seq<char>, b: Seq<char>, c: Seq<char>, i: int)
    requires
        0 <= i,
        lex_lt_from(a, b, i),
        lex_lt_from(b, c, i),
    ensures
        lex_lt_from(a, c, i),
    decreases c.len() - i,
{
    if i < a.len() && i < b.len() && a[i] == b[i] && b[i] == c[i] {
        lemma_lex_from_trans(a, b, c, i + 1);
    }
}

/// Transitivity of the lexicographic order.
pub proof fn lemma_lex_trans(a: Seq<char>, b: Seq<char>, c: Seq<char>)
    requires
        lex_lt(a, b),
        lex_lt(b, c),
    ensures
        lex_lt(a, c),
{
    lemma_lex_from_trans(a, b, c, 0);
}

/// Non-strict order: `a` is before `b`, or is the same identifier.
pub open spec fn lex_le(a: Seq<char>, b: Seq<char>) -> bool {
    lex_lt(a, b) || a == b
}

/// Transitivity of the non-strict order.
pub proof fn lemma_lex_le_trans(a: Seq<char>, b: Seq<char>, c: Seq<char>)
    requires
        lex_le(a, b),
        lex_le(b, c),
    ensures
        lex_le(a, c),
{
    if a != b && b != c {
        lemma_lex_trans(a, b, c);
    }
}

/// Compares two identifiers in lexicographic code-point order.
pub fn str_lt(a: &String, b: &String) -> (r: bool)
    ensures
        r == lex_lt(a@, b@),
{
    let alen = a.as_str().unicode_len();
    let blen = b.as_str().unicode_len();
    let mut i: usize = 0;
    loop
        invariant
            i <= alen,
            i <= blen,
            alen == a@.len(),
            blen == b@.len(),
            lex_lt(a@, b@) == lex_lt_from(a@, b@, i as int),
        decreases blen - i,
    {
        if i >= blen {
            return false;
        }
        if i >= alen {
            return true;
        }
        let ca = a.as_str().get_char(i);
        let cb = b.as_str().get_char(i);
        proof {
            assert((ca as u32) as int == ca as int);
            assert((cb as u32) as int == cb as int);
        }
        if (ca as u32) < (cb as u32) {
            return true;
        }
        if ca != cb {
            return false;
        }
        i = i + 1;
    }
}

/// Sorts identifiers into descending lexicographic order, keeping
/// every element, duplicates included: the result holds exactly the
/// given identifiers, each one no later in the order than the one
/// before it.
pub fn sort_sources_descending(ids: Vec<String>) -> (r: Vec<String>)
    ensures
        forall|p: int, q: int|
            0 <= p < q < r@.len() ==> lex_le((#[trigger] r@[q])@, (#[trigger] r@[p])@),
        r@.to_multiset() == ids@.to_multiset(),
        r@.len() == ids@.len(),
{
    broadcast use vstd::seq_lib::group_to_multiset_ensures;

    let mut out: Vec<String> = Vec::new();
    let n = ids.len();
    let mut i: usize = 0;
    while i < n
        invariant
            i <= n,
            n == ids@.len(),
            forall|p: int, q: int|
                0 <= p < q < out@.len() ==> lex_le((#[trigger] out@[q])@, (#[trigger] out@[p])@),
            out@.to_multiset() == ids@.take(i as int).to_multiset(),
            out@.len() == i,
        decreases n - i,
    {
        let v: String = ids[i].clone();
        let mut pos: usize = 0;
        while pos < out.len() && str_lt(&v, &out[pos])
            invariant
                pos <= out@.len(),
                forall|t: int| 0 <= t < pos ==> lex_lt(v@, (#[trigger] out@[t])@),
            decreases out@.len() - pos,
        {
            pos = pos + 1;
        }
        let ghost prev = out@;
        proof {
            assert(v == ids@[i as int]);
            assert(ids@.take(i + 1) =~= ids@.take(i as int).push(ids@[i as int]));
            vstd::seq_lib::to_multiset_build(ids@.take(i as int), ids@[i as int]);
            vstd::seq_lib::to_multiset_insert(prev, pos as int, v);
            prev.insert_ensures(pos as int, v);
            if (pos as int) < prev.len() {
                if !lex_lt(prev[pos as int]@, v@) {
                    lemma_lex_trichotomy(v@, prev[pos as int]@);
                }
                assert(lex_le(prev[pos as int]@, v@));
            }
            let s2 = prev.insert(pos as int, v);
            assert forall|p: int, q: int| 0 <= p < q < s2.len() implies lex_le(
                (#[trigger] s2[q])@,
                (#[trigger] s2[p])@,
            ) by {
                if q < pos {
                    assert(s2[p] == prev[p] && s2[q] == prev[q]);
                    assert(lex_le(prev[q]@, prev[p]@));
                } else if p < pos && q == pos {
                    assert(s2[p] == prev[p] && s2[q] == v);
                    assert(lex_lt(v@, prev[p]@));
                } else if p < pos && q > pos {
                    assert(s2[p] == prev[p] && s2[q] == prev[q - 1]);
                    assert(lex_le(prev[q - 1]@, prev[p]@));
                } else if p == pos && q > pos {
                    assert(s2[p] == v && s2[q] == prev[q - 1]);
                    assert(lex_le(prev[pos as int]@, v@));
                    if pos < q - 1 {
                        assert(lex_le(prev[q - 1]@, prev[pos as int]@));
                        lemma_lex_le_trans(prev[q - 1]@, prev[pos as int]@, v@);
                    }
                } else {
                    assert(s2[p] == prev[p - 1] && s2[q] == prev[q - 1]);
                    assert(lex_le(prev[q - 1]@, prev[p - 1]@));
                }
            }
        }
        out.insert(pos, v);
        proof {
            assert(out@ == prev.insert(pos as int, v));
        }
        i = i + 1;
    }
    proof {
        assert(ids@.take(n as int) =~= ids@);
    }
    out
}

} // verus!

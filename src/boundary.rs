//! The mathematical model: where the trailing run of a byte value starts.
use vstd::prelude::*;

verus! {

/// Every byte of `s` equals `target`.
pub open spec fn all_match(s: Seq<u8>, target: u8) -> bool {
    forall|i: int| 0 <= i < s.len() ==> s[i] == target
}

/// The length of `s` once the maximal run of `target` at its end is removed.
pub open spec fn trim_boundary(s: Seq<u8>, target: u8) -> nat
    decreases s.len(),
{
    if s.len() == 0 {
        0
    } else if s.last() == target {
        trim_boundary(s.drop_last(), target)
    } else {
        s.len()
    }
}

/// The boundary is the start of the maximal suffix made only of `target`:
/// every byte from it to the end is `target`, and the byte just before it,
/// if any, is not.
pub proof fn lemma_boundary_is_maximal_suffix(s: Seq<u8>, target: u8)
    ensures
        trim_boundary(s, target) <= s.len(),
        all_match(s.subrange(trim_boundary(s, target) as int, s.len() as int), target),
        trim_boundary(s, target) == 0 || s[trim_boundary(s, target) - 1] != target,
    decreases s.len(),
{
    if s.len() > 0 && s.last() == target {
        lemma_boundary_is_maximal_suffix(s.drop_last(), target);
        let b = trim_boundary(s, target) as int;
        let tail = s.subrange(b, s.len() as int);
        assert forall|i: int| 0 <= i < tail.len() implies tail[i] == target by {
            if i < tail.len() - 1 {
                assert(tail[i] == s.drop_last().subrange(b, s.len() - 1)[i]);
            }
        }
    }
}

/// A sequence has boundary zero exactly when every byte of it is `target`.
pub proof fn lemma_boundary_zero_iff_all_match(s: Seq<u8>, target: u8)
    ensures
        trim_boundary(s, target) == 0 <==> all_match(s, target),
    decreases s.len(),
{
    lemma_boundary_is_maximal_suffix(s, target);
    if trim_boundary(s, target) == 0 {
        assert(s.subrange(0, s.len() as int) =~= s);
    }
    if s.len() > 0 && all_match(s, target) {
        lemma_boundary_zero_iff_all_match(s.drop_last(), target);
    }
}

/// A sequence whose last byte is not `target` keeps its whole length.
pub proof fn lemma_last_byte_differs_keeps_length(s: Seq<u8>, target: u8)
    requires
        s.len() > 0,
        s.last() != target,
    ensures
        trim_boundary(s, target) == s.len(),
{
}

/// Cutting at the boundary leaves a sequence whose boundary is its own
/// length: trimming what was trimmed removes nothing more.
pub proof fn lemma_boundary_of_trimmed(s: Seq<u8>, target: u8)
    ensures
        trim_boundary(s.subrange(0, trim_boundary(s, target) as int), target)
            == trim_boundary(s, target),
{
    lemma_boundary_is_maximal_suffix(s, target);
    let b = trim_boundary(s, target) as int;
    let kept = s.subrange(0, b);
    if b > 0 {
        assert(kept.last() == s[b - 1]);
    }
}

/// The boundary of a concatenation: a tail with some byte other than
/// `target` decides it alone; a tail made only of `target` is cut whole.
pub proof fn lemma_boundary_of_concat(p: Seq<u8>, q: Seq<u8>, target: u8)
    ensures
        trim_boundary(p + q, target) == if all_match(q, target) {
            trim_boundary(p, target)
        } else {
            p.len() + trim_boundary(q, target)
        },
    decreases q.len(),
{
    if q.len() == 0 {
        assert(p + q =~= p);
    } else {
        assert((p + q).drop_last() =~= p + q.drop_last());
        assert((p + q).last() == q.last());
        if q.last() == target {
            lemma_boundary_of_concat(p, q.drop_last(), target);
            assert(all_match(q, target) == all_match(q.drop_last(), target)) by {
                if all_match(q.drop_last(), target) {
                    assert forall|i: int| 0 <= i < q.len() implies q[i] == target by {
                        if i < q.len() - 1 {
                            assert(q[i] == q.drop_last()[i]);
                        }
                    }
                }
            }
        } else {
            assert(!all_match(q, target)) by {
                assert(q[q.len() - 1] != target);
            }
        }
    }
}

} // verus!

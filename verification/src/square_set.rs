//! The `SquareSet` type: an arbitrary subset of the 64 board cells,
//! represented as a 64-bit presence mask (bit `i` set means the square with
//! index `i` is a member).
use crate::square::{square_index_of, Square, SquareError, Squarish};
use vstd::prelude::*;

verus! {

/// A subset of the board, one bit per cell.
///
/// Every bit position of the 64-bit mask corresponds to exactly one board
/// cell, so every `u64` value is a valid set.
#[derive(Copy, Clone, Debug, PartialEq, Eq, Structural, Hash)]
pub struct SquareSet {
    pub mask: u64,
}

/// Anything that can unambiguously denote a set of squares: a raw mask, a
/// single square, an existing set, or a sequence of square denotations to be
/// unioned. Textual notation for whole sets has no canonical form here and
/// is left to collaborators.
pub enum Setish {
    U64(u64),
    SQ(Square),
    SS(SquareSet),
    VEC(Vec<Squarish>),
}

/// The union of the singleton masks denoted by a sequence of `Squarish`
/// values, or the error of the first element that denotes no square.
pub open spec fn union_mask(elems: Seq<Squarish>) -> Result<u64, SquareError>
    decreases elems.len(),
{
    if elems.len() == 0 {
        Ok(0u64)
    } else {
        match union_mask(elems.drop_last()) {
            Err(e) => Err(e),
            Ok(m) => match square_index_of(elems.last()) {
                Err(e) => Err(e),
                Ok(i) => Ok(m | (1u64 << (i as u64))),
            },
        }
    }
}

/// The mask that a `Setish` value denotes, or the error construction reports
/// for it. This is the complete model of set construction. Every 64-bit raw
/// mask addresses only the 64 board cells, so none is rejected.
pub open spec fn set_mask_of(s: Setish) -> Result<u64, SquareError> {
    match s {
        Setish::U64(m) => Ok(m),
        Setish::SQ(sq) => Ok(1u64 << (sq@ as u64)),
        Setish::SS(ss) => Ok(ss.mask),
        Setish::VEC(v) => union_mask(v@),
    }
}

impl SquareSet {
    /// Build a `SquareSet` from any supported encoding, or report exactly why
    /// the input denotes no set. Construction is a pure function of the
    /// input: `set_mask_of` is its complete model.
    pub fn from(initializer: Setish) -> (r: Result<SquareSet, SquareError>)
        ensures
            ({
                match set_mask_of(initializer) {
                    Ok(m) => r == Ok::<SquareSet, SquareError>((SquareSet { mask: m })),
                    Err(e) => r == Err::<SquareSet, SquareError>(e),
                }
            }),
    {
        match initializer {
            Setish::U64(m) => Ok(SquareSet { mask: m }),
            Setish::SQ(sq) => Ok(SquareSet { mask: 1u64 << (sq.index() as u64) }),
            Setish::SS(ss) => Ok(ss),
            Setish::VEC(v) => Self::from_elements(v),
        }
    }

    /// Resolve each element independently as a square and union the results;
    /// the first element that resolves to no square aborts the whole
    /// construction with that element's error.
    fn from_elements(elems: Vec<Squarish>) -> (r: Result<SquareSet, SquareError>)
        ensures
            ({
                match union_mask(elems@) {
                    Ok(m) => r == Ok::<SquareSet, SquareError>((SquareSet { mask: m })),
                    Err(e) => r == Err::<SquareSet, SquareError>(e),
                }
            }),
    {
        let ghost all: Seq<Squarish> = elems@;
        let mut rest = elems;
        let ghost mut k: int = 0;
        let mut acc: u64 = 0;
        #[verifier::loop_isolation(false)]
        while rest.len() > 0
            invariant
                0 <= k <= all.len(),
                rest@ == all.skip(k),
                union_mask(all.take(k)) == Ok::<u64, SquareError>(acc),
            decreases rest@.len(),
        {
            let x = rest.remove(0);
            proof {
                assert(x == all[k]);
                assert(rest@ =~= all.skip(k + 1));
                assert(all.take(k + 1).drop_last() =~= all.take(k));
                assert(all.take(k + 1).last() == all[k]);
            }
            match Square::from(x) {
                Ok(sq) => {
                    acc = acc | (1u64 << (sq.index() as u64));
                    proof {
                        k = k + 1;
                    }
                },
                Err(e) => {
                    proof {
                        assert(union_mask(all.take(k + 1)) == Err::<u64, SquareError>(e));
                        lemma_union_mask_error_prefix(all, k + 1);
                    }
                    return Err(e);
                },
            }
        }
        proof {
            assert(all.take(k) =~= all);
        }
        Ok(SquareSet { mask: acc })
    }
}

/// Once a prefix of the elements fails to resolve, the whole sequence fails
/// with the same error, whatever follows.
proof fn lemma_union_mask_error_prefix(s: Seq<Squarish>, k: int)
    requires
        0 <= k <= s.len(),
        union_mask(s.take(k)) is Err,
    ensures
        union_mask(s) == union_mask(s.take(k)),
    decreases s.len() - k,
{
    if k < s.len() {
        assert(s.take(k + 1).drop_last() =~= s.take(k));
        lemma_union_mask_error_prefix(s, k + 1);
    } else {
        assert(s.take(k) =~= s);
    }
}

} // verus!

//! Record-by-record comparison of two record sets.

use vstd::prelude::*;
use crate::YPBank;
use crate::record::RecordV;

verus! {

/// Outcome of comparing two record sets element by element.
#[derive(Debug, Clone, Copy, PartialEq, Eq, Structural)]
pub enum CompareOutcome {
    /// The two sets have different lengths; no elements were compared.
    LengthMismatch { len1: usize, len2: usize },
    /// The 1-based index of the first pair of records that differ.
    DifferAt(usize),
    /// Every pair of records is equal.
    Identical,
}

/// The first index at or after `i` where the equal-length sequences differ.
pub open spec fn first_diff(a: Seq<RecordV>, b: Seq<RecordV>, i: nat) -> Option<nat>
    recommends
        a.len() == b.len(),
        i <= a.len(),
    decreases a.len() - i,
{
    if i >= a.len() {
        None
    } else if a[i as int] != b[i as int] {
        Some(i)
    } else {
        first_diff(a, b, i + 1)
    }
}

/// What `first_diff` returns: the first position where the sequences differ,
/// or `None` when they agree everywhere.
pub proof fn lemma_first_diff(a: Seq<RecordV>, b: Seq<RecordV>, i: nat)
    requires
        a.len() == b.len(),
        i <= a.len(),
    ensures
        match first_diff(a, b, i) {
            Some(d) => i <= d < a.len() && a[d as int] != b[d as int] && (forall|j: int|
                i <= j < d ==> a[j] == b[j]),
            None => forall|j: int| i <= j < a.len() ==> a[j] == b[j],
        },
    decreases a.len() - i,
{
    if i < a.len() && a[i as int] == b[i as int] {
        lemma_first_diff(a, b, i + 1);
    }
}

/// Compare two record sets: unequal lengths are reported before any element
/// comparison; otherwise the first (1-based) index of a differing pair is
/// reported, or the sets are identical.
pub fn compare_records(a: &YPBank, b: &YPBank) -> (r: CompareOutcome)
    ensures
        a@.len() != b@.len() ==> r == (CompareOutcome::LengthMismatch {
            len1: a.records@.len() as usize,
            len2: b.records@.len() as usize,
        }),
        a@.len() == b@.len() ==> match first_diff(a@, b@, 0) {
            Some(d) => r == CompareOutcome::DifferAt((d + 1) as usize),
            None => r == CompareOutcome::Identical,
        },
{
    let n = a.records.len();
    let m = b.records.len();
    if n != m {
        return CompareOutcome::LengthMismatch { len1: n, len2: m };
    }
    let mut i: usize = 0;
    while i < n
        invariant
            n == a@.len() == b@.len(),
            n == a.records@.len() == b.records@.len(),
            i <= n,
            first_diff(a@, b@, 0) == first_diff(a@, b@, i as nat),
        decreases n - i,
    {
        proof {
            assert(a@[i as int] == a.records@[i as int]@);
            assert(b@[i as int] == b.records@[i as int]@);
        }
        if !(a.records[i] == b.records[i]) {
            return CompareOutcome::DifferAt(i + 1);
        }
        i += 1;
    }
    CompareOutcome::Identical
}

} // verus!

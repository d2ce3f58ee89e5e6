//! The state-transition program.
//!
//! One run derives the Fibonacci pair at index `n`, shifts both values by
//! the private `offset`, and commits the binding of a fixed key to a leaf
//! derived from the shifted value into the authenticated store, once per
//! unit of `offset`.  Because the store is idempotent on repeated identical
//! insertions, the final root equals the root after the very first
//! insertion; with `offset == 0` no insertion happens and the root is
//! absent.  The run is deterministic and aborts, committing nothing, when
//! the shift overflows or the store misbehaves.

use vstd::prelude::*;

use crate::codec::{PublicValues, PublicValuesView};
use crate::fib::{fib_pair, fibonacci};
use crate::store::{inserted_root, new_store, store_get, store_insert};

verus! {

/// Why a run aborted.
#[derive(Clone, Copy, Debug, PartialEq, Eq, Structural)]
pub enum TransitionError {
    /// Shifting the Fibonacci pair by `offset` left the 32-bit range.
    ArithmeticOverflow,
    /// The store returned something its contract rules out.
    StoreInvariantViolation,
}

/// The constant key under which every insertion binds its leaf.
pub open spec fn store_key() -> Seq<u8> {
    Seq::new(32, |i: int| 1u8)
}

/// The leaf bound by a run whose shifted second value is `b`: that value
/// truncated to a byte, repeated over the 32-byte leaf width.
pub open spec fn leaf_for(b: u32) -> Seq<u8> {
    Seq::new(32, |i: int| (b % 256) as u8)
}

/// Whether shifting the pair at `n` by `offset` leaves the 32-bit range.
pub open spec fn fib_overflow(n: u32, offset: u32) -> bool {
    fib_pair(n as nat).0 + offset > u32::MAX || fib_pair(n as nat).1 + offset > u32::MAX
}

/// The public values a non-overflowing run commits: the index, the shifted
/// pair, and — whenever at least one insertion happened — the root of a
/// single insertion of the run's binding into the empty store.
pub open spec fn expected_public_values(n: u32, offset: u32) -> PublicValuesView {
    let a = (fib_pair(n as nat).0 + offset) as u32;
    let b = (fib_pair(n as nat).1 + offset) as u32;
    PublicValuesView {
        n,
        a,
        b,
        root: if offset == 0 {
            None
        } else {
            Some(inserted_root(None, store_key(), leaf_for(b)))
        },
    }
}

/// Builds the constant insertion key.
pub fn derive_key() -> (k: Vec<u8>)
    ensures
        k@ == store_key(),
{
    let mut k: Vec<u8> = Vec::new();
    let mut i: usize = 0;
    while i < 32
        invariant
            i <= 32,
            k@ == store_key().subrange(0, i as int),
        decreases 32 - i,
    {
        k.push(1);
        i = i + 1;
        proof {
            assert(k@ =~= store_key().subrange(0, i as int));
        }
    }
    proof {
        assert(store_key().subrange(0, 32) =~= store_key());
    }
    k
}

/// Builds the leaf for a shifted value.
pub fn derive_leaf(b: u32) -> (l: Vec<u8>)
    ensures
        l@ == leaf_for(b),
{
    let byte: u8 = (b % 256) as u8;
    let mut l: Vec<u8> = Vec::new();
    let mut i: usize = 0;
    while i < 32
        invariant
            i <= 32,
            byte == (b % 256) as u8,
            l@ == leaf_for(b).subrange(0, i as int),
        decreases 32 - i,
    {
        l.push(byte);
        i = i + 1;
        proof {
            assert(l@ =~= leaf_for(b).subrange(0, i as int));
        }
    }
    proof {
        assert(leaf_for(b).subrange(0, 32) =~= leaf_for(b));
    }
    l
}

/// Compares two byte vectors.
fn bytes_eq(x: &Vec<u8>, y: &Vec<u8>) -> (r: bool)
    ensures
        r == (x@ == y@),
{
    if x.len() != y.len() {
        return false;
    }
    let mut i: usize = 0;
    while i < x.len()
        invariant
            i <= x@.len(),
            x@.len() == y@.len(),
            forall|j: int| 0 <= j < i ==> x@[j] == y@[j],
        decreases x@.len() - i,
    {
        if x[i] != y[i] {
            return false;
        }
        i = i + 1;
    }
    proof {
        assert(x@ =~= y@);
    }
    true
}

/// Additive-offset law: the public pair of a non-overflowing run is the
/// reference Fibonacci pair shifted by exactly the private offset, and the
/// index is carried through unchanged.
pub proof fn lemma_additive_offset(n: u32, offset: u32)
    requires
        !fib_overflow(n, offset),
    ensures
        expected_public_values(n, offset).n == n,
        expected_public_values(n, offset).a == fib_pair(n as nat).0 + offset,
        expected_public_values(n, offset).b == fib_pair(n as nat).1 + offset,
{
}

/// Runs the state transition for `(n, offset)`.
///
/// The run aborts with `ArithmeticOverflow` exactly when the shift leaves
/// the 32-bit range.  Any output it commits carries the expected public
/// values; in particular, for every `offset >= 1` the committed root equals
/// the root after exactly one insertion, and for `offset == 0` — where the
/// store is never consulted — the run succeeds and the root is absent.
pub fn run(n: u32, offset: u32) -> (r: Result<PublicValues, TransitionError>)
    ensures
        fib_overflow(n, offset) <==> r == Err::<PublicValues, TransitionError>(
            TransitionError::ArithmeticOverflow,
        ),
        r matches Ok(pv) ==> pv.wf() && pv@ == expected_public_values(n, offset),
        !fib_overflow(n, offset) && offset == 0 ==> r is Ok,
        !fib_overflow(n, offset) ==> (r is Ok || r == Err::<PublicValues, TransitionError>(
            TransitionError::StoreInvariantViolation,
        )),
{
    let (fa, fb) = fibonacci(n);
    let a = match fa.checked_add(offset) {
        Some(x) => x,
        None => {
            return Err(TransitionError::ArithmeticOverflow);
        },
    };
    let b = match fb.checked_add(offset) {
        Some(x) => x,
        None => {
            return Err(TransitionError::ArithmeticOverflow);
        },
    };
    let key = derive_key();
    let leaf = derive_leaf(b);
    let mut store = new_store();
    let mut root: Option<Vec<u8>> = None;
    let mut i: u32 = 0;
    while i < offset
        invariant
            i <= offset,
            !fib_overflow(n, offset),
            a == (fib_pair(n as nat).0 + offset) as u32,
            b == (fib_pair(n as nat).1 + offset) as u32,
            key@ == store_key(),
            leaf@ == leaf_for(b),
            i == 0 ==> root is None,
            i >= 1 ==> (root matches Some(h) && h@ == inserted_root(None, store_key(), leaf_for(b))
                && h@.len() == 32 && store.roots().contains(h@)),
        decreases offset - i,
    {
        let new_root = match store_insert(&mut store, root.as_ref(), &key, &leaf) {
            Ok(h) => h,
            Err(_) => {
                return Err(TransitionError::StoreInvariantViolation);
            },
        };
        root = Some(new_root);
        i = i + 1;
    }
    if offset > 0 {
        // Self-check: the just-inserted binding must resolve at the final
        // root.  Structurally impossible to fail when the store meets its
        // contract, so any failure is a store invariant violation.
        let found = match store_get(&mut store, root.as_ref(), &key) {
            Ok(Some(f)) => f,
            Ok(None) => {
                return Err(TransitionError::StoreInvariantViolation);
            },
            Err(_) => {
                return Err(TransitionError::StoreInvariantViolation);
            },
        };
        if !bytes_eq(&found, &leaf) {
            return Err(TransitionError::StoreInvariantViolation);
        }
    }
    Ok(PublicValues { n, a, b, root })
}

} // verus!

//! Host-side decisions of the proof lifecycle.
//!
//! The orchestrator picks exactly one mode per invocation, and in execute
//! mode cross-checks the program's committed output against a locally
//! recomputed reference: the decoded values must be the reference Fibonacci
//! pair shifted by the offset.  The consistency law below states that the
//! cross-check accepts every output the transition program can commit.

use vstd::prelude::*;

use crate::codec::{
    decode_public_values, encode_spec, lemma_encoding_lossless, valid_encoding, DecodeError,
    PublicValues, PublicValuesView,
};
use crate::fib::{fib_pair, fibonacci};

verus! {

/// What one invocation does.
#[derive(Clone, Copy, Debug, PartialEq, Eq, Structural)]
pub enum Mode {
    /// Run the program and cross-check its output, producing no proof.
    Execute,
    /// Set up keys, prove, and persist the artifact.
    Generate,
    /// Load the persisted artifact and verify it.
    Verify,
}

/// A rejected invocation.
#[derive(Clone, Copy, Debug, PartialEq, Eq, Structural)]
pub enum InputError {
    /// No mode was selected.
    NoModeSelected,
}

/// Picks the mode from the three mutually exclusive flags.  Exactly the
/// flagless invocation is rejected; when several flags are set the earliest
/// in the fixed order execute, generate, verify wins.
pub fn select_mode(execute: bool, generate: bool, verify: bool) -> (r: Result<Mode, InputError>)
    ensures
        r == Err::<Mode, InputError>(InputError::NoModeSelected) <==> (!execute && !generate
            && !verify),
        execute ==> r == Ok::<Mode, InputError>(Mode::Execute),
        !execute && generate ==> r == Ok::<Mode, InputError>(Mode::Generate),
        !execute && !generate && verify ==> r == Ok::<Mode, InputError>(Mode::Verify),
{
    if execute {
        Ok(Mode::Execute)
    } else if generate {
        Ok(Mode::Generate)
    } else if verify {
        Ok(Mode::Verify)
    } else {
        Err(InputError::NoModeSelected)
    }
}

/// Why the execute-mode cross-check rejected an output.
#[derive(Clone, Copy, Debug, PartialEq, Eq, Structural)]
pub enum CheckError {
    /// The output is not a canonical encoding of public values.
    Decode(DecodeError),
    /// The decoded values are not the reference pair shifted by the offset.
    Mismatch,
}

/// The outputs the cross-check accepts: canonical encodings of well-formed
/// public values whose pair is the reference pair at their own index,
/// shifted by the offset.
pub open spec fn cross_check_accepts(output: Seq<u8>, offset: u32) -> bool {
    exists|v: PublicValuesView|
        v.wf() && encode_spec(v) == output && v.a == fib_pair(v.n as nat).0 + offset && v.b
            == fib_pair(v.n as nat).1 + offset
}

/// Decodes an execution's committed output and cross-checks it against the
/// locally recomputed reference pair.
pub fn check_execution(output: &Vec<u8>, offset: u32) -> (r: Result<PublicValues, CheckError>)
    ensures
        r matches Ok(pv) ==> pv.wf() && encode_spec(pv@) == output@ && pv@.a == fib_pair(
            pv@.n as nat,
        ).0 + offset && pv@.b == fib_pair(pv@.n as nat).1 + offset,
        r is Ok <==> cross_check_accepts(output@, offset),
        r == Err::<PublicValues, CheckError>(CheckError::Decode(DecodeError::WrongLength)) <==> output@.len()
            != 160,
        r == Err::<PublicValues, CheckError>(CheckError::Decode(DecodeError::Malformed)) <==> (
        output@.len() == 160 && !valid_encoding(output@)),
        r == Err::<PublicValues, CheckError>(CheckError::Mismatch) <==> (valid_encoding(output@)
            && !cross_check_accepts(output@, offset)),
{
    let pv = match decode_public_values(output) {
        Ok(pv) => pv,
        Err(e) => {
            proof {
                assert forall|v: PublicValuesView|
                    !(v.wf() && encode_spec(v) == output@ && v.a == fib_pair(v.n as nat).0 + offset
                        && v.b == fib_pair(v.n as nat).1 + offset) by {
                    if v.wf() && encode_spec(v) == output@ {
                        assert(valid_encoding(output@));
                    }
                }
            }
            return Err(CheckError::Decode(e));
        },
    };
    let (ea, eb) = fibonacci(pv.n);
    let ok_a = match ea.checked_add(offset) {
        Some(x) => x == pv.a,
        None => false,
    };
    let ok_b = match eb.checked_add(offset) {
        Some(x) => x == pv.b,
        None => false,
    };
    if ok_a && ok_b {
        proof {
            assert(cross_check_accepts(output@, offset)) by {
                assert(pv@.wf() && encode_spec(pv@) == output@ && pv@.a == fib_pair(pv@.n as nat).0
                    + offset && pv@.b == fib_pair(pv@.n as nat).1 + offset);
            }
        }
        Ok(pv)
    } else {
        proof {
            assert forall|v: PublicValuesView|
                !(v.wf() && encode_spec(v) == output@ && v.a == fib_pair(v.n as nat).0 + offset
                    && v.b == fib_pair(v.n as nat).1 + offset) by {
                if v.wf() && encode_spec(v) == output@ {
                    lemma_encoding_lossless(v, pv@);
                }
            }
        }
        Err(CheckError::Mismatch)
    }
}

/// Consistency law of execute mode: the cross-check accepts every encoding
/// of well-formed public values whose pair is the reference pair at its own
/// index shifted by the offset — in particular, everything the transition
/// program commits.
pub proof fn lemma_cross_check_accepts(v: PublicValuesView, offset: u32)
    requires
        v.wf(),
        v.a == fib_pair(v.n as nat).0 + offset,
        v.b == fib_pair(v.n as nat).1 + offset,
    ensures
        cross_check_accepts(encode_spec(v), offset),
{
    assert(v.wf() && encode_spec(v) == encode_spec(v) && v.a == fib_pair(v.n as nat).0 + offset
        && v.b == fib_pair(v.n as nat).1 + offset);
}

} // verus!

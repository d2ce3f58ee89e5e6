//! The persisted proof artifact and its byte encoding.
//!
//! An artifact bundles the opaque proof bytes with the encoded public
//! values they attest to.  On disk it is one byte string: a version byte,
//! the length of the proof bytes as a big-endian 64-bit integer, the proof
//! bytes, and the public-values bytes to the end.  The format is lossless:
//! an encoding determines the artifact byte for byte.

use vstd::prelude::*;

verus! {

/// A generated proof together with the public values it attests to.
#[derive(Clone, Debug, PartialEq, Eq)]
pub struct ProofArtifact {
    /// The proof system's output, opaque to this library.
    pub proof_bytes: Vec<u8>,
    /// The canonically encoded public values the proof commits to.
    pub public_values: Vec<u8>,
}

/// The mathematical image of `ProofArtifact`.
pub struct ArtifactView {
    pub proof_bytes: Seq<u8>,
    pub public_values: Seq<u8>,
}

impl View for ProofArtifact {
    type V = ArtifactView;

    open spec fn view(&self) -> ArtifactView {
        ArtifactView { proof_bytes: self.proof_bytes@, public_values: self.public_values@ }
    }
}

impl ArtifactView {
    /// The proof length must fit the length field.
    pub open spec fn wf(&self) -> bool {
        self.proof_bytes.len() <= u64::MAX
    }
}

impl ProofArtifact {
    pub open spec fn wf(&self) -> bool {
        self@.wf()
    }
}

/// Why a byte string is not an artifact encoding.
#[derive(Clone, Copy, Debug, PartialEq, Eq, Structural)]
pub enum ArtifactError {
    /// Shorter than the version byte and the length field.
    TooShort,
    /// The version byte is not the one this format uses.
    UnsupportedVersion,
    /// The length field reaches past the end of the input.
    BadLength,
}

/// The eight big-endian bytes of a 64-bit integer.
pub open spec fn be64_bytes(x: u64) -> Seq<u8> {
    seq![
        ((x >> 56) & 0xff) as u8,
        ((x >> 48) & 0xff) as u8,
        ((x >> 40) & 0xff) as u8,
        ((x >> 32) & 0xff) as u8,
        ((x >> 24) & 0xff) as u8,
        ((x >> 16) & 0xff) as u8,
        ((x >> 8) & 0xff) as u8,
        (x & 0xff) as u8,
    ]
}

/// The canonical artifact encoding.
pub open spec fn encode_artifact_spec(a: ArtifactView) -> Seq<u8> {
    seq![1u8] + be64_bytes(a.proof_bytes.len() as u64) + a.proof_bytes + a.public_values
}

/// The byte strings that encode some well-formed artifact.
pub open spec fn valid_artifact_encoding(s: Seq<u8>) -> bool {
    exists|a: ArtifactView| a.wf() && encode_artifact_spec(a) == s
}

/// Where each part lands inside an artifact encoding.
pub proof fn lemma_artifact_structure(a: ArtifactView)
    requires
        a.wf(),
    ensures
        encode_artifact_spec(a).len() == 9 + a.proof_bytes.len() + a.public_values.len(),
        encode_artifact_spec(a)[0] == 1u8,
        encode_artifact_spec(a).subrange(1, 9) == be64_bytes(a.proof_bytes.len() as u64),
        encode_artifact_spec(a).subrange(9, 9 + a.proof_bytes.len() as int) == a.proof_bytes,
        encode_artifact_spec(a).subrange(
            9 + a.proof_bytes.len() as int,
            encode_artifact_spec(a).len() as int,
        ) == a.public_values,
{
    assert(encode_artifact_spec(a).subrange(1, 9) =~= be64_bytes(a.proof_bytes.len() as u64));
    assert(encode_artifact_spec(a).subrange(9, 9 + a.proof_bytes.len() as int) =~= a.proof_bytes);
    assert(encode_artifact_spec(a).subrange(
        9 + a.proof_bytes.len() as int,
        encode_artifact_spec(a).len() as int,
    ) =~= a.public_values);
}

proof fn lemma_be64_value(x: u64)
    ensures
        ((be64_bytes(x)[0] as u64) << 56) | ((be64_bytes(x)[1] as u64) << 48) | ((be64_bytes(
            x,
        )[2] as u64) << 40) | ((be64_bytes(x)[3] as u64) << 32) | ((be64_bytes(x)[4] as u64) << 24)
            | ((be64_bytes(x)[5] as u64) << 16) | ((be64_bytes(x)[6] as u64) << 8) | (be64_bytes(
            x,
        )[7] as u64) == x,
{
    assert(((((x >> 56) & 0xff) as u8 as u64) << 56) | ((((x >> 48) & 0xff) as u8 as u64) << 48) | (
    (((x >> 40) & 0xff) as u8 as u64) << 40) | ((((x >> 32) & 0xff) as u8 as u64) << 32) | ((((x
        >> 24) & 0xff) as u8 as u64) << 24) | ((((x >> 16) & 0xff) as u8 as u64) << 16) | ((((x
        >> 8) & 0xff) as u8 as u64) << 8) | ((x & 0xff) as u8 as u64) == x) by (bit_vector);
}

proof fn lemma_be64_recombine(s: Seq<u8>)
    requires
        s.len() == 8,
    ensures
        be64_bytes(
            ((s[0] as u64) << 56) | ((s[1] as u64) << 48) | ((s[2] as u64) << 40) | ((s[3] as u64)
                << 32) | ((s[4] as u64) << 24) | ((s[5] as u64) << 16) | ((s[6] as u64) << 8) | (
            s[7] as u64),
        ) =~= s,
{
    let b0 = s[0];
    let b1 = s[1];
    let b2 = s[2];
    let b3 = s[3];
    let b4 = s[4];
    let b5 = s[5];
    let b6 = s[6];
    let b7 = s[7];
    assert(((((b0 as u64) << 56) | ((b1 as u64) << 48) | ((b2 as u64) << 40) | ((b3 as u64) << 32)
        | ((b4 as u64) << 24) | ((b5 as u64) << 16) | ((b6 as u64) << 8) | (b7 as u64)) >> 56)
        & 0xff == b0 as u64) by (bit_vector);
    assert(((((b0 as u64) << 56) | ((b1 as u64) << 48) | ((b2 as u64) << 40) | ((b3 as u64) << 32)
        | ((b4 as u64) << 24) | ((b5 as u64) << 16) | ((b6 as u64) << 8) | (b7 as u64)) >> 48)
        & 0xff == b1 as u64) by (bit_vector);
    assert(((((b0 as u64) << 56) | ((b1 as u64) << 48) | ((b2 as u64) << 40) | ((b3 as u64) << 32)
        | ((b4 as u64) << 24) | ((b5 as u64) << 16) | ((b6 as u64) << 8) | (b7 as u64)) >> 40)
        & 0xff == b2 as u64) by (bit_vector);
    assert(((((b0 as u64) << 56) | ((b1 as u64) << 48) | ((b2 as u64) << 40) | ((b3 as u64) << 32)
        | ((b4 as u64) << 24) | ((b5 as u64) << 16) | ((b6 as u64) << 8) | (b7 as u64)) >> 32)
        & 0xff == b3 as u64) by (bit_vector);
    assert(((((b0 as u64) << 56) | ((b1 as u64) << 48) | ((b2 as u64) << 40) | ((b3 as u64) << 32)
        | ((b4 as u64) << 24) | ((b5 as u64) << 16) | ((b6 as u64) << 8) | (b7 as u64)) >> 24)
        & 0xff == b4 as u64) by (bit_vector);
    assert(((((b0 as u64) << 56) | ((b1 as u64) << 48) | ((b2 as u64) << 40) | ((b3 as u64) << 32)
        | ((b4 as u64) << 24) | ((b5 as u64) << 16) | ((b6 as u64) << 8) | (b7 as u64)) >> 16)
        & 0xff == b5 as u64) by (bit_vector);
    assert(((((b0 as u64) << 56) | ((b1 as u64) << 48) | ((b2 as u64) << 40) | ((b3 as u64) << 32)
        | ((b4 as u64) << 24) | ((b5 as u64) << 16) | ((b6 as u64) << 8) | (b7 as u64)) >> 8)
        & 0xff == b6 as u64) by (bit_vector);
    assert(((((b0 as u64) << 56) | ((b1 as u64) << 48) | ((b2 as u64) << 40) | ((b3 as u64) << 32)
        | ((b4 as u64) << 24) | ((b5 as u64) << 16) | ((b6 as u64) << 8) | (b7 as u64)) & 0xff
        == b7 as u64)) by (bit_vector);
}

/// Round trip: the artifact encoding is lossless — an encoding determines
/// the artifact, byte for byte on both parts.
pub proof fn lemma_artifact_encoding_lossless(a1: ArtifactView, a2: ArtifactView)
    requires
        a1.wf(),
        a2.wf(),
        encode_artifact_spec(a1) == encode_artifact_spec(a2),
    ensures
        a1 == a2,
{
    lemma_artifact_structure(a1);
    lemma_artifact_structure(a2);
    lemma_be64_value(a1.proof_bytes.len() as u64);
    lemma_be64_value(a2.proof_bytes.len() as u64);
    assert(a1.proof_bytes.len() == a2.proof_bytes.len());
    assert(a1.proof_bytes == a2.proof_bytes);
    assert(a1.public_values == a2.public_values);
}

/// Serializes an artifact into its canonical byte string.
pub fn encode_artifact(a: &ProofArtifact) -> (out: Vec<u8>)
    ensures
        out@ == encode_artifact_spec(a@),
{
    let plen: u64 = a.proof_bytes.len() as u64;
    let mut out: Vec<u8> = Vec::new();
    out.push(1);
    push_be_u64(&mut out, plen);
    push_all(&mut out, &a.proof_bytes);
    push_all(&mut out, &a.public_values);
    proof {
        assert(out@ =~= encode_artifact_spec(a@));
    }
    out
}

fn push_be_u64(out: &mut Vec<u8>, x: u64)
    ensures
        final(out)@ == old(out)@ + be64_bytes(x),
{
    proof {
        assert((x >> 56) & 0xff < 256 && (x >> 48) & 0xff < 256 && (x >> 40) & 0xff < 256 && (x
            >> 32) & 0xff < 256 && (x >> 24) & 0xff < 256 && (x >> 16) & 0xff < 256 && (x >> 8)
            & 0xff < 256 && x & 0xff < 256) by (bit_vector);
    }
    out.push(((x >> 56) & 0xff) as u8);
    out.push(((x >> 48) & 0xff) as u8);
    out.push(((x >> 40) & 0xff) as u8);
    out.push(((x >> 32) & 0xff) as u8);
    out.push(((x >> 24) & 0xff) as u8);
    out.push(((x >> 16) & 0xff) as u8);
    out.push(((x >> 8) & 0xff) as u8);
    out.push((x & 0xff) as u8);
    proof {
        assert(out@ =~= old(out)@ + be64_bytes(x));
    }
}

fn push_all(out: &mut Vec<u8>, src: &Vec<u8>)
    ensures
        final(out)@ == old(out)@ + src@,
{
    let mut i: usize = 0;
    while i < src.len()
        invariant
            i <= src@.len(),
            out@ == old(out)@ + src@.subrange(0, i as int),
        decreases src@.len() - i,
    {
        out.push(src[i]);
        i = i + 1;
        proof {
            assert(out@ =~= old(out)@ + src@.subrange(0, i as int));
        }
    }
    proof {
        assert(src@.subrange(0, src@.len() as int) =~= src@);
    }
}

/// Deserializes an artifact, strictly: exactly the encoder's outputs are
/// accepted, and the returned artifact re-encodes to the input bytes.
pub fn decode_artifact(bytes: &Vec<u8>) -> (r: Result<ProofArtifact, ArtifactError>)
    ensures
        r matches Ok(a) ==> a.wf() && encode_artifact_spec(a@) == bytes@,
        r is Ok <==> valid_artifact_encoding(bytes@),
        r == Err::<ProofArtifact, ArtifactError>(ArtifactError::TooShort) <==> bytes@.len() < 9,
        r == Err::<ProofArtifact, ArtifactError>(ArtifactError::UnsupportedVersion) <==> (
        bytes@.len() >= 9 && bytes@[0] != 1u8),
{
    let total = bytes.len();
    if total < 9 {
        proof {
            assert forall|a: ArtifactView| !(a.wf() && encode_artifact_spec(a) == bytes@) by {
                if a.wf() {
                    lemma_artifact_structure(a);
                }
            }
        }
        return Err(ArtifactError::TooShort);
    }
    if bytes[0] != 1 {
        proof {
            assert forall|a: ArtifactView| !(a.wf() && encode_artifact_spec(a) == bytes@) by {
                if a.wf() {
                    lemma_artifact_structure(a);
                }
            }
        }
        return Err(ArtifactError::UnsupportedVersion);
    }
    let plen: u64 = ((bytes[1] as u64) << 56) | ((bytes[2] as u64) << 48) | ((bytes[3] as u64)
        << 40) | ((bytes[4] as u64) << 32) | ((bytes[5] as u64) << 24) | ((bytes[6] as u64) << 16)
        | ((bytes[7] as u64) << 8) | (bytes[8] as u64);
    proof {
        lemma_be64_recombine(bytes@.subrange(1, 9));
        assert(be64_bytes(plen) =~= bytes@.subrange(1, 9));
    }
    if plen > (total - 9) as u64 {
        proof {
            assert forall|a: ArtifactView| !(a.wf() && encode_artifact_spec(a) == bytes@) by {
                if a.wf() && encode_artifact_spec(a) == bytes@ {
                    lemma_artifact_structure(a);
                    lemma_be64_value(a.proof_bytes.len() as u64);
                    lemma_be64_value(plen);
                }
            }
        }
        return Err(ArtifactError::BadLength);
    }
    let plen_us: usize = plen as usize;
    proof {
        assert(9 + plen_us <= total);
    }
    let mut proof_bytes: Vec<u8> = Vec::new();
    let mut i: usize = 9;
    while i < 9 + plen_us
        invariant
            9 <= i <= 9 + plen_us,
            9 + plen_us <= total,
            total == bytes@.len(),
            proof_bytes@ == bytes@.subrange(9, i as int),
        decreases 9 + plen_us - i,
    {
        proof_bytes.push(bytes[i]);
        i = i + 1;
        proof {
            assert(proof_bytes@ =~= bytes@.subrange(9, i as int));
        }
    }
    let mut public_values: Vec<u8> = Vec::new();
    let mut j: usize = 9 + plen_us;
    while j < total
        invariant
            9 + plen_us <= j <= total,
            total == bytes@.len(),
            public_values@ == bytes@.subrange(9 + plen_us as int, j as int),
        decreases total - j,
    {
        public_values.push(bytes[j]);
        j = j + 1;
        proof {
            assert(public_values@ =~= bytes@.subrange(9 + plen_us as int, j as int));
        }
    }
    let a = ProofArtifact { proof_bytes, public_values };
    proof {
        assert(encode_artifact_spec(a@) =~= bytes@);
    }
    Ok(a)
}

} // verus!

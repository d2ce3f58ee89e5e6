//! Canonical encoding of the program's public output.
//!
//! The output is an ABI-style tuple of five 32-byte words: `n`, `a` and `b`
//! as big-endian 32-bit integers padded to a word, a presence word for the
//! root (its last byte is 1 when a root is present, 0 otherwise), and the
//! root itself, all zeros when absent.  The format is strict: the decoder
//! accepts exactly the byte strings the encoder can produce, so an encoding
//! determines its public values.

use vstd::prelude::*;

verus! {

/// The externally observable output of one transition: the index, the two
/// shifted Fibonacci values, and the store root, absent when no insertion
/// happened.
#[derive(Clone, Debug, PartialEq, Eq)]
pub struct PublicValues {
    pub n: u32,
    pub a: u32,
    pub b: u32,
    pub root: Option<Vec<u8>>,
}

/// The mathematical image of `PublicValues`.
pub struct PublicValuesView {
    pub n: u32,
    pub a: u32,
    pub b: u32,
    pub root: Option<Seq<u8>>,
}

impl View for PublicValues {
    type V = PublicValuesView;

    open spec fn view(&self) -> PublicValuesView {
        PublicValuesView {
            n: self.n,
            a: self.a,
            b: self.b,
            root: match self.root {
                Some(v) => Some(v@),
                None => None,
            },
        }
    }
}

impl PublicValuesView {
    /// A root, when present, is a 32-byte hash.
    pub open spec fn wf(&self) -> bool {
        self.root matches Some(h) ==> h.len() == 32
    }
}

impl PublicValues {
    pub open spec fn wf(&self) -> bool {
        self@.wf()
    }
}

/// Why a byte string is not an encoding of public values.
#[derive(Clone, Copy, Debug, PartialEq, Eq, Structural)]
pub enum DecodeError {
    /// The input is not exactly five 32-byte words long.
    WrongLength,
    /// A padding byte, the presence word, or the absent-root word is not
    /// canonical.
    Malformed,
}

pub open spec fn zero_bytes(k: nat) -> Seq<u8> {
    Seq::new(k, |i: int| 0u8)
}

/// The four big-endian bytes of a 32-bit integer.
pub open spec fn be_bytes(x: u32) -> Seq<u8> {
    seq![
        ((x >> 24) & 0xff) as u8,
        ((x >> 16) & 0xff) as u8,
        ((x >> 8) & 0xff) as u8,
        (x & 0xff) as u8,
    ]
}

/// A 32-bit integer widened to one 32-byte word.
pub open spec fn int_word(x: u32) -> Seq<u8> {
    zero_bytes(28) + be_bytes(x)
}

/// The word that says whether a root follows.
pub open spec fn presence_word(present: bool) -> Seq<u8> {
    zero_bytes(31) + seq![if present { 1u8 } else { 0u8 }]
}

/// The root word: the root itself, or all zeros when absent.
pub open spec fn root_word(root: Option<Seq<u8>>) -> Seq<u8> {
    match root {
        Some(h) => h,
        None => zero_bytes(32),
    }
}

/// The canonical encoding: five 32-byte words in fixed order.
pub open spec fn encode_spec(v: PublicValuesView) -> Seq<u8> {
    int_word(v.n) + int_word(v.a) + int_word(v.b) + presence_word(v.root is Some) + root_word(
        v.root,
    )
}

/// The byte strings that encode some well-formed public values.
pub open spec fn valid_encoding(s: Seq<u8>) -> bool {
    exists|v: PublicValuesView| v.wf() && encode_spec(v) == s
}

/// Where each field lands inside an encoding.
pub proof fn lemma_encode_structure(v: PublicValuesView)
    requires
        v.wf(),
    ensures
        encode_spec(v).len() == 160,
        encode_spec(v).subrange(0, 32) == int_word(v.n),
        encode_spec(v).subrange(32, 64) == int_word(v.a),
        encode_spec(v).subrange(64, 96) == int_word(v.b),
        encode_spec(v).subrange(96, 128) == presence_word(v.root is Some),
        encode_spec(v).subrange(128, 160) == root_word(v.root),
{
    assert(root_word(v.root).len() == 32);
    assert(encode_spec(v).subrange(0, 32) =~= int_word(v.n));
    assert(encode_spec(v).subrange(32, 64) =~= int_word(v.a));
    assert(encode_spec(v).subrange(64, 96) =~= int_word(v.b));
    assert(encode_spec(v).subrange(96, 128) =~= presence_word(v.root is Some));
    assert(encode_spec(v).subrange(128, 160) =~= root_word(v.root));
}

proof fn lemma_be_bytes_recombine(b0: u8, b1: u8, b2: u8, b3: u8)
    ensures
        be_bytes(((b0 as u32) << 24) | ((b1 as u32) << 16) | ((b2 as u32) << 8) | (b3 as u32))
            =~= seq![b0, b1, b2, b3],
{
    assert(((((b0 as u32) << 24) | ((b1 as u32) << 16) | ((b2 as u32) << 8) | (b3 as u32)) >> 24)
        & 0xff == b0 as u32) by (bit_vector);
    assert(((((b0 as u32) << 24) | ((b1 as u32) << 16) | ((b2 as u32) << 8) | (b3 as u32)) >> 16)
        & 0xff == b1 as u32) by (bit_vector);
    assert(((((b0 as u32) << 24) | ((b1 as u32) << 16) | ((b2 as u32) << 8) | (b3 as u32)) >> 8)
        & 0xff == b2 as u32) by (bit_vector);
    assert((((b0 as u32) << 24) | ((b1 as u32) << 16) | ((b2 as u32) << 8) | (b3 as u32)) & 0xff
        == b3 as u32) by (bit_vector);
}

proof fn lemma_be_bytes_injective(x: u32, y: u32)
    requires
        be_bytes(x) == be_bytes(y),
    ensures
        x == y,
{
    assert((x >> 24) & 0xff < 256 && (x >> 16) & 0xff < 256 && (x >> 8) & 0xff < 256 && x & 0xff
        < 256) by (bit_vector);
    assert((y >> 24) & 0xff < 256 && (y >> 16) & 0xff < 256 && (y >> 8) & 0xff < 256 && y & 0xff
        < 256) by (bit_vector);
    assert(be_bytes(x)[0] == be_bytes(y)[0]);
    assert(be_bytes(x)[1] == be_bytes(y)[1]);
    assert(be_bytes(x)[2] == be_bytes(y)[2]);
    assert(be_bytes(x)[3] == be_bytes(y)[3]);
    assert(x == y) by (bit_vector)
        requires
            (x >> 24) & 0xff == (y >> 24) & 0xff,
            (x >> 16) & 0xff == (y >> 16) & 0xff,
            (x >> 8) & 0xff == (y >> 8) & 0xff,
            x & 0xff == y & 0xff,
    ;
}

proof fn lemma_int_word_injective(x: u32, y: u32)
    requires
        int_word(x) == int_word(y),
    ensures
        x == y,
{
    assert(be_bytes(x) =~= be_bytes(y)) by {
        assert(forall|j: int| 0 <= j < 4 ==> int_word(x)[28 + j] == be_bytes(x)[j]);
        assert(forall|j: int| 0 <= j < 4 ==> int_word(y)[28 + j] == be_bytes(y)[j]);
    }
    lemma_be_bytes_injective(x, y);
}

/// Round trip: the canonical encoding is lossless.  An encoding determines
/// its public values, so decoding what was encoded gives the values back.
pub proof fn lemma_encoding_lossless(v1: PublicValuesView, v2: PublicValuesView)
    requires
        v1.wf(),
        v2.wf(),
        encode_spec(v1) == encode_spec(v2),
    ensures
        v1 == v2,
{
    lemma_encode_structure(v1);
    lemma_encode_structure(v2);
    lemma_int_word_injective(v1.n, v2.n);
    lemma_int_word_injective(v1.a, v2.a);
    lemma_int_word_injective(v1.b, v2.b);
    assert(presence_word(v1.root is Some)[31] == presence_word(v2.root is Some)[31]);
    assert((v1.root is Some) == (v2.root is Some));
    match (v1.root, v2.root) {
        (Some(h1), Some(h2)) => {
            assert(h1 == h2);
        },
        _ => {},
    }
}

fn push_zeros(out: &mut Vec<u8>, k: usize)
    ensures
        final(out)@ == old(out)@ + zero_bytes(k as nat),
{
    let mut i: usize = 0;
    while i < k
        invariant
            i <= k,
            out@ == old(out)@ + zero_bytes(i as nat),
        decreases k - i,
    {
        out.push(0);
        i = i + 1;
        proof {
            assert(out@ =~= old(out)@ + zero_bytes(i as nat));
        }
    }
}

fn push_be_u32(out: &mut Vec<u8>, x: u32)
    ensures
        final(out)@ == old(out)@ + be_bytes(x),
{
    proof {
        assert((x >> 24) & 0xff < 256 && (x >> 16) & 0xff < 256 && (x >> 8) & 0xff < 256 && x
            & 0xff < 256) by (bit_vector);
    }
    out.push(((x >> 24) & 0xff) as u8);
    out.push(((x >> 16) & 0xff) as u8);
    out.push(((x >> 8) & 0xff) as u8);
    out.push((x & 0xff) as u8);
    proof {
        assert(out@ =~= old(out)@ + be_bytes(x));
    }
}

fn push_bytes(out: &mut Vec<u8>, src: &Vec<u8>)
    ensures
        final(out)@ == old(out)@ + src@,
{
    let mut i: usize = 0;
    while i < src.len()
        invariant
            i <= src@.len(),
            out@ == old(out)@ + src@.subrange(0, i as int),
        decreases src@.len() - i,
    {
        out.push(src[i]);
        i = i + 1;
        proof {
            assert(out@ =~= old(out)@ + src@.subrange(0, i as int));
        }
    }
    proof {
        assert(src@.subrange(0, src@.len() as int) =~= src@);
    }
}

/// Encodes public values into the canonical five-word byte string.
pub fn encode_public_values(pv: &PublicValues) -> (out: Vec<u8>)
    requires
        pv.wf(),
    ensures
        out@ == encode_spec(pv@),
{
    let mut out: Vec<u8> = Vec::new();
    push_zeros(&mut out, 28);
    push_be_u32(&mut out, pv.n);
    push_zeros(&mut out, 28);
    push_be_u32(&mut out, pv.a);
    push_zeros(&mut out, 28);
    push_be_u32(&mut out, pv.b);
    push_zeros(&mut out, 31);
    match &pv.root {
        Some(h) => {
            out.push(1);
            push_bytes(&mut out, h);
        },
        None => {
            out.push(0);
            push_zeros(&mut out, 32);
        },
    }
    proof {
        assert(out@ =~= encode_spec(pv@));
    }
    out
}

/// The program's input tape: the two 32-bit inputs, big-endian, in fixed
/// order — the public index first, the private offset second.
pub open spec fn input_tape_spec(n: u32, offset: u32) -> Seq<u8> {
    be_bytes(n) + be_bytes(offset)
}

/// The input tape is lossless: it determines both inputs.
pub proof fn lemma_input_tape_lossless(n1: u32, o1: u32, n2: u32, o2: u32)
    requires
        input_tape_spec(n1, o1) == input_tape_spec(n2, o2),
    ensures
        n1 == n2,
        o1 == o2,
{
    assert(be_bytes(n1) =~= be_bytes(n2)) by {
        assert(forall|j: int| 0 <= j < 4 ==> input_tape_spec(n1, o1)[j] == be_bytes(n1)[j]);
        assert(forall|j: int| 0 <= j < 4 ==> input_tape_spec(n2, o2)[j] == be_bytes(n2)[j]);
    }
    assert(be_bytes(o1) =~= be_bytes(o2)) by {
        assert(forall|j: int| 0 <= j < 4 ==> input_tape_spec(n1, o1)[4 + j] == be_bytes(o1)[j]);
        assert(forall|j: int| 0 <= j < 4 ==> input_tape_spec(n2, o2)[4 + j] == be_bytes(o2)[j]);
    }
    lemma_be_bytes_injective(n1, n2);
    lemma_be_bytes_injective(o1, o2);
}

/// Builds the input tape the program consumes.
pub fn encode_input_tape(n: u32, offset: u32) -> (t: Vec<u8>)
    ensures
        t@ == input_tape_spec(n, offset),
{
    let mut t: Vec<u8> = Vec::new();
    push_be_u32(&mut t, n);
    push_be_u32(&mut t, offset);
    proof {
        assert(t@ =~= input_tape_spec(n, offset));
    }
    t
}

/// Reads the two inputs back off a tape; exactly the 8-byte tapes are
/// accepted, and the values read re-encode to the tape.
pub fn read_input_tape(tape: &Vec<u8>) -> (r: Option<(u32, u32)>)
    ensures
        r is Some <==> tape@.len() == 8,
        r matches Some(p) ==> tape@ == input_tape_spec(p.0, p.1),
{
    if tape.len() != 8 {
        return None;
    }
    let n: u32 = ((tape[0] as u32) << 24) | ((tape[1] as u32) << 16) | ((tape[2] as u32) << 8) | (
    tape[3] as u32);
    let offset: u32 = ((tape[4] as u32) << 24) | ((tape[5] as u32) << 16) | ((tape[6] as u32) << 8)
        | (tape[7] as u32);
    proof {
        lemma_be_bytes_recombine(tape@[0], tape@[1], tape@[2], tape@[3]);
        lemma_be_bytes_recombine(tape@[4], tape@[5], tape@[6], tape@[7]);
        assert(tape@ =~= input_tape_spec(n, offset));
    }
    Some((n, offset))
}

/// Reads one integer word: 28 zero padding bytes, then four big-endian bytes.
fn read_u32_word(bytes: &Vec<u8>, off: usize) -> (r: Option<u32>)
    requires
        off + 32 <= bytes@.len(),
    ensures
        r matches Some(x) ==> bytes@.subrange(off as int, off as int + 32) == int_word(x),
        r is None ==> forall|x: u32| bytes@.subrange(off as int, off as int + 32) != int_word(x),
{
    let len = bytes.len();
    let mut i: usize = 0;
    while i < 28
        invariant
            i <= 28,
            off + 32 <= len,
            len == bytes@.len(),
            forall|j: int| off <= j < off + i ==> bytes@[j] == 0u8,
        decreases 28 - i,
    {
        if bytes[off + i] != 0 {
            proof {
                assert(forall|x: u32| int_word(x)[i as int] == 0u8);
                assert(forall|x: u32|
                    bytes@.subrange(off as int, off as int + 32)[i as int] != int_word(x)[i as int]);
            }
            return None;
        }
        i = i + 1;
    }
    let b0 = bytes[off + 28];
    let b1 = bytes[off + 29];
    let b2 = bytes[off + 30];
    let b3 = bytes[off + 31];
    let x: u32 = ((b0 as u32) << 24) | ((b1 as u32) << 16) | ((b2 as u32) << 8) | (b3 as u32);
    proof {
        lemma_be_bytes_recombine(b0, b1, b2, b3);
        assert(bytes@.subrange(off as int, off as int + 32) =~= int_word(x));
    }
    Some(x)
}

/// Decodes the canonical encoding, strictly: exactly the encoder's outputs
/// are accepted, and the returned values re-encode to the input bytes.
pub fn decode_public_values(bytes: &Vec<u8>) -> (r: Result<PublicValues, DecodeError>)
    ensures
        r matches Ok(pv) ==> pv.wf() && encode_spec(pv@) == bytes@,
        r is Ok <==> valid_encoding(bytes@),
        r == Err::<PublicValues, DecodeError>(DecodeError::WrongLength) <==> bytes@.len() != 160,
        r == Err::<PublicValues, DecodeError>(DecodeError::Malformed) <==> (bytes@.len() == 160
            && !valid_encoding(bytes@)),
{
    if bytes.len() != 160 {
        proof {
            assert forall|v: PublicValuesView| !(v.wf() && encode_spec(v) == bytes@) by {
                if v.wf() {
                    lemma_encode_structure(v);
                }
            }
        }
        return Err(DecodeError::WrongLength);
    }
    let n = match read_u32_word(bytes, 0) {
        Some(x) => x,
        None => {
            proof {
                assert forall|v: PublicValuesView| !(v.wf() && encode_spec(v) == bytes@) by {
                    if v.wf() && encode_spec(v) == bytes@ {
                        lemma_encode_structure(v);
                    }
                }
            }
            return Err(DecodeError::Malformed);
        },
    };
    let a = match read_u32_word(bytes, 32) {
        Some(x) => x,
        None => {
            proof {
                assert forall|v: PublicValuesView| !(v.wf() && encode_spec(v) == bytes@) by {
                    if v.wf() && encode_spec(v) == bytes@ {
                        lemma_encode_structure(v);
                    }
                }
            }
            return Err(DecodeError::Malformed);
        },
    };
    let b = match read_u32_word(bytes, 64) {
        Some(x) => x,
        None => {
            proof {
                assert forall|v: PublicValuesView| !(v.wf() && encode_spec(v) == bytes@) by {
                    if v.wf() && encode_spec(v) == bytes@ {
                        lemma_encode_structure(v);
                    }
                }
            }
            return Err(DecodeError::Malformed);
        },
    };
    let mut i: usize = 96;
    while i < 127
        invariant
            96 <= i <= 127,
            bytes@.len() == 160,
            forall|j: int| 96 <= j < i ==> bytes@[j] == 0u8,
        decreases 127 - i,
    {
        if bytes[i] != 0 {
            proof {
                assert forall|v: PublicValuesView| !(v.wf() && encode_spec(v) == bytes@) by {
                    if v.wf() && encode_spec(v) == bytes@ {
                        lemma_encode_structure(v);
                        assert(bytes@[i as int] == presence_word(v.root is Some)[i - 96]);
                    }
                }
            }
            return Err(DecodeError::Malformed);
        }
        i = i + 1;
    }
    let flag = bytes[127];
    if flag > 1 {
        proof {
            assert forall|v: PublicValuesView| !(v.wf() && encode_spec(v) == bytes@) by {
                if v.wf() && encode_spec(v) == bytes@ {
                    lemma_encode_structure(v);
                    assert(bytes@[127] == presence_word(v.root is Some)[31]);
                }
            }
        }
        return Err(DecodeError::Malformed);
    }
    if flag == 0 {
        let mut j: usize = 128;
        while j < 160
            invariant
                128 <= j <= 160,
                bytes@.len() == 160,
                bytes@[127] == 0u8,
                forall|k: int| 128 <= k < j ==> bytes@[k] == 0u8,
            decreases 160 - j,
        {
            if bytes[j] != 0 {
                proof {
                    assert forall|v: PublicValuesView| !(v.wf() && encode_spec(v) == bytes@) by {
                        if v.wf() && encode_spec(v) == bytes@ {
                            lemma_encode_structure(v);
                            assert(bytes@[127] == presence_word(v.root is Some)[31]);
                            assert(v.root is None);
                            assert(bytes@[j as int] == root_word(v.root)[j - 128]);
                        }
                    }
                }
                return Err(DecodeError::Malformed);
            }
            j = j + 1;
        }
        let pv = PublicValues { n, a, b, root: None };
        proof {
            assert(encode_spec(pv@) =~= bytes@);
        }
        Ok(pv)
    } else {
        let mut root: Vec<u8> = Vec::new();
        let mut j: usize = 128;
        while j < 160
            invariant
                128 <= j <= 160,
                bytes@.len() == 160,
                root@ == bytes@.subrange(128, j as int),
            decreases 160 - j,
        {
            root.push(bytes[j]);
            j = j + 1;
            proof {
                assert(root@ =~= bytes@.subrange(128, j as int));
            }
        }
        let pv = PublicValues { n, a, b, root: Some(root) };
        proof {
            assert(encode_spec(pv@) =~= bytes@);
        }
        Ok(pv)
    }
}

} // verus!

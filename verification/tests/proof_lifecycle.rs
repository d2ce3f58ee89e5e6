use fibonacci_transition::artifact::{
    decode_artifact, encode_artifact, ArtifactError, ProofArtifact,
};
use fibonacci_transition::codec::{
    decode_public_values, encode_input_tape, encode_public_values, read_input_tape, DecodeError,
    PublicValues,
};
use fibonacci_transition::hexstr::root_hex;
use fibonacci_transition::orchestrator::{
    check_execution, select_mode, CheckError, InputError, Mode,
};
use fibonacci_transition::transition::run;

fn sample(root: Option<Vec<u8>>) -> PublicValues {
    PublicValues { n: 7, a: 13, b: 21, root }
}

#[test]
fn encoding_layout_is_five_words() {
    let bytes = encode_public_values(&PublicValues { n: 258, a: 1, b: 2, root: None });
    assert_eq!(bytes.len(), 160);
    // n = 258 sits big-endian in the last bytes of the first word.
    assert_eq!(&bytes[0..28], &[0u8; 28][..]);
    assert_eq!(&bytes[28..32], &[0, 0, 1, 2]);
    // Absent root: presence word and root word are all zeros.
    assert_eq!(&bytes[96..160], &[0u8; 64][..]);
}

#[test]
fn present_root_sets_the_presence_word() {
    let bytes = encode_public_values(&sample(Some(vec![0xcd; 32])));
    assert_eq!(&bytes[96..127], &[0u8; 31][..]);
    assert_eq!(bytes[127], 1);
    assert_eq!(&bytes[128..160], &[0xcd; 32][..]);
}

#[test]
fn public_values_round_trip() {
    let cases = vec![
        sample(None),
        sample(Some(vec![0x00; 32])),
        sample(Some(vec![0xff; 32])),
        PublicValues { n: u32::MAX, a: 0, b: u32::MAX, root: Some(vec![0x5a; 32]) },
        PublicValues { n: 0, a: 0, b: 0, root: None },
    ];
    for pv in cases {
        let bytes = encode_public_values(&pv);
        assert_eq!(decode_public_values(&bytes), Ok(pv));
    }
}

#[test]
fn decoder_rejects_wrong_length() {
    assert_eq!(decode_public_values(&vec![0u8; 10]), Err(DecodeError::WrongLength));
    assert_eq!(decode_public_values(&vec![0u8; 161]), Err(DecodeError::WrongLength));
}

#[test]
fn decoder_rejects_noncanonical_bytes() {
    // Non-zero padding inside an integer word.
    let mut bytes = encode_public_values(&sample(None));
    bytes[5] = 1;
    assert_eq!(decode_public_values(&bytes), Err(DecodeError::Malformed));
    // A presence word that is neither 0 nor 1.
    let mut bytes = encode_public_values(&sample(None));
    bytes[127] = 2;
    assert_eq!(decode_public_values(&bytes), Err(DecodeError::Malformed));
    // Padding within the presence word.
    let mut bytes = encode_public_values(&sample(None));
    bytes[100] = 9;
    assert_eq!(decode_public_values(&bytes), Err(DecodeError::Malformed));
    // An absent root whose root word is not all zeros.
    let mut bytes = encode_public_values(&sample(None));
    bytes[140] = 3;
    assert_eq!(decode_public_values(&bytes), Err(DecodeError::Malformed));
}

#[test]
fn all_zero_root_is_distinct_from_absent_root() {
    let with_zero_root = encode_public_values(&sample(Some(vec![0x00; 32])));
    let without_root = encode_public_values(&sample(None));
    assert_ne!(with_zero_root, without_root);
    assert_eq!(decode_public_values(&with_zero_root), Ok(sample(Some(vec![0x00; 32]))));
}

#[test]
fn artifact_round_trip_is_byte_exact() {
    let artifact = ProofArtifact {
        proof_bytes: vec![0xde, 0xad, 0xbe, 0xef],
        public_values: encode_public_values(&sample(Some(vec![0x11; 32]))),
    };
    let stored = encode_artifact(&artifact);
    let loaded = decode_artifact(&stored).expect("artifact must decode");
    assert_eq!(loaded, artifact);
    assert_eq!(loaded.proof_bytes, artifact.proof_bytes);
    assert_eq!(loaded.public_values, artifact.public_values);
}

#[test]
fn empty_artifact_parts_round_trip() {
    let artifact = ProofArtifact { proof_bytes: vec![], public_values: vec![] };
    let stored = encode_artifact(&artifact);
    assert_eq!(stored.len(), 9);
    assert_eq!(decode_artifact(&stored), Ok(artifact));
}

#[test]
fn artifact_decoder_rejects_malformed_input() {
    assert_eq!(decode_artifact(&vec![]), Err(ArtifactError::TooShort));
    assert_eq!(decode_artifact(&vec![1u8; 8]), Err(ArtifactError::TooShort));
    let mut bad_version = encode_artifact(&ProofArtifact {
        proof_bytes: vec![1],
        public_values: vec![2],
    });
    bad_version[0] = 2;
    assert_eq!(decode_artifact(&bad_version), Err(ArtifactError::UnsupportedVersion));
    // A length field that reaches past the end of the input.
    let mut bad_length = encode_artifact(&ProofArtifact {
        proof_bytes: vec![1],
        public_values: vec![],
    });
    bad_length[8] = 9;
    assert_eq!(decode_artifact(&bad_length), Err(ArtifactError::BadLength));
}

#[test]
fn cross_check_accepts_transition_outputs() {
    // The reference check in execute mode agrees with the program for the
    // default index and for a shifted run.
    let pv = run(20, 0).expect("transition must succeed");
    let output = encode_public_values(&pv);
    let checked = check_execution(&output, 0).expect("cross-check must accept");
    assert_eq!(checked, pv);

    let pv = run(10, 5).expect("transition must succeed");
    let output = encode_public_values(&pv);
    let checked = check_execution(&output, 5).expect("cross-check must accept");
    assert_eq!(checked.n, 10);
    assert_eq!(checked.a, 60);
    assert_eq!(checked.b, 94);
}

#[test]
fn cross_check_rejects_tampered_values() {
    let mut pv = run(20, 0).expect("transition must succeed");
    pv.a += 1;
    let output = encode_public_values(&pv);
    assert_eq!(check_execution(&output, 0), Err(CheckError::Mismatch));
    // A wrong offset also fails the cross-check.
    let pv = run(10, 5).expect("transition must succeed");
    let output = encode_public_values(&pv);
    assert_eq!(check_execution(&output, 4), Err(CheckError::Mismatch));
}

#[test]
fn cross_check_rejects_undecodable_output() {
    assert_eq!(
        check_execution(&vec![0u8; 10], 0),
        Err(CheckError::Decode(DecodeError::WrongLength))
    );
    let mut bytes = encode_public_values(&sample(None));
    bytes[0] = 7;
    assert_eq!(check_execution(&bytes, 0), Err(CheckError::Decode(DecodeError::Malformed)));
}

#[test]
fn generate_then_verify_reports_execute_values() {
    // Generate for (5, 1), persist, reload, and compare with what execute
    // mode reports for identical inputs.
    let pv = run(5, 1).expect("transition must succeed");
    let artifact = ProofArtifact {
        proof_bytes: vec![0xab; 64],
        public_values: encode_public_values(&pv),
    };
    let stored = encode_artifact(&artifact);
    let loaded = decode_artifact(&stored).expect("artifact must decode");
    let reported = decode_public_values(&loaded.public_values).expect("values must decode");
    let executed = run(5, 1).expect("transition must succeed");
    assert_eq!(reported, executed);
    assert_eq!(reported.n, 5);
    assert_eq!(reported.a, 6);
    assert_eq!(reported.b, 9);
}

#[test]
fn input_tape_round_trip() {
    let tape = encode_input_tape(20, 0);
    assert_eq!(tape, vec![0, 0, 0, 20, 0, 0, 0, 0]);
    assert_eq!(read_input_tape(&tape), Some((20, 0)));
    let tape = encode_input_tape(u32::MAX, 12345);
    assert_eq!(tape, vec![0xff, 0xff, 0xff, 0xff, 0, 0, 0x30, 0x39]);
    assert_eq!(read_input_tape(&tape), Some((u32::MAX, 12345)));
    assert_eq!(read_input_tape(&vec![0u8; 7]), None);
    assert_eq!(read_input_tape(&vec![0u8; 9]), None);
}

#[test]
fn no_mode_selected_is_an_input_error() {
    assert_eq!(select_mode(false, false, false), Err(InputError::NoModeSelected));
}

#[test]
fn mode_selection_prefers_execute_then_generate() {
    assert_eq!(select_mode(true, true, true), Ok(Mode::Execute));
    assert_eq!(select_mode(true, false, false), Ok(Mode::Execute));
    assert_eq!(select_mode(false, true, true), Ok(Mode::Generate));
    assert_eq!(select_mode(false, false, true), Ok(Mode::Verify));
}

#[test]
fn root_renders_as_lowercase_hex() {
    let pv = sample(Some(vec![0xab; 32]));
    let rendered = root_hex(&pv).expect("root must render");
    assert_eq!(rendered, "ab".repeat(32));
    assert_eq!(root_hex(&sample(None)), None);

    let pv = run(10, 5).expect("transition must succeed");
    let rendered = root_hex(&pv).expect("root must render");
    assert_eq!(rendered.len(), 64);
    assert!(rendered.chars().all(|c| c.is_ascii_hexdigit() && !c.is_ascii_uppercase()));
}

use psf::cix::{Delta, File, Source};
use psf::expand::{
    hash_matches, plan_reconstruct, plan_reverse, reconstruct_verified, sha256_upper,
    verify_source, verify_target, ExpandError, Reconstruction,
};
use psf::{Error, Psf, MAGIC};

const ABC_SHA256: &str = "BA7816BF8F01CFEA414140DE5DAE2223B00361A396177A9CB410FF61F20015AD";
const EMPTY_SHA256: &str = "E3B0C44298FC1C149AFBF4C8996FB92427AE41E4649B934CA495991B7852B855";

fn hash(alg: &str, value: &str) -> Option<psf::cix::Hash> {
    Some(psf::cix::Hash { alg: alg.to_string(), value: value.to_string() })
}

/// A container whose payload after the header is `abc` at 12 and `PA30xyz` at 15.
fn container() -> Vec<u8> {
    let mut v = MAGIC.to_vec();
    v.extend_from_slice(&[2, 0, 2, 0]);
    v.extend_from_slice(b"abc");
    v.extend_from_slice(b"PA30xyz");
    v
}

fn file(name: &str, kind: &str, offset: u64, length: u64) -> File {
    File {
        name: name.to_string(),
        delta: Some(Delta {
            source: Source { kind: kind.to_string(), offset, length, hash: None },
        }),
        ..File::default()
    }
}

#[test]
fn sha256_upper_is_the_upper_case_hex_digest() {
    assert_eq!(sha256_upper(b"abc"), ABC_SHA256);
    assert_eq!(sha256_upper(b""), EMPTY_SHA256);
}

#[test]
fn hash_matches_checks_only_sha256_ignoring_case() {
    assert!(hash_matches(&hash("SHA256", ABC_SHA256), b"abc"));
    assert!(hash_matches(&hash("sha256", &ABC_SHA256.to_lowercase()), b"abc"));
    assert!(!hash_matches(&hash("SHA256", ABC_SHA256), b"abd"));
    assert!(!hash_matches(&hash("SHA256", "AABB"), b"abc"));
    // Absent or unknown-algorithm hashes never claim a mismatch.
    assert!(hash_matches(&None, b"abc"));
    assert!(hash_matches(&hash("MD5", "AABB"), b"abc"));
    assert!(hash_matches(&hash("SHA2566", "AABB"), b"abc"));
}

#[test]
fn verify_target_needs_length_and_hash() {
    let mut f = File { length: 3, hash: hash("SHA256", ABC_SHA256), ..File::default() };
    assert!(verify_target(&f, b"abc"));
    assert!(!verify_target(&f, b"abd"));
    f.length = 4;
    assert!(!verify_target(&f, b"abc"));
    f.hash = None;
    f.length = 0;
    assert!(verify_target(&f, b""));
}

#[test]
fn raw_source_is_returned_verbatim_and_delta_bytes_are_handed_out() {
    let data = container();
    let psf = Psf::parse(&data).unwrap();
    match plan_reconstruct(&psf, &file("a", "RAW", 12, 3)) {
        Ok(Reconstruction::Verbatim(v)) => assert_eq!(v, b"abc"),
        _ => panic!("RAW source not verbatim"),
    }
    match plan_reconstruct(&psf, &file("a", "raw", 12, 3)) {
        Ok(Reconstruction::Verbatim(v)) => assert_eq!(v, b"abc"),
        _ => panic!("raw source not verbatim"),
    }
    match plan_reconstruct(&psf, &file("d", "PA30", 15, 7)) {
        Ok(Reconstruction::ApplyDelta(d)) => assert_eq!(d, b"PA30xyz"),
        _ => panic!("delta source not handed out"),
    }
}

#[test]
fn reconstruction_errors() {
    let data = container();
    let psf = Psf::parse(&data).unwrap();
    let nameless = File { name: "x".to_string(), ..File::default() };
    assert!(matches!(
        plan_reconstruct(&psf, &nameless),
        Err(ExpandError::NoSource { name }) if name == "x"
    ));
    assert!(matches!(
        plan_reconstruct(&psf, &file("w", "LZX", 12, 3)),
        Err(ExpandError::UnsupportedSource { name, kind }) if name == "w" && kind == "LZX"
    ));
    assert!(matches!(
        plan_reconstruct(&psf, &file("o", "RAW", 20, 3)),
        Err(ExpandError::Psf(Error::OutOfBounds { offset: 20, length: 3, size: 22 }))
    ));
}

#[test]
fn reconstruct_verified_checks_the_target() {
    let good = File { name: "t".to_string(), length: 3, hash: hash("SHA256", ABC_SHA256), ..File::default() };
    assert_eq!(reconstruct_verified(&good, Ok(b"abc".to_vec())).unwrap(), b"abc");
    assert_eq!(
        reconstruct_verified(&good, Ok(b"abd".to_vec())).unwrap_err(),
        ExpandError::TargetMismatch { name: "t".to_string() }
    );
    assert_eq!(
        reconstruct_verified(&good, Err(ExpandError::NoSource { name: "t".to_string() })).unwrap_err(),
        ExpandError::NoSource { name: "t".to_string() }
    );
}

#[test]
fn verify_source_checks_the_stream_hash() {
    let data = container();
    let psf = Psf::parse(&data).unwrap();
    let mut f = file("a", "RAW", 12, 3);
    f.delta.as_mut().unwrap().source.hash = hash("SHA256", ABC_SHA256);
    assert_eq!(verify_source(&psf, &f).unwrap(), true);
    f.delta.as_mut().unwrap().source.offset = 13;
    assert_eq!(verify_source(&psf, &f).unwrap(), false);
    f.delta.as_mut().unwrap().source.offset = 21;
    assert!(matches!(verify_source(&psf, &f), Err(ExpandError::Psf(_))));
    assert!(matches!(
        verify_source(&psf, &File::default()),
        Err(ExpandError::NoSource { .. })
    ));
}

#[test]
fn reverse_plan_skips_non_delta_sources() {
    let data = container();
    let psf = Psf::parse(&data).unwrap();
    // A RAW source has nothing to reverse, even with a range out of bounds.
    assert_eq!(plan_reverse(&psf, &file("r", "RAW", 1000, 3)).unwrap(), None);
    assert_eq!(plan_reverse(&psf, &file("d", "PA30", 15, 7)).unwrap(), Some(&b"PA30xyz"[..]));
    assert!(matches!(
        plan_reverse(&psf, &file("d", "PA30", 15, 8)),
        Err(ExpandError::Psf(Error::OutOfBounds { .. }))
    ));
    assert!(matches!(
        plan_reverse(&psf, &File::default()),
        Err(ExpandError::NoSource { .. })
    ));
}

#[test]
fn digest_hex_is_64_characters_and_a_short_value_never_matches() {
    assert_eq!(sha256_upper(b"any bytes at all").len(), 64);
    assert!(!hash_matches(&hash("SHA256", "00"), b""));
}

#[test]
fn reverse_roundtrip_holds_only_for_the_exact_basis() {
    assert!(psf::expand::reverse_roundtrip_holds(b"basis", b"basis"));
    assert!(psf::expand::reverse_roundtrip_holds(b"", b""));
    assert!(!psf::expand::reverse_roundtrip_holds(b"basis", b"basiS"));
    assert!(!psf::expand::reverse_roundtrip_holds(b"basis", b"basis!"));
}

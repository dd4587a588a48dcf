use psf::cix::{ContainerIndex, Delta, DeltaBasisSearch, File, Files, Location, Source};
use psf::PsfStream;

fn hash(alg: &str, value: &str) -> psf::cix::Hash {
    psf::cix::Hash { alg: alg.to_string(), value: value.to_string() }
}

/// The Container Index of this manifest, as its reader yields it:
///
/// ```xml
/// <Container name="kb-baseless.psf" type="PSF" length="100" version="1" xmlns="urn:ContainerIndex">
/// <DeltaBasisSearch><Location id="0" path="{windir}\servicing\packages" flags="2000001" /></DeltaBasisSearch>
/// <Files>
/// <File id="1" name="a.dll" length="11776" time="134225614730000000" attr="128">
/// <Hash alg="SHA256" value="AABB" />
/// <Delta><Source type="PA30" offset="3276800" length="4595"><Hash alg="SHA256" value="CCDD" /></Source></Delta>
/// </File>
/// <File id="2" name="b.txt" length="5" time="0" attr="128">
/// <Hash alg="SHA256" value="EEFF" />
/// <Delta><Source type="RAW" offset="100" length="5" /></Delta>
/// </File>
/// </Files></Container>
/// ```
fn sample() -> ContainerIndex {
    ContainerIndex {
        name: "kb-baseless.psf".to_string(),
        kind: "PSF".to_string(),
        length: 100,
        version: "1".to_string(),
        delta_basis_search: Some(DeltaBasisSearch {
            location: vec![Location {
                id: 0,
                path: "{windir}\\servicing\\packages".to_string(),
                flags: "2000001".to_string(),
            }],
        }),
        files: Files {
            file: vec![
                File {
                    id: 1,
                    name: "a.dll".to_string(),
                    length: 11776,
                    time: "134225614730000000".to_string(),
                    attr: "128".to_string(),
                    hash: Some(hash("SHA256", "AABB")),
                    delta: Some(Delta {
                        source: Source {
                            kind: "PA30".to_string(),
                            offset: 3276800,
                            length: 4595,
                            hash: Some(hash("SHA256", "CCDD")),
                        },
                    }),
                },
                File {
                    id: 2,
                    name: "b.txt".to_string(),
                    length: 5,
                    time: "0".to_string(),
                    attr: "128".to_string(),
                    hash: Some(hash("SHA256", "EEFF")),
                    delta: Some(Delta {
                        source: Source {
                            kind: "RAW".to_string(),
                            offset: 100,
                            length: 5,
                            hash: None,
                        },
                    }),
                },
            ],
        },
    }
}

#[test]
fn parses_container_index() {
    let cix = sample();
    assert_eq!(cix.kind, "PSF");
    assert_eq!(cix.length, 100);
    assert!(cix.is_baseless());
    assert_eq!(cix.delta_basis_search.as_ref().unwrap().location.len(), 1);

    let files = cix.files();
    assert_eq!(files.len(), 2);

    let a = &files[0];
    assert_eq!(a.name, "a.dll");
    assert_eq!(a.length, 11776);
    assert_eq!(a.hash.as_ref().unwrap().value, "AABB");
    let sa = a.source().unwrap();
    assert!(sa.is_delta());
    assert_eq!(sa.kind, "PA30");
    assert_eq!(a.psf_stream(), Some(PsfStream { offset: 3276800, length: 4595 }));
    assert_eq!(sa.hash.as_ref().unwrap().value, "CCDD");

    let b = &files[1];
    let sb = b.source().unwrap();
    assert!(!sb.is_delta());
    assert_eq!(sb.kind, "RAW");
    assert_eq!(b.psf_stream(), Some(PsfStream { offset: 100, length: 5 }));
}

#[test]
fn is_delta_is_a_case_sensitive_pa_prefix() {
    let src = |k: &str| Source { kind: k.to_string(), ..Source::default() };
    for k in ["PA30", "PA31", "PA19", "PA00", "PARTIAL", "PA"] {
        assert!(src(k).is_delta(), "{k}");
    }
    for k in ["pa30", "RAW", "", "P", "XPRESS", "aPA30"] {
        assert!(!src(k).is_delta(), "{k}");
    }
}

#[test]
fn is_baseless_finds_the_marker_anywhere_in_the_name() {
    let named = |n: &str| ContainerIndex { name: n.to_string(), ..ContainerIndex::default() };
    assert!(named("baseless").is_baseless());
    assert!(named("windows10.0-kb5089549-x64-baseless.psf").is_baseless());
    assert!(named("bbaselessss").is_baseless());
    assert!(!named("kb-base.psf").is_baseless());
    assert!(!named("Baseless.psf").is_baseless());
    assert!(!named("baseles").is_baseless());
    assert!(!named("").is_baseless());
}

#[test]
fn a_file_without_delta_has_no_source_or_stream() {
    let f = File { name: "c.bin".to_string(), ..File::default() };
    assert!(f.source().is_none());
    assert_eq!(f.psf_stream(), None);
    let s = Source { offset: 7, length: 9, ..Source::default() };
    assert_eq!(s.stream(), PsfStream { offset: 7, length: 9 });
}

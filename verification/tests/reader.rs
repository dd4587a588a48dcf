use psf::reader::{fill_step, FillAction, FillEvent, PsfReader};
use psf::{Error, Psf, PsfStream, MAGIC};

fn synthetic() -> Vec<u8> {
    let mut v = Vec::new();
    v.extend_from_slice(&MAGIC);
    v.extend_from_slice(&2u16.to_le_bytes()); // major
    v.extend_from_slice(&2u16.to_le_bytes()); // minor
    v.resize(128, 0); // header padding to first stream
    v.extend_from_slice(b"PA30"); // a (fake) delta blob at offset 128
    v.extend_from_slice(&[0xAA; 60]);
    v
}

/// A reader over `data` as its byte source: the header is what a read of the
/// first 12 bytes gives, and the length is the source's length.
fn open(data: Vec<u8>) -> Result<PsfReader<Vec<u8>>, Error> {
    let n = data.len().min(12);
    let header = data[..n].to_vec();
    let len = data.len() as u64;
    PsfReader::from_header(data, &header, len)
}

#[test]
fn reads_header_and_length() {
    let data = synthetic();
    let len = data.len() as u64;
    let psf = open(data).unwrap();
    assert_eq!(psf.version(), (2, 2));
    assert_eq!(psf.len(), len);
    assert!(!psf.is_empty());
}

#[test]
fn reader_rejects_bad_magic_and_truncation() {
    let bad = open(b"NOTPSF\0\0\x02\x00\x02\x00".to_vec());
    assert!(matches!(bad.unwrap_err(), Error::BadMagic));
    let short = open(b"PSTRE".to_vec());
    assert!(matches!(short.unwrap_err(), Error::Truncated { need: 12, have: 5 }));
}

#[test]
fn reads_stream_by_range_and_bounds_checks() {
    let psf = open(synthetic()).unwrap();
    assert_eq!(psf.check_range(PsfStream { offset: 128, length: 64 }), Ok(192));
    assert!(matches!(
        psf.check_range(PsfStream { offset: 128, length: 1 << 20 }),
        Err(Error::OutOfBounds { .. })
    ));
}

#[test]
fn reader_and_in_memory_parser_agree() {
    let data = synthetic();
    let mem = Psf::parse(&data).unwrap();
    let rdr = open(data.clone()).unwrap();
    assert_eq!(mem.version(), rdr.version());
    assert_eq!(mem.len() as u64, rdr.len());
    let len = rdr.len();
    let edges = [
        (0u64, 0u64),
        (0, len),
        (len, 0),
        (len, 1),
        (len - 1, 1),
        (len - 1, 2),
        (0, len + 1),
        (8, 4),
        (u64::MAX, 0),
        (u64::MAX - 4, 8),
    ];
    for (offset, length) in edges {
        let s = PsfStream { offset, length };
        match (mem.stream(s), rdr.check_range(s)) {
            (Ok(a), Ok(end)) => assert_eq!(a, &data[offset as usize..end as usize]),
            (Err(a), Err(b)) => assert_eq!(a, b),
            (a, b) => panic!("disagreement at {offset}+{length}: {a:?} vs {b:?}"),
        }
    }
    // The header decision agrees too, for short and bad inputs.
    for bytes in [&b"PSTRE"[..], &b"NOTPSF\0\0\x02\x00\x02\x00\x09"[..], &data[..12]] {
        assert_eq!(Psf::parse(bytes).map(|p| p.version()), open(bytes.to_vec()).map(|r| r.version()));
    }
}

#[test]
fn into_inner_returns_the_source_and_inner_mut_reaches_it() {
    let data = synthetic();
    let mut rdr = open(data.clone()).unwrap();
    rdr.inner_mut().push(7);
    let back = rdr.into_inner();
    assert_eq!(&back[..data.len()], &data[..]);
    assert_eq!(back.last(), Some(&7));
}

#[test]
fn a_reader_is_never_empty() {
    let rdr = open(synthetic()).unwrap();
    assert!(!rdr.is_empty());
    assert!(rdr.len() >= 12);
}

#[test]
fn fill_steps_stop_at_full_buffer_end_of_input_or_failure() {
    assert_eq!(fill_step(0, 12, FillEvent::Read(5)), (5, FillAction::ReadMore));
    assert_eq!(fill_step(5, 12, FillEvent::Read(7)), (12, FillAction::Done));
    // End of input: a short header is kept, to be reported as truncation.
    assert_eq!(fill_step(5, 12, FillEvent::Read(0)), (5, FillAction::Done));
    assert_eq!(fill_step(5, 12, FillEvent::Interrupted), (5, FillAction::ReadMore));
    assert_eq!(fill_step(12, 12, FillEvent::Interrupted), (12, FillAction::Done));
    assert_eq!(fill_step(3, 12, FillEvent::Failed), (3, FillAction::Fail));
}

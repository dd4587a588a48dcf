//! A reader for PSTREAM containers too large to hold in memory.
//!
//! `Psf` borrows the whole file and hands back zero-copy slices. `PsfReader`
//! instead holds a byte source, the version read from the header and the
//! total length learnt once, and pulls each `PsfStream` range on demand. This
//! module holds its decisions: which headers are accepted and which ranges
//! may be read. Reading and seeking are done by the caller on the source.
use vstd::prelude::*;

use crate::{header_result, range_in_bounds, read_header, stream_end, Error, PsfStream, HEADER_LEN};

verus! {

/// A PSTREAM container read incrementally from a byte source `R`.
#[derive(Debug)]
pub struct PsfReader<R> {
    inner: R,
    header: HeaderInfo,
}

/// What the reader learnt once: the header's version and the total length,
/// which covers at least the header.
#[derive(Debug, Clone, Copy)]
struct HeaderInfo {
    version: (u16, u16),
    len: u64,
}

impl HeaderInfo {
    #[verifier::type_invariant]
    spec fn covers_header(self) -> bool {
        self.len >= HEADER_LEN
    }
}

/// The first bytes of `data` that a reader examines as the header: up to 12.
pub open spec fn header_prefix(data: Seq<u8>) -> Seq<u8> {
    if data.len() < HEADER_LEN {
        data
    } else {
        data.take(HEADER_LEN as int)
    }
}

/// The streaming reader and the in-memory parser decide alike on the same
/// bytes: the header examined by the reader (the first 12 bytes, or all of a
/// shorter file) is accepted exactly when `Psf::parse` accepts the whole file,
/// with the same version or the same error; and a range is in bounds for the
/// reader's length, the file's length as a `u64`, exactly when `Psf::stream`
/// accepts it.
pub proof fn lemma_reader_agrees_with_parse(data: Seq<u8>, s: PsfStream)
    requires
        data.len() <= u64::MAX,
    ensures
        header_result(header_prefix(data)) == header_result(data),
        range_in_bounds(s, (data.len() as u64) as int) == range_in_bounds(s, data.len() as int),
{
    if data.len() >= HEADER_LEN {
        let h = header_prefix(data);
        assert(h.take(8) =~= data.take(8));
    }
}

/// A reader opened from a prefix of the bytes `data` as its header, with the
/// length of `data` (what `from_header` gives when the source holds `data`),
/// agrees with `Psf::parse(data)`: the file is accepted with the reader's
/// version, the reader's length is the file's and at least the header's, and
/// a range is accepted by the reader exactly when `Psf::stream` accepts it.
/// Only `inner_mut` takes the reader mutably, and it keeps version and length.
pub proof fn lemma_reader_over_data<R>(data: Seq<u8>, r: PsfReader<R>, s: PsfStream)
    requires
        data.len() <= u64::MAX,
        header_result(header_prefix(data)) == Ok::<(u16, u16), Error>(r.header_version()),
        r.size() == data.len(),
    ensures
        header_result(data) == Ok::<(u16, u16), Error>(r.header_version()),
        r.size() >= HEADER_LEN,
        range_in_bounds(s, r.size() as int) == range_in_bounds(s, data.len() as int),
{
    lemma_reader_agrees_with_parse(data, s);
}

/// One event of reading the header: a read that filled `n` more bytes (`0`
/// at the end of the input), an interrupted read, or a failed one.
pub enum FillEvent {
    Read(usize),
    Interrupted,
    Failed,
}

/// What follows an event: read again, stop with what was filled, or fail.
#[derive(PartialEq, Eq, Debug)]
pub enum FillAction {
    ReadMore,
    Done,
    Fail,
}

/// One step of filling a buffer of `len` bytes of which `filled` are filled.
/// A read of `n > 0` bytes adds them and reads again until the buffer is
/// full; the end of the input stops with what was filled, so that a short
/// header is reported as truncation, not as a fault; an interrupted read is
/// retried while the buffer is not full; a failed read fails.
pub fn fill_step(filled: usize, len: usize, ev: FillEvent) -> (r: (usize, FillAction))
    requires
        filled <= len,
        ev matches FillEvent::Read(n) ==> n <= len - filled,
    ensures
        r.0 <= len,
        ev matches FillEvent::Read(n) ==> r.0 == filled + n && (if n > 0 && filled + n < len {
            r.1 == FillAction::ReadMore
        } else {
            r.1 == FillAction::Done
        }),
        ev is Interrupted ==> r.0 == filled && (if filled < len {
            r.1 == FillAction::ReadMore
        } else {
            r.1 == FillAction::Done
        }),
        ev is Failed ==> r == (filled, FillAction::Fail),
{
    match ev {
        FillEvent::Read(n) => {
            if n == 0 {
                (filled, FillAction::Done)
            } else if filled + n < len {
                (filled + n, FillAction::ReadMore)
            } else {
                (filled + n, FillAction::Done)
            }
        },
        FillEvent::Interrupted => {
            if filled < len {
                (filled, FillAction::ReadMore)
            } else {
                (filled, FillAction::Done)
            }
        },
        FillEvent::Failed => (filled, FillAction::Fail),
    }
}

impl<R: Clone> Clone for PsfReader<R> {
    fn clone(&self) -> (r: Self)
        ensures
            r.header_version() == self.header_version(),
            r.size() == self.size(),
    {
        PsfReader { inner: self.inner.clone(), header: self.header }
    }
}

impl<R> PsfReader<R> {
    /// The byte source.
    pub closed spec fn source(&self) -> R {
        self.inner
    }

    /// The version the header gave.
    pub closed spec fn header_version(&self) -> (u16, u16) {
        self.header.version
    }

    /// The total length of the container in bytes.
    pub closed spec fn size(&self) -> u64 {
        self.header.len
    }

    /// A reader over `inner`, whose header bytes were `header` (what was read
    /// from the start of the source, at most 12 bytes needed) and whose total
    /// length is `len`, which covers at least the header bytes read. The
    /// header is validated as `Psf::parse` does.
    pub fn from_header(inner: R, header: &[u8], len: u64) -> (r: Result<Self, Error>)
        requires
            header@.len() <= len,
        ensures
            header_result(header@) is Ok <==> r is Ok,
            r matches Ok(p) ==> {
                &&& header_result(header@) == Ok::<(u16, u16), Error>(p.header_version())
                &&& p.size() == len
                &&& p.source() == inner
            },
            r matches Err(e) ==> header_result(header@) == Err::<(u16, u16), Error>(e),
    {
        match read_header(header) {
            Ok(version) => Ok(PsfReader { inner, header: HeaderInfo { version, len } }),
            Err(e) => Err(e),
        }
    }

    /// The container format version (`(2, 2)` for current files).
    pub fn version(&self) -> (r: (u16, u16))
        ensures
            r == self.header_version(),
    {
        self.header.version
    }

    /// Total size of the container in bytes.
    pub fn len(&self) -> (r: u64)
        ensures
            r == self.size(),
            r >= HEADER_LEN,
    {
        proof {
            use_type_invariant(&self.header);
        }
        self.header.len
    }

    pub fn is_empty(&self) -> (r: bool)
        ensures
            r == (self.size() == 0),
            !r,
    {
        proof {
            use_type_invariant(&self.header);
        }
        self.header.len == 0
    }

    /// Checks the range `s` against the container length before the source
    /// is touched, and returns where the range ends.
    pub fn check_range(&self, s: PsfStream) -> (r: Result<u64, Error>)
        ensures
            r is Ok <==> range_in_bounds(s, self.size() as int),
            r matches Ok(end) ==> end == s.offset + s.length,
            r matches Err(e) ==> e == (Error::OutOfBounds {
                offset: s.offset,
                length: s.length,
                size: self.size(),
            }),
    {
        stream_end(s, self.header.len)
    }

    /// The byte source, to read and seek in.
    pub fn inner_mut(&mut self) -> (r: &mut R)
        ensures
            *r == old(self).source(),
            final(self).source() == *final(r),
            final(self).header_version() == old(self).header_version(),
            final(self).size() == old(self).size(),
    {
        &mut self.inner
    }

    /// Consume the reader and return the underlying source.
    pub fn into_inner(self) -> (r: R)
        ensures
            r == self.source(),
    {
        self.inner
    }
}

} // verus!

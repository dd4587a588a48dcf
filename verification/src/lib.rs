//! Reader for Microsoft PSTREAM Patch Storage Files, the "express download"
//! payload container used by Windows Update, and for their paired Container
//! Index manifest.
//!
//! A PSTREAM file is a small header followed by concatenated payload streams,
//! each typically a `PA30`/`PA31` MSDelta differential. The container is not
//! self-indexing: the map from a target file to its `(offset, length)` stream
//! lives in the CIX manifest. This crate validates the container and yields a
//! stream's bytes by range, zero-copy: `&[u8]` in, byte slices out.
use vstd::prelude::*;

pub mod cix;
pub mod expand;
pub mod fuzz;
pub mod reader;
pub mod text;

verus! {

/// PSTREAM file magic (`"PSTREAM\0"`).
pub const MAGIC: [u8; 8] = [0x50, 0x53, 0x54, 0x52, 0x45, 0x41, 0x4d, 0x00];

/// MSDelta blob magics a PSTREAM stream typically begins with:
/// `"PA30"`, `"PA31"` and `"PA19"`.
pub const DELTA_MAGICS: [[u8; 4]; 3] = [
    [0x50, 0x41, 0x33, 0x30],
    [0x50, 0x41, 0x33, 0x31],
    [0x50, 0x41, 0x31, 0x39],
];

/// Length of the fixed PSTREAM header: magic, major and minor version.
pub const HEADER_LEN: usize = 12;

/// Why a container or a range in it was refused.
#[derive(Debug, PartialEq, Eq)]
pub enum Error {
    /// Not a PSTREAM file (bad magic).
    BadMagic,
    /// Truncated PSF: `need` bytes are needed, `have` are present.
    Truncated { need: usize, have: usize },
    /// Stream range `offset + length` is out of bounds of a file of `size` bytes.
    OutOfBounds { offset: u64, length: u64, size: u64 },
    /// The Container Index manifest could not be parsed.
    Cix(String),
}

pub type Result<T> = core::result::Result<T, Error>;

/// A stream located within a PSF by byte range (from the paired CIX manifest).
#[derive(Debug, Clone, Copy, PartialEq, Eq)]
pub struct PsfStream {
    pub offset: u64,
    pub length: u64,
}

/// Little-endian 16-bit value of two bytes.
pub open spec fn le_u16(lo: u8, hi: u8) -> u16 {
    (lo + 256 * hi) as u16
}

/// What the header at the start of `data` decides: the `(major, minor)`
/// format version, or why the data is not a PSTREAM container.
pub open spec fn header_result(data: Seq<u8>) -> core::result::Result<(u16, u16), Error> {
    if data.len() < HEADER_LEN {
        Err(Error::Truncated { need: HEADER_LEN, have: data.len() as usize })
    } else if data.take(8) != MAGIC@ {
        Err(Error::BadMagic)
    } else {
        Ok((le_u16(data[8], data[9]), le_u16(data[10], data[11])))
    }
}

/// Whether the range `s` lies within a container of `size` bytes.
pub open spec fn range_in_bounds(s: PsfStream, size: int) -> bool {
    s.offset + s.length <= size
}

/// Whether one of the MSDelta magics starts at position `i` of `data`.
pub open spec fn delta_magic_at(data: Seq<u8>, i: int) -> bool {
    &&& 0 <= i
    &&& i + 4 <= data.len()
    &&& {
        let w = data.subrange(i, i + 4);
        ||| w == DELTA_MAGICS@[0]@
        ||| w == DELTA_MAGICS@[1]@
        ||| w == DELTA_MAGICS@[2]@
    }
}

/// `offs` lists, in increasing order, exactly the positions at or after the
/// 8-byte magic where a delta magic starts in `data`.
pub open spec fn lists_delta_blobs(data: Seq<u8>, offs: Seq<u64>) -> bool {
    &&& forall|k: int| 0 <= k < offs.len() ==> 8 <= #[trigger] offs[k] && delta_magic_at(data, offs[k] as int)
    &&& forall|k: int, l: int| 0 <= k < l < offs.len() ==> offs[k] < offs[l]
    &&& forall|j: int| 8 <= j && #[trigger] delta_magic_at(data, j) ==> offs.contains(j as u64)
}

/// Two strictly increasing sequences with the same members are equal.
proof fn lemma_increasing_same_members(a: Seq<u64>, b: Seq<u64>)
    requires
        forall|k: int, l: int| 0 <= k < l < a.len() ==> a[k] < a[l],
        forall|k: int, l: int| 0 <= k < l < b.len() ==> b[k] < b[l],
        forall|x: u64| a.contains(x) <==> b.contains(x),
    ensures
        a == b,
    decreases a.len(),
{
    if a.len() == 0 {
        if b.len() > 0 {
            assert(b.contains(b[0]));
        }
        assert(a =~= b);
    } else {
        assert(a.contains(a[0]));
        let k = choose|k: int| 0 <= k < b.len() && b[k] == a[0];
        assert(b.contains(b[0]));
        let j = choose|j: int| 0 <= j < a.len() && a[j] == b[0];
        assert(a[0] == b[0]) by {
            if j > 0 {
                assert(a[0] < a[j]);
            }
            if k > 0 {
                assert(b[0] < b[k]);
            }
        }
        let a2 = a.drop_first();
        let b2 = b.drop_first();
        assert forall|x: u64| a2.contains(x) <==> b2.contains(x) by {
            if a2.contains(x) {
                let i = choose|i: int| 0 <= i < a2.len() && a2[i] == x;
                assert(a[i + 1] == x);
                assert(a.contains(x));
                let m = choose|m: int| 0 <= m < b.len() && b[m] == x;
                assert(m != 0);
                assert(b2[m - 1] == x);
            }
            if b2.contains(x) {
                let i = choose|i: int| 0 <= i < b2.len() && b2[i] == x;
                assert(b[i + 1] == x);
                assert(b.contains(x));
                let m = choose|m: int| 0 <= m < a.len() && a[m] == x;
                assert(m != 0);
                assert(a2[m - 1] == x);
            }
        }
        lemma_increasing_same_members(a2, b2);
        assert(a =~= b) by {
            assert forall|i: int| 0 <= i < a.len() implies a[i] == b[i] by {
                if i > 0 {
                    assert(a[i] == a2[i - 1]);
                    assert(b[i] == b2[i - 1]);
                }
            }
        }
    }
}

/// The delta-blob list of a file is determined by its bytes: any two lists
/// that each name, in increasing order, exactly the post-magic positions of
/// a delta magic are the same list.
pub proof fn lemma_delta_blob_list_unique(data: Seq<u8>, a: Seq<u64>, b: Seq<u64>)
    requires
        lists_delta_blobs(data, a),
        lists_delta_blobs(data, b),
    ensures
        a == b,
{
    assert forall|x: u64| a.contains(x) <==> b.contains(x) by {
        if a.contains(x) {
            let k = choose|k: int| 0 <= k < a.len() && a[k] == x;
            assert(8 <= a[k] && delta_magic_at(data, a[k] as int));
            assert(b.contains((x as int) as u64));
        }
        if b.contains(x) {
            let k = choose|k: int| 0 <= k < b.len() && b[k] == x;
            assert(8 <= b[k] && delta_magic_at(data, b[k] as int));
            assert(a.contains((x as int) as u64));
        }
    }
    lemma_increasing_same_members(a, b);
}

/// Validates a PSTREAM header: at least 12 bytes, the magic, then the
/// little-endian major and minor version. Only the first 12 bytes are read.
pub fn read_header(header: &[u8]) -> (r: core::result::Result<(u16, u16), Error>)
    ensures
        r == header_result(header@),
{
    if header.len() < HEADER_LEN {
        return Err(Error::Truncated { need: HEADER_LEN, have: header.len() });
    }
    let mut i: usize = 0;
    while i < 8
        invariant
            0 <= i <= 8,
            header@.len() >= HEADER_LEN,
            forall|j: int| 0 <= j < i ==> header@[j] == MAGIC@[j],
        decreases 8 - i,
    {
        if header[i] != MAGIC[i] {
            assert(header@.take(8)[i as int] != MAGIC@[i as int]);
            return Err(Error::BadMagic);
        }
        i = i + 1;
    }
    assert(header@.take(8) =~= MAGIC@);
    let major: u16 = header[8] as u16 + (header[9] as u16) * 256;
    let minor: u16 = header[10] as u16 + (header[11] as u16) * 256;
    Ok((major, minor))
}

/// Checks that the range `s` lies within a container of `size` bytes, and
/// returns where it ends. The sum `offset + length` is taken without overflow.
pub fn stream_end(s: PsfStream, size: u64) -> (r: core::result::Result<u64, Error>)
    ensures
        r is Ok <==> range_in_bounds(s, size as int),
        r matches Ok(end) ==> end == s.offset + s.length,
        r matches Err(e) ==> e == (Error::OutOfBounds { offset: s.offset, length: s.length, size }),
{
    match s.offset.checked_add(s.length) {
        Some(end) => {
            if end <= size {
                Ok(end)
            } else {
                Err(Error::OutOfBounds { offset: s.offset, length: s.length, size })
            }
        },
        None => Err(Error::OutOfBounds { offset: s.offset, length: s.length, size }),
    }
}

/// Whether `data[i..i + 4]` is the magic `m`.
fn window_is(data: &[u8], i: usize, m: &[u8; 4]) -> (r: bool)
    requires
        i + 4 <= data@.len(),
    ensures
        r == (data@.subrange(i as int, i + 4) == m@),
{
    let r = data[i] == m[0] && data[i + 1] == m[1] && data[i + 2] == m[2] && data[i + 3] == m[3];
    if r {
        assert(data@.subrange(i as int, i + 4) =~= m@);
    } else {
        proof {
            if data@.subrange(i as int, i + 4) == m@ {
                assert(data@.subrange(i as int, i + 4)[0] == m@[0]);
                assert(data@.subrange(i as int, i + 4)[1] == m@[1]);
                assert(data@.subrange(i as int, i + 4)[2] == m@[2]);
                assert(data@.subrange(i as int, i + 4)[3] == m@[3]);
            }
        }
    }
    r
}

/// A parsed PSTREAM Patch Storage File (borrowed, zero-copy).
#[derive(Debug, Clone, Copy)]
pub struct Psf<'a> {
    data: &'a [u8],
    version: (u16, u16),
}

impl<'a> View for Psf<'a> {
    type V = Seq<u8>;

    /// The whole file, header included.
    closed spec fn view(&self) -> Seq<u8> {
        self.data@
    }
}

impl<'a> Psf<'a> {
    #[verifier::type_invariant]
    spec fn well_formed(self) -> bool {
        header_result(self.data@) == Ok::<(u16, u16), Error>(self.version)
    }

    /// Parse and validate the PSTREAM header.
    pub fn parse(data: &'a [u8]) -> (r: Result<Self>)
        ensures
            header_result(data@) is Ok <==> r is Ok,
            r matches Ok(p) ==> p@ == data@,
            r matches Err(e) ==> header_result(data@) == Err::<(u16, u16), Error>(e),
    {
        match read_header(data) {
            Ok(version) => Ok(Psf { data, version }),
            Err(e) => Err(e),
        }
    }

    /// The container format version (`(2, 2)` for current files).
    pub fn version(&self) -> (r: (u16, u16))
        ensures
            header_result(self@) == Ok::<(u16, u16), Error>(r),
    {
        proof {
            use_type_invariant(self);
        }
        self.version
    }

    /// Total size of the file.
    pub fn len(&self) -> (r: usize)
        ensures
            r == self@.len(),
            r >= HEADER_LEN,
    {
        proof {
            use_type_invariant(self);
        }
        self.data.len()
    }

    pub fn is_empty(&self) -> (r: bool)
        ensures
            r == (self@.len() == 0),
            !r,
    {
        proof {
            use_type_invariant(self);
        }
        self.data.len() == 0
    }

    /// The raw bytes of a stream at the given range, e.g. a `PA30` delta to
    /// hand to `msdelta`. The range comes from the paired CIX manifest.
    pub fn stream(&self, s: PsfStream) -> (r: Result<&'a [u8]>)
        ensures
            r is Ok <==> range_in_bounds(s, self@.len() as int),
            r matches Ok(b) ==> b@ == self@.subrange(s.offset as int, s.offset + s.length),
            r matches Err(e) ==> e == (Error::OutOfBounds {
                offset: s.offset,
                length: s.length,
                size: self@.len() as u64,
            }),
    {
        let size = self.data.len() as u64;
        match stream_end(s, size) {
            Ok(end) => {
                let off = s.offset as usize;
                let end = end as usize;
                Ok(&self.data[off..end])
            },
            Err(e) => Err(e),
        }
    }

    /// Heuristically locate delta blobs by their MSDelta magic. Best-effort:
    /// authoritative `(offset, length)` ranges come from the CIX manifest, and
    /// a magic can coincidentally appear inside payload bytes. Streams start
    /// at or after the header, so the 8-byte magic is skipped.
    pub fn find_delta_blobs(&self) -> (r: Vec<u64>)
        ensures
            lists_delta_blobs(self@, r@),
    {
        let data = self.data;
        let n = data.len();
        let mut out: Vec<u64> = Vec::new();
        let mut i: usize = 8;
        while n >= 4 && i <= n - 4
            invariant
                n == data@.len(),
                data@ == self@,
                8 <= i,
                forall|k: int| 0 <= k < out@.len() ==> 8 <= #[trigger] out@[k] && out@[k] < i
                    && delta_magic_at(data@, out@[k] as int),
                forall|k: int, l: int| 0 <= k < l < out@.len() ==> out@[k] < out@[l],
                forall|j: int| 8 <= j < i && #[trigger] delta_magic_at(data@, j) ==> out@.contains(
                    j as u64,
                ),
            decreases n - i,
        {
            let hit = window_is(data, i, &DELTA_MAGICS[0]) || window_is(data, i, &DELTA_MAGICS[1])
                || window_is(data, i, &DELTA_MAGICS[2]);
            let ghost old_out = out@;
            if hit {
                out.push(i as u64);
                assert(out@[out@.len() - 1] == i as u64);
            }
            assert forall|j: int| 8 <= j < i + 1 && #[trigger] delta_magic_at(data@, j) implies out@.contains(
                j as u64,
            ) by {
                if j < i {
                    let k = choose|k: int| 0 <= k < old_out.len() && old_out[k] == j as u64;
                    assert(out@[k] == j as u64);
                } else {
                    assert(out@[out@.len() - 1] == i as u64);
                }
            }
            i = i + 1;
        }
        proof {
            assert forall|j: int| 8 <= j && #[trigger] delta_magic_at(data@, j) implies out@.contains(
                j as u64,
            ) by {
                assert(j < i);
            }
        }
        out
    }
}

} // verus!

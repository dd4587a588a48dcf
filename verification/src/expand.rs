//! Reconstructing target files from a PSF and its CIX.
//!
//! Forward: a `RAW` source is the file stored verbatim; a `PA30`/`PA31` source
//! is an MSDelta to apply to a basis (the null base for a baseless container).
//! The result can be verified against the CIX target SHA256 and length.
//! Backward: derive the reverse delta and apply it to recover the basis, a
//! round-trip check.
//!
//! Applying a delta is MSDelta's work and is not done here: the functions
//! below decide what a file's source is and hand the delta bytes back, and
//! take the reconstructed bytes to check them.
use vstd::prelude::*;

use sha2::Digest;

use crate::cix::{file_source, is_delta_kind, source_range, File};
use crate::text::{
    chars_of, eq_ignore_ascii_case, eq_ignore_ascii_case_chars, eq_ignoring_ascii_case,
    push_char,
};
use crate::{range_in_bounds, Error, Psf};

verus! {

/// The hash algorithm whose digests are checked.
pub const SHA256_NAME: [char; 6] = ['S', 'H', 'A', '2', '5', '6'];

/// The source type of a file stored verbatim.
pub const RAW_KIND: [char; 3] = ['R', 'A', 'W'];

/// Errors reconstructing a target file.
#[derive(Debug, PartialEq, Eq)]
pub enum ExpandError {
    /// The CIX `File` has no `<Source>` (nothing to reconstruct from).
    NoSource { name: String },
    /// The PSF stream range was bad (truncated / out of bounds).
    Psf(Error),
    /// MSDelta failed to apply the delta.
    Apply { name: String, msg: String },
    /// A non-RAW, non-delta source (e.g. a WIM-fragment LZX/XPRESS/LZMS
    /// stream) that is not decoded: refused rather than mis-copied verbatim.
    UnsupportedSource { name: String, kind: String },
    /// Reconstructed bytes did not match the CIX target hash/length.
    TargetMismatch { name: String },
}

/// The SHA-256 digest of `data`.
pub uninterp spec fn sha256(data: Seq<u8>) -> Seq<u8>;

/// The SHA-256 digest of `data`: sha2's `Sha256::digest`, whose value is
/// named by `sha256` and not computed here. Its length is the 32 bytes that
/// sha2's output type for `Sha256` fixes.
#[verifier::external_body]
fn sha256_digest(data: &[u8]) -> (r: Vec<u8>)
    ensures
        r@ == sha256(data@),
        r@.len() == 32,
{
    sha2::Sha256::digest(data).to_vec()
}

/// Upper-case hexadecimal digit for `d < 16`.
pub open spec fn hex_digit(d: nat) -> char {
    if d < 10 {
        ((48 + d) as u8) as char
    } else {
        ((55 + d) as u8) as char
    }
}

/// Upper-case hexadecimal rendering of `bytes`, two digits per byte.
pub open spec fn hex_upper(bytes: Seq<u8>) -> Seq<char>
    decreases bytes.len(),
{
    if bytes.len() == 0 {
        seq![]
    } else {
        hex_upper(bytes.drop_last()) + seq![
            hex_digit(bytes.last() as nat / 16),
            hex_digit(bytes.last() as nat % 16),
        ]
    }
}

/// The hex rendering has two digits per byte.
pub proof fn lemma_hex_upper_len(bytes: Seq<u8>)
    ensures
        hex_upper(bytes).len() == 2 * bytes.len(),
    decreases bytes.len(),
{
    if bytes.len() > 0 {
        lemma_hex_upper_len(bytes.drop_last());
    }
}

fn hex_char(d: u8) -> (c: char)
    requires
        d < 16,
    ensures
        c == hex_digit(d as nat),
{
    if d < 10 {
        (d + 48) as char
    } else {
        (d + 55) as char
    }
}

/// Upper-case hex SHA256 of `bytes`.
pub fn sha256_upper(bytes: &[u8]) -> (r: String)
    ensures
        r@ == hex_upper(sha256(bytes@)),
        r@.len() == 64,
{
    let digest = sha256_digest(bytes);
    proof {
        lemma_hex_upper_len(digest@);
    }
    let mut out = String::new();
    let n = digest.len();
    let mut i: usize = 0;
    while i < n
        invariant
            n == digest@.len(),
            0 <= i <= n,
            out@ == hex_upper(digest@.take(i as int)),
        decreases n - i,
    {
        let b = digest[i];
        push_char(&mut out, hex_char(b / 16));
        push_char(&mut out, hex_char(b % 16));
        assert(digest@.take(i + 1).drop_last() =~= digest@.take(i as int));
        assert(out@ =~= hex_upper(digest@.take(i + 1)));
        i = i + 1;
    }
    assert(digest@.take(n as int) =~= digest@);
    out
}

/// Whether `bytes` match a CIX `<Hash>`: only SHA256 is checked; an absent or
/// unknown-algorithm hash is treated as "don't claim a mismatch". Algorithm
/// name and digest are compared without regard to ASCII case.
pub open spec fn hash_accepts(hash: Option<crate::cix::Hash>, bytes: Seq<u8>) -> bool {
    match hash {
        Some(h) => eq_ignoring_ascii_case(h.alg@, SHA256_NAME@) ==> eq_ignoring_ascii_case(
            hex_upper(sha256(bytes)),
            h.value@,
        ),
        None => true,
    }
}

/// Whether `bytes` match a CIX `<Hash>` (see `hash_accepts`).
pub fn hash_matches(hash: &Option<crate::cix::Hash>, bytes: &[u8]) -> (r: bool)
    ensures
        r == hash_accepts(*hash, bytes@),
        hash is None ==> r,
        hash matches Some(h) ==> (if eq_ignoring_ascii_case(h.alg@, SHA256_NAME@) {
            r == eq_ignoring_ascii_case(hex_upper(sha256(bytes@)), h.value@)
        } else {
            r
        }),
{
    match hash {
        Some(h) => {
            let alg = chars_of(h.alg.as_str());
            if eq_ignore_ascii_case_chars(alg.as_slice(), &SHA256_NAME) {
                let digest = sha256_upper(bytes);
                eq_ignore_ascii_case(digest.as_str(), h.value.as_str())
            } else {
                true
            }
        },
        None => true,
    }
}

/// `bytes` have the CIX target length and match its SHA256.
pub open spec fn target_accepts(file: File, bytes: Seq<u8>) -> bool {
    file.length == bytes.len() && hash_accepts(file.hash, bytes)
}

/// What a CIX `<Hash>` accepts: no hash, or a hash whose algorithm is not
/// SHA256 (ignoring ASCII case), accepts any bytes; a SHA256 hash accepts
/// exactly the bytes whose upper-case hex SHA-256 equals its value, ignoring
/// ASCII case.
pub proof fn lemma_hash_accepts_meaning(hash: Option<crate::cix::Hash>, bytes: Seq<u8>)
    ensures
        hash is None ==> hash_accepts(hash, bytes),
        hash matches Some(h) ==> (hash_accepts(hash, bytes) <==> (eq_ignoring_ascii_case(
            h.alg@,
            SHA256_NAME@,
        ) ==> eq_ignoring_ascii_case(hex_upper(sha256(bytes)), h.value@))),
{
}

/// What a CIX target accepts: exactly the bytes of its length that its hash
/// accepts, whatever that length; a SHA256 target hash is checked on every
/// input.
pub proof fn lemma_target_accepts_meaning(file: File, bytes: Seq<u8>)
    ensures
        target_accepts(file, bytes) <==> (file.length == bytes.len() && match file.hash {
            Some(h) => eq_ignoring_ascii_case(h.alg@, SHA256_NAME@) ==> eq_ignoring_ascii_case(
                hex_upper(sha256(bytes)),
                h.value@,
            ),
            None => true,
        }),
{
}

/// The hex rendering holds, for each byte in order, its high then its low
/// hex digit.
pub proof fn lemma_hex_upper_digits(bytes: Seq<u8>)
    ensures
        hex_upper(bytes).len() == 2 * bytes.len(),
        forall|k: int|
            0 <= k < bytes.len() ==> #[trigger] hex_upper(bytes)[2 * k] == hex_digit(
                bytes[k] as nat / 16,
            ) && hex_upper(bytes)[2 * k + 1] == hex_digit(bytes[k] as nat % 16),
    decreases bytes.len(),
{
    lemma_hex_upper_len(bytes);
    if bytes.len() > 0 {
        let p = bytes.drop_last();
        lemma_hex_upper_digits(p);
        assert forall|k: int| 0 <= k < bytes.len() implies #[trigger] hex_upper(bytes)[2 * k]
            == hex_digit(bytes[k] as nat / 16) && hex_upper(bytes)[2 * k + 1] == hex_digit(
            bytes[k] as nat % 16,
        ) by {
            if k < p.len() {
                assert(hex_upper(p)[2 * k] == hex_digit(p[k] as nat / 16));
                assert(hex_upper(p)[2 * k + 1] == hex_digit(p[k] as nat % 16));
            }
        }
    }
}

/// `true` if `bytes` match the CIX target length and SHA256.
pub fn verify_target(file: &File, bytes: &[u8]) -> (r: bool)
    ensures
        r == target_accepts(*file, bytes@),
        r ==> file.length == bytes@.len(),
        file.length != bytes@.len() ==> !r,
        file.length == bytes@.len() && file.hash is None ==> r,
        file.length == bytes@.len() ==> (file.hash matches Some(h) ==> (if eq_ignoring_ascii_case(
            h.alg@,
            SHA256_NAME@,
        ) {
            r == eq_ignoring_ascii_case(hex_upper(sha256(bytes@)), h.value@)
        } else {
            r
        })),
{
    file.length == bytes.len() as u64 && hash_matches(&file.hash, bytes)
}

/// How a file's target bytes come out of its source stream.
pub enum Reconstruction<'a> {
    /// A `RAW` source: the stream is the file, stored verbatim.
    Verbatim(Vec<u8>),
    /// An MSDelta source: these delta bytes are to be applied to the basis.
    ApplyDelta(&'a [u8]),
}

/// Decides how a file's target is reconstructed from the PSF: the file's
/// source must exist and its range lie in the container; a delta source
/// yields its delta bytes, a `RAW` source (any ASCII case) its bytes
/// verbatim, and any other source type is refused.
pub fn plan_reconstruct<'a>(psf: &Psf<'a>, file: &File) -> (r: Result<Reconstruction<'a>, ExpandError>)
    ensures
        file_source(*file) is None ==> r == Err::<Reconstruction, ExpandError>(
            ExpandError::NoSource { name: file.name },
        ),
        file_source(*file) matches Some(s) ==> {
            let range = source_range(s);
            let bytes = psf@.subrange(range.offset as int, range.offset + range.length);
            if !range_in_bounds(range, psf@.len() as int) {
                r == Err::<Reconstruction, ExpandError>(
                    ExpandError::Psf(
                        Error::OutOfBounds {
                            offset: range.offset,
                            length: range.length,
                            size: psf@.len() as u64,
                        },
                    ),
                )
            } else if is_delta_kind(s.kind@) {
                r matches Ok(Reconstruction::ApplyDelta(d)) && d@ == bytes
            } else if eq_ignoring_ascii_case(s.kind@, RAW_KIND@) {
                r matches Ok(Reconstruction::Verbatim(v)) && v@ == bytes
            } else {
                r == Err::<Reconstruction, ExpandError>(
                    ExpandError::UnsupportedSource { name: file.name, kind: s.kind },
                )
            }
        },
{
    let source = match file.source() {
        Some(s) => s,
        None => {
            return Err(ExpandError::NoSource { name: file.name.clone() });
        },
    };
    let stream = match psf.stream(source.stream()) {
        Ok(b) => b,
        Err(e) => {
            return Err(ExpandError::Psf(e));
        },
    };
    if source.is_delta() {
        Ok(Reconstruction::ApplyDelta(stream))
    } else {
        let kind = chars_of(source.kind.as_str());
        if eq_ignore_ascii_case_chars(kind.as_slice(), &RAW_KIND) {
            Ok(Reconstruction::Verbatim(vstd::slice::slice_to_vec(stream)))
        } else {
            Err(ExpandError::UnsupportedSource { name: file.name.clone(), kind: source.kind.clone() })
        }
    }
}

/// Checks reconstructed bytes against the CIX target hash and length: an
/// earlier failure passes through, bytes that match are returned, and bytes
/// that do not are refused with `TargetMismatch`.
pub fn reconstruct_verified(file: &File, reconstructed: Result<Vec<u8>, ExpandError>) -> (r: Result<
    Vec<u8>,
    ExpandError,
>)
    ensures
        reconstructed matches Err(e) ==> r == Err::<Vec<u8>, ExpandError>(e),
        reconstructed matches Ok(b) ==> (if target_accepts(*file, b@) {
            r == Ok::<Vec<u8>, ExpandError>(b)
        } else {
            r == Err::<Vec<u8>, ExpandError>(ExpandError::TargetMismatch { name: file.name })
        }),
{
    match reconstructed {
        Err(e) => Err(e),
        Ok(bytes) => {
            if verify_target(file, bytes.as_slice()) {
                Ok(bytes)
            } else {
                Err(ExpandError::TargetMismatch { name: file.name.clone() })
            }
        },
    }
}

/// Verify the extracted source stream matches the CIX source SHA256, i.e.
/// the `.psf` byte range was extracted exactly. Pure container check.
pub fn verify_source(psf: &Psf, file: &File) -> (r: Result<bool, ExpandError>)
    ensures
        file_source(*file) is None ==> r == Err::<bool, ExpandError>(
            ExpandError::NoSource { name: file.name },
        ),
        file_source(*file) matches Some(s) ==> {
            let range = source_range(s);
            if !range_in_bounds(range, psf@.len() as int) {
                r == Err::<bool, ExpandError>(
                    ExpandError::Psf(
                        Error::OutOfBounds {
                            offset: range.offset,
                            length: range.length,
                            size: psf@.len() as u64,
                        },
                    ),
                )
            } else {
                r == Ok::<bool, ExpandError>(
                    hash_accepts(
                        s.hash,
                        psf@.subrange(range.offset as int, range.offset + range.length),
                    ),
                )
            }
        },
{
    let source = match file.source() {
        Some(s) => s,
        None => {
            return Err(ExpandError::NoSource { name: file.name.clone() });
        },
    };
    match psf.stream(source.stream()) {
        Ok(stream) => Ok(hash_matches(&source.hash, stream)),
        Err(e) => Err(ExpandError::Psf(e)),
    }
}

/// Decides the backward round-trip for a file: a file without a source is an
/// error; a source that is not a delta has nothing to reverse (`None`, the
/// round trip holds); a delta source yields its delta bytes, which must lie
/// in the container.
pub fn plan_reverse<'a>(psf: &Psf<'a>, file: &File) -> (r: Result<Option<&'a [u8]>, ExpandError>)
    ensures
        file_source(*file) is None ==> r == Err::<Option<&[u8]>, ExpandError>(
            ExpandError::NoSource { name: file.name },
        ),
        file_source(*file) matches Some(s) ==> {
            let range = source_range(s);
            if !is_delta_kind(s.kind@) {
                r == Ok::<Option<&[u8]>, ExpandError>(None)
            } else if !range_in_bounds(range, psf@.len() as int) {
                r == Err::<Option<&[u8]>, ExpandError>(
                    ExpandError::Psf(
                        Error::OutOfBounds {
                            offset: range.offset,
                            length: range.length,
                            size: psf@.len() as u64,
                        },
                    ),
                )
            } else {
                r matches Ok(Some(d)) && d@ == psf@.subrange(
                    range.offset as int,
                    range.offset + range.length,
                )
            }
        },
{
    let source = match file.source() {
        Some(s) => s,
        None => {
            return Err(ExpandError::NoSource { name: file.name.clone() });
        },
    };
    if !source.is_delta() {
        return Ok(None);
    }
    match psf.stream(source.stream()) {
        Ok(delta) => Ok(Some(delta)),
        Err(e) => Err(ExpandError::Psf(e)),
    }
}

/// The verdict of a backward round trip: the recovered bytes are the basis,
/// exactly.
pub fn reverse_roundtrip_holds(recovered: &[u8], basis: &[u8]) -> (r: bool)
    ensures
        r == (recovered@ == basis@),
{
    if recovered.len() != basis.len() {
        return false;
    }
    let n = recovered.len();
    let mut i: usize = 0;
    while i < n
        invariant
            n == recovered@.len(),
            n == basis@.len(),
            0 <= i <= n,
            forall|j: int| 0 <= j < i ==> recovered@[j] == basis@[j],
        decreases n - i,
    {
        if recovered[i] != basis[i] {
            return false;
        }
        i = i + 1;
    }
    assert(recovered@ =~= basis@);
    true
}

} // verus!

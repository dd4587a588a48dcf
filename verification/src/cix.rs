//! The Container Index (CIX), `express.psf.cix.xml`: the manifest that
//! indexes a PSTREAM container.
//!
//! The CIX maps each target file to its source stream in the `.psf`: either a
//! `RAW` byte range (the file stored verbatim) or a `PA30`/`PA31` MSDelta
//! blob, with SHA256s for both the source stream and the reconstructed target.
//! `DeltaBasisSearch` lists where basis (source) files live for non-baseless
//! deltas; a "baseless" container's deltas reconstruct from a null base.
use vstd::prelude::*;

use crate::text::{chars_of, contains_chars, has_prefix, occurs_in, starts_with_chars};
use crate::PsfStream;

verus! {

/// The prefix that marks an MSDelta source type (`PA30`, `PA31`, `PA19`).
pub const DELTA_KIND_PREFIX: [char; 2] = ['P', 'A'];

/// The marker in a container's name that makes it baseless.
pub const BASELESS_MARKER: [char; 8] = ['b', 'a', 's', 'e', 'l', 'e', 's', 's'];

/// A digest from the CIX (typically SHA256).
#[derive(Default, Debug, Clone, PartialEq, Eq)]
pub struct Hash {
    pub alg: String,
    pub value: String,
}

/// A file's source stream: where its bytes live in the `.psf` and how to read
/// them (`RAW` stored bytes, or a `PA30`/`PA31`/`PA19` MSDelta).
#[derive(Default, Debug, Clone)]
pub struct Source {
    pub kind: String,
    pub offset: u64,
    pub length: u64,
    /// SHA256 of the source bytes (the stored bytes or the delta itself).
    pub hash: Option<Hash>,
}

/// Whether a source type names an MSDelta (it starts with `PA`, case-sensitively).
pub open spec fn is_delta_kind(kind: Seq<char>) -> bool {
    has_prefix(kind, DELTA_KIND_PREFIX@)
}

/// The byte range of a source within the `.psf`.
pub open spec fn source_range(s: Source) -> PsfStream {
    PsfStream { offset: s.offset, length: s.length }
}

impl Source {
    /// `true` for a `PA30`/`PA31`/`PA19` MSDelta source (vs `RAW`).
    pub fn is_delta(&self) -> (r: bool)
        ensures
            r == is_delta_kind(self.kind@),
    {
        let k = chars_of(self.kind.as_str());
        starts_with_chars(k.as_slice(), &DELTA_KIND_PREFIX)
    }

    /// The byte range of this source within the `.psf`.
    pub fn stream(&self) -> (r: PsfStream)
        ensures
            r == source_range(*self),
    {
        PsfStream { offset: self.offset, length: self.length }
    }
}

#[derive(Default, Debug, Clone)]
pub struct Delta {
    pub source: Source,
}

/// A target file the container reconstructs.
#[derive(Default, Debug, Clone)]
pub struct File {
    pub id: u32,
    pub name: String,
    pub length: u64,
    /// Target file timestamp (FILETIME ticks); kept verbatim.
    pub time: String,
    pub attr: String,
    /// SHA256 of the reconstructed target file.
    pub hash: Option<Hash>,
    pub delta: Option<Delta>,
}

/// The source of a file, if the manifest gives one.
pub open spec fn file_source(f: File) -> Option<Source> {
    match f.delta {
        Some(d) => Some(d.source),
        None => None,
    }
}

impl File {
    /// The byte range of this file's source stream within the `.psf`.
    pub fn psf_stream(&self) -> (r: Option<PsfStream>)
        ensures
            r == (match file_source(*self) {
                Some(s) => Some(source_range(s)),
                None => None,
            }),
    {
        match &self.delta {
            Some(d) => Some(d.source.stream()),
            None => None,
        }
    }

    pub fn source(&self) -> (r: Option<&Source>)
        ensures
            r matches Some(s) ==> file_source(*self) == Some(*s),
            r is None <==> file_source(*self) is None,
    {
        match &self.delta {
            Some(d) => Some(&d.source),
            None => None,
        }
    }
}

#[derive(Default, Debug, Clone)]
pub struct Files {
    pub file: Vec<File>,
}

/// A basis-search location (where source files for non-baseless deltas live).
#[derive(Default, Debug, Clone)]
pub struct Location {
    pub id: u32,
    pub path: String,
    pub flags: String,
}

#[derive(Default, Debug, Clone)]
pub struct DeltaBasisSearch {
    pub location: Vec<Location>,
}

/// A parsed Container Index (`express.psf.cix.xml`).
#[derive(Default, Debug, Clone)]
pub struct ContainerIndex {
    pub name: String,
    pub kind: String,
    pub length: u64,
    pub version: String,
    pub delta_basis_search: Option<DeltaBasisSearch>,
    pub files: Files,
}

impl ContainerIndex {
    pub fn files(&self) -> (r: &[File])
        ensures
            r@ == self.files.file@,
    {
        self.files.file.as_slice()
    }

    /// Whether the container is baseless (deltas reconstruct from a null base,
    /// no basis file needed): its name contains `baseless`.
    pub fn is_baseless(&self) -> (r: bool)
        ensures
            r == occurs_in(self.name@, BASELESS_MARKER@),
    {
        let n = chars_of(self.name.as_str());
        contains_chars(n.as_slice(), &BASELESS_MARKER)
    }
}

} // verus!

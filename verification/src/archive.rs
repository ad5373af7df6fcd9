//! The archive packager: segments in, one compressed archive out.
//!
//! The segments go into a tape archive, one entry each and in their order,
//! and the whole archive is then compressed as one gzip stream. Both formats
//! are written by the `tar` and `flate2` crates; what this module adds is
//! which entries there are, what they are called and in which order they come.

use vstd::prelude::*;
use vstd::string::StringExecFns;
use crate::media::{indexed_in_order, Segment, SegmentView};
use crate::text::{push_zero_padded, zero_padded};

verus! {

/// Why no archive came out.
#[derive(Clone, Copy, Debug, PartialEq, Eq, Structural)]
pub enum PackError {
    /// The tape archive could not be written.
    Container,
    /// The archive could not be compressed.
    Compression,
}

/// The least number of digits in the index part of an entry name.
pub const INDEX_WIDTH: usize = 8;

/// The permission bits of every entry: read and write for the owner, read for the others.
pub const ENTRY_MODE: u32 = 0o644;

/// The name of the entry for the segment `index` in `format`: the index in
/// at least eight digits, then `_.` and the format.
pub open spec fn spec_entry_name(index: nat, format: Seq<char>) -> Seq<char> {
    zero_padded(index, INDEX_WIDTH as nat) + seq!['_', '.'] + format
}

/// The archive entries for `segments`: for each segment, in order, its name,
/// its permission bits and its content.
pub open spec fn spec_entries(segments: Seq<SegmentView>) -> Seq<(Seq<char>, u32, Seq<u8>)> {
    Seq::new(
        segments.len(),
        |i: int|
            (
                spec_entry_name(segments[i].index, segments[i].file.format),
                ENTRY_MODE,
                segments[i].file.content,
            ),
    )
}

/// The error type of `std::io`, carried through and never looked into.
#[verifier::external_type_specification]
#[verifier::external_body]
pub struct ExIoError(std::io::Error);

/// A `tar::Builder` that writes into memory.
#[verifier::external_body]
pub struct TarBuilder {
    inner: tar::Builder<Vec<u8>>,
}

/// The entries appended to a builder so far, oldest first: name, permission
/// bits and content of each.
pub uninterp spec fn tar_entries(builder: TarBuilder) -> Seq<(Seq<char>, u32, Seq<u8>)>;

/// Whether `tar::Builder::append_data` takes an entry of this name. It turns
/// down a name that cannot be a relative path in an archive: an empty one,
/// one that starts at the root, one with a `..` in it, one with a NUL.
pub uninterp spec fn tar_accepts(name: Seq<char>) -> bool;

/// What `tar::Builder::into_inner` hands out for a builder with these
/// entries: the bytes of the tape archive, each entry a regular file under a
/// GNU header with the given name, permission bits and content and no other
/// metadata, and after the last the end-of-archive mark. `None` where it fails.
pub uninterp spec fn tar_archive(entries: Seq<(Seq<char>, u32, Seq<u8>)>) -> Option<Seq<u8>>;

/// What `flate2::write::GzEncoder` makes of `data` at the default
/// compression level: the gzip stream, or `None` where it fails.
pub uninterp spec fn gzip_stream(data: Seq<u8>) -> Option<Seq<u8>>;

/// `tar::Builder::new` on an empty vector: a builder with no entry.
#[verifier::external_body]
fn tar_new() -> (builder: TarBuilder)
    ensures
        tar_entries(builder) == Seq::<(Seq<char>, u32, Seq<u8>)>::empty(),
{
    TarBuilder { inner: tar::Builder::new(Vec::new()) }
}

/// `tar::Builder::append_data` with a header from `tar::Header::new_gnu`
/// whose size is the length of `content` and whose mode is `mode`. Whether
/// it succeeds lies with the name alone: only setting the path in the header
/// can fail, the rest is writing into memory. Where it succeeds the builder
/// has one more entry, the one given.
#[verifier::external_body]
fn tar_append(builder: &mut TarBuilder, name: &str, mode: u32, content: &[u8]) -> (r: Result<
    (),
    std::io::Error,
>)
    ensures
        r is Ok <==> tar_accepts(name@),
        r is Ok ==> tar_entries(*final(builder)) == tar_entries(*old(builder)).push(
            (name@, mode, content@),
        ),
{
    let mut header = tar::Header::new_gnu();
    header.set_size(content.len() as u64);
    header.set_mode(mode);
    builder.inner.append_data(&mut header, name, content)
}

/// `tar::Builder::into_inner`: ends the archive and hands out its bytes.
/// The outcome is that of every builder with the same entries.
#[verifier::external_body]
fn tar_finish(builder: TarBuilder) -> (r: Result<Vec<u8>, std::io::Error>)
    ensures
        match r {
            Ok(bytes) => tar_archive(tar_entries(builder)) == Some(bytes@),
            Err(_) => tar_archive(tar_entries(builder)) is None,
        },
{
    builder.inner.into_inner()
}

/// `flate2::write::GzEncoder` over a vector, at `Compression::default()`:
/// writes all of `data` and finishes the stream. All of it happens in
/// memory, so the outcome is the same for the same `data`.
#[verifier::external_body]
fn gzip_bytes(data: &[u8]) -> (r: Result<Vec<u8>, std::io::Error>)
    ensures
        match r {
            Ok(bytes) => gzip_stream(data@) == Some(bytes@),
            Err(_) => gzip_stream(data@) is None,
        },
{
    let mut encoder = flate2::write::GzEncoder::new(Vec::new(), flate2::Compression::default());
    match std::io::Write::write_all(&mut encoder, data) {
        Ok(()) => encoder.finish(),
        Err(e) => Err(e),
    }
}

/// The name of the archive entry for the segment `index` in `format`.
pub fn entry_name(index: u64, format: &str) -> (name: String)
    ensures
        name@ == spec_entry_name(index as nat, format@),
{
    let mut name = String::new();
    push_zero_padded(&mut name, index, INDEX_WIDTH);
    proof {
        reveal_strlit("_.");
    }
    name.append("_.");
    name.append(format);
    assert(name@ =~= spec_entry_name(index as nat, format@));
    name
}

/// What a finished writing step amounts to: the bytes it wrote, or `fault`
/// where it failed.
pub fn written(result: Result<Vec<u8>, std::io::Error>, fault: PackError) -> (r: Result<
    Vec<u8>,
    PackError,
>)
    ensures
        match result {
            Ok(bytes) => r == Ok::<Vec<u8>, PackError>(bytes),
            Err(_) => r == Err::<Vec<u8>, PackError>(fault),
        },
{
    match result {
        Ok(bytes) => Ok(bytes),
        Err(_) => Err(fault),
    }
}

/// The outcome of a writing step as a mathematical value: the bytes, or the error.
pub open spec fn outcome_view(r: Result<Vec<u8>, PackError>) -> Result<Seq<u8>, PackError> {
    match r {
        Ok(bytes) => Ok(bytes@),
        Err(e) => Err(e),
    }
}

/// Whether the `tar` crate takes the name of each of `entries`.
pub open spec fn names_accepted(entries: Seq<(Seq<char>, u32, Seq<u8>)>) -> bool {
    forall|i: int| 0 <= i < entries.len() ==> tar_accepts((#[trigger] entries[i]).0)
}

/// The tape archive of `segments`: that of their entries. There is none
/// where the name of an entry is turned down or the archive cannot be ended.
pub open spec fn spec_tar(segments: Seq<SegmentView>) -> Result<Seq<u8>, PackError> {
    let entries = spec_entries(segments);
    if !names_accepted(entries) {
        Err(PackError::Container)
    } else {
        match tar_archive(entries) {
            Some(bytes) => Ok(bytes),
            None => Err(PackError::Container),
        }
    }
}

/// The gzip stream of `data`, or the error where there is none.
pub open spec fn spec_gzip(data: Seq<u8>) -> Result<Seq<u8>, PackError> {
    match gzip_stream(data) {
        Some(bytes) => Ok(bytes),
        None => Err(PackError::Compression),
    }
}

/// The archive for `segments`: the tape archive of their entries,
/// compressed as one stream. Where the first step fails, its error stands
/// and nothing is compressed.
pub open spec fn spec_pack(segments: Seq<SegmentView>) -> Result<Seq<u8>, PackError> {
    match spec_tar(segments) {
        Ok(container) => spec_gzip(container),
        Err(e) => Err(e),
    }
}

/// Writes `segments` into a tape archive, one entry each, in their order.
///
/// Succeeds where the `tar` crate takes every entry name and ends the
/// archive, and fails with `PackError::Container` where it does not.
pub fn tar(segments: &Vec<Segment>) -> (r: Result<Vec<u8>, PackError>)
    ensures
        outcome_view(r) == spec_tar(segments.deep_view()),
{
    let ghost entries = spec_entries(segments.deep_view());
    let mut builder = tar_new();
    let mut i: usize = 0;
    while i < segments.len()
        invariant
            i <= segments.len(),
            entries == spec_entries(segments.deep_view()),
            tar_entries(builder) == entries.take(i as int),
            forall|j: int| 0 <= j < i ==> tar_accepts((#[trigger] entries[j]).0),
        decreases segments.len() - i,
    {
        let segment = &segments[i];
        let name = entry_name(segment.index, segment.file.format.as_str());
        match tar_append(
            &mut builder,
            name.as_str(),
            ENTRY_MODE,
            segment.file.content.as_slice(),
        ) {
            Ok(()) => {},
            Err(_) => {
                proof {
                    assert(segments.deep_view()[i as int] == segment@);
                    assert(!tar_accepts(entries[i as int].0));
                }
                return Err(PackError::Container);
            },
        }
        proof {
            assert(segments.deep_view()[i as int] == segment@);
            assert(entries.take(i + 1) =~= entries.take(i as int).push(entries[i as int]));
        }
        i = i + 1;
    }
    assert(entries.take(i as int) =~= entries);
    written(tar_finish(builder), PackError::Container)
}

/// Compresses `data` into one gzip stream.
///
/// Succeeds where the `flate2` crate does, and fails with
/// `PackError::Compression` where it does not.
pub fn gzip(data: &[u8]) -> (r: Result<Vec<u8>, PackError>)
    ensures
        outcome_view(r) == spec_gzip(data@),
{
    written(gzip_bytes(data), PackError::Compression)
}

/// Packs `segments` into the archive that goes back to the client.
///
/// The entries stand in the order of `segments`. Succeeds where both
/// writing steps do. Where the tape archive cannot be written the error is
/// `PackError::Container` and nothing is compressed; where it can and the
/// compression fails, the error is `PackError::Compression`.
pub fn pack(segments: &Vec<Segment>) -> (r: Result<Vec<u8>, PackError>)
    ensures
        outcome_view(r) == spec_pack(segments.deep_view()),
{
    match tar(segments) {
        Ok(container) => gzip(container.as_slice()),
        Err(e) => Err(e),
    }
}

/// The entries of an archive are as many as the segments and stand in their
/// order: the entry at each place is that of the segment at the same place.
pub proof fn lemma_entries_follow_segments(segments: Seq<SegmentView>)
    ensures
        spec_entries(segments).len() == segments.len(),
        forall|i: int|
            0 <= i < segments.len() ==> (#[trigger] spec_entries(segments)[i]) == (
                spec_entry_name(segments[i].index, segments[i].file.format),
                ENTRY_MODE,
                segments[i].file.content,
            ),
{
}

/// Where the segments are numbered `0, 1, 2, ...`, as the engine delivers
/// them, the entry at place `i` is named after `i`: the names say the
/// playback order.
pub proof fn lemma_entry_names_follow_places(segments: Seq<SegmentView>)
    requires
        indexed_in_order(segments),
    ensures
        forall|i: int|
            0 <= i < segments.len() ==> (#[trigger] spec_entries(segments)[i]).0
                == spec_entry_name(i as nat, segments[i].file.format),
{
}

} // verus!

//! The build context as a tar stream.
//!
//! The stream is put together in memory by the `tar` crate: one GNU header
//! block for each entry, the entry's bytes, zero bytes up to the next block
//! boundary, and two blocks of zero bytes at the end. What that crate does
//! is taken on trust here, as stated item by item below; the order of the
//! calls and of the entries is proved. Since the stream is written to
//! memory, the one thing that can fail is a path that a header cannot hold.

use vstd::prelude::*;
use vstd::utf8::encode_utf8;
use crate::aspects::{ContainerFile, FileView};
use crate::error::Error;

verus! {

/// An I/O error of the standard library. Nothing is known of its content.
#[verifier::external_type_specification]
#[verifier::external_body]
pub struct ExIoError(std::io::Error);

/// A header block of the `tar` crate. Its content is [`header_block`].
#[verifier::external_type_specification]
#[verifier::external_body]
pub struct ExHeader(tar::Header);

/// A tar stream under construction in memory: a `tar::Builder` that writes
/// to a vector of bytes. One is made by [`archive_new`] only, and nothing
/// finishes it before [`archive_into_inner`] takes it apart.
#[verifier::external_body]
pub struct Archive {
    builder: tar::Builder<Vec<u8>>,
}

/// The 512 bytes that a header holds.
pub uninterp spec fn header_block(header: tar::Header) -> Seq<u8>;

/// The bytes written to an archive so far.
pub uninterp spec fn archive_bytes(archive: Archive) -> Seq<u8>;

/// A header block after `tar::Header::set_path` was given `path`, or `None`
/// where that call refuses the path: one that is empty, absolute, too long
/// for the name field, or that holds `..` or a NUL.
pub uninterp spec fn block_with_path(block: Seq<u8>, path: Seq<char>) -> Option<Seq<u8>>;

/// A header block after `tar::Header::set_size` was given `size`.
pub uninterp spec fn block_with_size(block: Seq<u8>, size: u64) -> Seq<u8>;

/// A header block after `tar::Header::set_cksum`.
pub uninterp spec fn block_with_cksum(block: Seq<u8>) -> Seq<u8>;

/// The byte at place `i` of a blank GNU header: zero, except for the
/// modification time, which is eleven digits `0`, and for the magic and
/// version, which read `ustar` and two spaces.
pub open spec fn blank_gnu_byte(i: int) -> u8 {
    if 136 <= i < 147 {
        48
    } else if i == 257 {
        117
    } else if i == 258 {
        115
    } else if i == 259 {
        116
    } else if i == 260 {
        97
    } else if i == 261 {
        114
    } else if i == 262 || i == 263 {
        32
    } else {
        0
    }
}

/// The block of a blank GNU header.
pub open spec fn blank_gnu_block() -> Seq<u8> {
    Seq::new(512, |i: int| blank_gnu_byte(i))
}

/// `count` zero bytes.
pub open spec fn zeros(count: int) -> Seq<u8> {
    Seq::new(count as nat, |i: int| 0u8)
}

/// The number of zero bytes that follow an entry of `len` bytes: as many as
/// fill its last block.
pub open spec fn padding(len: int) -> int {
    if len % 512 == 0 {
        0
    } else {
        512 - len % 512
    }
}

/// The header block of an entry at `path` with `size` bytes, or `None`
/// where the path cannot be stored.
pub open spec fn entry_header(path: Seq<char>, size: u64) -> Option<Seq<u8>> {
    match block_with_path(blank_gnu_block(), path) {
        Some(block) => Some(block_with_cksum(block_with_size(block, size))),
        None => None,
    }
}

/// The bytes of one entry of the stream: its header block, its content in
/// UTF-8 and the padding. `None` where the path cannot be stored or the
/// content's length is beyond a `u64`.
pub open spec fn entry_bytes(file: FileView) -> Option<Seq<u8>> {
    let data = encode_utf8(file.contents);
    if data.len() > u64::MAX {
        None
    } else {
        match entry_header(file.container_path, data.len() as u64) {
            Some(header) => Some(header + data + zeros(padding(data.len() as int))),
            None => None,
        }
    }
}

/// The bytes of the entries `files`, in their order, or `None` where one of
/// them cannot be stored.
pub open spec fn entries_bytes(files: Seq<FileView>) -> Option<Seq<u8>>
    decreases files.len(),
{
    if files.len() == 0 {
        Some(Seq::empty())
    } else {
        match (entries_bytes(files.drop_last()), entry_bytes(files.last())) {
            (Some(head), Some(last)) => Some(head + last),
            _ => None,
        }
    }
}

/// The tar stream of `files`: the entries in their order and the two zero
/// blocks that end a stream.
pub open spec fn tar_stream(files: Seq<FileView>) -> Option<Seq<u8>> {
    match entries_bytes(files) {
        Some(entries) => Some(entries + zeros(1024)),
        None => None,
    }
}

/// `tar::Builder::new` on an empty vector: an archive to which nothing was
/// written yet.
#[verifier::external_body]
pub(crate) fn archive_new() -> (archive: Archive)
    ensures
        archive_bytes(archive) == Seq::<u8>::empty(),
{
    Archive { builder: tar::Builder::new(Vec::new()) }
}

/// `tar::Header::new_gnu`: a header whose block is blank but for the GNU
/// magic and a modification time of zero.
#[verifier::external_body]
pub(crate) fn header_new_gnu() -> (header: tar::Header)
    ensures
        header_block(header) == blank_gnu_block(),
{
    tar::Header::new_gnu()
}

/// `tar::Header::set_path`: writes the path into the name field, or fails.
/// Whether it fails, and the block it leaves where it does not, depend on
/// the block and the path alone. Of the block after a failure nothing is
/// claimed.
#[verifier::external_body]
pub(crate) fn header_set_path(header: &mut tar::Header, path: &str) -> (done: Result<
    (),
    std::io::Error,
>)
    ensures
        match done {
            Ok(_) => block_with_path(header_block(*old(header)), path@) == Some(
                header_block(*final(header)),
            ),
            Err(_) => block_with_path(header_block(*old(header)), path@) is None,
        },
{
    header.set_path(path)
}

/// `tar::Header::set_size`: writes the size into the size field.
#[verifier::external_body]
pub(crate) fn header_set_size(header: &mut tar::Header, size: u64)
    ensures
        header_block(*final(header)) == block_with_size(header_block(*old(header)), size),
{
    header.set_size(size)
}

/// `tar::Header::set_cksum`: writes the checksum of the block into the
/// checksum field.
#[verifier::external_body]
pub(crate) fn header_set_cksum(header: &mut tar::Header)
    ensures
        header_block(*final(header)) == block_with_cksum(header_block(*old(header))),
{
    header.set_cksum()
}

/// `tar::Builder::append`: it writes the header's block, the data, and zero
/// bytes up to the next multiple of 512. It fails only where a write to the
/// archive or a read of the data fails; here the archive is a vector of
/// bytes and the data a slice of bytes, and neither does.
#[verifier::external_body]
pub(crate) fn archive_append(archive: &mut Archive, header: &tar::Header, data: &[u8]) -> (done:
    Result<(), std::io::Error>)
    ensures
        done is Ok,
        archive_bytes(*final(archive)) == archive_bytes(*old(archive)) + header_block(*header)
            + data@ + zeros(padding(data@.len() as int)),
{
    archive.builder.append(header, data)
}

/// `tar::Builder::into_inner`: it writes the 1024 zero bytes that end a
/// stream and hands out all that was written. It fails only where that
/// write fails, which a write to a vector of bytes does not.
#[verifier::external_body]
pub(crate) fn archive_into_inner(archive: Archive) -> (bytes: Result<Vec<u8>, std::io::Error>)
    ensures
        bytes is Ok,
        bytes->Ok_0@ == archive_bytes(archive) + zeros(1024),
{
    archive.builder.into_inner()
}

/// The message of an I/O error, as `Display` prints it.
#[verifier::external_body]
pub(crate) fn io_error_text(error: &std::io::Error) -> (text: String) {
    error.to_string()
}

/// The error for a failed write to the build context.
pub(crate) fn archive_error(error: std::io::Error) -> (e: Error)
    ensures
        e is FailedToAddFileToArchive,
{
    archive_failure(io_error_text(&error))
}

/// The error for a write to the build context that failed for the reason
/// `source`.
pub fn archive_failure(source: String) -> (e: Error)
    ensures
        e == (Error::FailedToAddFileToArchive { source }),
{
    Error::FailedToAddFileToArchive { source }
}

/// Adds to `archive` an entry at `name` that holds `contents`: a GNU header
/// with the path, the size of the content and the checksum over both, then
/// the content. It fails exactly where the path cannot be stored, and then
/// leaves the archive as it was.
pub(crate) fn add_file_to_archive(archive: &mut Archive, name: &str, contents: &str) -> (done: Result<
    (),
    Error,
>)
    ensures
        match entry_bytes(FileView { container_path: name@, contents: contents@ }) {
            Some(entry) => done is Ok && archive_bytes(*final(archive)) == archive_bytes(
                *old(archive),
            ) + entry,
            None => (done matches Err(e) && e is FailedToAddFileToArchive) && archive_bytes(
                *final(archive),
            ) == archive_bytes(*old(archive)),
        },
{
    let data = contents.as_bytes();
    let mut header = header_new_gnu();
    match header_set_path(&mut header, name) {
        Ok(_) => {},
        Err(e) => {
            return Err(archive_error(e));
        },
    }
    header_set_size(&mut header, data.len() as u64);
    header_set_cksum(&mut header);
    match archive_append(archive, &header, data) {
        Ok(_) => {
            assert(archive_bytes(*archive) =~= archive_bytes(*old(archive)) + (header_block(header)
                + data@ + zeros(padding(data@.len() as int))));
            Ok(())
        },
        Err(e) => Err(archive_error(e)),
    }
}

/// Where all entries can be stored, so can each of them and so can the
/// entries before it.
pub proof fn lemma_entries_bytes_each(files: Seq<FileView>, i: int)
    requires
        0 <= i < files.len(),
        entries_bytes(files) is Some,
    ensures
        entry_bytes(files[i]) is Some,
        entries_bytes(files.take(i)) is Some,
    decreases files.len(),
{
    if i == files.len() - 1 {
        assert(files.take(i) =~= files.drop_last());
    } else {
        lemma_entries_bytes_each(files.drop_last(), i);
        assert(files.drop_last().take(i) =~= files.take(i));
    }
}

/// The tar stream of `files`: an entry for each, in their order, each with
/// its size and checksum taken from its content. It fails exactly where the
/// path of an entry cannot be stored.
pub fn write_archive(files: &Vec<ContainerFile>) -> (stream: Result<Vec<u8>, Error>)
    ensures
        match tar_stream(files.deep_view()) {
            Some(bytes) => stream matches Ok(written) && written@ == bytes,
            None => stream matches Err(e) && e is FailedToAddFileToArchive,
        },
{
    let mut archive = archive_new();
    let mut i: usize = 0;
    assert(files.deep_view().take(0) =~= Seq::empty());
    while i < files.len()
        invariant
            i <= files.len(),
            entries_bytes(files.deep_view().take(i as int)) == Some(archive_bytes(archive)),
        decreases files.len() - i,
    {
        let ghost all = files.deep_view();
        proof {
            assert(all.take(i + 1).drop_last() =~= all.take(i as int));
            assert(all.take(i + 1).last() == all[i as int]);
        }
        match add_file_to_archive(
            &mut archive,
            files[i].container_path.as_str(),
            files[i].contents.as_str(),
        ) {
            Ok(_) => {},
            Err(e) => {
                proof {
                    if entries_bytes(all) is Some {
                        lemma_entries_bytes_each(all, i as int);
                    }
                }
                return Err(e);
            },
        }
        i = i + 1;
    }
    assert(files.deep_view().take(i as int) =~= files.deep_view());
    match archive_into_inner(archive) {
        Ok(bytes) => Ok(bytes),
        Err(e) => Err(archive_error(e)),
    }
}

} // verus!

//! Trusted bindings to the operating system.
//!
//! Everything here either declares an outside type or wraps one
//! operation of the `openat` or `nix` crate (plus the one `std::io`
//! read it needs on the opened file). The wrappers return plain
//! values and promise nothing about what the filesystem holds: the
//! interpretation of what they return is done, and verified, in the
//! rest of the library.

use std::io::Read;
use std::io::Write;

use vstd::prelude::*;

use crate::codec::NodeType;
use crate::errors::{Error, IoKind};

verus! {

#[verifier::external_type_specification]
#[verifier::external_body]
pub struct ExDir(openat::Dir);

#[verifier::external_type_specification]
#[verifier::external_body]
pub struct ExDirIter(openat::DirIter);

#[verifier::external_type_specification]
#[verifier::external_body]
pub struct ExEntry(openat::Entry);

#[verifier::external_type_specification]
#[verifier::external_body]
pub struct ExIoError(std::io::Error);

/// Relies on `std::io::Error::kind` to classify a failure of the
/// filesystem layer; every outcome is an I/O error of the library.
#[verifier::external_body]
fn map_io(e: std::io::Error) -> (r: Error)
    ensures
        r matches Error::Io(_),
{
    Error::Io(match e.kind() {
        std::io::ErrorKind::NotFound => IoKind::NotFound,
        std::io::ErrorKind::PermissionDenied => IoKind::PermissionDenied,
        std::io::ErrorKind::InvalidInput => IoKind::InvalidInput,
        std::io::ErrorKind::UnexpectedEof => IoKind::UnexpectedEof,
        _ => IoKind::Other,
    })
}

/// Relies on `openat::Dir::open`: opens a descriptor at `path`
/// without following what kind of node it is; directory-ness is
/// validated separately.
#[verifier::external_body]
pub(crate) fn open_dir(path: &str) -> (r: Result<openat::Dir, Error>)
    ensures
        r matches Err(e) ==> e matches Error::Io(_),
{
    openat::Dir::open(path).map_err(map_io)
}

/// Relies on `openat::Dir::sub_dir`: opens the named directory under
/// `d`.
#[verifier::external_body]
pub(crate) fn sub_dir(d: &openat::Dir, name: &str) -> (r: Result<openat::Dir, Error>)
    ensures
        r matches Err(e) ==> e matches Error::Io(_),
{
    d.sub_dir(name).map_err(map_io)
}

/// Relies on `openat::Dir::self_metadata` and
/// `openat::Metadata::simple_type`: reports what kind of node the
/// descriptor itself refers to, each variant mapped one for one.
#[verifier::external_body]
pub(crate) fn dir_self_node_type(d: &openat::Dir) -> (r: Result<NodeType, Error>)
    ensures
        r matches Err(e) ==> e matches Error::Io(_),
{
    let md = d.self_metadata().map_err(map_io)?;
    Ok(match md.simple_type() {
        openat::SimpleType::File => NodeType::File,
        openat::SimpleType::Dir => NodeType::Dir,
        openat::SimpleType::Symlink => NodeType::Symlink,
        openat::SimpleType::Other => NodeType::Other,
    })
}

/// Relies on `openat::Dir::metadata` and
/// `openat::Metadata::simple_type`: reports what kind of node the
/// named entry is, without following symlinks, each variant mapped
/// one for one.
#[verifier::external_body]
pub(crate) fn node_type(d: &openat::Dir, name: &str) -> (r: Result<NodeType, Error>)
    ensures
        r matches Err(e) ==> e matches Error::Io(_),
{
    let md = d.metadata(name).map_err(map_io)?;
    Ok(match md.simple_type() {
        openat::SimpleType::File => NodeType::File,
        openat::SimpleType::Dir => NodeType::Dir,
        openat::SimpleType::Symlink => NodeType::Symlink,
        openat::SimpleType::Other => NodeType::Other,
    })
}

/// Relies on `openat::Dir::open_file` and `std::io::Read::read_exact`:
/// reads the first byte of the named node; `None` means the node
/// ended before one byte could be read.
#[verifier::external_body]
pub(crate) fn read_byte_node(d: &openat::Dir, name: &str) -> (r: Result<Option<u8>, Error>)
    ensures
        r matches Err(e) ==> e matches Error::Io(_),
{
    let mut fp = d.open_file(name).map_err(map_io)?;
    let mut buf = [0u8; 1];
    match fp.read_exact(&mut buf) {
        Ok(()) => Ok(Some(buf[0])),
        Err(e) if e.kind() == std::io::ErrorKind::UnexpectedEof => Ok(None),
        Err(e) => Err(map_io(e)),
    }
}

/// Relies on `openat::Dir::open_file` and `std::io::Read::read_exact`:
/// reads the first three bytes of the named node.
#[verifier::external_body]
pub(crate) fn read3_node(d: &openat::Dir, name: &str) -> (r: Result<(u8, u8, u8), Error>)
    ensures
        r matches Err(e) ==> e matches Error::Io(_),
{
    let mut fp = d.open_file(name).map_err(map_io)?;
    let mut buf = [0u8; 3];
    fp.read_exact(&mut buf).map_err(map_io)?;
    Ok((buf[0], buf[1], buf[2]))
}

/// Relies on `openat::Dir::open_file` and `std::io::Read::read_to_end`:
/// reads the whole content of the named node.
#[verifier::external_body]
pub(crate) fn read_all_node(d: &openat::Dir, name: &str) -> (r: Result<Vec<u8>, Error>)
    ensures
        r matches Err(e) ==> e matches Error::Io(_),
{
    let mut fp = d.open_file(name).map_err(map_io)?;
    let mut buf: Vec<u8> = Vec::new();
    fp.read_to_end(&mut buf).map_err(map_io)?;
    Ok(buf)
}

/// Relies on `openat::Dir::list_dir`: starts an enumeration of the
/// named directory under `d`.
#[verifier::external_body]
pub(crate) fn list_dir(d: &openat::Dir, name: &str) -> (r: Result<openat::DirIter, Error>)
    ensures
        r matches Err(e) ==> e matches Error::Io(_),
{
    d.list_dir(name).map_err(map_io)
}

/// Relies on `openat::DirIter::next`, `openat::Entry::file_name` and
/// `openat::Entry::simple_type`: yields the next entry as its name
/// and node type, `None` once the enumeration is over. The order of
/// entries and their number are up to the OS: nothing is promised of
/// them.
#[verifier::external_body]
pub(crate) fn dir_iter_next(it: &mut openat::DirIter) -> (r: Option<
    Result<(String, NodeType), Error>,
>)
    ensures
        r matches Some(Err(e)) ==> e matches Error::Io(_),
{
    match it.next() {
        None => None,
        Some(Err(e)) => Some(Err(map_io(e))),
        Some(Ok(entry)) => {
            let name = entry.file_name().to_string_lossy().into_owned();
            let t = match entry.simple_type() {
                Some(openat::SimpleType::File) => NodeType::File,
                Some(openat::SimpleType::Dir) => NodeType::Dir,
                Some(openat::SimpleType::Symlink) => NodeType::Symlink,
                Some(openat::SimpleType::Other) => NodeType::Other,
                None => NodeType::Unknown,
            };
            Some(Ok((name, t)))
        },
    }
}

/// Relies on `openat::Dir::update_file` (open read-write, mode
/// `mode`, creating if absent), `std::io::Write::write_all` and
/// `std::io::Write::flush`: writes the one given byte to the named
/// node and releases the descriptor before returning.
#[verifier::external_body]
pub(crate) fn write_byte_node(
    d: &openat::Dir,
    name: &str,
    mode: u32,
    byte: u8,
) -> (r: Result<(), Error>)
    ensures
        r matches Err(e) ==> e matches Error::Io(_),
{
    let mut fp = d.update_file(name, mode).map_err(map_io)?;
    fp.write_all(&[byte]).map_err(map_io)?;
    fp.flush().map_err(map_io)?;
    Ok(())
}

/// Relies on `nix::mount::mount`: asks the kernel to mount a fresh
/// filesystem of type `fstype` at `target`, with no source device, no
/// flags and no options; a failure carries the syscall's `errno`.
#[verifier::external_body]
pub(crate) fn mount_fs_nodev(fstype: &str, target: &str) -> (r: Result<(), Error>)
    ensures
        r matches Err(e) ==> e matches Error::Sys(_),
{
    nix::mount::mount(
        None::<&str>,
        target,
        Some(fstype),
        nix::mount::MsFlags::empty(),
        None::<&str>,
    ).map_err(|e| Error::Sys(e as i32))
}

} // verus!

//! Detection of kernel support for the control filesystem.
//!
//! The kernel supports SELinux exactly when it registers the
//! `selinuxfs` filesystem type. Detection combines two independent
//! mechanisms, in order, short-circuiting on the first conclusive
//! answer:
//!
//! 1. scan the `filesystems` listing of the process-information
//!    filesystem for the registered name; a completed scan is
//!    conclusive either way;
//! 2. if that listing cannot be read, fall back to a direct kernel
//!    query for the type name, whose result [`classify_sysfs_result`]
//!    interprets.
//!
//! The kernel query itself (a raw syscall) cannot be made here; the
//! caller hands it in as a closure returning the syscall's result and
//! `errno`, or `None` if the query could not be made at all.

use vstd::prelude::*;

use crate::errors::Error;
use crate::fsops;
use crate::codec::NodeType;
use crate::text::{
    contains_subseq, has_subseq, has_subseq_in_line, lemma_line_containment,
};

verus! {

/// The `errno` code for "invalid argument" (`EINVAL`), with which the
/// kernel query answers when the asked-for filesystem type is not
/// registered.
pub const EINVAL_CODE: i32 = 22;

/// The name under which the control filesystem registers with the
/// kernel: the bytes of `"selinuxfs"`.
pub open spec fn selinuxfs_name_bytes() -> Seq<u8> {
    seq![115u8, 101u8, 108u8, 105u8, 110u8, 117u8, 120u8, 102u8, 115u8]
}

/// The registered name occurs in the listing as a contiguous run of
/// bytes; [`lemma_listing_scanned_by_lines`] shows this is the same
/// as the name occurring within one line of the listing.
pub open spec fn listing_names_selinuxfs(s: Seq<u8>) -> bool {
    has_subseq(s, selinuxfs_name_bytes())
}

/// The listing holds one registered type name per line, and the
/// registered name of the control filesystem holds no line break: so
/// a line-by-line scan and a whole-listing scan agree — the name
/// occurs within some line exactly when it occurs anywhere.
pub proof fn lemma_listing_scanned_by_lines(s: Seq<u8>)
    ensures
        listing_names_selinuxfs(s) <==> has_subseq_in_line(s, selinuxfs_name_bytes()),
{
    assert forall|t: int| 0 <= t < selinuxfs_name_bytes().len()
        implies selinuxfs_name_bytes()[t] != 10 by {};
    lemma_line_containment(s, selinuxfs_name_bytes());
}

/// The registered name of the control filesystem, as bytes.
fn selinuxfs_needle() -> (r: Vec<u8>)
    ensures
        r@ == selinuxfs_name_bytes(),
{
    let mut v: Vec<u8> = Vec::new();
    v.push(115);
    v.push(101);
    v.push(108);
    v.push(105);
    v.push(110);
    v.push(117);
    v.push(120);
    v.push(102);
    v.push(115);
    proof {
        assert(v@ =~= selinuxfs_name_bytes());
    }
    v
}

/// Scan a filesystems listing for the registered name of the control
/// filesystem.
pub fn scan_filesystems_listing(listing: &[u8]) -> (r: bool)
    ensures
        r == listing_names_selinuxfs(listing@),
{
    let needle = selinuxfs_needle();
    contains_subseq(listing, needle.as_slice())
}

/// What the direct kernel query means: a non-negative return says the
/// type is registered; a failure with "invalid argument" says it is
/// not; any other failure is indeterminate and is surfaced as a
/// syscall error with its code preserved.
pub open spec fn sysfs_verdict(ret: i64, eno: i32) -> Result<bool, Error> {
    if ret >= 0 {
        Ok(true)
    } else if eno == EINVAL_CODE {
        Ok(false)
    } else {
        Err(Error::Sys(eno))
    }
}

/// Interpret the result of the direct kernel query for a filesystem
/// type: its return value and, where it failed, the `errno` it left.
pub fn classify_sysfs_result(ret: i64, eno: i32) -> (r: Result<bool, Error>)
    ensures
        r == sysfs_verdict(ret, eno),
{
    if ret >= 0 {
        Ok(true)
    } else if eno == EINVAL_CODE {
        Ok(false)
    } else {
        Err(Error::Sys(eno))
    }
}

/// Check whether the current kernel supports SELinux (via the
/// `selinuxfs` control filesystem).
///
/// `procfs` is an optional already-open handle to the root of the
/// process-information filesystem; when it is absent, `/proc` is
/// opened here. The handle must refer to a directory, else the call
/// fails with a validation error. `kernel_query` performs the direct
/// kernel query for a registered filesystem type and reports the
/// syscall's return value and `errno`, or `None` if the query could
/// not be made; it is only invoked when the `filesystems` listing
/// cannot be read.
pub fn has_selinuxfs<F: Fn() -> Option<(i64, i32)>>(
    procfs: Option<openat::Dir>,
    kernel_query: F,
) -> (r: Result<bool, Error>)
    requires
        call_requires(kernel_query, ()),
    ensures
        r matches Err(e) ==> (e matches Error::Io(_) || e matches Error::NotADirectory
            || e matches Error::Sys(_) || e matches Error::Undetectable),
        r matches Err(Error::Sys(eno)) ==> eno != EINVAL_CODE,
        r matches Err(Error::Sys(eno)) ==> exists|ret: i64|
            ret < 0 && #[trigger] call_ensures(kernel_query, (), Some((ret, eno))),
        r == Err::<bool, Error>(Error::Undetectable) ==> call_ensures(
            kernel_query,
            (),
            None::<(i64, i32)>,
        ),
{
    let dir = match procfs {
        Some(d) => d,
        None => match fsops::open_dir("/proc") {
            Ok(d) => d,
            Err(e) => { return Err(e); },
        },
    };
    match fsops::dir_self_node_type(&dir) {
        Ok(NodeType::Dir) => {},
        Ok(_) => { return Err(Error::NotADirectory); },
        Err(e) => { return Err(e); },
    }
    match fsops::read_all_node(&dir, "filesystems") {
        Ok(listing) => Ok(scan_filesystems_listing(listing.as_slice())),
        Err(_) => match kernel_query() {
            Some((ret, eno)) => {
                let out = classify_sysfs_result(ret, eno);
                proof {
                    assert(call_ensures(kernel_query, (), Some((ret, eno))));
                    if ret < 0 && eno != EINVAL_CODE {
                        assert(out == Err::<bool, Error>(Error::Sys(eno)));
                        assert(exists|rr: i64|
                            rr < 0 && #[trigger] call_ensures(kernel_query, (), Some((rr, eno))));
                    }
                }
                out
            },
            None => Err(Error::Undetectable),
        },
    }
}

} // verus!

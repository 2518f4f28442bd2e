//! Support for `selinuxfs`, the main OS interface for global SELinux
//! state.

use vstd::prelude::*;
use vstd::string::StringSliceAdditionalSpecFns;

use crate::codec::{bools_from_record, flag_byte, flag_of_byte, NodeType, parse_policy_version};
use crate::errors::{Error, IoKind};
use crate::fsops;
use crate::names::{
    lemma_sorted_names_unique, name_bytes, names_strictly_sorted, select_bool_names,
};
use crate::text::{bytes_lt, has_nul, str_contains_nul};

verus! {

/// Default SELinux FS mountpoint.
pub const DEFAULT_PATH: &'static str = "/sys/fs/selinux/";

/// Main OS interface for SELinux (via `selinuxfs`).
///
/// The handle owns one directory descriptor referring to the mounted
/// root of the control filesystem; the descriptor is validated to be
/// a directory before a handle is made from it, and is released when
/// the handle is dropped.
pub struct SELinuxFs {
    dirfd: openat::Dir,
}

impl SELinuxFs {
    /// Open a `SELinuxFs` instance at a path.
    ///
    /// Fails with a validation error if the path does not refer to a
    /// directory; I/O errors are propagated.
    pub fn open_path(fspath: &str) -> (r: Result<SELinuxFs, Error>)
        ensures
            r matches Err(e) ==> (e matches Error::Io(_) || e == Error::NotADirectory),
    {
        let d = match fsops::open_dir(fspath) {
            Ok(d) => d,
            Err(e) => { return Err(e); },
        };
        Self::from_dir(d)
    }

    /// Create a `SELinuxFs` instance from an already-open directory
    /// descriptor, which must refer to a mounted `selinux` filesystem
    /// root.
    ///
    /// The descriptor's directory-ness is validated first; the
    /// descriptor is consumed either way, so a failure releases it
    /// rather than leaking it or leaving two owners.
    pub fn from_dir(dirfd: openat::Dir) -> (r: Result<SELinuxFs, Error>)
        ensures
            r matches Err(e) ==> (e matches Error::Io(_) || e == Error::NotADirectory),
    {
        match fsops::dir_self_node_type(&dirfd) {
            Ok(NodeType::Dir) => Ok(SELinuxFs { dirfd }),
            Ok(_) => Err(Error::NotADirectory),
            Err(e) => Err(e),
        }
    }

    /// Mount a new `SELinuxFs` instance at a path, and return it.
    ///
    /// This requires privileges to mount (i.e. `CAP_SYS_ADMIN`) and
    /// kernel support; a mount failure carries the syscall's `errno`.
    pub fn mount_fs(fspath: &str) -> (r: Result<SELinuxFs, Error>)
        ensures
            r matches Err(e) ==> (e matches Error::Io(_) || e == Error::NotADirectory
                || e matches Error::Sys(_)),
    {
        match fsops::mount_fs_nodev("selinuxfs", fspath) {
            Ok(()) => {},
            Err(e) => { return Err(e); },
        }
        Self::open_path(fspath)
    }

    /// Read the named single-byte boolean node and decode it.
    fn read_flag(&self, node: &str) -> (r: Result<bool, Error>)
        ensures
            r matches Err(e) ==> (e matches Error::Io(_) || e matches Error::BadFlagByte(_)
                || e == Error::TruncatedNode),
    {
        let b = match fsops::read_byte_node(&self.dirfd, node) {
            Ok(b) => b,
            Err(e) => { return Err(e); },
        };
        flag_of_byte(b)
    }

    /// Whether the kernel is in SELinux enforcing mode.
    pub fn is_enforcing(&self) -> (r: Result<bool, Error>)
        ensures
            r matches Err(e) ==> (e matches Error::Io(_) || e matches Error::BadFlagByte(_)
                || e == Error::TruncatedNode),
    {
        self.read_flag("enforce")
    }

    /// Whether the kernel denies unknown object classes or permissions.
    pub fn deny_unknown(&self) -> (r: Result<bool, Error>)
        ensures
            r matches Err(e) ==> (e matches Error::Io(_) || e matches Error::BadFlagByte(_)
                || e == Error::TruncatedNode),
    {
        self.read_flag("deny_unknown")
    }

    /// Whether the kernel rejects unknown object classes or permissions.
    pub fn reject_unknown(&self) -> (r: Result<bool, Error>)
        ensures
            r matches Err(e) ==> (e matches Error::Io(_) || e matches Error::BadFlagByte(_)
                || e == Error::TruncatedNode),
    {
        self.read_flag("reject_unknown")
    }

    /// Whether Multi-Level Security (MLS) support is enabled.
    pub fn mls_enabled(&self) -> (r: Result<bool, Error>)
        ensures
            r matches Err(e) ==> (e matches Error::Io(_) || e matches Error::BadFlagByte(_)
                || e == Error::TruncatedNode),
    {
        self.read_flag("mls")
    }

    /// Whether the kernel is only checking application-requested
    /// protection on mmap/mprotect.
    pub fn check_requested_protection(&self) -> (r: Result<bool, Error>)
        ensures
            r matches Err(e) ==> (e matches Error::Io(_) || e matches Error::BadFlagByte(_)
                || e == Error::TruncatedNode),
    {
        self.read_flag("checkreqprot")
    }

    /// Policy format version supported by the current kernel: the
    /// full text of the version node parsed as an unsigned decimal
    /// integer.
    pub fn policy_version(&self) -> (r: Result<u32, Error>)
        ensures
            r matches Err(e) ==> (e matches Error::Io(_) || e == Error::BadVersionText),
    {
        let bytes = match fsops::read_all_node(&self.dirfd, "policyvers") {
            Ok(b) => b,
            Err(e) => { return Err(e); },
        };
        parse_policy_version(bytes.as_slice())
    }

    /// Return the value of the named SELinux boolean, if it exists.
    ///
    /// The first value is the current state, the second the value
    /// pending a commit. A name that is absent from the booleans
    /// directory, or present but not a regular file, gives `None`:
    /// absence is a valid outcome for callers probing for a boolean,
    /// not an error.
    pub fn sebool(&self, name: &str) -> (r: Result<Option<(bool, bool)>, Error>)
        ensures
            (r == Err::<Option<(bool, bool)>, Error>(Error::NulInName)) <==> has_nul(
                name.spec_bytes(),
            ),
            r matches Err(e) ==> (e == Error::NulInName || e matches Error::Io(_)
                || e matches Error::BadFlagByte(_)),
    {
        if str_contains_nul(name) {
            return Err(Error::NulInName);
        }
        let booldir = match fsops::sub_dir(&self.dirfd, "booleans") {
            Ok(d) => d,
            Err(e) => { return Err(e); },
        };
        let nt = match fsops::node_type(&booldir, name) {
            Ok(t) => t,
            Err(Error::Io(IoKind::NotFound)) => { return Ok(None); },
            Err(e) => { return Err(e); },
        };
        if nt != NodeType::File {
            return Ok(None);
        }
        let (b0, b1, b2) = match fsops::read3_node(&booldir, name) {
            Ok(t) => t,
            Err(e) => { return Err(e); },
        };
        match bools_from_record(b0, b1, b2) {
            Ok(pair) => Ok(Some(pair)),
            Err(e) => Err(e),
        }
    }

    /// Set an SELinux boolean to a new (pending) value.
    ///
    /// This only stages a new value: `commit_pending_bools` must be
    /// called to make any staged change effective.
    pub fn set_sebool_pending(&self, name: &str, value: bool) -> (r: Result<(), Error>)
        ensures
            (r == Err::<(), Error>(Error::NulInName)) <==> has_nul(name.spec_bytes()),
            r matches Err(e) ==> (e == Error::NulInName || e matches Error::Io(_)),
    {
        if str_contains_nul(name) {
            return Err(Error::NulInName);
        }
        let booldir = match fsops::sub_dir(&self.dirfd, "booleans") {
            Ok(d) => d,
            Err(e) => { return Err(e); },
        };
        fsops::write_byte_node(&booldir, name, 0o644, flag_byte(value))
    }

    /// Return the names of all available SELinux booleans, in
    /// strictly increasing lexicographic byte order, each name once.
    ///
    /// Entries of the booleans directory that fail to enumerate are
    /// silently skipped — the listing is deliberately best-effort —
    /// and entries whose type cannot be determined or is not a
    /// regular file are excluded.
    pub fn list_sebools(&self) -> (r: Result<Vec<String>, Error>)
        ensures
            r matches Ok(names) ==> names_strictly_sorted(names@),
            r matches Ok(names) ==> (forall|i: int, j: int|
                0 <= i < j < names@.len() ==> names@[i]@ != names@[j]@),
            r matches Err(e) ==> e matches Error::Io(_),
    {
        let mut it = match fsops::list_dir(&self.dirfd, "booleans") {
            Ok(it) => it,
            Err(e) => { return Err(e); },
        };
        let mut entries: Vec<(String, NodeType)> = Vec::new();
        // No directory enumeration comes near this many entries; the
        // counter only makes termination checkable.
        let mut budget: usize = usize::MAX;
        while budget > 0
            decreases budget,
        {
            budget -= 1;
            match fsops::dir_iter_next(&mut it) {
                None => { break; },
                Some(Ok(pair)) => { entries.push(pair); },
                Some(Err(_)) => {},
            }
        }
        let names = select_bool_names(&entries);
        proof {
            lemma_sorted_names_unique(names@);
        }
        Ok(names)
    }

    /// Return the current and pending values of each of the given
    /// booleans, in the given order under the given names.
    ///
    /// A name that resolves to no boolean is a hard failure, not a
    /// gap: callers hand in names they have just listed, and listing
    /// and per-item lookup are expected to be consistent.
    pub fn sebool_values(&self, names: &Vec<String>) -> (r: Result<
        Vec<(String, bool, bool)>,
        Error,
    >)
        ensures
            r matches Ok(m) ==> m@.len() == names@.len(),
            r matches Ok(m) ==> (forall|i: int|
                0 <= i < m@.len() ==> (#[trigger] m@[i]).0 == names@[i]),
            r matches Err(e) ==> (e == Error::NulInName || e matches Error::Io(_)
                || e matches Error::BadFlagByte(_) || e matches Error::MissingBool(_)),
    {
        let mut m: Vec<(String, bool, bool)> = Vec::new();
        let mut i: usize = 0;
        while i < names.len()
            invariant
                i <= names@.len(),
                m@.len() == i,
                forall|j: int| 0 <= j < i ==> (#[trigger] m@[j]).0 == names@[j],
            decreases names@.len() - i,
        {
            let name = &names[i];
            match self.sebool(name.as_str()) {
                Ok(Some((cur, pending))) => {
                    m.push((name.clone(), cur, pending));
                },
                Ok(None) => {
                    return Err(Error::MissingBool(name.clone()));
                },
                Err(e) => {
                    return Err(e);
                },
            }
            i += 1;
        }
        Ok(m)
    }

    /// Return all available SELinux booleans with their current and
    /// pending values, keyed by name in strictly increasing
    /// lexicographic byte order.
    ///
    /// The keys are exactly the names `list_sebools` found: if any
    /// listed boolean cannot be read back, the whole call fails
    /// rather than return a partial map.
    pub fn dump_sebools(&self) -> (r: Result<Vec<(String, bool, bool)>, Error>)
        ensures
            r matches Ok(m) ==> (forall|i: int|
                0 <= i && i + 1 < m@.len() ==> bytes_lt(
                    name_bytes((#[trigger] m@[i]).0),
                    name_bytes(m@[i + 1].0),
                )),
            r matches Ok(m) ==> (forall|i: int, j: int|
                0 <= i < j < m@.len() ==> (#[trigger] m@[i]).0@ != (#[trigger] m@[j]).0@),
            r matches Err(e) ==> (e == Error::NulInName || e matches Error::Io(_)
                || e matches Error::BadFlagByte(_) || e matches Error::MissingBool(_)),
    {
        let names = match self.list_sebools() {
            Ok(names) => names,
            Err(e) => { return Err(e); },
        };
        self.sebool_values(&names)
    }

    /// Commit every pending SELinux boolean.
    ///
    /// The kernel applies all currently staged pending values across
    /// all booleans as one indivisible transaction; no per-boolean
    /// commit exists.
    pub fn commit_pending_bools(&self) -> (r: Result<(), Error>)
        ensures
            r matches Err(e) ==> e matches Error::Io(_),
    {
        fsops::write_byte_node(&self.dirfd, "commit_pending_bools", 0o200, flag_byte(true))
    }
}

} // verus!

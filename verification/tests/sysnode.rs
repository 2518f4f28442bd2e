//! Tests for the typed `selinuxfs` handle, run against synthetic
//! directories that hold the same node encodings.

use std::io::{Read, Write};

use selinur::errors::Error;
use selinur::sys::SELinuxFs;

fn scratch(name: &str) -> openat::Dir {
    let tmp = openat::Dir::open("/tmp").unwrap();
    let _ = tmp.create_dir(name, 0o755);
    tmp.sub_dir(name).unwrap()
}

fn put(dir: &openat::Dir, name: &str, content: &[u8]) {
    let mut f = dir.write_file(name, 0o644).unwrap();
    f.write_all(content).unwrap();
    f.flush().unwrap();
}

fn read_back(dir: &openat::Dir, name: &str) -> Vec<u8> {
    let mut f = dir.open_file(name).unwrap();
    let mut buf = Vec::new();
    f.read_to_end(&mut buf).unwrap();
    buf
}

/// A synthetic control-filesystem root with flag nodes, a version
/// node and a booleans directory.
fn fixture(name: &str) -> (openat::Dir, String) {
    let dir = scratch(name);
    put(&dir, "enforce", b"1");
    put(&dir, "deny_unknown", b"0");
    put(&dir, "reject_unknown", b"1");
    put(&dir, "mls", b"1");
    put(&dir, "checkreqprot", b"0");
    put(&dir, "policyvers", b"33");
    let _ = dir.create_dir("booleans", 0o755);
    let bools = dir.sub_dir("booleans").unwrap();
    put(&bools, "beta", b"1 0");
    put(&bools, "alpha", b"0 1");
    put(&bools, "zeta", b"0 0");
    let _ = bools.create_dir("subnode", 0o755);
    (dir, format!("/tmp/{}", name))
}

#[test]
fn test_open_path_reads_flags() {
    let (_dir, path) = fixture("selinur_sys_flags");
    let fs = SELinuxFs::open_path(&path).unwrap();
    assert_eq!(fs.is_enforcing().unwrap(), true);
    assert_eq!(fs.deny_unknown().unwrap(), false);
    assert_eq!(fs.reject_unknown().unwrap(), true);
    assert_eq!(fs.mls_enabled().unwrap(), true);
    assert_eq!(fs.check_requested_protection().unwrap(), false);
    assert_eq!(fs.policy_version().unwrap(), 33);
}

#[test]
fn test_flag_node_protocol_errors() {
    let dir = scratch("selinur_sys_badflag");
    put(&dir, "enforce", b"2");
    put(&dir, "mls", b"");
    let fs = SELinuxFs::open_path("/tmp/selinur_sys_badflag").unwrap();
    assert!(matches!(fs.is_enforcing(), Err(Error::BadFlagByte(b'2'))));
    // A node that ends before one byte is a protocol error, not I/O.
    assert!(matches!(fs.mls_enabled(), Err(Error::TruncatedNode)));
    // A missing node is an I/O error.
    assert!(matches!(fs.deny_unknown(), Err(Error::Io(_))));
}

#[test]
fn test_policy_version_parse_error() {
    let dir = scratch("selinur_sys_badvers");
    put(&dir, "policyvers", b"thirty");
    let fs = SELinuxFs::open_path("/tmp/selinur_sys_badvers").unwrap();
    assert!(matches!(fs.policy_version(), Err(Error::BadVersionText)));
}

#[test]
fn test_open_path_plain_file_is_validation_error() {
    let dir = scratch("selinur_sys_plain");
    put(&dir, "plain", b"x");
    let r = SELinuxFs::open_path("/tmp/selinur_sys_plain/plain");
    assert!(matches!(r, Err(Error::NotADirectory)));
}

#[test]
fn test_open_path_missing_is_io_error() {
    let r = SELinuxFs::open_path("/tmp/selinur_sys_does_not_exist");
    assert!(matches!(r, Err(Error::Io(_))));
}

#[test]
fn test_from_dir_validates_directory() {
    let dir = scratch("selinur_sys_fromdir");
    put(&dir, "plain", b"x");
    let plain = dir.sub_dir("plain").unwrap();
    assert!(matches!(SELinuxFs::from_dir(plain), Err(Error::NotADirectory)));
    let good = openat::Dir::open("/tmp/selinur_sys_fromdir").unwrap();
    assert!(SELinuxFs::from_dir(good).is_ok());
}

#[test]
fn test_sebool_lookup() {
    let (_dir, path) = fixture("selinur_sys_sebool");
    let fs = SELinuxFs::open_path(&path).unwrap();
    assert_eq!(fs.sebool("alpha").unwrap(), Some((false, true)));
    assert_eq!(fs.sebool("beta").unwrap(), Some((true, false)));
    // Absence is a valid outcome, not an error.
    assert_eq!(fs.sebool("missing").unwrap(), None);
    // An entry that is not a regular file is also absence.
    assert_eq!(fs.sebool("subnode").unwrap(), None);
    // An embedded NUL can name no node.
    assert!(matches!(fs.sebool("a\0b"), Err(Error::NulInName)));
}

#[test]
fn test_sebool_protocol_error() {
    let (dir, path) = fixture("selinur_sys_sebool_bad");
    let bools = dir.sub_dir("booleans").unwrap();
    put(&bools, "broken", b"X 0");
    let fs = SELinuxFs::open_path(&path).unwrap();
    assert!(matches!(fs.sebool("broken"), Err(Error::BadFlagByte(b'X'))));
}

#[test]
fn test_list_sebools_sorted_files_only() {
    let (_dir, path) = fixture("selinur_sys_list");
    let fs = SELinuxFs::open_path(&path).unwrap();
    let names = fs.list_sebools().unwrap();
    assert_eq!(names, vec!["alpha".to_string(), "beta".to_string(), "zeta".to_string()]);
}

#[test]
fn test_dump_matches_list() {
    let (_dir, path) = fixture("selinur_sys_dump");
    let fs = SELinuxFs::open_path(&path).unwrap();
    let names = fs.list_sebools().unwrap();
    let dump = fs.dump_sebools().unwrap();
    let keys: Vec<String> = dump.iter().map(|t| t.0.clone()).collect();
    assert_eq!(keys, names);
    assert_eq!(dump[0], ("alpha".to_string(), false, true));
    assert_eq!(dump[1], ("beta".to_string(), true, false));
    assert_eq!(dump[2], ("zeta".to_string(), false, false));
}

#[test]
fn test_dump_fails_on_unreadable_listed_bool() {
    let (dir, path) = fixture("selinur_sys_dump_bad");
    let bools = dir.sub_dir("booleans").unwrap();
    put(&bools, "broken", b"? 1");
    let fs = SELinuxFs::open_path(&path).unwrap();
    assert!(matches!(fs.dump_sebools(), Err(Error::BadFlagByte(b'?'))));
}

#[test]
fn test_sebool_values_missing_name_is_hard_failure() {
    let (_dir, path) = fixture("selinur_sys_values");
    let fs = SELinuxFs::open_path(&path).unwrap();
    let names = vec!["alpha".to_string(), "missing".to_string()];
    let r = fs.sebool_values(&names);
    assert!(matches!(r, Err(Error::MissingBool(n)) if n == "missing"));
}

#[test]
fn test_reads_are_idempotent() {
    let (_dir, path) = fixture("selinur_sys_idem");
    let fs = SELinuxFs::open_path(&path).unwrap();
    assert_eq!(fs.is_enforcing().unwrap(), fs.is_enforcing().unwrap());
    assert_eq!(fs.policy_version().unwrap(), fs.policy_version().unwrap());
    assert_eq!(fs.sebool("alpha").unwrap(), fs.sebool("alpha").unwrap());
    assert_eq!(fs.list_sebools().unwrap(), fs.list_sebools().unwrap());
}

#[test]
fn test_set_sebool_pending_writes_one_digit() {
    let (dir, path) = fixture("selinur_sys_set");
    let fs = SELinuxFs::open_path(&path).unwrap();
    fs.set_sebool_pending("zeta", true).unwrap();
    let bools = dir.sub_dir("booleans").unwrap();
    // Exactly one byte, the ASCII digit for the value, at the start of
    // the record; nothing else of the record is touched. (On the real
    // control filesystem the kernel interprets that digit as the new
    // pending value.)
    assert_eq!(read_back(&bools, "zeta"), b"1 0".to_vec());
    fs.set_sebool_pending("zeta", false).unwrap();
    assert_eq!(read_back(&bools, "zeta"), b"0 0".to_vec());
    assert!(matches!(fs.set_sebool_pending("a\0b", true), Err(Error::NulInName)));
}

#[test]
fn test_commit_writes_commit_node() {
    let (dir, path) = fixture("selinur_sys_commit");
    // The real commit node exists with a write-only mode; here it is
    // pre-created readable so the written byte can be checked.
    let _ = dir.remove_file("commit_pending_bools");
    put(&dir, "commit_pending_bools", b"0");
    let fs = SELinuxFs::open_path(&path).unwrap();
    fs.commit_pending_bools().unwrap();
    assert_eq!(read_back(&dir, "commit_pending_bools"), b"1".to_vec());
}

#[test]
fn test_mount_fs_bad_target_fails() {
    let r = SELinuxFs::mount_fs("/tmp/selinur_sys_no_such_dir/nested");
    assert!(matches!(r, Err(Error::Sys(_))));
}

#[test]
fn test_sys_sebools_list() {
    let sefs = match auto_selinuxfs() {
        Some(fs) => fs,
        None => return,
    };

    let bools = sefs.list_sebools().unwrap();
    // NOTE: this is a strong assumption, but not guaranteed.
    assert!(bools.len() > 0);
}

fn auto_selinuxfs() -> Option<SELinuxFs> {
    let ok = selinur::has_selinuxfs(None, || None).unwrap_or(false);
    if !ok {
        println!("selinuxfs not available, skipping.");
        return None;
    }
    if let Ok(fs) = SELinuxFs::open_path(selinur::sys::DEFAULT_PATH) {
        // The mountpoint may exist without the filesystem being
        // mounted there; probe a node before trusting the handle.
        if fs.is_enforcing().is_ok() {
            return Some(fs);
        }
    }
    if let Ok(fs) = SELinuxFs::mount_fs(selinur::sys::DEFAULT_PATH) {
        if fs.is_enforcing().is_ok() {
            return Some(fs);
        }
    }

    println!("unable to open or mount selinuxfs, skipping.");
    None
}

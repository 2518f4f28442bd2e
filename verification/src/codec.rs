//! Interpretation of control-filesystem node contents.
//!
//! Every node of the control filesystem encodes its state as ASCII
//! text: boolean nodes as a single `'0'`/`'1'` byte, boolean records
//! as `<current><separator><pending>`, and the policy version as a
//! decimal integer. The functions here turn raw bytes into typed
//! values, with any unexpected byte reported as a protocol violation
//! rather than coerced to a default.

use vstd::prelude::*;

use crate::errors::Error;
use crate::text::{all_digits, decimal_value, is_digit, lemma_decimal_prefix_le};

verus! {

/// The ASCII byte a false flag is stored as.
pub const FLAG_FALSE_BYTE: u8 = 48;

/// The ASCII byte a true flag is stored as.
pub const FLAG_TRUE_BYTE: u8 = 49;

/// Simplified type of a directory entry, as the OS reports it.
#[derive(Clone, Copy, Debug, PartialEq, Eq, Structural)]
pub enum NodeType {
    /// A regular file.
    File,
    /// A directory.
    Dir,
    /// A symbolic link.
    Symlink,
    /// Anything else (device, socket, ...).
    Other,
    /// The OS did not report a type for the entry.
    Unknown,
}

/// What reading one byte from a boolean control node means: the two
/// ASCII digits map to the two truth values, any other byte is a
/// protocol violation, and a node that ends before one byte is read
/// is truncated.
pub open spec fn flag_verdict(b: Option<u8>) -> Result<bool, Error> {
    match b {
        Some(x) => if x == FLAG_FALSE_BYTE {
            Ok(false)
        } else if x == FLAG_TRUE_BYTE {
            Ok(true)
        } else {
            Err(Error::BadFlagByte(x))
        },
        None => Err(Error::TruncatedNode),
    }
}

/// The ASCII byte a flag value is written as.
pub open spec fn spec_flag_byte(v: bool) -> u8 {
    if v { FLAG_TRUE_BYTE } else { FLAG_FALSE_BYTE }
}

/// Decode the single byte of a boolean control node, or report why
/// it cannot be decoded; `None` stands for a node that ended before
/// one byte could be read.
pub fn flag_of_byte(b: Option<u8>) -> (r: Result<bool, Error>)
    ensures
        r == flag_verdict(b),
{
    match b {
        Some(x) => {
            if x == FLAG_FALSE_BYTE {
                Ok(false)
            } else if x == FLAG_TRUE_BYTE {
                Ok(true)
            } else {
                Err(Error::BadFlagByte(x))
            }
        },
        None => Err(Error::TruncatedNode),
    }
}

/// Encode a flag value as the byte the control filesystem expects.
pub fn flag_byte(v: bool) -> (r: u8)
    ensures
        r == spec_flag_byte(v),
{
    if v { FLAG_TRUE_BYTE } else { FLAG_FALSE_BYTE }
}

/// Encoding a flag and decoding the byte again gives the flag back:
/// the single-byte protocol loses nothing.
pub proof fn lemma_flag_round_trip(v: bool)
    ensures
        flag_verdict(Some(spec_flag_byte(v))) == Ok::<bool, Error>(v),
{
}

/// Encoding a current and a pending value as record bytes and
/// decoding them again gives both values back.
pub proof fn lemma_record_round_trip(cur: bool, pending: bool)
    ensures
        record_verdict(spec_flag_byte(cur), spec_flag_byte(pending)) == Ok::<(bool, bool), Error>(
            (cur, pending),
        ),
{
}

/// What a 3-byte boolean record means: byte 0 is the current value,
/// byte 2 the pending value, and the separator byte in the middle is
/// not validated. A non-digit at position 0 is reported first.
pub open spec fn record_verdict(b0: u8, b2: u8) -> Result<(bool, bool), Error> {
    match flag_verdict(Some(b0)) {
        Ok(cur) => match flag_verdict(Some(b2)) {
            Ok(pending) => Ok((cur, pending)),
            Err(e) => Err(e),
        },
        Err(e) => Err(e),
    }
}

/// Decode a 3-byte boolean record into its current and pending
/// values.
pub fn bools_from_record(b0: u8, b1: u8, b2: u8) -> (r: Result<(bool, bool), Error>)
    ensures
        r == record_verdict(b0, b2),
{
    let cur = match flag_of_byte(Some(b0)) {
        Ok(v) => v,
        Err(e) => { return Err(e); },
    };
    let pending = match flag_of_byte(Some(b2)) {
        Ok(v) => v,
        Err(e) => { return Err(e); },
    };
    let _ = b1;
    Ok((cur, pending))
}

/// What the text of the policy version node means: a non-empty run
/// of decimal digits whose value fits the version type, and nothing
/// else.
pub open spec fn version_verdict(s: Seq<u8>) -> Result<u32, Error> {
    if s.len() > 0 && all_digits(s) && decimal_value(s) <= u32::MAX {
        Ok(decimal_value(s) as u32)
    } else {
        Err(Error::BadVersionText)
    }
}

/// Parse the full text of the policy version node as an unsigned
/// decimal integer.
pub fn parse_policy_version(bytes: &[u8]) -> (r: Result<u32, Error>)
    ensures
        r == version_verdict(bytes@),
{
    let n = bytes.len();
    if n == 0 {
        return Err(Error::BadVersionText);
    }
    let mut acc: u64 = 0;
    let mut i: usize = 0;
    while i < n
        invariant
            n == bytes@.len(),
            i <= n,
            all_digits(bytes@.take(i as int)),
            acc == decimal_value(bytes@.take(i as int)),
            acc <= u32::MAX,
        decreases n - i,
    {
        let b = bytes[i];
        if b < 48 || b > 57 {
            proof {
                assert(!is_digit(bytes@[i as int]));
            }
            return Err(Error::BadVersionText);
        }
        let acc2: u64 = acc * 10 + ((b - 48) as u64);
        proof {
            assert(bytes@.take(i as int + 1).drop_last() =~= bytes@.take(i as int));
            assert(bytes@.take(i as int + 1).last() == bytes@[i as int]);
            assert(acc2 == decimal_value(bytes@.take(i as int + 1)));
        }
        if acc2 > u32::MAX as u64 {
            proof {
                if all_digits(bytes@) {
                    lemma_decimal_prefix_le(bytes@, i as int + 1);
                }
            }
            return Err(Error::BadVersionText);
        }
        acc = acc2;
        i += 1;
    }
    proof {
        assert(bytes@.take(n as int) =~= bytes@);
    }
    Ok(acc as u32)
}

} // verus!

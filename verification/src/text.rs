//! Byte-level text helpers.
//!
//! The control filesystem and the detection inputs are all plain
//! ASCII text, so the library works on raw bytes: containment of a
//! registered-name pattern in a listing, lexicographic ordering of
//! node names, scanning a name for an embedded NUL, and the value of
//! a decimal numeral.

use vstd::prelude::*;
use vstd::string::StringSliceAdditionalSpecFns;

verus! {

/// `needle` occurs in `hay` starting at position `k`.
pub open spec fn has_subseq_at(hay: Seq<u8>, needle: Seq<u8>, k: int) -> bool {
    0 <= k && k + needle.len() <= hay.len() && hay.subrange(k, k + needle.len()) == needle
}

/// `needle` occurs somewhere in `hay` as a contiguous run of bytes.
pub open spec fn has_subseq(hay: Seq<u8>, needle: Seq<u8>) -> bool {
    exists|k: int| has_subseq_at(hay, needle, k)
}

/// `needle` occurs in `hay` starting exactly at position `k`.
fn subseq_at(hay: &[u8], needle: &[u8], k: usize) -> (r: bool)
    requires
        k + needle@.len() <= hay@.len(),
    ensures
        r == has_subseq_at(hay@, needle@, k as int),
{
    let n = needle.len();
    let h = hay.len();
    let mut j: usize = 0;
    while j < n
        invariant
            n == needle@.len(),
            h == hay@.len(),
            k + n <= h,
            j <= n,
            forall|t: int| 0 <= t < j ==> hay@[k + t] == needle@[t],
        decreases n - j,
    {
        if hay[k + j] != needle[j] {
            proof {
                assert(hay@.subrange(k as int, k + needle@.len())[j as int] == hay@[k + j]);
            }
            return false;
        }
        j += 1;
    }
    proof {
        assert(hay@.subrange(k as int, k + needle@.len()) =~= needle@);
    }
    true
}

/// Whether `needle` occurs in `hay` as a contiguous run of bytes.
pub fn contains_subseq(hay: &[u8], needle: &[u8]) -> (r: bool)
    ensures
        r == has_subseq(hay@, needle@),
{
    let n = needle.len();
    let h = hay.len();
    if n == 0 {
        proof {
            assert(hay@.subrange(0, 0) =~= needle@);
            assert(has_subseq_at(hay@, needle@, 0));
        }
        return true;
    }
    if n > h {
        proof {
            assert forall|k: int| !has_subseq_at(hay@, needle@, k) by {};
        }
        return false;
    }
    let mut k: usize = 0;
    while k <= h - n
        invariant
            n == needle@.len(),
            h == hay@.len(),
            1 <= n <= h,
            k <= h - n + 1,
            forall|k2: int| 0 <= k2 < k ==> !has_subseq_at(hay@, needle@, k2),
        decreases h - n + 1 - k,
    {
        if subseq_at(hay, needle, k) {
            return true;
        }
        k += 1;
    }
    proof {
        assert forall|k2: int| !has_subseq_at(hay@, needle@, k2) by {
            if 0 <= k2 < k {
            }
        };
    }
    false
}

/// Bytes `i..j` of `s` form one full line: they run from a start of
/// line to an end of line and hold no line break themselves.
pub open spec fn is_line(s: Seq<u8>, i: int, j: int) -> bool {
    &&& 0 <= i <= j <= s.len()
    &&& (i == 0 || s[i - 1] == 10)
    &&& (j == s.len() || s[j] == 10)
    &&& forall|t: int| i <= t < j ==> s[t] != 10
}

/// `needle` occurs within a single line of `s`.
pub open spec fn has_subseq_in_line(s: Seq<u8>, needle: Seq<u8>) -> bool {
    exists|i: int, j: int| is_line(s, i, j) && has_subseq(s.subrange(i, j), needle)
}

/// The start of the line of `s` that position `k` lies on.
spec fn line_start(s: Seq<u8>, k: int) -> int
    decreases k,
{
    if k <= 0 {
        0
    } else if s[k - 1] == 10 {
        k
    } else {
        line_start(s, k - 1)
    }
}

/// The end of the line of `s` that position `j` lies on.
spec fn line_end(s: Seq<u8>, j: int) -> int
    decreases s.len() - j,
{
    if j >= s.len() {
        s.len() as int
    } else if s[j] == 10 {
        j
    } else {
        line_end(s, j + 1)
    }
}

proof fn lemma_line_start(s: Seq<u8>, k: int)
    requires
        0 <= k <= s.len(),
    ensures
        0 <= line_start(s, k) <= k,
        line_start(s, k) == 0 || s[line_start(s, k) - 1] == 10,
        forall|t: int| line_start(s, k) <= t < k ==> s[t] != 10,
    decreases k,
{
    if k > 0 && s[k - 1] != 10 {
        lemma_line_start(s, k - 1);
    }
}

proof fn lemma_line_end(s: Seq<u8>, j: int)
    requires
        0 <= j <= s.len(),
    ensures
        j <= line_end(s, j) <= s.len(),
        line_end(s, j) == s.len() || s[line_end(s, j)] == 10,
        forall|t: int| j <= t < line_end(s, j) ==> s[t] != 10,
    decreases s.len() - j,
{
    if j < s.len() && s[j] != 10 {
        lemma_line_end(s, j + 1);
    }
}

/// A byte string that holds no line break occurs within a single
/// line of `s` exactly when it occurs anywhere in `s`: an occurrence
/// cannot span a line break it does not contain.
pub proof fn lemma_line_containment(s: Seq<u8>, needle: Seq<u8>)
    requires
        forall|t: int| 0 <= t < needle.len() ==> needle[t] != 10,
    ensures
        has_subseq_in_line(s, needle) <==> has_subseq(s, needle),
{
    if has_subseq_in_line(s, needle) {
        let (i, j) = choose|i: int, j: int|
            is_line(s, i, j) && has_subseq(s.subrange(i, j), needle);
        let k = choose|k: int| has_subseq_at(s.subrange(i, j), needle, k);
        assert(s.subrange(i + k, i + k + needle.len() as int) =~= s.subrange(i, j).subrange(
            k,
            k + needle.len() as int,
        ));
        assert(has_subseq_at(s, needle, i + k));
    }
    if has_subseq(s, needle) {
        let k = choose|k: int| has_subseq_at(s, needle, k);
        let n = needle.len() as int;
        let i = line_start(s, k);
        let j = line_end(s, k + n);
        lemma_line_start(s, k);
        lemma_line_end(s, k + n);
        assert forall|t: int| k <= t < k + n implies s[t] != 10 by {
            assert(s.subrange(k, k + n)[t - k] == s[t]);
            assert(needle[t - k] != 10);
        };
        assert forall|t: int| i <= t < j implies s[t] != 10 by {
            if t < k {
            } else if t < k + n {
                assert(s.subrange(k, k + n)[t - k] == s[t]);
            }
        };
        assert(is_line(s, i, j));
        assert(s.subrange(i, j).subrange(k - i, k - i + n) =~= s.subrange(k, k + n));
        assert(has_subseq_at(s.subrange(i, j), needle, k - i));
        assert(has_subseq_in_line(s, needle));
    }
}

/// Strict lexicographic order on byte strings; a proper prefix comes
/// before every extension of it. This is the order `str` itself is
/// ordered by.
pub open spec fn bytes_lt(a: Seq<u8>, b: Seq<u8>) -> bool
    decreases a.len(),
{
    if b.len() == 0 {
        false
    } else if a.len() == 0 {
        true
    } else if a[0] < b[0] {
        true
    } else if a[0] > b[0] {
        false
    } else {
        bytes_lt(a.drop_first(), b.drop_first())
    }
}

/// Equal prefixes do not decide the order: it is decided by the
/// remainders.
pub proof fn lemma_bytes_lt_skip(a: Seq<u8>, b: Seq<u8>, i: int)
    requires
        0 <= i <= a.len(),
        i <= b.len(),
        forall|j: int| 0 <= j < i ==> a[j] == b[j],
    ensures
        bytes_lt(a, b) == bytes_lt(a.skip(i), b.skip(i)),
    decreases i,
{
    if i > 0 {
        assert(a[0] == b[0]);
        assert forall|j: int| 0 <= j < i - 1 implies a.drop_first()[j] == b.drop_first()[j] by {
            assert(a[j + 1] == b[j + 1]);
        };
        lemma_bytes_lt_skip(a.drop_first(), b.drop_first(), i - 1);
        assert(a.drop_first().skip(i - 1) =~= a.skip(i));
        assert(b.drop_first().skip(i - 1) =~= b.skip(i));
    } else {
        assert(a.skip(0) =~= a);
        assert(b.skip(0) =~= b);
    }
}

/// No byte string comes before itself.
pub proof fn lemma_bytes_lt_irrefl(a: Seq<u8>)
    ensures
        !bytes_lt(a, a),
    decreases a.len(),
{
    if a.len() > 0 {
        lemma_bytes_lt_irrefl(a.drop_first());
    }
}

/// The lexicographic order is transitive.
pub proof fn lemma_bytes_lt_trans(a: Seq<u8>, b: Seq<u8>, c: Seq<u8>)
    requires
        bytes_lt(a, b),
        bytes_lt(b, c),
    ensures
        bytes_lt(a, c),
    decreases a.len(),
{
    if b.len() == 0 {
        assert(false);
    } else if c.len() == 0 {
        assert(false);
    } else if a.len() == 0 {
    } else {
        if a[0] == b[0] && b[0] == c[0] {
            lemma_bytes_lt_trans(a.drop_first(), b.drop_first(), c.drop_first());
        }
    }
}

/// Ordered byte strings differ.
pub proof fn lemma_bytes_lt_ne(a: Seq<u8>, b: Seq<u8>)
    requires
        bytes_lt(a, b),
    ensures
        a != b,
{
    if a == b {
        lemma_bytes_lt_irrefl(a);
    }
}

/// The outcome of a three-way comparison.
#[derive(Clone, Copy, Debug, PartialEq, Eq, Structural)]
pub enum Order {
    /// The first operand comes first.
    Less,
    /// The operands are equal.
    Equal,
    /// The second operand comes first.
    Greater,
}

/// Compare two byte strings in lexicographic order.
pub fn compare_bytes(a: &[u8], b: &[u8]) -> (r: Order)
    ensures
        (r == Order::Less) == bytes_lt(a@, b@),
        (r == Order::Equal) == (a@ == b@),
        (r == Order::Greater) == bytes_lt(b@, a@),
{
    let mut i: usize = 0;
    while i < a.len() && i < b.len()
        invariant
            i <= a@.len(),
            i <= b@.len(),
            forall|j: int| 0 <= j < i ==> a@[j] == b@[j],
        decreases a@.len() - i,
    {
        let x = a[i];
        let y = b[i];
        if x < y {
            proof {
                lemma_bytes_lt_skip(a@, b@, i as int);
                lemma_bytes_lt_skip(b@, a@, i as int);
                assert(a@.skip(i as int)[0] == x);
                assert(b@.skip(i as int)[0] == y);
                assert(a@[i as int] != b@[i as int]);
            }
            return Order::Less;
        }
        if x > y {
            proof {
                lemma_bytes_lt_skip(a@, b@, i as int);
                lemma_bytes_lt_skip(b@, a@, i as int);
                assert(a@.skip(i as int)[0] == x);
                assert(b@.skip(i as int)[0] == y);
                assert(a@[i as int] != b@[i as int]);
            }
            return Order::Greater;
        }
        i += 1;
    }
    if a.len() == b.len() {
        proof {
            assert(a@ =~= b@);
            lemma_bytes_lt_irrefl(a@);
        }
        Order::Equal
    } else if a.len() < b.len() {
        proof {
            lemma_bytes_lt_skip(a@, b@, i as int);
            lemma_bytes_lt_skip(b@, a@, i as int);
            assert(a@.skip(i as int).len() == 0);
            assert(b@.skip(i as int).len() > 0);
        }
        Order::Less
    } else {
        proof {
            lemma_bytes_lt_skip(a@, b@, i as int);
            lemma_bytes_lt_skip(b@, a@, i as int);
            assert(b@.skip(i as int).len() == 0);
            assert(a@.skip(i as int).len() > 0);
        }
        Order::Greater
    }
}

/// A NUL byte occurs in `s`.
pub open spec fn has_nul(s: Seq<u8>) -> bool {
    exists|i: int| 0 <= i < s.len() && s[i] == 0
}

/// Whether a NUL byte occurs in the slice.
pub fn contains_nul(s: &[u8]) -> (r: bool)
    ensures
        r == has_nul(s@),
{
    let mut i: usize = 0;
    while i < s.len()
        invariant
            i <= s@.len(),
            forall|j: int| 0 <= j < i ==> s@[j] != 0,
        decreases s@.len() - i,
    {
        if s[i] == 0 {
            return true;
        }
        i += 1;
    }
    false
}

/// Whether a NUL byte occurs in the UTF-8 encoding of the string.
pub fn str_contains_nul(s: &str) -> (r: bool)
    ensures
        r == has_nul(s.spec_bytes()),
{
    contains_nul(s.as_bytes())
}

/// `b` is an ASCII decimal digit.
pub open spec fn is_digit(b: u8) -> bool {
    48 <= b <= 57
}

/// Every byte of `s` is an ASCII decimal digit.
pub open spec fn all_digits(s: Seq<u8>) -> bool {
    forall|i: int| 0 <= i < s.len() ==> is_digit(s[i])
}

/// The value of `s` read as a decimal numeral, most significant
/// digit first.
pub open spec fn decimal_value(s: Seq<u8>) -> nat
    decreases s.len(),
{
    if s.len() == 0 {
        0
    } else {
        (decimal_value(s.drop_last()) * 10 + (s.last() - 48)) as nat
    }
}

/// A numeral is worth at least as much as any of its prefixes.
pub proof fn lemma_decimal_prefix_le(s: Seq<u8>, j: int)
    requires
        all_digits(s),
        0 <= j <= s.len(),
    ensures
        decimal_value(s.take(j)) <= decimal_value(s),
    decreases s.len() - j,
{
    if j < s.len() {
        assert(s.take(j + 1).drop_last() =~= s.take(j));
        assert(s.take(j + 1).last() == s[j]);
        assert(is_digit(s[j]));
        lemma_decimal_prefix_le(s, j + 1);
    } else {
        assert(s.take(j) =~= s);
    }
}

} // verus!

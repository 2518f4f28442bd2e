//! Ordered selection of boolean names from a directory enumeration.
//!
//! The booleans directory is enumerated in whatever order the OS
//! yields its entries. Callers get a stable, diffable view instead:
//! the names of the regular-file entries, in strictly increasing
//! lexicographic byte order, each name once. [`select_bool_names`]
//! states this exactly: the returned names spell, as a set of byte
//! strings, precisely the regular-file entry names handed in.

use vstd::prelude::*;
use vstd::string::StringSliceAdditionalSpecFns;
use vstd::utf8::encode_utf8;

use crate::codec::NodeType;
use crate::text::{
    bytes_lt, compare_bytes, lemma_bytes_lt_ne, lemma_bytes_lt_trans, Order,
};

verus! {

/// The UTF-8 bytes of a name; names are ordered and compared by them.
pub open spec fn name_bytes(s: String) -> Seq<u8> {
    encode_utf8(s@)
}

/// The names stand in strictly increasing lexicographic byte order;
/// in particular no name repeats.
pub open spec fn names_strictly_sorted(names: Seq<String>) -> bool {
    forall|i: int|
        0 <= i && i + 1 < names.len() ==> bytes_lt(
            #[trigger] name_bytes(names[i]),
            name_bytes(names[i + 1]),
        )
}

/// The set of byte strings the names spell.
pub open spec fn names_bytes(names: Seq<String>) -> Set<Seq<u8>> {
    Set::new(
        |b: Seq<u8>|
            exists|i: int| 0 <= i < names.len() && #[trigger] name_bytes(names[i]) == b,
    )
}

/// `b` spells the name of a regular-file entry of the enumeration.
pub open spec fn is_file_entry(entries: Seq<(String, NodeType)>, b: Seq<u8>) -> bool {
    exists|j: int|
        0 <= j < entries.len() && (#[trigger] entries[j]).1 == NodeType::File && name_bytes(
            entries[j].0,
        ) == b
}

/// The set of byte strings spelling the regular-file entries of the
/// enumeration.
pub open spec fn file_entry_bytes(entries: Seq<(String, NodeType)>) -> Set<Seq<u8>> {
    Set::new(|b: Seq<u8>| is_file_entry(entries, b))
}

proof fn lemma_sorted_pair_lt(names: Seq<String>, i: int, j: int)
    requires
        names_strictly_sorted(names),
        0 <= i < j < names.len(),
    ensures
        bytes_lt(name_bytes(names[i]), name_bytes(names[j])),
    decreases j - i,
{
    if i + 1 < j {
        lemma_sorted_pair_lt(names, i, j - 1);
        lemma_bytes_lt_trans(name_bytes(names[i]), name_bytes(names[j - 1]), name_bytes(names[j]));
    }
}

/// Strictly sorted names are pairwise distinct, both as byte strings
/// and as strings: an ordered listing carries no duplicates.
pub proof fn lemma_sorted_names_unique(names: Seq<String>)
    requires
        names_strictly_sorted(names),
    ensures
        forall|i: int, j: int|
            0 <= i < j < names.len() ==> #[trigger] name_bytes(names[i]) != #[trigger] name_bytes(
                names[j],
            ),
        forall|i: int, j: int| 0 <= i < j < names.len() ==> names[i]@ != names[j]@,
{
    assert forall|i: int, j: int| 0 <= i < j < names.len() implies #[trigger] name_bytes(names[i])
        != #[trigger] name_bytes(names[j]) by {
        lemma_sorted_pair_lt(names, i, j);
        lemma_bytes_lt_ne(name_bytes(names[i]), name_bytes(names[j]));
    };
    assert forall|i: int, j: int| 0 <= i < j < names.len() implies names[i]@ != names[j]@ by {
        lemma_sorted_pair_lt(names, i, j);
        lemma_bytes_lt_ne(name_bytes(names[i]), name_bytes(names[j]));
    };
}

/// Where `name` belongs in the sorted names: the index of its first
/// occurrence, or of the first larger name, or the length. The flag
/// says whether the name is already there.
fn find_position(out: &Vec<String>, name: &String) -> (r: (usize, bool))
    requires
        names_strictly_sorted(out@),
    ensures
        r.0 <= out@.len(),
        forall|j: int| 0 <= j < r.0 ==> bytes_lt(#[trigger] name_bytes(out@[j]), name_bytes(*name)),
        r.1 ==> r.0 < out@.len() && name_bytes(out@[r.0 as int]) == name_bytes(*name),
        !r.1 && r.0 < out@.len() ==> bytes_lt(name_bytes(*name), name_bytes(out@[r.0 as int])),
{
    let nb = name.as_str().as_bytes();
    let mut i: usize = 0;
    while i < out.len()
        invariant
            i <= out@.len(),
            nb@ == name_bytes(*name),
            forall|j: int| 0 <= j < i ==> bytes_lt(#[trigger] name_bytes(out@[j]), name_bytes(*name)),
        decreases out@.len() - i,
    {
        let cb = out[i].as_str().as_bytes();
        proof {
            assert(cb@ == name_bytes(out@[i as int]));
        }
        match compare_bytes(cb, nb) {
            Order::Less => {
                i += 1;
            },
            Order::Equal => {
                return (i, true);
            },
            Order::Greater => {
                return (i, false);
            },
        }
    }
    (i, false)
}

/// Insert `name` into the sorted names, keeping them sorted and
/// dropping nothing: afterwards the names spell the old set of byte
/// strings plus the new name's.
fn insert_name(out: &mut Vec<String>, name: &String)
    requires
        names_strictly_sorted(old(out)@),
    ensures
        names_strictly_sorted(final(out)@),
        names_bytes(final(out)@) == names_bytes(old(out)@).insert(name_bytes(*name)),
{
    let ghost nb = name_bytes(*name);
    let (pos, present) = find_position(out, name);
    if present {
        proof {
            assert(names_bytes(out@).contains(nb));
            assert(names_bytes(out@).insert(nb) =~= names_bytes(out@));
        }
        return;
    }
    out.insert(pos, name.clone());
    proof {
        let pre = old(out)@;
        let post = out@;
        assert(post == pre.insert(pos as int, *name));
        assert forall|k: int| 0 <= k < post.len() implies name_bytes(post[k]) == (if k < pos {
            name_bytes(pre[k])
        } else if k == pos {
            nb
        } else {
            name_bytes(pre[k - 1])
        }) by {
            if k < pos {
                assert(post[k] == pre[k]);
            } else if k == pos {
                assert(post[k] == *name);
            } else {
                assert(post[k] == pre[k - 1]);
            }
        };
        assert forall|k: int| 0 <= k && k + 1 < post.len() implies bytes_lt(
            #[trigger] name_bytes(post[k]),
            name_bytes(post[k + 1]),
        ) by {
            if k + 1 < pos {
            } else if k + 1 == pos {
            } else if k == pos {
            } else {
            }
        };
        assert(names_bytes(post) =~= names_bytes(pre).insert(nb)) by {
            assert forall|b: Seq<u8>| names_bytes(post).contains(b) implies names_bytes(
                pre,
            ).insert(nb).contains(b) by {
                let i = choose|i: int| 0 <= i < post.len() && #[trigger] name_bytes(post[i]) == b;
                if i < pos {
                    assert(name_bytes(pre[i]) == b);
                } else if i > pos {
                    assert(name_bytes(pre[i - 1]) == b);
                }
            };
            assert forall|b: Seq<u8>| names_bytes(pre).insert(nb).contains(b) implies names_bytes(
                post,
            ).contains(b) by {
                if b == nb {
                    assert(name_bytes(post[pos as int]) == b);
                } else {
                    let i = choose|i: int| 0 <= i < pre.len() && #[trigger] name_bytes(pre[i]) == b;
                    if i < pos {
                        assert(name_bytes(post[i]) == b);
                    } else {
                        assert(name_bytes(post[i + 1]) == b);
                    }
                }
            };
        };
    }
}

/// Select the names of the regular-file entries from a directory
/// enumeration: the result is strictly sorted, repeats nothing, and
/// spells exactly the byte strings of the entries whose type is a
/// regular file.
pub fn select_bool_names(entries: &Vec<(String, NodeType)>) -> (r: Vec<String>)
    ensures
        names_strictly_sorted(r@),
        names_bytes(r@) == file_entry_bytes(entries@),
{
    let mut out: Vec<String> = Vec::new();
    proof {
        assert(names_bytes(out@) =~= file_entry_bytes(entries@.take(0)));
    }
    let mut e: usize = 0;
    while e < entries.len()
        invariant
            e <= entries@.len(),
            names_strictly_sorted(out@),
            names_bytes(out@) == file_entry_bytes(entries@.take(e as int)),
        decreases entries@.len() - e,
    {
        let ghost pre_set = names_bytes(out@);
        let is_file = entries[e].1 == NodeType::File;
        if is_file {
            insert_name(&mut out, &entries[e].0);
        }
        proof {
            let prev = entries@.take(e as int);
            let next = entries@.take(e as int + 1);
            assert(next.len() == e + 1);
            assert forall|j: int| 0 <= j < next.len() implies next[j] == entries@[j] by {};
            if entries@[e as int].1 == NodeType::File {
                let enb = name_bytes(entries@[e as int].0);
                assert(file_entry_bytes(next) =~= file_entry_bytes(prev).insert(enb)) by {
                    assert forall|b: Seq<u8>| file_entry_bytes(next).contains(b)
                        implies file_entry_bytes(prev).insert(enb).contains(b) by {
                        let j = choose|j: int|
                            0 <= j < next.len() && (#[trigger] next[j]).1 == NodeType::File
                                && name_bytes(next[j].0) == b;
                        if j < e {
                            assert(prev[j] == entries@[j]);
                            assert(is_file_entry(prev, b));
                        } else {
                            assert(b == enb);
                        }
                    };
                    assert forall|b: Seq<u8>| file_entry_bytes(prev).insert(enb).contains(b)
                        implies file_entry_bytes(next).contains(b) by {
                        if b == enb {
                            assert((next[e as int]).1 == NodeType::File && name_bytes(
                                next[e as int].0,
                            ) == b);
                        } else {
                            let j = choose|j: int|
                                0 <= j < prev.len() && (#[trigger] prev[j]).1 == NodeType::File
                                    && name_bytes(prev[j].0) == b;
                            assert((next[j]).1 == NodeType::File && name_bytes(next[j].0) == b);
                        }
                    };
                };
            } else {
                assert(file_entry_bytes(next) =~= file_entry_bytes(prev)) by {
                    assert forall|b: Seq<u8>| file_entry_bytes(next).contains(b)
                        implies file_entry_bytes(prev).contains(b) by {
                        let j = choose|j: int|
                            0 <= j < next.len() && (#[trigger] next[j]).1 == NodeType::File
                                && name_bytes(next[j].0) == b;
                        assert(j < e);
                        assert(prev[j] == entries@[j]);
                        assert(is_file_entry(prev, b));
                    };
                    assert forall|b: Seq<u8>| file_entry_bytes(prev).contains(b)
                        implies file_entry_bytes(next).contains(b) by {
                        let j = choose|j: int|
                            0 <= j < prev.len() && (#[trigger] prev[j]).1 == NodeType::File
                                && name_bytes(prev[j].0) == b;
                        assert((next[j]).1 == NodeType::File && name_bytes(next[j].0) == b);
                    };
                };
            }
        }
        e += 1;
    }
    proof {
        assert(entries@.take(entries@.len() as int) =~= entries@);
    }
    out
}

} // verus!

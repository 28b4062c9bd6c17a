//! The open descriptors of a process: each entry of its descriptor
//! directory is named by the descriptor's number and links to what the
//! descriptor refers to.

use vstd::prelude::*;
use std::collections::HashMap;
use crate::text::{chars_of, number_at, read_number};

verus! {

#[derive(PartialEq, Eq, Structural, Clone, Copy, Debug)]
pub enum FDType {
    SOCKET,
    FILE,
    OTHER,
}

pub type FDList = HashMap<u32, FDType>;

pub open spec fn u32_max() -> nat {
    0xffff_ffff
}

/// The descriptor number that a directory entry's name spells: decimal
/// digits only, the value fitting in `u32`.
pub open spec fn fd_number_of(name: Seq<char>) -> Option<u32> {
    match number_at(name, 0, u32_max()) {
        Some((v, e)) => if e == name.len() {
            Some(v as u32)
        } else {
            None
        },
        None => None,
    }
}

pub fn fd_number(name: &str) -> (r: Option<u32>)
    ensures
        r == fd_number_of(name@),
{
    let s = chars_of(name);
    proof {
        crate::text::lemma_number_at_bounds(s@, 0, u32_max());
    }
    match read_number(&s, 0, 0xffff_ffff) {
        Some((v, e)) => if e == s.len() {
            Some(v as u32)
        } else {
            None
        },
        None => None,
    }
}

/// What a descriptor's link target says it is: `socket:[inode]` for a
/// socket, an absolute path for a file, anything else otherwise.
pub open spec fn fd_kind_of(target: Seq<char>) -> FDType {
    if target.len() >= 7 && target.subrange(0, 7) == "socket:"@ {
        FDType::SOCKET
    } else if target.len() > 0 && target[0] == '/' {
        FDType::FILE
    } else {
        FDType::OTHER
    }
}

pub fn fd_kind(target: &str) -> (r: FDType)
    ensures
        r == fd_kind_of(target@),
{
    let n = target.unicode_len();
    if n >= 7 && crate::text::same_text(target.substring_char(0, 7), "socket:") {
        FDType::SOCKET
    } else if n > 0 && target.get_char(0) == '/' {
        FDType::FILE
    } else {
        FDType::OTHER
    }
}

/// The descriptor list from a directory's entries, each a name and a link
/// target; an entry whose name is no descriptor number is left out, and a
/// later entry with the same number replaces an earlier one.
pub open spec fn fd_list_of(entries: Seq<(Seq<char>, Seq<char>)>) -> Map<u32, FDType>
    decreases entries.len(),
{
    if entries.len() == 0 {
        Map::empty()
    } else {
        let rest = fd_list_of(entries.drop_last());
        match fd_number_of(entries.last().0) {
            Some(n) => rest.insert(n, fd_kind_of(entries.last().1)),
            None => rest,
        }
    }
}

pub open spec fn entries_view(entries: Seq<(String, String)>) -> Seq<(Seq<char>, Seq<char>)> {
    entries.map_values(|e: (String, String)| (e.0@, e.1@))
}

pub fn fd_list(entries: &Vec<(String, String)>) -> (r: FDList)
    ensures
        r@ == fd_list_of(entries_view(entries@)),
{
    broadcast use vstd::std_specs::hash::group_hash_axioms;

    let mut r: FDList = HashMap::new();
    let ghost es = entries_view(entries@);
    let mut i: usize = 0;
    while i < entries.len()
        invariant
            i <= entries@.len(),
            es == entries_view(entries@),
            es.len() == entries@.len(),
            r@ == fd_list_of(es.subrange(0, i as int)),
        decreases entries@.len() - i,
    {
        let (name, target) = &entries[i];
        proof {
            assert(es.subrange(0, i + 1).drop_last() =~= es.subrange(0, i as int));
            assert(es[i as int] == (name@, target@));
        }
        match fd_number(name.as_str()) {
            Some(n) => {
                r.insert(n, fd_kind(target.as_str()));
            },
            None => {},
        }
        i = i + 1;
    }
    assert(es.subrange(0, i as int) =~= es);
    r
}

} // verus!

//! 7z archives as read by whoever opened them: what they list and what their
//! members hold.

use vstd::prelude::*;
use crate::archive::{entry_row, entry_rows, ArchiveEntry, EntryRow};
use crate::classifier::rom_ext;
use crate::paths::extension;
use crate::text::{chars_of, lower_chars, string_of};

verus! {

/// The stage at which reading a 7z archive failed.
#[derive(Clone, Copy, Debug, PartialEq, Eq, Structural)]
pub enum SevenZFailure {
    /// The file is no 7z archive that can be read.
    Open,
    /// The archive has no member of that name.
    Missing,
    /// The members could not be decompressed.
    Read,
}

/// What was read of a 7z archive: for each member its name, its size and whether
/// it is a directory, in the order of the archive's header; and the name and the
/// bytes of each member in the order of decompression, or why they could not be
/// had.
#[derive(Debug)]
pub struct SevenZipRead {
    pub listing: Vec<(String, u64, bool)>,
    pub contents: Result<Vec<(String, Vec<u8>)>, SevenZFailure>,
}

/// What was read of a 7z archive, as a mathematical value.
pub struct SevenZipModel {
    pub listing: Seq<(Seq<char>, u64, bool)>,
    pub contents: Result<Seq<(Seq<char>, Seq<u8>)>, SevenZFailure>,
}

/// The members of a listing as mathematical values.
pub open spec fn member_rows(v: Seq<(String, u64, bool)>) -> Seq<(Seq<char>, u64, bool)> {
    v.map_values(|m: (String, u64, bool)| (m.0@, m.1, m.2))
}

/// Names and bytes as mathematical values.
pub open spec fn named_bytes(v: Seq<(String, Vec<u8>)>) -> Seq<(Seq<char>, Seq<u8>)> {
    v.map_values(|p: (String, Vec<u8>)| (p.0@, p.1@))
}

impl View for SevenZipRead {
    type V = SevenZipModel;

    open spec fn view(&self) -> SevenZipModel {
        SevenZipModel {
            listing: member_rows(self.listing@),
            contents: match self.contents {
                Ok(c) => Ok(named_bytes(c@)),
                Err(e) => Err(e),
            },
        }
    }
}

/// The entries of the members of a listing, directories left out.
pub open spec fn listed_rows(listing: Seq<(Seq<char>, u64, bool)>) -> Seq<EntryRow>
    decreases listing.len(),
{
    if listing.len() == 0 {
        Seq::empty()
    } else if listing.last().2 {
        listed_rows(listing.drop_last())
    } else {
        listed_rows(listing.drop_last()).push(entry_row(listing.last().0, listing.last().1))
    }
}

/// The bytes of the first member with the name `name`.
pub open spec fn first_named(contents: Seq<(Seq<char>, Seq<u8>)>, name: Seq<char>) -> Option<
    Seq<u8>,
>
    decreases contents.len(),
{
    if contents.len() == 0 {
        None
    } else {
        match first_named(contents.drop_last(), name) {
            Some(b) => Some(b),
            None => if contents.last().0 == name {
                Some(contents.last().1)
            } else {
                None
            },
        }
    }
}

/// The bytes of the member `name`: those of the first member with that name, in
/// the order of decompression; the failure of the decompression, or that no
/// member has the name.
pub open spec fn member_bytes(
    contents: Result<Seq<(Seq<char>, Seq<u8>)>, SevenZFailure>,
    name: Seq<char>,
) -> Result<Seq<u8>, SevenZFailure> {
    match contents {
        Err(e) => Err(e),
        Ok(c) => match first_named(c, name) {
            Some(b) => Ok(b),
            None => Err(SevenZFailure::Missing),
        },
    }
}

/// A member found among the first `n` is the first in the whole list.
pub proof fn lemma_first_named_stays(contents: Seq<(Seq<char>, Seq<u8>)>, name: Seq<char>, n: int)
    requires
        0 <= n <= contents.len(),
        first_named(contents.take(n), name) is Some,
    ensures
        first_named(contents, name) == first_named(contents.take(n), name),
    decreases contents.len() - n,
{
    if n < contents.len() {
        assert(contents.take(n + 1).drop_last() == contents.take(n));
        lemma_first_named_stays(contents, name, n + 1);
    } else {
        assert(contents.take(n) == contents);
    }
}

/// The entries of the members of a listing that are no directories.
pub fn sevenz_entries(listing: &Vec<(String, u64, bool)>) -> (r: Vec<ArchiveEntry>)
    ensures
        entry_rows(r@) == listed_rows(member_rows(listing@)),
{
    let mut out: Vec<ArchiveEntry> = Vec::new();
    let mut i: usize = 0;
    let ghost all = member_rows(listing@);
    assert(all.take(0) =~= Seq::<(Seq<char>, u64, bool)>::empty());
    assert(entry_rows(out@) =~= Seq::<EntryRow>::empty());
    while i < listing.len()
        invariant
            i <= listing.len(),
            all == member_rows(listing@),
            entry_rows(out@) == listed_rows(all.take(i as int)),
        decreases listing.len() - i,
    {
        let ghost before = entry_rows(out@);
        assert(all.take(i + 1).drop_last() == all.take(i as int));
        assert(all.take(i + 1).last() == (listing@[i as int].0@, listing@[i as int].1, listing@[i as int].2));
        if !listing[i].2 {
            let name = chars_of(listing[i].0.as_str());
            let ext = lower_chars(extension(name.as_slice()).as_slice());
            let is_rom = rom_ext(ext.as_slice());
            let entry = ArchiveEntry {
                name: listing[i].0.clone(),
                size: listing[i].1,
                is_rom: is_rom,
                extension: string_of(ext.as_slice()),
            };
            out.push(entry);
            assert(entry_rows(out@) =~= before.push(entry@));
        }
        i += 1;
    }
    assert(all.take(all.len() as int) == all);
    out
}

/// A copy of bytes.
pub fn copy_bytes(bytes: &[u8]) -> (r: Vec<u8>)
    ensures
        r@ == bytes@,
{
    let mut r: Vec<u8> = Vec::new();
    let mut i: usize = 0;
    while i < bytes.len()
        invariant
            i <= bytes.len(),
            r@ == bytes@.take(i as int),
        decreases bytes.len() - i,
    {
        r.push(bytes[i]);
        assert(bytes@.take(i + 1) =~= bytes@.take(i as int).push(bytes@[i as int]));
        i += 1;
    }
    assert(bytes@.take(bytes@.len() as int) == bytes@);
    r
}

/// The bytes of the first of `contents` with the name `name`.
pub fn pick_named(contents: &Vec<(String, Vec<u8>)>, name: &str) -> (r: Option<Vec<u8>>)
    ensures
        match r {
            Some(b) => first_named(named_bytes(contents@), name@) == Some(b@),
            None => first_named(named_bytes(contents@), name@) is None,
        },
{
    let ghost all = named_bytes(contents@);
    let wanted = name.to_owned();
    let mut i: usize = 0;
    assert(all.take(0) =~= Seq::<(Seq<char>, Seq<u8>)>::empty());
    while i < contents.len()
        invariant
            i <= contents.len(),
            all == named_bytes(contents@),
            wanted@ == name@,
            first_named(all.take(i as int), name@) is None,
        decreases contents.len() - i,
    {
        assert(all.take(i + 1).drop_last() == all.take(i as int));
        assert(all.take(i + 1).last() == (contents@[i as int].0@, contents@[i as int].1@));
        if contents[i].0 == wanted {
            proof {
                assert(first_named(all.take(i + 1), name@) == Some(contents@[i as int].1@));
                lemma_first_named_stays(all, name@, i as int + 1);
            }
            return Some(copy_bytes(contents[i].1.as_slice()));
        }
        i += 1;
    }
    assert(all.take(all.len() as int) == all);
    None
}

/// The bytes of the member `name` of the archive whose members were read as
/// `contents`.
pub fn sevenz_extract(contents: &Result<Vec<(String, Vec<u8>)>, SevenZFailure>, name: &str) -> (r:
    Result<Vec<u8>, SevenZFailure>)
    ensures
        (match r {
            Ok(b) => Ok::<Seq<u8>, SevenZFailure>(b@),
            Err(e) => Err::<Seq<u8>, SevenZFailure>(e),
        }) == member_bytes(
            match *contents {
                Ok(c) => Ok(named_bytes(c@)),
                Err(e) => Err(e),
            },
            name@,
        ),
{
    match contents {
        Err(e) => Err(*e),
        Ok(c) => match pick_named(c, name) {
            Some(b) => Ok(b),
            None => Err(SevenZFailure::Missing),
        },
    }
}

} // verus!

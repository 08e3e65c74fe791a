//! Installed packages and the names that stand for debug builds.

use crate::text::{
    ascii_lowercase, has_suffix, lines, split_line, split_word, to_ascii_lowercase, to_chars,
    to_text, words,
};
use vstd::prelude::*;

verus! {

/// One installed package, as the local package database records it.
#[derive(Debug, Clone, PartialEq, Eq)]
pub struct PackageRecord {
    pub name: String,
    pub installed_version: String,
}

/// A [`PackageRecord`] with its strings as sequences of characters.
pub struct Record {
    pub name: Seq<char>,
    pub installed_version: Seq<char>,
}

impl View for PackageRecord {
    type V = Record;

    open spec fn view(&self) -> Record {
        Record { name: self.name@, installed_version: self.installed_version@ }
    }
}

/// The packages of `list`, each as its view.
pub open spec fn records(list: Seq<PackageRecord>) -> Seq<Record> {
    list.map_values(|pkg: PackageRecord| pkg@)
}

/// Whether `name` is the name of a package of debug symbols: it ends with
/// `-debug`, `-dbg`, `-dbgsym` or `-debuginfo`, in whatever case the letters
/// are.
pub open spec fn is_debug_name(name: Seq<char>) -> bool {
    let n = ascii_lowercase(name);
    ||| "-debug"@.is_suffix_of(n)
    ||| "-dbg"@.is_suffix_of(n)
    ||| "-dbgsym"@.is_suffix_of(n)
    ||| "-debuginfo"@.is_suffix_of(n)
}

/// Whether `name` is the name of a package of debug symbols, which is never
/// updated on its own.
pub fn is_debug_package(name: &str) -> (r: bool)
    ensures
        r == is_debug_name(name@),
{
    let chars = to_chars(name);
    let n = to_ascii_lowercase(chars.as_slice());
    let n = n.as_slice();
    has_suffix(n, to_chars("-debug").as_slice()) || has_suffix(n, to_chars("-dbg").as_slice())
        || has_suffix(n, to_chars("-dbgsym").as_slice()) || has_suffix(
        n,
        to_chars("-debuginfo").as_slice(),
    )
}

/// The package that a line of the inventory records: its first word is the
/// name, its second the installed version. A line of fewer words records
/// none.
pub open spec fn record_of(line: Seq<char>) -> Option<Record> {
    let w = words(line);
    if w.len() >= 2 {
        Some(Record { name: w[0], installed_version: w[1] })
    } else {
        None
    }
}

/// The packages that the lines `ls` of an inventory record, in order.
pub open spec fn inventory_of(ls: Seq<Seq<char>>) -> Seq<Record>
    decreases ls.len(),
{
    if ls.len() == 0 {
        Seq::empty()
    } else {
        match record_of(ls.first()) {
            Some(record) => seq![record] + inventory_of(ls.drop_first()),
            None => inventory_of(ls.drop_first()),
        }
    }
}

/// With one more line at its end, an inventory records what the lines before
/// record, and then what the line records.
pub proof fn lemma_inventory_push(ls: Seq<Seq<char>>, line: Seq<char>)
    ensures
        inventory_of(ls.push(line)) == match record_of(line) {
            Some(record) => inventory_of(ls).push(record),
            None => inventory_of(ls),
        },
    decreases ls.len(),
{
    let all = ls.push(line);
    if ls.len() == 0 {
        assert(all.drop_first() =~= ls);
        assert(inventory_of(all.drop_first()) =~= Seq::<Record>::empty());
        match record_of(line) {
            Some(record) => {
                assert(inventory_of(all) =~= inventory_of(ls).push(record));
            },
            None => {},
        }
    } else {
        assert(all.first() == ls.first());
        assert(all.drop_first() =~= ls.drop_first().push(line));
        lemma_inventory_push(ls.drop_first(), line);
        match record_of(line) {
            Some(record) => {
                match record_of(ls.first()) {
                    Some(first) => {
                        assert(inventory_of(all) =~= inventory_of(ls).push(record));
                    },
                    None => {},
                }
            },
            None => {},
        }
    }
}

/// Computes [`record_of`].
fn record_in(line: &[char]) -> (r: Option<PackageRecord>)
    ensures
        match r {
            Some(record) => record_of(line@) == Some(record@),
            None => record_of(line@) is None,
        },
{
    match split_word(line) {
        None => None,
        Some((name, rest)) => match split_word(rest) {
            None => None,
            Some((version, _)) => Some(
                PackageRecord { name: to_text(name), installed_version: to_text(version) },
            ),
        },
    }
}

/// Reads the inventory of installed packages off `listing`, the output of the
/// package manager: one package on a line, its name and its version parted by
/// white space. What follows the version on a line does not count, and a line
/// with fewer than two words is passed over.
pub fn parse_installed(listing: &str) -> (r: Vec<PackageRecord>)
    ensures
        records(r@) == inventory_of(lines(listing@)),
{
    let chars = to_chars(listing);
    let mut rest: &[char] = chars.as_slice();
    let mut found: Vec<PackageRecord> = Vec::new();
    let ghost mut done: Seq<Seq<char>> = Seq::empty();
    assert(records(found@) =~= inventory_of(done));
    assert(done + lines(rest@) =~= lines(listing@));
    while rest.len() > 0
        invariant
            done + lines(rest@) == lines(listing@),
            records(found@) == inventory_of(done),
        decreases rest@.len(),
    {
        let (line, tail) = split_line(rest);
        let ghost before = found@;
        proof {
            lemma_inventory_push(done, line@);
            crate::text::lemma_line_len(rest@);
        }
        match record_in(line) {
            Some(record) => {
                found.push(record);
                assert(records(found@) =~= records(before).push(record@));
            },
            None => {},
        }
        proof {
            assert(done.push(line@) + lines(tail@) =~= done + lines(rest@));
            done = done.push(line@);
        }
        rest = tail;
    }
    assert(done =~= lines(listing@));
    found
}

} // verus!

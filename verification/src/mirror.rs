//! The mirror of the package repository, which holds one branch for each
//! package.

use crate::order::{in_order, sort_names};
use crate::text::{
    contains_text, has_prefix, has_text, lines, split_line, split_word, strings, to_chars, to_text,
    words,
};
use vstd::prelude::*;
use vstd::slice::slice_subrange;

verus! {

/// Whether the mirror, whose branches are `list`, has the package `pkg`.
pub fn github_package_exists(pkg: &str, list: &[String]) -> (r: bool)
    ensures
        r == strings(list@).contains(pkg@),
{
    let wanted = pkg.to_owned();
    let mut i: usize = 0;
    while i < list.len()
        invariant
            i <= list.len(),
            wanted@ == pkg@,
            forall|k: int| 0 <= k < i ==> strings(list@)[k] != pkg@,
        decreases list.len() - i,
    {
        if list[i] == wanted {
            assert(strings(list@)[i as int] == pkg@);
            return true;
        }
        i += 1;
    }
    false
}

/// `s` without `prefix` at its start; `s` as it is where it does not begin
/// with `prefix`.
pub open spec fn strip_prefix(s: Seq<char>, prefix: Seq<char>) -> Seq<char> {
    if prefix.is_prefix_of(s) {
        s.skip(prefix.len() as int)
    } else {
        s
    }
}

/// The branch that a line of the list of remote heads names: its second word,
/// without `refs/heads/` in front. A line of fewer words names none.
pub open spec fn branch_of(line: Seq<char>) -> Option<Seq<char>> {
    let w = words(line);
    if w.len() >= 2 {
        Some(strip_prefix(w[1], "refs/heads/"@))
    } else {
        None
    }
}

/// The branches that the lines `ls` of a list of remote heads name, in order.
pub open spec fn branches_of(ls: Seq<Seq<char>>) -> Seq<Seq<char>>
    decreases ls.len(),
{
    if ls.len() == 0 {
        Seq::empty()
    } else {
        match branch_of(ls.first()) {
            Some(branch) => seq![branch] + branches_of(ls.drop_first()),
            None => branches_of(ls.drop_first()),
        }
    }
}

/// With one more line at its end, a list names the branches that the lines
/// before name, and then the one that the line names.
pub proof fn lemma_branches_push(ls: Seq<Seq<char>>, line: Seq<char>)
    ensures
        branches_of(ls.push(line)) == match branch_of(line) {
            Some(branch) => branches_of(ls).push(branch),
            None => branches_of(ls),
        },
    decreases ls.len(),
{
    let all = ls.push(line);
    if ls.len() == 0 {
        assert(all.drop_first() =~= ls);
        assert(branches_of(all.drop_first()) =~= Seq::<Seq<char>>::empty());
        match branch_of(line) {
            Some(branch) => {
                assert(branches_of(all) =~= branches_of(ls).push(branch));
            },
            None => {},
        }
    } else {
        assert(all.first() == ls.first());
        assert(all.drop_first() =~= ls.drop_first().push(line));
        lemma_branches_push(ls.drop_first(), line);
        match branch_of(line) {
            Some(branch) => {
                match branch_of(ls.first()) {
                    Some(first) => {
                        assert(branches_of(all) =~= branches_of(ls).push(branch));
                    },
                    None => {},
                }
            },
            None => {},
        }
    }
}

/// Computes [`branch_of`].
fn branch_in(line: &[char], heads: &[char]) -> (r: Option<String>)
    requires
        heads@ == "refs/heads/"@,
    ensures
        match r {
            Some(branch) => branch_of(line@) == Some(branch@),
            None => branch_of(line@) is None,
        },
{
    match split_word(line) {
        None => None,
        Some((_, rest)) => match split_word(rest) {
            None => None,
            Some((head, _)) => {
                if has_prefix(head, heads) {
                    let branch = slice_subrange(head, heads.len(), head.len());
                    assert(branch@ == head@.skip(heads@.len() as int));
                    Some(to_text(branch))
                } else {
                    Some(to_text(head))
                }
            },
        },
    }
}

/// Reads the packages of the mirror off `listing`, the list of its remote
/// heads: on each line an object name and a reference, parted by white space.
/// The package is the reference without `refs/heads/` in front. A line with
/// fewer than two words is passed over.
pub fn parse_branches(listing: &str) -> (r: Vec<String>)
    ensures
        strings(r@) == branches_of(lines(listing@)),
{
    let chars = to_chars(listing);
    let heads = to_chars("refs/heads/");
    let mut rest: &[char] = chars.as_slice();
    let mut found: Vec<String> = Vec::new();
    let ghost mut done: Seq<Seq<char>> = Seq::empty();
    assert(strings(found@) =~= branches_of(done));
    assert(done + lines(rest@) =~= lines(listing@));
    while rest.len() > 0
        invariant
            heads@ == "refs/heads/"@,
            done + lines(rest@) == lines(listing@),
            strings(found@) == branches_of(done),
        decreases rest@.len(),
    {
        let (line, tail) = split_line(rest);
        let ghost before = found@;
        proof {
            lemma_branches_push(done, line@);
            crate::text::lemma_line_len(rest@);
        }
        match branch_in(line, heads.as_slice()) {
            Some(branch) => {
                found.push(branch);
                assert(strings(found@) =~= strings(before).push(branch@));
            },
            None => {},
        }
        proof {
            assert(done.push(line@) + lines(tail@) =~= done + lines(rest@));
            done = done.push(line@);
        }
        rest = tail;
    }
    assert(done =~= lines(listing@));
    found
}

/// The test that a search for `term` puts a name to: whether `term` stands in
/// it.
pub open spec fn holds_term(term: Seq<char>) -> spec_fn(Seq<char>) -> bool {
    |name: Seq<char>| contains_text(name, term)
}

/// The names among `branches` that hold `term`, in their order.
pub open spec fn matching(branches: Seq<Seq<char>>, term: Seq<char>) -> Seq<Seq<char>> {
    branches.filter(holds_term(term))
}

/// The branches that hold `term`, in the order of `branches`.
pub fn matching_branches(branches: &[String], term: &str) -> (r: Vec<String>)
    ensures
        strings(r@) == matching(strings(branches@), term@),
{
    let wanted = to_chars(term);
    let mut found: Vec<String> = Vec::new();
    let mut i: usize = 0;
    assert(strings(branches@).take(0) =~= Seq::<Seq<char>>::empty());
    assert(strings(found@) =~= Seq::<Seq<char>>::empty().filter(holds_term(term@))) by {
        reveal(Seq::filter);
    }
    while i < branches.len()
        invariant
            i <= branches.len(),
            wanted@ == term@,
            strings(found@) == matching(strings(branches@).take(i as int), term@),
        decreases branches.len() - i,
    {
        let name = to_chars(branches[i].as_str());
        let ghost before = found@;
        proof {
            let done = strings(branches@).take(i as int);
            assert(strings(branches@).take(i + 1) =~= done.push(branches@[i as int]@));
            done.lemma_filter_push(branches@[i as int]@, holds_term(term@));
        }
        if has_text(name.as_slice(), wanted.as_slice()) {
            found.push(branches[i].clone());
            assert(strings(found@) =~= strings(before).push(branches@[i as int]@));
        }
        i += 1;
    }
    assert(strings(branches@).take(branches@.len() as int) =~= strings(branches@));
    found
}

/// Searches the mirror, whose branches are `branches`, for `term`: the
/// branches that hold it, in the order of texts.
pub fn search_branches(branches: &[String], term: &str) -> (r: Vec<String>)
    ensures
        in_order(strings(r@)),
        strings(r@).to_multiset() == matching(strings(branches@), term@).to_multiset(),
{
    let found = matching_branches(branches, term);
    sort_names(found.as_slice())
}

} // verus!

//! Reading the version of a package off the text of its build recipe.
//!
//! A recipe is shell-like text. Two of its lines matter here: the assignment to
//! `pkgver` and the assignment to `pkgrel`. A value that the shell would have
//! to compute (one that holds `$` or `(`) makes the whole recipe unreadable:
//! a guessed version must never pass for the real one.

use crate::resolution::{Resolution, VersionResolution};
use crate::text::{
    has_char, has_prefix, lines, push_chars, split_line, to_chars, to_text, trim, trimmed,
};
use vstd::prelude::*;
use vstd::slice::slice_subrange;

verus! {

/// The key whose value is the upstream version.
pub open spec fn version_key() -> Seq<char> {
    "pkgver"@
}

/// The key whose value is the release of the package.
pub open spec fn release_key() -> Seq<char> {
    "pkgrel"@
}

/// Whether the trimmed line `l` is a comment.
pub open spec fn is_comment(l: Seq<char>) -> bool {
    l.len() > 0 && l.first() == '#'
}

/// Whether `c` is one of the two quote characters.
pub open spec fn is_quote(c: char) -> bool {
    c == '\'' || c == '"'
}

/// `value` without the pair of quotes around it: they are taken off when the
/// value begins and ends with the same quote character, and these are two
/// characters, not one.
pub open spec fn unquote(value: Seq<char>) -> Seq<char> {
    if value.len() >= 2 && is_quote(value.first()) && value.last() == value.first() {
        value.subrange(1, value.len() - 1)
    } else {
        value
    }
}

/// Whether `value` is plain text, which the shell would not have to compute.
pub open spec fn is_literal(value: Seq<char>) -> bool {
    !value.contains('$') && !value.contains('(')
}

/// The value that the trimmed line `l` assigns to `key`, if it is an
/// assignment to it: the line is no comment and begins with the key and `=`,
/// with nothing between them, and the value is all that follows, unquoted.
pub open spec fn keyed_value(l: Seq<char>, key: Seq<char>) -> Option<Seq<char>> {
    if !is_comment(l) && (key + seq!['=']).is_prefix_of(l) {
        Some(unquote(l.skip(key.len() as int + 1)))
    } else {
        None
    }
}

/// The value that `line` assigns to `key`, if it is an assignment to it. The
/// white space around the line does not count.
pub open spec fn assigned(line: Seq<char>, key: Seq<char>) -> Option<Seq<char>> {
    keyed_value(trim(line), key)
}

/// Whether `line` assigns a computed value to one of the two keys.
pub open spec fn is_dynamic(line: Seq<char>) -> bool {
    ||| assigned(line, version_key()) matches Some(v) && !is_literal(v)
    ||| assigned(line, release_key()) matches Some(v) && !is_literal(v)
}

/// The index of the first of `ls` that assigns to `key`; `ls.len()` when none
/// does.
pub open spec fn first_assignment(ls: Seq<Seq<char>>, key: Seq<char>) -> nat
    decreases ls.len(),
{
    if ls.len() == 0 || assigned(ls.first(), key) is Some {
        0
    } else {
        1 + first_assignment(ls.drop_first(), key)
    }
}

/// The value of the last of `ls` that assigns to `key`.
pub open spec fn last_assigned(ls: Seq<Seq<char>>, key: Seq<char>) -> Option<Seq<char>>
    decreases ls.len(),
{
    if ls.len() == 0 {
        None
    } else if assigned(ls.last(), key) is Some {
        assigned(ls.last(), key)
    } else {
        last_assigned(ls.drop_last(), key)
    }
}

/// How many of the lines `ls` are read: those up to the first line by which
/// both keys have been assigned, that line included; all of them when one of
/// the keys is never assigned.
pub open spec fn lines_read(ls: Seq<Seq<char>>) -> nat {
    let v = first_assignment(ls, version_key());
    let r = first_assignment(ls, release_key());
    if v < ls.len() && r < ls.len() {
        if v < r {
            r + 1
        } else {
            v + 1
        }
    } else {
        ls.len()
    }
}

/// What a version and a release, as far as they were found, resolve to.
pub open spec fn conclude(version: Option<Seq<char>>, release: Option<Seq<char>>) -> Resolution {
    match (version, release) {
        (Some(v), Some(r)) => Resolution::Found(v + seq!['-'] + r),
        (Some(v), None) => Resolution::Found(v),
        _ => Resolution::NotFound,
    }
}

/// What the lines `ls` of a recipe resolve to. Of the lines read, one computed
/// value makes the recipe unparseable; otherwise the last value given to each
/// key counts.
pub open spec fn resolve_lines(ls: Seq<Seq<char>>) -> Resolution {
    let read = ls.take(lines_read(ls) as int);
    if exists|k: int| 0 <= k < read.len() && is_dynamic(#[trigger] read[k]) {
        Resolution::Unparseable
    } else {
        conclude(last_assigned(read, version_key()), last_assigned(read, release_key()))
    }
}

/// What the recipe `text` resolves to.
pub open spec fn parse_spec(text: Seq<char>) -> Resolution {
    resolve_lines(lines(text))
}

/// The later of two values of a key: `new` where there is one, else `old`.
spec fn newer(new: Option<Seq<char>>, old: Option<Seq<char>>) -> Option<Seq<char>> {
    if new is Some {
        new
    } else {
        old
    }
}

/// The scan of the lines `ls`, one by one, with the values found so far.
spec fn scan(
    ls: Seq<Seq<char>>,
    version: Option<Seq<char>>,
    release: Option<Seq<char>>,
) -> Resolution
    decreases ls.len(),
{
    if (version is Some && release is Some) || ls.len() == 0 {
        conclude(version, release)
    } else if is_dynamic(ls.first()) {
        Resolution::Unparseable
    } else {
        scan(
            ls.drop_first(),
            newer(assigned(ls.first(), version_key()), version),
            newer(assigned(ls.first(), release_key()), release),
        )
    }
}

/// How many lines a scan still needs until `key` has a value.
spec fn lines_needed(ls: Seq<Seq<char>>, key: Seq<char>, found: Option<Seq<char>>) -> nat {
    if found is Some {
        0
    } else {
        first_assignment(ls, key) + 1
    }
}

/// How many of the lines `ls` a scan reads that starts with the values found so
/// far.
spec fn lines_read_from(
    ls: Seq<Seq<char>>,
    version: Option<Seq<char>>,
    release: Option<Seq<char>>,
) -> nat {
    let v = lines_needed(ls, version_key(), version);
    let r = lines_needed(ls, release_key(), release);
    if v <= ls.len() && r <= ls.len() {
        if v < r {
            r
        } else {
            v
        }
    } else {
        ls.len()
    }
}

/// Whether one of `ls` assigns a computed value.
spec fn any_dynamic(ls: Seq<Seq<char>>) -> bool {
    exists|k: int| 0 <= k < ls.len() && is_dynamic(#[trigger] ls[k])
}

/// What a scan resolves to that starts with the values found so far.
spec fn resolve_from(
    ls: Seq<Seq<char>>,
    version: Option<Seq<char>>,
    release: Option<Seq<char>>,
) -> Resolution {
    let read = ls.take(lines_read_from(ls, version, release) as int);
    if any_dynamic(read) {
        Resolution::Unparseable
    } else {
        conclude(
            newer(last_assigned(read, version_key()), version),
            newer(last_assigned(read, release_key()), release),
        )
    }
}

/// With one line put in front, the last value of a key is the one among the
/// others, if there is one, else the one of that line.
proof fn lemma_last_assigned_prepend(l: Seq<char>, xs: Seq<Seq<char>>, key: Seq<char>)
    ensures
        last_assigned(seq![l] + xs, key) == newer(last_assigned(xs, key), assigned(l, key)),
    decreases xs.len(),
{
    let all = seq![l] + xs;
    if xs.len() == 0 {
        assert(all.last() == l);
        assert(all.drop_last() =~= xs);
    } else {
        assert(all.last() == xs.last());
        assert(all.drop_last() =~= seq![l] + xs.drop_last());
        if assigned(xs.last(), key) is None {
            lemma_last_assigned_prepend(l, xs.drop_last(), key);
        }
    }
}

/// The scan, line by line, resolves to what [`resolve_from`] states of the
/// lines as a whole.
proof fn lemma_scan(ls: Seq<Seq<char>>, version: Option<Seq<char>>, release: Option<Seq<char>>)
    ensures
        scan(ls, version, release) == resolve_from(ls, version, release),
    decreases ls.len(),
{
    let n = lines_read_from(ls, version, release);
    let read = ls.take(n as int);
    if (version is Some && release is Some) || ls.len() == 0 {
        assert(read =~= Seq::<Seq<char>>::empty());
    } else {
        let l = ls.first();
        let rest = ls.drop_first();
        let version1 = newer(assigned(l, version_key()), version);
        let release1 = newer(assigned(l, release_key()), release);
        let m = lines_read_from(rest, version1, release1);
        lemma_first_assignment(ls, version_key());
        lemma_first_assignment(ls, release_key());
        lemma_first_assignment(rest, version_key());
        lemma_first_assignment(rest, release_key());
        assert(n == m + 1);
        let tail = rest.take(m as int);
        assert(read =~= seq![l] + tail);
        assert(read[0] == l);
        if is_dynamic(l) {
            assert(any_dynamic(read));
        } else {
            lemma_scan(rest, version1, release1);
            assert(any_dynamic(read) == any_dynamic(tail)) by {
                if any_dynamic(read) {
                    let k = choose|k: int| 0 <= k < read.len() && is_dynamic(#[trigger] read[k]);
                    assert(k > 0);
                    assert(read[k] == tail[k - 1]);
                }
                if any_dynamic(tail) {
                    let k = choose|k: int| 0 <= k < tail.len() && is_dynamic(#[trigger] tail[k]);
                    assert(tail[k] == read[k + 1]);
                }
            }
            lemma_last_assigned_prepend(l, tail, version_key());
            lemma_last_assigned_prepend(l, tail, release_key());
        }
    }
}

/// The scan from the first line on, with nothing found yet, resolves to
/// [`resolve_lines`].
proof fn lemma_scan_resolves(ls: Seq<Seq<char>>)
    ensures
        scan(ls, None, None) == resolve_lines(ls),
{
    lemma_scan(ls, None, None);
    assert(lines_read_from(ls, None, None) == lines_read(ls));
}

/// The first line that assigns to `key` is an assignment to it, and no line
/// before it is.
pub proof fn lemma_first_assignment(ls: Seq<Seq<char>>, key: Seq<char>)
    ensures
        first_assignment(ls, key) <= ls.len(),
        forall|k: int| 0 <= k < first_assignment(ls, key) ==> assigned(#[trigger] ls[k], key) is None,
        first_assignment(ls, key) < ls.len() ==> assigned(
            ls[first_assignment(ls, key) as int],
            key,
        ) is Some,
    decreases ls.len(),
{
    if ls.len() > 0 && assigned(ls.first(), key) is None {
        let rest = ls.drop_first();
        lemma_first_assignment(rest, key);
        assert forall|k: int| 0 <= k < first_assignment(ls, key) implies assigned(
            #[trigger] ls[k],
            key,
        ) is None by {
            if k > 0 {
                assert(ls[k] == rest[k - 1]);
            }
        }
    }
}

/// Lines among which one assigns to `key` have a last value of it.
proof fn lemma_last_assigned_some(ls: Seq<Seq<char>>, key: Seq<char>, k: int)
    requires
        0 <= k < ls.len(),
        assigned(ls[k], key) is Some,
    ensures
        last_assigned(ls, key) is Some,
    decreases ls.len(),
{
    if assigned(ls.last(), key) is None {
        assert(ls.drop_last()[k] == ls[k]);
        lemma_last_assigned_some(ls.drop_last(), key, k);
    }
}

/// The first assignment to `key` is found in the lines before it and the line
/// itself, whatever follows them.
proof fn lemma_first_assignment_prefix(ls: Seq<Seq<char>>, other: Seq<Seq<char>>, key: Seq<char>)
    requires
        first_assignment(ls, key) < ls.len(),
        first_assignment(ls, key) < other.len(),
        other.take(first_assignment(ls, key) as int + 1) == ls.take(
            first_assignment(ls, key) as int + 1,
        ),
    ensures
        first_assignment(other, key) == first_assignment(ls, key),
    decreases ls.len(),
{
    let n = first_assignment(ls, key) as int;
    assert(other[0] == other.take(n + 1)[0]);
    assert(ls[0] == ls.take(n + 1)[0]);
    if assigned(ls.first(), key) is None {
        assert(other.drop_first().take(n) =~= other.take(n + 1).drop_first());
        assert(ls.drop_first().take(n) =~= ls.take(n + 1).drop_first());
        lemma_first_assignment_prefix(ls.drop_first(), other.drop_first(), key);
    }
}

/// A recipe that assigns to both keys, and whose lines, as far as they are
/// read, assign plain values only, resolves to `version-release`: the last
/// value that the lines read give to each key, joined by a hyphen. The lines
/// read end with the first line by which both keys have a value.
pub proof fn law_literal_pair(text: Seq<char>)
    requires
        first_assignment(lines(text), version_key()) < lines(text).len(),
        first_assignment(lines(text), release_key()) < lines(text).len(),
        forall|k: int| 0 <= k < lines_read(lines(text)) ==> !is_dynamic(#[trigger] lines(text)[k]),
    ensures
        ({
            let read = lines(text).take(lines_read(lines(text)) as int);
            &&& last_assigned(read, version_key()) matches Some(version)
            &&& last_assigned(read, release_key()) matches Some(release)
            &&& parse_spec(text) == Resolution::Found(version + seq!['-'] + release)
        }),
{
    let ls = lines(text);
    let read = ls.take(lines_read(ls) as int);
    lemma_first_assignment(ls, version_key());
    lemma_first_assignment(ls, release_key());
    let v = first_assignment(ls, version_key()) as int;
    let r = first_assignment(ls, release_key()) as int;
    assert(read[v] == ls[v]);
    assert(read[r] == ls[r]);
    lemma_last_assigned_some(read, version_key(), v);
    lemma_last_assigned_some(read, release_key(), r);
    assert forall|k: int| 0 <= k < read.len() implies !is_dynamic(#[trigger] read[k]) by {
        assert(read[k] == ls[k]);
    }
}

/// A recipe is unparseable when the first assignment to either key gives it a
/// computed value, whatever its other lines hold.
pub proof fn law_dynamic_first_value(text: Seq<char>, key: Seq<char>)
    requires
        key == version_key() || key == release_key(),
        first_assignment(lines(text), key) < lines(text).len(),
        !is_literal(assigned(lines(text)[first_assignment(lines(text), key) as int], key)->0),
    ensures
        parse_spec(text) == Resolution::Unparseable,
{
    let ls = lines(text);
    let read = ls.take(lines_read(ls) as int);
    lemma_first_assignment(ls, key);
    lemma_first_assignment(ls, version_key());
    lemma_first_assignment(ls, release_key());
    let i = first_assignment(ls, key) as int;
    assert(i < lines_read(ls));
    assert(read[i] == ls[i]);
    assert(is_dynamic(read[i]));
}

/// Reading stops with the first line by which both keys have a value: two
/// recipes that agree up to that line resolve alike.
pub proof fn law_reading_stops(text: Seq<char>, other: Seq<char>)
    requires
        first_assignment(lines(text), version_key()) < lines(text).len(),
        first_assignment(lines(text), release_key()) < lines(text).len(),
        lines_read(lines(text)) <= lines(other).len(),
        lines(other).take(lines_read(lines(text)) as int) == lines(text).take(
            lines_read(lines(text)) as int,
        ),
    ensures
        parse_spec(other) == parse_spec(text),
{
    let ls = lines(text);
    let os = lines(other);
    let n = lines_read(ls) as int;
    let v = first_assignment(ls, version_key()) as int;
    let r = first_assignment(ls, release_key()) as int;
    assert(os.take(v + 1) =~= os.take(n).take(v + 1));
    assert(ls.take(v + 1) =~= ls.take(n).take(v + 1));
    assert(os.take(r + 1) =~= os.take(n).take(r + 1));
    assert(ls.take(r + 1) =~= ls.take(n).take(r + 1));
    lemma_first_assignment_prefix(ls, os, version_key());
    lemma_first_assignment_prefix(ls, os, release_key());
}

/// A comment assigns nothing, whatever follows the `#`.
pub proof fn law_comment_assigns_nothing(line: Seq<char>, key: Seq<char>)
    requires
        is_comment(trim(line)),
    ensures
        assigned(line, key) is None,
        !is_dynamic(line),
{
}

/// Decides [`is_literal`].
fn is_literal_value(value: &[char]) -> (r: bool)
    ensures
        r == is_literal(value@),
{
    !has_char(value, '$') && !has_char(value, '(')
}

/// Computes [`unquote`].
fn unquoted(value: &[char]) -> (r: &[char])
    ensures
        r@ == unquote(value@),
{
    let n = value.len();
    if n >= 2 && (value[0] == '\'' || value[0] == '"') && value[n - 1] == value[0] {
        slice_subrange(value, 1, n - 1)
    } else {
        value
    }
}

/// Computes [`keyed_value`].
fn value_for<'a>(l: &'a [char], key: &[char]) -> (r: Option<&'a [char]>)
    ensures
        match r {
            Some(v) => keyed_value(l@, key@) == Some(v@),
            None => keyed_value(l@, key@) is None,
        },
{
    let k = key.len();
    let ghost assignment = key@ + seq!['='];
    if l.len() > k && l[0] != '#' && l[k] == '=' && has_prefix(l, key) {
        assert(l@.subrange(0, assignment.len() as int) =~= assignment) by {
            assert(l@.subrange(0, k as int) == key@);
            assert forall|i: int| 0 <= i < assignment.len() implies l@[i] == assignment[i] by {
                if i < k {
                    assert(l@.subrange(0, k as int)[i] == l@[i]);
                }
            }
        }
        let value = slice_subrange(l, k + 1, l.len());
        assert(value@ == l@.skip(k as int + 1));
        Some(unquoted(value))
    } else {
        assert(!(!is_comment(l@) && assignment.is_prefix_of(l@))) by {
            if assignment.is_prefix_of(l@) {
                let head = l@.subrange(0, assignment.len() as int);
                assert(head[k as int] == '=');
                assert(l@.subrange(0, k as int) =~= key@) by {
                    assert forall|i: int| 0 <= i < k implies l@[i] == key@[i] by {
                        assert(head[i] == assignment[i]);
                    }
                }
            }
        }
        None
    }
}

/// The text that a slice of characters stands for, where there is one.
spec fn seen(value: Option<&[char]>) -> Option<Seq<char>> {
    match value {
        Some(v) => Some(v@),
        None => None,
    }
}

/// Resolves the version that the recipe `text` gives its package.
///
/// The lines are read in order. An assignment to `pkgver` or to `pkgrel` with a
/// value that holds `$` or `(` ends the reading with `Unparseable`. Reading
/// stops once both keys have a value; the result is then `version-release`.
/// With a version alone it is the version, and without a version `NotFound`.
pub fn parse(text: &str) -> (r: VersionResolution)
    ensures
        r@ == parse_spec(text@),
{
    let chars = to_chars(text);
    let version_key = to_chars("pkgver");
    let release_key = to_chars("pkgrel");
    let mut rest: &[char] = chars.as_slice();
    let mut version: Option<&[char]> = None;
    let mut release: Option<&[char]> = None;
    proof {
        lemma_scan_resolves(lines(text@));
    }
    while rest.len() > 0 && !(version.is_some() && release.is_some())
        invariant
            version_key@ == self::version_key(),
            release_key@ == self::release_key(),
            scan(lines(rest@), seen(version), seen(release)) == parse_spec(text@),
        decreases rest@.len(),
    {
        let (line, tail) = split_line(rest);
        let l = trimmed(line);
        proof {
            let ls = lines(rest@);
            assert(ls.first() == line@);
            assert(ls.drop_first() =~= lines(tail@));
        }
        match value_for(l, version_key.as_slice()) {
            Some(value) => {
                if !is_literal_value(value) {
                    return VersionResolution::Unparseable;
                }
                version = Some(value);
                proof {
                    lemma_keys_differ(l@);
                }
            },
            None => {
                match value_for(l, release_key.as_slice()) {
                    Some(value) => {
                        if !is_literal_value(value) {
                            return VersionResolution::Unparseable;
                        }
                        release = Some(value);
                    },
                    None => {},
                }
            },
        }
        proof {
            vstd::seq_lib::lemma_seq_skip_len(rest@, 0);
            crate::text::lemma_line_len(rest@);
        }
        rest = tail;
    }
    assert(parse_spec(text@) == conclude(seen(version), seen(release)));
    match version {
        Some(v) => {
            let mut found = to_text(v);
            match release {
                Some(r) => {
                    found.push('-');
                    push_chars(&mut found, r);
                    assert(found@ =~= v@ + seq!['-'] + r@);
                },
                None => {},
            }
            VersionResolution::Found(found)
        },
        None => VersionResolution::NotFound,
    }
}

/// A line cannot assign to both keys.
proof fn lemma_keys_differ(l: Seq<char>)
    ensures
        !(keyed_value(l, version_key()) is Some && keyed_value(l, release_key()) is Some),
{
    reveal_strlit("pkgver");
    reveal_strlit("pkgrel");
    let a = version_key() + seq!['='];
    let b = release_key() + seq!['='];
    if a.is_prefix_of(l) && b.is_prefix_of(l) {
        assert(l.subrange(0, a.len() as int)[3] == a[3]);
        assert(l.subrange(0, b.len() as int)[3] == b[3]);
        assert(a[3] == 'v');
        assert(b[3] == 'r');
    }
}

/// The version that the recipe `build` gives its package, as `version-release`
/// or, without a release, as the version alone; `None` where [`parse`] finds
/// none or cannot tell.
pub fn parse_pkgbuild_version(build: &str) -> (r: Option<String>)
    ensures
        match parse_spec(build@) {
            Resolution::Found(version) => r matches Some(s) && s@ == version,
            _ => r is None,
        },
{
    match parse(build) {
        VersionResolution::Found(version) => Some(version),
        _ => None,
    }
}

} // verus!

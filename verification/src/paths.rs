//! Paths, as far as their text tells what they lead to.
//!
//! How a path falls into parts depends on the operating system. What is said here holds
//! on Unix and on Windows.

use crate::events::text_view;
use crate::text::{after_last, ascii_lower, begins_with};
use vstd::prelude::*;

verus! {

/// The names that lead along `path` from its root, without empty ones and without `.`,
/// which leads nowhere.
pub open spec fn path_parts(path: Seq<char>) -> Seq<Seq<char>>
    decreases path.len(),
{
    let name = after_last(path, '/');
    let before = if 0 <= path.len() - 1 - name.len() < path.len() {
        path_parts(path.take(path.len() - 1 - name.len()))
    } else {
        Seq::empty()
    };
    if name.len() == 0 || name == seq!['.'] {
        before
    } else {
        before.push(name)
    }
}

/// A path that Unix and Windows take apart in the same way: it begins with one slash,
/// and holds no backslash.
pub open spec fn is_plain(path: Seq<char>) -> bool {
    &&& path.len() > 0 && path[0] == '/'
    &&& path.len() > 1 ==> path[1] != '/'
    &&& !path.contains('\\')
}

/// `path` is `root` or below it.
pub open spec fn is_below(path: Seq<char>, root: Seq<char>) -> bool {
    path_parts(root).is_prefix_of(path_parts(path))
}

/// A character that may separate the parts of a path.
pub open spec fn is_separator(c: char) -> bool {
    c == '/' || c == '\\'
}

/// The path with a slash for each character that may separate its parts.
pub open spec fn slashed(path: Seq<char>) -> Seq<char> {
    path.map_values(
        |c: char|
            if is_separator(c) {
                '/'
            } else {
                c
            },
    )
}

/// The path with slashes for separators and small letters for the capitals of ASCII.
pub open spec fn folded(path: Seq<char>) -> Seq<char> {
    slashed(path).map_values(|c: char| ascii_lower(c))
}

/// The path names a root to start from: a separator, or a drive and a separator.
pub open spec fn is_rooted(path: Seq<char>) -> bool {
    ||| path.len() > 0 && is_separator(path[0])
    ||| path.len() > 2 && path[1] == ':' && is_separator(path[2])
}

/// The path begins with two separators, as one on a network share does.
pub open spec fn is_share(path: Seq<char>) -> bool {
    path.len() > 1 && is_separator(path[0]) && is_separator(path[1])
}

/// `path` leads to `root` or below it, whichever characters separate the parts of the
/// two. Whether the letter of a drive is a capital does not count; on a network share,
/// no capital does.
pub open spec fn leads_into(path: Seq<char>, root: Seq<char>) -> bool {
    &&& path.len() > 0
    &&& folded(path)[0] == folded(root)[0]
    &&& if is_share(root) {
        is_below(folded(path), folded(root))
    } else {
        is_below(slashed(path.update(0, root[0])), slashed(root))
    }
}

/// `path` is `root`, a slash and whatever follows.
pub open spec fn is_named_under(path: Seq<char>, root: Seq<char>) -> bool {
    begins_with(path, root + seq!['/'])
}

/// What is known of whether a path was found to be `root` or below it.
pub open spec fn is_verdict(inside: bool, path: Seq<char>, root: Seq<char>) -> bool {
    &&& path == root ==> inside
    &&& is_plain(path) && is_plain(root) ==> inside == is_below(path, root)
    &&& inside && is_rooted(root) ==> leads_into(path, root)
    &&& root.len() > 1 && !is_share(root) && is_named_under(path, root) ==> inside
}

/// A name that leads somewhere.
pub open spec fn is_name(name: Seq<char>) -> bool {
    name.len() > 0 && name != seq!['.'] && !name.contains('/')
}

/// `std::path::Path::starts_with`: whether the path is `root` or below it, going by
/// whole parts of the path. Repeated separators, one at the end and parts that are `.`
/// do not count. Where both paths are plain, that is decided by their parts. Elsewhere
/// it depends on the operating system whether a backslash separates parts and what is a
/// drive or a share. Of such paths it is said that each begins with itself and, where
/// `root` starts at a root, that a path found inside leads there with both kinds of
/// slash taken for separators, as on any system the parts are whole ones of that
/// reading put together. What follows `root` and a slash is inside, unless `root` may
/// be part of the name of a share. That some other such path is inside is left unsaid.
#[verifier::external_body]
pub(crate) fn path_starts_with(path: &str, root: &str) -> (inside: bool)
    ensures
        is_verdict(inside, path@, root@),
{
    std::path::Path::new(path).starts_with(root)
}

/// `path` is a directory, a slash and a name, and every operating system takes it so:
/// the name holds no separator and is not `.`, and the directory is neither a share nor
/// a drive, and ends in no separator and no full stop.
pub open spec fn is_simply_named(path: Seq<char>) -> bool {
    let name = after_last(path, '/');
    let end = path.len() - 2 - name.len();
    &&& is_name(name)
    &&& !name.contains('\\')
    &&& end >= 0
    &&& !is_separator(path[end])
    &&& path[end] != '.'
    &&& path[end] != ':'
    &&& !is_share(path)
}

/// The directory of a path that is simply named.
pub open spec fn simple_directory(path: Seq<char>) -> Seq<char> {
    path.take(path.len() - 1 - after_last(path, '/').len())
}

/// What is known of whether `dir` is the directory that `path` lies in.
pub open spec fn is_directory_of(dir: Option<Seq<char>>, path: Seq<char>) -> bool {
    &&& dir matches Some(dir) ==> dir.is_prefix_of(path) && dir.len() < path.len()
    &&& is_simply_named(path) ==> dir == Some(simple_directory(path))
    &&& is_plain(path) ==> (dir is Some <==> path_parts(path).len() > 0)
    &&& is_plain(path) && dir is Some ==> is_plain(dir->0) && path_parts(dir->0) == path_parts(
        path,
    ).drop_last()
}

/// `std::path::Path::parent`: the path without its last part; nothing where it has none
/// but a root. What is left is the beginning of the path. Where the path is plain, its
/// parts are those of the path without the last one; where it is a directory, a slash
/// and a name, it is the directory. What the last part of another path is depends on the
/// operating system, and is left unsaid.
#[verifier::external_body]
pub(crate) fn path_parent(path: &str) -> (dir: Option<String>)
    ensures
        is_directory_of(text_view(dir), path@),
{
    match std::path::Path::new(path).parent() {
        Some(parent) => Some(parent.to_string_lossy().to_string()),
        None => None,
    }
}

// ----------------------------------------------------------------------------
// Laws
// ----------------------------------------------------------------------------

/// What lies in a directory beside `name` is not in `name`, though its own name may begin
/// in the same way.
pub proof fn what_lies_beside_is_not_inside(
    dir: Seq<char>,
    name: Seq<char>,
    other: Seq<char>,
    rest: Seq<char>,
)
    requires
        is_name(name),
        is_name(other),
        name != other,
    ensures
        !is_below(dir + seq!['/'] + other + seq!['/'] + rest, dir + seq!['/'] + name),
        !is_below(dir + seq!['/'] + other, dir + seq!['/'] + name),
{
    let inner = dir + seq!['/'] + other;
    lemma_parts_of_named(dir, name);
    lemma_parts_of_named(dir, other);
    what_is_named_under_a_directory_is_in_it(inner, rest);
    let n = path_parts(dir).len() as int;
    assert(path_parts(inner)[n] == other);
    assert(path_parts(inner + seq!['/'] + rest)[n] == other);
    assert(path_parts(dir + seq!['/'] + name)[n] == name);
}

/// A name adds itself to the parts of the path that it is put behind.
proof fn lemma_parts_of_named(dir: Seq<char>, name: Seq<char>)
    requires
        is_name(name),
    ensures
        path_parts(dir + seq!['/'] + name) == path_parts(dir).push(name),
{
    let path = dir + seq!['/'] + name;
    lemma_after_last_of_rest(dir, name);
    lemma_whole_is_after_last(name);
    assert(path.take(path.len() - 1 - name.len()) =~= dir);
}

/// A text without a slash is all behind the last one.
proof fn lemma_whole_is_after_last(name: Seq<char>)
    requires
        !name.contains('/'),
    ensures
        after_last(name, '/') == name,
    decreases name.len(),
{
    if name.len() > 0 {
        let shorter = name.drop_last();
        assert(name[name.len() - 1] != '/');
        assert forall|i: int| 0 <= i < shorter.len() implies shorter[i] != '/' by {
            assert(name[i] != '/');
        }
        lemma_whole_is_after_last(shorter);
        assert(shorter.push(name.last()) =~= name);
    }
}

/// What is named under a directory is in it.
pub proof fn what_is_named_under_a_directory_is_in_it(root: Seq<char>, rest: Seq<char>)
    ensures
        is_below(root + seq!['/'] + rest, root),
    decreases rest.len(),
{
    let path = root + seq!['/'] + rest;
    let name = after_last(rest, '/');
    lemma_after_last_of_rest(root, rest);
    let cut = path.len() - 1 - name.len();
    if name.len() < rest.len() {
        let shorter = rest.take(rest.len() - 1 - name.len());
        assert(path.take(cut) =~= root + seq!['/'] + shorter);
        what_is_named_under_a_directory_is_in_it(root, shorter);
    } else {
        assert(path.take(cut) =~= root);
    }
}

/// The last part of what is named under a directory comes from the name.
proof fn lemma_after_last_of_rest(root: Seq<char>, rest: Seq<char>)
    ensures
        after_last(root + seq!['/'] + rest, '/') == after_last(rest, '/'),
        after_last(rest, '/').len() <= rest.len(),
    decreases rest.len(),
{
    let path = root + seq!['/'] + rest;
    if rest.len() > 0 {
        assert(path.drop_last() =~= root + seq!['/'] + rest.drop_last());
        lemma_after_last_of_rest(root, rest.drop_last());
    }
}

/// A plain path leads into a plain directory exactly where it lies in it, and it lies in
/// it where it is named under it.
pub proof fn plain_paths_lead_where_they_lie(path: Seq<char>, root: Seq<char>)
    requires
        is_plain(path),
        is_plain(root),
    ensures
        leads_into(path, root) == is_below(path, root),
        is_named_under(path, root) ==> is_below(path, root),
{
    assert(path.update(0, root[0]) =~= path);
    lemma_without_backslash(path);
    lemma_without_backslash(root);
    if is_named_under(path, root) {
        let n = root.len() + 1;
        assert(path.take(n as int) =~= root + seq!['/']);
        let rest = path.skip(n as int);
        assert(path =~= root + seq!['/'] + rest);
        what_is_named_under_a_directory_is_in_it(root, rest);
    }
}

proof fn lemma_without_backslash(path: Seq<char>)
    requires
        !path.contains('\\'),
    ensures
        slashed(path) == path,
{
    assert forall|i: int| 0 <= i < path.len() implies slashed(path)[i] == path[i] by {
        assert(path[i] != '\\');
    }
    assert(slashed(path) =~= path);
}

/// A path lies in its directory.
pub proof fn a_path_lies_in_its_directory(dir: Seq<char>, path: Seq<char>)
    requires
        is_plain(path),
        is_directory_of(Some(dir), path),
    ensures
        is_below(path, dir),
{
    assert(path_parts(dir) =~= path_parts(path).take(path_parts(dir).len() as int));
}

} // verus!

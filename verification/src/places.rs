//! Where files are on this machine.
use vstd::prelude::*;

verus! {

/// The name of a file, and no path: it has no character that parts a path.
pub open spec fn is_plain_name(name: Seq<char>) -> bool {
    name.len() > 0 && name != "."@ && name != ".."@ && forall|i: int|
        0 <= i < name.len() ==> #[trigger] name[i] != '/' && name[i] != '\\' && name[i] != ':'
}

/// The directory begins as a Windows path does that is taken literally:
/// `\\?\C:\data`.
pub open spec fn is_verbatim(dir: Seq<char>) -> bool {
    dir.len() >= 3 && dir[0] == '\\' && dir[1] == '\\' && dir[2] == '?'
}

/// `path` is `name` behind `dir`, parted by a slash or a backslash. Nothing
/// parts them where the directory is empty or ends with a slash; and where it
/// ends with a backslash or, as a drive does, with a colon, nothing may.
pub open spec fn is_joined(dir: Seq<char>, name: Seq<char>, path: Seq<char>) -> bool {
    if dir.len() == 0 || dir.last() == '/' {
        path == dir + name
    } else {
        ||| path == dir.push('/') + name
        ||| path == dir.push('\\') + name
        ||| path == dir + name && (dir.last() == '\\' || dir.last() == ':')
    }
}

/// The character parts a path.
pub open spec fn is_separator(c: char) -> bool {
    c == '/' || c == '\\'
}

/// What stands behind the last character of the directory that parts a path.
pub open spec fn last_part(dir: Seq<char>) -> Seq<char>
    decreases dir.len(),
{
    if dir.len() == 0 || is_separator(dir.last()) {
        Seq::empty()
    } else {
        last_part(dir.drop_last()).push(dir.last())
    }
}

/// The last part of the directory where it is the name of a file.
pub open spec fn last_name(dir: Seq<char>) -> Seq<char> {
    if is_plain_name(last_part(dir)) {
        last_part(dir)
    } else {
        Seq::empty()
    }
}

/// The text ends with `end`.
pub open spec fn ends_with(s: Seq<char>, end: Seq<char>) -> bool {
    end.len() <= s.len() && s.skip(s.len() - end.len()) == end
}

/// The path ends with the last name of the directory and `name`, parted.
pub open spec fn ends_in(dir: Seq<char>, name: Seq<char>, path: Seq<char>) -> bool {
    ||| ends_with(path, last_name(dir).push('/') + name)
    ||| ends_with(path, last_name(dir).push('\\') + name)
}

/// `path` is that of the file `name` in the directory `dir`. A directory that
/// is taken literally is known by its end alone.
pub open spec fn is_path_in(dir: Seq<char>, name: Seq<char>, path: Seq<char>) -> bool {
    if is_verbatim(dir) {
        ends_in(dir, name, path)
    } else {
        is_joined(dir, name, path)
    }
}

/// `path` is that of the last of `names` below the directory `dir`, each in
/// the one before.
pub open spec fn is_path_below(dir: Seq<char>, names: Seq<Seq<char>>, path: Seq<char>) -> bool
    decreases names.len(),
{
    if names.len() == 0 {
        path == dir
    } else {
        exists|parent: Seq<char>|
            is_path_below(dir, names.drop_last(), parent) && #[trigger] is_path_in(
                parent,
                names.last(),
                path,
            )
    }
}

/// A file in a directory ends with the name that the directory ends with, and
/// its own name, parted.
pub proof fn lemma_ends_in(parent: Seq<char>, dir: Seq<char>, name: Seq<char>, path: Seq<char>)
    requires
        is_plain_name(parent),
        ends_with(dir, parent),
        is_verbatim(dir) ==> last_part(dir) == parent,
        is_path_in(dir, name, path),
    ensures
        ends_with(path, parent.push('/') + name) || ends_with(path, parent.push('\\') + name),
{
    if !is_verbatim(dir) {
        let front = dir.take(dir.len() - parent.len());
        assert(dir =~= front + parent);
        assert(!is_separator(dir.last()) && dir.last() != ':') by {
            assert(parent[parent.len() - 1] == dir.last());
        }
        assert forall|s: char| path == dir.push(s) + name implies ends_with(
            path,
            parent.push(s) + name,
        ) by {
            assert(path.skip(path.len() - (parent.push(s) + name).len()) =~= parent.push(s) + name);
        }
    }
}

/// What stands behind something that parts a path is the last part.
pub proof fn lemma_ends_with_part(dir: Seq<char>, parent: Seq<char>, s: char, name: Seq<char>)
    requires
        is_separator(s),
        is_plain_name(name),
        ends_with(dir, parent.push(s) + name),
    ensures
        ends_with(dir, name),
        last_part(dir) == name,
{
    let end = parent.push(s) + name;
    let start = dir.take(dir.len() - end.len());
    let front = start + parent.push(s);
    assert(dir =~= start + end);
    assert(dir =~= front + name);
    assert(front.last() == s);
    assert(dir.skip(dir.len() - name.len()) =~= name);
    lemma_last_part(front, name);
}

proof fn lemma_last_part(front: Seq<char>, name: Seq<char>)
    requires
        front.len() > 0,
        is_separator(front.last()),
        forall|i: int| 0 <= i < name.len() ==> !is_separator(#[trigger] name[i]),
    ensures
        last_part(front + name) == name,
    decreases name.len(),
{
    let all = front + name;
    if name.len() == 0 {
        assert(all =~= front);
        assert(last_part(all) =~= name);
    } else {
        let rest = name.drop_last();
        assert forall|i: int| 0 <= i < rest.len() implies !is_separator(#[trigger] rest[i]) by {
            assert(rest[i] == name[i]);
        }
        lemma_last_part(front, rest);
        assert(all.drop_last() =~= front + rest);
        assert(all.last() == name[name.len() - 1]);
        assert(rest.push(name.last()) =~= name);
    }
}

/// What is in what is below a directory is below it.
pub proof fn lemma_one_deeper(
    dir: Seq<char>,
    names: Seq<Seq<char>>,
    parent: Seq<char>,
    name: Seq<char>,
    path: Seq<char>,
)
    requires
        is_path_below(dir, names, parent),
        is_path_in(parent, name, path),
    ensures
        is_path_below(dir, names.push(name), path),
{
    let all = names.push(name);
    assert(all.drop_last() =~= names);
    assert(is_path_in(parent, all.last(), path));
}

/// `dirs::home_dir`: the home directory of the user, if there is one. What it
/// is depends on the machine and its settings, so nothing is claimed of it.
#[verifier::external_body]
pub(crate) fn home_dir() -> (r: Option<String>) {
    dirs::home_dir().map(|p| p.to_string_lossy().into_owned())
}

/// `Path::join` for the name of a file: the directory, what parts a path on
/// this machine unless the directory ends with it, and the name. Where Windows
/// takes the directory literally, `.` and `..` are cleared from the path, so of
/// such a one only the end is claimed: the last name of the directory stays,
/// and the new name follows it.
#[verifier::external_body]
pub(crate) fn path_in(dir: &str, name: &str) -> (r: String)
    requires
        is_plain_name(name@),
    ensures
        is_path_in(dir@, name@, r@),
{
    std::path::Path::new(dir).join(name).to_string_lossy().into_owned()
}

} // verus!

//! Relative paths as texts with `/` between their parts.

use vstd::prelude::*;

use crate::text;

verus! {

/// The parts of a path that count: a leading `/` or `.`, and every part that is neither
/// empty nor `.`. Two paths that agree in these name the same place.
pub open spec fn components(path: Seq<char>) -> Seq<Seq<char>> {
    kept_parts(text::split(path, '/'), text::split(path, '/').len() as int)
}

/// What is kept of the first `n` parts of a path.
pub open spec fn kept_parts(parts: Seq<Seq<char>>, n: int) -> Seq<Seq<char>>
    decreases n,
{
    if n <= 0 {
        Seq::empty()
    } else {
        let before = kept_parts(parts, n - 1);
        let part = parts[n - 1];
        if n == 1 && part.len() == 0 && parts.len() > 1 {
            before.push("/"@)
        } else if part.len() == 0 || (n > 1 && part == "."@) {
            before
        } else {
            before.push(part)
        }
    }
}

/// A non-empty relative path that goes down only: no leading `/` or `.`, no `..`.
pub open spec fn is_plain_relative(path: Seq<char>) -> bool {
    let parts = components(path);
    &&& path.len() > 0
    &&& path[0] != '/'
    &&& forall|i: int| 0 <= i < parts.len() ==> #[trigger] parts[i] != ".."@ && parts[i] != "."@
}

/// The parts of a path that count.
pub fn path_components(path: &str) -> (r: Vec<String>)
    ensures
        text::texts(r@) == components(path@),
{
    let parts = text::split_at_char(path, '/');
    let ghost model = text::split(path@, '/');
    let mut out: Vec<String> = Vec::new();
    let mut i: usize = 0;
    assert(text::texts(out@) =~= Seq::<Seq<char>>::empty());
    while i < parts.len()
        invariant
            i <= parts@.len(),
            text::texts(parts@) == model,
            text::texts(out@) == kept_parts(model, i as int),
        decreases parts.len() - i,
    {
        let ghost before = text::texts(out@);
        let empty = parts[i].as_str().is_empty();
        assert(model[i as int] == parts@[i as int]@);
        if i == 0 && empty && parts.len() > 1 {
            out.push("/".to_owned());
            assert(text::texts(out@) =~= before.push("/"@));
        } else if !(empty || (i > 0 && text::same(parts[i].as_str(), "."))) {
            out.push(parts[i].clone());
            assert(text::texts(out@) =~= before.push(model[i as int]));
        }
        i += 1;
    }
    out
}

/// Whether two lists of strings agree.
pub fn same_texts(a: &Vec<String>, b: &Vec<String>) -> (r: bool)
    ensures
        r == (text::texts(a@) == text::texts(b@)),
{
    if a.len() != b.len() {
        assert(text::texts(a@).len() != text::texts(b@).len());
        return false;
    }
    let mut i: usize = 0;
    while i < a.len()
        invariant
            a@.len() == b@.len(),
            i <= a@.len(),
            forall|k: int| 0 <= k < i ==> #[trigger] text::texts(a@)[k] == text::texts(b@)[k],
        decreases a.len() - i,
    {
        if !text::same(a[i].as_str(), b[i].as_str()) {
            assert(text::texts(a@)[i as int] != text::texts(b@)[i as int]);
            return false;
        }
        i += 1;
    }
    assert(text::texts(a@) =~= text::texts(b@));
    true
}

/// Whether two paths name the same place.
pub fn same_path(a: &str, b: &str) -> (r: bool)
    ensures
        r == (components(a@) == components(b@)),
{
    same_texts(&path_components(a), &path_components(b))
}

/// Tests for a non-empty relative path that goes down only.
pub fn plain_relative(path: &str) -> (r: bool)
    ensures
        r == is_plain_relative(path@),
{
    if path.is_empty() {
        return false;
    }
    if text::chars_of(path)[0] == '/' {
        return false;
    }
    let parts = path_components(path);
    let ghost model = components(path@);
    let mut i: usize = 0;
    while i < parts.len()
        invariant
            i <= parts@.len(),
            text::texts(parts@) == model,
            model == components(path@),
            forall|k: int| 0 <= k < i ==> #[trigger] model[k] != ".."@ && model[k] != "."@,
        decreases parts.len() - i,
    {
        assert(model[i as int] == parts@[i as int]@);
        if text::same(parts[i].as_str(), "..") || text::same(parts[i].as_str(), ".") {
            return false;
        }
        i += 1;
    }
    true
}

/// A path that starts at the root.
pub open spec fn is_absolute(path: Seq<char>) -> bool {
    path.len() > 0 && path[0] == '/'
}

/// Tests for a path that starts at the root.
pub fn absolute(path: &str) -> (r: bool)
    ensures
        r == is_absolute(path@),
{
    !path.is_empty() && text::chars_of(path)[0] == '/'
}

/// `name` below `directory`: an absolute name stands for itself.
pub open spec fn joined_path(directory: Seq<char>, name: Seq<char>) -> Seq<char> {
    if is_absolute(name) || directory.len() == 0 {
        name
    } else if directory.last() == '/' {
        directory + name
    } else {
        directory + "/"@ + name
    }
}

/// Joins a directory and a name.
pub fn join(directory: &str, name: &str) -> (r: String)
    ensures
        r@ == joined_path(directory@, name@),
{
    if absolute(name) || directory.is_empty() {
        return name.to_owned();
    }
    let chars = text::chars_of(directory);
    if chars[chars.len() - 1] == '/' {
        text::cat2(directory, name)
    } else {
        text::cat3(directory, "/", name)
    }
}

/// The last component of a path, where it is a name.
pub open spec fn file_name(path: Seq<char>) -> Option<Seq<char>> {
    let parts = components(path);
    if parts.len() == 0 || parts.last() == ".."@ || parts.last() == "/"@ || parts.last() == "."@ {
        None
    } else {
        Some(parts.last())
    }
}

/// The last component of a path, where it is a name.
pub fn last_name(path: &str) -> (r: Option<String>)
    ensures
        match (r, file_name(path@)) {
            (Some(s), Some(t)) => s@ == t,
            (None, None) => true,
            _ => false,
        },
{
    let mut parts = path_components(path);
    let ghost model = components(path@);
    if parts.len() == 0 {
        return None;
    }
    let at: usize = parts.len() - 1;
    assert(model[at as int] == parts@[at as int]@);
    let last = parts[at].clone();
    if text::same(last.as_str(), "..") || text::same(last.as_str(), "/") || text::same(last.as_str(), ".") {
        None
    } else {
        Some(last)
    }
}

/// Parts that are something, and not a lone dot, are kept.
proof fn lemma_part_kept(parts: Seq<Seq<char>>, n: int, k: int)
    requires
        0 <= k < n <= parts.len(),
        parts[k].len() > 0,
        parts[k] != "."@,
    ensures
        kept_parts(parts, n).contains(parts[k]),
    decreases n,
{
    let kept = kept_parts(parts, n);
    if k == n - 1 {
        assert(kept[kept.len() - 1] == parts[k]);
    } else {
        lemma_part_kept(parts, n - 1, k);
        let before = kept_parts(parts, n - 1);
        let i = choose|i: int| 0 <= i < before.len() && before[i] == parts[k];
        assert(kept[i] == parts[k]);
    }
}

/// A path that climbs anywhere is not plain, nor is one that starts at the root.
pub proof fn climbing_paths_are_not_plain(path: Seq<char>, i: int)
    requires
        0 <= i < text::split(path, '/').len(),
    ensures
        text::split(path, '/')[i] == ".."@ ==> !is_plain_relative(path),
        path.len() > 0 && path[0] == '/' ==> !is_plain_relative(path),
        path.len() == 0 ==> !is_plain_relative(path),
{
    let parts = text::split(path, '/');
    reveal_strlit("..");
    reveal_strlit(".");
    if parts[i] == ".."@ {
        assert(".."@.len() == 2 && "."@.len() == 1);
        lemma_part_kept(parts, parts.len() as int, i);
        let k = choose|k: int| 0 <= k < components(path).len() && components(path)[k] == ".."@;
        assert(components(path)[k] == ".."@);
    }
}

/// The name of a file is the last part of its path.
pub proof fn names_of_files_come_last(path: Seq<char>)
    requires
        text::split(path, '/').len() > 1,
        text::split(path, '/').last().len() > 0,
        text::split(path, '/').last() != "."@,
        text::split(path, '/').last() != ".."@,
        text::split(path, '/').last() != "/"@,
    ensures
        file_name(path) == Some(text::split(path, '/').last()),
{
}

/// A name is joined behind its directory; an absolute one stands for itself.
pub proof fn names_are_joined_behind_their_directory(directory: Seq<char>, name: Seq<char>)
    ensures
        name.len() > 0 && name[0] == '/' ==> joined_path(directory, name) == name,
        directory.len() > 0 && directory.last() != '/' && !(name.len() > 0 && name[0] == '/') ==> joined_path(
            directory,
            name,
        ) == directory + "/"@ + name,
        directory.len() > 0 && directory.last() == '/' && !(name.len() > 0 && name[0] == '/') ==> joined_path(
            directory,
            name,
        ) == directory + name,
{
}

} // verus!

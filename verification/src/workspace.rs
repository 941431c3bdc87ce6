//! Where the files of a project are.

use vstd::prelude::*;

use crate::error::{CliError, CliErrorV};
use crate::path;
use crate::text;

verus! {

pub const CONFIG_FILE: &'static str = "lightrail.toml";

pub const LOCK_FILE: &'static str = "lightrail.lock";

pub const LOCAL_DIR: &'static str = ".lightrail";

/// Paths rooted at an initialized Lightrail project.
#[derive(Clone, Debug, Eq, PartialEq)]
pub struct ProjectPaths {
    pub root: String,
    pub config: String,
    pub lock: String,
    pub local: String,
}

/// The paths of the project at a root.
pub open spec fn rooted_at(paths: ProjectPaths, root: Seq<char>) -> bool {
    &&& paths.root@ == root
    &&& paths.config@ == path::joined_path(root, CONFIG_FILE@)
    &&& paths.lock@ == path::joined_path(root, LOCK_FILE@)
    &&& paths.local@ == path::joined_path(root, LOCAL_DIR@)
}

/// The last place of a slash before `n`, or minus one.
pub open spec fn last_slash(s: Seq<char>, n: int) -> int
    decreases n,
{
    if n <= 0 {
        -1
    } else if s[n - 1] == '/' {
        n - 1
    } else {
        last_slash(s, n - 1)
    }
}

/// The directory above a canonical absolute path.
pub open spec fn parent(s: Seq<char>) -> Option<Seq<char>> {
    let at = last_slash(s, s.len() as int);
    if at < 0 || s.len() <= 1 {
        None
    } else if at == 0 {
        Some(s.take(1))
    } else {
        Some(s.take(at))
    }
}

/// A directory above is written shorter.
proof fn lemma_parent(s: Seq<char>)
    ensures
        parent(s) matches Some(p) ==> p.len() < s.len(),
        last_slash(s, s.len() as int) < s.len(),
{
    lemma_last_slash(s, s.len() as int);
}

/// The last slash stands before the end.
proof fn lemma_last_slash(s: Seq<char>, n: int)
    ensures
        last_slash(s, n) < n || n <= 0,
        last_slash(s, n) >= -1,
    decreases n,
{
    if n > 0 && s[n - 1] != '/' {
        lemma_last_slash(s, n - 1);
    }
}

/// A canonical absolute path and the directories above it, from the inside out.
pub open spec fn ancestors(s: Seq<char>) -> Seq<Seq<char>>
    decreases s.len(),
{
    match parent(s) {
        None => seq![s],
        Some(p) => if p.len() < s.len() {
            seq![s] + ancestors(p)
        } else {
            seq![s]
        },
    }
}

/// The directory above a canonical absolute path.
pub fn parent_of(s: &str) -> (r: Option<String>)
    ensures
        match (r, parent(s@)) {
            (Some(a), Some(b)) => a@ == b,
            (None, None) => true,
            _ => false,
        },
{
    let chars = text::chars_of(s);
    let mut n: usize = chars.len();
    while n > 0 && chars[n - 1] != '/'
        invariant
            chars@ == s@,
            n <= chars@.len(),
            last_slash(s@, s@.len() as int) == last_slash(s@, n as int),
        decreases n,
    {
        n -= 1;
    }
    if n == 0 || chars.len() <= 1 {
        return None;
    }
    let to: usize = if n == 1 {
        1
    } else {
        n - 1
    };
    assert(s@.subrange(0, to as int) =~= s@.take(to as int));
    Some(text::string_of(&chars, 0, to))
}

/// The directories in which the configuration is looked for.
pub fn search_path(start: &str) -> (r: Vec<String>)
    ensures
        text::texts(r@) == ancestors(start@),
    decreases start@.len(),
{
    let mut out: Vec<String> = Vec::new();
    out.push(start.to_owned());
    assert(text::texts(out@) =~= seq![start@]);
    proof {
        lemma_parent(start@);
    }
    if let Some(above) = parent_of(start) {
        let mut rest = search_path(above.as_str());
        let ghost tail = rest@;
        out.append(&mut rest);
        assert(text::texts(out@) =~= seq![start@] + text::texts(tail));
    }
    out
}

impl ProjectPaths {
    /// The paths of the project at a root.
    pub fn at(root: &str) -> (r: ProjectPaths)
        ensures
            rooted_at(r, root@),
    {
        ProjectPaths {
            root: root.to_owned(),
            config: path::join(root, CONFIG_FILE),
            lock: path::join(root, LOCK_FILE),
            local: path::join(root, LOCAL_DIR),
        }
    }

    /// The project that a directory belongs to: the innermost of the directories of
    /// [`search_path`] that holds a configuration.
    ///
    /// # Errors
    ///
    /// Returns [`CliError::ProjectNotInitialized`] where none does.
    pub fn discover(start: &str, holds_config: &Vec<bool>) -> (r: Result<ProjectPaths, CliError>)
        requires
            holds_config@.len() == ancestors(start@).len(),
        ensures
            match r {
                Ok(paths) => exists|i: int|
                    0 <= i < holds_config@.len() && #[trigger] holds_config@[i] && rooted_at(
                        paths,
                        ancestors(start@)[i],
                    ) && (forall|k: int| 0 <= k < i ==> !#[trigger] holds_config@[k]),
                Err(e) => e@ == CliErrorV::ProjectNotInitialized(start@) && forall|k: int|
                    0 <= k < holds_config@.len() ==> !#[trigger] holds_config@[k],
            },
    {
        let directories = search_path(start);
        let mut i: usize = 0;
        assert(text::texts(directories@).len() == directories@.len());
        while i < directories.len()
            invariant
                i <= directories@.len(),
                text::texts(directories@) == ancestors(start@),
                directories@.len() == holds_config@.len(),
                forall|k: int| 0 <= k < i ==> !#[trigger] holds_config@[k],
            decreases directories.len() - i,
        {
            if holds_config[i] {
                assert(text::texts(directories@)[i as int] == directories@[i as int]@);
                return Ok(ProjectPaths::at(directories[i].as_str()));
            }
            i += 1;
        }
        Err(CliError::ProjectNotInitialized { start: start.to_owned() })
    }

    /// The directories of the local layout.
    pub fn local_layout(&self) -> (r: Vec<String>)
        ensures
            text::texts(r@) == seq![
                path::joined_path(self.local@, "operations"@),
                path::joined_path(self.local@, "cache"@),
            ],
    {
        let mut out: Vec<String> = Vec::new();
        out.push(path::join(self.local.as_str(), "operations"));
        out.push(path::join(self.local.as_str(), "cache"));
        assert(text::texts(out@) =~= seq![
            path::joined_path(self.local@, "operations"@),
            path::joined_path(self.local@, "cache"@),
        ]);
        out
    }
}

/// The last slash is a slash, and none follows it.
proof fn lemma_last_slash_found(s: Seq<char>, n: int)
    requires
        0 <= n <= s.len(),
    ensures
        last_slash(s, n) >= 0 ==> last_slash(s, n) < n && s[last_slash(s, n)] == '/',
        forall|k: int| last_slash(s, n) < k < n && 0 <= k ==> #[trigger] s[k] != '/',
        last_slash(s, n) >= -1,
    decreases n,
{
    if n > 0 && s[n - 1] != '/' {
        lemma_last_slash_found(s, n - 1);
    }
}

/// The directory that holds a path is the path without its last name.
pub proof fn parents_hold_their_children(directory: Seq<char>, name: Seq<char>)
    requires
        directory.len() > 0,
        directory != "/"@,
        !name.contains('/'),
    ensures
        parent(directory + "/"@ + name) == Some(directory),
{
    reveal_strlit("/");
    let s = directory + "/"@ + name;
    lemma_last_slash_found(s, s.len() as int);
    let at = directory.len() as int;
    assert(s[at] == '/');
    assert forall|k: int| at < k < s.len() implies s[k] != '/' by {
        assert(s[k] == name[k - at - 1]);
        assert(name.contains(name[k - at - 1]));
    }
    let found = last_slash(s, s.len() as int);
    if found < at {
        assert(s[at] != '/');
    } else if found > at {
        assert(s[found] != '/');
    }
    assert(s.take(at) =~= directory);
}

/// The directories above a path start with the path itself and then those above its parent: a
/// project is looked for from the inside out.
pub proof fn projects_are_looked_for_from_the_inside_out(directory: Seq<char>, name: Seq<char>)
    requires
        directory.len() > 0,
        directory != "/"@,
        !name.contains('/'),
    ensures
        ancestors(directory + "/"@ + name) == seq![directory + "/"@ + name] + ancestors(directory),
        ancestors(directory).len() > 0,
        ancestors(directory)[0] == directory,
{
    reveal_strlit("/");
    parents_hold_their_children(directory, name);
}

/// The files of a project stand in its root under their fixed names.
pub proof fn project_files_have_fixed_names(paths: ProjectPaths, root: Seq<char>)
    requires
        rooted_at(paths, root),
        root.len() > 0,
        root.last() != '/',
    ensures
        paths.config@ == root + "/"@ + "lightrail.toml"@,
        paths.lock@ == root + "/"@ + "lightrail.lock"@,
        paths.local@ == root + "/"@ + ".lightrail"@,
{
    reveal_strlit("lightrail.toml");
    reveal_strlit("lightrail.lock");
    reveal_strlit(".lightrail");
}

} // verus!

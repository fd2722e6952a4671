//! Where the helper looks for its files. A location is given as the list of
//! its components, the first one being the root of the file system.
use vstd::prelude::*;

verus! {

/// The texts of the components of a location.
pub open spec fn parts(p: Seq<String>) -> Seq<Seq<char>> {
    p.map_values(|s: String| s@)
}

/// Appends one component.
fn push_part(p: &mut Vec<String>, name: &str)
    ensures
        parts(final(p)@) == parts(old(p)@).push(name@),
{
    p.push(String::from_str(name));
    assert(parts(final(p)@) =~= parts(old(p)@).push(name@));
}

/// The first `k` components of `p`.
fn prefix(p: &Vec<String>, k: usize) -> (r: Vec<String>)
    requires
        k <= p@.len(),
    ensures
        r@ == p@.take(k as int),
{
    let mut r: Vec<String> = Vec::new();
    let mut i: usize = 0;
    while i < k
        invariant
            k <= p@.len(),
            i <= k,
            r@ == p@.take(i as int),
        decreases k - i,
    {
        r.push(p[i].clone());
        assert(r@ =~= p@.take(i + 1));
        i = i + 1;
    }
    r
}

/// Whether the ancestor made of the first `k` components is the nearest one
/// that holds the repository marker.
pub open spec fn is_nearest_marked(has_marker: Seq<bool>, k: int) -> bool {
    &&& 1 <= k <= has_marker.len()
    &&& has_marker[k - 1]
    &&& forall|j: int| k <= j < has_marker.len() ==> !#[trigger] has_marker[j]
}

/// Where the repository marker of a directory stands.
pub fn marker_path(dir: &Vec<String>) -> (r: Vec<String>)
    ensures
        parts(r@) == parts(dir@).push(".git"@),
{
    let mut r = prefix(dir, dir.len());
    assert(dir@.take(dir@.len() as int) =~= dir@);
    push_part(&mut r, ".git");
    r
}

/// The project root: the nearest ancestor of `cwd`, itself included, that
/// holds the repository marker. `has_marker[k]` tells whether the ancestor
/// made of the first `k + 1` components of `cwd` holds it.
pub fn find_project_root(cwd: &Vec<String>, has_marker: &Vec<bool>) -> (r: Option<Vec<String>>)
    requires
        has_marker@.len() == cwd@.len(),
    ensures
        match r {
            Some(root) => is_nearest_marked(has_marker@, root@.len() as int) && root@
                == cwd@.take(root@.len() as int),
            None => forall|j: int| 0 <= j < has_marker@.len() ==> !#[trigger] has_marker@[j],
        },
{
    let mut k: usize = cwd.len();
    while k > 0
        invariant
            has_marker@.len() == cwd@.len(),
            k <= cwd@.len(),
            forall|j: int| k <= j < has_marker@.len() ==> !#[trigger] has_marker@[j],
        decreases k,
    {
        if has_marker[k - 1] {
            return Some(prefix(cwd, k));
        }
        k = k - 1;
    }
    None
}

/// Whether a project root was found.
pub fn is_git_repo(project_root: &Option<Vec<String>>) -> (r: bool)
    ensures
        r == project_root is Some,
{
    project_root.is_some()
}

/// The project's directory of helper files, under the project root.
pub fn get_project_config_dir(project_root: Option<Vec<String>>) -> (r: Option<Vec<String>>)
    ensures
        match project_root {
            Some(root) => r is Some && parts(r->Some_0@) == parts(root@).push(".git-helper"@),
            None => r is None,
        },
{
    match project_root {
        Some(root) => {
            let mut d = root;
            push_part(&mut d, ".git-helper");
            Some(d)
        },
        None => None,
    }
}

/// The global directory of helper files, under the user's configuration
/// directory.
pub fn get_global_config_dir(config_base: Option<Vec<String>>) -> (r: Option<Vec<String>>)
    ensures
        match config_base {
            Some(base) => r is Some && parts(r->Some_0@) == parts(base@).push("git-helper"@),
            None => r is None,
        },
{
    match config_base {
        Some(base) => {
            let mut d = base;
            push_part(&mut d, "git-helper");
            Some(d)
        },
        None => None,
    }
}

/// The project's configuration file.
pub fn project_config_file(project_root: Vec<String>) -> (r: Vec<String>)
    ensures
        parts(r@) == parts(project_root@).push("git-helper.toml"@),
{
    let mut p = project_root;
    push_part(&mut p, "git-helper.toml");
    p
}

/// The global configuration file, under the user's configuration directory.
pub fn global_config_file(config_base: Vec<String>) -> (r: Vec<String>)
    ensures
        parts(r@) == parts(config_base@).push("git-helper"@).push("config.toml"@),
{
    let mut p = config_base;
    push_part(&mut p, "git-helper");
    push_part(&mut p, "config.toml");
    p
}

/// The name of the template file of a commit type.
pub fn template_file_name(commit_type: &str) -> (r: String)
    ensures
        r@ == commit_type@ + ".txt"@,
{
    let mut r = String::from_str(commit_type);
    r.append(".txt");
    r
}

/// The project's template file for `commit_type`.
pub fn project_template_file(project_root: Vec<String>, commit_type: &str) -> (r: Vec<String>)
    ensures
        parts(r@) == parts(project_root@).push(".git-helper"@).push("templates"@).push(
            commit_type@ + ".txt"@,
        ),
{
    let mut p = project_root;
    push_part(&mut p, ".git-helper");
    push_part(&mut p, "templates");
    let name = template_file_name(commit_type);
    push_part(&mut p, name.as_str());
    p
}

/// The global template file for `commit_type`, under the user's
/// configuration directory.
pub fn global_template_file(config_base: Vec<String>, commit_type: &str) -> (r: Vec<String>)
    ensures
        parts(r@) == parts(config_base@).push("git-helper"@).push("templates"@).push(
            commit_type@ + ".txt"@,
        ),
{
    let mut p = config_base;
    push_part(&mut p, "git-helper");
    push_part(&mut p, "templates");
    let name = template_file_name(commit_type);
    push_part(&mut p, name.as_str());
    p
}

} // verus!

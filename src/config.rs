//! The helper's configuration: the built-in default and the choice among
//! the project file, the global file and that default.
use vstd::prelude::*;

use crate::error::HelperError;
use crate::template::{default_template, default_template_text};

verus! {

/// Who commits, as far as the configuration says.
#[derive(Debug, Clone)]
pub struct UserConfig {
    pub name: Option<String>,
    pub email: Option<String>,
}

/// The helper's configuration.
///
/// `commit_types` maps a commit-type tag to its template, one entry per tag.
#[derive(Debug, Clone)]
pub struct Config {
    pub default_branch: String,
    pub commit_types: Vec<(String, String)>,
    pub user: Option<UserConfig>,
}

/// The template that `entries` gives for `tag`.
pub open spec fn lookup(entries: Seq<(String, String)>, tag: Seq<char>) -> Option<Seq<char>>
    decreases entries.len(),
{
    if entries.len() == 0 {
        None
    } else if entries[0].0@ == tag {
        Some(entries[0].1@)
    } else {
        lookup(entries.drop_first(), tag)
    }
}

/// The tags that the built-in configuration knows, in its order.
pub open spec fn builtin_tags() -> Seq<Seq<char>> {
    seq!["feat"@, "fix"@, "docs"@, "style"@, "refactor"@, "test"@, "chore"@]
}

/// The branch that the configuration names when it names none.
pub open spec fn builtin_branch() -> Seq<char> {
    "main"@
}

/// Whether two texts hold the same characters.
pub fn same_text(a: &str, b: &str) -> (r: bool)
    ensures
        r == (a@ == b@),
{
    let n = a.unicode_len();
    if n != b.unicode_len() {
        return false;
    }
    let mut i: usize = 0;
    while i < n
        invariant
            n == a@.len(),
            n == b@.len(),
            i <= n,
            forall|j: int| 0 <= j < i ==> a@[j] == b@[j],
        decreases n - i,
    {
        if a.get_char(i) != b.get_char(i) {
            return false;
        }
        i = i + 1;
    }
    assert(a@ =~= b@);
    true
}

impl Config {
    /// The template configured for `tag`.
    pub open spec fn template_of(&self, tag: Seq<char>) -> Option<Seq<char>> {
        lookup(self.commit_types@, tag)
    }

    /// Each tag has at most one entry.
    pub open spec fn wf(&self) -> bool {
        forall|i: int, j: int|
            0 <= i < j < self.commit_types@.len() ==> #[trigger] self.commit_types@[i].0@
                != #[trigger] self.commit_types@[j].0@
    }

    /// The built-in configuration: branch `main`, no user, and for each
    /// built-in tag the default template of that tag.
    pub open spec fn is_builtin_default(&self) -> bool {
        &&& self.default_branch@ == builtin_branch()
        &&& self.user is None
        &&& self.commit_types@.len() == builtin_tags().len()
        &&& forall|i: int|
            0 <= i < builtin_tags().len() ==> {
                &&& #[trigger] self.commit_types@[i].0@ == builtin_tags()[i]
                &&& self.commit_types@[i].1@ == default_template_text(builtin_tags()[i])
            }
    }

    /// The template configured for `commit_type`.
    pub fn get_commit_template(&self, commit_type: &str) -> (r: Option<&String>)
        ensures
            match r {
                Some(s) => self.template_of(commit_type@) == Some(s@),
                None => self.template_of(commit_type@) is None,
            },
    {
        let n = self.commit_types.len();
        let mut i: usize = 0;
        assert(self.commit_types@.skip(0) =~= self.commit_types@);
        while i < n
            invariant
                n == self.commit_types@.len(),
                i <= n,
                self.template_of(commit_type@) == lookup(self.commit_types@.skip(i as int), commit_type@),
            decreases n - i,
        {
            let entry = &self.commit_types[i];
            assert(self.commit_types@.skip(i as int).drop_first() =~= self.commit_types@.skip(i + 1));
            assert(self.commit_types@.skip(i as int)[0] == *entry);
            if same_text(entry.0.as_str(), commit_type) {
                return Some(&entry.1);
            }
            i = i + 1;
        }
        None
    }
}

/// Where keys are unique, the entry of a key gives its template.
proof fn lemma_lookup_entry(entries: Seq<(String, String)>, i: int)
    requires
        0 <= i < entries.len(),
        forall|a: int, b: int|
            0 <= a < b < entries.len() ==> #[trigger] entries[a].0@ != #[trigger] entries[b].0@,
    ensures
        lookup(entries, entries[i].0@) == Some(entries[i].1@),
    decreases i,
{
    if i > 0 {
        let rest = entries.drop_first();
        assert(entries[0].0@ != entries[i].0@);
        assert(rest[i - 1] == entries[i]);
        assert forall|a: int, b: int| 0 <= a < b < rest.len() implies #[trigger] rest[a].0@
            != #[trigger] rest[b].0@ by {
            assert(rest[a] == entries[a + 1]);
            assert(rest[b] == entries[b + 1]);
        }
        lemma_lookup_entry(rest, i - 1);
    }
}

/// The built-in tags are distinct.
proof fn lemma_builtin_tags_distinct(i: int, j: int)
    requires
        0 <= i < j < builtin_tags().len(),
    ensures
        builtin_tags()[i] != builtin_tags()[j],
{
    reveal_strlit("feat");
    reveal_strlit("fix");
    reveal_strlit("docs");
    reveal_strlit("style");
    reveal_strlit("refactor");
    reveal_strlit("test");
    reveal_strlit("chore");
    assert(builtin_tags()[i].len() != builtin_tags()[j].len() || builtin_tags()[i][0]
        != builtin_tags()[j][0] || builtin_tags()[i][1] != builtin_tags()[j][1]);
}

/// The built-in configuration gives each built-in tag its default template.
pub proof fn lemma_builtin_default_templates(c: Config)
    requires
        c.is_builtin_default(),
    ensures
        forall|i: int|
            0 <= i < builtin_tags().len() ==> #[trigger] c.template_of(builtin_tags()[i]) == Some(
                default_template_text(builtin_tags()[i]),
            ),
{
    let e = c.commit_types@;
    assert forall|a: int, b: int| 0 <= a < b < e.len() implies #[trigger] e[a].0@
        != #[trigger] e[b].0@ by {
        assert(e[a].0@ == builtin_tags()[a]);
        assert(e[b].0@ == builtin_tags()[b]);
        lemma_builtin_tags_distinct(a, b);
    }
    assert forall|i: int| 0 <= i < builtin_tags().len() implies #[trigger] c.template_of(
        builtin_tags()[i],
    ) == Some(default_template_text(builtin_tags()[i])) by {
        assert(e[i].0@ == builtin_tags()[i]);
        lemma_lookup_entry(e, i);
    }
}

impl Default for Config {
    /// The built-in configuration.
    fn default() -> (r: Self)
        ensures
            r.is_builtin_default(),
            r.wf(),
    {
        let mut commit_types: Vec<(String, String)> = Vec::new();
        commit_types.push((String::from_str("feat"), default_template("feat")));
        commit_types.push((String::from_str("fix"), default_template("fix")));
        commit_types.push((String::from_str("docs"), default_template("docs")));
        commit_types.push((String::from_str("style"), default_template("style")));
        commit_types.push((String::from_str("refactor"), default_template("refactor")));
        commit_types.push((String::from_str("test"), default_template("test")));
        commit_types.push((String::from_str("chore"), default_template("chore")));
        let r = Config { default_branch: String::from_str("main"), commit_types, user: None };
        proof {
            assert forall|i: int, j: int|
                0 <= i < j < r.commit_types@.len() implies #[trigger] r.commit_types@[i].0@
                    != #[trigger] r.commit_types@[j].0@ by {
                lemma_builtin_tags_distinct(i, j);
            }
        }
        r
    }
}

/// A configuration built from the fields a configuration file gave. A
/// missing branch is `main`; missing templates are none at all, not the
/// built-in ones.
pub fn config_from_fields(
    default_branch: Option<String>,
    commit_types: Option<Vec<(String, String)>>,
    user: Option<UserConfig>,
) -> (r: Config)
    ensures
        r.default_branch@ == match default_branch {
            Some(b) => b@,
            None => builtin_branch(),
        },
        r.commit_types@ == match commit_types {
            Some(t) => t@,
            None => Seq::empty(),
        },
        r.user == user,
{
    let default_branch = match default_branch {
        Some(b) => b,
        None => String::from_str("main"),
    };
    let commit_types = match commit_types {
        Some(t) => t,
        None => Vec::new(),
    };
    Config { default_branch, commit_types, user }
}

/// What was found at one place where a file may stand: nothing, or the
/// result of reading and parsing it.
pub type Found<T> = Option<Result<T, HelperError>>;

/// The configuration in force: the project file if there is one, else the
/// global file if there is one, else the built-in configuration. A file that
/// is found but cannot be read or parsed is an error; the search does not go
/// on past it.
pub fn load_config(project: Found<Config>, global: Found<Config>) -> (r: Result<Config, HelperError>)
    ensures
        project is Some ==> r == project->Some_0,
        project is None && global is Some ==> r == global->Some_0,
        project is None && global is None ==> r is Ok && r->Ok_0.is_builtin_default(),
{
    match project {
        Some(found) => found,
        None => match global {
            Some(found) => found,
            None => Ok(Config::default()),
        },
    }
}

} // verus!

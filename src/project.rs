//! Project manifests and the project records resolved from them, and the
//! rules that decide which directory entries a manifest walk visits.

use vstd::prelude::*;
use vstd::string::*;
use crate::text::{base_name, last_component, str_equal, to_upper, upper_of};

verus! {

/// Directory base names whose subtrees a walk never visits: build output and
/// dependency caches.
pub open spec fn is_ignored_name(name: Seq<char>) -> bool {
    name == "node_modules"@ || name == "build"@ || name == "target"@ || name == "dist"@ || name
        == "out"@
}

/// The fixed file name that marks a directory as a project root.
pub open spec fn manifest_name() -> Seq<char> {
    ".dexproject"@
}

/// Whether a walk prunes the entry with this base name.
pub fn is_ignored_dir(name: &str) -> (r: bool)
    ensures
        r == is_ignored_name(name@),
{
    proof {
        reveal_strlit("node_modules");
        reveal_strlit("build");
        reveal_strlit("target");
        reveal_strlit("dist");
        reveal_strlit("out");
    }
    str_equal(name, "node_modules") || str_equal(name, "build") || str_equal(name, "target")
        || str_equal(name, "dist") || str_equal(name, "out")
}

/// Whether an entry with this base name is a project manifest.
pub fn is_manifest_name(name: &str) -> (r: bool)
    ensures
        r == (name@ == manifest_name()),
{
    proof {
        reveal_strlit(".dexproject");
    }
    str_equal(name, ".dexproject")
}

/// A walk from a root reports the entry reached through `components` (the
/// base names below the root, outermost first; the root itself is never
/// pruned) exactly when none of them is pruned and the last one is a
/// manifest.
pub open spec fn walk_reports(components: Seq<Seq<char>>) -> bool {
    &&& components.len() > 0
    &&& components.last() == manifest_name()
    &&& forall|k: int| 0 <= k < components.len() ==> !is_ignored_name(#[trigger] components[k])
}

/// Decides whether a walk reports the entry reached through `components`.
pub fn walk_reports_path(components: &Vec<String>) -> (r: bool)
    ensures
        r == walk_reports(components@.map_values(|s: String| s@)),
{
    let ghost names = components@.map_values(|s: String| s@);
    let n = components.len();
    if n == 0 {
        return false;
    }
    let mut i: usize = 0;
    while i < n
        invariant
            n == components@.len(),
            names == components@.map_values(|s: String| s@),
            i <= n,
            forall|k: int| 0 <= k < i ==> !is_ignored_name(#[trigger] names[k]),
        decreases n - i,
    {
        if is_ignored_dir(components[i].as_str()) {
            assert(is_ignored_name(names[i as int]));
            return false;
        }
        i = i + 1;
    }
    is_manifest_name(components[n - 1].as_str())
}

/// A manifest below a directory named `node_modules` is never reported, at
/// whatever depth it lies and whatever stands beside it.
pub proof fn lemma_ignored_subtree_unreported(components: Seq<Seq<char>>, k: int)
    requires
        0 <= k < components.len(),
        components[k] == "node_modules"@,
    ensures
        !walk_reports(components),
{
}

/// The fields a manifest may declare.
#[derive(Debug)]
pub struct ProjectConfig {
    pub language: Option<String>,
    pub name: Option<String>,
}

/// A resolved project: display name, upper-case language label and the
/// absolute path of its root directory.
#[derive(Debug)]
pub struct ProjectInfo {
    pub name: String,
    pub language: String,
    pub directory: String,
}

pub open spec fn opt_view(o: Option<String>) -> Option<Seq<char>> {
    match o {
        Some(s) => Some(s@),
        None => None,
    }
}

/// The name a manifest resolves to: the declared one, else the base name of
/// the directory that holds it.
pub open spec fn resolved_name(name: Option<Seq<char>>, directory: Seq<char>) -> Seq<char> {
    match name {
        Some(n) => n,
        None => last_component(directory),
    }
}

/// The language label a manifest resolves to: the declared one in upper case,
/// else `UNKNOWN`.
pub open spec fn resolved_language(language: Option<Seq<char>>) -> Seq<char> {
    match language {
        Some(l) => upper_of(l),
        None => "UNKNOWN"@,
    }
}

/// Builds the project record for a parsed manifest found in `directory`.
pub fn resolve_project(config: &ProjectConfig, directory: &str) -> (r: ProjectInfo)
    ensures
        r.name@ == resolved_name(opt_view(config.name), directory@),
        r.language@ == resolved_language(opt_view(config.language)),
        r.directory@ == directory@,
{
    let name = match &config.name {
        Some(n) => n.clone(),
        None => base_name(directory),
    };
    let language = match &config.language {
        Some(l) => to_upper(l.as_str()),
        None => {
            proof {
                reveal_strlit("UNKNOWN");
            }
            String::from_str("UNKNOWN")
        },
    };
    ProjectInfo { name, language, directory: String::from_str(directory) }
}

/// A manifest found during a scan: the directory that holds it, and its
/// fields if it could be read and parsed.
pub struct FoundManifest {
    pub directory: String,
    pub config: Option<ProjectConfig>,
}

/// The record a found manifest resolves to, if it was parsed.
pub open spec fn resolves_to(m: FoundManifest, p: ProjectInfo) -> bool {
    &&& p.name@ == resolved_name(opt_view(m.config.unwrap().name), m.directory@)
    &&& p.language@ == resolved_language(opt_view(m.config.unwrap().language))
    &&& p.directory@ == m.directory@
}

/// The manifests that were parsed, in order.
pub open spec fn parsed(found: Seq<FoundManifest>) -> Seq<FoundManifest>
    decreases found.len(),
{
    if found.len() == 0 {
        Seq::empty()
    } else {
        let before = parsed(found.drop_last());
        if found.last().config.is_some() {
            before.push(found.last())
        } else {
            before
        }
    }
}

/// Resolves every parsed manifest, in order; a manifest that could not be
/// read or parsed is dropped and the others are kept.
pub fn resolve_projects(found: &Vec<FoundManifest>) -> (r: Vec<ProjectInfo>)
    ensures
        r@.len() == parsed(found@).len(),
        forall|k: int| 0 <= k < r@.len() ==> resolves_to(parsed(found@)[k], #[trigger] r@[k]),
{
    let mut r: Vec<ProjectInfo> = Vec::new();
    let n = found.len();
    let mut i: usize = 0;
    while i < n
        invariant
            n == found@.len(),
            i <= n,
            r@.len() == parsed(found@.subrange(0, i as int)).len(),
            forall|k: int|
                0 <= k < r@.len() ==> resolves_to(parsed(found@.subrange(0, i as int))[k], #[trigger] r@[k]),
        decreases n - i,
    {
        proof {
            assert(found@.subrange(0, i + 1).drop_last() =~= found@.subrange(0, i as int));
        }
        let m = &found[i];
        match &m.config {
            Some(config) => {
                let p = resolve_project(config, m.directory.as_str());
                r.push(p);
            },
            None => {},
        }
        i = i + 1;
    }
    proof {
        assert(found@.subrange(0, n as int) =~= found@);
    }
    r
}

/// The directories of the records that a list of found manifests resolves
/// to, in order.
pub open spec fn resolved_directories(found: Seq<FoundManifest>) -> Seq<Seq<char>> {
    parsed(found).map_values(|m: FoundManifest| m.directory@)
}

/// Resolving the manifests of an unchanged tree twice gives the same
/// directories: the records' directories are fixed by what was found.
pub proof fn lemma_rescan_same_directories(
    found: Seq<FoundManifest>,
    first: Seq<ProjectInfo>,
    second: Seq<ProjectInfo>,
)
    requires
        first.len() == parsed(found).len(),
        forall|k: int| 0 <= k < first.len() ==> resolves_to(parsed(found)[k], #[trigger] first[k]),
        second.len() == parsed(found).len(),
        forall|k: int| 0 <= k < second.len() ==> resolves_to(parsed(found)[k], #[trigger] second[k]),
    ensures
        first.map_values(|p: ProjectInfo| p.directory@) == resolved_directories(found),
        second.map_values(|p: ProjectInfo| p.directory@) == resolved_directories(found),
        first.map_values(|p: ProjectInfo| p.directory@).to_set() == second.map_values(
            |p: ProjectInfo| p.directory@,
        ).to_set(),
{
    assert(first.map_values(|p: ProjectInfo| p.directory@) =~= resolved_directories(found)) by {
        assert forall|k: int| 0 <= k < first.len() implies first.map_values(
            |p: ProjectInfo| p.directory@,
        )[k] == resolved_directories(found)[k] by {
            assert(resolves_to(parsed(found)[k], first[k]));
        }
    }
    assert(second.map_values(|p: ProjectInfo| p.directory@) =~= resolved_directories(found)) by {
        assert forall|k: int| 0 <= k < second.len() implies second.map_values(
            |p: ProjectInfo| p.directory@,
        )[k] == resolved_directories(found)[k] by {
            assert(resolves_to(parsed(found)[k], second[k]));
        }
    }
}

/// A manifest without a name in a directory whose path ends in `/myproj`
/// resolves to the name `myproj`.
pub proof fn lemma_default_name_is_base(parent: Seq<char>, dir_name: Seq<char>)
    requires
        forall|k: int| 0 <= k < dir_name.len() ==> dir_name[k] != '/',
    ensures
        resolved_name(None, parent.push('/') + dir_name) == dir_name,
    decreases dir_name.len(),
{
    let d = parent.push('/') + dir_name;
    if dir_name.len() == 0 {
        assert(d =~= parent.push('/'));
    } else {
        let shorter = dir_name.drop_last();
        assert(d.drop_last() =~= parent.push('/') + shorter);
        lemma_default_name_is_base(parent, shorter);
        assert(shorter.push(dir_name.last()) =~= dir_name);
    }
}

} // verus!

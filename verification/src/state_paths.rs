//! Where the state is stored.
use vstd::prelude::*;

use crate::numbers::{decimal, decimal_of};
use crate::paths::{join_path, joined_path};
use crate::text::joined;

verus! {

/// The directory of the state, in the home directory.
pub open spec fn state_root_of(home: Seq<char>) -> Seq<char> {
    joined_path(home, ".kaku"@)
}

/// The directory of the state, in the home directory.
pub fn state_root(home: &str) -> (r: String)
    ensures
        r@ == state_root_of(home@),
{
    join_path(home, ".kaku")
}

/// The file of the projects.
pub open spec fn projects_path_of(root: Seq<char>) -> Seq<char> {
    joined_path(root, "projects.json"@)
}

/// The file of the projects.
pub fn projects_file_path(root: &str) -> (r: String)
    ensures
        r@ == projects_path_of(root@),
{
    join_path(root, "projects.json")
}

/// The directory of a project.
pub open spec fn project_dir_of(root: Seq<char>, project_id: Seq<char>) -> Seq<char> {
    joined_path(joined_path(root, "projects"@), project_id)
}

/// The directory of a project.
pub fn project_dir(root: &str, project_id: &str) -> (r: String)
    ensures
        r@ == project_dir_of(root@, project_id@),
{
    join_path(join_path(root, "projects").as_str(), project_id)
}

/// The file of a project's sessions.
pub open spec fn sessions_path_of(root: Seq<char>, project_id: Seq<char>) -> Seq<char> {
    joined_path(project_dir_of(root, project_id), "sessions.json"@)
}

/// The file of a project's sessions.
pub fn sessions_file_path(root: &str, project_id: &str) -> (r: String)
    ensures
        r@ == sessions_path_of(root@, project_id@),
{
    join_path(project_dir(root, project_id).as_str(), "sessions.json")
}

/// The file of a project's snippets.
pub open spec fn snippets_path_of(root: Seq<char>, project_id: Seq<char>) -> Seq<char> {
    joined_path(joined_path(project_dir_of(root, project_id), "resources"@), "snippets.json"@)
}

/// The file of a project's snippets.
pub fn sidebar_project_snippets_path(root: &str, project_id: &str) -> (r: String)
    ensures
        r@ == snippets_path_of(root@, project_id@),
{
    join_path(join_path(project_dir(root, project_id).as_str(), "resources").as_str(), "snippets.json")
}

/// The file of the sidebar's size and visibility.
pub fn sidebar_ui_state_path(root: &str) -> (r: String)
    ensures
        r@ == joined_path(root@, "gui/sidebar.json"@),
{
    join_path(root, "gui/sidebar.json")
}

/// The name of the file that is written first and then takes the place of the file `name`.
pub fn temporary_file_name(name: &str, process: u32, nanos: u128) -> (r: String)
    ensures
        r@ == "."@ + name@ + ".tmp-"@ + decimal_of(process as nat) + "-"@ + decimal_of(
            nanos as nat,
        ),
{
    let mut text = joined(".", name);
    text.append(".tmp-");
    text.append(decimal(process as u128).as_str());
    text.append("-");
    text.append(decimal(nanos).as_str());
    text
}

proof fn lemma_joined_path_distinct(base: Seq<char>, a: Seq<char>, b: Seq<char>)
    requires
        a != b,
        !crate::paths::rooted(a),
        !crate::paths::rooted(b),
    ensures
        joined_path(base, a) != joined_path(base, b),
{
    let head = if base.len() == 0 || base.last() == '/' {
        base
    } else {
        base + "/"@
    };
    if joined_path(base, a) == joined_path(base, b) {
        assert(joined_path(base, a) =~= head + a);
        assert(joined_path(base, b) =~= head + b);
        assert((head + a).skip(head.len() as int) =~= a);
        assert((head + b).skip(head.len() as int) =~= b);
    }
}

/// Projects with different ids have different directories, as long as neither id is a path from the
/// root.
pub proof fn law_project_dirs_differ(root: Seq<char>, a: Seq<char>, b: Seq<char>)
    requires
        a != b,
        !crate::paths::rooted(a),
        !crate::paths::rooted(b),
    ensures
        project_dir_of(root, a) != project_dir_of(root, b),
{
    lemma_joined_path_distinct(joined_path(root, "projects"@), a, b);
}

} // verus!

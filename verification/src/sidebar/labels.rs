//! The words that the sidebar shows.
use vstd::prelude::*;

use crate::numbers::{decimal, decimal_of};
use crate::sidebar::model::{
    find_project, find_session_in, project_with_id, session_in, ProjectView, SessionView,
    WorkspaceSidebarProject,
};
use crate::text::{
    chars_of, is_empty, join, joined_with, split_whitespace, text_of, trim, trimmed, words_of,
};

verus! {

/// `input` where it is short enough, and else its beginning and its end with dots between them.
pub open spec fn shortened(input: Seq<char>, max: nat) -> Seq<char> {
    if input.len() <= max {
        input
    } else if max <= 3 {
        "..."@
    } else {
        let keep = ((max - 3) / 2) as int;
        input.take(keep) + "..."@ + input.skip(input.len() - keep)
    }
}

/// `input` where it is short enough, and else its beginning and its end with dots between them.
pub fn truncate_middle(input: &str, max_chars: usize) -> (r: String)
    ensures
        r@ == shortened(input@, max_chars as nat),
{
    let chars = chars_of(input);
    let total: usize = chars.len();
    if total <= max_chars {
        return input.to_owned();
    }
    if max_chars <= 3 {
        return "...".to_owned();
    }
    let keep: usize = (max_chars - 3) / 2;
    let mut out = text_of(&chars, 0, keep);
    out.append("...");
    out.append(text_of(&chars, total - keep, total).as_str());
    proof {
        assert(chars@.subrange(0, keep as int) =~= input@.take(keep as int));
        assert(chars@.subrange(total - keep, total as int) =~= input@.skip(input@.len() - keep));
    }
    out
}

/// What is shortened fits, and what fits is not shortened. (Three dots are the shortest form.)
pub proof fn law_shortened_fits(input: Seq<char>, max: nat)
    ensures
        max >= 3 ==> shortened(input, max).len() <= max,
        input.len() <= max ==> shortened(input, max) == input,
        max >= 3 ==> shortened(shortened(input, max), max) == shortened(input, max),
{
    reveal_strlit("...");
}

/// The word for so many sessions.
pub open spec fn session_word(count: nat) -> Seq<char> {
    if count == 1 {
        "session"@
    } else {
        "sessions"@
    }
}

/// The word for so many sessions.
pub fn pluralize_session(count: usize) -> (r: &'static str)
    ensures
        r@ == session_word(count as nat),
{
    if count == 1 {
        "session"
    } else {
        "sessions"
    }
}

/// How many words of a snippet make its name.
pub const SNIPPET_NAME_WORDS: usize = 8;

/// How many characters the name of a snippet has at most.
pub const SNIPPET_NAME_CHARS: usize = 36;

/// At most the first words.
pub open spec fn first_words(words: Seq<Seq<char>>) -> Seq<Seq<char>> {
    if words.len() <= SNIPPET_NAME_WORDS {
        words
    } else {
        words.take(SNIPPET_NAME_WORDS as int)
    }
}

/// A name for a snippet: its first words, shortened, or a fixed name where it has none.
pub open spec fn snippet_name(content: Seq<char>) -> Seq<char> {
    let compact = joined_with(first_words(words_of(content)), " "@);
    let candidate = if compact.len() == 0 {
        trimmed(content)
    } else {
        compact
    };
    if candidate.len() == 0 {
        "snippet"@
    } else {
        shortened(candidate, SNIPPET_NAME_CHARS as nat)
    }
}

/// A name for a snippet.
pub fn derive_snippet_name(content: &str) -> (r: String)
    ensures
        r@ == snippet_name(content@),
{
    let mut words = split_whitespace(content);
    let ghost all = words.deep_view();
    assert(all.len() == words@.len());
    if words.len() > SNIPPET_NAME_WORDS {
        words.truncate(SNIPPET_NAME_WORDS);
        assert(words.deep_view() =~= all.take(SNIPPET_NAME_WORDS as int));
    }
    let compact = join(&words, " ");
    let candidate = if is_empty(compact.as_str()) {
        trim(content)
    } else {
        compact
    };
    if is_empty(candidate.as_str()) {
        return "snippet".to_owned();
    }
    truncate_middle(candidate.as_str(), SNIPPET_NAME_CHARS)
}

/// The name of a project; its id where it is not there.
pub open spec fn project_name(projects: Seq<ProjectView>, project_id: Seq<char>) -> Seq<char> {
    match project_with_id(projects, project_id) {
        Some(project) => project.name,
        None => project_id,
    }
}

/// The name of a project; its id where it is not there.
pub fn sidebar_project_display_name(
    projects: &Vec<WorkspaceSidebarProject>,
    project_id: &str,
) -> (r: String)
    ensures
        r@ == project_name(projects.deep_view(), project_id@),
{
    match find_project(projects, project_id) {
        Some(project) => project.name.clone(),
        None => project_id.to_owned(),
    }
}

/// The title of a session; its id where it is not there.
pub open spec fn session_name(
    projects: Seq<ProjectView>,
    project_id: Seq<char>,
    session_id: Seq<char>,
) -> Seq<char> {
    match session_in(projects, project_id, session_id) {
        Some(session) => session.title,
        None => session_id,
    }
}

/// The title of a session; its id where it is not there.
pub fn sidebar_session_display_name(
    projects: &Vec<WorkspaceSidebarProject>,
    project_id: &str,
    session_id: &str,
) -> (r: String)
    ensures
        r@ == session_name(projects.deep_view(), project_id@, session_id@),
{
    match find_session_in(projects, project_id, session_id) {
        Some(session) => session.title.clone(),
        None => session_id.to_owned(),
    }
}

/// Whether a session is pinned, where it is there.
pub open spec fn session_pinned(
    projects: Seq<ProjectView>,
    project_id: Seq<char>,
    session_id: Seq<char>,
) -> Option<bool> {
    match session_in(projects, project_id, session_id) {
        Some(session) => Some(session.pinned),
        None => None,
    }
}

/// Whether a session is pinned, where it is there.
pub fn sidebar_lookup_session_pinned(
    projects: &Vec<WorkspaceSidebarProject>,
    project_id: &str,
    session_id: &str,
) -> (r: Option<bool>)
    ensures
        r == session_pinned(projects.deep_view(), project_id@, session_id@),
{
    match find_session_in(projects, project_id, session_id) {
        Some(session) => Some(session.pinned),
        None => None,
    }
}

/// The question before the other sessions of a project are closed.
pub open spec fn close_others_question(
    count: nat,
    project: Seq<char>,
    session: Seq<char>,
) -> Seq<char> {
    "Close "@ + decimal_of(count) + " unpinned "@ + session_word(count) + " in \""@ + project
        + "\"?\nKeep current \""@ + session + "\" and all pinned sessions."@
}

/// The question before the other sessions of a project are closed.
pub fn close_others_message(count: usize, project_name: &str, session_name: &str) -> (r: String)
    ensures
        r@ == close_others_question(count as nat, project_name@, session_name@),
{
    let mut text = "Close ".to_owned();
    text.append(decimal(count as u128).as_str());
    text.append(" unpinned ");
    text.append(pluralize_session(count));
    text.append(" in \"");
    text.append(project_name);
    text.append("\"?\nKeep current \"");
    text.append(session_name);
    text.append("\" and all pinned sessions.");
    text
}

/// The question before the sessions of a project are closed.
pub open spec fn close_all_question(count: nat, project: Seq<char>) -> Seq<char> {
    "Close all "@ + decimal_of(count) + " unpinned "@ + session_word(count) + " in \""@ + project
        + "\"?\nPinned sessions will remain open."@
}

/// The question before the sessions of a project are closed.
pub fn close_all_message(count: usize, project_name: &str) -> (r: String)
    ensures
        r@ == close_all_question(count as nat, project_name@),
{
    let mut text = "Close all ".to_owned();
    text.append(decimal(count as u128).as_str());
    text.append(" unpinned ");
    text.append(pluralize_session(count));
    text.append(" in \"");
    text.append(project_name);
    text.append("\"?\nPinned sessions will remain open.");
    text
}

/// The question before a session is deleted.
pub open spec fn delete_session_question(
    session: Seq<char>,
    project: Seq<char>,
    pinned: bool,
) -> Seq<char> {
    (if pinned {
        "Delete pinned session \""@
    } else {
        "Delete session \""@
    }) + session + "\" from \""@ + project + "\"?\nThis cannot be undone."@
}

/// The question before a session is deleted.
pub fn delete_session_message(session_name: &str, project_name: &str, pinned: bool) -> (r: String)
    ensures
        r@ == delete_session_question(session_name@, project_name@, pinned),
{
    let mut text = (if pinned {
        "Delete pinned session \""
    } else {
        "Delete session \""
    }).to_owned();
    text.append(session_name);
    text.append("\" from \"");
    text.append(project_name);
    text.append("\"?\nThis cannot be undone.");
    text
}

/// The question before a project is deleted.
pub open spec fn delete_project_question(
    project: Seq<char>,
    sessions: nat,
    pinned: nat,
) -> Seq<char> {
    let head = "Delete project \""@ + project + "\""@;
    if sessions == 0 {
        head + "?\nThis cannot be undone."@
    } else if pinned > 0 {
        head + " with "@ + decimal_of(sessions) + " "@ + session_word(sessions) + " ("@
            + decimal_of(pinned) + " pinned)?\nThis cannot be undone."@
    } else {
        head + " with "@ + decimal_of(sessions) + " "@ + session_word(sessions)
            + "?\nThis cannot be undone."@
    }
}

/// The question before a project is deleted.
pub fn delete_project_message(
    project_name: &str,
    session_count: usize,
    pinned_count: usize,
) -> (r: String)
    ensures
        r@ == delete_project_question(
            project_name@,
            session_count as nat,
            pinned_count as nat,
        ),
{
    let mut text = "Delete project \"".to_owned();
    text.append(project_name);
    text.append("\"");
    if session_count > 0 {
        text.append(" with ");
        text.append(decimal(session_count as u128).as_str());
        text.append(" ");
        text.append(pluralize_session(session_count));
        if pinned_count > 0 {
            text.append(" (");
            text.append(decimal(pinned_count as u128).as_str());
            text.append(" pinned)?\nThis cannot be undone.");
        } else {
            text.append("?\nThis cannot be undone.");
        }
    } else {
        text.append("?\nThis cannot be undone.");
    }
    text
}

/// How many of the sessions are pinned.
pub open spec fn pinned_count(sessions: Seq<SessionView>) -> nat
    decreases sessions.len(),
{
    if sessions.len() == 0 {
        0
    } else {
        pinned_count(sessions.drop_last()) + if sessions.last().pinned {
            1nat
        } else {
            0nat
        }
    }
}

/// How many sessions a project has and how many of them are pinned; none where it is not there.
pub fn session_counts(projects: &Vec<WorkspaceSidebarProject>, project_id: &str) -> (r: (
    usize,
    usize,
))
    ensures
        match project_with_id(projects.deep_view(), project_id@) {
            Some(project) => r.0 == project.sessions.len() && r.1 == pinned_count(project.sessions),
            None => r == (0usize, 0usize),
        },
{
    match find_project(projects, project_id) {
        Some(project) => {
            let ghost all = project.sessions.deep_view();
            let mut pinned: usize = 0;
            let mut i: usize = 0;
            assert(all.len() == project.sessions@.len());
            while i < project.sessions.len()
                invariant
                    i <= project.sessions@.len(),
                    all == project.sessions.deep_view(),
                    pinned <= i,
                    pinned == pinned_count(all.take(i as int)),
                decreases project.sessions@.len() - i,
            {
                proof {
                    assert(all.take(i + 1).drop_last() =~= all.take(i as int));
                    assert(all.take(i + 1).last() == project.sessions@[i as int].deep_view());
                }
                if project.sessions[i].pinned {
                    pinned = pinned + 1;
                }
                i = i + 1;
            }
            assert(all.take(i as int) =~= all);
            (project.sessions.len(), pinned)
        },
        None => (0, 0),
    }
}

/// What is said after sessions were closed.
pub open spec fn closed_text(count: nat) -> Seq<char> {
    if count == 0 {
        "No unpinned sessions to close"@
    } else {
        "Closed "@ + decimal_of(count) + " "@ + session_word(count) + "."@
    }
}

/// What is said after sessions were closed.
pub fn closed_message(count: usize) -> (r: String)
    ensures
        r@ == closed_text(count as nat),
{
    if count == 0 {
        return "No unpinned sessions to close".to_owned();
    }
    let mut text = "Closed ".to_owned();
    text.append(decimal(count as u128).as_str());
    text.append(" ");
    text.append(pluralize_session(count));
    text.append(".");
    text
}

} // verus!

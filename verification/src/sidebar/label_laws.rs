//! What holds of the texts that the sidebar shows: names, shortened names, questions and notices.
use vstd::prelude::*;

use crate::numbers::decimal_of;
use crate::sidebar::labels::{
    close_all_question, close_others_question, closed_text, delete_project_question,
    delete_session_question, pinned_count, project_name, session_name, session_pinned,
    session_word, shortened, snippet_name,
};
use crate::sidebar::model::{project_with_id, session_in, ProjectView, SessionView};
use crate::sidebar::requests::SidebarNotice;
use crate::text::{begins, contains, joined_with, trimmed, words_of};
use crate::text_laws::{law_parts_are_found, law_words_are_solid};

verus! {

/// A text that is too long is cut in its middle: its start and its end stay, equally long, and three
/// dots stand between them.
pub proof fn law_cut_in_the_middle(input: Seq<char>, max: nat)
    requires
        input.len() > max,
        max > 3,
    ensures
        ({
            let cut = shortened(input, max);
            let kept = ((max - 3) / 2) as int;
            &&& cut.len() == 2 * kept + 3
            &&& max - 1 <= cut.len() <= max
            &&& forall|i: int| 0 <= i < kept ==> #[trigger] cut[i] == input[i]
            &&& cut[kept] == '.' && cut[kept + 1] == '.' && cut[kept + 2] == '.'
            &&& forall|i: int|
                kept + 3 <= i < cut.len() ==> #[trigger] cut[i] == input[input.len() - (cut.len()
                    - i)]
        }),
{
    reveal_strlit("...");
}

/// One is a session, any other number are sessions.
pub proof fn law_session_word(count: nat)
    ensures
        session_word(1) == "session"@,
        count != 1 ==> session_word(count) == "sessions"@,
{
}

/// The name of a snippet is never empty; a snippet of one word that fits has the word as its name,
/// and a blank one is called a snippet.
pub proof fn law_snippet_names(content: Seq<char>)
    ensures
        words_of(content).len() == 1 && words_of(content)[0].len() <= 36 ==> snippet_name(content)
            == words_of(content)[0],
        1 <= words_of(content).len() <= 8 && joined_with(words_of(content), " "@).len() <= 36
            && joined_with(words_of(content), " "@).len() > 0 ==> snippet_name(content)
            == joined_with(words_of(content), " "@),
        words_of(content).len() > 8 && joined_with(words_of(content).take(8), " "@).len() <= 36
            && joined_with(words_of(content).take(8), " "@).len() > 0 ==> snippet_name(content)
            == joined_with(words_of(content).take(8), " "@),
        trimmed(content).len() == 0 && words_of(content).len() == 0 ==> snippet_name(content)
            == "snippet"@,
        snippet_name(content).len() <= 36,
{
    reveal_strlit("snippet");
    reveal_strlit("...");
    let words = words_of(content);
    if words.len() == 1 {
        law_words_are_solid(content, 0);
        assert(joined_with(words, " "@) == words[0]);
    }
}

/// A project and a session are called by their name and their title, and by their id where they are
/// not known.
pub proof fn law_names_are_looked_up(
    projects: Seq<ProjectView>,
    project_id: Seq<char>,
    session_id: Seq<char>,
)
    ensures
        project_with_id(projects, project_id) matches Some(project) ==> project_name(
            projects,
            project_id,
        ) == project.name,
        project_with_id(projects, project_id) is None ==> project_name(projects, project_id)
            == project_id,
        session_in(projects, project_id, session_id) matches Some(session) ==> session_name(
            projects,
            project_id,
            session_id,
        ) == session.title && session_pinned(projects, project_id, session_id) == Some(
            session.pinned,
        ),
        session_in(projects, project_id, session_id) is None ==> session_name(
            projects,
            project_id,
            session_id,
        ) == session_id && session_pinned(projects, project_id, session_id) is None,
{
}

/// A project is found by its id, a session by its id within the project, and nothing is found that is
/// not there.
pub proof fn law_lookups_find_by_id(
    projects: Seq<ProjectView>,
    project_id: Seq<char>,
    session_id: Seq<char>,
)
    ensures
        project_with_id(projects, project_id) matches Some(project) ==> project.id == project_id
            && projects.contains(project),
        (exists|i: int| 0 <= i < projects.len() && (#[trigger] projects[i]).id == project_id)
            ==> project_with_id(projects, project_id) is Some,
        session_in(projects, project_id, session_id) matches Some(session) ==> session.id
            == session_id && project_with_id(projects, project_id)->0.sessions.contains(session),
        project_with_id(projects, project_id) matches Some(project) ==> (exists|i: int|
            0 <= i < project.sessions.len() && (#[trigger] project.sessions[i]).id == session_id)
            ==> session_in(projects, project_id, session_id) is Some,
{
    lemma_project_found(projects, project_id);
    if project_with_id(projects, project_id) is Some {
        lemma_session_found(project_with_id(projects, project_id)->0.sessions, session_id);
    }
}

proof fn lemma_project_found(projects: Seq<ProjectView>, id: Seq<char>)
    ensures
        project_with_id(projects, id) matches Some(project) ==> project.id == id
            && projects.contains(project),
        (exists|i: int| 0 <= i < projects.len() && (#[trigger] projects[i]).id == id)
            ==> project_with_id(projects, id) is Some,
    decreases projects.len(),
{
    if projects.len() > 0 {
        let rest = projects.skip(1);
        lemma_project_found(rest, id);
        if projects[0].id != id {
            if project_with_id(rest, id) is Some {
                let i = choose|i: int|
                    0 <= i < rest.len() && rest[i] == project_with_id(rest, id)->0;
                assert(projects[i + 1] == rest[i]);
            }
            if exists|i: int| 0 <= i < projects.len() && (#[trigger] projects[i]).id == id {
                let i = choose|i: int|
                    0 <= i < projects.len() && (#[trigger] projects[i]).id == id;
                assert(rest[i - 1] == projects[i]);
            }
        } else {
            assert(projects.contains(projects[0]));
        }
    }
}

proof fn lemma_session_found(sessions: Seq<SessionView>, id: Seq<char>)
    ensures
        crate::sidebar::model::session_with_id(sessions, id) matches Some(session) ==> session.id
            == id && sessions.contains(session),
        (exists|i: int| 0 <= i < sessions.len() && (#[trigger] sessions[i]).id == id)
            ==> crate::sidebar::model::session_with_id(sessions, id) is Some,
    decreases sessions.len(),
{
    if sessions.len() > 0 {
        let rest = sessions.skip(1);
        lemma_session_found(rest, id);
        if sessions[0].id != id {
            if crate::sidebar::model::session_with_id(rest, id) is Some {
                let i = choose|i: int|
                    0 <= i < rest.len() && rest[i] == crate::sidebar::model::session_with_id(
                        rest,
                        id,
                    )->0;
                assert(sessions[i + 1] == rest[i]);
            }
            if exists|i: int| 0 <= i < sessions.len() && (#[trigger] sessions[i]).id == id {
                let i = choose|i: int|
                    0 <= i < sessions.len() && (#[trigger] sessions[i]).id == id;
                assert(rest[i - 1] == sessions[i]);
            }
        } else {
            assert(sessions.contains(sessions[0]));
        }
    }
}

/// The pinned sessions are counted one by one.
pub proof fn law_pinned_are_counted(sessions: Seq<SessionView>, session: SessionView)
    ensures
        pinned_count(Seq::<SessionView>::empty()) == 0,
        pinned_count(sessions.push(session)) == pinned_count(sessions) + if session.pinned {
            1int
        } else {
            0int
        },
        pinned_count(sessions) <= sessions.len(),
    decreases sessions.len(),
{
    assert(sessions.push(session).drop_last() =~= sessions);
    if sessions.len() > 0 {
        law_pinned_are_counted(sessions.drop_last(), sessions.last());
        assert(sessions.drop_last().push(sessions.last()) =~= sessions);
    }
}

/// The question before sessions are closed names the project, the number of sessions and, where one
/// stays, the session that stays; it says that pinned sessions stay.
pub proof fn law_close_questions_say_what_closes(
    count: nat,
    project: Seq<char>,
    session: Seq<char>,
)
    ensures
        contains(close_others_question(count, project, session), project),
        contains(close_others_question(count, project, session), session),
        contains(close_others_question(count, project, session), decimal_of(count)),
        contains(close_others_question(count, project, session), "\" and all pinned sessions."@),
        contains(close_all_question(count, project), project),
        contains(close_all_question(count, project), decimal_of(count)),
        contains(close_all_question(count, project), "\"?\nPinned sessions will remain open."@),
{
    let number = decimal_of(count);
    let middle = " unpinned "@ + session_word(count) + " in \""@;
    let end = "\"?\nKeep current \""@;
    let tail = "\" and all pinned sessions."@;
    let others = close_others_question(count, project, session);
    law_parts_are_found("Close "@, number, middle + project + end + session + tail);
    assert("Close "@ + number + (middle + project + end + session + tail) =~= others);
    law_parts_are_found("Close "@ + number + middle, project, end + session + tail);
    assert(("Close "@ + number + middle) + project + (end + session + tail) =~= others);
    law_parts_are_found("Close "@ + number + middle + project + end, session, tail);
    law_parts_are_found("Close "@ + number + middle + project + end + session, tail, Seq::empty());
    assert(("Close "@ + number + middle + project + end) + session + tail =~= others);
    assert(("Close "@ + number + middle + project + end + session) + tail + Seq::<char>::empty()
        =~= others);
    let all = close_all_question(count, project);
    let last = "\"?\nPinned sessions will remain open."@;
    law_parts_are_found("Close all "@, number, middle + project + last);
    assert("Close all "@ + number + (middle + project + last) =~= all);
    law_parts_are_found("Close all "@ + number + middle, project, last);
    assert(("Close all "@ + number + middle) + project + last =~= all);
    law_parts_are_found("Close all "@ + number + middle + project, last, Seq::empty());
    assert(("Close all "@ + number + middle + project) + last + Seq::<char>::empty() =~= all);
}

/// The question before a session is deleted names the session and its project, says that it cannot
/// be undone, and speaks of a pinned session exactly where the session is pinned.
pub proof fn law_delete_session_question(session: Seq<char>, project: Seq<char>, pinned: bool)
    ensures
        contains(delete_session_question(session, project, pinned), session),
        contains(delete_session_question(session, project, pinned), project),
        contains(delete_session_question(session, project, pinned), "\"?\nThis cannot be undone."@),
        begins(delete_session_question(session, project, pinned), "Delete pinned session \""@)
            == pinned,
        begins(delete_session_question(session, project, pinned), "Delete session \""@) == !pinned,
{
    reveal_strlit("Delete pinned session \"");
    reveal_strlit("Delete session \"");
    let head = if pinned {
        "Delete pinned session \""@
    } else {
        "Delete session \""@
    };
    let whole = delete_session_question(session, project, pinned);
    let from = "\" from \""@;
    let tail = "\"?\nThis cannot be undone."@;
    law_parts_are_found(head, session, from + project + tail);
    assert(head + session + (from + project + tail) =~= whole);
    law_parts_are_found(head + session + from, project, tail);
    assert((head + session + from) + project + tail =~= whole);
    law_parts_are_found(head + session + from + project, tail, Seq::empty());
    assert((head + session + from + project) + tail + Seq::<char>::empty() =~= whole);
    assert(whole.subrange(0, head.len() as int) =~= head);
    assert(whole[7] == head[7]);
    if pinned {
        if begins(whole, "Delete session \""@) {
            assert(whole.subrange(0, 16)[7] == 's');
        }
    } else {
        if begins(whole, "Delete pinned session \""@) {
            assert(whole.subrange(0, 23)[7] == 'p');
        }
    }
}

/// The question before a project is deleted names the project, says that it cannot be undone, and
/// tells how many sessions go with it and how many of them are pinned, where there are any.
pub proof fn law_delete_project_question(project: Seq<char>, sessions: nat, pinned: nat)
    ensures
        contains(delete_project_question(project, sessions, pinned), project),
        contains(delete_project_question(project, sessions, pinned), "?\nThis cannot be undone."@)
            || contains(
            delete_project_question(project, sessions, pinned),
            " pinned)?\nThis cannot be undone."@,
        ),
        sessions > 0 ==> contains(
            delete_project_question(project, sessions, pinned),
            decimal_of(sessions),
        ),
        sessions > 0 && pinned > 0 ==> contains(
            delete_project_question(project, sessions, pinned),
            decimal_of(pinned),
        ),
{
    let whole = delete_project_question(project, sessions, pinned);
    let open = "Delete project \""@;
    let close = "\""@;
    let plain = "?\nThis cannot be undone."@;
    let marked = " pinned)?\nThis cannot be undone."@;
    let head = open + project + close;
    if sessions == 0 {
        law_parts_are_found(open, project, close + plain);
        assert(open + project + (close + plain) =~= whole);
        law_parts_are_found(head, plain, Seq::empty());
        assert(head + plain + Seq::<char>::empty() =~= whole);
    } else if pinned > 0 {
        let number = decimal_of(sessions);
        let few = decimal_of(pinned);
        let word = " "@ + session_word(sessions) + " ("@;
        law_parts_are_found(open, project, close + " with "@ + number + word + few + marked);
        assert(open + project + (close + " with "@ + number + word + few + marked) =~= whole);
        law_parts_are_found(head + " with "@, number, word + few + marked);
        assert((head + " with "@) + number + (word + few + marked) =~= whole);
        law_parts_are_found(head + " with "@ + number + word, few, marked);
        assert((head + " with "@ + number + word) + few + marked =~= whole);
        law_parts_are_found(head + " with "@ + number + word + few, marked, Seq::empty());
        assert((head + " with "@ + number + word + few) + marked + Seq::<char>::empty() =~= whole);
    } else {
        let number = decimal_of(sessions);
        let word = " "@ + session_word(sessions);
        law_parts_are_found(open, project, close + " with "@ + number + word + plain);
        assert(open + project + (close + " with "@ + number + word + plain) =~= whole);
        law_parts_are_found(head + " with "@, number, word + plain);
        assert((head + " with "@) + number + (word + plain) =~= whole);
        law_parts_are_found(head + " with "@ + number + word, plain, Seq::empty());
        assert((head + " with "@ + number + word) + plain + Seq::<char>::empty() =~= whole);
    }
}

/// What is said after sessions were closed tells how many, and differently where none were.
pub proof fn law_closed_text(count: nat)
    ensures
        count > 0 ==> contains(closed_text(count), decimal_of(count)) && begins(
            closed_text(count),
            "Closed "@,
        ),
        closed_text(0) == "No unpinned sessions to close"@,
{
    let number = decimal_of(count);
    let tail = " "@ + session_word(count) + "."@;
    law_parts_are_found("Closed "@, number, tail);
    law_parts_are_found(Seq::empty(), "Closed "@, number + tail);
    if count > 0 {
        assert("Closed "@ + number + tail =~= closed_text(count));
        assert("Closed "@ + (number + tail) =~= closed_text(count));
    }
}

/// A notice of something that was done says what was done and names what it was done to, in quotes.
pub proof fn law_notices_name_their_subject(notice: SidebarNotice)
    ensures
        notice matches SidebarNotice::CreatedProject { name } ==> notice.words()
            == "Created project "@ + "\""@ + name@ + "\""@ + "."@,
        notice matches SidebarNotice::RenamedProject { name } ==> notice.words()
            == "Renamed project to "@ + "\""@ + name@ + "\""@ + "."@,
        notice matches SidebarNotice::DeletedProject { name } ==> notice.words()
            == "Deleted project "@ + "\""@ + name@ + "\""@ + "."@,
        notice matches SidebarNotice::ProjectExists { name } ==> notice.words()
            == "Project "@ + "\""@ + name@ + "\""@ + " already exists."@,
        notice matches SidebarNotice::RenamedSession { title } ==> notice.words()
            == "Renamed session to "@ + "\""@ + title@ + "\""@ + "."@,
        notice matches SidebarNotice::DeletedSession { title } ==> notice.words()
            == "Deleted session "@ + "\""@ + title@ + "\""@ + "."@,
        notice matches SidebarNotice::AddedSnippet { name } ==> notice.words()
            == "Added snippet "@ + "\""@ + name@ + "\""@ + "."@,
        notice matches SidebarNotice::UpdatedSnippet { name } ==> notice.words()
            == "Updated snippet "@ + "\""@ + name@ + "\""@ + "."@,
        notice matches SidebarNotice::DeletedSnippet { name } ==> notice.words()
            == "Deleted snippet "@ + "\""@ + name@ + "\""@ + "."@,
        notice matches SidebarNotice::Closed { count } ==> count > 0 ==> contains(
            notice.words(),
            decimal_of(count as nat),
        ),
        notice is InsertedSnippet ==> notice.words() == "Snippet inserted"@,
{
    if notice is Closed {
        law_closed_text(notice->count as nat);
    }
}

} // verus!

//! The HTML fragments of the UI: the queue, the inbox, the repos and the
//! settings of a workspace.
use vstd::prelude::*;

use crate::config::{set_views, RepoSet, RepoSetView, Workspace, WorkspaceView};
use crate::db::{inbox_query, lemma_narrows, lemma_nothing_added, narrows_by, placeholders, queue_query, repos_query, text_params, Database, InboxFilter, InboxFilterView, InboxItem, ParamView, QueueFilter, QueueFilterView, QueueItem, RepoFilter, RepoFilterView, RepoItem, Statement};
use crate::html;
use crate::html::{button_tag, cell_tag, escaped, hidden_tag, link_tag, search_tag, select_tag, unread_tag};
use crate::http::{opt_text, pair_texts};
use crate::text;
use crate::text::{signed_decimal, texts};

pub use crate::config::resolve_workspace;

verus! {

broadcast use vstd::string::group_string_axioms;

/// Query params for the queue view.
#[derive(Debug, Clone, Default)]
pub struct QueueParams {
    pub ws: String,
    pub repo_set: String,
    pub kind: String,
    pub unread: bool,
    pub q: String,
    pub sort: String,
}

/// Query params for the inbox view.
#[derive(Debug, Clone, Default)]
pub struct InboxParams {
    pub ws: String,
    pub repo_set: String,
    pub subject_type: String,
    pub reason: String,
    pub unread: bool,
    pub sort: String,
}

/// Query params for the repos view.
#[derive(Debug, Clone, Default)]
pub struct RepoParams {
    pub ws: String,
    pub show: String,
    pub q: String,
}

// ---- filters --------------------------------------------------------------

/// Whether a filter value means that nothing is filtered.
pub open spec fn is_all(value: Seq<char>) -> bool {
    value.len() == 0 || value == "all"@
}

/// The value to filter by, if any.
pub open spec fn filter_of(value: Seq<char>) -> Option<Seq<char>> {
    if is_all(value) {
        None
    } else {
        Some(value)
    }
}

/// Whether a filter value means that nothing is filtered.
fn means_all(value: &str) -> (r: bool)
    ensures
        r == is_all(value@),
{
    value.unicode_len() == 0 || text::str_eq(value, "all")
}

/// Treat empty or "all" as "no filter".
pub fn filter_value<'a>(value: &'a str) -> (r: Option<&'a str>)
    ensures
        crate::db::opt_str(r) == filter_of(value@),
        r is None <==> value@.len() == 0 || value@ == "all"@,
        r matches Some(v) ==> v@ == value@,
{
    if means_all(value) {
        None
    } else {
        Some(value)
    }
}

/// The repos that a repo-set filter selects: every tracked repo, or those of
/// the named set, or none when there is no such set.
pub open spec fn selected_repos(ws: WorkspaceView, repo_set: Seq<char>) -> Seq<Seq<char>> {
    if is_all(repo_set) {
        ws.tracked_list()
    } else {
        match ws.find_set(repo_set) {
            Some(k) => ws.repo_sets[k].repos,
            None => Seq::empty(),
        }
    }
}

/// Resolve which repos to query for `workspace` given a repo-set filter
/// ("all"/empty means every tracked repo).
pub fn repos_for_filter(workspace: &Workspace, repo_set: &str) -> (r: Vec<String>)
    ensures
        texts(r@) == selected_repos(workspace@, repo_set@),
        repo_set@.len() == 0 || repo_set@ == "all"@ ==> forall|repo: Seq<char>| #[trigger]
            texts(r@).contains(repo) <==> repo.len() > 0 && exists|i: int|
                0 <= i < workspace@.repo_sets.len() && (
                #[trigger] workspace@.repo_sets[i]).repos.contains(repo),
        repo_set@.len() > 0 && repo_set@ != "all"@ ==> match workspace@.find_set(repo_set@) {
            Some(k) => texts(r@) == workspace@.repo_sets[k].repos,
            None => r@.len() == 0,
        },
{
    if means_all(repo_set) {
        workspace.tracked_repos()
    } else {
        match workspace.repo_set_repos(repo_set) {
            Some(repos) => repos,
            None => {
                let none: Vec<String> = Vec::new();
                assert(texts(none@) =~= Seq::empty());
                none
            },
        }
    }
}

/// The names of repo sets.
pub open spec fn set_names(sets: Seq<RepoSetView>) -> Seq<Seq<char>> {
    sets.map_values(|s: RepoSetView| s.name)
}

/// The repo set names for a workspace's filter selector.
pub fn repo_set_names(workspace: &Workspace) -> (r: Vec<String>)
    ensures
        texts(r@) == set_names(workspace@.repo_sets),
{
    let ghost all = set_names(workspace@.repo_sets);
    let mut names: Vec<String> = Vec::new();
    assert(texts(names@) =~= all.take(0));
    let mut i: usize = 0;
    while i < workspace.repo_sets.len()
        invariant
            i <= workspace.repo_sets@.len(),
            all == set_names(set_views(workspace.repo_sets@)),
            texts(names@) == all.take(i as int),
        decreases workspace.repo_sets@.len() - i,
    {
        let ghost before = names@;
        let name = workspace.repo_sets[i].name.clone();
        assert(all[i as int] == name@);
        names.push(name);
        assert(texts(names@) =~= texts(before).push(name@));
        assert(all.take(i + 1) =~= all.take(i as int).push(name@));
        i += 1;
    }
    assert(all.take(all.len() as int) =~= all);
    names
}

// ---- queries --------------------------------------------------------------

/// The filters of the queue view.
pub open spec fn queue_filters(ws: WorkspaceView, q: QueueParams) -> QueueFilterView {
    QueueFilterView {
        repos: selected_repos(ws, q.repo_set@),
        kind: filter_of(q.kind@),
        unread_only: q.unread,
        search: Some(q.q@),
        sort: q.sort@,
    }
}

/// The query of the queue view for `workspace`.
pub fn queue_statement(workspace: &Workspace, q: &QueueParams) -> (r: Statement)
    ensures
        r@ == queue_query(queue_filters(workspace@, *q)),
        r@.sql == "SELECT i.id, r.full_name, i.kind, i.number, i.title, i.state,
                    i.updated_at, i.created_at, i.html_url,
                    COALESCE((SELECT t.unread FROM threads t
                              WHERE t.repo_id = i.repo_id AND t.subject_api_url = i.api_url
                              ORDER BY t.updated_at DESC LIMIT 1), 0) AS thread_unread,
                    (SELECT t.reason FROM threads t
                     WHERE t.repo_id = i.repo_id AND t.subject_api_url = i.api_url
                     ORDER BY t.updated_at DESC LIMIT 1) AS thread_reason,
                    (SELECT t.updated_at FROM threads t
                     WHERE t.repo_id = i.repo_id AND t.subject_api_url = i.api_url
                     ORDER BY t.updated_at DESC LIMIT 1) AS thread_updated
             FROM issues i JOIN repos r ON r.id = i.repo_id
             WHERE i.state = 'open'"@ + (" AND r.full_name IN "@ + ("("@ + placeholders(selected_repos(workspace@, q.repo_set@).len()) + ")"@))
                + (if q.kind@.len() > 0 && q.kind@ != "all"@ {
                " AND i.kind = ?"@
            } else {
                ""@
            }) + (if q.unread {
                " AND EXISTS (SELECT 1 FROM threads t
                             WHERE t.repo_id = i.repo_id AND t.subject_api_url = i.api_url
                               AND t.unread = 1)"@
            } else {
                ""@
            }) + (if q.q@.len() > 0 {
                " AND i.title LIKE ?"@
            } else {
                ""@
            }) + (if q.sort@ == "updated"@ {
                " ORDER BY i.updated_at DESC"@
            } else if q.sort@ == "created"@ {
                " ORDER BY i.created_at DESC"@
            } else if q.sort@ == "repo"@ {
                " ORDER BY r.full_name, i.number DESC"@
            } else {
                " ORDER BY COALESCE(thread_updated, i.updated_at) DESC"@
            }),
        r@.params == text_params(selected_repos(workspace@, q.repo_set@)) + (if q.kind@.len() > 0
            && q.kind@ != "all"@ {
            seq![ParamView::Text(q.kind@)]
        } else {
            Seq::empty()
        }) + (if q.q@.len() > 0 {
            seq![ParamView::Text("%"@ + q.q@ + "%"@)]
        } else {
            Seq::empty()
        }),
{
    let repos = repos_for_filter(workspace, q.repo_set.as_str());
    let filter = QueueFilter {
        repos: repos.as_slice(),
        kind: filter_value(q.kind.as_str()),
        unread_only: q.unread,
        search: Some(q.q.as_str()),
        sort: q.sort.as_str(),
    };
    Database::list_queue(&filter)
}

/// The filters of the inbox view.
pub open spec fn inbox_filters(ws: WorkspaceView, q: InboxParams) -> InboxFilterView {
    InboxFilterView {
        repos: selected_repos(ws, q.repo_set@),
        subject_type: filter_of(q.subject_type@),
        reason: filter_of(q.reason@),
        unread_only: q.unread,
        sort: q.sort@,
    }
}

/// The query of the inbox view for `workspace`.
pub fn inbox_statement(workspace: &Workspace, q: &InboxParams) -> (r: Statement)
    ensures
        r@ == inbox_query(inbox_filters(workspace@, *q)),
        r@.sql == "SELECT t.thread_id, r.full_name, t.subject_type, t.subject_title,
                    t.reason, t.unread, t.updated_at, t.subject_api_url
             FROM threads t JOIN repos r ON r.id = t.repo_id
             WHERE 1 = 1"@ + (" AND r.full_name IN "@ + ("("@ + placeholders(selected_repos(workspace@, q.repo_set@).len()) + ")"@))
                + (if q.unread {
                " AND t.unread = 1"@
            } else {
                ""@
            }) + (if q.subject_type@.len() > 0 && q.subject_type@ != "all"@ {
                " AND t.subject_type = ?"@
            } else {
                ""@
            }) + (if q.reason@.len() > 0 && q.reason@ != "all"@ {
                " AND t.reason = ?"@
            } else {
                ""@
            }) + (if q.sort@ == "repo"@ {
                " ORDER BY r.full_name, t.updated_at DESC"@
            } else {
                " ORDER BY t.updated_at DESC"@
            }),
        r@.params == text_params(selected_repos(workspace@, q.repo_set@)) + (if q.subject_type@.len()
            > 0 && q.subject_type@ != "all"@ {
            seq![ParamView::Text(q.subject_type@)]
        } else {
            Seq::empty()
        }) + (if q.reason@.len() > 0 && q.reason@ != "all"@ {
            seq![ParamView::Text(q.reason@)]
        } else {
            Seq::empty()
        }),
{
    let repos = repos_for_filter(workspace, q.repo_set.as_str());
    let filter = InboxFilter {
        repos: repos.as_slice(),
        subject_type: filter_value(q.subject_type.as_str()),
        reason: filter_value(q.reason.as_str()),
        unread_only: q.unread,
        sort: q.sort.as_str(),
    };
    Database::list_inbox(&filter)
}

/// The filters of the repos view.
pub open spec fn repos_filters(ws: WorkspaceView, q: RepoParams) -> RepoFilterView {
    RepoFilterView { workspace_repos: ws.tracked_list(), show: q.show@, search: Some(q.q@) }
}

/// The query of the repos view for `workspace`.
pub fn repos_statement(workspace: &Workspace, q: &RepoParams) -> (r: Statement)
    ensures
        r@ == repos_query(repos_filters(workspace@, *q)),
        r@.sql == "SELECT r.full_name, r.html_url, r.is_watched, r.last_refreshed_at,
                    CASE WHEN r.is_watched = 1 THEN 'watched' ELSE r.subscription_state END
             FROM repos r WHERE (r.is_watched = 1"@ + (if workspace@.tracked_list().len() > 0 {
                " OR r.full_name IN "@ + ("("@ + placeholders(workspace@.tracked_list().len()) + ")"@)
            } else {
                ""@
            }) + ")"@ + (if q.show@ == "watched"@ {
                " AND r.is_watched = 1"@
            } else if q.show@ == "untracked"@ {
                " AND r.is_watched = 0"@
            } else if q.show@ == "ignored"@ {
                " AND r.is_watched = 0 AND r.subscription_state = 'ignored'"@
            } else {
                ""@
            }) + (if q.q@.len() > 0 {
                " AND r.full_name LIKE ?"@
            } else {
                ""@
            }) + " ORDER BY r.full_name"@,
        r@.params == text_params(workspace@.tracked_list()) + (if q.q@.len() > 0 {
            seq![ParamView::Text("%"@ + q.q@ + "%"@)]
        } else {
            Seq::empty()
        }),
{
    let repos = workspace.tracked_repos();
    let filter = RepoFilter {
        workspace_repos: repos.as_slice(),
        show: q.show.as_str(),
        search: Some(q.q.as_str()),
    };
    Database::list_repos(&filter)
}

// ---- parts of the pages ---------------------------------------------------

/// What is shown when no row matches.
pub open spec fn empty_state() -> Seq<char> {
    "<p class=\"empty\">No items match your filters.</p>"@
}

/// A table of rows, or what is shown when there are none.
pub open spec fn table(rows: Seq<char>, count: nat) -> Seq<char> {
    if count == 0 {
        empty_state()
    } else {
        "<table class=\"rows\"><tbody>"@ + rows + "</tbody></table>"@
    }
}

/// A table of rows, or what is shown when there are none.
fn table_of(rows: &str, count: usize) -> (r: String)
    ensures
        r@ == table(rows@, count as nat),
{
    if count == 0 {
        "<p class=\"empty\">No items match your filters.</p>".to_owned()
    } else {
        "<table class=\"rows\"><tbody>".to_owned().concat(rows).concat("</tbody></table>")
    }
}

/// The options of the repo set selector.
pub open spec fn set_options(names: Seq<Seq<char>>) -> Seq<(Seq<char>, Seq<char>)> {
    seq![("all"@, "All repo sets"@)] + names.map_values(|n: Seq<char>| (n, n))
}

/// The repo set that the selector shows.
pub open spec fn shown_set(repo_set: Seq<char>) -> Seq<char> {
    if repo_set.len() == 0 {
        "all"@
    } else {
        repo_set
    }
}

/// Appends an option.
fn push_option(options: &mut Vec<(String, String)>, value: &str, label: &str)
    ensures
        pair_texts(final(options)@) == pair_texts(old(options)@).push((value@, label@)),
{
    let ghost before = options@;
    options.push((value.to_owned(), label.to_owned()));
    assert(pair_texts(options@) =~= pair_texts(before).push((value@, label@)));
}

/// No options.
fn no_options() -> (r: Vec<(String, String)>)
    ensures
        pair_texts(r@) == Seq::<(Seq<char>, Seq<char>)>::empty(),
{
    let r: Vec<(String, String)> = Vec::new();
    assert(pair_texts(r@) =~= Seq::empty());
    r
}

/// The repo set selector of a view.
pub open spec fn set_selector(view: Seq<char>, ws: WorkspaceView, repo_set: Seq<char>) -> Seq<char> {
    select_tag(view, "repo_set"@, set_options(set_names(ws.repo_sets)), shown_set(repo_set))
}

/// The repo set selector of a view.
fn set_select(view: &str, workspace: &Workspace, repo_set: &str) -> (r: String)
    ensures
        r@ == set_selector(view@, workspace@, repo_set@),
{
    let names = repo_set_names(workspace);
    let ghost listed = texts(names@);
    let ghost all = set_options(listed);
    let mut options = no_options();
    push_option(&mut options, "all", "All repo sets");
    assert(pair_texts(options@) =~= all.take(1));
    let mut i: usize = 0;
    while i < names.len()
        invariant
            i <= names@.len(),
            listed == texts(names@),
            all == set_options(listed),
            pair_texts(options@) == all.take(i + 1),
        decreases names@.len() - i,
    {
        assert(all[i + 1] == (listed[i as int], listed[i as int]));
        push_option(&mut options, names[i].as_str(), names[i].as_str());
        assert(all.take(i + 2) =~= all.take(i + 1).push(all[i + 1]));
        i += 1;
    }
    assert(all.take(all.len() as int) =~= all);
    let current = if repo_set.unicode_len() == 0 {
        "all"
    } else {
        repo_set
    };
    html::select(view, "repo_set", &options, current)
}

// ---- the queue ------------------------------------------------------------

/// The kinds that the queue can be narrowed to.
pub open spec fn kind_options() -> Seq<(Seq<char>, Seq<char>)> {
    seq![("all"@, "Issues and PRs"@), ("issue"@, "Issues"@), ("pr"@, "Pull requests"@)]
}

/// The orders of the queue.
pub open spec fn queue_sorts() -> Seq<(Seq<char>, Seq<char>)> {
    seq![
        ("attention"@, "Needs attention"@),
        ("updated"@, "Recently updated"@),
        ("created"@, "Newest"@),
        ("repo"@, "Repository"@),
    ]
}

/// One row of the queue.
pub open spec fn queue_row(item: QueueItem) -> Seq<char> {
    "<tr data-id=\""@ + signed_decimal(item.id as int) + (if item.thread_unread {
        "\" class=\"unread\">"@
    } else {
        "\">"@
    }) + cell_tag(item.repo@) + cell_tag(item.kind@) + "<td>#"@ + signed_decimal(item.number as int)
        + "</td><td>"@ + link_tag(item.html_url@, item.title@) + "</td>"@ + cell_tag(
        text_of(opt_text(item.thread_reason)),
    ) + cell_tag(item.updated_at@) + "</tr>"@
}

/// The contents of an optional text, or nothing.
pub open spec fn text_of(s: Option<Seq<char>>) -> Seq<char> {
    match s {
        Some(t) => t,
        None => ""@,
    }
}

/// The contents of an optional text, or nothing.
fn or_empty<'a>(s: &'a Option<String>) -> (r: &'a str)
    ensures
        r@ == text_of(opt_text(*s)),
{
    match s {
        Some(t) => t.as_str(),
        None => "",
    }
}

/// The rows of the queue, in order.
pub open spec fn queue_rows(items: Seq<QueueItem>) -> Seq<char>
    decreases items.len(),
{
    if items.len() == 0 {
        Seq::empty()
    } else {
        queue_rows(items.drop_last()) + queue_row(items.last())
    }
}

/// One row of the queue.
fn queue_row_html(item: &QueueItem) -> (r: String)
    ensures
        r@ == queue_row(*item),
{
    let mark = if item.thread_unread {
        "\" class=\"unread\">"
    } else {
        "\">"
    };
    "<tr data-id=\"".to_owned().concat(text::signed_decimal_text(item.id).as_str()).concat(
        mark,
    ).concat(html::cell(item.repo.as_str()).as_str()).concat(
        html::cell(item.kind.as_str()).as_str(),
    ).concat("<td>#").concat(text::signed_decimal_text(item.number).as_str()).concat(
        "</td><td>",
    ).concat(html::link(item.html_url.as_str(), item.title.as_str()).as_str()).concat(
        "</td>",
    ).concat(html::cell(or_empty(&item.thread_reason)).as_str()).concat(
        html::cell(item.updated_at.as_str()).as_str(),
    ).concat("</tr>")
}

/// The queue view of a workspace.
pub open spec fn queue_page(ws: WorkspaceView, q: QueueParams, items: Seq<QueueItem>) -> Seq<char> {
    "<form class=\"filters\">"@ + hidden_tag("ws"@, ws.name) + set_selector(
        "queue"@,
        ws,
        q.repo_set@,
    ) + select_tag("queue"@, "kind"@, kind_options(), q.kind@) + unread_tag("queue"@, q.unread)
        + search_tag("queue"@, q.q@) + select_tag("queue"@, "sort"@, queue_sorts(), q.sort@)
        + "</form>"@ + table(queue_rows(items), items.len())
}

/// Render the queue view fragment for `workspace`. Rows only; the frontend
/// decides how to present the initial-loading state via `/api/sync/status`.
pub fn render_queue(workspace: &Workspace, q: &QueueParams, items: &Vec<QueueItem>) -> (r: String)
    ensures
        r@ == queue_page(workspace@, *q, items@),
{
    let mut kinds = no_options();
    push_option(&mut kinds, "all", "Issues and PRs");
    push_option(&mut kinds, "issue", "Issues");
    push_option(&mut kinds, "pr", "Pull requests");
    assert(pair_texts(kinds@) =~= kind_options());
    let mut sorts = no_options();
    push_option(&mut sorts, "attention", "Needs attention");
    push_option(&mut sorts, "updated", "Recently updated");
    push_option(&mut sorts, "created", "Newest");
    push_option(&mut sorts, "repo", "Repository");
    assert(pair_texts(sorts@) =~= queue_sorts());
    let mut rows = String::new();
    assert(rows@ =~= queue_rows(items@.take(0)));
    let mut i: usize = 0;
    while i < items.len()
        invariant
            i <= items@.len(),
            rows@ == queue_rows(items@.take(i as int)),
        decreases items@.len() - i,
    {
        proof {
            let next = items@.take(i + 1);
            assert(next.drop_last() =~= items@.take(i as int));
            assert(next.last() == items@[i as int]);
        }
        rows.append(queue_row_html(&items[i]).as_str());
        i += 1;
    }
    assert(items@.take(items@.len() as int) =~= items@);
    "<form class=\"filters\">".to_owned().concat(
        html::hidden("ws", workspace.name.as_str()).as_str(),
    ).concat(set_select("queue", workspace, q.repo_set.as_str()).as_str()).concat(
        html::select("queue", "kind", &kinds, q.kind.as_str()).as_str(),
    ).concat(html::unread("queue", q.unread).as_str()).concat(
        html::search("queue", q.q.as_str()).as_str(),
    ).concat(html::select("queue", "sort", &sorts, q.sort.as_str()).as_str()).concat(
        "</form>",
    ).concat(table_of(rows.as_str(), items.len()).as_str())
}

// ---- the inbox ------------------------------------------------------------

/// The subject types that the inbox can be narrowed to.
pub open spec fn type_options() -> Seq<(Seq<char>, Seq<char>)> {
    seq![
        ("all"@, "All types"@),
        ("PullRequest"@, "Pull requests"@),
        ("Issue"@, "Issues"@),
        ("CheckSuite"@, "Checks"@),
        ("Discussion"@, "Discussions"@),
        ("Release"@, "Releases"@),
    ]
}

/// The reasons that the inbox can be narrowed to.
pub open spec fn reason_options() -> Seq<(Seq<char>, Seq<char>)> {
    seq![
        ("all"@, "All reasons"@),
        ("mention"@, "Mentioned"@),
        ("assign"@, "Assigned"@),
        ("review_requested"@, "Review requested"@),
        ("author"@, "Author"@),
        ("comment"@, "Commented"@),
        ("subscribed"@, "Subscribed"@),
        ("ci_activity"@, "CI activity"@),
    ]
}

/// The orders of the inbox.
pub open spec fn inbox_sorts() -> Seq<(Seq<char>, Seq<char>)> {
    seq![("updated"@, "Recently updated"@), ("repo"@, "Repository"@)]
}

/// The title of a thread, linked where its web page is known.
pub open spec fn thread_title(item: InboxItem) -> Seq<char> {
    match item.subject_html_url {
        Some(url) => link_tag(url@, item.subject_title@),
        None => escaped(item.subject_title@),
    }
}

/// One row of the inbox.
pub open spec fn inbox_row(item: InboxItem) -> Seq<char> {
    "<tr data-id=\""@ + escaped(item.thread_id@) + (if item.unread {
        "\" class=\"unread\">"@
    } else {
        "\">"@
    }) + cell_tag(item.repo@) + cell_tag(item.subject_type@) + "<td>"@ + thread_title(item)
        + "</td>"@ + cell_tag(item.reason@) + cell_tag(item.updated_at@) + "</tr>"@
}

/// The rows of the inbox, in order.
pub open spec fn inbox_rows(items: Seq<InboxItem>) -> Seq<char>
    decreases items.len(),
{
    if items.len() == 0 {
        Seq::empty()
    } else {
        inbox_rows(items.drop_last()) + inbox_row(items.last())
    }
}

/// One row of the inbox.
fn inbox_row_html(item: &InboxItem) -> (r: String)
    ensures
        r@ == inbox_row(*item),
{
    let mark = if item.unread {
        "\" class=\"unread\">"
    } else {
        "\">"
    };
    let title = match &item.subject_html_url {
        Some(url) => html::link(url.as_str(), item.subject_title.as_str()),
        None => html::escape(item.subject_title.as_str()),
    };
    "<tr data-id=\"".to_owned().concat(html::escape(item.thread_id.as_str()).as_str()).concat(
        mark,
    ).concat(html::cell(item.repo.as_str()).as_str()).concat(
        html::cell(item.subject_type.as_str()).as_str(),
    ).concat("<td>").concat(title.as_str()).concat("</td>").concat(
        html::cell(item.reason.as_str()).as_str(),
    ).concat(html::cell(item.updated_at.as_str()).as_str()).concat("</tr>")
}

/// The inbox view of a workspace.
pub open spec fn inbox_page(ws: WorkspaceView, q: InboxParams, items: Seq<InboxItem>) -> Seq<char> {
    "<form class=\"filters\">"@ + hidden_tag("ws"@, ws.name) + set_selector(
        "inbox"@,
        ws,
        q.repo_set@,
    ) + select_tag("inbox"@, "type"@, type_options(), q.subject_type@) + select_tag(
        "inbox"@,
        "reason"@,
        reason_options(),
        q.reason@,
    ) + unread_tag("inbox"@, q.unread) + select_tag("inbox"@, "sort"@, inbox_sorts(), q.sort@)
        + "</form>"@ + table(inbox_rows(items), items.len())
}

/// Render the inbox view fragment for `workspace`.
pub fn render_inbox(workspace: &Workspace, q: &InboxParams, items: &Vec<InboxItem>) -> (r: String)
    ensures
        r@ == inbox_page(workspace@, *q, items@),
{
    let mut types = no_options();
    push_option(&mut types, "all", "All types");
    push_option(&mut types, "PullRequest", "Pull requests");
    push_option(&mut types, "Issue", "Issues");
    push_option(&mut types, "CheckSuite", "Checks");
    push_option(&mut types, "Discussion", "Discussions");
    push_option(&mut types, "Release", "Releases");
    assert(pair_texts(types@) =~= type_options());
    let mut reasons = no_options();
    push_option(&mut reasons, "all", "All reasons");
    push_option(&mut reasons, "mention", "Mentioned");
    push_option(&mut reasons, "assign", "Assigned");
    push_option(&mut reasons, "review_requested", "Review requested");
    push_option(&mut reasons, "author", "Author");
    push_option(&mut reasons, "comment", "Commented");
    push_option(&mut reasons, "subscribed", "Subscribed");
    push_option(&mut reasons, "ci_activity", "CI activity");
    assert(pair_texts(reasons@) =~= reason_options());
    let mut sorts = no_options();
    push_option(&mut sorts, "updated", "Recently updated");
    push_option(&mut sorts, "repo", "Repository");
    assert(pair_texts(sorts@) =~= inbox_sorts());
    let mut rows = String::new();
    assert(rows@ =~= inbox_rows(items@.take(0)));
    let mut i: usize = 0;
    while i < items.len()
        invariant
            i <= items@.len(),
            rows@ == inbox_rows(items@.take(i as int)),
        decreases items@.len() - i,
    {
        proof {
            let next = items@.take(i + 1);
            assert(next.drop_last() =~= items@.take(i as int));
            assert(next.last() == items@[i as int]);
        }
        rows.append(inbox_row_html(&items[i]).as_str());
        i += 1;
    }
    assert(items@.take(items@.len() as int) =~= items@);
    "<form class=\"filters\">".to_owned().concat(
        html::hidden("ws", workspace.name.as_str()).as_str(),
    ).concat(set_select("inbox", workspace, q.repo_set.as_str()).as_str()).concat(
        html::select("inbox", "type", &types, q.subject_type.as_str()).as_str(),
    ).concat(html::select("inbox", "reason", &reasons, q.reason.as_str()).as_str()).concat(
        html::unread("inbox", q.unread).as_str(),
    ).concat(html::select("inbox", "sort", &sorts, q.sort.as_str()).as_str()).concat(
        "</form>",
    ).concat(table_of(rows.as_str(), items.len()).as_str())
}

// ---- the repos ------------------------------------------------------------

/// The show modes of the repos view.
pub open spec fn show_options() -> Seq<(Seq<char>, Seq<char>)> {
    seq![
        ("all"@, "All repos"@),
        ("watched"@, "Watched"@),
        ("untracked"@, "Not watched"@),
        ("ignored"@, "Ignored"@),
    ]
}

/// The badge of a repo's subscription.
pub open spec fn badge(item: RepoItem) -> Seq<char> {
    let state = text_of(opt_text(item.subscription_state));
    if item.is_watched || state == "watched"@ {
        "<span class=\"badge ok\">watched</span>"@
    } else if state == "ignored"@ {
        "<span class=\"badge ignored\">ignored</span>"@
    } else if state == "participating"@ {
        "<span class=\"badge\">participating</span>"@
    } else {
        ""@
    }
}

/// The button that watches or unwatches a repo.
pub open spec fn watch_button(item: RepoItem) -> Seq<char> {
    if item.is_watched {
        button_tag("unwatch"@, item.full_name@, "Unwatch"@)
    } else {
        button_tag("watch"@, item.full_name@, "Watch"@)
    }
}

/// One row of the repos view.
pub open spec fn repo_row(item: RepoItem) -> Seq<char> {
    "<tr data-id=\""@ + escaped(item.full_name@) + (if item.in_workspace {
        "\" class=\"in-workspace\">"@
    } else {
        "\">"@
    }) + "<td>"@ + link_tag(item.html_url@, item.full_name@) + "</td><td>"@ + badge(item)
        + "</td>"@ + cell_tag(text_of(opt_text(item.last_refreshed_at))) + "<td>"@ + watch_button(
        item,
    ) + "</td></tr>"@
}

/// The rows of the repos view, in order.
pub open spec fn repo_rows(items: Seq<RepoItem>) -> Seq<char>
    decreases items.len(),
{
    if items.len() == 0 {
        Seq::empty()
    } else {
        repo_rows(items.drop_last()) + repo_row(items.last())
    }
}

/// One row of the repos view.
fn repo_row_html(item: &RepoItem) -> (r: String)
    ensures
        r@ == repo_row(*item),
{
    let mark = if item.in_workspace {
        "\" class=\"in-workspace\">"
    } else {
        "\">"
    };
    let state = or_empty(&item.subscription_state);
    let badge = if item.is_watched || text::str_eq(state, "watched") {
        "<span class=\"badge ok\">watched</span>"
    } else if text::str_eq(state, "ignored") {
        "<span class=\"badge ignored\">ignored</span>"
    } else if text::str_eq(state, "participating") {
        "<span class=\"badge\">participating</span>"
    } else {
        ""
    };
    let button = if item.is_watched {
        html::button("unwatch", item.full_name.as_str(), "Unwatch")
    } else {
        html::button("watch", item.full_name.as_str(), "Watch")
    };
    "<tr data-id=\"".to_owned().concat(html::escape(item.full_name.as_str()).as_str()).concat(
        mark,
    ).concat("<td>").concat(
        html::link(item.html_url.as_str(), item.full_name.as_str()).as_str(),
    ).concat("</td><td>").concat(badge).concat("</td>").concat(
        html::cell(or_empty(&item.last_refreshed_at)).as_str(),
    ).concat("<td>").concat(button.as_str()).concat("</td></tr>")
}

/// The repos view of a workspace.
pub open spec fn repos_page(ws: WorkspaceView, q: RepoParams, items: Seq<RepoItem>) -> Seq<char> {
    "<form class=\"filters\">"@ + hidden_tag("ws"@, ws.name) + select_tag(
        "repos"@,
        "show"@,
        show_options(),
        q.show@,
    ) + search_tag("repos"@, q.q@) + "</form>"@ + table(repo_rows(items), items.len())
}

/// Render the repos view fragment for `workspace`.
pub fn render_repos(workspace: &Workspace, q: &RepoParams, items: &Vec<RepoItem>) -> (r: String)
    ensures
        r@ == repos_page(workspace@, *q, items@),
{
    let mut shows = no_options();
    push_option(&mut shows, "all", "All repos");
    push_option(&mut shows, "watched", "Watched");
    push_option(&mut shows, "untracked", "Not watched");
    push_option(&mut shows, "ignored", "Ignored");
    assert(pair_texts(shows@) =~= show_options());
    let mut rows = String::new();
    assert(rows@ =~= repo_rows(items@.take(0)));
    let mut i: usize = 0;
    while i < items.len()
        invariant
            i <= items@.len(),
            rows@ == repo_rows(items@.take(i as int)),
        decreases items@.len() - i,
    {
        proof {
            let next = items@.take(i + 1);
            assert(next.drop_last() =~= items@.take(i as int));
            assert(next.last() == items@[i as int]);
        }
        rows.append(repo_row_html(&items[i]).as_str());
        i += 1;
    }
    assert(items@.take(items@.len() as int) =~= items@);
    "<form class=\"filters\">".to_owned().concat(
        html::hidden("ws", workspace.name.as_str()).as_str(),
    ).concat(html::select("repos", "show", &shows, q.show.as_str()).as_str()).concat(
        html::search("repos", q.q.as_str()).as_str(),
    ).concat("</form>").concat(table_of(rows.as_str(), items.len()).as_str())
}

// ---- the settings ---------------------------------------------------------

/// One repo of a repo set.
pub open spec fn repo_entry(repo: Seq<char>) -> Seq<char> {
    "<li>"@ + escaped(repo) + button_tag("remove-repo"@, repo, "Remove"@) + "</li>"@
}

/// The repos of a repo set, in order.
pub open spec fn repo_entries(repos: Seq<Seq<char>>) -> Seq<char>
    decreases repos.len(),
{
    if repos.len() == 0 {
        Seq::empty()
    } else {
        repo_entries(repos.drop_last()) + repo_entry(repos.last())
    }
}

/// One repo set.
pub open spec fn set_entry(set: RepoSetView) -> Seq<char> {
    "<section class=\"repo-set\" data-set=\""@ + escaped(set.name) + "\"><h3>"@ + escaped(set.name)
        + "</h3>"@ + button_tag("remove-set"@, set.name, "Remove set"@) + "<ul>"@ + repo_entries(
        set.repos,
    ) + "</ul></section>"@
}

/// The repo sets, in order.
pub open spec fn set_entries(sets: Seq<RepoSetView>) -> Seq<char>
    decreases sets.len(),
{
    if sets.len() == 0 {
        Seq::empty()
    } else {
        set_entries(sets.drop_last()) + set_entry(sets.last())
    }
}

/// The settings view of a workspace.
pub open spec fn settings_page(ws: WorkspaceView) -> Seq<char> {
    "<section class=\"settings\" data-ws=\""@ + escaped(ws.name) + "\"><h2>Repo sets</h2>"@ + (
    if ws.repo_sets.len() == 0 {
        "<p class=\"empty\">No repo sets yet &mdash; add one below.</p>"@
    } else {
        set_entries(ws.repo_sets)
    }) + "<form class=\"add-set\"><input name=\"name\" placeholder=\"Name\"><textarea name=\"repos\" placeholder=\"owner/repo\"></textarea><button type=\"submit\">Add repo set</button></form></section>"@
}

/// One repo set.
fn set_html(set: &RepoSet) -> (r: String)
    ensures
        r@ == set_entry(set@),
{
    let ghost all = texts(set.repos@);
    let mut entries = String::new();
    assert(entries@ =~= repo_entries(all.take(0)));
    let mut i: usize = 0;
    while i < set.repos.len()
        invariant
            i <= set.repos@.len(),
            all == texts(set.repos@),
            entries@ == repo_entries(all.take(i as int)),
        decreases set.repos@.len() - i,
    {
        let repo = set.repos[i].as_str();
        proof {
            let next = all.take(i + 1);
            assert(next.drop_last() =~= all.take(i as int));
            assert(next.last() == repo@);
        }
        let entry = "<li>".to_owned().concat(html::escape(repo).as_str()).concat(
            html::button("remove-repo", repo, "Remove").as_str(),
        ).concat("</li>");
        entries.append(entry.as_str());
        i += 1;
    }
    assert(all.take(all.len() as int) =~= all);
    let name = set.name.as_str();
    "<section class=\"repo-set\" data-set=\"".to_owned().concat(
        html::escape(name).as_str(),
    ).concat("\"><h3>").concat(html::escape(name).as_str()).concat("</h3>").concat(
        html::button("remove-set", name, "Remove set").as_str(),
    ).concat("<ul>").concat(entries.as_str()).concat("</ul></section>")
}

/// Render the settings view fragment (repo set management) for `workspace`.
pub fn render_settings(workspace: &Workspace) -> (r: String)
    ensures
        r@ == settings_page(workspace@),
        r@ == "<section class=\"settings\" data-ws=\""@ + escaped(workspace@.name)
            + "\"><h2>Repo sets</h2>"@ + (if workspace@.repo_sets.len() == 0 {
            "<p class=\"empty\">No repo sets yet &mdash; add one below.</p>"@
        } else {
            set_entries(workspace@.repo_sets)
        })
            + "<form class=\"add-set\"><input name=\"name\" placeholder=\"Name\"><textarea name=\"repos\" placeholder=\"owner/repo\"></textarea><button type=\"submit\">Add repo set</button></form></section>"@,
{
    let ghost all = workspace@.repo_sets;
    let mut entries = String::new();
    assert(entries@ =~= set_entries(all.take(0)));
    let mut i: usize = 0;
    while i < workspace.repo_sets.len()
        invariant
            i <= workspace.repo_sets@.len(),
            all == set_views(workspace.repo_sets@),
            entries@ == set_entries(all.take(i as int)),
        decreases workspace.repo_sets@.len() - i,
    {
        proof {
            let next = all.take(i + 1);
            assert(next.drop_last() =~= all.take(i as int));
            assert(next.last() == workspace.repo_sets@[i as int]@);
        }
        entries.append(set_html(&workspace.repo_sets[i]).as_str());
        i += 1;
    }
    assert(all.take(all.len() as int) =~= all);
    if workspace.repo_sets.len() == 0 {
        entries = "<p class=\"empty\">No repo sets yet &mdash; add one below.</p>".to_owned();
    }
    "<section class=\"settings\" data-ws=\"".to_owned().concat(
        html::escape(workspace.name.as_str()).as_str(),
    ).concat("\"><h2>Repo sets</h2>").concat(entries.as_str()).concat(
        "<form class=\"add-set\"><input name=\"name\" placeholder=\"Name\"><textarea name=\"repos\" placeholder=\"owner/repo\"></textarea><button type=\"submit\">Add repo set</button></form></section>",
    )
}

// ---- laws -----------------------------------------------------------------

/// A filter value filters unless it is empty or "all", and then by itself.
pub proof fn law_all_filters_nothing(value: Seq<char>)
    ensures
        value.len() == 0 || value == "all"@ ==> filter_of(value) is None,
        value.len() > 0 && value != "all"@ ==> filter_of(value) == Some(value),
{
}

/// The repos that a view shows: all that the workspace tracks, or exactly those
/// of the chosen repo set, and none when there is no such set.
pub proof fn law_repo_set_selects_its_repos(ws: WorkspaceView, name: Seq<char>, k: int)
    ensures
        name.len() == 0 || name == "all"@ ==> selected_repos(ws, name) == ws.tracked_list(),
        name.len() > 0 && name != "all"@ && 0 <= k < ws.repo_sets.len() && ws.repo_sets[k].name
            == name && (forall|i: int| 0 <= i < k ==> (#[trigger] ws.repo_sets[i]).name != name)
            ==> selected_repos(ws, name) == ws.repo_sets[k].repos,
        name.len() > 0 && name != "all"@ && (forall|i: int|
            0 <= i < ws.repo_sets.len() ==> (#[trigger] ws.repo_sets[i]).name != name)
            ==> selected_repos(ws, name).len() == 0,
{
    crate::config::law_set_is_found_by_name(ws, name);
}

/// Asking the inbox for unread threads adds the condition that a thread is
/// unread, and changes nothing else; not asking for them leaves it out.
pub proof fn law_inbox_unread_adds_its_condition(
    ws: WorkspaceView,
    q: InboxParams,
    p: InboxParams,
)
    requires
        q.unread,
        !p.unread,
        q.repo_set@ == p.repo_set@,
        q.subject_type@ == p.subject_type@,
        q.reason@ == p.reason@,
        q.sort@ == p.sort@,
    ensures
        narrows_by(
            inbox_query(inbox_filters(ws, q)),
            inbox_query(inbox_filters(ws, p)),
            " AND t.unread = 1"@,
            Seq::empty(),
        ),
{
    let f = inbox_filters(ws, p);
    let more = inbox_query(inbox_filters(ws, q));
    let base = inbox_query(f);
    let head = crate::db::SELECT_INBOX@ + crate::db::repo_condition(f.repos.len());
    let a = if crate::db::narrows(f.subject_type) {
        " AND t.subject_type = ?"@
    } else {
        ""@
    };
    let b = if crate::db::narrows(f.reason) {
        " AND t.reason = ?"@
    } else {
        ""@
    };
    let c = if f.sort == "repo"@ {
        " ORDER BY r.full_name, t.updated_at DESC"@
    } else {
        " ORDER BY t.updated_at DESC"@
    };
    let tail = a + b + c;
    lemma_nothing_added(head);
    assert(base.sql =~= head + tail);
    assert(more.sql =~= head + " AND t.unread = 1"@ + tail);
    assert(base.params + Seq::<ParamView>::empty() =~= base.params);
    assert(base.params + Seq::<ParamView>::empty() + Seq::<ParamView>::empty() =~= more.params);
    lemma_narrows(
        more,
        base,
        head,
        " AND t.unread = 1"@,
        tail,
        base.params,
        Seq::empty(),
        Seq::empty(),
    );
}

/// Choosing a subject type in the inbox adds the condition that a thread has it,
/// with the type as its value, and changes nothing else.
pub proof fn law_inbox_type_adds_its_condition(ws: WorkspaceView, q: InboxParams, p: InboxParams)
    requires
        q.subject_type@.len() > 0,
        q.subject_type@ != "all"@,
        p.subject_type@ == "all"@ || p.subject_type@.len() == 0,
        q.unread == p.unread,
        q.repo_set@ == p.repo_set@,
        q.reason@ == p.reason@,
        q.sort@ == p.sort@,
    ensures
        narrows_by(
            inbox_query(inbox_filters(ws, q)),
            inbox_query(inbox_filters(ws, p)),
            " AND t.subject_type = ?"@,
            seq![ParamView::Text(q.subject_type@)],
        ),
{
    let f = inbox_filters(ws, p);
    let more = inbox_query(inbox_filters(ws, q));
    let base = inbox_query(f);
    let unread = if f.unread_only {
        " AND t.unread = 1"@
    } else {
        ""@
    };
    let head = crate::db::SELECT_INBOX@ + crate::db::repo_condition(f.repos.len()) + unread;
    let b = if crate::db::narrows(f.reason) {
        " AND t.reason = ?"@
    } else {
        ""@
    };
    let c = if f.sort == "repo"@ {
        " ORDER BY r.full_name, t.updated_at DESC"@
    } else {
        " ORDER BY t.updated_at DESC"@
    };
    let first = text_params(f.repos);
    let last = if crate::db::narrows(f.reason) {
        seq![ParamView::Text(f.reason->0)]
    } else {
        Seq::empty()
    };
    let value = seq![ParamView::Text(q.subject_type@)];
    lemma_nothing_added(head);
    assert(base.sql =~= head + (b + c));
    assert(more.sql =~= head + " AND t.subject_type = ?"@ + (b + c));
    assert(base.params =~= first + last);
    assert(more.params =~= first + value + last);
    lemma_narrows(more, base, head, " AND t.subject_type = ?"@, b + c, first, value, last);
}

/// Choosing a reason in the inbox adds the condition that a thread has it, with
/// the reason as its value, and changes nothing else.
pub proof fn law_inbox_reason_adds_its_condition(ws: WorkspaceView, q: InboxParams, p: InboxParams)
    requires
        q.reason@.len() > 0,
        q.reason@ != "all"@,
        p.reason@ == "all"@ || p.reason@.len() == 0,
        q.unread == p.unread,
        q.repo_set@ == p.repo_set@,
        q.subject_type@ == p.subject_type@,
        q.sort@ == p.sort@,
    ensures
        narrows_by(
            inbox_query(inbox_filters(ws, q)),
            inbox_query(inbox_filters(ws, p)),
            " AND t.reason = ?"@,
            seq![ParamView::Text(q.reason@)],
        ),
{
    let f = inbox_filters(ws, p);
    let more = inbox_query(inbox_filters(ws, q));
    let base = inbox_query(f);
    let unread = if f.unread_only {
        " AND t.unread = 1"@
    } else {
        ""@
    };
    let a = if crate::db::narrows(f.subject_type) {
        " AND t.subject_type = ?"@
    } else {
        ""@
    };
    let head = crate::db::SELECT_INBOX@ + crate::db::repo_condition(f.repos.len()) + unread + a;
    let c = if f.sort == "repo"@ {
        " ORDER BY r.full_name, t.updated_at DESC"@
    } else {
        " ORDER BY t.updated_at DESC"@
    };
    let first = text_params(f.repos) + (if crate::db::narrows(f.subject_type) {
        seq![ParamView::Text(f.subject_type->0)]
    } else {
        Seq::empty()
    });
    let value = seq![ParamView::Text(q.reason@)];
    lemma_nothing_added(head);
    assert(base.sql =~= head + c);
    assert(more.sql =~= head + " AND t.reason = ?"@ + c);
    assert(base.params =~= first + Seq::<ParamView>::empty());
    assert(more.params =~= first + value + Seq::<ParamView>::empty());
    lemma_narrows(more, base, head, " AND t.reason = ?"@, c, first, value, Seq::empty());
}

/// An inbox without filters lists the threads of the selected repos, and binds
/// those repos; it is ordered by repository when that is asked for, and by the
/// last update otherwise.
pub proof fn law_plain_inbox_lists_the_repos(ws: WorkspaceView, q: InboxParams)
    requires
        !q.unread,
        q.subject_type@ == "all"@ || q.subject_type@.len() == 0,
        q.reason@ == "all"@ || q.reason@.len() == 0,
    ensures
        inbox_query(inbox_filters(ws, q)).sql == "SELECT t.thread_id, r.full_name, t.subject_type, t.subject_title,
                    t.reason, t.unread, t.updated_at, t.subject_api_url
             FROM threads t JOIN repos r ON r.id = t.repo_id
             WHERE 1 = 1"@ + " AND r.full_name IN "@ + (
        "("@ + placeholders(selected_repos(ws, q.repo_set@).len()) + ")"@) + (if q.sort@ == "repo"@ {
            " ORDER BY r.full_name, t.updated_at DESC"@
        } else {
            " ORDER BY t.updated_at DESC"@
        }),
        inbox_query(inbox_filters(ws, q)).params == text_params(selected_repos(ws, q.repo_set@)),
{
    let f = inbox_filters(ws, q);
    let head = crate::db::SELECT_INBOX@ + crate::db::repo_condition(f.repos.len());
    lemma_nothing_added(head);
    let c = if f.sort == "repo"@ {
        " ORDER BY r.full_name, t.updated_at DESC"@
    } else {
        " ORDER BY t.updated_at DESC"@
    };
    assert(inbox_query(f).sql =~= head + c);
    assert(inbox_query(f).params =~= text_params(f.repos));
}

/// The parts of the queue query between its beginning and its order.
spec fn queue_parts(f: QueueFilterView) -> (Seq<char>, Seq<char>, Seq<char>) {
    (
        if f.kind is Some {
            " AND i.kind = ?"@
        } else {
            ""@
        },
        if f.unread_only {
            crate::db::QUEUE_UNREAD@
        } else {
            ""@
        },
        if f.search is Some && f.search->0.len() > 0 {
            " AND i.title LIKE ?"@
        } else {
            ""@
        },
    )
}

/// Asking the queue for unread entries adds the condition that one of the
/// entry's threads is unread, and changes nothing else; not asking for them
/// leaves it out.
pub proof fn law_queue_unread_adds_its_condition(
    ws: WorkspaceView,
    q: QueueParams,
    p: QueueParams,
)
    requires
        q.unread,
        !p.unread,
        q.repo_set@ == p.repo_set@,
        q.kind@ == p.kind@,
        q.q@ == p.q@,
        q.sort@ == p.sort@,
    ensures
        narrows_by(
            queue_query(queue_filters(ws, q)),
            queue_query(queue_filters(ws, p)),
            " AND EXISTS (SELECT 1 FROM threads t
                             WHERE t.repo_id = i.repo_id AND t.subject_api_url = i.api_url
                               AND t.unread = 1)"@,
            Seq::empty(),
        ),
{
    let f = queue_filters(ws, p);
    let more = queue_query(queue_filters(ws, q));
    let base = queue_query(f);
    let (a, _, c) = queue_parts(f);
    let head = crate::db::SELECT_QUEUE@ + crate::db::repo_condition(f.repos.len()) + a;
    let tail = c + crate::db::queue_order(f.sort);
    lemma_nothing_added(head);
    assert(base.sql =~= head + tail);
    assert(more.sql =~= head + crate::db::QUEUE_UNREAD@ + tail);
    assert(base.params + Seq::<ParamView>::empty() =~= base.params);
    assert(base.params + Seq::<ParamView>::empty() + Seq::<ParamView>::empty() =~= more.params);
    lemma_narrows(
        more,
        base,
        head,
        crate::db::QUEUE_UNREAD@,
        tail,
        base.params,
        Seq::empty(),
        Seq::empty(),
    );
}

/// Choosing a kind in the queue adds the condition that an entry is of it, with
/// the kind as its value, and changes nothing else.
pub proof fn law_queue_kind_adds_its_condition(ws: WorkspaceView, q: QueueParams, p: QueueParams)
    requires
        q.kind@.len() > 0,
        q.kind@ != "all"@,
        p.kind@ == "all"@ || p.kind@.len() == 0,
        q.unread == p.unread,
        q.repo_set@ == p.repo_set@,
        q.q@ == p.q@,
        q.sort@ == p.sort@,
    ensures
        narrows_by(
            queue_query(queue_filters(ws, q)),
            queue_query(queue_filters(ws, p)),
            " AND i.kind = ?"@,
            seq![ParamView::Text(q.kind@)],
        ),
{
    let f = queue_filters(ws, p);
    let more = queue_query(queue_filters(ws, q));
    let base = queue_query(f);
    let (_, b, c) = queue_parts(f);
    let head = crate::db::SELECT_QUEUE@ + crate::db::repo_condition(f.repos.len());
    let tail = b + c + crate::db::queue_order(f.sort);
    let first = text_params(f.repos);
    let last = if f.search->0.len() > 0 {
        seq![ParamView::Text("%"@ + f.search->0 + "%"@)]
    } else {
        Seq::empty()
    };
    let value = seq![ParamView::Text(q.kind@)];
    lemma_nothing_added(head);
    assert(base.sql =~= head + tail);
    assert(more.sql =~= head + " AND i.kind = ?"@ + tail);
    assert(base.params =~= first + last);
    assert(more.params =~= first + value + last);
    lemma_narrows(more, base, head, " AND i.kind = ?"@, tail, first, value, last);
}

/// Searching the queue adds the condition that an entry's title holds the text
/// somewhere, and changes nothing else.
pub proof fn law_queue_search_adds_its_condition(ws: WorkspaceView, q: QueueParams, p: QueueParams)
    requires
        q.q@.len() > 0,
        p.q@.len() == 0,
        q.unread == p.unread,
        q.repo_set@ == p.repo_set@,
        q.kind@ == p.kind@,
        q.sort@ == p.sort@,
    ensures
        narrows_by(
            queue_query(queue_filters(ws, q)),
            queue_query(queue_filters(ws, p)),
            " AND i.title LIKE ?"@,
            seq![ParamView::Text("%"@ + q.q@ + "%"@)],
        ),
{
    let f = queue_filters(ws, p);
    let more = queue_query(queue_filters(ws, q));
    let base = queue_query(f);
    let (a, b, _) = queue_parts(f);
    let head = crate::db::SELECT_QUEUE@ + crate::db::repo_condition(f.repos.len()) + a + b;
    let tail = crate::db::queue_order(f.sort);
    let value = seq![ParamView::Text("%"@ + q.q@ + "%"@)];
    lemma_nothing_added(head);
    assert(base.sql =~= head + tail);
    assert(more.sql =~= head + " AND i.title LIKE ?"@ + tail);
    assert(base.params =~= base.params + Seq::<ParamView>::empty());
    assert(more.params =~= base.params + value + Seq::<ParamView>::empty());
    lemma_narrows(
        more,
        base,
        head,
        " AND i.title LIKE ?"@,
        tail,
        base.params,
        value,
        Seq::empty(),
    );
}

/// A queue without filters lists the open entries of the selected repos, and
/// binds those repos, in the order that is asked for: by last update, by age, by
/// repository, or else by the last activity of their threads.
pub proof fn law_plain_queue_lists_open_entries(ws: WorkspaceView, q: QueueParams)
    requires
        !q.unread,
        q.kind@ == "all"@ || q.kind@.len() == 0,
        q.q@.len() == 0,
    ensures
        queue_query(queue_filters(ws, q)).sql == "SELECT i.id, r.full_name, i.kind, i.number, i.title, i.state,
                    i.updated_at, i.created_at, i.html_url,
                    COALESCE((SELECT t.unread FROM threads t
                              WHERE t.repo_id = i.repo_id AND t.subject_api_url = i.api_url
                              ORDER BY t.updated_at DESC LIMIT 1), 0) AS thread_unread,
                    (SELECT t.reason FROM threads t
                     WHERE t.repo_id = i.repo_id AND t.subject_api_url = i.api_url
                     ORDER BY t.updated_at DESC LIMIT 1) AS thread_reason,
                    (SELECT t.updated_at FROM threads t
                     WHERE t.repo_id = i.repo_id AND t.subject_api_url = i.api_url
                     ORDER BY t.updated_at DESC LIMIT 1) AS thread_updated
             FROM issues i JOIN repos r ON r.id = i.repo_id
             WHERE i.state = 'open'"@ + " AND r.full_name IN "@ + (
        "("@ + placeholders(selected_repos(ws, q.repo_set@).len()) + ")"@) + (if q.sort@
            == "updated"@ {
            " ORDER BY i.updated_at DESC"@
        } else if q.sort@ == "created"@ {
            " ORDER BY i.created_at DESC"@
        } else if q.sort@ == "repo"@ {
            " ORDER BY r.full_name, i.number DESC"@
        } else {
            " ORDER BY COALESCE(thread_updated, i.updated_at) DESC"@
        }),
        queue_query(queue_filters(ws, q)).params == text_params(selected_repos(ws, q.repo_set@)),
{
    let f = queue_filters(ws, q);
    let head = crate::db::SELECT_QUEUE@ + crate::db::repo_condition(f.repos.len());
    lemma_nothing_added(head);
    assert(queue_query(f).sql =~= head + crate::db::queue_order(f.sort));
    assert(queue_query(f).params =~= text_params(f.repos));
}

/// The show modes of the repos view: the watched, those that are not, the
/// ignored among those, or all that are watched or tracked.
pub proof fn law_show_modes_have_their_conditions(ws: WorkspaceView, q: RepoParams, p: RepoParams)
    requires
        p.show@ == "all"@,
        q.q@ == p.q@,
    ensures
        q.show@ == "watched"@ ==> narrows_by(
            repos_query(repos_filters(ws, q)),
            repos_query(repos_filters(ws, p)),
            " AND r.is_watched = 1"@,
            Seq::empty(),
        ),
        q.show@ == "untracked"@ ==> narrows_by(
            repos_query(repos_filters(ws, q)),
            repos_query(repos_filters(ws, p)),
            " AND r.is_watched = 0"@,
            Seq::empty(),
        ),
        q.show@ == "ignored"@ ==> narrows_by(
            repos_query(repos_filters(ws, q)),
            repos_query(repos_filters(ws, p)),
            " AND r.is_watched = 0 AND r.subscription_state = 'ignored'"@,
            Seq::empty(),
        ),
        q.show@ != "watched"@ && q.show@ != "untracked"@ && q.show@ != "ignored"@ ==> repos_query(
            repos_filters(ws, q),
        ) == repos_query(repos_filters(ws, p)),
{
    reveal_strlit("all");
    reveal_strlit("watched");
    reveal_strlit("untracked");
    reveal_strlit("ignored");
    assert("all"@.len() == 3 && "watched"@.len() == 7 && "untracked"@.len() == 9 && "ignored"@.len()
        == 7);
    assert("watched"@[0] != "ignored"@[0]);
    let f = repos_filters(ws, p);
    let base = repos_query(f);
    let more = repos_query(repos_filters(ws, q));
    let condition = crate::db::show_condition(q.show@);
    let head = crate::db::SELECT_REPOS@ + (if f.workspace_repos.len() > 0 {
        " OR r.full_name IN "@ + crate::db::in_list(f.workspace_repos.len())
    } else {
        ""@
    }) + ")"@;
    let tail = (if f.search->0.len() > 0 {
        " AND r.full_name LIKE ?"@
    } else {
        ""@
    }) + " ORDER BY r.full_name"@;
    lemma_nothing_added(head);
    assert(base.sql =~= head + tail);
    assert(more.sql =~= head + condition + tail);
    assert(base.params + Seq::<ParamView>::empty() =~= base.params);
    assert(base.params + Seq::<ParamView>::empty() + Seq::<ParamView>::empty() =~= more.params);
    lemma_narrows(more, base, head, condition, tail, base.params, Seq::empty(), Seq::empty());
}

/// Searching the repos adds the condition that a name holds the text somewhere,
/// and changes nothing else.
pub proof fn law_repos_search_adds_its_condition(ws: WorkspaceView, q: RepoParams, p: RepoParams)
    requires
        q.q@.len() > 0,
        p.q@.len() == 0,
        q.show@ == p.show@,
    ensures
        narrows_by(
            repos_query(repos_filters(ws, q)),
            repos_query(repos_filters(ws, p)),
            " AND r.full_name LIKE ?"@,
            seq![ParamView::Text("%"@ + q.q@ + "%"@)],
        ),
{
    let f = repos_filters(ws, p);
    let base = repos_query(f);
    let more = repos_query(repos_filters(ws, q));
    let head = crate::db::SELECT_REPOS@ + (if f.workspace_repos.len() > 0 {
        " OR r.full_name IN "@ + crate::db::in_list(f.workspace_repos.len())
    } else {
        ""@
    }) + ")"@ + crate::db::show_condition(f.show);
    let tail = " ORDER BY r.full_name"@;
    let value = seq![ParamView::Text("%"@ + q.q@ + "%"@)];
    lemma_nothing_added(head);
    assert(base.sql =~= head + tail);
    assert(more.sql =~= head + " AND r.full_name LIKE ?"@ + tail);
    assert(base.params =~= base.params + Seq::<ParamView>::empty());
    assert(more.params =~= base.params + value + Seq::<ParamView>::empty());
    lemma_narrows(
        more,
        base,
        head,
        " AND r.full_name LIKE ?"@,
        tail,
        base.params,
        value,
        Seq::empty(),
    );
}

/// A table is shown exactly when there is something in it.
pub proof fn law_empty_views_say_so(rows: Seq<char>, count: nat)
    ensures
        count == 0 ==> table(rows, count) == "<p class=\"empty\">No items match your filters.</p>"@,
        count > 0 ==> table(rows, count) == "<table class=\"rows\"><tbody>"@ + rows
            + "</tbody></table>"@,
{
}

/// The rows of a view stand in the order of its items, one for each.
pub proof fn law_rows_keep_their_order(
    queue: Seq<QueueItem>,
    entry: QueueItem,
    inbox: Seq<InboxItem>,
    thread: InboxItem,
    repos: Seq<RepoItem>,
    repo: RepoItem,
)
    ensures
        queue_rows(queue.push(entry)) == queue_rows(queue) + queue_row(entry),
        queue_rows(Seq::empty()).len() == 0,
        inbox_rows(inbox.push(thread)) == inbox_rows(inbox) + inbox_row(thread),
        inbox_rows(Seq::empty()).len() == 0,
        repo_rows(repos.push(repo)) == repo_rows(repos) + repo_row(repo),
        repo_rows(Seq::empty()).len() == 0,
{
    assert(queue.push(entry).drop_last() =~= queue);
    assert(inbox.push(thread).drop_last() =~= inbox);
    assert(repos.push(repo).drop_last() =~= repos);
}

/// A row of the queue shows its entry: its id, whether one of its threads is
/// unread, its repository, kind, number, title and link, the reason of its thread
/// and its last update.
pub proof fn law_queue_row_shows_its_entry(item: QueueItem)
    ensures
        queue_row(item) == "<tr data-id=\""@ + signed_decimal(item.id as int) + (
        if item.thread_unread {
            "\" class=\"unread\">"@
        } else {
            "\">"@
        }) + ("<td>"@ + escaped(item.repo@) + "</td>"@) + ("<td>"@ + escaped(item.kind@)
            + "</td>"@) + "<td>#"@ + signed_decimal(item.number as int) + "</td><td>"@ + link_tag(
            item.html_url@,
            item.title@,
        ) + "</td>"@ + ("<td>"@ + escaped(
            match item.thread_reason {
                Some(reason) => reason@,
                None => ""@,
            },
        ) + "</td>"@) + ("<td>"@ + escaped(item.updated_at@) + "</td>"@) + "</tr>"@,
{
}

/// A row of the inbox shows its thread: its id, whether it is unread, its
/// repository, type, title, reason and last update, with a link where its page is
/// known.
pub proof fn law_inbox_row_shows_its_thread(item: InboxItem)
    ensures
        inbox_row(item) == "<tr data-id=\""@ + escaped(item.thread_id@) + (if item.unread {
            "\" class=\"unread\">"@
        } else {
            "\">"@
        }) + ("<td>"@ + escaped(item.repo@) + "</td>"@) + ("<td>"@ + escaped(item.subject_type@)
            + "</td>"@) + "<td>"@ + (match item.subject_html_url {
            Some(url) => link_tag(url@, item.subject_title@),
            None => escaped(item.subject_title@),
        }) + "</td>"@ + ("<td>"@ + escaped(item.reason@) + "</td>"@) + ("<td>"@ + escaped(
            item.updated_at@,
        ) + "</td>"@) + "</tr>"@,
{
}

/// A repo is marked as watched when it is, else as ignored or participated in by
/// its subscription; the button undoes what is the case.
pub proof fn law_repo_row_shows_its_subscription(item: RepoItem)
    ensures
        item.is_watched ==> badge(item) == "<span class=\"badge ok\">watched</span>"@,
        !item.is_watched && opt_text(item.subscription_state) == Some("watched"@) ==> badge(item)
            == "<span class=\"badge ok\">watched</span>"@,
        !item.is_watched && opt_text(item.subscription_state) == Some("ignored"@) ==> badge(item)
            == "<span class=\"badge ignored\">ignored</span>"@,
        !item.is_watched && opt_text(item.subscription_state) == Some("participating"@) ==> badge(
            item,
        ) == "<span class=\"badge\">participating</span>"@,
        !item.is_watched && item.subscription_state is None ==> badge(item) == ""@,
        item.is_watched ==> watch_button(item) == button_tag(
            "unwatch"@,
            item.full_name@,
            "Unwatch"@,
        ),
        !item.is_watched ==> watch_button(item) == button_tag(
            "watch"@,
            item.full_name@,
            "Watch"@,
        ),
{
    reveal_strlit("watched");
    reveal_strlit("ignored");
    reveal_strlit("participating");
    reveal_strlit("");
    assert("watched"@[0] != "ignored"@[0]);
    assert("watched"@.len() == 7 && "ignored"@.len() == 7 && "participating"@.len() == 13
        && ""@.len() == 0);
}

/// The settings list every repo set with its repos, in order, each with its
/// button to remove it.
pub proof fn law_settings_list_every_set(sets: Seq<RepoSetView>, set: RepoSetView, repos: Seq<Seq<char>>, repo: Seq<char>)
    ensures
        set_entries(sets.push(set)) == set_entries(sets) + set_entry(set),
        set_entries(Seq::empty()).len() == 0,
        repo_entries(repos.push(repo)) == repo_entries(repos) + ("<li>"@ + escaped(repo)
            + button_tag("remove-repo"@, repo, "Remove"@) + "</li>"@),
        repo_entries(Seq::empty()).len() == 0,
        set_entry(set) == "<section class=\"repo-set\" data-set=\""@ + escaped(set.name)
            + "\"><h3>"@ + escaped(set.name) + "</h3>"@ + button_tag(
            "remove-set"@,
            set.name,
            "Remove set"@,
        ) + "<ul>"@ + repo_entries(set.repos) + "</ul></section>"@,
{
    assert(sets.push(set).drop_last() =~= sets);
    assert(repos.push(repo).drop_last() =~= repos);
}

/// Every view offers what its query understands: the values of its selectors are
/// those that the filters and the orders are named by.
pub proof fn law_selectors_offer_what_queries_know()
    ensures
        kind_options()[0].0 == "all"@ && kind_options()[1].0 == "issue"@ && kind_options()[2].0
            == "pr"@ && kind_options().len() == 3,
        queue_sorts()[0].0 == "attention"@ && queue_sorts()[1].0 == "updated"@ && queue_sorts()[2].0
            == "created"@ && queue_sorts()[3].0 == "repo"@ && queue_sorts().len() == 4,
        inbox_sorts()[0].0 == "updated"@ && inbox_sorts()[1].0 == "repo"@ && inbox_sorts().len()
            == 2,
        type_options()[0].0 == "all"@ && type_options()[1].0 == "PullRequest"@ && type_options()[2].0
            == "Issue"@ && type_options()[3].0 == "CheckSuite"@,
        reason_options()[0].0 == "all"@,
        show_options()[0].0 == "all"@ && show_options()[1].0 == "watched"@ && show_options()[2].0
            == "untracked"@ && show_options()[3].0 == "ignored"@ && show_options().len() == 4,
{
}

/// A view shows the filters that it was asked for: each control carries the value
/// that the query was made with, and the items follow.
pub proof fn law_views_show_their_filters(
    ws: WorkspaceView,
    queue: QueueParams,
    entries: Seq<QueueItem>,
    inbox: InboxParams,
    threads: Seq<InboxItem>,
    repos: RepoParams,
    items: Seq<RepoItem>,
)
    ensures
        queue_page(ws, queue, entries) == "<form class=\"filters\">"@ + hidden_tag("ws"@, ws.name)
            + select_tag(
            "queue"@,
            "repo_set"@,
            set_options(set_names(ws.repo_sets)),
            if queue.repo_set@.len() == 0 {
                "all"@
            } else {
                queue.repo_set@
            },
        ) + select_tag("queue"@, "kind"@, kind_options(), queue.kind@) + unread_tag(
            "queue"@,
            queue.unread,
        ) + search_tag("queue"@, queue.q@) + select_tag(
            "queue"@,
            "sort"@,
            queue_sorts(),
            queue.sort@,
        ) + "</form>"@ + table(queue_rows(entries), entries.len()),
        inbox_page(ws, inbox, threads) == "<form class=\"filters\">"@ + hidden_tag("ws"@, ws.name)
            + select_tag(
            "inbox"@,
            "repo_set"@,
            set_options(set_names(ws.repo_sets)),
            if inbox.repo_set@.len() == 0 {
                "all"@
            } else {
                inbox.repo_set@
            },
        ) + select_tag("inbox"@, "type"@, type_options(), inbox.subject_type@) + select_tag(
            "inbox"@,
            "reason"@,
            reason_options(),
            inbox.reason@,
        ) + unread_tag("inbox"@, inbox.unread) + select_tag(
            "inbox"@,
            "sort"@,
            inbox_sorts(),
            inbox.sort@,
        ) + "</form>"@ + table(inbox_rows(threads), threads.len()),
        repos_page(ws, repos, items) == "<form class=\"filters\">"@ + hidden_tag("ws"@, ws.name)
            + select_tag("repos"@, "show"@, show_options(), repos.show@) + search_tag(
            "repos"@,
            repos.q@,
        ) + "</form>"@ + table(repo_rows(items), items.len()),
{
}

} // verus!

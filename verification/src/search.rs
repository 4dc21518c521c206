use vstd::prelude::*;

use crate::bookmarks::{edit_bookmarks_item, edit_bookmarks_result};
use crate::command::{command_text, is_command, spec_command_text, spec_is_command};
use crate::encode::{form_encode, google_encode};
use crate::model::{item, item_views, ItemView, SearchResultItem};
use crate::text::{
    chars_of, copy_range, eq_ignore_ascii_case, eq_ignore_ascii_case_range, has_prefix,
    has_prefix_range, to_lower, lowercase_range, push_range, push_str, string_from_chars,
    string_from_range, string_of, trim, trim_bounds, trimmed_chars,
};

verus! {

/// What answering a launcher query needs.
pub enum SearchPlan {
    /// These are the results.
    Results(Vec<SearchResultItem>),
    /// The results list the saved bookmarks.
    ListBookmarks,
    /// The results are the saved bookmarks that hold this (lower-case) text.
    SearchBookmarks(String),
    /// The results come from the converter and the search index, for this
    /// (trimmed) query.
    General(String),
}

/// What answering a launcher query needs, as text.
pub enum PlanView {
    Results(Seq<ItemView>),
    ListBookmarks,
    SearchBookmarks(Seq<char>),
    General(Seq<char>),
}

impl View for SearchPlan {
    type V = PlanView;

    open spec fn view(&self) -> PlanView {
        match self {
            SearchPlan::Results(v) => PlanView::Results(item_views(v@)),
            SearchPlan::ListBookmarks => PlanView::ListBookmarks,
            SearchPlan::SearchBookmarks(s) => PlanView::SearchBookmarks(s@),
            SearchPlan::General(s) => PlanView::General(s@),
        }
    }
}

/// `s` without its leading `@` characters (`trim_start_matches('@')`).
pub open spec fn drop_ats(s: Seq<char>) -> Seq<char>
    decreases s.len(),
{
    if s.len() > 0 && s[0] == '@' {
        drop_ats(s.drop_first())
    } else {
        s
    }
}

/// The item offered for `@add ...`.
pub open spec fn add_bookmark_item(rest: Seq<char>) -> ItemView {
    item("bookmark:add"@, "Add bookmark"@, "Name|https://example.com"@, "bookmark_add"@, rest)
}

/// The item offered for `@remove ...`.
pub open spec fn remove_bookmark_item(rest: Seq<char>) -> ItemView {
    item(
        "bookmark:remove"@,
        "Remove bookmark"@,
        "Remove \""@ + rest + "\""@,
        "bookmark_remove"@,
        rest,
    )
}

/// The item offered for a command.
pub open spec fn command_item(command: Seq<char>) -> ItemView {
    item("command:"@ + command, command, "Run command"@, "command"@, command)
}

/// What a query needs: nothing for an empty query; for `@`-queries the
/// bookmark list, the bookmark file, an add or a remove offer, or a bookmark
/// search; for `>`-queries the command offer (or nothing); else the
/// converter and the index.
pub open spec fn spec_plan_search(query: Seq<char>) -> PlanView {
    let q = trim(query);
    if q.len() == 0 {
        PlanView::Results(Seq::empty())
    } else if q[0] == '@' {
        let b = trim(drop_ats(q));
        if b.len() == 0 {
            PlanView::ListBookmarks
        } else if eq_ignore_ascii_case(b, "edit"@) {
            PlanView::Results(seq![edit_bookmarks_item()])
        } else if has_prefix(b, "add "@) {
            PlanView::Results(seq![add_bookmark_item(trim(b.skip(4)))])
        } else if has_prefix(b, "remove "@) {
            PlanView::Results(seq![remove_bookmark_item(trim(b.skip(7)))])
        } else {
            PlanView::SearchBookmarks(to_lower(b))
        }
    } else if spec_is_command(q) {
        match spec_command_text(q) {
            Some(c) => PlanView::Results(seq![command_item(c)]),
            None => PlanView::Results(Seq::empty()),
        }
    } else {
        PlanView::General(q)
    }
}

proof fn lemma_drop_ats_at(s: Seq<char>, i: int)
    requires
        0 <= i <= s.len(),
        forall|k: int| 0 <= k < i ==> #[trigger] s[k] == '@',
        i == s.len() || s[i] != '@',
    ensures
        drop_ats(s) == s.skip(i),
    decreases i,
{
    if i == 0 {
        assert(s.skip(0) == s);
    } else {
        let t = s.drop_first();
        assert forall|k: int| 0 <= k < i - 1 implies #[trigger] t[k] == '@' by {
            assert(t[k] == s[k + 1]);
        }
        lemma_drop_ats_at(t, i - 1);
        assert(t.skip(i - 1) == s.skip(i));
    }
}

fn single(x: SearchResultItem) -> (r: Vec<SearchResultItem>)
    ensures
        item_views(r@) == seq![x@],
{
    let mut r: Vec<SearchResultItem> = Vec::new();
    r.push(x);
    assert(item_views(r@) =~= seq![x@]);
    r
}

fn no_results() -> (r: Vec<SearchResultItem>)
    ensures
        item_views(r@) == Seq::<ItemView>::empty(),
{
    let r: Vec<SearchResultItem> = Vec::new();
    assert(item_views(r@) =~= Seq::<ItemView>::empty());
    r
}

/// Decides what answering a launcher query needs (see `spec_plan_search`).
pub fn plan_search(query: &str) -> (r: SearchPlan)
    ensures
        r@ == spec_plan_search(query@),
{
    let q = trimmed_chars(query);
    if q.len() == 0 {
        return SearchPlan::Results(no_results());
    }
    if q[0] == '@' {
        let mut i: usize = 0;
        while i < q.len() && q[i] == '@'
            invariant
                i <= q.len(),
                forall|k: int| 0 <= k < i ==> #[trigger] q@[k] == '@',
            decreases q.len() - i,
        {
            i = i + 1;
        }
        proof {
            lemma_drop_ats_at(q@, i as int);
        }
        assert(q@.skip(i as int) == q@.subrange(i as int, q@.len() as int));
        let (a, b) = trim_bounds(&q, i, q.len());
        let bq = copy_range(&q, a, b);
        if bq.len() == 0 {
            return SearchPlan::ListBookmarks;
        }
        assert(bq@.subrange(0, bq@.len() as int) == bq@);
        let edit = chars_of("edit");
        if eq_ignore_ascii_case_range(&bq, 0, bq.len(), &edit) {
            return SearchPlan::Results(single(edit_bookmarks_result()));
        }
        let add = chars_of("add ");
        proof {
            reveal_strlit("add ");
            reveal_strlit("remove ");
        }
        if has_prefix_range(&bq, 0, bq.len(), &add) {
            let (c, d) = trim_bounds(&bq, 4, bq.len());
            assert(bq@.subrange(4, bq@.len() as int) == bq@.skip(4));
            let x = SearchResultItem::new(
                string_of("bookmark:add"),
                string_of("Add bookmark"),
                string_of("Name|https://example.com"),
                string_of("bookmark_add"),
                string_from_range(&bq, c, d),
            );
            return SearchPlan::Results(single(x));
        }
        let remove = chars_of("remove ");
        if has_prefix_range(&bq, 0, bq.len(), &remove) {
            let (c, d) = trim_bounds(&bq, 7, bq.len());
            assert(bq@.subrange(7, bq@.len() as int) == bq@.skip(7));
            let mut subtitle = string_of("Remove \"");
            push_range(&mut subtitle, &bq, c, d);
            push_str(&mut subtitle, "\"");
            let x = SearchResultItem::new(
                string_of("bookmark:remove"),
                string_of("Remove bookmark"),
                subtitle,
                string_of("bookmark_remove"),
                string_from_range(&bq, c, d),
            );
            return SearchPlan::Results(single(x));
        }
        let lower = lowercase_range(&bq, 0, bq.len());
        return SearchPlan::SearchBookmarks(string_from_chars(&lower));
    }
    let qs = string_from_chars(&q);
    if is_command(qs.as_str()) {
        match command_text(qs.as_str()) {
            Some(c) => {
                let mut id = string_of("command:");
                push_str(&mut id, c.as_str());
                let x = SearchResultItem::new(
                    id,
                    c.clone(),
                    string_of("Run command"),
                    string_of("command"),
                    c,
                );
                return SearchPlan::Results(single(x));
            },
            None => {
                return SearchPlan::Results(no_results());
            },
        }
    }
    SearchPlan::General(qs)
}

/// The web-search offer for a query that found nothing.
pub open spec fn google_item(query: Seq<char>) -> ItemView {
    item(
        "google:"@ + query,
        "Search Google for \""@ + query + "\""@,
        "Search the web"@,
        "web"@,
        "https://www.google.com/search?q="@ + form_encode(vstd::utf8::encode_utf8(query)),
    )
}

/// The web-search offer for a query that found nothing.
pub fn google_result(query: &str) -> (r: SearchResultItem)
    ensures
        r@ == google_item(query@),
{
    let mut id = string_of("google:");
    push_str(&mut id, query);
    let mut title = string_of("Search Google for \"");
    push_str(&mut title, query);
    push_str(&mut title, "\"");
    let mut url = string_of("https://www.google.com/search?q=");
    let encoded = google_encode(query);
    push_str(&mut url, encoded.as_str());
    SearchResultItem::new(id, title, string_of("Search the web"), string_of("web"), url)
}

/// The item, if any, as a list of items.
pub open spec fn optional_item(x: Option<SearchResultItem>) -> Seq<ItemView> {
    match x {
        Some(c) => seq![c@],
        None => Seq::empty(),
    }
}

/// The results of a general query (already trimmed): the converter's item,
/// if any, then the index's results; when both are empty, the web-search offer.
pub fn general_results(
    query: &str,
    conversion: Option<SearchResultItem>,
    index_results: Vec<SearchResultItem>,
) -> (r: Vec<SearchResultItem>)
    ensures
        ({
            item_views(r@) == spec_general_results(
                query@,
                optional_item(conversion),
                item_views(index_results@),
            )
        }),
{
    let ghost found = optional_item(conversion) + item_views(index_results@);
    let mut results: Vec<SearchResultItem> = Vec::new();
    match conversion {
        Some(c) => results.push(c),
        None => {},
    }
    let ghost first = results@;
    let mut rest = index_results;
    let ghost rest_view = rest@;
    results.append(&mut rest);
    assert(results@ == first + rest_view);
    assert(item_views(results@) =~= found);
    if results.len() == 0 {
        return single(google_result(query));
    }
    results
}

/// The results of a general query, as `general_results` gives them.
pub open spec fn spec_general_results(
    query: Seq<char>,
    conversion: Seq<ItemView>,
    index_results: Seq<ItemView>,
) -> Seq<ItemView> {
    let found = conversion + index_results;
    if found.len() == 0 {
        seq![google_item(query)]
    } else {
        found
    }
}

/// The web-search offer is made exactly when nothing else was found; in
/// particular a status item from an index that is still being built keeps
/// the query from being treated as one that found nothing.
pub proof fn law_web_search_only_when_nothing_found(
    query: Seq<char>,
    conversion: Seq<ItemView>,
    index_results: Seq<ItemView>,
)
    ensures
        conversion.len() + index_results.len() == 0 ==> spec_general_results(
            query,
            conversion,
            index_results,
        ) == seq![google_item(query)],
        conversion.len() + index_results.len() > 0 ==> spec_general_results(
            query,
            conversion,
            index_results,
        ) == conversion + index_results,
{
}

} // verus!

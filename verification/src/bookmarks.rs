use vstd::prelude::*;

use crate::model::{item, item_views, Bookmark, ItemView, SearchResultItem};
use crate::text::{
    chars_of, contains_chars, contains_seq, eq_ignore_ascii_case, eq_ignore_ascii_case_range,
    has_prefix, has_prefix_range, to_lower, push_char, push_str, str_to_lowercase,
    string_from_chars, string_of, trim, trimmed_chars,
};

verus! {

/// A bookmark as text.
pub struct BookmarkView {
    pub id: Seq<char>,
    pub title: Seq<char>,
    pub url: Seq<char>,
}

impl View for Bookmark {
    type V = BookmarkView;

    open spec fn view(&self) -> BookmarkView {
        BookmarkView { id: self.id@, title: self.title@, url: self.url@ }
    }
}

/// The bookmarks of a list, as text.
pub open spec fn bookmark_views(v: Seq<Bookmark>) -> Seq<BookmarkView> {
    v.map_values(|b: Bookmark| b@)
}

/// The decimal digits of `n`.
pub open spec fn decimal(n: nat) -> Seq<char>
    decreases n,
{
    if n < 10 {
        seq![(0x30 + n) as char]
    } else {
        decimal(n / 10).push((0x30 + n % 10) as char)
    }
}

/// The decimal digits of `n`.
pub fn decimal_string(n: u128) -> (r: String)
    ensures
        r@ == decimal(n as nat),
{
    let mut digits: Vec<char> = Vec::new();
    let mut m: u128 = n;
    let ghost mut rest: Seq<char> = Seq::empty();
    while m >= 10
        invariant
            decimal(n as nat) == decimal(m as nat) + rest,
            rest.len() == digits.len(),
            forall|k: int| 0 <= k < digits.len() ==> #[trigger] digits@[k] == rest[rest.len() - 1 - k],
        decreases m,
    {
        let d = (m % 10) as u8;
        let c = (0x30u8 + d) as char;
        proof {
            assert(decimal(m as nat) == decimal((m / 10) as nat).push(c));
            assert(decimal((m / 10) as nat) + (seq![c] + rest) == decimal(m as nat) + rest);
        }
        let ghost old_digits = digits@;
        let ghost old_rest = rest;
        digits.push(c);
        proof {
            rest = seq![c] + rest;
            assert forall|k: int| 0 <= k < digits.len() implies #[trigger] digits@[k] == rest[rest.len() - 1 - k] by {
                if k < old_digits.len() {
                    assert(digits@[k] == old_digits[k]);
                    assert(rest[rest.len() - 1 - k] == old_rest[old_rest.len() - 1 - k]);
                }
            }
        }
        m = m / 10;
    }
    let c = (0x30u8 + (m as u8)) as char;
    let mut s = String::new();
    push_char(&mut s, c);
    let mut i: usize = digits.len();
    while i > 0
        invariant
            i <= digits.len(),
            rest.len() == digits.len(),
            forall|k: int| 0 <= k < digits.len() ==> #[trigger] digits@[k] == rest[rest.len() - 1 - k],
            s@ == seq![c] + rest.take(rest.len() - i),
        decreases i,
    {
        i = i - 1;
        push_char(&mut s, digits[i]);
        assert(rest.take(rest.len() - i) == rest.take(rest.len() - i - 1).push(rest[rest.len() - 1 - i]));
    }
    assert(rest.take(rest.len() as int) == rest);
    assert(decimal(m as nat) == seq![c]);
    s
}

/// The bookmark's title equals `title` up to ASCII case.
pub open spec fn title_matches(b: BookmarkView, title: Seq<char>) -> bool {
    eq_ignore_ascii_case(b.title, title)
}

/// Index of the first bookmark whose title matches `title`; the length of
/// the list when none does.
pub open spec fn first_match(s: Seq<BookmarkView>, title: Seq<char>) -> int
    decreases s.len(),
{
    if s.len() == 0 {
        0
    } else if title_matches(s[0], title) {
        0
    } else {
        1 + first_match(s.drop_first(), title)
    }
}

pub proof fn lemma_first_match(s: Seq<BookmarkView>, title: Seq<char>)
    ensures
        0 <= first_match(s, title) <= s.len(),
        forall|k: int| 0 <= k < first_match(s, title) ==> !title_matches(#[trigger] s[k], title),
        first_match(s, title) < s.len() ==> title_matches(s[first_match(s, title)], title),
    decreases s.len(),
{
    if s.len() > 0 && !title_matches(s[0], title) {
        let t = s.drop_first();
        lemma_first_match(t, title);
        assert forall|k: int| 0 <= k < first_match(s, title) implies !title_matches(
            #[trigger] s[k],
            title,
        ) by {
            if k > 0 {
                assert(s[k] == t[k - 1]);
            }
        }
    }
}

/// The id given to a bookmark added at `millis` milliseconds after the Unix epoch.
pub open spec fn bookmark_id(millis: nat) -> Seq<char> {
    "bookmark-"@ + decimal(millis)
}

/// The list after saving `url` under `title`: the first bookmark whose title
/// matches gets the new URL; when none matches, a new bookmark with `id` is
/// added at the end.
pub open spec fn spec_upsert(
    s: Seq<BookmarkView>,
    title: Seq<char>,
    url: Seq<char>,
    id: Seq<char>,
) -> Seq<BookmarkView> {
    let i = first_match(s, title);
    if i < s.len() {
        s.update(i, BookmarkView { url: url, ..s[i] })
    } else {
        s.push(BookmarkView { id: id, title: title, url: url })
    }
}

/// The list without the bookmarks whose title matches `title`.
pub open spec fn spec_remove(s: Seq<BookmarkView>, title: Seq<char>) -> Seq<BookmarkView>
    decreases s.len(),
{
    if s.len() == 0 {
        Seq::empty()
    } else if title_matches(s.last(), title) {
        spec_remove(s.drop_last(), title)
    } else {
        spec_remove(s.drop_last(), title).push(s.last())
    }
}

/// `url` with `https://` put in front unless it starts with `http://` or `https://`.
pub open spec fn with_scheme(url: Seq<char>) -> Seq<char> {
    if has_prefix(url, "http://"@) || has_prefix(url, "https://"@) {
        url
    } else {
        "https://"@ + url
    }
}

/// A URL that already names the `http` or `https` scheme is saved as it
/// is; any other gets `https://` in front; so every saved URL starts with
/// one of the two schemes, and a scheme is never doubled.
pub proof fn law_scheme_is_added_only_when_missing(url: Seq<char>)
    ensures
        has_prefix(url, "https://"@) ==> with_scheme(url) == url,
        has_prefix(url, "http://"@) ==> with_scheme(url) == url,
        !has_prefix(url, "https://"@) && !has_prefix(url, "http://"@) ==> with_scheme(url)
            == "https://"@ + url,
        has_prefix(with_scheme(url), "https://"@) || has_prefix(with_scheme(url), "http://"@),
{
    if !has_prefix(url, "https://"@) && !has_prefix(url, "http://"@) {
        assert(("https://"@ + url).take("https://"@.len() as int) =~= "https://"@);
    }
}

/// The title and URL that a bookmark is saved with: both trimmed, the URL
/// given `https://` when it has no scheme; an error when either is empty.
pub fn normalize_bookmark(title: &str, url: &str) -> (r: Result<(String, String), String>)
    ensures
        trim(title@).len() == 0 ==> (r matches Err(e) && e@ == "Bookmark title cannot be empty"@),
        trim(title@).len() > 0 && trim(url@).len() == 0 ==> (r matches Err(e) && e@
            == "Bookmark URL cannot be empty"@),
        trim(title@).len() > 0 && trim(url@).len() > 0 ==> (r matches Ok((t, u)) && t@ == trim(
            title@,
        ) && u@ == with_scheme(trim(url@))),
{
    let t = trimmed_chars(title);
    let u = trimmed_chars(url);
    if t.len() == 0 {
        return Err(string_of("Bookmark title cannot be empty"));
    }
    if u.len() == 0 {
        return Err(string_of("Bookmark URL cannot be empty"));
    }
    let http = chars_of("http://");
    let https = chars_of("https://");
    assert(u@.subrange(0, u@.len() as int) == u@);
    let full = if has_prefix_range(&u, 0, u.len(), &http) || has_prefix_range(&u, 0, u.len(), &https) {
        string_from_chars(&u)
    } else {
        let mut s = string_of("https://");
        let rest = string_from_chars(&u);
        push_str(&mut s, rest.as_str());
        s
    };
    Ok((string_from_chars(&t), full))
}

fn title_matches_exec(b: &Bookmark, title: &Vec<char>) -> (r: bool)
    ensures
        r == title_matches(b@, title@),
{
    let bt = chars_of(b.title.as_str());
    assert(bt@.subrange(0, bt@.len() as int) == bt@);
    eq_ignore_ascii_case_range(&bt, 0, bt.len(), title)
}

fn copy_bookmark(b: &Bookmark) -> (r: Bookmark)
    ensures
        r@ == b@,
{
    Bookmark { id: b.id.clone(), title: b.title.clone(), url: b.url.clone() }
}

/// Saves `url` under `title` (both already normalized): the first bookmark
/// whose title matches up to ASCII case gets the URL, else a bookmark with
/// the id for `now_millis` is added.
pub fn upsert_bookmark(bookmarks: &mut Vec<Bookmark>, title: &str, url: &str, now_millis: u128)
    ensures
        bookmark_views(final(bookmarks)@) == spec_upsert(
            bookmark_views(old(bookmarks)@),
            title@,
            url@,
            bookmark_id(now_millis as nat),
        ),
{
    let ghost s = bookmark_views(bookmarks@);
    proof {
        lemma_first_match(s, title@);
    }
    let t = chars_of(title);
    let mut i: usize = 0;
    while i < bookmarks.len()
        invariant
            i <= bookmarks.len(),
            s == bookmark_views(bookmarks@),
            bookmarks@ == old(bookmarks)@,
            t@ == title@,
            forall|k: int| 0 <= k < i ==> !title_matches(#[trigger] s[k], title@),
            0 <= first_match(s, title@) <= s.len(),
            forall|k: int| 0 <= k < first_match(s, title@) ==> !title_matches(#[trigger] s[k], title@),
            first_match(s, title@) < s.len() ==> title_matches(s[first_match(s, title@)], title@),
        decreases bookmarks.len() - i,
    {
        assert(s[i as int] == bookmarks@[i as int]@);
        if title_matches_exec(&bookmarks[i], &t) {
            assert(first_match(s, title@) == i);
            let mut b = copy_bookmark(&bookmarks[i]);
            b.url = string_of(url);
            bookmarks.set(i, b);
            assert(bookmark_views(bookmarks@) =~= s.update(i as int, BookmarkView { url: url@, ..s[i as int] }));
            return;
        }
        i = i + 1;
    }
    assert(first_match(s, title@) == s.len());
    let mut id = string_of("bookmark-");
    let digits = decimal_string(now_millis);
    push_str(&mut id, digits.as_str());
    bookmarks.push(Bookmark { id, title: string_of(title), url: string_of(url) });
    assert(bookmark_views(bookmarks@) =~= s.push(
        BookmarkView { id: bookmark_id(now_millis as nat), title: title@, url: url@ },
    ));
}

/// Removes the bookmarks whose title equals the trimmed `title` up to ASCII
/// case; when none does, the list stays as it was and the error names the
/// title as given.
pub fn remove_bookmark(bookmarks: &mut Vec<Bookmark>, title: &str) -> (r: Result<(), String>)
    ensures
        bookmark_views(final(bookmarks)@) == spec_remove(bookmark_views(old(bookmarks)@), trim(title@)),
        r is Err <==> forall|k: int|
            0 <= k < old(bookmarks)@.len() ==> !title_matches(#[trigger] old(bookmarks)@[k]@, trim(title@)),
        r matches Err(e) ==> e@ == "Bookmark '"@ + title@ + "' was not found"@,
{
    let ghost s = bookmark_views(bookmarks@);
    let t = trimmed_chars(title);
    let mut kept: Vec<Bookmark> = Vec::new();
    let mut i: usize = 0;
    let mut removed_any = false;
    while i < bookmarks.len()
        invariant
            i <= bookmarks.len(),
            s == bookmark_views(bookmarks@),
            bookmarks@ == old(bookmarks)@,
            t@ == trim(title@),
            bookmark_views(kept@) == spec_remove(s.take(i as int), t@),
            removed_any <==> exists|k: int| 0 <= k < i && title_matches(#[trigger] s[k], t@),
        decreases bookmarks.len() - i,
    {
        assert(s[i as int] == bookmarks@[i as int]@);
        assert(s.take(i + 1).drop_last() == s.take(i as int));
        assert(s.take(i + 1).last() == s[i as int]);
        if title_matches_exec(&bookmarks[i], &t) {
            removed_any = true;
        } else {
            let ghost before = kept@;
            kept.push(copy_bookmark(&bookmarks[i]));
            assert(bookmark_views(kept@) =~= bookmark_views(before).push(s[i as int]));
        }
        i = i + 1;
    }
    assert(s.take(s.len() as int) == s);
    let no_match = !removed_any;
    proof {
        assert forall|k: int| 0 <= k < old(bookmarks)@.len() implies (#[trigger] old(bookmarks)@[k])@ == s[k] by {}
    }
    *bookmarks = kept;
    if no_match {
        let mut e = string_of("Bookmark '");
        push_str(&mut e, title);
        push_str(&mut e, "' was not found");
        Err(e)
    } else {
        Ok(())
    }
}

proof fn lemma_first_match_at(s: Seq<BookmarkView>, title: Seq<char>, i: int)
    requires
        0 <= i <= s.len(),
        forall|k: int| 0 <= k < i ==> !title_matches(#[trigger] s[k], title),
        i == s.len() || title_matches(s[i], title),
    ensures
        first_match(s, title) == i,
    decreases i,
{
    if i > 0 {
        let t = s.drop_first();
        assert forall|k: int| 0 <= k < i - 1 implies !title_matches(#[trigger] t[k], title) by {
            assert(t[k] == s[k + 1]);
        }
        assert(!title_matches(s[0], title));
        lemma_first_match_at(t, title, i - 1);
    }
}

/// A read after a write: once `url` is saved under `title`, the first
/// bookmark whose title matches `title` has that URL.
pub proof fn law_saved_url_is_found(
    s: Seq<BookmarkView>,
    title: Seq<char>,
    url: Seq<char>,
    id: Seq<char>,
)
    ensures
        ({
            let saved = spec_upsert(s, title, url, id);
            let i = first_match(saved, title);
            &&& 0 <= i < saved.len()
            &&& saved[i].url == url
        }),
{
    lemma_first_match(s, title);
    let i = first_match(s, title);
    let saved = spec_upsert(s, title, url, id);
    if i < s.len() {
        assert forall|k: int| 0 <= k < i implies !title_matches(#[trigger] saved[k], title) by {
            assert(saved[k] == s[k]);
        }
        lemma_first_match_at(saved, title, i);
    } else {
        assert forall|k: int| 0 <= k < s.len() implies !title_matches(#[trigger] saved[k], title) by {
            assert(saved[k] == s[k]);
        }
        assert(title_matches(saved[s.len() as int], title));
        lemma_first_match_at(saved, title, s.len() as int);
    }
}

/// Saving under a title that some bookmark has keeps the number of
/// bookmarks; saving under a new title adds exactly one.
pub proof fn law_save_count(s: Seq<BookmarkView>, title: Seq<char>, url: Seq<char>, id: Seq<char>)
    ensures
        spec_upsert(s, title, url, id).len() == s.len() + (if exists|k: int|
            0 <= k < s.len() && title_matches(#[trigger] s[k], title) {
            0int
        } else {
            1int
        }),
{
    lemma_first_match(s, title);
    if first_match(s, title) < s.len() {
        assert(title_matches(s[first_match(s, title)], title));
    }
}

/// After a removal no bookmark has a title that matches the removed one.
pub proof fn law_removed_title_is_gone(s: Seq<BookmarkView>, title: Seq<char>)
    ensures
        forall|k: int|
            0 <= k < spec_remove(s, title).len() ==> !title_matches(
                #[trigger] spec_remove(s, title)[k],
                title,
            ),
    decreases s.len(),
{
    if s.len() > 0 {
        law_removed_title_is_gone(s.drop_last(), title);
        let r0 = spec_remove(s.drop_last(), title);
        if !title_matches(s.last(), title) {
            assert forall|k: int| 0 <= k < r0.len() + 1 implies !title_matches(
                #[trigger] r0.push(s.last())[k],
                title,
            ) by {
                if k < r0.len() {
                    assert(r0.push(s.last())[k] == r0[k]);
                }
            }
        }
    }
}

/// A removal that matches nothing leaves the list as it was.
pub proof fn law_remove_nothing(s: Seq<BookmarkView>, title: Seq<char>)
    requires
        forall|k: int| 0 <= k < s.len() ==> !title_matches(#[trigger] s[k], title),
    ensures
        spec_remove(s, title) == s,
    decreases s.len(),
{
    if s.len() > 0 {
        let init = s.drop_last();
        assert forall|k: int| 0 <= k < init.len() implies !title_matches(#[trigger] init[k], title) by {
            assert(init[k] == s[k]);
        }
        law_remove_nothing(init, title);
        assert(!title_matches(s[s.len() - 1], title));
        assert(init.push(s.last()) == s);
    }
}

/// No two bookmarks have titles that are equal up to ASCII case.
pub open spec fn titles_distinct(s: Seq<BookmarkView>) -> bool {
    forall|i: int, j: int|
        0 <= i < j < s.len() ==> !eq_ignore_ascii_case(#[trigger] s[i].title, #[trigger] s[j].title)
}

proof fn lemma_remove_from(s: Seq<BookmarkView>, title: Seq<char>)
    ensures
        forall|k: int|
            0 <= k < spec_remove(s, title).len() ==> s.contains(#[trigger] spec_remove(s, title)[k]),
        spec_remove(s, title).len() <= s.len(),
    decreases s.len(),
{
    if s.len() > 0 {
        let init = s.drop_last();
        lemma_remove_from(init, title);
        let r0 = spec_remove(init, title);
        assert forall|k: int| 0 <= k < r0.len() implies s.contains(#[trigger] r0[k]) by {
            let x = r0[k];
            assert(init.contains(x));
            let m = choose|m: int| 0 <= m < init.len() && init[m] == x;
            assert(s[m] == x);
        }
        if !title_matches(s.last(), title) {
            assert forall|k: int| 0 <= k < r0.len() + 1 implies s.contains(
                #[trigger] r0.push(s.last())[k],
            ) by {
                if k < r0.len() {
                    assert(r0.push(s.last())[k] == r0[k]);
                } else {
                    assert(s[s.len() - 1] == s.last());
                }
            }
        }
    }
}

/// Saving and removing keep titles distinct up to ASCII case: a list with
/// distinct titles still has them after either operation.
pub proof fn law_titles_stay_distinct(
    s: Seq<BookmarkView>,
    title: Seq<char>,
    url: Seq<char>,
    id: Seq<char>,
)
    requires
        titles_distinct(s),
    ensures
        titles_distinct(spec_upsert(s, title, url, id)),
        titles_distinct(spec_remove(s, title)),
    decreases s.len(),
{
    lemma_first_match(s, title);
    let i = first_match(s, title);
    let saved = spec_upsert(s, title, url, id);
    if i < s.len() {
        assert forall|a: int, b: int| 0 <= a < b < saved.len() implies !eq_ignore_ascii_case(
            #[trigger] saved[a].title,
            #[trigger] saved[b].title,
        ) by {
            assert(saved[a].title == s[a].title);
            assert(saved[b].title == s[b].title);
        }
    } else {
        assert forall|a: int, b: int| 0 <= a < b < saved.len() implies !eq_ignore_ascii_case(
            #[trigger] saved[a].title,
            #[trigger] saved[b].title,
        ) by {
            assert(saved[a] == s[a]);
            if b < s.len() {
                assert(saved[b] == s[b]);
            } else {
                assert(saved[b].title == title);
                assert(!title_matches(s[a], title));
            }
        }
    }
    law_remove_keeps_distinct(s, title);
}

proof fn law_remove_keeps_distinct(s: Seq<BookmarkView>, title: Seq<char>)
    requires
        titles_distinct(s),
    ensures
        titles_distinct(spec_remove(s, title)),
    decreases s.len(),
{
    if s.len() > 0 {
        let init = s.drop_last();
        assert(titles_distinct(init)) by {
            assert forall|a: int, b: int| 0 <= a < b < init.len() implies !eq_ignore_ascii_case(
                #[trigger] init[a].title,
                #[trigger] init[b].title,
            ) by {
                assert(init[a] == s[a] && init[b] == s[b]);
            }
        }
        law_remove_keeps_distinct(init, title);
        lemma_remove_from(init, title);
        let r0 = spec_remove(init, title);
        if !title_matches(s.last(), title) {
            let r = r0.push(s.last());
            assert forall|a: int, b: int| 0 <= a < b < r.len() implies !eq_ignore_ascii_case(
                #[trigger] r[a].title,
                #[trigger] r[b].title,
            ) by {
                assert(r[a] == r0[a]);
                if b < r0.len() {
                    assert(r[b] == r0[b]);
                } else {
                    assert(init.contains(r0[a]));
                    let m = choose|m: int| 0 <= m < init.len() && init[m] == r0[a];
                    assert(s[m] == r0[a]);
                    assert(r[b] == s[s.len() - 1]);
                }
            }
        }
    }
}

/// The result item that shows a bookmark.
pub open spec fn bookmark_item(b: BookmarkView) -> ItemView {
    item("bookmark:"@ + b.id, b.title, b.url, "bookmark"@, b.url)
}

/// The result item that opens the bookmarks file.
pub open spec fn edit_bookmarks_item() -> ItemView {
    item("bookmark:edit"@, "Edit bookmarks"@, "Open bookmarks.json"@, "bookmark_edit"@, Seq::empty())
}

/// The most bookmarks shown for a query.
pub open spec fn max_bookmark_results() -> int {
    20
}

fn bookmark_result(b: &Bookmark) -> (r: SearchResultItem)
    ensures
        r@ == bookmark_item(b@),
{
    let mut id = string_of("bookmark:");
    push_str(&mut id, b.id.as_str());
    SearchResultItem::new(id, b.title.clone(), b.url.clone(), string_of("bookmark"), b.url.clone())
}

/// The result item that opens the bookmarks file.
pub fn edit_bookmarks_result() -> (r: SearchResultItem)
    ensures
        r@ == edit_bookmarks_item(),
{
    SearchResultItem::new(
        string_of("bookmark:edit"),
        string_of("Edit bookmarks"),
        string_of("Open bookmarks.json"),
        string_of("bookmark_edit"),
        String::new(),
    )
}

/// Results for a bare `@`: the first 20 bookmarks, then the item that opens
/// the bookmarks file.
pub fn bookmark_list_results(bookmarks: &Vec<Bookmark>) -> (r: Vec<SearchResultItem>)
    ensures
        item_views(r@) == bookmark_views(bookmarks@).take(
            if bookmarks@.len() < max_bookmark_results() {
                bookmarks@.len() as int
            } else {
                max_bookmark_results()
            },
        ).map_values(|b: BookmarkView| bookmark_item(b)).push(edit_bookmarks_item()),
{
    let ghost s = bookmark_views(bookmarks@);
    let n: usize = if bookmarks.len() < 20 {
        bookmarks.len()
    } else {
        20
    };
    let mut r: Vec<SearchResultItem> = Vec::new();
    let mut i: usize = 0;
    while i < n
        invariant
            n <= bookmarks.len(),
            i <= n,
            s == bookmark_views(bookmarks@),
            item_views(r@) == s.take(i as int).map_values(|b: BookmarkView| bookmark_item(b)),
            r@.len() == i,
        decreases n - i,
    {
        let ghost old_r = r@;
        r.push(bookmark_result(&bookmarks[i]));
        assert(s[i as int] == bookmarks@[i as int]@);
        proof {
            let target = s.take(i + 1).map_values(|b: BookmarkView| bookmark_item(b));
            assert forall|k: int| 0 <= k < i + 1 implies #[trigger] item_views(r@)[k] == target[k] by {
                if k < i {
                    assert(r@[k] == old_r[k]);
                    assert(item_views(old_r)[k] == s.take(i as int).map_values(
                        |b: BookmarkView| bookmark_item(b),
                    )[k]);
                }
            }
            assert(item_views(r@) =~= target);
        }
        i = i + 1;
    }
    let ghost before = item_views(r@);
    r.push(edit_bookmarks_result());
    assert(item_views(r@) =~= before.push(edit_bookmarks_item()));
    r
}

/// The bookmark's lower-case title or URL holds `search`.
pub open spec fn bookmark_found(b: BookmarkView, search: Seq<char>) -> bool {
    contains_seq(to_lower(b.title), search) || contains_seq(to_lower(b.url), search)
}

/// The bookmarks found for `search`, in order.
pub open spec fn found_bookmarks(s: Seq<BookmarkView>, search: Seq<char>) -> Seq<BookmarkView>
    decreases s.len(),
{
    if s.len() == 0 {
        Seq::empty()
    } else if bookmark_found(s.last(), search) {
        found_bookmarks(s.drop_last(), search).push(s.last())
    } else {
        found_bookmarks(s.drop_last(), search)
    }
}

proof fn lemma_found_concat(a: Seq<BookmarkView>, b: Seq<BookmarkView>, search: Seq<char>)
    ensures
        found_bookmarks(a + b, search) == found_bookmarks(a, search) + found_bookmarks(b, search),
    decreases b.len(),
{
    if b.len() == 0 {
        assert(a + b == a);
        assert(found_bookmarks(a, search) + Seq::<BookmarkView>::empty() == found_bookmarks(a, search));
    } else {
        lemma_found_concat(a, b.drop_last(), search);
        assert((a + b).drop_last() == a + b.drop_last());
        assert((a + b).last() == b.last());
    }
}

fn bookmark_found_exec(b: &Bookmark, search: &Vec<char>) -> (r: bool)
    ensures
        r == bookmark_found(b@, search@),
{
    let t = str_to_lowercase(b.title.as_str());
    let tc = chars_of(t.as_str());
    if contains_chars(&tc, search) {
        return true;
    }
    let u = str_to_lowercase(b.url.as_str());
    let uc = chars_of(u.as_str());
    contains_chars(&uc, search)
}

/// Results for `@` and a search text (already in lower case): the first 20
/// bookmarks whose lower-case title or URL holds it, in order.
pub fn bookmark_search_results(bookmarks: &Vec<Bookmark>, search: &str) -> (r: Vec<SearchResultItem>)
    ensures
        ({
            let found = found_bookmarks(bookmark_views(bookmarks@), search@);
            item_views(r@) == found.take(
                if found.len() < max_bookmark_results() {
                    found.len() as int
                } else {
                    max_bookmark_results()
                },
            ).map_values(|b: BookmarkView| bookmark_item(b))
        }),
{
    let ghost s = bookmark_views(bookmarks@);
    let ghost all = found_bookmarks(s, search@);
    let q = chars_of(search);
    let mut r: Vec<SearchResultItem> = Vec::new();
    let mut i: usize = 0;
    let ghost mut shown: Seq<BookmarkView> = Seq::empty();
    while i < bookmarks.len()
        invariant
            i <= bookmarks.len(),
            s == bookmark_views(bookmarks@),
            all == found_bookmarks(s, search@),
            q@ == search@,
            shown == found_bookmarks(s.take(i as int), search@),
            shown.len() < 20,
            item_views(r@) == shown.map_values(|b: BookmarkView| bookmark_item(b)),
            r@.len() == shown.len(),
        decreases bookmarks.len() - i,
    {
        assert(s[i as int] == bookmarks@[i as int]@);
        assert(s.take(i + 1).drop_last() == s.take(i as int));
        assert(s.take(i + 1).last() == s[i as int]);
        if bookmark_found_exec(&bookmarks[i], &q) {
            let ghost old_r = r@;
            let ghost old_shown = shown;
            r.push(bookmark_result(&bookmarks[i]));
            proof {
                shown = shown.push(s[i as int]);
                let target = shown.map_values(|b: BookmarkView| bookmark_item(b));
                assert forall|k: int| 0 <= k < shown.len() implies #[trigger] item_views(r@)[k]
                    == target[k] by {
                    if k < old_shown.len() {
                        assert(r@[k] == old_r[k]);
                        assert(item_views(old_r)[k] == old_shown.map_values(
                            |b: BookmarkView| bookmark_item(b),
                        )[k]);
                    }
                }
                assert(item_views(r@) =~= target);
            }
            if r.len() >= 20 {
                proof {
                    lemma_found_concat(s.take(i + 1), s.skip(i + 1), search@);
                    assert(s.take(i + 1) + s.skip(i + 1) == s);
                    assert(all.take(20) == shown);
                }
                return r;
            }
        }
        i = i + 1;
    }
    assert(s.take(s.len() as int) == s);
    r
}

} // verus!

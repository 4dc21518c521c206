use spotcast::bookmarks::{
    bookmark_list_results, bookmark_search_results, decimal_string, edit_bookmarks_result,
    normalize_bookmark, remove_bookmark, upsert_bookmark,
};
use spotcast::model::Bookmark;

fn bm(id: &str, title: &str, url: &str) -> Bookmark {
    Bookmark { id: id.to_string(), title: title.to_string(), url: url.to_string() }
}

#[test]
fn decimal_digits() {
    assert_eq!(decimal_string(0), "0");
    assert_eq!(decimal_string(7), "7");
    assert_eq!(decimal_string(1700000000123), "1700000000123");
    assert_eq!(decimal_string(u128::MAX), u128::MAX.to_string());
}

#[test]
fn normalize_inputs() {
    assert_eq!(
        normalize_bookmark("  GitHub ", " github.com "),
        Ok(("GitHub".to_string(), "https://github.com".to_string()))
    );
    assert_eq!(
        normalize_bookmark("Local", "http://localhost:5173"),
        Ok(("Local".to_string(), "http://localhost:5173".to_string()))
    );
    assert_eq!(
        normalize_bookmark("  ", "x"),
        Err("Bookmark title cannot be empty".to_string())
    );
    assert_eq!(normalize_bookmark("t", "   "), Err("Bookmark URL cannot be empty".to_string()));
}

#[test]
fn upsert_adds_then_updates() {
    let mut list = Vec::new();
    upsert_bookmark(&mut list, "GitHub", "https://github.com", 42);
    assert_eq!(list, vec![bm("bookmark-42", "GitHub", "https://github.com")]);
    upsert_bookmark(&mut list, "github", "https://github.com/me", 99);
    assert_eq!(list, vec![bm("bookmark-42", "GitHub", "https://github.com/me")]);
    upsert_bookmark(&mut list, "Docs", "https://docs.rs", 100);
    assert_eq!(list.len(), 2);
    assert_eq!(list[1], bm("bookmark-100", "Docs", "https://docs.rs"));
}

#[test]
fn remove_by_title_any_ascii_case() {
    let mut list = vec![bm("1", "GitHub", "g"), bm("2", "Docs", "d"), bm("3", "GITHUB", "h")];
    assert_eq!(remove_bookmark(&mut list, "  github "), Ok(()));
    assert_eq!(list, vec![bm("2", "Docs", "d")]);
    assert_eq!(remove_bookmark(&mut list, " nope "), Err("Bookmark ' nope ' was not found".to_string()));
    assert_eq!(list, vec![bm("2", "Docs", "d")]);
}

#[test]
fn listing_bookmarks() {
    let list: Vec<Bookmark> = (0..25).map(|i| bm(&format!("b{}", i), &format!("T{}", i), &format!("u{}", i))).collect();
    let out = bookmark_list_results(&list);
    assert_eq!(out.len(), 21);
    assert_eq!(out[0].id, "bookmark:b0");
    assert_eq!(out[0].title, "T0");
    assert_eq!(out[0].subtitle, "u0");
    assert_eq!(out[0].category, "bookmark");
    assert_eq!(out[0].action_payload, "u0");
    assert_eq!(out[19].id, "bookmark:b19");
    assert_eq!(out[20], edit_bookmarks_result());
    assert_eq!(out[20].id, "bookmark:edit");
    assert_eq!(out[20].title, "Edit bookmarks");
    assert_eq!(out[20].subtitle, "Open bookmarks.json");
    assert_eq!(out[20].category, "bookmark_edit");
    let empty = bookmark_list_results(&Vec::new());
    assert_eq!(empty.len(), 1);
}

#[test]
fn searching_bookmarks() {
    let list = vec![
        bm("1", "GitHub", "https://github.com"),
        bm("2", "Docs", "https://docs.rs"),
        bm("3", "Code", "https://GITLAB.com"),
    ];
    let out = bookmark_search_results(&list, "git");
    let ids: Vec<&str> = out.iter().map(|i| i.id.as_str()).collect();
    assert_eq!(ids, vec!["bookmark:1", "bookmark:3"]);
    assert!(bookmark_search_results(&list, "zzz").is_empty());
    let many: Vec<Bookmark> = (0..30).map(|i| bm(&format!("{}", i), "match", "u")).collect();
    assert_eq!(bookmark_search_results(&many, "mat").len(), 20);
}

#[test]
fn saving_keeps_titles_distinct_up_to_ascii_case() {
    let mut list = Vec::new();
    upsert_bookmark(&mut list, "GitHub", "https://a", 1);
    upsert_bookmark(&mut list, "GITHUB", "https://b", 2);
    upsert_bookmark(&mut list, "github", "https://c", 3);
    assert_eq!(list, vec![bm("bookmark-1", "GitHub", "https://c")]);
    assert_eq!(remove_bookmark(&mut list, "GitHub"), Ok(()));
    assert!(list.is_empty());
}

use spotcast::query::make_fts_query;
use spotcast::rank::{rank_search_rows, IndexRow};

fn row(path: &str, title: &str, category: &str, rank: u64) -> IndexRow {
    IndexRow {
        path: path.to_string(),
        title: title.to_string(),
        subtitle: path.to_string(),
        category: category.to_string(),
        rank,
    }
}

#[test]
fn fts_query_joins_prefix_terms() {
    assert_eq!(make_fts_query("hello world"), Some("hello* OR world*".to_string()));
    assert_eq!(make_fts_query("  discord  "), Some("discord*".to_string()));
    assert_eq!(make_fts_query("c++ !! rust-lang"), Some("c* OR rustlang*".to_string()));
    assert_eq!(make_fts_query("!!! ..."), None);
    assert_eq!(make_fts_query(""), None);
    assert_eq!(make_fts_query("Größe"), Some("Größe*".to_string()));
}

#[test]
fn fts_query_keeps_eight_terms() {
    assert_eq!(
        make_fts_query("a b c d e f g h i j"),
        Some("a* OR b* OR c* OR d* OR e* OR f* OR g* OR h*".to_string())
    );
    assert_eq!(
        make_fts_query("a ! b c d e f g h i"),
        Some("a* OR b* OR c* OR d* OR e* OR f* OR g* OR h*".to_string())
    );
}

#[test]
fn ranking_by_category_then_title() {
    let rows = vec![
        row(r"D:\a\discord.txt", "discord.txt", "file", 0),
        row(r"D:\discord", "discord", "project", 1),
        row(r"C:\Start\Discord.lnk", "Discord.lnk", "app", 2),
        row(r"D:\x\Discord", "Discord", "file", 3),
    ];
    let out = rank_search_rows("Discord", &rows);
    let ids: Vec<&str> = out.iter().map(|i| i.id.as_str()).collect();
    assert_eq!(
        ids,
        vec![
            r"app:C:\Start\Discord.lnk",
            r"project:D:\discord",
            r"file:D:\x\Discord",
            r"file:D:\a\discord.txt",
        ]
    );
    assert_eq!(out[0].title, "Discord.lnk");
    assert_eq!(out[0].action_payload, r"C:\Start\Discord.lnk");
    assert_eq!(out[0].category, "app");
    assert_eq!(out[1].subtitle, r"D:\discord");
}

#[test]
fn ranking_by_rank_then_title_then_order() {
    let rows = vec![
        row("1", "zeta notes", "file", 5),
        row("2", "beta notes", "file", 5),
        row("3", "alpha notes", "file", 7),
        row("4", "Beta notes", "file", 5),
        row("5", "other", "misc", 0),
    ];
    let out = rank_search_rows("notes", &rows);
    let ids: Vec<&str> = out.iter().map(|i| i.id.as_str()).collect();
    assert_eq!(ids, vec!["file:2", "file:4", "file:1", "file:3", "misc:5"]);
}

#[test]
fn ranking_keeps_fifty() {
    let rows: Vec<IndexRow> = (0..70u64).map(|i| row(&format!("p{}", 69 - i), "t", "file", 69 - i)).collect();
    let out = rank_search_rows("q", &rows);
    assert_eq!(out.len(), 50);
    assert_eq!(out[0].id, "file:p0");
    assert_eq!(out[49].id, "file:p49");
    assert!(rank_search_rows("q", &Vec::new()).is_empty());
}

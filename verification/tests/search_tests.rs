use spotcast::convert::{evaluate_expression, plan_conversion, ConversionPlan, UnitConversion};
use spotcast::model::SearchResultItem;
use spotcast::search::{general_results, google_result, plan_search, SearchPlan};

fn results(plan: SearchPlan) -> Vec<SearchResultItem> {
    match plan {
        SearchPlan::Results(v) => v,
        _ => panic!("expected finished results"),
    }
}

#[test]
fn empty_query_has_no_results() {
    assert!(results(plan_search("   ")).is_empty());
}

#[test]
fn bookmark_queries() {
    assert!(matches!(plan_search("@"), SearchPlan::ListBookmarks));
    assert!(matches!(plan_search(" @@  "), SearchPlan::ListBookmarks));
    let edit = results(plan_search("@EDIT"));
    assert_eq!(edit.len(), 1);
    assert_eq!(edit[0].id, "bookmark:edit");
    let add = results(plan_search("@add GitHub|https://github.com "));
    assert_eq!(add[0].id, "bookmark:add");
    assert_eq!(add[0].title, "Add bookmark");
    assert_eq!(add[0].subtitle, "Name|https://example.com");
    assert_eq!(add[0].category, "bookmark_add");
    assert_eq!(add[0].action_payload, "GitHub|https://github.com");
    let remove = results(plan_search("@remove  GitHub"));
    assert_eq!(remove[0].id, "bookmark:remove");
    assert_eq!(remove[0].title, "Remove bookmark");
    assert_eq!(remove[0].subtitle, "Remove \"GitHub\"");
    assert_eq!(remove[0].category, "bookmark_remove");
    assert_eq!(remove[0].action_payload, "GitHub");
    match plan_search("@GitHub") {
        SearchPlan::SearchBookmarks(s) => assert_eq!(s, "github"),
        _ => panic!("expected a bookmark search"),
    }
}

#[test]
fn command_queries() {
    let r = results(plan_search(">ping https://google.com"));
    assert_eq!(r.len(), 1);
    assert_eq!(r[0].id, "command:ping google.com");
    assert_eq!(r[0].title, "ping google.com");
    assert_eq!(r[0].subtitle, "Run command");
    assert_eq!(r[0].category, "command");
    assert_eq!(r[0].action_payload, "ping google.com");
    assert!(results(plan_search(">")).is_empty());
    assert!(results(plan_search(">ping")).is_empty());
}

#[test]
fn general_queries() {
    match plan_search("  discord ") {
        SearchPlan::General(q) => assert_eq!(q, "discord"),
        _ => panic!("expected a general search"),
    }
}

#[test]
fn google_fallback_when_nothing_found() {
    let r = general_results("quantum potato", None, Vec::new());
    assert_eq!(r.len(), 1);
    assert_eq!(r[0].id, "google:quantum potato");
    assert_eq!(r[0].title, "Search Google for \"quantum potato\"");
    assert_eq!(r[0].subtitle, "Search the web");
    assert_eq!(r[0].category, "web");
    assert_eq!(r[0].action_payload, "https://www.google.com/search?q=quantum+potato");
    assert_eq!(r[0], google_result("quantum potato"));
}

#[test]
fn general_results_keep_conversion_then_index() {
    let conv = SearchResultItem::new("c".into(), "c".into(), "c".into(), "conversion".into(), "".into());
    let status = SearchResultItem::new("indexing".into(), "s".into(), "s".into(), "status".into(), "".into());
    let r = general_results("x", Some(conv.clone()), vec![status.clone()]);
    assert_eq!(r, vec![conv.clone(), status.clone()]);
    let r = general_results("x", None, vec![status.clone()]);
    assert_eq!(r, vec![status]);
    let r = general_results("x", Some(conv.clone()), Vec::new());
    assert_eq!(r, vec![conv]);
}

#[test]
fn calculator() {
    match plan_conversion("=5 * 10") {
        ConversionPlan::Item(i) => {
            assert_eq!(i.id, "math_result");
            assert_eq!(i.title, "= 50");
            assert_eq!(i.subtitle, "Result ready (Press Enter to copy)");
            assert_eq!(i.category, "conversion");
            assert_eq!(i.action_payload, "50");
        }
        _ => panic!("expected a result"),
    }
    match plan_conversion("=(25 + 75) / 2") {
        ConversionPlan::Item(i) => assert_eq!(i.action_payload, "50"),
        _ => panic!("expected a result"),
    }
    match plan_conversion(" =  ") {
        ConversionPlan::Item(i) => {
            assert_eq!(i.id, "math_error");
            assert_eq!(i.title, "Enter a mathematical expression");
            assert_eq!(i.subtitle, "Example: = 5 * 10");
        }
        _ => panic!("expected a prompt"),
    }
    match plan_conversion("=5 +") {
        ConversionPlan::Item(i) => {
            assert_eq!(i.id, "math_error");
            assert_eq!(i.title, "Invalid mathematical expression");
            assert_eq!(i.action_payload, "");
        }
        _ => panic!("expected an error"),
    }
}

#[test]
fn calculator_refuses_functions_that_can_panic() {
    for query in [
        "=str::substring(\"é\", 1)",
        "=shl(1, 70)",
        "=shr(1, 3)",
        "=math::abs(-5)",
    ] {
        match plan_conversion(query) {
            ConversionPlan::Item(i) => {
                assert_eq!(i.id, "math_error");
                assert_eq!(i.title, "Invalid mathematical expression");
            }
            _ => panic!("expected an error"),
        }
    }
    let i = evaluate_expression("shl(1, 2)");
    assert_eq!(i.id, "math_error");
}

#[test]
fn calculator_substring_of_ascii_text() {
    match plan_conversion("=str::substring(\"abcd\", 1, 3)") {
        ConversionPlan::Item(i) => {
            assert_eq!(i.id, "math_result");
            assert_eq!(i.action_payload, "\"bc\"");
        }
        _ => panic!("expected a result"),
    }
    let i = evaluate_expression("str::substring(\"abc\", 2)");
    assert_eq!(i.title, "= \"c\"");
}

#[test]
fn calculator_with_platform_functions_gives_a_result() {
    match plan_conversion("=2 ^ 3") {
        ConversionPlan::Item(i) => {
            assert_eq!(i.id, "math_result");
            assert_eq!(i.category, "conversion");
        }
        _ => panic!("expected a result"),
    }
    let i = evaluate_expression("7 * 6");
    assert_eq!(i.title, "= 42");
    assert_eq!(i.action_payload, "42");
}

#[test]
fn unit_queries() {
    match plan_conversion("10 FT") {
        ConversionPlan::Unit { number, unit, conversion } => {
            assert_eq!(number, "10");
            assert_eq!(unit, "ft");
            assert_eq!(conversion, UnitConversion::FeetToMeters);
            assert_eq!(conversion.target_unit(), "meters (m)");
        }
        _ => panic!("expected a unit conversion"),
    }
    match plan_conversion("70 °F") {
        ConversionPlan::Unit { conversion, .. } => {
            assert_eq!(conversion, UnitConversion::FahrenheitToCelsius);
            assert_eq!(conversion.target_unit(), "Celsius (°C)");
        }
        _ => panic!("expected a unit conversion"),
    }
    assert!(matches!(plan_conversion("10 parsecs"), ConversionPlan::Nothing));
    assert!(matches!(plan_conversion("10 ft now"), ConversionPlan::Nothing));
    assert!(matches!(plan_conversion("discord"), ConversionPlan::Nothing));
}

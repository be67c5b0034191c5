use datadocs_text::forms::{flag_is_set, redacts};
use datadocs_text::lang::Lang;
use datadocs_text::redaction::process_text_redactions;
use datadocs_text::view::render_display;

const TABLE: &str = "| Item | Cost |\n|------|------|\n| ~~budget~~[a|b] | 5 |\n";

fn markdown_only(s: &str) -> String {
    let parser = pulldown_cmark::Parser::new_ext(s, pulldown_cmark::Options::ENABLE_TABLES);
    let mut out = String::new();
    pulldown_cmark::html::push_html(&mut out, parser);
    out
}

#[test]
fn redaction_before_markdown_keeps_table() {
    let html = render_display(TABLE, true, true);
    assert!(html.contains("<table>"));
    assert_eq!(html.matches("<td>").count(), 2);
    assert!(html.contains("<td>\u{25A0}\u{25A0}\u{25A0}\u{25A0}\u{25A0}\u{25A0}</td>"));
    assert!(!html.contains("a|b"));
    let internal = render_display(TABLE, true, false);
    assert!(internal.contains("<td>budget</td>"));
}

#[test]
fn markdown_before_redaction_corrupts_table() {
    let wrong = process_text_redactions(markdown_only(TABLE), true);
    let right = render_display(TABLE, true, true);
    assert_ne!(wrong, right);
    assert!(wrong.matches("<td>").count() != 2 || wrong.contains("~~"));
}

#[test]
fn plain_display_is_redaction_only() {
    assert_eq!(render_display("a ~~b~~[c] *d*", false, false), "a b *d*");
    assert_eq!(render_display("# T", true, false), "<h1>T</h1>\n");
}

#[test]
fn view_names_and_flags() {
    assert!(!redacts("internal"));
    assert!(redacts("open"));
    assert!(redacts(""));
    assert!(flag_is_set("true"));
    assert!(!flag_is_set("false"));
    assert!(!flag_is_set("True"));
}

#[test]
fn language_codes() {
    assert_eq!(Lang::from_code("fr"), Lang::Fr);
    assert_eq!(Lang::from_code("en"), Lang::En);
    assert_eq!(Lang::from_code("de"), Lang::En);
    assert_eq!(Lang::En.other(), Lang::Fr);
    assert_eq!(Lang::Fr.code(), "fr");
}

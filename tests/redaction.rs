use datadocs_text::redaction::{generate_redacted_string, process_text_redactions};

const SAMPLE: &str = "The ~~budget is $5M~~[PersonalInformation] this year";

#[test]
fn public_view_blocks_out_span_text() {
    let out = process_text_redactions(SAMPLE.to_string(), true);
    assert_eq!(out, "The \u{25A0}\u{25A0}\u{25A0}\u{25A0}\u{25A0}\u{25A0} \u{25A0}\u{25A0} \u{25A0}\u{25A0}\u{25A0} this year");
    assert!(!out.contains("PersonalInformation"));
    assert!(out.starts_with("The "));
    assert!(out.ends_with(" this year"));
}

#[test]
fn internal_view_strips_markup() {
    assert_eq!(process_text_redactions(SAMPLE.to_string(), false), "The budget is $5M this year");
}

#[test]
fn content_without_markup_passes_through() {
    let plain = "Nothing ~ to [hide] here ~~ at all";
    assert_eq!(process_text_redactions(plain.to_string(), true), plain);
    assert_eq!(process_text_redactions(plain.to_string(), false), plain);
    assert_eq!(process_text_redactions("".to_string(), true), "");
}

#[test]
fn unterminated_markup_passes_through() {
    let s = "~~open but never closed~~ and ~~other~~[no close";
    assert_eq!(process_text_redactions(s.to_string(), true), s);
    assert_eq!(process_text_redactions(s.to_string(), false), s);
}

#[test]
fn internal_view_twice_equals_once() {
    let s = "A ~~b~~[x] c ~~d e~~[y] f";
    let once = process_text_redactions(s.to_string(), false);
    assert_eq!(once, "A b c d e f");
    assert_eq!(process_text_redactions(once.to_string(), false), once);
}

#[test]
fn span_text_may_hold_line_breaks() {
    let s = "x ~~one\ntwo~~[r] y";
    assert_eq!(process_text_redactions(s.to_string(), false), "x one\ntwo y");
    assert_eq!(process_text_redactions(s.to_string(), true), "x \u{25A0}\u{25A0}\u{25A0}\u{25A0}\u{25A0}\u{25A0}\u{25A0} y");
}

#[test]
fn rationale_with_line_break_is_no_span() {
    let s = "~~a~~[x\ny]";
    assert_eq!(process_text_redactions(s.to_string(), false), s);
}

#[test]
fn several_spans_are_each_rendered() {
    let s = "~~a~~[1]-~~bc d~~[2]";
    assert_eq!(process_text_redactions(s.to_string(), false), "a-bc d");
    assert_eq!(process_text_redactions(s.to_string(), true), "\u{25A0}-\u{25A0}\u{25A0} \u{25A0}");
}

#[test]
fn redacted_string_keeps_word_lengths() {
    assert_eq!(generate_redacted_string("ab c"), "\u{25A0}\u{25A0} \u{25A0}");
    assert_eq!(generate_redacted_string("\u{e9}t\u{e9}"), "\u{25A0}\u{25A0}\u{25A0}");
    assert_eq!(generate_redacted_string(""), "");
}

#[test]
fn stray_tildes_can_form_a_span_after_rendering() {
    let s = "~~~~z~~[r]~~[w]";
    let once = process_text_redactions(s.to_string(), false);
    assert_eq!(once, "~~z~~[w]");
    assert_eq!(process_text_redactions(once, false), "z");
}

#[test]
fn span_text_may_end_in_tilde() {
    assert_eq!(process_text_redactions("~~x~~~[r]".to_string(), true), "\u{25A0}\u{25A0}");
    assert_eq!(process_text_redactions("~~x~~~[r]".to_string(), false), "x~");
    assert_eq!(process_text_redactions("~~xy~~[r]".to_string(), true), "\u{25A0}\u{25A0}");
}

#[test]
fn closing_markup_without_rationale_end_is_skipped() {
    let s = "~~a~~[b c~~[r] d";
    assert_eq!(process_text_redactions(s.to_string(), false), "a d");
    let s = "~~a~~[\n~~[r] d";
    assert_eq!(process_text_redactions(s.to_string(), false), "a~~[\n d");
}

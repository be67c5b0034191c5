use datadocs_text::codec::Codec;
use datadocs_text::error::TextError;
use datadocs_text::keywords::KeywordExtractor;
use datadocs_text::lang::Lang;
use datadocs_text::text::{InsertableText, Text, PLACEHOLDER};
use datadocs_text::view::LatestText;

fn setup() -> (Codec, KeywordExtractor) {
    let stop: Vec<String> = ["the", "is", "of", "a", "this"].iter().map(|s| s.to_string()).collect();
    (Codec::new("test secret"), KeywordExtractor::new(stop))
}

#[test]
fn create_adds_record_and_shadow() {
    let (codec, ex) = setup();
    let mut rows: Vec<Text> = Vec::new();
    let ins = InsertableText::new(&codec, &ex, None, Lang::En, "Document title", 7);
    let t = Text::create(&mut rows, &codec, ins).unwrap();
    assert_eq!(rows.len(), 2);
    assert_eq!(t.lang, Lang::En);
    assert_eq!(t.content.len(), 1);
    assert!(t.keywords.is_none());
    assert_eq!(t.translated, vec![false]);
    assert_eq!(t.machine_translation, vec![false]);
    assert_eq!(t.created_by_id, vec![7]);
    assert_eq!(codec.decrypt(&t.content[0]), Ok("Document title".to_string()));
    let shadow = Text::get_text_by_id(&rows, t.id, Lang::Fr).unwrap();
    assert_eq!(shadow.id, t.id);
    assert_eq!(codec.decrypt(&shadow.content[0]), Ok(PLACEHOLDER.to_string()));
}

#[test]
fn section_text_keeps_keywords() {
    let (codec, ex) = setup();
    let mut rows: Vec<Text> = Vec::new();
    let ins = InsertableText::new(&codec, &ex, Some(42), Lang::Fr, "wastewater data is useful", 1);
    let t = Text::create(&mut rows, &codec, ins).unwrap();
    assert!(t.keywords.is_some());
    let by_section = Text::get_text_by_section_id(&rows, 42, Lang::Fr).unwrap();
    assert_eq!(by_section.id, t.id);
    assert_eq!(Text::get_text_by_section_id(&rows, 43, Lang::Fr).err(), Some(TextError::NotFound));
}

#[test]
fn update_appends_revision() {
    let (codec, ex) = setup();
    let mut rows: Vec<Text> = Vec::new();
    let ins = InsertableText::new(&codec, &ex, Some(5), Lang::En, "first version", 1);
    let t = Text::create(&mut rows, &codec, ins).unwrap();
    let first = t.content[0].clone();
    let u = Text::update(&mut rows, &codec, &ex, t.id, "second version", Lang::En, 2, true).unwrap();
    assert_eq!(u.content.len(), 2);
    assert_eq!(u.translated, vec![false, false]);
    assert_eq!(u.machine_translation, vec![false, true]);
    assert_eq!(u.created_by_id, vec![1, 2]);
    assert_eq!(u.created_at.len(), 2);
    assert_eq!(u.content[0], first);
    assert_eq!(codec.decrypt(&u.content[1]), Ok("second version".to_string()));
    let stored = Text::get_text_by_id(&rows, t.id, Lang::En).unwrap();
    assert_eq!(stored.content, u.content);
    assert_eq!(rows.len(), 2);
}

#[test]
fn update_of_missing_record_is_not_found() {
    let (codec, ex) = setup();
    let mut rows: Vec<Text> = Vec::new();
    let r = Text::update(&mut rows, &codec, &ex, 99, "x", Lang::En, 1, false);
    assert_eq!(r.err(), Some(TextError::NotFound));
    assert!(rows.is_empty());
    assert_eq!(Text::get_text_by_id(&rows, 99, Lang::Fr).err(), Some(TextError::NotFound));
}

#[test]
fn latest_view_shows_last_revision() {
    let (codec, ex) = setup();
    let mut rows: Vec<Text> = Vec::new();
    let ins = InsertableText::new(&codec, &ex, None, Lang::En, "old ~~text~~[r]", 1);
    let t = Text::create(&mut rows, &codec, ins).unwrap();
    let u = Text::update(&mut rows, &codec, &ex, t.id, "new ~~secret~~[PersonalInformation] text", Lang::En, 3, false)
        .unwrap();
    let open = LatestText::get_from(&u, &codec, false, true).unwrap();
    assert_eq!(open.content, "new \u{25A0}\u{25A0}\u{25A0}\u{25A0}\u{25A0}\u{25A0} text");
    assert_eq!(open.created_by_id, 3);
    assert_eq!(open.created_at, u.created_at[1]);
    assert_eq!(open.keywords, "None");
    let internal = LatestText::get_from(&u, &codec, false, false).unwrap();
    assert_eq!(internal.content, "new secret text");
    let html = LatestText::get_from(&u, &codec, true, false).unwrap();
    assert_eq!(html.content, "<p>new secret text</p>\n");
}

#[test]
fn latest_view_of_corrupt_record_is_decode_error() {
    let (codec, _ex) = setup();
    let t = Text {
        id: 1,
        section_id: None,
        lang: Lang::En,
        content: vec!["%%%".to_string()],
        keywords: None,
        translated: vec![false],
        machine_translation: vec![false],
        created_at: vec![0],
        created_by_id: vec![1],
    };
    assert_eq!(LatestText::get_from(&t, &codec, true, true).err(), Some(TextError::DecodeError));
}

#[test]
fn text_map_holds_latest_plaintext_of_named_ids() {
    let (codec, ex) = setup();
    let mut rows: Vec<Text> = Vec::new();
    let a = Text::create(&mut rows, &codec, InsertableText::new(&codec, &ex, None, Lang::En, "title", 1)).unwrap();
    let b = Text::create(&mut rows, &codec, InsertableText::new(&codec, &ex, None, Lang::En, "purpose", 1)).unwrap();
    Text::update(&mut rows, &codec, &ex, b.id, "purpose v2", Lang::En, 1, false).unwrap();
    let m = Text::get_text_map(&rows, &codec, &vec![a.id, b.id, 12345], Lang::En).unwrap();
    assert_eq!(m.len(), 2);
    assert_eq!(m[&a.id], "title");
    assert_eq!(m[&b.id], "purpose v2");
    let fr = Text::get_text_map(&rows, &codec, &vec![a.id], Lang::Fr).unwrap();
    assert_eq!(fr[&a.id], PLACEHOLDER);
    let none = Text::get_text_map(&rows, &codec, &vec![], Lang::En).unwrap();
    assert!(none.is_empty());
}

#[test]
fn text_map_with_corrupt_record_is_decode_error() {
    let (codec, _ex) = setup();
    let rows = vec![Text {
        id: 8,
        section_id: None,
        lang: Lang::En,
        content: vec!["bad".to_string()],
        keywords: None,
        translated: vec![false],
        machine_translation: vec![false],
        created_at: vec![0],
        created_by_id: vec![1],
    }];
    assert_eq!(Text::get_text_map(&rows, &codec, &vec![8], Lang::En).err(), Some(TextError::DecodeError));
    assert!(Text::get_text_map(&rows, &codec, &vec![9], Lang::En).unwrap().is_empty());
}

#[test]
fn machine_translation_goes_to_other_language() {
    let (codec, ex) = setup();
    let mut rows: Vec<Text> = Vec::new();
    let t = Text::create(&mut rows, &codec, InsertableText::new(&codec, &ex, None, Lang::En, "hello", 4)).unwrap();
    let fr = t.machine_translate_text(&mut rows, &codec, &ex, "bonjour", 4).unwrap();
    assert_eq!(fr.lang, Lang::Fr);
    assert_eq!(fr.machine_translation, vec![false, true]);
    let shown = LatestText::get_from(&fr, &codec, false, false).unwrap();
    assert_eq!(shown.content, "bonjour");
    assert!(shown.machine_translation);
}

#[test]
fn update_or_create_adds_record() {
    let (codec, ex) = setup();
    let mut rows: Vec<Text> = Vec::new();
    let t = Text::update_or_create(&mut rows, InsertableText::new(&codec, &ex, None, Lang::Fr, "texte", 2)).unwrap();
    assert_eq!(rows.len(), 1);
    assert_eq!(rows[0].id, t.id);
    assert_eq!(rows[0].lang, Lang::Fr);
}

#[test]
fn detailed_insertable_keeps_flags() {
    let (codec, ex) = setup();
    let ins = InsertableText::new_detailed(&codec, &ex, Lang::En, "x", true, true, None, 9);
    assert_eq!(ins.translated, vec![true]);
    assert_eq!(ins.machine_translation, vec![true]);
    let t = Text::from(ins, 77, 1000);
    assert_eq!(t.id, 77);
    assert_eq!(t.created_at, vec![1000]);
}

#[test]
fn create_with_taken_id_is_storage_error() {
    let (codec, ex) = setup();
    let mut rows: Vec<Text> = Vec::new();
    let t = Text::create_with_id(&mut rows, &codec, InsertableText::new(&codec, &ex, None, Lang::En, "a", 1), 5, 10)
        .unwrap();
    assert_eq!(t.id, 5);
    assert_eq!(t.created_at, vec![10]);
    assert_eq!(rows.len(), 2);
    let again = Text::create_with_id(&mut rows, &codec, InsertableText::new(&codec, &ex, None, Lang::Fr, "b", 1), 5, 11);
    assert_eq!(again.err(), Some(TextError::StorageError));
    assert_eq!(rows.len(), 2);
}

#[test]
fn insert_never_overwrites_history() {
    let (codec, ex) = setup();
    let mut rows: Vec<Text> = Vec::new();
    Text::insert_with_id(&mut rows, InsertableText::new(&codec, &ex, None, Lang::En, "v1", 1), 3, 0).unwrap();
    Text::update(&mut rows, &codec, &ex, 3, "v2", Lang::En, 1, false).unwrap();
    let r = Text::insert_with_id(&mut rows, InsertableText::new(&codec, &ex, None, Lang::En, "new", 2), 3, 1);
    assert_eq!(r.err(), Some(TextError::StorageError));
    assert_eq!(rows[0].content.len(), 2);
    let other = Text::insert_with_id(&mut rows, InsertableText::new(&codec, &ex, None, Lang::Fr, "fr", 2), 3, 1);
    assert!(other.is_ok());
    assert_eq!(rows.len(), 2);
}

#[test]
fn section_update_refreshes_keywords() {
    let (codec, ex) = setup();
    let mut rows: Vec<Text> = Vec::new();
    let t = Text::create(&mut rows, &codec, InsertableText::new(&codec, &ex, Some(1), Lang::En, "old words", 1)).unwrap();
    let u = Text::update(&mut rows, &codec, &ex, t.id, "fresh phrase", Lang::En, 1, false).unwrap();
    let ks = u.keywords.unwrap();
    assert_eq!(ks.len(), 1);
    assert_eq!(ks[0].keyword, "fresh phrase");
}

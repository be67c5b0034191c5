//! The text record: one row per logical text and language, holding the
//! append-only history of that text's revisions as parallel sequences.
use vstd::prelude::*;
use std::collections::BTreeMap;
use crate::codec::{decryption_of, Codec};
use crate::error::TextError;
use crate::keywords::{
    copy_keywords, keyword_multiset, keywords_view, rake_keywords_of, run_rake, Keyword,
    KeywordExtractor,
};
use crate::lang::Lang;

verus! {

/// What a record holds, with every text as its characters.
pub struct TextView {
    pub id: u128,
    pub section_id: Option<u128>,
    pub lang: Lang,
    pub content: Seq<Seq<char>>,
    pub keywords: Option<Seq<(Seq<char>, Seq<char>)>>,
    pub translated: Seq<bool>,
    pub machine_translation: Seq<bool>,
    pub created_at: Seq<i64>,
    pub created_by_id: Seq<u128>,
}

impl TextView {
    /// Every revision has its entry in each sequence, and there is at least one.
    pub open spec fn wf(self) -> bool {
        &&& self.content.len() >= 1
        &&& self.translated.len() == self.content.len()
        &&& self.machine_translation.len() == self.content.len()
        &&& self.created_at.len() == self.content.len()
        &&& self.created_by_id.len() == self.content.len()
    }

    /// The number of revisions.
    pub open spec fn revisions(self) -> nat {
        self.content.len()
    }

    pub open spec fn has_key(self, id: u128, lang: Lang) -> bool {
        self.id == id && self.lang == lang
    }

    /// `self` is `old` with one revision more: its content is a ciphertext of
    /// `plain` under `secret`, written by `author`, not a human translation,
    /// and machine-translated as `machine`. Every earlier revision stays as it
    /// was, at its index. Keywords are set anew, from `plain` against the stop
    /// words `stop`, for a section's text only.
    pub open spec fn appends(
        self,
        old: TextView,
        secret: Seq<char>,
        plain: Seq<char>,
        author: u128,
        machine: bool,
        stop: Set<Seq<char>>,
    ) -> bool {
        &&& self.id == old.id
        &&& self.section_id == old.section_id
        &&& self.lang == old.lang
        &&& self.content.len() == old.content.len() + 1
        &&& self.content.take(old.content.len() as int) == old.content
        &&& decryption_of(secret, self.content.last()) == Some(plain)
        &&& self.translated == old.translated.push(false)
        &&& self.machine_translation == old.machine_translation.push(machine)
        &&& self.created_by_id == old.created_by_id.push(author)
        &&& self.created_at.len() == old.created_at.len() + 1
        &&& self.created_at.take(old.created_at.len() as int) == old.created_at
        &&& (old.section_id is None ==> self.keywords == old.keywords)
        &&& (old.section_id is Some ==> self.keywords is Some && self.keywords->0.to_multiset()
            == rake_keywords_of(stop, plain))
    }
}

/// One row: the revision history of a logical text in one language. The
/// content of each revision is stored encrypted.
pub struct Text {
    pub id: u128,
    pub section_id: Option<u128>,
    pub lang: Lang,
    pub content: Vec<String>,
    pub keywords: Option<Vec<Keyword>>,
    pub translated: Vec<bool>,
    pub machine_translation: Vec<bool>,
    pub created_at: Vec<i64>,
    pub created_by_id: Vec<u128>,
}

pub open spec fn strings_view(v: Seq<String>) -> Seq<Seq<char>> {
    v.map_values(|s: String| s@)
}

pub open spec fn opt_keywords_view(k: Option<Vec<Keyword>>) -> Option<Seq<(Seq<char>, Seq<char>)>> {
    match k {
        Some(ks) => Some(keywords_view(ks@)),
        None => None,
    }
}

impl View for Text {
    type V = TextView;

    open spec fn view(&self) -> TextView {
        TextView {
            id: self.id,
            section_id: self.section_id,
            lang: self.lang,
            content: strings_view(self.content@),
            keywords: opt_keywords_view(self.keywords),
            translated: self.translated@,
            machine_translation: self.machine_translation@,
            created_at: self.created_at@,
            created_by_id: self.created_by_id@,
        }
    }
}

/// The views of a list of rows.
pub open spec fn rows_view(rows: Seq<Text>) -> Seq<TextView> {
    rows.map_values(|t: Text| t@)
}

/// Every row is well formed and no two rows share an id and a language.
pub open spec fn rows_wf(rows: Seq<TextView>) -> bool {
    &&& forall|i: int| 0 <= i < rows.len() ==> (#[trigger] rows[i]).wf()
    &&& forall|i: int, j: int|
        0 <= i < rows.len() && 0 <= j < rows.len() && i != j ==> !(#[trigger] rows[i]).has_key(
            (#[trigger] rows[j]).id,
            rows[j].lang,
        )
}

/// The index of the first row from `i` on with the given id and language, or -1.
pub open spec fn index_from(rows: Seq<TextView>, id: u128, lang: Lang, i: int) -> int
    decreases rows.len() - i,
{
    if i < 0 || i >= rows.len() {
        -1
    } else if rows[i].has_key(id, lang) {
        i
    } else {
        index_from(rows, id, lang, i + 1)
    }
}

/// The index of the row with the given id and language, or -1.
pub open spec fn key_index(rows: Seq<TextView>, id: u128, lang: Lang) -> int {
    index_from(rows, id, lang, 0)
}

/// The index of the first row from `i` on for the given section and language, or -1.
pub open spec fn section_index_from(rows: Seq<TextView>, section_id: u128, lang: Lang, i: int) -> int
    decreases rows.len() - i,
{
    if i < 0 || i >= rows.len() {
        -1
    } else if rows[i].section_id == Some(section_id) && rows[i].lang == lang {
        i
    } else {
        section_index_from(rows, section_id, lang, i + 1)
    }
}

pub proof fn lemma_index_from(rows: Seq<TextView>, id: u128, lang: Lang, i: int)
    requires
        0 <= i,
    ensures
        index_from(rows, id, lang, i) == -1 || (i <= index_from(rows, id, lang, i) < rows.len()
            && rows[index_from(rows, id, lang, i)].has_key(id, lang)),
        index_from(rows, id, lang, i) == -1 ==> forall|j: int|
            i <= j < rows.len() ==> !(#[trigger] rows[j]).has_key(id, lang),
    decreases rows.len() - i,
{
    if i < rows.len() && !rows[i].has_key(id, lang) {
        lemma_index_from(rows, id, lang, i + 1);
    }
}

fn copy_strings(v: &Vec<String>) -> (r: Vec<String>)
    ensures
        strings_view(r@) == strings_view(v@),
{
    let mut r: Vec<String> = Vec::new();
    for i in 0..v.len()
        invariant
            r.len() == i,
            forall|j: int| 0 <= j < i ==> (#[trigger] r@[j])@ == v@[j]@,
    {
        r.push(v[i].clone());
    }
    assert(strings_view(r@) =~= strings_view(v@));
    r
}

fn copy_vec<T: Copy>(v: &Vec<T>) -> (r: Vec<T>)
    ensures
        r@ == v@,
{
    let mut r: Vec<T> = Vec::new();
    for i in 0..v.len()
        invariant
            r.len() == i,
            forall|j: int| 0 <= j < i ==> #[trigger] r@[j] == v@[j],
    {
        r.push(v[i]);
    }
    assert(r@ =~= v@);
    r
}

fn copy_opt_keywords(k: &Option<Vec<Keyword>>) -> (r: Option<Vec<Keyword>>)
    ensures
        opt_keywords_view(r) == opt_keywords_view(*k),
{
    match k {
        Some(ks) => Some(copy_keywords(ks)),
        None => None,
    }
}

/// Relies on uuid's `Uuid::new_v4`: a random id, read as its 128 bits.
#[verifier::external_body]
fn fresh_id() -> u128 {
    uuid::Uuid::new_v4().as_u128()
}

/// Relies on chrono's `Utc::now`: the time now, in microseconds since the
/// Unix epoch.
#[verifier::external_body]
fn now_micros() -> i64 {
    chrono::Utc::now().timestamp_micros()
}

/// What `update` does: where the store holds a row with the key, the rows
/// are the same but for that one, which has one revision more, and the result
/// is the new row; where it holds none, `NotFound` and no change.
pub open spec fn update_outcome(
    old_rows: Seq<TextView>,
    new_rows: Seq<TextView>,
    r: Result<Text, TextError>,
    secret: Seq<char>,
    text_id: u128,
    content: Seq<char>,
    lang: Lang,
    author: u128,
    machine: bool,
    stop: Set<Seq<char>>,
) -> bool {
    let i = key_index(old_rows, text_id, lang);
    &&& rows_wf(new_rows)
    &&& match r {
        Ok(t) => {
            &&& i >= 0
            &&& new_rows == old_rows.update(i, t@)
            &&& t@.appends(old_rows[i], secret, content, author, machine, stop)
        },
        Err(e) => {
            &&& i == -1
            &&& e == TextError::NotFound
            &&& new_rows == old_rows
        },
    }
}

/// The content of the record that `create` adds in the other language,
/// until a translation replaces it.
pub const PLACEHOLDER: &'static str = "default_translation_traduction_par_defaut";

/// A new text as the caller hands it in: one revision, already encrypted,
/// with the keywords extracted from its content.
pub struct InsertableText {
    pub lang: Lang,
    pub content: Vec<String>,
    pub keywords: Vec<Keyword>,
    pub translated: Vec<bool>,
    pub machine_translation: Vec<bool>,
    pub section_id: Option<u128>,
    pub created_by_id: Vec<u128>,
}

impl InsertableText {
    /// Holds exactly one revision.
    pub open spec fn wf(&self) -> bool {
        &&& self.content@.len() == 1
        &&& self.translated@.len() == 1
        &&& self.machine_translation@.len() == 1
        &&& self.created_by_id@.len() == 1
    }

    /// A new text with `content` as its one revision, with the given
    /// provenance flags.
    pub fn new_detailed(
        codec: &Codec,
        extractor: &KeywordExtractor,
        lang: Lang,
        content: &str,
        translated: bool,
        machine_translation: bool,
        section_id: Option<u128>,
        created_by_id: u128,
    ) -> (r: InsertableText)
        ensures
            r.wf(),
            r.lang == lang,
            r.section_id == section_id,
            decryption_of(codec.secret(), r.content@[0]@) == Some(content@),
            r.translated@ == seq![translated],
            r.machine_translation@ == seq![machine_translation],
            r.created_by_id@ == seq![created_by_id],
            keyword_multiset(r.keywords@) == rake_keywords_of(extractor.stop(), content@),
    {
        let keywords = run_rake(extractor, content);
        let blob = codec.encrypt(content);
        let mut c: Vec<String> = Vec::new();
        c.push(blob);
        let mut t: Vec<bool> = Vec::new();
        t.push(translated);
        let mut m: Vec<bool> = Vec::new();
        m.push(machine_translation);
        let mut a: Vec<u128> = Vec::new();
        a.push(created_by_id);
        assert(t@ =~= seq![translated]);
        assert(m@ =~= seq![machine_translation]);
        assert(a@ =~= seq![created_by_id]);
        InsertableText {
            lang,
            content: c,
            keywords,
            translated: t,
            machine_translation: m,
            section_id,
            created_by_id: a,
        }
    }

    /// A new text with `content` as its one revision, written by a person
    /// and not translated.
    pub fn new(
        codec: &Codec,
        extractor: &KeywordExtractor,
        section_id: Option<u128>,
        lang: Lang,
        content: &str,
        created_by_id: u128,
    ) -> (r: InsertableText)
        ensures
            r.wf(),
            r.lang == lang,
            r.section_id == section_id,
            decryption_of(codec.secret(), r.content@[0]@) == Some(content@),
            r.translated@ == seq![false],
            r.machine_translation@ == seq![false],
            r.created_by_id@ == seq![created_by_id],
            keyword_multiset(r.keywords@) == rake_keywords_of(extractor.stop(), content@),
    {
        InsertableText::new_detailed(codec, extractor, lang, content, false, false, section_id, created_by_id)
    }
}

/// `t` is the record made from `text` with the given id and time: the keywords
/// are kept for a section's text only.
pub open spec fn made_from(t: TextView, text: InsertableText, id: u128, created_at: i64) -> bool {
    &&& t.id == id
    &&& t.section_id == text.section_id
    &&& t.lang == text.lang
    &&& t.content == strings_view(text.content@)
    &&& t.keywords == (if text.section_id is Some {
        Some(keywords_view(text.keywords@))
    } else {
        None
    })
    &&& t.translated == text.translated@
    &&& t.machine_translation == text.machine_translation@
    &&& t.created_at == seq![created_at]
    &&& t.created_by_id == text.created_by_id@
}

/// `s` is the companion of `t` in the other language: the same but for the
/// language and the one revision's content, a ciphertext of the placeholder.
pub open spec fn shadow_of(s: TextView, t: TextView, secret: Seq<char>) -> bool {
    &&& s.id == t.id
    &&& s.section_id == t.section_id
    &&& s.lang == t.lang.other_spec()
    &&& s.content.len() == 1
    &&& decryption_of(secret, s.content[0]) == Some(PLACEHOLDER@)
    &&& s.keywords == t.keywords
    &&& s.translated == t.translated
    &&& s.machine_translation == t.machine_translation
    &&& s.created_at == t.created_at
    &&& s.created_by_id == t.created_by_id
}

/// An update only appends: each of the record's sequences grows by one, and
/// every earlier revision is still there, unchanged, at its index.
pub proof fn lemma_append_only(
    old: TextView,
    new: TextView,
    secret: Seq<char>,
    plain: Seq<char>,
    author: u128,
    machine: bool,
    stop: Set<Seq<char>>,
)
    requires
        old.wf(),
        new.appends(old, secret, plain, author, machine, stop),
    ensures
        new.wf(),
        new.revisions() == old.revisions() + 1,
        new.translated.len() == old.translated.len() + 1,
        new.machine_translation.len() == old.machine_translation.len() + 1,
        new.created_at.len() == old.created_at.len() + 1,
        new.created_by_id.len() == old.created_by_id.len() + 1,
        forall|i: int|
            0 <= i < old.revisions() ==> {
                &&& #[trigger] new.content[i] == old.content[i]
                &&& new.translated[i] == old.translated[i]
                &&& new.machine_translation[i] == old.machine_translation[i]
                &&& new.created_at[i] == old.created_at[i]
                &&& new.created_by_id[i] == old.created_by_id[i]
            },
{
    assert forall|i: int| 0 <= i < old.revisions() implies #[trigger] new.content[i] == old.content[i]
        && new.created_at[i] == old.created_at[i] by {
        assert(new.content.take(old.content.len() as int)[i] == new.content[i]);
        assert(new.created_at.take(old.created_at.len() as int)[i] == new.created_at[i]);
    }
}

/// Row `i` is the only one with its id and language.
pub proof fn lemma_key_index_unique(rows: Seq<TextView>, i: int)
    requires
        rows_wf(rows),
        0 <= i < rows.len(),
    ensures
        key_index(rows, rows[i].id, rows[i].lang) == i,
{
    lemma_index_from(rows, rows[i].id, rows[i].lang, 0);
    let k = key_index(rows, rows[i].id, rows[i].lang);
    if k != i {
        assert(rows[k].has_key(rows[i].id, rows[i].lang));
    }
}

/// The row that `get_text_map` reads for `id`: the one with that id in `lang`,
/// where `ids` names the id.
pub open spec fn selected(rows: Seq<TextView>, ids: Seq<u128>, lang: Lang, id: u128) -> bool {
    ids.contains(id) && key_index(rows, id, lang) >= 0
}

/// The plaintext of the latest revision of `t`.
pub open spec fn latest_plain(t: TextView, secret: Seq<char>) -> Option<Seq<char>> {
    decryption_of(secret, t.content.last())
}

/// What a successful `create` does: `t` is the record made from `text`,
/// under an id that no record had in either language, and the store gains `t`
/// and then its companion in the other language, nothing else.
pub open spec fn create_outcome(
    old_rows: Seq<TextView>,
    new_rows: Seq<TextView>,
    t: TextView,
    text: InsertableText,
    secret: Seq<char>,
) -> bool {
    &&& made_from(t, text, t.id, t.created_at[0])
    &&& key_index(old_rows, t.id, t.lang) == -1
    &&& key_index(old_rows, t.id, t.lang.other_spec()) == -1
    &&& new_rows.len() == old_rows.len() + 2
    &&& new_rows.take(old_rows.len() as int) == old_rows
    &&& new_rows[old_rows.len() as int] == t
    &&& shadow_of(new_rows[old_rows.len() + 1int], t, secret)
}

fn contains_id(ids: &Vec<u128>, id: u128) -> (r: bool)
    ensures
        r == ids@.contains(id),
{
    for i in 0..ids.len()
        invariant
            forall|j: int| 0 <= j < i ==> ids@[j] != id,
    {
        if ids[i] == id {
            return true;
        }
    }
    false
}

impl Text {
    pub fn copy_of(&self) -> (r: Text)
        ensures
            r@ == self@,
    {
        Text {
            id: self.id,
            section_id: self.section_id,
            lang: self.lang,
            content: copy_strings(&self.content),
            keywords: copy_opt_keywords(&self.keywords),
            translated: copy_vec(&self.translated),
            machine_translation: copy_vec(&self.machine_translation),
            created_at: copy_vec(&self.created_at),
            created_by_id: copy_vec(&self.created_by_id),
        }
    }

    /// Appends a revision whose content is `plain`, encrypted, written by
    /// `created_by_id` at the time now.
    fn push_revision(
        &mut self,
        codec: &Codec,
        extractor: &KeywordExtractor,
        plain: &str,
        created_by_id: u128,
        machine_translation: bool,
    )
        requires
            old(self)@.wf(),
        ensures
            final(self)@.wf(),
            final(self)@.appends(
                old(self)@,
                codec.secret(),
                plain@,
                created_by_id,
                machine_translation,
                extractor.stop(),
            ),
    {
        let ghost before = self@;
        if self.section_id.is_some() {
            self.keywords = Some(run_rake(extractor, plain));
        }
        let blob = codec.encrypt(plain);
        self.content.push(blob);
        self.translated.push(false);
        self.machine_translation.push(machine_translation);
        self.created_by_id.push(created_by_id);
        let now = now_micros();
        self.created_at.push(now);
        assert(self@.content.take(before.content.len() as int) =~= before.content);
        assert(self@.created_at.take(before.created_at.len() as int) =~= before.created_at);
    }

    /// The record for `text` under the given id, created at `created_at`.
    pub fn from(text: InsertableText, id: u128, created_at: i64) -> (r: Text)
        ensures
            made_from(r@, text, id, created_at),
    {
        let ghost kw = keywords_view(text.keywords@);
        let keywords = match text.section_id {
            Some(_) => Some(text.keywords),
            None => None,
        };
        let mut at: Vec<i64> = Vec::new();
        at.push(created_at);
        assert(at@ =~= seq![created_at]);
        Text {
            id,
            section_id: text.section_id,
            lang: text.lang,
            content: text.content,
            keywords,
            translated: text.translated,
            machine_translation: text.machine_translation,
            created_at: at,
            created_by_id: text.created_by_id,
        }
    }

    /// Adds `text` under the id `id`, created at `created_at`, together with
    /// its companion record in the other language, whose content is the
    /// placeholder; returns the first. Fails with `StorageError`, changing
    /// nothing, exactly where a record with that id is already there in either
    /// language.
    pub fn create_with_id(
        rows: &mut Vec<Text>,
        codec: &Codec,
        text: InsertableText,
        id: u128,
        created_at: i64,
    ) -> (r: Result<Text, TextError>)
        requires
            rows_wf(rows_view(old(rows)@)),
            text.wf(),
        ensures
            rows_wf(rows_view(final(rows)@)),
            r is Err <==> (key_index(rows_view(old(rows)@), id, text.lang) >= 0 || key_index(
                rows_view(old(rows)@),
                id,
                text.lang.other_spec(),
            ) >= 0),
            match r {
                Ok(t) => t.id == id && t@.created_at == seq![created_at] && create_outcome(
                    rows_view(old(rows)@),
                    rows_view(final(rows)@),
                    t@,
                    text,
                    codec.secret(),
                ),
                Err(e) => e == TextError::StorageError && final(rows)@ == old(rows)@,
            },
    {
        let lang = text.lang;
        let other = lang.other();
        let ghost before = rows_view(rows@);
        proof {
            lemma_index_from(before, id, lang, 0);
            lemma_index_from(before, id, other, 0);
        }
        if Text::find(rows, id, lang).is_some() || Text::find(rows, id, other).is_some() {
            return Err(TextError::StorageError);
        }
        let v = Text::from(text, id, created_at);
        let mut shadow = v.copy_of();
        shadow.lang = other;
        let mut c: Vec<String> = Vec::new();
        c.push(codec.encrypt(PLACEHOLDER));
        shadow.content = c;
        let result = v.copy_of();
        rows.push(v);
        rows.push(shadow);
        proof {
            let after = rows_view(rows@);
            let n = before.len() as int;
            assert(after.take(n) =~= before);
            assert(after[n] == result@);
            assert forall|a: int, b: int|
                0 <= a < after.len() && 0 <= b < after.len() && a != b implies !(
                #[trigger] after[a]).has_key((#[trigger] after[b]).id, after[b].lang) by {
                if a < n && b < n {
                    assert(after[a] == before[a] && after[b] == before[b]);
                } else if a < n {
                    assert(after[a] == before[a]);
                } else if b < n {
                    assert(after[b] == before[b]);
                }
            }
            assert forall|a: int| 0 <= a < after.len() implies (#[trigger] after[a]).wf() by {
                if a < n {
                    assert(after[a] == before[a]);
                }
            }
        }
        Ok(result)
    }

    /// Adds `text` under a fresh id, together with its companion record in
    /// the other language, whose content is the placeholder; returns the
    /// first. On an empty store it always succeeds; elsewhere it fails with
    /// `StorageError`, changing nothing, where the id that was drawn is
    /// already in use.
    pub fn create(rows: &mut Vec<Text>, codec: &Codec, text: InsertableText) -> (r: Result<
        Text,
        TextError,
    >)
        requires
            rows_wf(rows_view(old(rows)@)),
            text.wf(),
        ensures
            rows_wf(rows_view(final(rows)@)),
            old(rows)@.len() == 0 ==> r is Ok,
            match r {
                Ok(t) => create_outcome(
                    rows_view(old(rows)@),
                    rows_view(final(rows)@),
                    t@,
                    text,
                    codec.secret(),
                ),
                Err(e) => {
                    &&& e == TextError::StorageError
                    &&& final(rows)@ == old(rows)@
                    &&& exists|id: u128|
                        key_index(rows_view(old(rows)@), id, text.lang) >= 0 || key_index(
                            rows_view(old(rows)@),
                            id,
                            text.lang.other_spec(),
                        ) >= 0
                },
            },
    {
        let id = fresh_id();
        let now = now_micros();
        let ghost lang = text.lang;
        let r = Text::create_with_id(rows, codec, text, id, now);
        proof {
            if r is Err {
                assert(key_index(rows_view(old(rows)@), id, lang) >= 0 || key_index(
                    rows_view(old(rows)@),
                    id,
                    lang.other_spec(),
                ) >= 0);
            }
        }
        r
    }

    /// The latest content, decrypted, of each text named in `ids` that has a
    /// record in `lang`, keyed by id; ids without such a record are left out.
    /// Fails with `DecodeError` where one of those contents does not decrypt.
    pub fn get_text_map(rows: &Vec<Text>, codec: &Codec, ids: &Vec<u128>, lang: Lang) -> (r: Result<
        BTreeMap<u128, String>,
        TextError,
    >)
        requires
            rows_wf(rows_view(rows@)),
        ensures
            ({
                let rv = rows_view(rows@);
                match r {
                    Ok(m) => {
                        &&& forall|id: u128| #[trigger]
                            m@.contains_key(id) <==> selected(rv, ids@, lang, id)
                        &&& forall|id: u128| #[trigger]
                            m@.contains_key(id) ==> latest_plain(
                                rv[key_index(rv, id, lang)],
                                codec.secret(),
                            ) == Some(m@[id]@)
                    },
                    Err(e) => {
                        &&& e == TextError::DecodeError
                        &&& exists|id: u128| #[trigger]
                            selected(rv, ids@, lang, id) && latest_plain(
                                rv[key_index(rv, id, lang)],
                                codec.secret(),
                            ) is None
                    },
                }
            }),
    {
        broadcast use vstd::laws_cmp::group_laws_cmp;

        let ghost rv = rows_view(rows@);
        let mut m: BTreeMap<u128, String> = BTreeMap::new();
        for i in 0..rows.len()
            invariant
                rv == rows_view(rows@),
                rows_wf(rv),
                forall|id: u128| #[trigger]
                    m@.contains_key(id) <==> (selected(rv, ids@, lang, id) && key_index(rv, id, lang)
                        < i),
                forall|id: u128| #[trigger]
                    m@.contains_key(id) ==> latest_plain(rv[key_index(rv, id, lang)], codec.secret())
                        == Some(m@[id]@),
        {
            proof {
                lemma_key_index_unique(rv, i as int);
                assert forall|id: u128| key_index(rv, id, lang) == i implies id == rv[i as int].id
                    && lang == rv[i as int].lang by {
                    lemma_index_from(rv, id, lang, 0);
                }
                assert(rv[i as int] == rows@[i as int]@);
            }
            let t = &rows[i];
            if t.lang == lang && contains_id(ids, t.id) {
                let last = t.content.len() - 1;
                match codec.decrypt(t.content[last].as_str()) {
                    Ok(p) => {
                        m.insert(t.id, p);
                    },
                    Err(e) => {
                        assert(selected(rv, ids@, lang, t.id));
                        return Err(e);
                    },
                }
            }
        }
        proof {
            assert forall|id: u128| selected(rv, ids@, lang, id) implies key_index(rv, id, lang)
                < rows.len() by {
                lemma_index_from(rv, id, lang, 0);
            }
        }
        Ok(m)
    }

    /// Adds `text` alone, without a companion record, under the id `id`,
    /// created at `created_at`. Fails with `StorageError`, changing nothing,
    /// exactly where a record with that id and language is already there:
    /// a record's history is never overwritten.
    pub fn insert_with_id(rows: &mut Vec<Text>, text: InsertableText, id: u128, created_at: i64) -> (r:
        Result<Text, TextError>)
        requires
            rows_wf(rows_view(old(rows)@)),
            text.wf(),
        ensures
            rows_wf(rows_view(final(rows)@)),
            r is Err <==> key_index(rows_view(old(rows)@), id, text.lang) >= 0,
            match r {
                Ok(t) => {
                    &&& made_from(t@, text, id, created_at)
                    &&& rows_view(final(rows)@) == rows_view(old(rows)@).push(t@)
                },
                Err(e) => e == TextError::StorageError && final(rows)@ == old(rows)@,
            },
    {
        let ghost before = rows_view(rows@);
        proof {
            lemma_index_from(before, id, text.lang, 0);
        }
        if Text::find(rows, id, text.lang).is_some() {
            return Err(TextError::StorageError);
        }
        let v = Text::from(text, id, created_at);
        let result = v.copy_of();
        rows.push(v);
        proof {
            let after = rows_view(rows@);
            let n = before.len() as int;
            assert(after =~= before.push(result@));
            assert forall|a: int, b: int|
                0 <= a < after.len() && 0 <= b < after.len() && a != b implies !(
                #[trigger] after[a]).has_key((#[trigger] after[b]).id, after[b].lang) by {
                if a < n && b < n {
                    assert(after[a] == before[a] && after[b] == before[b]);
                } else if a < n {
                    assert(after[a] == before[a]);
                } else if b < n {
                    assert(after[b] == before[b]);
                }
            }
            assert forall|a: int| 0 <= a < after.len() implies (#[trigger] after[a]).wf() by {
                if a < n {
                    assert(after[a] == before[a]);
                }
            }
        }
        Ok(result)
    }

    /// Adds `text` alone under a fresh id. On an empty store it always
    /// succeeds; elsewhere it fails with `StorageError`, changing nothing,
    /// where the id that was drawn is already in use in that language: an
    /// existing record's history is never overwritten.
    pub fn update_or_create(rows: &mut Vec<Text>, text: InsertableText) -> (r: Result<Text, TextError>)
        requires
            rows_wf(rows_view(old(rows)@)),
            text.wf(),
        ensures
            rows_wf(rows_view(final(rows)@)),
            old(rows)@.len() == 0 ==> r is Ok,
            match r {
                Ok(t) => {
                    &&& made_from(t@, text, t.id, t@.created_at[0])
                    &&& key_index(rows_view(old(rows)@), t.id, t.lang) == -1
                    &&& rows_view(final(rows)@) == rows_view(old(rows)@).push(t@)
                },
                Err(e) => {
                    &&& e == TextError::StorageError
                    &&& final(rows)@ == old(rows)@
                    &&& exists|id: u128| key_index(rows_view(old(rows)@), id, text.lang) >= 0
                },
            },
    {
        let id = fresh_id();
        let now = now_micros();
        let ghost lang = text.lang;
        proof {
            lemma_index_from(rows_view(rows@), id, lang, 0);
        }
        let r = Text::insert_with_id(rows, text, id, now);
        proof {
            if r is Err {
                assert(key_index(rows_view(old(rows)@), id, lang) >= 0);
            }
        }
        r
    }

    /// Records `translated`, the machine translation of this text's latest
    /// content, as a new revision of the record in the other language,
    /// marked as machine-translated and written by `user_id`.
    pub fn machine_translate_text(
        &self,
        rows: &mut Vec<Text>,
        codec: &Codec,
        extractor: &KeywordExtractor,
        translated: &str,
        user_id: u128,
    ) -> (r: Result<Text, TextError>)
        requires
            rows_wf(rows_view(old(rows)@)),
        ensures
            update_outcome(
                rows_view(old(rows)@),
                rows_view(final(rows)@),
                r,
                codec.secret(),
                self.id,
                translated@,
                self.lang.other_spec(),
                user_id,
                true,
                extractor.stop(),
            ),
    {
        Text::update(rows, codec, extractor, self.id, translated, self.lang.other(), user_id, true)
    }

    /// The index of the row with the given id and language, if there is one.
    fn find(rows: &Vec<Text>, text_id: u128, lang: Lang) -> (r: Option<usize>)
        ensures
            match r {
                Some(i) => i as int == key_index(rows_view(rows@), text_id, lang),
                None => key_index(rows_view(rows@), text_id, lang) == -1,
            },
    {
        let ghost rv = rows_view(rows@);
        let mut i: usize = 0;
        while i < rows.len()
            invariant
                i <= rows.len(),
                rv == rows_view(rows@),
                key_index(rv, text_id, lang) == index_from(rv, text_id, lang, i as int),
            decreases rows.len() - i,
        {
            if rows[i].id == text_id && rows[i].lang == lang {
                return Some(i);
            }
            i = i + 1;
        }
        None
    }

    /// The row with the given id and language.
    pub fn get_text_by_id(rows: &Vec<Text>, text_id: u128, lang: Lang) -> (r: Result<Text, TextError>)
        ensures
            ({
                let i = key_index(rows_view(rows@), text_id, lang);
                match r {
                    Ok(t) => i >= 0 && t@ == rows_view(rows@)[i],
                    Err(e) => i == -1 && e == TextError::NotFound,
                }
            }),
    {
        match Text::find(rows, text_id, lang) {
            Some(i) => {
                proof {
                    lemma_index_from(rows_view(rows@), text_id, lang, 0);
                }
                Ok(rows[i].copy_of())
            },
            None => Err(TextError::NotFound),
        }
    }

    /// The row of the given section in the given language.
    pub fn get_text_by_section_id(rows: &Vec<Text>, section_id: u128, lang: Lang) -> (r: Result<
        Text,
        TextError,
    >)
        ensures
            ({
                let i = section_index_from(rows_view(rows@), section_id, lang, 0);
                match r {
                    Ok(t) => i >= 0 && t@ == rows_view(rows@)[i],
                    Err(e) => i == -1 && e == TextError::NotFound,
                }
            }),
    {
        let ghost rv = rows_view(rows@);
        let mut i: usize = 0;
        while i < rows.len()
            invariant
                i <= rows.len(),
                rv == rows_view(rows@),
                section_index_from(rv, section_id, lang, 0) == section_index_from(
                    rv,
                    section_id,
                    lang,
                    i as int,
                ),
            decreases rows.len() - i,
        {
            if rows[i].section_id == Some(section_id) && rows[i].lang == lang {
                return Ok(rows[i].copy_of());
            }
            i = i + 1;
        }
        Err(TextError::NotFound)
    }

    /// Appends a revision to the row with the given id and language: its
    /// content is `content`, encrypted, written by `created_by_id` now, and
    /// marked as machine-translated or not. The keywords of a section's text
    /// are extracted anew. Fails with `NotFound`, changing nothing, where no
    /// such row exists.
    pub fn update(
        rows: &mut Vec<Text>,
        codec: &Codec,
        extractor: &KeywordExtractor,
        text_id: u128,
        content: &str,
        lang: Lang,
        created_by_id: u128,
        machine_translation: bool,
    ) -> (r: Result<Text, TextError>)
        requires
            rows_wf(rows_view(old(rows)@)),
        ensures
            update_outcome(
                rows_view(old(rows)@),
                rows_view(final(rows)@),
                r,
                codec.secret(),
                text_id,
                content@,
                lang,
                created_by_id,
                machine_translation,
                extractor.stop(),
            ),
    {
        match Text::find(rows, text_id, lang) {
            None => Err(TextError::NotFound),
            Some(i) => {
                let ghost before = rows_view(rows@);
                proof {
                    lemma_index_from(before, text_id, lang, 0);
                    assert(before[i as int] == rows@[i as int]@);
                }
                let mut t = rows[i].copy_of();
                t.push_revision(codec, extractor, content, created_by_id, machine_translation);
                let result = t.copy_of();
                rows.set(i, t);
                proof {
                    let after = rows_view(rows@);
                    assert(after =~= before.update(i as int, result@));
                    assert forall|a: int, b: int|
                        0 <= a < after.len() && 0 <= b < after.len() && a != b implies !(
                        #[trigger] after[a]).has_key((#[trigger] after[b]).id, after[b].lang) by {
                        assert(before[a].has_key(before[b].id, before[b].lang) == after[a].has_key(
                            after[b].id,
                            after[b].lang,
                        ));
                    }
                    assert forall|a: int| 0 <= a < after.len() implies (#[trigger] after[a]).wf() by {
                        if a != i {
                            assert(after[a] == before[a]);
                        }
                    }
                }
                Ok(result)
            },
        }
    }
}

} // verus!

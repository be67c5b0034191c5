//! The display view of a text: its latest revision, decrypted, with the
//! redaction markup rendered for the audience, optionally as HTML, and its
//! keyword summary.
use vstd::prelude::*;
use crate::codec::{decrypted, Codec};
use crate::error::TextError;
use crate::keywords::{get_keyword_html, keyword_html};
use crate::lang::Lang;
use crate::markdown::{markdown_html_of, to_html};
use crate::redaction::{process_text_redactions, rendered};
use crate::text::{Text, TextView};

verus! {

/// The display form of `plain`: redaction markup rendered first, then, where
/// asked for, Markdown turned into HTML. Rendering the markup first keeps it
/// from reaching the Markdown parser.
pub open spec fn display(plain: Seq<char>, markdown: bool, redact: bool) -> Seq<char> {
    if markdown {
        markdown_html_of(rendered(plain, redact))
    } else {
        rendered(plain, redact)
    }
}

/// Renders decrypted content for display: redaction first, then Markdown.
pub fn render_display(content: &str, markdown: bool, redact: bool) -> (r: String)
    ensures
        r@ == display(content@, markdown, redact),
{
    let processed = process_text_redactions(content.to_owned(), redact);
    if markdown {
        to_html(processed.as_str())
    } else {
        processed
    }
}

/// The latest revision of a text, as it is shown.
pub struct LatestText {
    pub id: u128,
    pub section_id: Option<u128>,
    pub lang: Lang,
    pub content: String,
    pub keywords: String,
    pub translated: bool,
    pub machine_translation: bool,
    pub created_at: i64,
    pub created_by_id: u128,
}

impl LatestText {
    /// `self` shows the latest revision of `t`, whose plaintext is `plain`.
    pub open spec fn shows(&self, t: TextView, plain: Seq<char>, markdown: bool, redact: bool) -> bool {
        &&& self.id == t.id
        &&& self.section_id == t.section_id
        &&& self.lang == t.lang
        &&& self.content@ == display(plain, markdown, redact)
        &&& self.keywords@ == keyword_html(t.keywords, 1)
        &&& self.translated == t.translated.last()
        &&& self.machine_translation == t.machine_translation.last()
        &&& self.created_at == t.created_at.last()
        &&& self.created_by_id == t.created_by_id.last()
    }

    /// The display view of the latest revision of `text`: decrypted, then
    /// redaction rendered, then (with `markdown`) turned into HTML, with the
    /// top keyword and the latest provenance. Fails with `DecodeError` where
    /// the latest content does not decrypt, and then returns nothing partial.
    pub fn get_from(text: &Text, codec: &Codec, markdown: bool, redact: bool) -> (r: Result<
        LatestText,
        TextError,
    >)
        requires
            text@.wf(),
        ensures
            latest_outcome(text@, codec.secret(), markdown, redact, r),
    {
        let last = text.content.len() - 1;
        let plain = match codec.decrypt(text.content[last].as_str()) {
            Ok(p) => p,
            Err(e) => {
                return Err(e);
            },
        };
        let content = render_display(plain.as_str(), markdown, redact);
        let keywords = get_keyword_html(&text.keywords, 1);
        Ok(
            LatestText {
                id: text.id,
                section_id: text.section_id,
                lang: text.lang,
                content,
                keywords,
                translated: text.translated[last],
                machine_translation: text.machine_translation[last],
                created_at: text.created_at[last],
                created_by_id: text.created_by_id[last],
            },
        )
    }
}

/// What `get_from` returns for `t`: the display view of its latest revision
/// where that revision decrypts, else the decryption error.
pub open spec fn latest_outcome(
    t: TextView,
    secret: Seq<char>,
    markdown: bool,
    redact: bool,
    r: Result<LatestText, TextError>,
) -> bool {
    match decrypted(secret, t.content.last()) {
        Ok(p) => r is Ok && r->Ok_0.shows(t, p, markdown, redact),
        Err(e) => r == Err::<LatestText, TextError>(e),
    }
}

/// After an update the display view shows the revision just appended: its
/// content and its provenance, never an earlier revision's.
pub proof fn lemma_latest_shows_appended(
    old: TextView,
    new: TextView,
    secret: Seq<char>,
    plain: Seq<char>,
    author: u128,
    machine: bool,
    stop: Set<Seq<char>>,
    markdown: bool,
    redact: bool,
    r: Result<LatestText, TextError>,
)
    requires
        old.wf(),
        new.appends(old, secret, plain, author, machine, stop),
        latest_outcome(new, secret, markdown, redact, r),
    ensures
        r is Ok,
        ({
            let shown = r->Ok_0;
            &&& shown.content@ == display(plain, markdown, redact)
            &&& shown.translated == false
            &&& shown.machine_translation == machine
            &&& shown.created_by_id == author
            &&& shown.created_at == new.created_at[old.created_at.len() as int]
        }),
{
}

} // verus!

//! Keyword extraction (RAKE over a stopword list) and the keyword summary
//! shown beside a text.
use vstd::prelude::*;
use std::collections::HashSet;
use vstd::multiset::Multiset;
use rake::{Rake, StopWords};

verus! {

/// One extracted phrase with its score, the score written out in decimal.
pub struct Keyword {
    pub keyword: String,
    pub score: String,
}

impl View for Keyword {
    type V = (Seq<char>, Seq<char>);

    open spec fn view(&self) -> (Seq<char>, Seq<char>) {
        (self.keyword@, self.score@)
    }
}

impl Keyword {
    pub fn copy_of(&self) -> (r: Keyword)
        ensures
            r@ == self@,
    {
        Keyword { keyword: self.keyword.clone(), score: self.score.clone() }
    }
}

/// The views of a list of keywords.
pub open spec fn keywords_view(ks: Seq<Keyword>) -> Seq<(Seq<char>, Seq<char>)> {
    ks.map_values(|k: Keyword| k@)
}

pub fn copy_keywords(ks: &Vec<Keyword>) -> (r: Vec<Keyword>)
    ensures
        keywords_view(r@) == keywords_view(ks@),
{
    let mut r: Vec<Keyword> = Vec::new();
    for i in 0..ks.len()
        invariant
            r.len() == i,
            forall|j: int| 0 <= j < i ==> (#[trigger] r@[j])@ == ks@[j]@,
    {
        r.push(ks[i].copy_of());
    }
    assert(keywords_view(r@) =~= keywords_view(ks@));
    r
}

/// The keywords that RAKE finds in `content` against the stopword set
/// `stop`: each phrase with its score written with `f64`'s `Display`.
pub uninterp spec fn rake_keywords_of(stop: Set<Seq<char>>, content: Seq<char>) -> Multiset<
    (Seq<char>, Seq<char>),
>;

/// The keywords of a list, without their order.
pub open spec fn keyword_multiset(ks: Seq<Keyword>) -> Multiset<(Seq<char>, Seq<char>)> {
    keywords_view(ks).to_multiset()
}

/// The set of the given stop words.
pub open spec fn stop_set(words: Seq<String>) -> Set<Seq<char>> {
    words.map_values(|w: String| w@).to_set()
}

/// Relies on rake's `Rake::new` over `StopWords::from` the set of `stop_words`,
/// and `Rake::run`: the phrases and their scores depend on the stop words
/// and the content alone; only the order of equal scores follows a `HashMap`
/// walk, so the result is stated without its order.
#[verifier::external_body]
fn rake_run(stop_words: &Vec<String>, content: &str) -> (r: Vec<Keyword>)
    ensures
        keyword_multiset(r@) == rake_keywords_of(stop_set(stop_words@), content@),
{
    let set: HashSet<String> = stop_words.iter().cloned().collect();
    let rake = Rake::new(StopWords::from(set));
    rake.run(content).into_iter().map(|k| Keyword { keyword: k.keyword, score: k.score.to_string() }).collect()
}

/// Extracts ranked keyword phrases, against a fixed stopword list.
pub struct KeywordExtractor {
    stop_words: Vec<String>,
}

impl KeywordExtractor {
    /// The stop words, as a set.
    pub closed spec fn stop(&self) -> Set<Seq<char>> {
        stop_set(self.stop_words@)
    }

    pub fn new(stop_words: Vec<String>) -> (r: KeywordExtractor)
        ensures
            r.stop() == stop_set(stop_words@),
    {
        KeywordExtractor { stop_words }
    }
}

/// The keyword phrases of `content` with their scores, highest score first.
pub fn run_rake(extractor: &KeywordExtractor, content: &str) -> (r: Vec<Keyword>)
    ensures
        keyword_multiset(r@) == rake_keywords_of(extractor.stop(), content@),
{
    rake_run(&extractor.stop_words, content)
}

/// What `{:?}` writes for the text `s`: in double quotes, with escapes.
pub uninterp spec fn debug_str_of(s: Seq<char>) -> Seq<char>;

/// Relies on std's `Debug` for `str` through `format!`: the result depends on
/// the characters alone.
#[verifier::external_body]
fn debug_quoted(s: &str) -> (r: String)
    ensures
        r@ == debug_str_of(s@),
{
    format!("{:?}", s)
}

/// The list entry for a keyword whose quoted form is `quoted`.
pub open spec fn item_html(quoted: Seq<char>, score: Seq<char>) -> Seq<char> {
    "<li>"@ + quoted + ": "@ + score + "</li>"@
}

/// The entries for the first `m` keywords of `ks`.
pub open spec fn items_html(ks: Seq<(Seq<char>, Seq<char>)>, m: nat) -> Seq<char>
    decreases m,
{
    if m == 0 || ks.len() == 0 {
        Seq::empty()
    } else if m > ks.len() {
        items_html(ks, ks.len())
    } else {
        items_html(ks, (m - 1) as nat) + item_html(debug_str_of(ks[m - 1].0), ks[m - 1].1)
    }
}

/// The summary of the top `n` keywords: a `<ul>` list with one entry for each
/// of the first `n` (all of them where there are fewer), or `None` where the
/// text carries no keywords, or an empty list of them.
pub open spec fn keyword_html(ks: Option<Seq<(Seq<char>, Seq<char>)>>, n: nat) -> Seq<char> {
    match ks {
        Some(ks) => if ks.len() == 0 {
            "None"@
        } else {
            "<ul>"@ + items_html(ks, n) + "</ul>"@
        },
        None => "None"@,
    }
}

/// The list entry for one keyword, given its quoted form and its score.
pub fn keyword_item_html(quoted: &str, score: &str) -> (r: String)
    ensures
        r@ == item_html(quoted@, score@),
{
    let mut r = String::new();
    r.append("<li>");
    r.append(quoted);
    r.append(": ");
    r.append(score);
    r.append("</li>");
    r
}

/// Renders the top `n` keywords as a list, or the text `None` where there
/// are no keywords.
pub fn get_keyword_html(keywords: &Option<Vec<Keyword>>, n: usize) -> (r: String)
    ensures
        r@ == keyword_html(
            match keywords {
                Some(ks) => Some(keywords_view(ks@)),
                None => None,
            },
            n as nat,
        ),
{
    match keywords {
        None => "None".to_owned(),
        Some(ks) => {
            if ks.len() == 0 {
                return "None".to_owned();
            }
            let ghost kv = keywords_view(ks@);
            let m: usize = if n < ks.len() { n } else { ks.len() };
            let mut r = "<ul>".to_owned();
            for i in 0..m
                invariant
                    m <= ks.len(),
                    kv == keywords_view(ks@),
                    r@ == "<ul>"@ + items_html(kv, i as nat),
            {
                let quoted = debug_quoted(ks[i].keyword.as_str());
                let item = keyword_item_html(quoted.as_str(), ks[i].score.as_str());
                r.append(item.as_str());
                assert(items_html(kv, (i + 1) as nat) == items_html(kv, i as nat) + item@);
                assert(r@ =~= "<ul>"@ + items_html(kv, (i + 1) as nat));
            }
            assert(items_html(kv, m as nat) == items_html(kv, n as nat));
            r.append("</ul>");
            r
        },
    }
}

} // verus!

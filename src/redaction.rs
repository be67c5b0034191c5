//! Redaction markup: a span is written `~~text~~[rationale]`. The internal
//! view keeps `text` and drops the markup; the public view blocks `text` out.
//! The rationale is never shown.
use vstd::prelude::*;
use crate::chars::{chars_of, string_of};

verus! {

/// The character that stands for one hidden character in the public view.
pub const BLOCK: char = '\u{25A0}';

/// A `~~` delimiter starts at `j`.
pub open spec fn is_pair(s: Seq<char>, j: int) -> bool {
    0 <= j && j + 1 < s.len() && s[j] == '~' && s[j + 1] == '~'
}

/// The first `]` or line break at or after `from`, or -1: a rationale ends at
/// a `]` and holds no line break.
pub open spec fn first_close(s: Seq<char>, from: int) -> int
    decreases s.len() - from,
{
    if from < 0 || from >= s.len() {
        -1
    } else if s[from] == ']' || s[from] == '\n' {
        from
    } else {
        first_close(s, from + 1)
    }
}

/// A span's closing markup starts at `j`: `~~[`, then a rationale without
/// `]` or line break, then `]`.
pub open spec fn closes_at(s: Seq<char>, j: int) -> bool {
    &&& 0 <= j
    &&& j + 2 < s.len()
    &&& s[j] == '~'
    &&& s[j + 1] == '~'
    &&& s[j + 2] == '['
    &&& first_close(s, j + 3) >= 0
    &&& s[first_close(s, j + 3)] == ']'
}

/// The first closing markup at or after `from`, or -1.
pub open spec fn first_closer(s: Seq<char>, from: int) -> int
    decreases s.len() - from,
{
    if from < 0 || from + 2 >= s.len() {
        -1
    } else if closes_at(s, from) {
        from
    } else {
        first_closer(s, from + 1)
    }
}

/// Where the span that starts at `i` has its closing `~~[` (`j`) and its `]`
/// (`k`), if a span starts at `i`: `s[i..]` reads `~~`, then the text, up to
/// the first closing markup that follows.
pub open spec fn span_at(s: Seq<char>, i: int) -> Option<(int, int)> {
    if !is_pair(s, i) {
        None
    } else {
        let j = first_closer(s, i + 2);
        if j < 0 {
            None
        } else {
            Some((j, first_close(s, j + 3)))
        }
    }
}

/// Each character of `t` but the space becomes a block: every word turns into
/// a block of its own length, and the words stay one space apart.
pub open spec fn blocked(t: Seq<char>) -> Seq<char> {
    Seq::new(t.len(), |x: int| if t[x] == ' ' { ' ' } else { BLOCK })
}

/// What a span's text turns into in the chosen view.
pub open spec fn replacement(t: Seq<char>, redact: bool) -> Seq<char> {
    if redact {
        blocked(t)
    } else {
        t
    }
}

/// The rendering of `s` from position `i` on.
pub open spec fn render_from(s: Seq<char>, i: int, redact: bool) -> Seq<char>
    decreases s.len() - i,
    via render_from_decreases
{
    if i < 0 || i >= s.len() {
        Seq::empty()
    } else {
        match span_at(s, i) {
            Some((j, k)) => replacement(s.subrange(i + 2, j), redact) + render_from(s, k + 1, redact),
            None => seq![s[i]] + render_from(s, i + 1, redact),
        }
    }
}

#[via_fn]
proof fn render_from_decreases(s: Seq<char>, i: int, redact: bool) {
    if 0 <= i < s.len() {
        if let Some((j, k)) = span_at(s, i) {
            lemma_first_closer_bounds(s, i + 2);
            lemma_first_close_bounds(s, j + 3);
        }
    }
}

/// `s` with every redaction span rendered for the internal view
/// (`redact == false`) or the public view (`redact == true`).
pub open spec fn rendered(s: Seq<char>, redact: bool) -> Seq<char> {
    render_from(s, 0, redact)
}

/// `s` holds a redaction span somewhere.
pub open spec fn has_span(s: Seq<char>) -> bool {
    exists|i: int| 0 <= i < s.len() && (#[trigger] span_at(s, i)) is Some
}

pub proof fn lemma_first_closer_bounds(s: Seq<char>, from: int)
    ensures
        first_closer(s, from) == -1 || (from <= first_closer(s, from) && closes_at(
            s,
            first_closer(s, from),
        )),
    decreases s.len() - from,
{
    if from >= 0 && from + 2 < s.len() && !closes_at(s, from) {
        lemma_first_closer_bounds(s, from + 1);
    }
}

pub proof fn lemma_first_close_bounds(s: Seq<char>, from: int)
    ensures
        first_close(s, from) == -1 || (from <= first_close(s, from) < s.len()),
    decreases s.len() - from,
{
    if from >= 0 && from < s.len() && !(s[from] == ']' || s[from] == '\n') {
        lemma_first_close_bounds(s, from + 1);
    }
}

proof fn lemma_span_bounds(s: Seq<char>, i: int)
    requires
        span_at(s, i) is Some,
    ensures
        ({
            let (j, k) = span_at(s, i)->0;
            i + 2 <= j && j + 3 <= k < s.len()
        }),
{
    lemma_first_closer_bounds(s, i + 2);
    let (j, k) = span_at(s, i)->0;
    lemma_first_close_bounds(s, j + 3);
}

proof fn lemma_passthrough_from(s: Seq<char>, i: int, redact: bool)
    requires
        0 <= i <= s.len(),
        !has_span(s),
    ensures
        render_from(s, i, redact) == s.subrange(i, s.len() as int),
    decreases s.len() - i,
{
    if i < s.len() {
        assert(span_at(s, i) is None);
        lemma_passthrough_from(s, i + 1, redact);
        assert(seq![s[i]] + s.subrange(i + 1, s.len() as int) =~= s.subrange(i, s.len() as int));
    } else {
        assert(s.subrange(i, s.len() as int) =~= Seq::<char>::empty());
    }
}

/// Content that holds no redaction span comes out of either view unchanged.
pub proof fn lemma_no_markup_passthrough(s: Seq<char>, redact: bool)
    requires
        !has_span(s),
    ensures
        rendered(s, redact) == s,
{
    lemma_passthrough_from(s, 0, redact);
    assert(s.subrange(0, s.len() as int) =~= s);
}

/// From position `i` on, every `~` of `s` belongs to the markup: none stands
/// outside the spans, and none inside a span's text.
pub open spec fn markup_tildes_from(s: Seq<char>, i: int) -> bool
    decreases s.len() - i,
    via markup_tildes_from_decreases
{
    if i < 0 || i >= s.len() {
        true
    } else {
        match span_at(s, i) {
            Some((j, k)) => !s.subrange(i + 2, j).contains('~') && markup_tildes_from(s, k + 1),
            None => s[i] != '~' && markup_tildes_from(s, i + 1),
        }
    }
}

#[via_fn]
proof fn markup_tildes_from_decreases(s: Seq<char>, i: int) {
    if 0 <= i < s.len() {
        if let Some((j, k)) = span_at(s, i) {
            lemma_first_closer_bounds(s, i + 2);
            lemma_first_close_bounds(s, j + 3);
        }
    }
}

/// Every `~` of `s` is part of a span's delimiters or rationale.
pub open spec fn tildes_only_in_markup(s: Seq<char>) -> bool {
    markup_tildes_from(s, 0)
}

proof fn lemma_markup_tildes_render(s: Seq<char>, i: int)
    requires
        markup_tildes_from(s, i),
    ensures
        !render_from(s, i, false).contains('~'),
    decreases s.len() - i,
{
    if 0 <= i < s.len() {
        match span_at(s, i) {
            Some((j, k)) => {
                lemma_span_bounds(s, i);
                lemma_markup_tildes_render(s, k + 1);
                let t = s.subrange(i + 2, j);
                let rest = render_from(s, k + 1, false);
                assert forall|x: int| 0 <= x < (t + rest).len() implies (t + rest)[x] != '~' by {
                    if x < t.len() {
                        assert(t[x] != '~') by {
                            if t[x] == '~' {
                                assert(t.contains('~'));
                            }
                        }
                    } else {
                        assert((t + rest)[x] == rest[x - t.len()]);
                        if rest[x - t.len()] == '~' {
                            assert(rest.contains('~'));
                        }
                    }
                }
            },
            None => {
                lemma_markup_tildes_render(s, i + 1);
                let rest = render_from(s, i + 1, false);
                assert forall|x: int| 0 <= x < (seq![s[i]] + rest).len() implies (seq![s[i]]
                    + rest)[x] != '~' by {
                    if x > 0 {
                        assert((seq![s[i]] + rest)[x] == rest[x - 1]);
                        if rest[x - 1] == '~' {
                            assert(rest.contains('~'));
                        }
                    }
                }
            },
        }
    }
}

/// Rendering the internal view a second time changes nothing, for every
/// content whose tildes all belong to the markup (no `~` outside the spans
/// nor in a span's text): the first rendering leaves no span behind.
pub proof fn lemma_internal_view_idempotent(s: Seq<char>)
    requires
        tildes_only_in_markup(s),
    ensures
        rendered(rendered(s, false), false) == rendered(s, false),
{
    lemma_markup_tildes_render(s, 0);
    let t = rendered(s, false);
    assert forall|i: int| 0 <= i < t.len() implies (#[trigger] span_at(t, i)) is None by {
        if span_at(t, i) is Some {
            assert(t[i] == '~');
            assert(t.contains('~'));
        }
    }
    lemma_no_markup_passthrough(t, false);
}

fn find_close(s: &Vec<char>, from: usize) -> (r: Option<usize>)
    ensures
        match r {
            Some(k) => k as int == first_close(s@, from as int),
            None => first_close(s@, from as int) == -1,
        },
{
    let mut k: usize = from;
    while k < s.len()
        invariant
            from <= k,
            first_close(s@, from as int) == first_close(s@, k as int),
        decreases s.len() - k,
    {
        if s[k] == ']' || s[k] == '\n' {
            return Some(k);
        }
        k = k + 1;
    }
    None
}

/// The first closing markup at or after `from`, with the position of its `]`.
fn find_closer(s: &Vec<char>, from: usize) -> (r: Option<(usize, usize)>)
    ensures
        match r {
            Some((j, k)) => j as int == first_closer(s@, from as int) && k as int == first_close(
                s@,
                j + 3,
            ),
            None => first_closer(s@, from as int) == -1,
        },
{
    let mut j: usize = from;
    while j < s.len() && s.len() - j > 2
        invariant
            from <= j,
            first_closer(s@, from as int) == first_closer(s@, j as int),
        decreases s.len() - j,
    {
        if s[j] == '~' && s[j + 1] == '~' && s[j + 2] == '[' {
            match find_close(s, j + 3) {
                Some(k) => {
                    proof {
                        lemma_first_close_bounds(s@, j + 3);
                    }
                    if s[k] == ']' {
                        return Some((j, k));
                    }
                },
                None => {},
            }
        }
        j = j + 1;
    }
    None
}

/// The bounds of the span that starts at `i`, if one does.
fn span_bounds(s: &Vec<char>, i: usize) -> (r: Option<(usize, usize)>)
    ensures
        match r {
            Some((j, k)) => span_at(s@, i as int) == Some((j as int, k as int)),
            None => span_at(s@, i as int) is None,
        },
{
    if i < s.len() && s.len() - i > 1 && s[i] == '~' && s[i + 1] == '~' {
        find_closer(s, i + 2)
    } else {
        None
    }
}

/// Appends the rendering of the span text `s[from..to]` to `out`.
fn push_replacement(out: &mut Vec<char>, s: &Vec<char>, from: usize, to: usize, redact: bool)
    requires
        from <= to <= s.len(),
    ensures
        final(out)@ == old(out)@ + replacement(s@.subrange(from as int, to as int), redact),
{
    let ghost start = out@;
    for x in from..to
        invariant
            to <= s.len(),
            out@ == start + replacement(s@.subrange(from as int, x as int), redact),
    {
        let c = s[x];
        if redact && c != ' ' {
            out.push(BLOCK);
        } else {
            out.push(c);
        }
        assert(replacement(s@.subrange(from as int, x + 1), redact)
            =~= replacement(s@.subrange(from as int, x as int), redact).push(
                if redact && c != ' ' { BLOCK } else { c }));
    }
}

/// A block of `■` for each character of `s` but the space, which stays: each
/// word becomes a block of its own length, one space apart.
pub fn generate_redacted_string(s: &str) -> (r: String)
    ensures
        r@ == blocked(s@),
{
    let cs = chars_of(s);
    let mut out: Vec<char> = Vec::new();
    push_replacement(&mut out, &cs, 0, cs.len(), true);
    assert(cs@.subrange(0, cs@.len() as int) =~= cs@);
    string_of(out.as_slice())
}

/// Renders every redaction span of `html_string`: with `redact` each span's
/// text is blocked out, without it the text is kept; the markup and the
/// rationale are dropped either way, and the rest is kept as it stands.
pub fn process_text_redactions(html_string: String, redact: bool) -> (r: String)
    ensures
        r@ == rendered(html_string@, redact),
{
    let s = chars_of(html_string.as_str());
    let mut out: Vec<char> = Vec::new();
    let mut i: usize = 0;
    while i < s.len()
        invariant
            i <= s.len(),
            out@ + render_from(s@, i as int, redact) == rendered(s@, redact),
        decreases s.len() - i,
    {
        match span_bounds(&s, i) {
            Some((j, k)) => {
                proof {
                    lemma_span_bounds(s@, i as int);
                }
                let ghost before = out@;
                push_replacement(&mut out, &s, i + 2, j, redact);
                assert(out@ + render_from(s@, k + 1, redact) =~= before + render_from(s@, i as int, redact));
                i = k + 1;
            },
            None => {
                let ghost before = out@;
                out.push(s[i]);
                assert(out@ + render_from(s@, i + 1, redact) =~= before + render_from(s@, i as int, redact));
                i = i + 1;
            },
        }
    }
    assert(render_from(s@, i as int, redact) =~= Seq::<char>::empty());
    assert(out@ =~= rendered(s@, redact));
    string_of(out.as_slice())
}

} // verus!

//! Model identifiers: normalisation, display names, colours, the pricing
//! catalogue entry a model is billed at, and reading the official pricing
//! page.
use vstd::prelude::*;

use crate::text::{
    chars_eq_str, chars_of, contains_chars, contains_seq, find_at_or_after, find_spec,
    lemma_find_spec, lower_chars, lower_seq, occurs_at, replace_chars, replace_seq, slice_chars,
    starts_with, starts_with_chars, string_from_chars, trim_chars, trim_seq, trim_str,
    upper_chars, upper_seq, words_of, words_seq, trim_char_start, trim_char_start_exec,
    replace_char, replace_char_seq, join_seq, str_eq, owned, append_str, is_ws,
};
use crate::ssh_config::strings_view;

verus! {

/// A model id as the catalogue keys it: trimmed and lower-cased, `unknown`
/// when nothing is left.
pub open spec fn normalized_model_id(model_id: Seq<char>) -> Seq<char> {
    let trimmed = trim_seq(model_id);
    if trimmed.len() == 0 {
        "unknown"@
    } else {
        lower_seq(trimmed)
    }
}

/// The catalogue key of a model id.
pub fn normalize_model_id(model_id: &str) -> (r: String)
    ensures
        r@ == normalized_model_id(model_id@),
{
    let trimmed = trim_str(model_id);
    if trimmed.len() == 0 {
        "unknown".to_owned()
    } else {
        let lowered = lower_chars(&trimmed);
        string_from_chars(&lowered)
    }
}

/// The display name of a known model id.
pub open spec fn known_display_name(n: Seq<char>) -> Option<Seq<char>> {
    if n == "codex-auto-review"@ { Some("Codex Auto Review"@) }
    else if n == "codex-mini-latest"@ { Some("Codex Mini Latest"@) }
    else if n == "gpt-5.5"@ { Some("GPT-5.5"@) }
    else if n == "gpt-5.5-pro"@ { Some("GPT-5.5 Pro"@) }
    else if n == "gpt-5.4"@ { Some("GPT-5.4"@) }
    else if n == "gpt-5.4-mini"@ { Some("GPT-5.4 Mini"@) }
    else if n == "gpt-5.4-nano"@ { Some("GPT-5.4 Nano"@) }
    else if n == "gpt-5.4-pro"@ { Some("GPT-5.4 Pro"@) }
    else if n == "gpt-5.3-codex"@ { Some("GPT-5.3 Codex"@) }
    else if n == "gpt-5.3-codex-spark"@ { Some("GPT-5.3 Codex Spark"@) }
    else if n == "gpt-5.3-chat-latest"@ { Some("GPT-5.3 Chat Latest"@) }
    else if n == "gpt-5.2"@ { Some("GPT-5.2"@) }
    else if n == "gpt-5.2-codex"@ { Some("GPT-5.2 Codex"@) }
    else if n == "gpt-5.2-chat-latest"@ { Some("GPT-5.2 Chat Latest"@) }
    else if n == "gpt-5.1"@ { Some("GPT-5.1"@) }
    else if n == "gpt-5.1-codex"@ { Some("GPT-5.1 Codex"@) }
    else if n == "gpt-5.1-codex-max"@ { Some("GPT-5.1 Codex Max"@) }
    else if n == "gpt-5.1-codex-mini"@ { Some("GPT-5.1 Codex Mini"@) }
    else if n == "gpt-5.1-chat-latest"@ { Some("GPT-5.1 Chat Latest"@) }
    else if n == "gpt-5"@ { Some("GPT-5"@) }
    else if n == "gpt-5-codex"@ { Some("GPT-5 Codex"@) }
    else if n == "gpt-5-chat-latest"@ { Some("GPT-5 Chat Latest"@) }
    else if n == "unknown"@ { Some("Unknown"@) }
    else { None }
}

/// The name a model is shown under: its known name, or its normalised id
/// in upper case.
pub open spec fn model_display_name(model_id: Seq<char>) -> Seq<char> {
    let n = normalized_model_id(model_id);
    match known_display_name(n) {
        Some(name) => name,
        None => upper_seq(n),
    }
}

fn known_display_name_exec(n: &[char]) -> (r: Option<&'static str>)
    ensures
        match r {
            Some(s) => known_display_name(n@) == Some(s@),
            None => known_display_name(n@) is None,
        },
{
    if chars_eq_str(n, "codex-auto-review") { Some("Codex Auto Review") }
    else if chars_eq_str(n, "codex-mini-latest") { Some("Codex Mini Latest") }
    else if chars_eq_str(n, "gpt-5.5") { Some("GPT-5.5") }
    else if chars_eq_str(n, "gpt-5.5-pro") { Some("GPT-5.5 Pro") }
    else if chars_eq_str(n, "gpt-5.4") { Some("GPT-5.4") }
    else if chars_eq_str(n, "gpt-5.4-mini") { Some("GPT-5.4 Mini") }
    else if chars_eq_str(n, "gpt-5.4-nano") { Some("GPT-5.4 Nano") }
    else if chars_eq_str(n, "gpt-5.4-pro") { Some("GPT-5.4 Pro") }
    else if chars_eq_str(n, "gpt-5.3-codex") { Some("GPT-5.3 Codex") }
    else if chars_eq_str(n, "gpt-5.3-codex-spark") { Some("GPT-5.3 Codex Spark") }
    else if chars_eq_str(n, "gpt-5.3-chat-latest") { Some("GPT-5.3 Chat Latest") }
    else if chars_eq_str(n, "gpt-5.2") { Some("GPT-5.2") }
    else if chars_eq_str(n, "gpt-5.2-codex") { Some("GPT-5.2 Codex") }
    else if chars_eq_str(n, "gpt-5.2-chat-latest") { Some("GPT-5.2 Chat Latest") }
    else if chars_eq_str(n, "gpt-5.1") { Some("GPT-5.1") }
    else if chars_eq_str(n, "gpt-5.1-codex") { Some("GPT-5.1 Codex") }
    else if chars_eq_str(n, "gpt-5.1-codex-max") { Some("GPT-5.1 Codex Max") }
    else if chars_eq_str(n, "gpt-5.1-codex-mini") { Some("GPT-5.1 Codex Mini") }
    else if chars_eq_str(n, "gpt-5.1-chat-latest") { Some("GPT-5.1 Chat Latest") }
    else if chars_eq_str(n, "gpt-5") { Some("GPT-5") }
    else if chars_eq_str(n, "gpt-5-codex") { Some("GPT-5 Codex") }
    else if chars_eq_str(n, "gpt-5-chat-latest") { Some("GPT-5 Chat Latest") }
    else if chars_eq_str(n, "unknown") { Some("Unknown") }
    else { None }
}

/// The name a model is shown under.
pub fn display_name_for_model(model_id: &str) -> (r: String)
    ensures
        r@ == model_display_name(model_id@),
{
    let normalized = normalize_model_id(model_id);
    let n = crate::text::chars_of(normalized.as_str());
    match known_display_name_exec(&n) {
        Some(name) => name.to_owned(),
        None => {
            let upper = upper_chars(&n);
            string_from_chars(&upper)
        },
    }
}

/// The chart colour of a normalised model id.
pub open spec fn color_for(n: Seq<char>) -> Seq<char> {
    if n == "codex-auto-review"@ { "#60A5FA"@ }
    else if n == "gpt-5.5"@ { "#E879F9"@ }
    else if n == "gpt-5.5-pro"@ { "#C084FC"@ }
    else if n == "gpt-5.4"@ { "#F97316"@ }
    else if n == "gpt-5.4-mini"@ { "#FB923C"@ }
    else if n == "gpt-5.4-nano"@ { "#FDBA74"@ }
    else if n == "gpt-5.4-pro"@ { "#EA580C"@ }
    else if n == "gpt-5.3-codex"@ { "#F59E0B"@ }
    else if n == "gpt-5.3-codex-spark"@ { "#FACC15"@ }
    else if n == "gpt-5.2"@ { "#14B8A6"@ }
    else if n == "gpt-5.2-codex"@ { "#34D399"@ }
    else if n == "gpt-5-codex"@ { "#3B82F6"@ }
    else if n == "gpt-5.1-codex-max"@ { "#6366F1"@ }
    else if n == "gpt-5.1-codex"@ { "#64748B"@ }
    else if n == "gpt-5.1-codex-mini"@ { "#38BDF8"@ }
    else { "#94A3B8"@ }
}

/// The chart colour of a model.
pub fn model_color(model_id: &str) -> (r: &'static str)
    ensures
        r@ == color_for(normalized_model_id(model_id@)),
{
    let normalized = normalize_model_id(model_id);
    let n = crate::text::chars_of(normalized.as_str());
    if chars_eq_str(&n, "codex-auto-review") { "#60A5FA" }
    else if chars_eq_str(&n, "gpt-5.5") { "#E879F9" }
    else if chars_eq_str(&n, "gpt-5.5-pro") { "#C084FC" }
    else if chars_eq_str(&n, "gpt-5.4") { "#F97316" }
    else if chars_eq_str(&n, "gpt-5.4-mini") { "#FB923C" }
    else if chars_eq_str(&n, "gpt-5.4-nano") { "#FDBA74" }
    else if chars_eq_str(&n, "gpt-5.4-pro") { "#EA580C" }
    else if chars_eq_str(&n, "gpt-5.3-codex") { "#F59E0B" }
    else if chars_eq_str(&n, "gpt-5.3-codex-spark") { "#FACC15" }
    else if chars_eq_str(&n, "gpt-5.2") { "#14B8A6" }
    else if chars_eq_str(&n, "gpt-5.2-codex") { "#34D399" }
    else if chars_eq_str(&n, "gpt-5-codex") { "#3B82F6" }
    else if chars_eq_str(&n, "gpt-5.1-codex-max") { "#6366F1" }
    else if chars_eq_str(&n, "gpt-5.1-codex") { "#64748B" }
    else if chars_eq_str(&n, "gpt-5.1-codex-mini") { "#38BDF8" }
    else { "#94A3B8" }
}

// ---------------------------------------------------------------------------
// The official pricing page
// ---------------------------------------------------------------------------

/// The four HTML entities the pricing page escapes, decoded in turn.
pub open spec fn unescaped(value: Seq<char>) -> Seq<char> {
    replace_seq(
        replace_seq(
            replace_seq(replace_seq(value, "&quot;"@, "\""@), "&lt;"@, "<"@),
            "&gt;"@,
            ">"@,
        ),
        "&amp;"@,
        "&"@,
    )
}

fn unescape_chars(value: &[char]) -> (r: Vec<char>)
    ensures
        r@ == unescaped(value@),
{
    let quot = chars_of("&quot;");
    let lt = chars_of("&lt;");
    let gt = chars_of("&gt;");
    let amp = chars_of("&amp;");
    proof {
        reveal_strlit("&quot;");
        reveal_strlit("&lt;");
        reveal_strlit("&gt;");
        reveal_strlit("&amp;");
    }
    let a = replace_chars(value, &quot, &chars_of("\""));
    let b = replace_chars(&a, &lt, &chars_of("<"));
    let c = replace_chars(&b, &gt, &chars_of(">"));
    replace_chars(&c, &amp, &chars_of("&"))
}

/// Decodes `&quot;`, `&lt;`, `&gt;` and `&amp;`, in that order.
pub fn html_unescape(value: &str) -> (r: String)
    ensures
        r@ == unescaped(value@),
{
    let v = chars_of(value);
    string_from_chars(&unescape_chars(&v))
}

pub open spec fn island_open() -> Seq<char> {
    "<astro-island"@
}

pub open spec fn island_close() -> Seq<char> {
    "</astro-island>"@
}

/// A component that holds standard-tier text token prices, or grouped
/// prices.
pub open spec fn pricing_block_wanted(block: Seq<char>) -> bool {
    (contains_seq(block, "TextTokenPricingTables"@) && contains_seq(
        block,
        "&quot;tier&quot;:[0,&quot;standard&quot;]"@,
    )) || contains_seq(block, "GroupedPricingTable"@)
}

/// The pricing components of the page from `cursor` on: each text from an
/// `<astro-island` to the next `</astro-island>`, kept where it is wanted;
/// the search goes on after the closing tag, and stops at an island that is
/// not closed.
pub open spec fn blocks_from(doc: Seq<char>, cursor: int) -> Seq<Seq<char>>
    decreases doc.len() - cursor + 1,
{
    if cursor < 0 {
        Seq::empty()
    } else {
        match find_spec(doc, island_open(), cursor) {
            None => Seq::empty(),
            Some(start) => match find_spec(doc, island_close(), start) {
                None => Seq::empty(),
                Some(end) => {
                    proof {
                        reveal_strlit("<astro-island");
                        reveal_strlit("</astro-island>");
                        lemma_find_spec(doc, island_open(), cursor);
                        lemma_find_spec(doc, island_close(), start);
                    }
                    let block = doc.subrange(start, end);
                    let rest = blocks_from(doc, end + island_close().len());
                    if pricing_block_wanted(block) {
                        seq![block] + rest
                    } else {
                        rest
                    }
                },
            },
        }
    }
}

/// The pricing components of the official pricing page.
pub fn pricing_component_blocks(document: &str) -> (r: Vec<String>)
    ensures
        r@.map_values(|b: String| b@) == blocks_from(document@, 0),
{
    let doc = chars_of(document);
    let open = chars_of("<astro-island");
    let close = chars_of("</astro-island>");
    let m1 = chars_of("TextTokenPricingTables");
    let m2 = chars_of("&quot;tier&quot;:[0,&quot;standard&quot;]");
    let m3 = chars_of("GroupedPricingTable");
    proof {
        reveal_strlit("<astro-island");
        reveal_strlit("</astro-island>");
    }
    let mut blocks: Vec<String> = Vec::new();
    let mut cursor: usize = 0;
    while cursor <= doc.len()
        invariant
            doc@ == document@,
            open@ == island_open(),
            close@ == island_close(),
            m1@ == "TextTokenPricingTables"@,
            m2@ == "&quot;tier&quot;:[0,&quot;standard&quot;]"@,
            m3@ == "GroupedPricingTable"@,
            open@.len() == 13,
            close@.len() == 15,
            blocks@.map_values(|b: String| b@) + blocks_from(doc@, cursor as int) == blocks_from(
                doc@,
                0,
            ),
        decreases doc.len() + 1 - cursor,
    {
        let ghost before = blocks@;
        let start = match find_at_or_after(&doc, &open, cursor) {
            Some(i) => i,
            None => {
                assert(blocks_from(doc@, cursor as int) =~= Seq::<Seq<char>>::empty());
                assert(blocks@.map_values(|b: String| b@) =~= blocks_from(doc@, 0));
                return blocks;
            },
        };
        let end = match find_at_or_after(&doc, &close, start) {
            Some(i) => i,
            None => {
                assert(blocks_from(doc@, cursor as int) =~= Seq::<Seq<char>>::empty());
                assert(blocks@.map_values(|b: String| b@) =~= blocks_from(doc@, 0));
                return blocks;
            },
        };
        proof {
            lemma_find_spec(doc@, open@, cursor as int);
            lemma_find_spec(doc@, close@, start as int);
        }
        let block = slice_chars(&doc, start, end);
        let wanted = (contains_chars(&block, &m1) && contains_chars(&block, &m2)) || contains_chars(
            &block,
            &m3,
        );
        let ghost rest = blocks_from(doc@, end + island_close().len());
        if wanted {
            blocks.push(string_from_chars(&block));
            assert(blocks@.map_values(|b: String| b@) =~= before.map_values(|b: String| b@).push(
                block@,
            ));
            assert(blocks@.map_values(|b: String| b@) + rest =~= before.map_values(|b: String| b@)
                + (seq![block@] + rest));
        }
        cursor = end + close.len();
    }
    assert(blocks_from(doc@, cursor as int) =~= Seq::<Seq<char>>::empty()) by {
        lemma_find_spec(doc@, island_open(), cursor as int);
    }
    assert(blocks@.map_values(|b: String| b@) =~= blocks_from(doc@, 0));
    blocks
}

// ---------------------------------------------------------------------------
// Rows of a pricing component
// ---------------------------------------------------------------------------

pub open spec fn row_marker() -> Seq<char> {
    "[[0,&quot;"@
}

pub open spec fn name_end_marker() -> Seq<char> {
    "&quot;]"@
}

pub open spec fn value_marker() -> Seq<char> {
    ",[0,"@
}

pub open spec fn quote_entity() -> Seq<char> {
    "&quot;"@
}

/// The text of the next price after `cursor`, and where the search for the
/// one after it starts: after the next `,[0,`, either a quoted text
/// (decoded) or the text up to the next `]`.
pub open spec fn next_value(src: Seq<char>, cursor: int) -> Option<(Seq<char>, int)> {
    match find_spec(src, value_marker(), cursor) {
        None => None,
        Some(i) => {
            let vs = i + 4;
            if starts_with(src.skip(vs), quote_entity()) {
                let is = vs + 6;
                match find_spec(src, quote_entity(), is) {
                    None => None,
                    Some(ie) => Some((unescaped(src.subrange(is, ie)), ie + 6)),
                }
            } else {
                match find_spec(src, seq![']'], vs) {
                    None => None,
                    Some(ve) => Some((src.subrange(vs, ve), ve)),
                }
            }
        }
    }
}

pub open spec fn value_text(v: Option<(Seq<char>, int)>) -> Option<Seq<char>> {
    match v {
        Some((t, _)) => Some(t),
        None => None,
    }
}

pub open spec fn value_cursor(v: Option<(Seq<char>, int)>, cursor: int) -> int {
    match v {
        Some((_, c)) => c,
        None => cursor,
    }
}

/// The text before the first occurrence of `p`, or all of `s`.
pub open spec fn before_first(s: Seq<char>, p: Seq<char>) -> Seq<char> {
    match find_spec(s, p, 0) {
        Some(i) => s.take(i),
        None => s,
    }
}

/// The model id of a row name: the first word of what comes before ` (`,
/// or the whole name where there is no word, normalized.
pub open spec fn official_model_id(raw: Seq<char>) -> Seq<char> {
    let words = words_seq(trim_seq(before_first(raw, " ("@)));
    let first = if words.len() > 0 {
        words[0]
    } else {
        raw
    };
    normalized_model_id(trim_seq(first))
}

/// Reduces a row name of the pricing page to a model id.
pub fn normalize_official_model_id(raw_name: &str) -> (r: String)
    ensures
        r@ == official_model_id(raw_name@),
{
    let raw = chars_of(raw_name);
    let sep = chars_of(" (");
    proof {
        lemma_find_spec(raw@, sep@, 0);
    }
    let base = match find_at_or_after(&raw, &sep, 0) {
        Some(i) => slice_chars(&raw, 0, i),
        None => slice_chars(&raw, 0, raw.len()),
    };
    assert(base@ =~= before_first(raw_name@, " ("@)) by {
        reveal_strlit(" (");
    }
    let trimmed = trim_chars(&base);
    let words = words_of(&trimmed);
    let first = if words.len() > 0 {
        assert(words@[0]@ == words_seq(trimmed@)[0]);
        slice_chars(&words[0], 0, words[0].len())
    } else {
        slice_chars(&raw, 0, raw.len())
    };
    assert(first@ =~= (if words_seq(trimmed@).len() > 0 {
        words_seq(trimmed@)[0]
    } else {
        raw_name@
    }));
    let first_text = string_from_chars(&trim_chars(&first));
    normalize_model_id(first_text.as_str())
}

/// The kinds of models the catalogue leaves out.
pub open spec fn excluded_model(model_id: Seq<char>) -> bool {
    ||| contains_seq(model_id, "image"@)
    ||| contains_seq(model_id, "realtime"@)
    ||| contains_seq(model_id, "transcribe"@)
    ||| contains_seq(model_id, "tts"@)
    ||| contains_seq(model_id, "sora"@)
    ||| contains_seq(model_id, "embedding"@)
    ||| contains_seq(model_id, "moderation"@)
    ||| contains_seq(model_id, "computer-use"@)
    ||| contains_seq(model_id, "deep-research"@)
}

/// A model the catalogue takes: a GPT, `o` or Codex model that is not of an
/// excluded kind.
pub open spec fn included_model(model_id: Seq<char>) -> bool {
    &&& model_id.len() > 0
    &&& !excluded_model(model_id)
    &&& {
        ||| starts_with(model_id, "gpt-"@)
        ||| starts_with(model_id, "o"@)
        ||| starts_with(model_id, "chatgpt-"@)
        ||| starts_with(model_id, "codex-"@)
        ||| contains_seq(model_id, "codex"@)
    }
}

fn contains_text(s: &[char], p: &str) -> (r: bool)
    ensures
        r == contains_seq(s@, p@),
{
    let pv = chars_of(p);
    contains_chars(s, &pv)
}

fn starts_with_text(s: &[char], p: &str) -> (r: bool)
    ensures
        r == starts_with(s@, p@),
{
    let pv = chars_of(p);
    starts_with_chars(s, &pv)
}

/// Whether the catalogue takes a model from the pricing page.
pub fn should_include_official_pricing_model(model_id: &str) -> (r: bool)
    ensures
        r == included_model(model_id@),
{
    let m = chars_of(model_id);
    if m.len() == 0 {
        return false;
    }
    if contains_text(&m, "image") || contains_text(&m, "realtime") || contains_text(
        &m,
        "transcribe",
    ) || contains_text(&m, "tts") || contains_text(&m, "sora") || contains_text(&m, "embedding")
        || contains_text(&m, "moderation") || contains_text(&m, "computer-use") || contains_text(
        &m,
        "deep-research",
    ) {
        return false;
    }
    starts_with_text(&m, "gpt-") || starts_with_text(&m, "o") || starts_with_text(&m, "chatgpt-")
        || starts_with_text(&m, "codex-") || contains_text(&m, "codex")
}

/// A row of a pricing component, its prices still as text.
#[derive(Debug, Clone)]
pub struct PricingRowText {
    pub model_id: String,
    pub included: bool,
    pub input: Option<String>,
    pub cached_input: Option<String>,
    pub output: Option<String>,
}

pub struct RowView {
    pub model_id: Seq<char>,
    pub included: bool,
    pub input: Option<Seq<char>>,
    pub cached_input: Option<Seq<char>>,
    pub output: Option<Seq<char>>,
}

impl View for PricingRowText {
    type V = RowView;

    open spec fn view(&self) -> RowView {
        RowView {
            model_id: self.model_id@,
            included: self.included,
            input: crate::importer::opt_view(self.input),
            cached_input: crate::importer::opt_view(self.cached_input),
            output: crate::importer::opt_view(self.output),
        }
    }
}

/// The row whose name ends at `ne`: its model id, whether the catalogue
/// takes it, and the texts of its input, cached input and output prices,
/// each searched for after the one before.
pub open spec fn row_at(block: Seq<char>, ns: int, ne: int) -> RowView {
    let model = official_model_id(unescaped(block.subrange(ns, ne)));
    let c0 = ne + 7;
    let v1 = next_value(block, c0);
    let c1 = value_cursor(v1, c0);
    let v2 = next_value(block, c1);
    let c2 = value_cursor(v2, c1);
    let v3 = next_value(block, c2);
    RowView {
        model_id: model,
        included: included_model(model),
        input: value_text(v1),
        cached_input: value_text(v2),
        output: value_text(v3),
    }
}

/// The rows of a component from `cursor` on: each name between `[[0,&quot;`
/// and the next `&quot;]`, the search for the next row going on from the end
/// of the name.
pub open spec fn rows_from(block: Seq<char>, cursor: int) -> Seq<RowView>
    decreases block.len() - cursor + 1,
{
    if cursor < 0 {
        Seq::empty()
    } else {
        match find_spec(block, row_marker(), cursor) {
            None => Seq::empty(),
            Some(i) => match find_spec(block, name_end_marker(), i + 10) {
                None => Seq::empty(),
                Some(ne) => {
                    proof {
                        reveal_strlit("[[0,&quot;");
                        reveal_strlit("&quot;]");
                        lemma_find_spec(block, row_marker(), cursor);
                        lemma_find_spec(block, name_end_marker(), i + 10);
                    }
                    seq![row_at(block, i + 10, ne)] + rows_from(block, ne)
                },
            },
        }
    }
}

fn next_value_exec(src: &[char], cursor: usize) -> (r: Option<(Vec<char>, usize)>)
    ensures
        match r {
            Some((t, c)) => next_value(src@, cursor as int) == Some((t@, c as int)),
            None => next_value(src@, cursor as int) is None,
        },
{
    let marker = chars_of(",[0,");
    let quote = chars_of("&quot;");
    proof {
        reveal_strlit(",[0,");
        reveal_strlit("&quot;");
        lemma_find_spec(src@, marker@, cursor as int);
    }
    let i = match find_at_or_after(src, &marker, cursor) {
        Some(i) => i,
        None => {
            return None;
        },
    };
    assert(marker@ =~= seq![',', '[', '0', ',']);
    assert(i + marker@.len() <= src@.len());
    let n = src.len();
    assert(i + 4 <= n);
    let vs = i + 4;
    let rest = slice_chars(src, vs, src.len());
    assert(rest@ =~= src@.skip(vs as int));
    if starts_with_chars(&rest, &quote) {
        let is = vs + 6;
        proof {
            lemma_find_spec(src@, quote@, is as int);
        }
        match find_at_or_after(src, &quote, is) {
            Some(ie) => {
                let inner = slice_chars(src, is, ie);
                Some((unescape_chars(&inner), ie + 6))
            },
            None => None,
        }
    } else {
        let close = chars_of("]");
        proof {
            reveal_strlit("]");
            assert(close@ =~= seq![']']);
            lemma_find_spec(src@, close@, vs as int);
        }
        match find_at_or_after(src, &close, vs) {
            Some(ve) => Some((slice_chars(src, vs, ve), ve)),
            None => None,
        }
    }
}

fn text_of(v: &Option<(Vec<char>, usize)>) -> (r: Option<String>)
    ensures
        crate::importer::opt_view(r) == match v {
            Some((t, _)) => Some(t@),
            None => None::<Seq<char>>,
        },
{
    match v {
        Some((t, _)) => Some(string_from_chars(t)),
        None => None,
    }
}

/// The rows of a pricing component, with their model ids, whether the
/// catalogue takes them, and the texts of their prices.
pub fn extract_pricing_rows(block: &str) -> (r: Vec<PricingRowText>)
    ensures
        r@.map_values(|row: PricingRowText| row@) == rows_from(block@, 0),
{
    let b = chars_of(block);
    let marker = chars_of("[[0,&quot;");
    let name_end = chars_of("&quot;]");
    proof {
        reveal_strlit("[[0,&quot;");
        reveal_strlit("&quot;]");
    }
    let mut rows: Vec<PricingRowText> = Vec::new();
    let mut cursor: usize = 0;
    while cursor <= b.len()
        invariant
            b@ == block@,
            marker@ == row_marker(),
            name_end@ == name_end_marker(),
            marker@.len() == 10,
            name_end@.len() == 7,
            rows@.map_values(|row: PricingRowText| row@) + rows_from(b@, cursor as int) == rows_from(
                b@,
                0,
            ),
        decreases b.len() + 1 - cursor,
    {
        proof {
            lemma_find_spec(b@, marker@, cursor as int);
        }
        let i = match find_at_or_after(&b, &marker, cursor) {
            Some(i) => i,
            None => {
                assert(rows@.map_values(|row: PricingRowText| row@) =~= rows_from(b@, 0));
                return rows;
            },
        };
        let ns = i + 10;
        proof {
            lemma_find_spec(b@, name_end@, ns as int);
        }
        let ne = match find_at_or_after(&b, &name_end, ns) {
            Some(e) => e,
            None => {
                assert(rows@.map_values(|row: PricingRowText| row@) =~= rows_from(b@, 0));
                return rows;
            },
        };
        let raw = unescape_chars(&slice_chars(&b, ns, ne));
        let model_id = normalize_official_model_id(string_from_chars(&raw).as_str());
        let included = should_include_official_pricing_model(model_id.as_str());
        let c0 = ne + 7;
        let v1 = next_value_exec(&b, c0);
        let c1 = match &v1 {
            Some((_, c)) => *c,
            None => c0,
        };
        let v2 = next_value_exec(&b, c1);
        let c2 = match &v2 {
            Some((_, c)) => *c,
            None => c1,
        };
        let v3 = next_value_exec(&b, c2);
        let row = PricingRowText {
            model_id,
            included,
            input: text_of(&v1),
            cached_input: text_of(&v2),
            output: text_of(&v3),
        };
        assert(row@ == row_at(b@, ns as int, ne as int));
        let ghost before = rows@;
        rows.push(row);
        assert(rows@.map_values(|row: PricingRowText| row@) =~= before.map_values(
            |row: PricingRowText| row@,
        ).push(row_at(b@, ns as int, ne as int)));
        assert(rows@.map_values(|row: PricingRowText| row@) + rows_from(b@, ne as int)
            =~= before.map_values(|row: PricingRowText| row@) + (seq![row_at(b@, ns as int, ne as int)]
            + rows_from(b@, ne as int)));
        cursor = ne;
    }
    assert(rows_from(b@, cursor as int) =~= Seq::<RowView>::empty()) by {
        lemma_find_spec(b@, row_marker(), cursor as int);
    }
    assert(rows@.map_values(|row: PricingRowText| row@) =~= rows_from(b@, 0));
    rows
}

// ---------------------------------------------------------------------------
// Prices and the catalogue
// ---------------------------------------------------------------------------

/// The text of a price with surrounding whitespace, leading `$` signs and
/// thousands separators removed; none where it is empty, `-`, `null` in any
/// ASCII case, or an object.
pub open spec fn price_text(value: Seq<char>) -> Option<Seq<char>> {
    let cleaned = replace_char_seq(trim_char_start(trim_seq(value), '$'), ',', Seq::empty());
    if cleaned.len() == 0 || cleaned == "-"@ || lower_seq(cleaned) == "null"@ || starts_with(
        cleaned,
        "{"@,
    ) {
        None
    } else {
        Some(cleaned)
    }
}

/// Cleans the text of a price before it is read as a number.
pub fn price_literal_text(value: &str) -> (r: Option<String>)
    ensures
        crate::importer::opt_view(r) == price_text(value@),
{
    let trimmed = trim_str(value);
    let no_dollar = trim_char_start_exec(&trimmed, '$');
    let empty: Vec<char> = Vec::new();
    let cleaned = replace_char(&no_dollar, ',', &empty);
    assert(empty@ =~= Seq::<char>::empty());
    if cleaned.len() == 0 || chars_eq_str(&cleaned, "-") || chars_eq_str(
        &lower_chars(&cleaned),
        "null",
    ) || starts_with_text(&cleaned, "{") {
        return None;
    }
    Some(string_from_chars(&cleaned))
}

/// The positions of the first row of each model id, in order.
pub open spec fn first_occurrences(ids: Seq<Seq<char>>) -> Seq<int>
    decreases ids.len(),
{
    if ids.len() == 0 {
        Seq::empty()
    } else {
        let before = first_occurrences(ids.drop_last());
        if ids.drop_last().contains(ids.last()) {
            before
        } else {
            before.push(ids.len() - 1)
        }
    }
}

/// The models the catalogue must have from the pricing page.
pub open spec fn required_models() -> Seq<Seq<char>> {
    seq!["gpt-5.5"@, "gpt-5.4"@, "gpt-5.4-mini"@, "gpt-5.4-nano"@, "gpt-5.3-codex"@]
}

/// The required models not among `ids`, in the order of the requirement.
pub open spec fn missing_models(required: Seq<Seq<char>>, ids: Seq<Seq<char>>) -> Seq<Seq<char>>
    decreases required.len(),
{
    if required.len() == 0 {
        Seq::empty()
    } else {
        let before = missing_models(required.drop_last(), ids);
        if ids.contains(required.last()) {
            before
        } else {
            before.push(required.last())
        }
    }
}

/// The catalogue the rows make: the first row of each model, or, where a
/// required model has no row, the message naming those missing.
pub open spec fn catalog_rows(ids: Seq<Seq<char>>) -> Result<Seq<int>, Seq<char>> {
    let missing = missing_models(required_models(), ids);
    if missing.len() == 0 {
        Ok(first_occurrences(ids))
    } else {
        Err(
            "OpenAI pricing page did not include required Standard short-context rows: "@
                + join_seq(missing, ", "@) + "."@,
        )
    }
}

fn contains_id(ids: &Vec<String>, upto: usize, id: &str) -> (r: bool)
    requires
        upto <= ids@.len(),
    ensures
        r == strings_view(ids@).take(upto as int).contains(id@),
{
    let mut k: usize = 0;
    while k < upto
        invariant
            upto <= ids@.len(),
            k <= upto,
            forall|m: int| 0 <= m < k ==> ids@[m]@ != id@,
        decreases upto - k,
    {
        if str_eq(ids[k].as_str(), id) {
            assert(strings_view(ids@).take(upto as int)[k as int] == id@);
            return true;
        }
        k += 1;
    }
    assert forall|m: int| 0 <= m < upto implies strings_view(ids@).take(upto as int)[m] != id@ by {
        assert(strings_view(ids@).take(upto as int)[m] == ids@[m]@);
    }
    false
}

/// Which rows make the catalogue: the first row of each model id, where
/// the required models are all there.
pub fn official_catalog_rows(model_ids: &Vec<String>) -> (r: Result<Vec<usize>, String>)
    ensures
        match r {
            Ok(rows) => catalog_rows(strings_view(model_ids@)) == Ok::<Seq<int>, Seq<char>>(
                rows@.map_values(|i: usize| i as int),
            ),
            Err(e) => catalog_rows(strings_view(model_ids@)) == Err::<Seq<int>, Seq<char>>(e@),
        },
{
    let ghost ids = strings_view(model_ids@);
    let mut firsts: Vec<usize> = Vec::new();
    let mut i: usize = 0;
    while i < model_ids.len()
        invariant
            i <= model_ids@.len(),
            ids == strings_view(model_ids@),
            firsts@.map_values(|k: usize| k as int) == first_occurrences(ids.take(i as int)),
        decreases model_ids.len() - i,
    {
        let seen = contains_id(model_ids, i, model_ids[i].as_str());
        assert(ids.take(i + 1).drop_last() =~= ids.take(i as int));
        assert(ids.take(i + 1).last() == model_ids@[i as int]@);
        if !seen {
            let ghost before = firsts@;
            firsts.push(i);
            assert(firsts@.map_values(|k: usize| k as int) =~= before.map_values(|k: usize| k as int).push(
                i as int,
            ));
        }
        i += 1;
    }
    assert(ids.take(model_ids@.len() as int) =~= ids);
    let required = ["gpt-5.5", "gpt-5.4", "gpt-5.4-mini", "gpt-5.4-nano", "gpt-5.3-codex"];
    let mut missing: Vec<Vec<char>> = Vec::new();
    let mut k: usize = 0;
    while k < 5
        invariant
            k <= 5,
            ids == strings_view(model_ids@),
            required@.len() == 5,
            forall|m: int| 0 <= m < 5 ==> #[trigger] required@[m]@ == required_models()[m],
            crate::text::parts_view(missing@) == missing_models(required_models().take(k as int), ids),
        decreases 5 - k,
    {
        let name = required[k];
        assert(required_models().take(k + 1).drop_last() =~= required_models().take(k as int));
        let present = contains_id(model_ids, model_ids.len(), name);
        assert(ids.take(model_ids@.len() as int) =~= ids);
        if !present {
            let ghost before = missing@;
            missing.push(chars_of(name));
            assert(crate::text::parts_view(missing@) =~= crate::text::parts_view(before).push(
                name@,
            ));
        }
        k += 1;
    }
    assert(required_models().take(5) =~= required_models());
    if missing.len() == 0 {
        return Ok(firsts);
    }
    let sep = chars_of(", ");
    let joined = crate::text::join_parts(&missing, 0, missing.len(), &sep);
    assert(crate::text::parts_view(missing@).subrange(0, missing@.len() as int) =~= crate::text::parts_view(missing@));
    let mut message = owned("OpenAI pricing page did not include required Standard short-context rows: ");
    append_str(&mut message, string_from_chars(&joined).as_str());
    append_str(&mut message, ".");
    Err(message)
}

/// The catalogue entry a prefix of a model id falls back to.
pub open spec fn fallback_pricing_key(n: Seq<char>) -> Option<Seq<char>> {
    if starts_with(n, "gpt-5.5-pro"@) {
        Some("gpt-5.5-pro"@)
    } else if starts_with(n, "gpt-5.5"@) {
        Some("gpt-5.5"@)
    } else if starts_with(n, "gpt-5.4-mini"@) {
        Some("gpt-5.4-mini"@)
    } else if starts_with(n, "gpt-5.4-nano"@) {
        Some("gpt-5.4-nano"@)
    } else if starts_with(n, "gpt-5.4-pro"@) {
        Some("gpt-5.4-pro"@)
    } else if starts_with(n, "gpt-5.4"@) {
        Some("gpt-5.4"@)
    } else if starts_with(n, "gpt-5.3-codex-spark"@) {
        Some("gpt-5.3-codex-spark"@)
    } else if starts_with(n, "gpt-5.3-codex"@) {
        Some("gpt-5.3-codex"@)
    } else if starts_with(n, "gpt-5.2-codex"@) {
        Some("gpt-5.2-codex"@)
    } else if starts_with(n, "gpt-5.2"@) {
        Some("gpt-5.2"@)
    } else if starts_with(n, "gpt-5-codex"@) {
        Some("gpt-5-codex"@)
    } else if starts_with(n, "gpt-5.1-codex-max"@) {
        Some("gpt-5.1-codex-max"@)
    } else if starts_with(n, "gpt-5.1-codex-mini"@) {
        Some("gpt-5.1-codex-mini"@)
    } else if starts_with(n, "gpt-5.1-codex"@) {
        Some("gpt-5.1-codex"@)
    } else {
        None
    }
}

fn fallback_pricing_key_exec(n: &[char]) -> (r: Option<&'static str>)
    ensures
        match r {
            Some(k) => fallback_pricing_key(n@) == Some(k@),
            None => fallback_pricing_key(n@) is None,
        },
{
    if starts_with_text(n, "gpt-5.5-pro") {
        Some("gpt-5.5-pro")
    } else if starts_with_text(n, "gpt-5.5") {
        Some("gpt-5.5")
    } else if starts_with_text(n, "gpt-5.4-mini") {
        Some("gpt-5.4-mini")
    } else if starts_with_text(n, "gpt-5.4-nano") {
        Some("gpt-5.4-nano")
    } else if starts_with_text(n, "gpt-5.4-pro") {
        Some("gpt-5.4-pro")
    } else if starts_with_text(n, "gpt-5.4") {
        Some("gpt-5.4")
    } else if starts_with_text(n, "gpt-5.3-codex-spark") {
        Some("gpt-5.3-codex-spark")
    } else if starts_with_text(n, "gpt-5.3-codex") {
        Some("gpt-5.3-codex")
    } else if starts_with_text(n, "gpt-5.2-codex") {
        Some("gpt-5.2-codex")
    } else if starts_with_text(n, "gpt-5.2") {
        Some("gpt-5.2")
    } else if starts_with_text(n, "gpt-5-codex") {
        Some("gpt-5-codex")
    } else if starts_with_text(n, "gpt-5.1-codex-max") {
        Some("gpt-5.1-codex-max")
    } else if starts_with_text(n, "gpt-5.1-codex-mini") {
        Some("gpt-5.1-codex-mini")
    } else if starts_with_text(n, "gpt-5.1-codex") {
        Some("gpt-5.1-codex")
    } else {
        None
    }
}

/// The catalogue entry a model is priced at: its own, or else the one its
/// id falls back to; none where the catalogue has neither.
pub open spec fn pricing_key(catalog: Seq<Seq<char>>, model_id: Seq<char>) -> Option<Seq<char>> {
    let n = normalized_model_id(model_id);
    if catalog.contains(n) {
        Some(n)
    } else {
        match fallback_pricing_key(n) {
            Some(k) => if catalog.contains(k) {
                Some(k)
            } else {
                None
            },
            None => None,
        }
    }
}

/// Which catalogue entry a model is priced at.
pub fn resolve_pricing_key(catalog_model_ids: &Vec<String>, model_id: &str) -> (r: Option<String>)
    ensures
        crate::importer::opt_view(r) == pricing_key(strings_view(catalog_model_ids@), model_id@),
{
    let n = normalize_model_id(model_id);
    let all = catalog_model_ids.len();
    assert(strings_view(catalog_model_ids@).take(all as int) =~= strings_view(catalog_model_ids@));
    if contains_id(catalog_model_ids, all, n.as_str()) {
        return Some(n);
    }
    let nv = chars_of(n.as_str());
    match fallback_pricing_key_exec(&nv) {
        Some(k) => if contains_id(catalog_model_ids, all, k) {
            Some(owned(k))
        } else {
            None
        },
        None => None,
    }
}

/// The model families that a model id outside the catalogue can be priced
/// as, in alphabetical order.
pub open spec fn pricing_families() -> Seq<Seq<char>> {
    seq![
        "gpt-5-codex"@,
        "gpt-5.1-codex"@,
        "gpt-5.1-codex-max"@,
        "gpt-5.1-codex-mini"@,
        "gpt-5.2"@,
        "gpt-5.2-codex"@,
        "gpt-5.3-codex"@,
        "gpt-5.3-codex-spark"@,
        "gpt-5.4"@,
        "gpt-5.4-mini"@,
        "gpt-5.4-nano"@,
        "gpt-5.4-pro"@,
        "gpt-5.5"@,
        "gpt-5.5-pro"@
    ]
}

proof fn lemma_prefix_chars(n: Seq<char>, p: Seq<char>)
    ensures
        starts_with(n, p) <==> (p.len() <= n.len() && forall|i: int| 0 <= i < p.len() ==> n[i] == p[i]),
{
    if p.len() <= n.len() && forall|i: int| 0 <= i < p.len() ==> n[i] == p[i] {
        assert(n.subrange(0, p.len() as int) =~= p);
    }
    if starts_with(n, p) {
        assert forall|i: int| 0 <= i < p.len() implies n[i] == p[i] by {
            assert(n.subrange(0, p.len() as int)[i] == n[i]);
        }
    }
}

/// Law: a model id that falls back is priced as the longest model family
/// that starts it: the family chosen starts the id, and no family that
/// starts the id is longer; an id that no family starts has no fallback.
/// So an id starting with `gpt-5.4-pro` falls back to `gpt-5.4-pro`, never
/// to `gpt-5.4`.
pub proof fn law_pricing_fallback_is_the_longest_family(n: Seq<char>)
    ensures
        match fallback_pricing_key(n) {
            Some(k) => {
                &&& pricing_families().contains(k)
                &&& starts_with(n, k)
                &&& forall|j: int|
                    0 <= j < pricing_families().len() && starts_with(n, #[trigger] pricing_families()[j])
                        ==> pricing_families()[j].len() <= k.len()
            },
            None => forall|j: int|
                0 <= j < pricing_families().len() ==> !starts_with(n, #[trigger] pricing_families()[j]),
        },
{
    reveal_strlit("gpt-5-codex");
    reveal_strlit("gpt-5.1-codex");
    reveal_strlit("gpt-5.1-codex-max");
    reveal_strlit("gpt-5.1-codex-mini");
    reveal_strlit("gpt-5.2");
    reveal_strlit("gpt-5.2-codex");
    reveal_strlit("gpt-5.3-codex");
    reveal_strlit("gpt-5.3-codex-spark");
    reveal_strlit("gpt-5.4");
    reveal_strlit("gpt-5.4-mini");
    reveal_strlit("gpt-5.4-nano");
    reveal_strlit("gpt-5.4-pro");
    reveal_strlit("gpt-5.5");
    reveal_strlit("gpt-5.5-pro");
    let f = pricing_families();
    assert forall|j: int| 0 <= j < f.len() implies (starts_with(n, #[trigger] f[j]) <==> (f[j].len() <= n.len()
        && forall|i: int| 0 <= i < f[j].len() ==> n[i] == f[j][i])) by {
        lemma_prefix_chars(n, f[j]);
    }
    if n.len() > 15 {
        let _c = (n[4], n[5], n[6], n[7], n[8], n[13], n[14], n[15]);
    } else if n.len() > 8 {
        let _c = (n[4], n[5], n[6], n[7], n[8]);
    } else if n.len() > 6 {
        let _c = (n[4], n[5], n[6]);
    }
    match fallback_pricing_key(n) {
        Some(k) => {
            lemma_prefix_chars(n, k);
        },
        None => {},
    }
}

/// Law: a model is priced at its own catalogue entry when the catalogue has
/// one; otherwise only at the longest model family that starts its id, and
/// only when the catalogue lists that family: never at a shorter family
/// that also starts it.
pub proof fn law_pricing_key_is_own_entry_or_longest_family(catalog: Seq<Seq<char>>, model_id: Seq<char>)
    ensures
        ({
            let n = normalized_model_id(model_id);
            let f = pricing_families();
            &&& catalog.contains(n) ==> pricing_key(catalog, model_id) == Some(n)
            &&& !catalog.contains(n) ==> match pricing_key(catalog, model_id) {
                Some(k) => {
                    &&& catalog.contains(k)
                    &&& starts_with(n, k)
                    &&& forall|j: int|
                        0 <= j < f.len() && starts_with(n, #[trigger] f[j]) ==> f[j].len() <= k.len()
                },
                None => true,
            }
        }),
{
    law_pricing_fallback_is_the_longest_family(normalized_model_id(model_id));
}

/// A normalized model id normalizes to itself, so the catalogue key of a
/// catalogue key is the same key.
pub proof fn law_model_id_normalization_is_stable(model_id: Seq<char>)
    ensures
        normalized_model_id(normalized_model_id(model_id)) == normalized_model_id(model_id),
{
    let t = trim_seq(model_id);
    crate::text::lemma_trim_shape(model_id);
    if t.len() == 0 {
        reveal_strlit("unknown");
        let u = "unknown"@;
        assert(!crate::text::is_ws(u[0]) && !crate::text::is_ws(u.last()));
        crate::text::lemma_trim_fixed(u);
        crate::text::lemma_lower_keeps(u);
        assert(lower_seq(u) =~= u);
    } else {
        let l = lower_seq(t);
        crate::text::lemma_lower_keeps(t);
        assert(is_ws(l[0]) == is_ws(t[0]));
        assert(is_ws(l[l.len() - 1]) == is_ws(t[t.len() - 1]));
        crate::text::lemma_trim_fixed(l);
    }
}

} // verus!

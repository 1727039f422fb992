//! The model-server backends: a local Ollama server and a llama.cpp server.
//!
//! What they send over HTTP is done by the application; here stand what they
//! decide: the prompts, the URLs, how a model's free-form answer is parsed
//! into tags, bullet points or categories, and which error a failure gives.
use crate::ai::{AiConfig, AiError, AiResult};
use crate::foreign::{json_string_list, parse_json_string_list, string_from_chars, str_eq, to_lowercase, lowercase_text};
use crate::mock::str_views;
use crate::order::vec_views;
use crate::query::{decimal, decimal_string};
use crate::text::{
    char_views, chars_of, class_pred, first_n, lines, lines_of, string_views, trim_both,
    trim_chars, trim_class, trim_end, trim_end_class, trim_start, trim_start_class, trim_ws,
    split_by, split_class, CharClass,
};
use vstd::prelude::*;
use vstd::utf8::{decode_utf8, encode_utf8, is_char_boundary};

verus! {

broadcast use vstd::utf8::group_utf8_lib;

// ----------------------------------------------------------------------------
// Truncation at a character boundary.
// ----------------------------------------------------------------------------

/// The largest character boundary of `bytes` that is at most `max`.
pub open spec fn boundary_at_most(bytes: Seq<u8>, max: int) -> int
    decreases max,
{
    if max <= 0 {
        0
    } else if is_char_boundary(bytes, max) {
        max
    } else {
        boundary_at_most(bytes, max - 1)
    }
}

/// The UTF-8 bytes of `s` cut to at most `max` bytes, at a character
/// boundary.
pub open spec fn truncated_bytes(s: Seq<char>, max: nat) -> Seq<u8> {
    let b = encode_utf8(s);
    if b.len() <= max {
        b
    } else {
        b.subrange(0, boundary_at_most(b, max as int))
    }
}

proof fn lemma_boundary_at_most(bytes: Seq<u8>, max: int)
    requires
        vstd::utf8::valid_utf8(bytes),
        0 <= max <= bytes.len(),
    ensures
        0 <= boundary_at_most(bytes, max) <= max,
        is_char_boundary(bytes, boundary_at_most(bytes, max)),
        forall|j: int| boundary_at_most(bytes, max) < j <= max ==> !is_char_boundary(bytes, j),
    decreases max,
{
    if max > 0 && !is_char_boundary(bytes, max) {
        lemma_boundary_at_most(bytes, max - 1);
    }
}

/// Truncate a string to at most `max_chars` bytes, the cut falling on a
/// character boundary: the result is the longest prefix of `s` that ends on
/// a boundary and fits.
pub fn truncate_str(s: &str, max_chars: usize) -> (r: &str)
    ensures
        encode_utf8(r@) == truncated_bytes(s@, max_chars as nat),
        r@ == decode_utf8(truncated_bytes(s@, max_chars as nat)),
        r@ == s@.take(r@.len() as int),
        encode_utf8(r@).len() <= max_chars,
        encode_utf8(s@).len() <= max_chars ==> r@ == s@,
{
    proof {
        vstd::utf8::encode_utf8_decode_utf8(s@);
        vstd::utf8::encode_utf8_decode_utf8(s@.take(s@.len() as int));
        assert(s@.take(s@.len() as int) =~= s@);
    }
    if s.as_bytes().len() <= max_chars {
        return s;
    }
    let ghost b = encode_utf8(s@);
    let mut end = max_chars;
    while end > 0 && !s.is_char_boundary(end)
        invariant
            end <= max_chars,
            max_chars < b.len(),
            b == encode_utf8(s@),
            b == encode_utf8(s@),
            boundary_at_most(b, max_chars as int) == boundary_at_most(b, end as int),
        decreases end,
    {
        end -= 1;
    }
    proof {
        vstd::utf8::is_char_boundary_start_end_of_seq(b);
        lemma_boundary_at_most(b, end as int);
    }
    let (head, _tail) = s.split_at(end);
    proof {
        vstd::utf8::encode_utf8_decode_utf8(head@);
        vstd::utf8::decode_utf8_split(b, end as int);
        let d1 = decode_utf8(b.subrange(0, end as int));
        let d2 = decode_utf8(b.subrange(end as int, b.len() as int));
        assert(s@ == d1 + d2);
        assert(head@ == d1);
        assert(s@.take(d1.len() as int) =~= d1);
    }
    head
}

// ----------------------------------------------------------------------------
// Parsing model output.
// ----------------------------------------------------------------------------

/// A tag as written in free-form model output: trimmed, and stripped of
/// surrounding double and then single quotes.
pub open spec fn clean_tag(s: Seq<char>) -> Seq<char> {
    trim_both(
        trim_both(trim_ws(s), class_pred(CharClass::DoubleQuote)),
        class_pred(CharClass::SingleQuote),
    )
}

/// Whether a cleaned tag is kept: not empty and shorter than 50 bytes.
pub open spec fn plausible_tag(s: Seq<char>) -> bool {
    s.len() > 0 && encode_utf8(s).len() < 50
}

/// The tags of free-form model output: brackets and white space around the
/// list removed, split at `,`, newlines and `;`, each piece cleaned, empty
/// and overlong pieces dropped, at most ten.
pub open spec fn free_form_tags(response: Seq<char>) -> Seq<Seq<char>> {
    let cleaned = trim_ws(
        trim_end(
            trim_start(trim_ws(response), class_pred(CharClass::OpenBracket)),
            class_pred(CharClass::CloseBracket),
        ),
    );
    first_n(
        split_by(cleaned, class_pred(CharClass::TagDelimiter)).map_values(
            |s: Seq<char>| clean_tag(s),
        ).filter(|s: Seq<char>| plausible_tag(s)),
        10,
    )
}

/// The tags of a model's answer: a JSON array of strings as it is, any other
/// text as free-form tags.
pub open spec fn parsed_tags(response: Seq<char>) -> Seq<Seq<char>> {
    match json_string_list(response) {
        Some(tags) => tags,
        None => free_form_tags(response),
    }
}

/// One bullet point: the line trimmed, its leading bullets, then leading
/// numerals, then leading `.`, `)` or `:` removed, and trimmed again.
pub open spec fn bullet_text(line: Seq<char>) -> Seq<char> {
    trim_ws(
        trim_start(
            trim_start(
                trim_start(trim_ws(line), class_pred(CharClass::Bullet)),
                class_pred(CharClass::Numeric),
            ),
            class_pred(CharClass::ListPunct),
        ),
    )
}

/// The non-empty bullet points of a model's answer, one per line.
pub open spec fn bullet_points(response: Seq<char>) -> Seq<Seq<char>> {
    lines(response).map_values(|l: Seq<char>| bullet_text(l)).filter(|s: Seq<char>| s.len() > 0)
}

/// Parse tags from a model's answer. Handles JSON arrays and comma-,
/// newline- or semicolon-separated text.
pub fn parse_tags(response: &str) -> (r: Vec<String>)
    ensures
        string_views(r@) == parsed_tags(response@),
{
    if let Some(tags) = parse_json_string_list(response) {
        return tags;
    }
    let t0 = trim_chars(&chars_of(response));
    let t1 = trim_start_class(&t0, CharClass::OpenBracket);
    let t2 = trim_end_class(&t1, CharClass::CloseBracket);
    let cleaned = trim_chars(&t2);
    let pieces = split_class(&cleaned, CharClass::TagDelimiter);
    let ghost ps = char_views(pieces@);
    let ghost cleaned_all = ps.map_values(|s: Seq<char>| clean_tag(s));
    let ghost keep = |s: Seq<char>| plausible_tag(s);
    let mut kept: Vec<Vec<char>> = Vec::new();
    let mut i: usize = 0;
    assert(cleaned_all.take(0).filter(keep) =~= Seq::<Seq<char>>::empty());
    while i < pieces.len()
        invariant
            i <= pieces.len(),
            ps == char_views(pieces@),
            cleaned_all == ps.map_values(|s: Seq<char>| clean_tag(s)),
            keep == (|s: Seq<char>| plausible_tag(s)),
            vec_views(kept@) == cleaned_all.take(i as int).filter(keep),
        decreases pieces.len() - i,
    {
        let a = trim_chars(&pieces[i]);
        let b = trim_class(&a, CharClass::DoubleQuote);
        let c = trim_class(&b, CharClass::SingleQuote);
        let cs = string_from_chars(&c);
        assert(cleaned_all.take(i + 1).drop_last() =~= cleaned_all.take(i as int));
        assert(cleaned_all[i as int] == c@);
        reveal_with_fuel(Seq::<_>::filter, 1);
        let ghost before = vec_views(kept@);
        if c.len() > 0 && cs.as_str().as_bytes().len() < 50 {
            kept.push(c);
            assert(vec_views(kept@) =~= before.push(cleaned_all[i as int]));
        }
        i += 1;
    }
    assert(cleaned_all.take(pieces.len() as int) =~= cleaned_all);
    first_strings(&kept, 10)
}

/// The first `n` of `v` (all of them when there are fewer) as strings.
fn first_strings(v: &Vec<Vec<char>>, n: usize) -> (r: Vec<String>)
    ensures
        string_views(r@) == first_n(vec_views(v@), n as nat),
{
    let limit: usize = if v.len() > n {
        n
    } else {
        v.len()
    };
    let mut r: Vec<String> = Vec::new();
    let mut k: usize = 0;
    while k < limit
        invariant
            k <= limit,
            limit <= v.len(),
            limit == if v.len() > n { n } else { v.len() },
            string_views(r@) == vec_views(v@).take(k as int),
        decreases limit - k,
    {
        let ghost before = string_views(r@);
        r.push(string_from_chars(&v[k]));
        assert(string_views(r@) =~= before.push(v@[k as int]@));
        assert(vec_views(v@).take(k + 1) =~= vec_views(v@).take(k as int).push(v@[k as int]@));
        k += 1;
    }
    assert(vec_views(v@).take(v.len() as int) =~= vec_views(v@));
    r
}

/// Parse bullet points from a model's answer: one per non-empty line, with
/// bullets, numbering and their punctuation removed.
pub fn parse_bullet_points(response: &str) -> (r: Vec<String>)
    ensures
        string_views(r@) == bullet_points(response@),
{
    let ls = lines_of(&chars_of(response));
    let ghost lv = char_views(ls@);
    let ghost items = lv.map_values(|l: Seq<char>| bullet_text(l));
    let ghost nonempty = |s: Seq<char>| s.len() > 0;
    let mut r: Vec<String> = Vec::new();
    let mut i: usize = 0;
    assert(items.take(0).filter(nonempty) =~= Seq::<Seq<char>>::empty());
    while i < ls.len()
        invariant
            i <= ls.len(),
            lv == char_views(ls@),
            items == lv.map_values(|l: Seq<char>| bullet_text(l)),
            nonempty == (|s: Seq<char>| s.len() > 0),
            string_views(r@) == items.take(i as int).filter(nonempty),
        decreases ls.len() - i,
    {
        let a = trim_chars(&ls[i]);
        let b = trim_start_class(&a, CharClass::Bullet);
        let c = trim_start_class(&b, CharClass::Numeric);
        let d = trim_start_class(&c, CharClass::ListPunct);
        let e = trim_chars(&d);
        assert(items.take(i + 1).drop_last() =~= items.take(i as int));
        assert(items[i as int] == e@);
        reveal_with_fuel(Seq::<_>::filter, 1);
        let ghost before = string_views(r@);
        if e.len() > 0 {
            r.push(string_from_chars(&e));
            assert(string_views(r@) =~= before.push(items[i as int]));
        }
        i += 1;
    }
    assert(items.take(ls.len() as int) =~= items);
    r
}

// ----------------------------------------------------------------------------
// Categories.
// ----------------------------------------------------------------------------

/// A category read from one line of free-form output: the line trimmed,
/// leading numerals, dots and spaces removed, lower-cased.
pub open spec fn line_category(line: Seq<char>) -> Seq<char> {
    lowercase_text(trim_start(trim_ws(line), class_pred(CharClass::Numbering)))
}

/// The categories read line by line: one per non-blank line, at most `n`.
pub open spec fn line_categories(response: Seq<char>, n: nat) -> Seq<Seq<char>> {
    first_n(
        lines(response).filter(|l: Seq<char>| trim_ws(l).len() > 0).map_values(
            |l: Seq<char>| line_category(l),
        ),
        n,
    )
}

/// `other` for each of `n` texts.
pub open spec fn all_other(n: nat) -> Seq<Seq<char>> {
    Seq::new(n, |i: int| "other"@)
}

/// The categories of `n` texts read from a model's free-form answer: a JSON
/// array of exactly `n` strings, else one category per non-blank line when
/// there are `n` of them, else `other` for every text.
pub open spec fn fallback_categories(response: Seq<char>, n: nat) -> Seq<Seq<char>> {
    match json_string_list(response) {
        Some(cats) if cats.len() == n => cats,
        _ => if line_categories(response, n).len() == n {
            line_categories(response, n)
        } else {
            all_other(n)
        },
    }
}

/// The categories of `n` texts read from a model's free-form answer.
pub fn categories_from_response(response: &str, n: usize) -> (r: Vec<String>)
    ensures
        string_views(r@) == fallback_categories(response@, n as nat),
{
    if let Some(cats) = parse_json_string_list(response) {
        if cats.len() == n {
            return cats;
        }
    }
    let ls = lines_of(&chars_of(response));
    let ghost lv = char_views(ls@);
    let ghost nonblank = |l: Seq<char>| trim_ws(l).len() > 0;
    let ghost cat = |l: Seq<char>| line_category(l);
    let mut found: Vec<Vec<char>> = Vec::new();
    let mut i: usize = 0;
    assert(lv.take(0).filter(nonblank) =~= Seq::<Seq<char>>::empty());
    while i < ls.len()
        invariant
            i <= ls.len(),
            lv == char_views(ls@),
            nonblank == (|l: Seq<char>| trim_ws(l).len() > 0),
            cat == (|l: Seq<char>| line_category(l)),
            vec_views(found@) == lv.take(i as int).filter(nonblank).map_values(cat),
        decreases ls.len() - i,
    {
        let t = trim_chars(&ls[i]);
        assert(lv.take(i + 1).drop_last() =~= lv.take(i as int));
        assert(lv[i as int] == ls@[i as int]@);
        reveal_with_fuel(Seq::<_>::filter, 1);
        let ghost before = vec_views(found@);
        if t.len() > 0 {
            let u = trim_start_class(&t, CharClass::Numbering);
            let us = string_from_chars(&u);
            let lower = to_lowercase(us.as_str());
            found.push(chars_of(lower.as_str()));
            assert(vec_views(found@) =~= before.push(cat(lv[i as int])));
            assert(lv.take(i + 1).filter(nonblank) =~= lv.take(i as int).filter(nonblank).push(
                lv[i as int],
            ));
        } else {
            assert(lv.take(i + 1).filter(nonblank) =~= lv.take(i as int).filter(nonblank));
        }
        i += 1;
    }
    assert(lv.take(ls.len() as int) =~= lv);
    let cats = first_strings(&found, n);
    if cats.len() == n {
        cats
    } else {
        let mut r: Vec<String> = Vec::new();
        let mut k: usize = 0;
        while k < n
            invariant
                k <= n,
                string_views(r@) == all_other(k as nat),
            decreases n - k,
        {
            let ghost before = string_views(r@);
            let o = String::from_str("other");
            r.push(o);
            assert(string_views(r@) =~= before.push(o@));
            assert(string_views(r@) =~= all_other((k + 1) as nat));
            k += 1;
        }
        r
    }
}

/// The categories of structured output, kept when there is one per text.
pub fn structured_categories(parsed: Option<Vec<String>>, n: usize) -> (r: Option<Vec<String>>)
    ensures
        r == (match parsed {
            Some(c) if c.len() == n => Some(c),
            _ => None,
        }),
{
    match parsed {
        Some(c) => if c.len() == n {
            Some(c)
        } else {
            None
        },
        None => None,
    }
}

/// The tags of structured output, kept when there is at least one.
pub fn structured_tags(parsed: Option<Vec<String>>) -> (r: Option<Vec<String>>)
    ensures
        r == (match parsed {
            Some(t) if t.len() > 0 => Some(t),
            _ => None,
        }),
{
    match parsed {
        Some(t) => if t.len() > 0 {
            Some(t)
        } else {
            None
        },
        None => None,
    }
}

/// The numbered list of texts a categorization prompt shows: for each text,
/// its number (from 1), `. `, its first 200 bytes and a newline.
pub open spec fn numbered_texts(texts: Seq<Seq<char>>) -> Seq<char>
    decreases texts.len(),
{
    if texts.len() == 0 {
        seq![]
    } else {
        numbered_texts(texts.drop_last()) + decimal(texts.len()) + ". "@ + decode_utf8(
            truncated_bytes(texts.last(), 200),
        ) + seq!['\n']
    }
}

/// The numbered list of texts a categorization prompt shows.
pub fn numbered_text_list(texts: &[&str]) -> (r: String)
    requires
        texts@.len() < u64::MAX,
    ensures
        r@ == numbered_texts(str_views(texts@)),
{
    let ghost tv = str_views(texts@);
    let mut r = String::new();
    let mut i: usize = 0;
    assert(tv.take(0) =~= Seq::<Seq<char>>::empty());
    while i < texts.len()
        invariant
            i <= texts.len(),
            texts@.len() < u64::MAX,
            tv == str_views(texts@),
            r@ == numbered_texts(tv.take(i as int)),
        decreases texts.len() - i,
    {
        let num = decimal_string((i + 1) as u64);
        r.append(num.as_str());
        r.append(". ");
        r.append(truncate_str(texts[i], 200));
        r.append("\n");
        proof {
            reveal_strlit("\n");
            let t = tv.take(i + 1);
            assert(t.drop_last() =~= tv.take(i as int));
            assert(t.last() == texts@[i as int]@);
            assert(t.len() == i + 1);
        }
        i += 1;
    }
    assert(tv.take(texts.len() as int) =~= tv);
    r
}

// ----------------------------------------------------------------------------
// Prompts and requests.
// ----------------------------------------------------------------------------

/// `pre`, `mid` and `post` one after the other.
pub fn surround(pre: &str, mid: &str, post: &str) -> (r: String)
    ensures
        r@ == pre@ + mid@ + post@,
{
    let mut r = String::from_str(pre);
    r.append(mid);
    r.append(post);
    r
}

/// `pre` followed by `rest`.
pub fn prefixed(pre: &str, rest: &str) -> (r: String)
    ensures
        r@ == pre@ + rest@,
{
    let mut r = String::from_str(pre);
    r.append(rest);
    r
}

/// The error a failed request gives: a timeout, or a connection error with
/// the request error's text.
pub fn request_error(is_timeout: bool, message: String) -> (r: AiError)
    ensures
        is_timeout ==> r == AiError::Timeout,
        !is_timeout ==> r == AiError::ConnectionError(message),
{
    if is_timeout {
        AiError::Timeout
    } else {
        AiError::ConnectionError(message)
    }
}

/// The error an unsuccessful HTTP status gives: `{server} returned status
/// {status}`.
pub fn status_error(server: &str, status: &str) -> (r: AiError)
    ensures
        r matches AiError::ConnectionError(m) && m@ == server@ + " returned status "@ + status@,
{
    AiError::ConnectionError(surround(server, " returned status ", status))
}

/// The URL of an API path under the base URL.
pub fn api_url(base: &str, path: &str) -> (r: String)
    ensures
        r@ == base@ + path@,
{
    let mut r = String::from_str(base);
    r.append(path);
    r
}

/// The base URL configured, or the given default.
pub open spec fn base_url_or(config: AiConfig, default: Seq<char>) -> Seq<char> {
    match config.endpoint {
        Some(e) => e@,
        None => default,
    }
}

/// A local Ollama server reached over HTTP.
pub struct OllamaBackend {
    timeout_secs: u64,
}

impl OllamaBackend {
    /// The timeout of the HTTP client, in seconds.
    pub closed spec fn timeout_spec(&self) -> u64 {
        self.timeout_secs
    }

    /// Create a new Ollama backend with the default timeout (60 s).
    pub fn new() -> (r: Self)
        ensures
            r.timeout_spec() == 60,
    {
        OllamaBackend { timeout_secs: 60 }
    }

    /// Create a new Ollama backend with a custom timeout.
    pub fn with_timeout(timeout_secs: u64) -> (r: Self)
        ensures
            r.timeout_spec() == timeout_secs,
    {
        OllamaBackend { timeout_secs }
    }

    /// The timeout of the HTTP client, in seconds.
    pub fn timeout_secs(&self) -> (r: u64)
        ensures
            r == self.timeout_spec(),
    {
        self.timeout_secs
    }

    /// Get the API base URL from config or default.
    pub fn get_base_url(config: &AiConfig) -> (r: String)
        ensures
            r@ == base_url_or(*config, "http://localhost:11434"@),
    {
        match &config.endpoint {
            Some(e) => e.clone(),
            None => String::from_str("http://localhost:11434"),
        }
    }

    /// Get the model name from config or default.
    pub fn get_model(config: &AiConfig) -> (r: String)
        ensures
            r@ == (match config.model {
                Some(m) => m@,
                None => "llama3.2"@,
            }),
    {
        match &config.model {
            Some(m) => m.clone(),
            None => String::from_str("llama3.2"),
        }
    }

    /// The model a request uses: the override, else the configured model.
    pub fn request_model(config: &AiConfig, model_override: Option<&str>) -> (r: String)
        ensures
            r@ == (match model_override {
                Some(m) => m@,
                None => match config.model {
                    Some(m) => m@,
                    None => "llama3.2"@,
                },
            }),
    {
        match model_override {
            Some(m) => String::from_str(m),
            None => Self::get_model(config),
        }
    }

    /// Parse tags from a model's answer.
    pub fn parse_tags(response: &str) -> (r: Vec<String>)
        ensures
            string_views(r@) == parsed_tags(response@),
    {
        parse_tags(response)
    }

    /// Parse bullet points from a model's answer.
    pub fn parse_bullet_points(response: &str) -> (r: Vec<String>)
        ensures
            string_views(r@) == bullet_points(response@),
    {
        parse_bullet_points(response)
    }

    /// The prompt asking for tags in structured output.
    pub fn tags_prompt(truncated: &str) -> (r: String)
        ensures
            r@ == "Analyze the following text and suggest 3-7 relevant short lowercase tags (1-2 words each).\n\nText:\n"@
                + truncated@,
    {
        prefixed("Analyze the following text and suggest 3-7 relevant short lowercase tags (1-2 words each).\n\nText:\n", truncated)
    }

    /// The prompt asking for tags as a JSON array, for servers without
    /// structured output.
    pub fn tags_fallback_prompt(truncated: &str) -> (r: String)
        ensures
            r@ == "Analyze the following text and suggest relevant tags.\nReturn ONLY a JSON array of 3-7 short lowercase tags (1-2 words each).\nDo not include any explanation or additional text.\n\nText:\n"@
                + truncated@ + "\n\nTags:"@,
    {
        surround(
            "Analyze the following text and suggest relevant tags.\nReturn ONLY a JSON array of 3-7 short lowercase tags (1-2 words each).\nDo not include any explanation or additional text.\n\nText:\n",
            truncated,
            "\n\nTags:",
        )
    }

    /// The summary prompt.
    pub fn summarize_prompt(truncated: &str) -> (r: String)
        ensures
            r@ == "Summarize the following text in 1-2 sentences.\nBe concise and capture the main points.\n\nText:\n"@
                + truncated@ + "\n\nSummary:"@,
    {
        surround(
            "Summarize the following text in 1-2 sentences.\nBe concise and capture the main points.\n\nText:\n",
            truncated,
            "\n\nSummary:",
        )
    }

    /// The categorization prompt, for structured output.
    pub fn categorize_prompt(text_list: &str) -> (r: String)
        ensures
            r@ == "Categorize each text into one of these categories: work, personal, reference, idea, task, other.\nReturn one category per text in the categories array.\n\nTexts:\n"@
                + text_list@,
    {
        prefixed("Categorize each text into one of these categories: work, personal, reference, idea, task, other.\nReturn one category per text in the categories array.\n\nTexts:\n", text_list)
    }

    /// The categorization prompt asking for a JSON array.
    pub fn categorize_fallback_prompt(text_list: &str) -> (r: String)
        ensures
            r@ == "Categorize each text into one of these categories: work, personal, reference, idea, task, other.\nReturn ONLY a JSON array of category strings, one for each text.\n\nTexts:\n"@
                + text_list@ + "\n\nCategories:"@,
    {
        surround(
            "Categorize each text into one of these categories: work, personal, reference, idea, task, other.\nReturn ONLY a JSON array of category strings, one for each text.\n\nTexts:\n",
            text_list,
            "\n\nCategories:",
        )
    }

    /// The plain-language prompt.
    pub fn simplify_prompt(truncated: &str) -> (r: String)
        ensures
            r@ == "Rewrite the following text in plain, simple language. Use short sentences and common words. Keep the same meaning but make it easier to understand:\n\n"@
                + truncated@,
    {
        prefixed("Rewrite the following text in plain, simple language. Use short sentences and common words. Keep the same meaning but make it easier to understand:\n\n", truncated)
    }

    /// The key points prompt.
    pub fn key_points_prompt(truncated: &str) -> (r: String)
        ensures
            r@ == "Extract the key points from the following text. Return each key point on its own line, prefixed with a dash (-):\n\n"@
                + truncated@,
    {
        prefixed("Extract the key points from the following text. Return each key point on its own line, prefixed with a dash (-):\n\n", truncated)
    }

    /// Get the name/identifier of this backend.
    pub fn backend_name(&self) -> (r: &str)
        ensures
            r@ == "ollama"@,
    {
        "ollama"
    }
}

impl Default for OllamaBackend {
    fn default() -> (r: Self)
        ensures
            r.timeout_spec() == 60,
    {
        Self::new()
    }
}

/// A llama.cpp server reached over its OpenAI-compatible HTTP API.
pub struct LlamaCppBackend {
    timeout_secs: u64,
}

impl LlamaCppBackend {
    /// The timeout of the HTTP client, in seconds.
    pub closed spec fn timeout_spec(&self) -> u64 {
        self.timeout_secs
    }

    /// Create a new llama.cpp backend with the default timeout (60 s).
    pub fn new() -> (r: Self)
        ensures
            r.timeout_spec() == 60,
    {
        LlamaCppBackend { timeout_secs: 60 }
    }

    /// Create a new llama.cpp backend with a custom timeout.
    pub fn with_timeout(timeout_secs: u64) -> (r: Self)
        ensures
            r.timeout_spec() == timeout_secs,
    {
        LlamaCppBackend { timeout_secs }
    }

    /// The timeout of the HTTP client, in seconds.
    pub fn timeout_secs(&self) -> (r: u64)
        ensures
            r == self.timeout_spec(),
    {
        self.timeout_secs
    }

    /// Get the API base URL from config or default.
    pub fn get_base_url(config: &AiConfig) -> (r: String)
        ensures
            r@ == base_url_or(*config, "http://localhost:8080"@),
    {
        match &config.endpoint {
            Some(e) => e.clone(),
            None => String::from_str("http://localhost:8080"),
        }
    }

    /// Get the model name from config (llama-server typically loads one
    /// model, so there is no default).
    pub fn get_model(config: &AiConfig) -> (r: Option<String>)
        ensures
            crate::ai::opt_str(r) == crate::ai::opt_str(config.model),
    {
        match &config.model {
            Some(m) => Some(m.clone()),
            None => None,
        }
    }

    /// The outcome of a health check from the reported status: healthy
    /// only on `ok`.
    pub fn health_result(status: &str) -> (r: AiResult<()>)
        ensures
            status@ == "ok"@ ==> r is Ok,
            status@ != "ok"@ ==> (r matches Err(AiError::ConnectionError(m)) && m@
                == "llama-server status: "@ + status@),
    {
        if str_eq(status, "ok") {
            Ok(())
        } else {
            let m = prefixed("llama-server status: ", status);
            proof {
                reveal_strlit("");
            }
            Err(AiError::ConnectionError(m))
        }
    }

    /// The answer of a chat completion: the first choice's content, trimmed.
    pub fn first_choice(contents: &Vec<String>) -> (r: AiResult<String>)
        ensures
            contents@.len() > 0 ==> r is Ok && r->Ok_0@ == trim_ws(contents@[0]@),
            contents@.len() == 0 ==> (r matches Err(AiError::InvalidResponse(m)) && m@
                == "No choices in response"@),
    {
        if contents.len() > 0 {
            Ok(string_from_chars(&trim_chars(&chars_of(contents[0].as_str()))))
        } else {
            Err(AiError::InvalidResponse(String::from_str("No choices in response")))
        }
    }

    /// Parse tags from a model's answer.
    pub fn parse_tags(response: &str) -> (r: Vec<String>)
        ensures
            string_views(r@) == parsed_tags(response@),
    {
        parse_tags(response)
    }

    /// Parse bullet points from a model's answer.
    pub fn parse_bullet_points(response: &str) -> (r: Vec<String>)
        ensures
            string_views(r@) == bullet_points(response@),
    {
        parse_bullet_points(response)
    }

    /// The system prompt for tagging.
    pub fn tags_system() -> (r: &'static str)
        ensures
            r@ == "You are a tagging assistant. Return ONLY a JSON array of 3-7 short lowercase tags (1-2 words each). No explanation."@,
    {
        "You are a tagging assistant. Return ONLY a JSON array of 3-7 short lowercase tags (1-2 words each). No explanation."
    }

    /// The user prompt for tagging.
    pub fn tags_user(truncated: &str) -> (r: String)
        ensures
            r@ == "Suggest tags for this text:\n\n"@ + truncated@,
    {
        prefixed("Suggest tags for this text:\n\n", truncated)
    }

    /// The system prompt for summaries.
    pub fn summarize_system() -> (r: &'static str)
        ensures
            r@ == "You are a summarization assistant. Provide a concise 1-2 sentence summary."@,
    {
        "You are a summarization assistant. Provide a concise 1-2 sentence summary."
    }

    /// The user prompt for summaries.
    pub fn summarize_user(truncated: &str) -> (r: String)
        ensures
            r@ == "Summarize this text:\n\n"@ + truncated@,
    {
        prefixed("Summarize this text:\n\n", truncated)
    }

    /// The system prompt for categorization.
    pub fn categorize_system() -> (r: &'static str)
        ensures
            r@ == "You are a categorization assistant. Categorize each text into one of: work, personal, reference, idea, task, other. Return ONLY a JSON array of category strings."@,
    {
        "You are a categorization assistant. Categorize each text into one of: work, personal, reference, idea, task, other. Return ONLY a JSON array of category strings."
    }

    /// The user prompt for categorization.
    pub fn categorize_user(text_list: &str) -> (r: String)
        ensures
            r@ == "Categorize these texts:\n\n"@ + text_list@,
    {
        prefixed("Categorize these texts:\n\n", text_list)
    }

    /// The system prompt for plain language.
    pub fn simplify_system() -> (r: &'static str)
        ensures
            r@ == "You are a plain language assistant. Rewrite text using short sentences and common words so it is easy for everyone to understand. Keep the same meaning."@,
    {
        "You are a plain language assistant. Rewrite text using short sentences and common words so it is easy for everyone to understand. Keep the same meaning."
    }

    /// The user prompt for plain language.
    pub fn simplify_user(truncated: &str) -> (r: String)
        ensures
            r@ == "Simplify this text:\n\n"@ + truncated@,
    {
        prefixed("Simplify this text:\n\n", truncated)
    }

    /// The system prompt for key points.
    pub fn key_points_system() -> (r: &'static str)
        ensures
            r@ == "You are a key points extractor. Return each key point on its own line prefixed with \"- \". Keep each point to one sentence."@,
    {
        "You are a key points extractor. Return each key point on its own line prefixed with \"- \". Keep each point to one sentence."
    }

    /// The user prompt for key points.
    pub fn key_points_user(truncated: &str) -> (r: String)
        ensures
            r@ == "Extract key points from this text:\n\n"@ + truncated@,
    {
        prefixed("Extract key points from this text:\n\n", truncated)
    }

    /// Get the name/identifier of this backend.
    pub fn backend_name(&self) -> (r: &str)
        ensures
            r@ == "llamacpp"@,
    {
        "llamacpp"
    }
}

impl Default for LlamaCppBackend {
    fn default() -> (r: Self)
        ensures
            r.timeout_spec() == 60,
    {
        Self::new()
    }
}

} // verus!

//! A mock AI backend for tests: predictable answers computed from the input
//! text, without any model.
use crate::ai::{AiBackend, AiConfig, AiError, AiResult};
use crate::foreign::{
    char_uppercase, is_uppercase, lowercase_text, string_from_chars, to_lowercase,
};
use crate::order::{sort_distinct, sorted_distinct, vec_views};
use crate::text::{
    char_views, chars_of, class_pred, contains_chars, first_n, has_piece, lemma_split_by_nonempty,
    split_by, split_class, string_views, trim_both, trim_chars, trim_class, trim_ws, white_space,
    words, words_of, CharClass,
};
use std::sync::atomic::AtomicUsize;
use std::sync::Arc;
use vstd::prelude::*;

verus! {

/// A mock AI backend for testing purposes.
///
/// Returns predictable responses based on the input text, allowing tests to
/// verify AI-dependent code without a real backend.
pub struct MockBackend {
    /// Whether the backend reports as available
    available: bool,
    /// Tags to return for any input
    default_tags: Vec<String>,
    /// Call counter for varying output in self-consistency tests.
    call_counter: Arc<AtomicUsize>,
    /// When true, vary tags on each call for consistency testing
    vary_tags: bool,
}

/// The tags a mock answers with on call number `n`, before keywords are
/// added: the base tags, or with varying tags on call 1 (mod 3) the last one
/// replaced by `variant-1` and on call 2 (mod 3) the second-to-last (the
/// last, for a single tag) replaced by `variant-2`.
pub open spec fn varied_tags(base: Seq<Seq<char>>, vary: bool, n: nat) -> Seq<Seq<char>> {
    if vary && base.len() > 0 {
        if n % 3 == 1 {
            base.update(base.len() - 1, "variant-1"@)
        } else if n % 3 == 2 {
            if base.len() >= 2 {
                base.update(base.len() - 2, "variant-2"@)
            } else {
                base.update(base.len() - 1, "variant-2"@)
            }
        } else {
            base
        }
    } else {
        base
    }
}

/// The keyword a word contributes: the word without leading and trailing
/// non-alphanumerics, lower-cased, when it is longer than four bytes and
/// starts with a capital.
pub open spec fn keyword_of(w: Seq<char>) -> Option<Seq<char>> {
    let c = trim_both(w, class_pred(CharClass::NotAlphanumeric));
    if vstd::utf8::encode_utf8(c).len() > 4 && c.len() > 0 && char_uppercase(c[0]) {
        Some(lowercase_text(c))
    } else {
        None
    }
}

/// The keywords of a list of words, in order.
pub open spec fn keywords_in(ws: Seq<Seq<char>>) -> Seq<Seq<char>>
    decreases ws.len(),
{
    if ws.len() == 0 {
        seq![]
    } else {
        match keyword_of(ws.last()) {
            Some(k) => keywords_in(ws.drop_last()).push(k),
            None => keywords_in(ws.drop_last()),
        }
    }
}

/// The tags the mock suggests on call number `n`: the (varied) base tags and
/// the keywords of the text, sorted, without duplicates, at most ten.
pub open spec fn mock_tags(base: Seq<Seq<char>>, vary: bool, n: nat, text: Seq<char>) -> Seq<
    Seq<char>,
> {
    first_n(
        sorted_distinct(varied_tags(base, vary, n) + keywords_in(words(text, white_space()))),
        10,
    )
}

/// The text up to its first `.`, `!` or `?`.
pub open spec fn first_sentence(text: Seq<char>) -> Seq<char> {
    split_by(text, class_pred(CharClass::Terminator))[0]
}

/// The mock summary: the first sentence, cut to 100 characters followed by
/// `...` when it is longer.
pub open spec fn mock_summary(text: Seq<char>) -> Seq<char> {
    let f = first_sentence(text);
    if f.len() > 100 {
        f.take(100) + "..."@
    } else {
        f
    }
}

/// The djb2 hash of a byte string, with wrapping arithmetic.
pub open spec fn djb2(bytes: Seq<u8>) -> u64
    decreases bytes.len(),
{
    if bytes.len() == 0 {
        5381
    } else {
        vstd::wrapping::u64_specs::wrapping_add(
            vstd::wrapping::u64_specs::wrapping_mul(djb2(bytes.drop_last()), 33),
            bytes.last() as u64,
        )
    }
}

/// The mock embedding of a text, in thousandths: 384 values, the `i`-th
/// being `(hash + i) mod 1000` (wrapping addition) for the text's hash.
pub open spec fn mock_embedding(text: Seq<char>) -> Seq<u32> {
    Seq::new(
        384,
        |i: int|
            (vstd::wrapping::u64_specs::wrapping_add(
                djb2(vstd::utf8::encode_utf8(text)),
                i as u64,
            ) % 1000) as u32,
    )
}

/// The mock's category of a text, by keywords of its lower-cased form.
pub open spec fn mock_category(text: Seq<char>) -> Seq<char> {
    let l = lowercase_text(text);
    if has_piece(l, "code"@) || has_piece(l, "programming"@) {
        "programming"@
    } else if has_piece(l, "meeting"@) || has_piece(l, "schedule"@) {
        "work"@
    } else if has_piece(l, "buy"@) || has_piece(l, "shop"@) {
        "shopping"@
    } else {
        "general"@
    }
}

/// The mock's key points: the trimmed, non-empty sentences, at most five.
pub open spec fn mock_key_points(text: Seq<char>) -> Seq<Seq<char>> {
    first_n(
        split_by(text, class_pred(CharClass::Terminator)).map_values(|s: Seq<char>| trim_ws(s)).filter(
            |s: Seq<char>| s.len() > 0,
        ),
        5,
    )
}

/// The views of a list of string slices.
pub open spec fn str_views(v: Seq<&str>) -> Seq<Seq<char>> {
    v.map_values(|s: &str| s@)
}

fn owned_strings(tags: &Vec<&str>) -> (r: Vec<String>)
    ensures
        string_views(r@) == str_views(tags@),
{
    let mut r: Vec<String> = Vec::new();
    let mut i: usize = 0;
    while i < tags.len()
        invariant
            i <= tags.len(),
            string_views(r@) == str_views(tags@).take(i as int),
        decreases tags.len() - i,
    {
        let ghost before = string_views(r@);
        r.push(String::from_str(tags[i]));
        assert(string_views(r@) =~= before.push(tags@[i as int]@));
        assert(str_views(tags@).take(i + 1) =~= str_views(tags@).take(i as int).push(
            tags@[i as int]@,
        ));
        i += 1;
    }
    assert(str_views(tags@).take(tags.len() as int) =~= str_views(tags@));
    r
}

/// A call counter starting at zero. vstd gives std's atomics no view, so
/// nothing of the counter's value is stated.
fn new_counter() -> (r: Arc<AtomicUsize>) {
    Arc::new(AtomicUsize::new(0))
}

impl MockBackend {
    /// Whether the backend reports as available.
    pub closed spec fn reports_available(&self) -> bool {
        self.available
    }

    /// The tags returned for any input.
    pub closed spec fn base_tags(&self) -> Seq<Seq<char>> {
        string_views(self.default_tags@)
    }

    /// Whether the tags vary from call to call.
    pub closed spec fn varies_tags(&self) -> bool {
        self.vary_tags
    }

    /// Create a new mock backend with default settings.
    pub fn new() -> (r: Self)
        ensures
            r.reports_available(),
            r.base_tags() == seq!["mock-tag"@],
            !r.varies_tags(),
    {
        Self::default()
    }

    /// Create a mock backend that reports as unavailable.
    pub fn unavailable() -> (r: Self)
        ensures
            !r.reports_available(),
            r.base_tags() == Seq::<Seq<char>>::empty(),
            !r.varies_tags(),
    {
        let r = MockBackend {
            available: false,
            default_tags: Vec::new(),
            call_counter: new_counter(),
            vary_tags: false,
        };
        assert(string_views(r.default_tags@) =~= Seq::<Seq<char>>::empty());
        r
    }

    /// Create a mock backend with custom tags.
    pub fn with_tags(tags: Vec<&str>) -> (r: Self)
        ensures
            r.reports_available(),
            r.base_tags() == str_views(tags@),
            !r.varies_tags(),
    {
        MockBackend {
            available: true,
            default_tags: owned_strings(&tags),
            call_counter: new_counter(),
            vary_tags: false,
        }
    }

    /// Create a mock backend that varies tags on each call: call 0 answers
    /// the base tags as-is, call 1 replaces the last tag with `variant-1`,
    /// call 2 replaces the second-to-last tag with `variant-2`, and so on
    /// round. Tags present in all calls pass majority voting, variant tags
    /// do not.
    pub fn with_varying_tags(tags: Vec<&str>) -> (r: Self)
        ensures
            r.reports_available(),
            r.base_tags() == str_views(tags@),
            r.varies_tags(),
    {
        MockBackend {
            available: true,
            default_tags: owned_strings(&tags),
            call_counter: new_counter(),
            vary_tags: true,
        }
    }

    /// Simple string hash for deterministic test embeddings (djb2 over the
    /// UTF-8 bytes).
    pub fn simple_hash(s: &str) -> (r: u64)
        ensures
            r == djb2(vstd::utf8::encode_utf8(s@)),
    {
        let bytes = s.as_bytes();
        let mut hash: u64 = 5381;
        let mut i: usize = 0;
        assert(bytes@.take(0) =~= Seq::<u8>::empty());
        while i < bytes.len()
            invariant
                i <= bytes.len(),
                bytes@ == vstd::utf8::encode_utf8(s@),
                hash == djb2(bytes@.take(i as int)),
            decreases bytes.len() - i,
        {
            assert(bytes@.take(i + 1).drop_last() =~= bytes@.take(i as int));
            hash = hash.wrapping_mul(33).wrapping_add(bytes[i] as u64);
            i += 1;
        }
        assert(bytes@.take(bytes.len() as int) =~= bytes@);
        hash
    }

    /// The number of this call, counting from zero. The counter is shared
    /// state, so nothing is known of the number.
    fn next_call_number(&self) -> usize {
        self.call_counter.fetch_add(1, std::sync::atomic::Ordering::Relaxed)
    }

    /// The tags suggested for `text` on call number `call_num`.
    pub fn tags_for_call(&self, text: &str, call_num: usize) -> (r: Vec<String>)
        ensures
            string_views(r@) == mock_tags(self.base_tags(), self.varies_tags(), call_num as nat, text@),
    {
        let mut tags: Vec<Vec<char>> = Vec::new();
        let mut i: usize = 0;
        while i < self.default_tags.len()
            invariant
                i <= self.default_tags.len(),
                vec_views(tags@) == string_views(self.default_tags@).take(i as int),
            decreases self.default_tags.len() - i,
        {
            let ghost before = vec_views(tags@);
            tags.push(chars_of(self.default_tags[i].as_str()));
            assert(vec_views(tags@) =~= before.push(self.default_tags@[i as int]@));
            assert(string_views(self.default_tags@).take(i + 1) =~= string_views(
                self.default_tags@,
            ).take(i as int).push(self.default_tags@[i as int]@));
            i += 1;
        }
        assert(string_views(self.default_tags@).take(self.default_tags.len() as int)
            =~= string_views(self.default_tags@));
        let ghost base = vec_views(tags@);
        let n = tags.len();
        if self.vary_tags && n > 0 {
            let m = call_num % 3;
            if m == 1 {
                tags.set(n - 1, chars_of("variant-1"));
                assert(vec_views(tags@) =~= base.update(n - 1, "variant-1"@));
            } else if m == 2 {
                if n >= 2 {
                    tags.set(n - 2, chars_of("variant-2"));
                    assert(vec_views(tags@) =~= base.update(n - 2, "variant-2"@));
                } else {
                    tags.set(n - 1, chars_of("variant-2"));
                    assert(vec_views(tags@) =~= base.update(n - 1, "variant-2"@));
                }
            }
        }
        let ghost varied = vec_views(tags@);
        assert(varied == varied_tags(self.base_tags(), self.varies_tags(), call_num as nat));
        let ws = words_of(&chars_of(text), CharClass::WhiteSpace);
        let ghost wv = char_views(ws@);
        assert(wv.take(0) =~= Seq::<Seq<char>>::empty());
        assert(varied + keywords_in(wv.take(0)) =~= varied);
        let mut j: usize = 0;
        while j < ws.len()
            invariant
                j <= ws.len(),
                wv == char_views(ws@),
                wv == words(text@, white_space()),
                vec_views(tags@) == varied + keywords_in(wv.take(j as int)),
            decreases ws.len() - j,
        {
            let cleaned = trim_class(&ws[j], CharClass::NotAlphanumeric);
            let cs = string_from_chars(&cleaned);
            assert(wv.take(j + 1).drop_last() =~= wv.take(j as int));
            assert(wv.take(j + 1).last() == ws@[j as int]@);
            let ghost before = vec_views(tags@);
            assert(wv[j as int] == ws@[j as int]@);
            assert(cs@ == trim_both(wv[j as int], class_pred(CharClass::NotAlphanumeric)));
            if cs.as_str().as_bytes().len() > 4 && cleaned.len() > 0 && is_uppercase(cleaned[0]) {
                let lower = to_lowercase(cs.as_str());
                tags.push(chars_of(lower.as_str()));
                assert(keyword_of(wv[j as int]) == Some(lower@));
                assert(vec_views(tags@) =~= before.push(lower@));
                assert(varied + keywords_in(wv.take(j + 1)) =~= (varied + keywords_in(
                    wv.take(j as int),
                )).push(lower@));
            } else {
                assert(keyword_of(wv[j as int]) is None);
                assert(keywords_in(wv.take(j + 1)) == keywords_in(wv.take(j as int)));
            }
            j += 1;
        }
        assert(wv.take(ws.len() as int) =~= wv);
        let sorted = sort_distinct(&tags);
        let limit: usize = if sorted.len() > 10 {
            10
        } else {
            sorted.len()
        };
        let mut r: Vec<String> = Vec::new();
        let mut k: usize = 0;
        while k < limit
            invariant
                k <= limit,
                limit <= sorted.len(),
                string_views(r@) == vec_views(sorted@).take(k as int),
            decreases limit - k,
        {
            let ghost before = string_views(r@);
            r.push(string_from_chars(&sorted[k]));
            assert(string_views(r@) =~= before.push(sorted@[k as int]@));
            assert(vec_views(sorted@).take(k + 1) =~= vec_views(sorted@).take(k as int).push(
                sorted@[k as int]@,
            ));
            k += 1;
        }
        assert(vec_views(sorted@).take(sorted.len() as int) =~= vec_views(sorted@));
        r
    }

    /// The thousandths of the embedding of `text`.
    pub fn embedding_of(text: &str) -> (r: Vec<u32>)
        ensures
            r@ == mock_embedding(text@),
    {
        let hash = Self::simple_hash(text);
        let mut r: Vec<u32> = Vec::new();
        let mut i: u64 = 0;
        while i < 384
            invariant
                i <= 384,
                hash == djb2(vstd::utf8::encode_utf8(text@)),
                r@ == mock_embedding(text@).take(i as int),
            decreases 384 - i,
        {
            let v = hash.wrapping_add(i) % 1000;
            let ghost before = r@;
            r.push(v as u32);
            assert(r@ =~= mock_embedding(text@).take(i + 1));
            i += 1;
        }
        assert(mock_embedding(text@).take(384) =~= mock_embedding(text@));
        r
    }

    /// The category of one text.
    pub fn category_of(text: &str) -> (r: String)
        ensures
            r@ == mock_category(text@),
    {
        let lower = to_lowercase(text);
        let l = chars_of(lower.as_str());
        let code = chars_of("code");
        let programming = chars_of("programming");
        let meeting = chars_of("meeting");
        let schedule = chars_of("schedule");
        let buy = chars_of("buy");
        let shop = chars_of("shop");
        if contains_chars(&l, &code) || contains_chars(&l, &programming) {
            String::from_str("programming")
        } else if contains_chars(&l, &meeting) || contains_chars(&l, &schedule) {
            String::from_str("work")
        } else if contains_chars(&l, &buy) || contains_chars(&l, &shop) {
            String::from_str("shopping")
        } else {
            String::from_str("general")
        }
    }

    /// The summary of one text.
    pub fn summary_of(text: &str) -> (r: String)
        ensures
            r@ == mock_summary(text@),
    {
        let pieces = split_class(&chars_of(text), CharClass::Terminator);
        proof {
            lemma_split_by_nonempty(text@, class_pred(CharClass::Terminator));
            assert(char_views(pieces@)[0] == pieces@[0]@);
        }
        let first = &pieces[0];
        if first.len() > 100 {
            let mut cut: Vec<char> = Vec::new();
            let mut i: usize = 0;
            while i < 100
                invariant
                    i <= 100,
                    first.len() > 100,
                    cut@ == first@.take(i as int),
                decreases 100 - i,
            {
                cut.push(first[i]);
                assert(cut@ =~= first@.take(i + 1));
                i += 1;
            }
            let mut s = string_from_chars(&cut);
            s.append("...");
            s
        } else {
            string_from_chars(first)
        }
    }

    /// The key points of one text.
    pub fn key_points_of(text: &str) -> (r: Vec<String>)
        ensures
            string_views(r@) == mock_key_points(text@),
    {
        let pieces = split_class(&chars_of(text), CharClass::Terminator);
        let ghost ps = char_views(pieces@);
        let ghost trimmed = ps.map_values(|s: Seq<char>| trim_ws(s));
        let ghost nonempty = |s: Seq<char>| s.len() > 0;
        let mut all: Vec<Vec<char>> = Vec::new();
        let mut i: usize = 0;
        assert(trimmed.take(0).filter(nonempty) =~= Seq::<Seq<char>>::empty());
        while i < pieces.len()
            invariant
                i <= pieces.len(),
                ps == char_views(pieces@),
                trimmed == ps.map_values(|s: Seq<char>| trim_ws(s)),
                nonempty == (|s: Seq<char>| s.len() > 0),
                vec_views(all@) == trimmed.take(i as int).filter(nonempty),
            decreases pieces.len() - i,
        {
            let t = trim_chars(&pieces[i]);
            assert(trimmed.take(i + 1).drop_last() =~= trimmed.take(i as int));
            assert(trimmed[i as int] == t@);
            reveal_with_fuel(Seq::<_>::filter, 1);
            let ghost before = vec_views(all@);
            if t.len() > 0 {
                all.push(t);
                assert(vec_views(all@) =~= before.push(trimmed[i as int]));
            }
            i += 1;
        }
        assert(trimmed.take(pieces.len() as int) =~= trimmed);
        let limit: usize = if all.len() > 5 {
            5
        } else {
            all.len()
        };
        let mut r: Vec<String> = Vec::new();
        let mut k: usize = 0;
        while k < limit
            invariant
                k <= limit,
                limit <= all.len(),
                string_views(r@) == vec_views(all@).take(k as int),
            decreases limit - k,
        {
            let ghost before = string_views(r@);
            r.push(string_from_chars(&all[k]));
            assert(string_views(r@) =~= before.push(all@[k as int]@));
            assert(vec_views(all@).take(k + 1) =~= vec_views(all@).take(k as int).push(
                all@[k as int]@,
            ));
            k += 1;
        }
        assert(vec_views(all@).take(all.len() as int) =~= vec_views(all@));
        r
    }
}

impl Default for MockBackend {
    fn default() -> (r: Self)
        ensures
            r.reports_available(),
            r.base_tags() == seq!["mock-tag"@],
            !r.varies_tags(),
    {
        let mut tags: Vec<String> = Vec::new();
        tags.push(String::from_str("mock-tag"));
        let r = MockBackend {
            available: true,
            default_tags: tags,
            call_counter: new_counter(),
            vary_tags: false,
        };
        assert(string_views(r.default_tags@) =~= seq!["mock-tag"@]);
        r
    }
}

impl AiBackend for MockBackend {
    /// Thousandths: value `v` stands for `v / 1000`.
    type Embedding = Vec<u32>;

    closed spec fn available_answer(&self, r: bool) -> bool {
        r == self.available
    }

    closed spec fn tags_answer(&self, text: Seq<char>, config: AiConfig, r: AiResult<Vec<String>>) -> bool {
        if !self.available {
            r matches Err(AiError::Unavailable)
        } else {
            r is Ok && exists|n: nat|
                string_views(r->Ok_0@) == mock_tags(self.base_tags(), self.varies_tags(), n, text)
        }
    }

    closed spec fn summary_answer(&self, text: Seq<char>, config: AiConfig, r: AiResult<String>) -> bool {
        if !self.available {
            r matches Err(AiError::Unavailable)
        } else {
            r is Ok && r->Ok_0@ == mock_summary(text)
        }
    }

    closed spec fn embed_answer(&self, text: Seq<char>, config: AiConfig, r: AiResult<Vec<u32>>) -> bool {
        if !self.available {
            r matches Err(AiError::Unavailable)
        } else {
            r is Ok && r->Ok_0@ == mock_embedding(text)
        }
    }

    closed spec fn categories_answer(
        &self,
        texts: Seq<Seq<char>>,
        config: AiConfig,
        r: AiResult<Vec<String>>,
    ) -> bool {
        if !self.available {
            r matches Err(AiError::Unavailable)
        } else {
            r is Ok && string_views(r->Ok_0@) == texts.map_values(|t: Seq<char>| mock_category(t))
        }
    }

    closed spec fn simplify_answer(&self, text: Seq<char>, config: AiConfig, r: AiResult<String>) -> bool {
        if !self.available {
            r matches Err(AiError::Unavailable)
        } else {
            r is Ok && r->Ok_0@ == lowercase_text(text)
        }
    }

    closed spec fn key_points_answer(
        &self,
        text: Seq<char>,
        config: AiConfig,
        r: AiResult<Vec<String>>,
    ) -> bool {
        if !self.available {
            r matches Err(AiError::Unavailable)
        } else {
            r is Ok && string_views(r->Ok_0@) == mock_key_points(text)
        }
    }

    fn is_available(&self) -> (r: bool)
        ensures
            r == self.reports_available(),
    {
        self.available
    }

    fn suggest_tags(&self, text: &str, config: &AiConfig) -> (r: AiResult<Vec<String>>)
        ensures
            !self.reports_available() ==> r matches Err(AiError::Unavailable),
            self.reports_available() ==> r is Ok && exists|n: nat|
                string_views(r->Ok_0@) == mock_tags(self.base_tags(), self.varies_tags(), n, text@),
    {
        if !self.available {
            return Err(AiError::Unavailable);
        }
        let call_num = self.next_call_number();
        Ok(self.tags_for_call(text, call_num))
    }

    fn summarize(&self, text: &str, config: &AiConfig) -> (r: AiResult<String>)
        ensures
            !self.reports_available() ==> r matches Err(AiError::Unavailable),
            self.reports_available() ==> r is Ok && r->Ok_0@ == mock_summary(text@),
    {
        if !self.available {
            return Err(AiError::Unavailable);
        }
        Ok(Self::summary_of(text))
    }

    fn embed(&self, text: &str, config: &AiConfig) -> (r: AiResult<Vec<u32>>)
        ensures
            !self.reports_available() ==> r matches Err(AiError::Unavailable),
            self.reports_available() ==> r is Ok && r->Ok_0@ == mock_embedding(text@),
    {
        if !self.available {
            return Err(AiError::Unavailable);
        }
        Ok(Self::embedding_of(text))
    }

    fn categorize(&self, texts: &[&str], config: &AiConfig) -> (r: AiResult<Vec<String>>)
        ensures
            !self.reports_available() ==> r matches Err(AiError::Unavailable),
            self.reports_available() ==> r is Ok && string_views(r->Ok_0@) == str_views(
                texts@,
            ).map_values(|t: Seq<char>| mock_category(t)),
    {
        if !self.available {
            return Err(AiError::Unavailable);
        }
        let mut r: Vec<String> = Vec::new();
        let mut i: usize = 0;
        while i < texts.len()
            invariant
                i <= texts.len(),
                string_views(r@) == str_views(texts@).take(i as int).map_values(
                    |t: Seq<char>| mock_category(t),
                ),
            decreases texts.len() - i,
        {
            let ghost before = string_views(r@);
            let c = Self::category_of(texts[i]);
            r.push(c);
            assert(string_views(r@) =~= before.push(mock_category(texts@[i as int]@)));
            assert(str_views(texts@).take(i + 1) =~= str_views(texts@).take(i as int).push(
                texts@[i as int]@,
            ));
            assert(str_views(texts@).take(i + 1).map_values(|t: Seq<char>| mock_category(t))
                =~= before.push(mock_category(texts@[i as int]@)));
            i += 1;
        }
        assert(str_views(texts@).take(texts.len() as int) =~= str_views(texts@));
        Ok(r)
    }

    fn simplify(&self, text: &str, config: &AiConfig) -> (r: AiResult<String>)
        ensures
            !self.reports_available() ==> r matches Err(AiError::Unavailable),
            self.reports_available() ==> r is Ok && r->Ok_0@ == lowercase_text(text@),
    {
        if !self.available {
            return Err(AiError::Unavailable);
        }
        Ok(to_lowercase(text))
    }

    fn key_points(&self, text: &str, config: &AiConfig) -> (r: AiResult<Vec<String>>)
        ensures
            !self.reports_available() ==> r matches Err(AiError::Unavailable),
            self.reports_available() ==> r is Ok && string_views(r->Ok_0@) == mock_key_points(
                text@,
            ),
    {
        if !self.available {
            return Err(AiError::Unavailable);
        }
        Ok(Self::key_points_of(text))
    }

    fn backend_name(&self) -> (r: &str)
        ensures
            r@ == "mock"@,
    {
        "mock"
    }
}

/// The tags a mock suggests are sorted, free of duplicates, at most ten,
/// and each is a (varied) base tag or a keyword of the text.
pub proof fn law_mock_tags_sorted_distinct(base: Seq<Seq<char>>, vary: bool, n: nat, text: Seq<char>)
    ensures
        crate::order::strictly_sorted(mock_tags(base, vary, n, text)),
        mock_tags(base, vary, n, text).no_duplicates(),
        mock_tags(base, vary, n, text).len() <= 10,
        forall|i: int|
            0 <= i < mock_tags(base, vary, n, text).len() ==> (varied_tags(base, vary, n)
                + keywords_in(words(text, white_space()))).contains(
                #[trigger] mock_tags(base, vary, n, text)[i],
            ),
{
    let all = varied_tags(base, vary, n) + keywords_in(words(text, white_space()));
    let s = sorted_distinct(all);
    crate::order::law_sorted_distinct(all);
    let m = mock_tags(base, vary, n, text);
    assert forall|i: int| 0 <= i < m.len() implies all.contains(#[trigger] m[i]) by {
        assert(m[i] == s[i]);
        assert(s.to_set().contains(s[i]));
    }
}

} // verus!

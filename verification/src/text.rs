//! Character-level text model shared by the tag, query and parsing modules.
//!
//! Strings are reasoned about as `Seq<char>`; the recursive definitions below
//! all peel off the last character so that left-to-right loops can extend
//! them one character at a time.
use crate::foreign::{char_alphanumeric, char_numeric, is_alphanumeric, is_numeric};
use vstd::prelude::*;

verus! {

/// The Unicode `White_Space` property (the characters `char::is_whitespace`
/// accepts and the regex class `\s` matches).
pub open spec fn is_white_space(c: char) -> bool {
    let u = c as u32;
    ||| 0x9 <= u <= 0xD
    ||| u == 0x20
    ||| u == 0x85
    ||| u == 0xA0
    ||| u == 0x1680
    ||| 0x2000 <= u <= 0x200A
    ||| u == 0x2028
    ||| u == 0x2029
    ||| u == 0x202F
    ||| u == 0x205F
    ||| u == 0x3000
}

/// Separators between the tags a user types: commas and white space.
pub open spec fn is_tag_separator(c: char) -> bool {
    c == ',' || is_white_space(c)
}

/// The maximal runs of characters outside `sep`, in order of appearance.
pub open spec fn words(s: Seq<char>, sep: spec_fn(char) -> bool) -> Seq<Seq<char>>
    decreases s.len(),
{
    if s.len() == 0 {
        seq![]
    } else {
        let t = s.drop_last();
        let c = s.last();
        let w = words(t, sep);
        if sep(c) {
            w
        } else if t.len() > 0 && !sep(t.last()) {
            w.update(w.len() - 1, w.last().push(c))
        } else {
            w.push(seq![c])
        }
    }
}

/// `str::split` on a single delimiter character: always at least one piece.
pub open spec fn split_on(s: Seq<char>, d: char) -> Seq<Seq<char>>
    decreases s.len(),
{
    if s.len() == 0 {
        seq![seq![]]
    } else {
        let p = split_on(s.drop_last(), d);
        let c = s.last();
        if c == d {
            p.push(seq![])
        } else {
            p.update(p.len() - 1, p.last().push(c))
        }
    }
}

/// Every maximal run of characters satisfying `p` replaced by `rep`.
pub open spec fn collapse_runs(s: Seq<char>, p: spec_fn(char) -> bool, rep: Seq<char>) -> Seq<char>
    decreases s.len(),
{
    if s.len() == 0 {
        seq![]
    } else {
        let t = s.drop_last();
        let c = s.last();
        if p(c) {
            if t.len() > 0 && p(t.last()) {
                collapse_runs(t, p, rep)
            } else {
                collapse_runs(t, p, rep) + rep
            }
        } else {
            collapse_runs(t, p, rep).push(c)
        }
    }
}

/// The pieces of `ws` joined with `d` between consecutive pieces.
pub open spec fn join(ws: Seq<Seq<char>>, d: Seq<char>) -> Seq<char>
    decreases ws.len(),
{
    if ws.len() == 0 {
        seq![]
    } else if ws.len() == 1 {
        ws[0]
    } else {
        join(ws.drop_last(), d) + d + ws.last()
    }
}

/// `s` without its leading characters satisfying `p`.
pub open spec fn trim_start(s: Seq<char>, p: spec_fn(char) -> bool) -> Seq<char>
    decreases s.len(),
{
    if s.len() > 0 && p(s[0]) {
        trim_start(s.drop_first(), p)
    } else {
        s
    }
}

/// `s` without its trailing characters satisfying `p`.
pub open spec fn trim_end(s: Seq<char>, p: spec_fn(char) -> bool) -> Seq<char>
    decreases s.len(),
{
    if s.len() > 0 && p(s.last()) {
        trim_end(s.drop_last(), p)
    } else {
        s
    }
}

/// `is_white_space` as a predicate value.
pub open spec fn white_space() -> spec_fn(char) -> bool {
    |c: char| is_white_space(c)
}

/// `is_tag_separator` as a predicate value.
pub open spec fn tag_separator() -> spec_fn(char) -> bool {
    |c: char| is_tag_separator(c)
}

/// `str::trim`: no leading or trailing white space.
pub open spec fn trim_ws(s: Seq<char>) -> Seq<char> {
    trim_end(trim_start(s, white_space()), white_space())
}

/// The character sequences of a vector of character vectors.
pub open spec fn char_views(v: Seq<Vec<char>>) -> Seq<Seq<char>> {
    v.map_values(|x: Vec<char>| x@)
}

/// The character sequences of a vector of strings.
pub open spec fn string_views(v: Seq<String>) -> Seq<Seq<char>> {
    v.map_values(|x: String| x@)
}

/// Whether `c` is a Unicode white-space character.
pub fn char_is_whitespace(c: char) -> (r: bool)
    ensures
        r == is_white_space(c),
{
    let u = c as u32;
    (0x9 <= u && u <= 0xD) || u == 0x20 || u == 0x85 || u == 0xA0 || u == 0x1680 || (0x2000 <= u
        && u <= 0x200A) || u == 0x2028 || u == 0x2029 || u == 0x202F || u == 0x205F || u == 0x3000
}

// ----------------------------------------------------------------------------
// Lemmas about the definitions above.
// ----------------------------------------------------------------------------

/// A non-empty sequence ending outside `sep` has at least one word.
pub proof fn lemma_words_nonempty(s: Seq<char>, sep: spec_fn(char) -> bool)
    requires
        s.len() > 0,
        !sep(s.last()),
    ensures
        words(s, sep).len() > 0,
    decreases s.len(),
{
    let t = s.drop_last();
    if t.len() > 0 && !sep(t.last()) {
        lemma_words_nonempty(t, sep);
    }
}

/// Appending a separator does not change the words.
pub proof fn lemma_words_push_sep(s: Seq<char>, c: char, sep: spec_fn(char) -> bool)
    requires
        sep(c),
    ensures
        words(s.push(c), sep) == words(s, sep),
{
    assert(s.push(c).drop_last() =~= s);
}

/// The last character of a collapsed sequence.
pub proof fn lemma_collapse_last(s: Seq<char>, p: spec_fn(char) -> bool, r: char)
    ensures
        (collapse_runs(s, p, seq![r]).len() == 0) == (s.len() == 0),
        s.len() > 0 ==> collapse_runs(s, p, seq![r]).last() == if p(s.last()) {
            r
        } else {
            s.last()
        },
    decreases s.len(),
{
    if s.len() > 0 {
        let t = s.drop_last();
        lemma_collapse_last(t, p, r);
    }
}

/// Collapsing runs of `p` into a separator `r` keeps the words, when the
/// separators afterwards are those of `sep` and before also those of `p`.
pub proof fn lemma_words_collapse(
    s: Seq<char>,
    p: spec_fn(char) -> bool,
    r: char,
    sep: spec_fn(char) -> bool,
    sep2: spec_fn(char) -> bool,
)
    requires
        sep(r),
        forall|c: char| #[trigger] sep2(c) == (sep(c) || p(c)),
    ensures
        words(collapse_runs(s, p, seq![r]), sep) == words(s, sep2),
    decreases s.len(),
{
    if s.len() > 0 {
        let t = s.drop_last();
        let c = s.last();
        lemma_words_collapse(t, p, r, sep, sep2);
        lemma_collapse_last(t, p, r);
        let x = collapse_runs(t, p, seq![r]);
        if p(c) {
            assert(x + seq![r] =~= x.push(r));
            lemma_words_push_sep(x, r, sep);
        } else {
            assert(x.push(c).drop_last() =~= x);
        }
    }
}

/// Removing trailing separators keeps the words.
pub proof fn lemma_words_trim_end(s: Seq<char>, sep: spec_fn(char) -> bool)
    ensures
        words(trim_end(s, sep), sep) == words(s, sep),
    decreases s.len(),
{
    if s.len() > 0 && sep(s.last()) {
        lemma_words_trim_end(s.drop_last(), sep);
    }
}

/// Prepending a separator keeps the words.
pub proof fn lemma_words_prepend_sep(c: char, v: Seq<char>, sep: spec_fn(char) -> bool)
    requires
        sep(c),
    ensures
        words(seq![c] + v, sep) == words(v, sep),
    decreases v.len(),
{
    reveal_with_fuel(words, 2);
    if v.len() == 0 {
        assert(seq![c] + v =~= seq![c]);
        assert(seq![c].drop_last() =~= Seq::<char>::empty());
    } else {
        let t = v.drop_last();
        lemma_words_prepend_sep(c, t, sep);
        assert((seq![c] + v).drop_last() =~= seq![c] + t);
        assert((seq![c] + v).last() == v.last());
        if t.len() == 0 {
            assert((seq![c] + t).last() == c);
        } else {
            assert((seq![c] + t).last() == t.last());
        }
    }
}

/// Removing leading separators keeps the words.
pub proof fn lemma_words_trim_start(s: Seq<char>, sep: spec_fn(char) -> bool)
    ensures
        words(trim_start(s, sep), sep) == words(s, sep),
    decreases s.len(),
{
    if s.len() > 0 && sep(s[0]) {
        lemma_words_trim_start(s.drop_first(), sep);
        assert(s =~= seq![s[0]] + s.drop_first());
        lemma_words_prepend_sep(s[0], s.drop_first(), sep);
    }
}

/// `trim_start` keeps a suffix whose first character is outside `p`.
pub proof fn lemma_trim_start_shape(s: Seq<char>, p: spec_fn(char) -> bool)
    ensures
        exists|k: int| 0 <= k <= s.len() && trim_start(s, p) == s.skip(k),
        trim_start(s, p).len() > 0 ==> !p(trim_start(s, p)[0]),
    decreases s.len(),
{
    if s.len() > 0 && p(s[0]) {
        lemma_trim_start_shape(s.drop_first(), p);
        let k = choose|k: int|
            0 <= k <= s.drop_first().len() && trim_start(s.drop_first(), p) == s.drop_first().skip(
                k,
            );
        assert(s.drop_first().skip(k) =~= s.skip(k + 1));
    } else {
        assert(s.skip(0) =~= s);
    }
}

/// `trim_end` keeps a prefix whose last character is outside `p`.
pub proof fn lemma_trim_end_shape(s: Seq<char>, p: spec_fn(char) -> bool)
    ensures
        exists|k: int| 0 <= k <= s.len() && trim_end(s, p) == s.take(k),
        trim_end(s, p).len() > 0 ==> !p(trim_end(s, p).last()),
    decreases s.len(),
{
    if s.len() > 0 && p(s.last()) {
        lemma_trim_end_shape(s.drop_last(), p);
        let k = choose|k: int|
            0 <= k <= s.drop_last().len() && trim_end(s.drop_last(), p) == s.drop_last().take(k);
        assert(s.drop_last().take(k) =~= s.take(k));
    } else {
        assert(s.take(s.len() as int) =~= s);
    }
}

/// Splitting a collapsed sequence on the collapse separator gives the words,
/// plus an empty piece for a trailing separator run.
pub proof fn lemma_split_collapse(v: Seq<char>, sep: spec_fn(char) -> bool, d: char)
    requires
        v.len() == 0 || !sep(v[0]),
        sep(d) || !v.contains(d),
    ensures
        v.len() == 0 ==> split_on(collapse_runs(v, sep, seq![d]), d) == seq![Seq::<char>::empty()],
        v.len() > 0 ==> split_on(collapse_runs(v, sep, seq![d]), d) == if sep(v.last()) {
            words(v, sep).push(seq![])
        } else {
            words(v, sep)
        },
    decreases v.len(),
{
    if v.len() > 0 {
        let t = v.drop_last();
        let c = v.last();
        assert(v.contains(c));
        if t.len() == 0 {
            assert(v =~= seq![c]);
            assert(c != d);
            assert(t =~= Seq::<char>::empty());
            reveal_with_fuel(collapse_runs, 2);
            reveal_with_fuel(split_on, 2);
            reveal_with_fuel(words, 2);
            assert(collapse_runs(v, sep, seq![d]) =~= seq![c]);
            assert(seq![c].drop_last() =~= Seq::<char>::empty());
            assert(split_on(seq![c], d) =~= seq![seq![c]]);
        } else {
            assert(t[0] == v[0]);
            assert forall|x: char| t.contains(x) implies v.contains(x) by {
                let i = choose|i: int| 0 <= i < t.len() && t[i] == x;
                assert(v[i] == x);
            }
            lemma_split_collapse(t, sep, d);
            lemma_collapse_last(t, sep, d);
            let x = collapse_runs(t, sep, seq![d]);
            if sep(c) {
                if !sep(t.last()) {
                    assert(x + seq![d] =~= x.push(d));
                    assert(x.push(d).drop_last() =~= x);
                }
            } else {
                assert(c != d);
                assert(x.push(c).drop_last() =~= x);
                lemma_words_nonempty(v, sep);
            }
        }
    }
}


/// Collapsing runs of a sequence that starts with one more character.
pub proof fn lemma_collapse_prepend(c: char, v: Seq<char>, p: spec_fn(char) -> bool, rep: Seq<char>)
    ensures
        !p(c) ==> collapse_runs(seq![c] + v, p, rep) == seq![c] + collapse_runs(v, p, rep),
        p(c) && (v.len() == 0 || !p(v[0])) ==> collapse_runs(seq![c] + v, p, rep) == rep
            + collapse_runs(v, p, rep),
        p(c) && v.len() > 0 && p(v[0]) ==> collapse_runs(seq![c] + v, p, rep) == collapse_runs(
            v,
            p,
            rep,
        ),
    decreases v.len(),
{
    reveal_with_fuel(collapse_runs, 2);
    if v.len() == 0 {
        assert(seq![c] + v =~= seq![c]);
        assert(seq![c].drop_last() =~= Seq::<char>::empty());
        assert(rep + Seq::<char>::empty() =~= rep);
        assert(Seq::<char>::empty() + rep =~= rep);
        assert(seq![c] + Seq::<char>::empty() =~= seq![c]);
        assert(Seq::<char>::empty().push(c) =~= seq![c]);
    } else {
        let t = v.drop_last();
        let e = v.last();
        lemma_collapse_prepend(c, t, p, rep);
        assert((seq![c] + v).drop_last() =~= seq![c] + t);
        assert((seq![c] + v).last() == e);
        if t.len() == 0 {
            assert((seq![c] + t).last() == c);
            assert(v =~= seq![e]);
            assert(seq![c] + t =~= seq![c]);
            assert(collapse_runs(t, p, rep) =~= Seq::<char>::empty());
            assert(seq![c].drop_last() =~= Seq::<char>::empty());
            assert(seq![e].drop_last() =~= Seq::<char>::empty());
        } else {
            assert((seq![c] + t).last() == t.last());
            assert(t[0] == v[0]);
        }
        let a = collapse_runs(seq![c] + t, p, rep);
        let b = collapse_runs(t, p, rep);
        assert((seq![c] + b).push(e) =~= seq![c] + b.push(e));
        assert((rep + b).push(e) =~= rep + b.push(e));
        assert((seq![c] + b) + rep =~= seq![c] + (b + rep));
        assert((rep + b) + rep =~= rep + (b + rep));
    }
}

/// Trailing runs: trimming after collapsing equals collapsing after trimming,
/// when the replacement is itself trimmed.
pub proof fn lemma_trim_end_collapse(q: Seq<char>, p: spec_fn(char) -> bool, d: char)
    requires
        p(d),
    ensures
        trim_end(collapse_runs(q, p, seq![d]), p) == collapse_runs(trim_end(q, p), p, seq![d]),
    decreases q.len(),
{
    if q.len() > 0 {
        let t = q.drop_last();
        let c = q.last();
        lemma_trim_end_collapse(t, p, d);
        let x = collapse_runs(t, p, seq![d]);
        if p(c) {
            assert(x + seq![d] =~= x.push(d));
            assert(x.push(d).drop_last() =~= x);
        } else {
            assert(x.push(c).last() == c);
        }
    }
}

/// Leading runs: trimming after collapsing equals collapsing after trimming,
/// when the replacement is itself trimmed.
pub proof fn lemma_trim_start_collapse(q: Seq<char>, p: spec_fn(char) -> bool, d: char)
    requires
        p(d),
    ensures
        trim_start(collapse_runs(q, p, seq![d]), p) == collapse_runs(trim_start(q, p), p, seq![d]),
    decreases q.len(),
{
    if q.len() > 0 {
        let c = q[0];
        let v = q.drop_first();
        assert(q =~= seq![c] + v);
        lemma_collapse_prepend(c, v, p, seq![d]);
        if p(c) {
            lemma_trim_start_collapse(v, p, d);
            let y = collapse_runs(v, p, seq![d]);
            if v.len() == 0 || !p(v[0]) {
                assert((seq![d] + y).drop_first() =~= y);
                assert((seq![d] + y)[0] == d);
            }
        } else {
            let y = collapse_runs(v, p, seq![d]);
            assert((seq![c] + y)[0] == c);
        }
    }
}
} // verus!

verus! {

/// The characters of `s`.
pub fn chars_of(s: &str) -> (r: Vec<char>)
    ensures
        r@ == s@,
{
    broadcast use vstd::string::group_string_axioms;

    let mut r: Vec<char> = Vec::new();
    for c in it: s.chars()
        invariant
            r@ == it.seq().take(it.index() as int),
    {
        r.push(c);
    }
    r
}

} // verus!

verus! {

/// The characters `v[lo..hi]`.
pub fn slice_chars(v: &Vec<char>, lo: usize, hi: usize) -> (r: Vec<char>)
    requires
        lo <= hi <= v.len(),
    ensures
        r@ == v@.subrange(lo as int, hi as int),
{
    let mut r: Vec<char> = Vec::new();
    let mut i = lo;
    while i < hi
        invariant
            lo <= i <= hi <= v.len(),
            r@ == v@.subrange(lo as int, i as int),
        decreases hi - i,
    {
        r.push(v[i]);
        i += 1;
        assert(r@ =~= v@.subrange(lo as int, i as int));
    }
    r
}

/// `str::trim` on a character vector.
pub fn trim_chars(v: &Vec<char>) -> (r: Vec<char>)
    ensures
        r@ == trim_ws(v@),
{
    let ghost ws = white_space();
    let mut i: usize = 0;
    assert(v@.skip(0) =~= v@);
    while i < v.len() && char_is_whitespace(v[i])
        invariant
            i <= v.len(),
            ws == white_space(),
            trim_start(v@, ws) == trim_start(v@.skip(i as int), ws),
        decreases v.len() - i,
    {
        assert(v@.skip(i as int).drop_first() =~= v@.skip(i + 1));
        assert(v@.skip(i as int)[0] == v@[i as int]);
        i += 1;
    }
    let ghost head = v@.skip(i as int);
    assert(trim_start(head, ws) == head);
    let mut j: usize = v.len();
    while j > i && char_is_whitespace(v[j - 1])
        invariant
            i <= j <= v.len(),
            ws == white_space(),
            trim_end(head, ws) == trim_end(v@.subrange(i as int, j as int), ws),
        decreases j,
    {
        assert(v@.subrange(i as int, j as int).drop_last() =~= v@.subrange(i as int, j - 1));
        assert(v@.subrange(i as int, j as int).last() == v@[j - 1]);
        j -= 1;
    }
    assert(head =~= v@.subrange(i as int, v.len() as int));
    slice_chars(v, i, j)
}

/// `str::split` on one delimiter character.
pub fn split_chars(v: &Vec<char>, d: char) -> (r: Vec<Vec<char>>)
    ensures
        char_views(r@) == split_on(v@, d),
{
    let mut r: Vec<Vec<char>> = Vec::new();
    let mut cur: Vec<char> = Vec::new();
    let mut i: usize = 0;
    assert(v@.take(0) =~= Seq::<char>::empty());
    assert(char_views(r@).push(cur@) =~= seq![Seq::<char>::empty()]);
    while i < v.len()
        invariant
            i <= v.len(),
            char_views(r@).push(cur@) == split_on(v@.take(i as int), d),
        decreases v.len() - i,
    {
        let c = v[i];
        assert(v@.take(i + 1).drop_last() =~= v@.take(i as int));
        assert(v@.take(i + 1).last() == c);
        let ghost before = char_views(r@).push(cur@);
        if c == d {
            let done = cur;
            r.push(done);
            cur = Vec::new();
            assert(char_views(r@).push(cur@) =~= before.push(seq![]));
        } else {
            cur.push(c);
            assert(char_views(r@).push(cur@) =~= before.update(
                before.len() - 1,
                before.last().push(c),
            ));
        }
        i += 1;
    }
    let ghost before = char_views(r@).push(cur@);
    r.push(cur);
    assert(char_views(r@) =~= before);
    assert(v@.take(v.len() as int) =~= v@);
    r
}

/// The strings of `ws` joined with `d` between consecutive ones.
pub fn join_strings(ws: &Vec<String>, d: &str) -> (r: String)
    ensures
        r@ == join(string_views(ws@), d@),
{
    let ghost all = string_views(ws@);
    let mut r = String::new();
    let mut i: usize = 0;
    assert(all.take(0) =~= Seq::<Seq<char>>::empty());
    while i < ws.len()
        invariant
            i <= ws.len(),
            all == string_views(ws@),
            r@ == join(all.take(i as int), d@),
        decreases ws.len() - i,
    {
        proof {
            let t = all.take(i + 1);
            assert(t.drop_last() =~= all.take(i as int));
            assert(t.last() == ws@[i as int]@);
            if i == 0 {
                assert(t =~= seq![ws@[0]@]);
            }
        }
        if i > 0 {
            r.append(d);
        }
        r.append(ws[i].as_str());
        i += 1;
    }
    assert(all.take(ws.len() as int) =~= all);
    r
}

} // verus!

verus! {

/// The character classes the parsers trim or split on.
#[derive(Debug, Clone, Copy, PartialEq, Eq)]
pub enum CharClass {
    /// White space.
    WhiteSpace,
    /// List bullets: `-`, `*` and `•`.
    Bullet,
    /// Numeric characters.
    Numeric,
    /// Punctuation after a list number: `.`, `)` and `:`.
    ListPunct,
    /// Anything but letters and digits.
    NotAlphanumeric,
    /// The double quote.
    DoubleQuote,
    /// The single quote.
    SingleQuote,
    /// `[`.
    OpenBracket,
    /// `]`.
    CloseBracket,
    /// Numbering in front of a list item: numerals, `.` and spaces.
    Numbering,
    /// Tag delimiters in free-form model output: `,`, newline and `;`.
    TagDelimiter,
    /// Sentence terminators: `.`, `!` and `?`.
    Terminator,
}

/// The characters of a class.
pub open spec fn class_pred(k: CharClass) -> spec_fn(char) -> bool {
    match k {
        CharClass::WhiteSpace => white_space(),
        CharClass::Bullet => |c: char| c == '-' || c == '*' || c == '\u{2022}',
        CharClass::Numeric => |c: char| char_numeric(c),
        CharClass::ListPunct => |c: char| c == '.' || c == ')' || c == ':',
        CharClass::NotAlphanumeric => |c: char| !char_alphanumeric(c),
        CharClass::DoubleQuote => |c: char| c == '"',
        CharClass::SingleQuote => |c: char| c == '\'',
        CharClass::OpenBracket => |c: char| c == '[',
        CharClass::CloseBracket => |c: char| c == ']',
        CharClass::Numbering => |c: char| char_numeric(c) || c == '.' || c == ' ',
        CharClass::TagDelimiter => |c: char| c == ',' || c == '\n' || c == ';',
        CharClass::Terminator => |c: char| c == '.' || c == '!' || c == '?',
    }
}

/// Whether `c` belongs to class `k`.
pub fn class_has(k: CharClass, c: char) -> (r: bool)
    ensures
        r == class_pred(k)(c),
{
    match k {
        CharClass::WhiteSpace => char_is_whitespace(c),
        CharClass::Bullet => c == '-' || c == '*' || c == '\u{2022}',
        CharClass::Numeric => is_numeric(c),
        CharClass::ListPunct => c == '.' || c == ')' || c == ':',
        CharClass::NotAlphanumeric => !is_alphanumeric(c),
        CharClass::DoubleQuote => c == '"',
        CharClass::SingleQuote => c == '\'',
        CharClass::OpenBracket => c == '[',
        CharClass::CloseBracket => c == ']',
        CharClass::Numbering => is_numeric(c) || c == '.' || c == ' ',
        CharClass::TagDelimiter => c == ',' || c == '\n' || c == ';',
        CharClass::Terminator => c == '.' || c == '!' || c == '?',
    }
}

/// `str::trim_matches`: no leading or trailing characters satisfying `p`.
pub open spec fn trim_both(s: Seq<char>, p: spec_fn(char) -> bool) -> Seq<char> {
    trim_end(trim_start(s, p), p)
}

/// `str::split` on a set of delimiter characters: always at least one piece.
pub open spec fn split_by(s: Seq<char>, p: spec_fn(char) -> bool) -> Seq<Seq<char>>
    decreases s.len(),
{
    if s.len() == 0 {
        seq![seq![]]
    } else {
        let q = split_by(s.drop_last(), p);
        let c = s.last();
        if p(c) {
            q.push(seq![])
        } else {
            q.update(q.len() - 1, q.last().push(c))
        }
    }
}

/// A line without the `\r` of a `\r\n` ending.
pub open spec fn strip_cr(l: Seq<char>) -> Seq<char> {
    if l.len() > 0 && l.last() == '\r' {
        l.drop_last()
    } else {
        l
    }
}

/// `str::lines`: split at `\n`, a `\r` before the `\n` dropped, and no
/// empty last line after a final line ending.
pub open spec fn lines(s: Seq<char>) -> Seq<Seq<char>> {
    let p = split_on(s, '\n');
    let ended = p.take(p.len() - 1).map_values(|l: Seq<char>| strip_cr(l));
    if p.last().len() == 0 {
        ended
    } else {
        ended.push(p.last())
    }
}

/// `str::split` never yields an empty list of pieces.
pub proof fn lemma_split_on_nonempty(s: Seq<char>, d: char)
    ensures
        split_on(s, d).len() >= 1,
    decreases s.len(),
{
    if s.len() > 0 {
        lemma_split_on_nonempty(s.drop_last(), d);
    }
}

/// `str::trim_start_matches` for a character class.
pub fn trim_start_class(v: &Vec<char>, k: CharClass) -> (r: Vec<char>)
    ensures
        r@ == trim_start(v@, class_pred(k)),
{
    let ghost p = class_pred(k);
    let mut i: usize = 0;
    assert(v@.skip(0) =~= v@);
    while i < v.len() && class_has(k, v[i])
        invariant
            i <= v.len(),
            p == class_pred(k),
            trim_start(v@, p) == trim_start(v@.skip(i as int), p),
        decreases v.len() - i,
    {
        assert(v@.skip(i as int).drop_first() =~= v@.skip(i + 1));
        assert(v@.skip(i as int)[0] == v@[i as int]);
        i += 1;
    }
    assert(v@.skip(i as int) =~= v@.subrange(i as int, v.len() as int));
    slice_chars(v, i, v.len())
}

/// `str::trim_end_matches` for a character class.
pub fn trim_end_class(v: &Vec<char>, k: CharClass) -> (r: Vec<char>)
    ensures
        r@ == trim_end(v@, class_pred(k)),
{
    let ghost p = class_pred(k);
    let mut j: usize = v.len();
    assert(v@.subrange(0, v.len() as int) =~= v@);
    while j > 0 && class_has(k, v[j - 1])
        invariant
            j <= v.len(),
            p == class_pred(k),
            trim_end(v@, p) == trim_end(v@.subrange(0, j as int), p),
        decreases j,
    {
        assert(v@.subrange(0, j as int).drop_last() =~= v@.subrange(0, j - 1));
        assert(v@.subrange(0, j as int).last() == v@[j - 1]);
        j -= 1;
    }
    slice_chars(v, 0, j)
}

/// `str::trim_matches` for a character class.
pub fn trim_class(v: &Vec<char>, k: CharClass) -> (r: Vec<char>)
    ensures
        r@ == trim_both(v@, class_pred(k)),
{
    let a = trim_start_class(v, k);
    trim_end_class(&a, k)
}

/// `str::split` on the characters of a class.
pub fn split_class(v: &Vec<char>, k: CharClass) -> (r: Vec<Vec<char>>)
    ensures
        char_views(r@) == split_by(v@, class_pred(k)),
{
    let ghost p = class_pred(k);
    let mut r: Vec<Vec<char>> = Vec::new();
    let mut cur: Vec<char> = Vec::new();
    let mut i: usize = 0;
    assert(v@.take(0) =~= Seq::<char>::empty());
    assert(char_views(r@).push(cur@) =~= seq![Seq::<char>::empty()]);
    while i < v.len()
        invariant
            i <= v.len(),
            p == class_pred(k),
            char_views(r@).push(cur@) == split_by(v@.take(i as int), p),
        decreases v.len() - i,
    {
        let c = v[i];
        assert(v@.take(i + 1).drop_last() =~= v@.take(i as int));
        assert(v@.take(i + 1).last() == c);
        let ghost before = char_views(r@).push(cur@);
        if class_has(k, c) {
            let done = cur;
            r.push(done);
            cur = Vec::new();
            assert(char_views(r@).push(cur@) =~= before.push(seq![]));
        } else {
            cur.push(c);
            assert(char_views(r@).push(cur@) =~= before.update(
                before.len() - 1,
                before.last().push(c),
            ));
        }
        i += 1;
    }
    let ghost before = char_views(r@).push(cur@);
    r.push(cur);
    assert(char_views(r@) =~= before);
    assert(v@.take(v.len() as int) =~= v@);
    r
}

/// `str::lines` on a character vector.
pub fn lines_of(v: &Vec<char>) -> (r: Vec<Vec<char>>)
    ensures
        char_views(r@) == lines(v@),
{
    let pieces = split_chars(v, '\n');
    proof {
        lemma_split_on_nonempty(v@, '\n');
    }
    let ghost ps = char_views(pieces@);
    let n = pieces.len();
    let mut r: Vec<Vec<char>> = Vec::new();
    let mut i: usize = 0;
    while i + 1 < n
        invariant
            n == pieces.len(),
            n >= 1,
            i + 1 <= n,
            ps == char_views(pieces@),
            char_views(r@) == ps.take(i as int).map_values(|l: Seq<char>| strip_cr(l)),
        decreases n - i,
    {
        let l = &pieces[i];
        let line = if l.len() > 0 && l[l.len() - 1] == '\r' {
            slice_chars(l, 0, l.len() - 1)
        } else {
            slice_chars(l, 0, l.len())
        };
        assert(l@.subrange(0, l.len() as int) =~= l@);
        assert(l@.drop_last() =~= l@.subrange(0, l.len() - 1));
        let ghost before = char_views(r@);
        r.push(line);
        assert(char_views(r@) =~= before.push(strip_cr(ps[i as int])));
        assert(char_views(r@) =~= ps.take(i + 1).map_values(|l: Seq<char>| strip_cr(l)));
        i += 1;
    }
    let last = &pieces[n - 1];
    assert(ps.last() == last@);
    if last.len() > 0 {
        let ghost before = char_views(r@);
        let tail = slice_chars(last, 0, last.len());
        assert(last@.subrange(0, last.len() as int) =~= last@);
        r.push(tail);
        assert(char_views(r@) =~= before.push(ps.last()));
    }
    r
}

} // verus!

verus! {

/// `str::split_whitespace` (and its generalisation to any class): the
/// maximal runs of characters outside the class.
pub fn words_of(v: &Vec<char>, k: CharClass) -> (r: Vec<Vec<char>>)
    ensures
        char_views(r@) == words(v@, class_pred(k)),
{
    let ghost p = class_pred(k);
    let mut r: Vec<Vec<char>> = Vec::new();
    let mut cur: Vec<char> = Vec::new();
    let mut i: usize = 0;
    assert(v@.take(0) =~= Seq::<char>::empty());
    while i < v.len()
        invariant
            i <= v.len(),
            p == class_pred(k),
            cur.len() > 0 ==> words(v@.take(i as int), p) == char_views(r@).push(cur@),
            cur.len() == 0 ==> words(v@.take(i as int), p) == char_views(r@),
            (cur.len() > 0) == (i > 0 && !p(v@[i - 1])),
        decreases v.len() - i,
    {
        let c = v[i];
        assert(v@.take(i + 1).drop_last() =~= v@.take(i as int));
        assert(v@.take(i + 1).last() == c);
        if i > 0 {
            assert(v@.take(i as int).last() == v@[i - 1]);
        }
        let ghost before_r = char_views(r@);
        if class_has(k, c) {
            if cur.len() > 0 {
                let done = cur;
                r.push(done);
                assert(char_views(r@) =~= before_r.push(done@));
                cur = Vec::new();
            }
        } else {
            let ghost before_cur = cur@;
            cur.push(c);
            proof {
                if before_cur.len() > 0 {
                    assert(before_r.push(before_cur).update(
                        before_r.len() as int,
                        before_cur.push(c),
                    ) =~= before_r.push(cur@));
                } else {
                    assert(cur@ =~= seq![c]);
                }
            }
        }
        i += 1;
    }
    assert(v@.take(v.len() as int) =~= v@);
    if cur.len() > 0 {
        let ghost before_r = char_views(r@);
        r.push(cur);
        assert(char_views(r@) =~= before_r.push(r@.last()@));
    }
    r
}

/// `str::split` on a class never yields an empty list of pieces.
pub proof fn lemma_split_by_nonempty(s: Seq<char>, p: spec_fn(char) -> bool)
    ensures
        split_by(s, p).len() >= 1,
    decreases s.len(),
{
    if s.len() > 0 {
        lemma_split_by_nonempty(s.drop_last(), p);
    }
}

/// At most the first `n` elements of `s`.
pub open spec fn first_n<A>(s: Seq<A>, n: nat) -> Seq<A> {
    if s.len() > n {
        s.take(n as int)
    } else {
        s
    }
}

/// Whether `p` occurs in `s` as a contiguous piece.
pub open spec fn has_piece(s: Seq<char>, p: Seq<char>) -> bool {
    exists|i: int| 0 <= i && i + p.len() <= s.len() && #[trigger] s.subrange(i, i + p.len()) == p
}

/// `str::contains` for a text pattern.
pub fn contains_chars(s: &Vec<char>, p: &Vec<char>) -> (r: bool)
    ensures
        r == has_piece(s@, p@),
{
    if p.len() > s.len() {
        return false;
    }
    let mut i: usize = 0;
    while i <= s.len() - p.len()
        invariant
            p.len() <= s.len(),
            i <= s.len() - p.len() + 1,
            forall|k: int| 0 <= k < i ==> #[trigger] s@.subrange(k, k + p.len()) != p@,
        decreases s.len() - i,
    {
        let mut j: usize = 0;
        while j < p.len() && s[i + j] == p[j]
            invariant
                j <= p.len(),
                i + p.len() <= s.len(),
                forall|m: int| 0 <= m < j ==> s@[i + m] == p@[m],
            decreases p.len() - j,
        {
            j += 1;
        }
        if j == p.len() {
            assert(s@.subrange(i as int, i + p.len()) =~= p@);
            return true;
        }
        assert(s@.subrange(i as int, i + p.len())[j as int] != p@[j as int]);
        i += 1;
    }
    proof {
        assert forall|k: int| 0 <= k && k + p.len() <= s.len() implies #[trigger] s@.subrange(
            k,
            k + p.len(),
        ) != p@ by {
            assert(k < i);
        }
    }
    false
}

} // verus!

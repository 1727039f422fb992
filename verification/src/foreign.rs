//! Contracts for the functions of other crates (and of `std`, where vstd
//! gives none) that the verified code calls. Nothing here is proved: each
//! item states what the called function's source or documentation shows.
use crate::text::{collapse_runs, join, string_views, white_space};
use linked_hash_set::LinkedHashSet;
use vstd::prelude::*;

verus! {

/// `String: FromIterator<char>` (std): the string made of exactly these
/// characters, in order.
#[verifier::external_body]
pub(crate) fn string_from_chars(v: &Vec<char>) -> (r: String)
    ensures
        r@ == v@,
{
    v.iter().collect()
}

/// `PartialEq for str` (std): two string slices are equal exactly when they
/// hold the same characters.
#[verifier::external_body]
pub(crate) fn str_eq(a: &str, b: &str) -> (r: bool)
    ensures
        r == (a@ == b@),
{
    a == b
}

/// The characters of an optional string.
pub open spec fn opt_chars(o: Option<String>) -> Option<Seq<char>> {
    match o {
        Some(s) => Some(s@),
        None => None,
    }
}

/// `c == ','` as a predicate value.
pub open spec fn comma() -> spec_fn(char) -> bool {
    |c: char| c == ','
}

/// What `regex::Regex::new(pattern)` followed by `Regex::replace_all(haystack,
/// rep)` yields, `None` when the pattern does not compile.
pub uninterp spec fn regex_replace_all_result(
    pattern: Seq<char>,
    haystack: Seq<char>,
    rep: Seq<char>,
) -> Option<Seq<char>>;

/// `regex::Regex::new` then `Regex::replace_all`. The result is named; for
/// the two patterns the library uses, `,+` and `\s+`, the regex crate's
/// documentation fixes it: leftmost-first matching of a greedy `+` finds
/// every maximal run of commas (resp. of `White_Space` characters, which is
/// what `\s` matches in Unicode mode), and each run is replaced by `rep`,
/// taken literally when it holds no `$`.
#[verifier::external_body]
pub(crate) fn regex_replace_all(pattern: &str, haystack: &str, rep: &str) -> (r: Option<String>)
    ensures
        opt_chars(r) == regex_replace_all_result(pattern@, haystack@, rep@),
        pattern@ == seq![',', '+'] && !rep@.contains('$') ==> r is Some && r->0@
            == collapse_runs(haystack@, comma(), rep@),
        pattern@ == seq!['\\', 's', '+'] && !rep@.contains('$') ==> r is Some && r->0@
            == collapse_runs(haystack@, white_space(), rep@),
{
    regex::Regex::new(pattern).ok().map(|re| re.replace_all(haystack, rep).into_owned())
}

/// What `serde_json::from_str::<Vec<String>>` makes of a text: the strings
/// of a JSON array of strings, `None` for any other text.
pub uninterp spec fn json_string_list(text: Seq<char>) -> Option<Seq<Seq<char>>>;

/// `serde_json::from_str::<Vec<String>>`, failure as `None`. The result is
/// named: it is a function of the text alone.
#[verifier::external_body]
pub(crate) fn parse_json_string_list(text: &str) -> (r: Option<Vec<String>>)
    ensures
        match r {
            Some(v) => json_string_list(text@) == Some(string_views(v@)),
            None => json_string_list(text@) is None,
        },
{
    serde_json::from_str::<Vec<String>>(text).ok()
}

/// A hexadecimal digit, lower case.
pub open spec fn hex_digit(n: nat) -> char {
    if n < 10 {
        (48 + n) as char
    } else {
        (87 + n) as char
    }
}

/// How serde_json writes one character inside a string: a quote, a
/// backslash and the control characters escaped (the short forms `\b`,
/// `\t`, `\n`, `\f`, `\r` where there is one, else `\u00XX` in lower-case
/// hexadecimal), every other character as it is.
pub open spec fn json_escape(c: char) -> Seq<char> {
    if c == '"' {
        seq!['\\', '"']
    } else if c == '\\' {
        seq!['\\', '\\']
    } else if c == '\u{8}' {
        seq!['\\', 'b']
    } else if c == '\t' {
        seq!['\\', 't']
    } else if c == '\n' {
        seq!['\\', 'n']
    } else if c == '\u{c}' {
        seq!['\\', 'f']
    } else if c == '\r' {
        seq!['\\', 'r']
    } else if (c as u32) < 32 {
        seq!['\\', 'u', '0', '0', hex_digit((c as u32 / 16) as nat), hex_digit((c as u32 % 16) as nat)]
    } else {
        seq![c]
    }
}

/// The characters of a text, each as serde_json writes it in a string.
pub open spec fn json_escaped(s: Seq<char>) -> Seq<char>
    decreases s.len(),
{
    if s.len() == 0 {
        seq![]
    } else {
        json_escaped(s.drop_last()) + json_escape(s.last())
    }
}

/// The JSON text `serde_json::to_string` writes for a list of strings: each
/// string quoted and escaped, separated by commas, in brackets, with no
/// white space.
pub open spec fn json_string_array(items: Seq<Seq<char>>) -> Seq<char> {
    seq!['['] + join(items.map_values(|t: Seq<char>| json_string(t)), seq![',']) + seq![']']
}

/// `serde_json::to_string` on a list of strings (which cannot fail for
/// strings): the compact JSON array of the strings, which
/// `serde_json::from_str::<Vec<String>>` reads back as the same strings.
#[verifier::external_body]
pub(crate) fn to_json_string_array(items: &Vec<String>) -> (r: String)
    ensures
        r@ == json_string_array(string_views(items@)),
        json_string_list(r@) == Some(string_views(items@)),
{
    serde_json::to_string(items).unwrap_or_default()
}

/// A string as serde_json writes it: quoted, escaped.
pub open spec fn json_string(s: Seq<char>) -> Seq<char> {
    seq!['"'] + json_escaped(s) + seq!['"']
}

/// `serde_json::to_string` on a string (which cannot fail): the string
/// quoted, with the escapes of `json_escape`.
#[verifier::external_body]
pub(crate) fn to_json_string(s: &str) -> (r: String)
    ensures
        r@ == json_string(s@),
{
    serde_json::to_string(s).unwrap_or_default()
}

/// What `semver::Version::parse` reads from a text: major, minor, patch and
/// pre-release; `None` when the text is not a version.
pub uninterp spec fn semver_parts(text: Seq<char>) -> Option<(u64, u64, u64, Seq<char>)>;

/// `semver::Version::parse`, giving the major, minor and patch numbers and
/// the pre-release text. The result is named: it is a function of the text
/// alone.
#[verifier::external_body]
pub(crate) fn parse_semver(text: &str) -> (r: Option<(u64, u64, u64, String)>)
    ensures
        match r {
            Some(p) => semver_parts(text@) == Some((p.0, p.1, p.2, p.3@)),
            None => semver_parts(text@) is None,
        },
{
    semver::Version::parse(text).ok().map(|v| (v.major, v.minor, v.patch, v.pre.as_str().to_string()))
}

/// Declares `linked_hash_set::LinkedHashSet` to Verus.
#[verifier::external_type_specification]
#[verifier::external_body]
#[verifier::reject_recursive_types(T)]
#[verifier::reject_recursive_types(S)]
pub struct ExLinkedHashSet<T, S>(LinkedHashSet<T, S>);

/// The strings a `LinkedHashSet<String>` holds, in its iteration order.
pub uninterp spec fn linked_set_items(s: LinkedHashSet<String>) -> Seq<Seq<char>>;

/// `LinkedHashSet::new`: an empty set.
#[verifier::external_body]
pub(crate) fn linked_set_new() -> (r: LinkedHashSet<String>)
    ensures
        linked_set_items(r) == Seq::<Seq<char>>::empty(),
{
    LinkedHashSet::new()
}

/// `LinkedHashSet::insert_if_absent`: an absent value is added at the end
/// of the iteration order; a present one leaves the set as it was (the crate
/// documents that the order is then unaffected). The result tells whether
/// the value was new.
#[verifier::external_body]
pub(crate) fn linked_set_insert_if_absent(s: &mut LinkedHashSet<String>, v: String) -> (r: bool)
    ensures
        linked_set_items(*old(s)).contains(v@) ==> linked_set_items(*final(s)) == linked_set_items(
            *old(s),
        ),
        !linked_set_items(*old(s)).contains(v@) ==> linked_set_items(*final(s)) == linked_set_items(
            *old(s),
        ).push(v@),
        r == !linked_set_items(*old(s)).contains(v@),
{
    s.insert_if_absent(v)
}

/// `LinkedHashSet::iter`, each item cloned: the items in insertion order.
#[verifier::external_body]
pub(crate) fn linked_set_items_vec(s: &LinkedHashSet<String>) -> (r: Vec<String>)
    ensures
        string_views(r@) == linked_set_items(*s),
{
    s.iter().cloned().collect()
}

} // verus!

verus! {

/// Whether `c` is alphanumeric, as `char::is_alphanumeric` (std) decides
/// from the Unicode tables.
pub uninterp spec fn char_alphanumeric(c: char) -> bool;

/// Whether `c` is numeric, as `char::is_numeric` (std) decides.
pub uninterp spec fn char_numeric(c: char) -> bool;

/// Whether `c` is upper case, as `char::is_uppercase` (std) decides.
pub uninterp spec fn char_uppercase(c: char) -> bool;

/// What `str::to_lowercase` (std) makes of a text.
pub uninterp spec fn lowercase_text(s: Seq<char>) -> Seq<char>;

/// Whether `c` is an ASCII letter or digit.
pub open spec fn ascii_alphanumeric(c: char) -> bool {
    ('0' <= c <= '9') || ('a' <= c <= 'z') || ('A' <= c <= 'Z')
}

/// `c` lower-cased when it is an ASCII capital, else `c`.
pub open spec fn ascii_lower(c: char) -> char {
    if 'A' <= c <= 'Z' {
        ((c as u32) + 32) as char
    } else {
        c
    }
}

/// `char::is_alphanumeric` (std): named; on ASCII the documentation fixes it
/// to the letters and digits.
#[verifier::external_body]
pub(crate) fn is_alphanumeric(c: char) -> (r: bool)
    ensures
        r == char_alphanumeric(c),
        (c as u32) < 128 ==> r == ascii_alphanumeric(c),
{
    c.is_alphanumeric()
}

/// `char::is_numeric` (std): named; on ASCII only the digits are numeric.
#[verifier::external_body]
pub(crate) fn is_numeric(c: char) -> (r: bool)
    ensures
        r == char_numeric(c),
        (c as u32) < 128 ==> r == ('0' <= c <= '9'),
{
    c.is_numeric()
}

/// `char::is_uppercase` (std): named; on ASCII only `A`..=`Z` are upper case.
#[verifier::external_body]
pub(crate) fn is_uppercase(c: char) -> (r: bool)
    ensures
        r == char_uppercase(c),
        (c as u32) < 128 ==> r == ('A' <= c <= 'Z'),
{
    c.is_uppercase()
}

/// `str::to_lowercase` (std): named; an all-ASCII text is lowered letter by
/// letter.
#[verifier::external_body]
pub(crate) fn to_lowercase(s: &str) -> (r: String)
    ensures
        r@ == lowercase_text(s@),
        (forall|i: int| 0 <= i < s@.len() ==> (s@[i] as u32) < 128) ==> r@ == s@.map_values(
            |c: char| ascii_lower(c),
        ),
{
    s.to_lowercase()
}

} // verus!

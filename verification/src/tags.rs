//! Tag normalisation and merging.
use crate::foreign::{
    comma, linked_set_insert_if_absent, linked_set_items, linked_set_items_vec, linked_set_new,
    regex_replace_all, string_from_chars,
};
use crate::text::{
    char_views, chars_of, collapse_runs, join, join_strings, lemma_split_collapse,
    lemma_trim_end_shape, lemma_trim_start_shape, lemma_words_collapse, lemma_words_nonempty,
    lemma_words_trim_end, lemma_words_trim_start, split_chars, split_on, tag_separator, trim_chars,
    trim_start, trim_ws, white_space, words,
};
use crate::actions::{distinct_in_order, lemma_distinct_contains};
use crate::foreign::{
    json_string_array, json_string_list, lowercase_text, parse_json_string_list,
    to_json_string_array, to_lowercase,
};
use crate::sync::contains_string;
use crate::text::{is_tag_separator, lemma_words_push_sep};
use crate::text::{class_pred, string_views, trim_class, CharClass, trim_both};
use vstd::prelude::*;

verus! {

/// Collapsing comma runs into a space leaves no comma behind.
proof fn lemma_collapse_commas_no_comma(s: Seq<char>)
    ensures
        !collapse_runs(s, comma(), seq![' ']).contains(','),
    decreases s.len(),
{
    if s.len() > 0 {
        let t = s.drop_last();
        lemma_collapse_commas_no_comma(t);
        let x = collapse_runs(t, comma(), seq![' ']);
        assert(!(x + seq![' ']).contains(',')) by {
            if (x + seq![' ']).contains(',') {
                let i = choose|i: int| 0 <= i < x.len() + 1 && (x + seq![' '])[i] == ',';
                if i < x.len() {
                    assert(x[i] == ',');
                }
            }
        }
        assert(!x.push(s.last()).contains(',') || s.last() == ',') by {
            if x.push(s.last()).contains(',') && s.last() != ',' {
                let i = choose|i: int| 0 <= i < x.len() + 1 && x.push(s.last())[i] == ',';
                assert(x[i] == ',');
            }
        }
    }
}

/// A subrange holds no character its sequence does not hold.
proof fn lemma_subrange_contains(s: Seq<char>, lo: int, hi: int, c: char)
    requires
        0 <= lo <= hi <= s.len(),
        s.subrange(lo, hi).contains(c),
    ensures
        s.contains(c),
{
    let i = choose|i: int| 0 <= i < hi - lo && s.subrange(lo, hi)[i] == c;
    assert(s[lo + i] == c);
}

/// What the normalisation pipeline of `make_tags` splits into: the words of
/// the input, or a single empty piece when it has none.
proof fn lemma_tag_pieces(input: Seq<char>, u: Seq<char>, v: Seq<char>, x: Seq<char>)
    requires
        u == collapse_runs(input, comma(), seq![' ']),
        v == trim_ws(u),
        x == collapse_runs(v, white_space(), seq![',']),
    ensures
        words(input, tag_separator()).len() == 0 ==> split_on(x, ',') == seq![Seq::<char>::empty()],
        words(input, tag_separator()).len() > 0 ==> split_on(x, ',') == words(
            input,
            tag_separator(),
        ),
{
    let ws = white_space();
    assert forall|c: char| #[trigger] tag_separator()(c) == (ws(c) || comma()(c)) by {}
    lemma_words_collapse(input, comma(), ' ', ws, tag_separator());
    let ts = trim_start(u, ws);
    lemma_words_trim_start(u, ws);
    lemma_words_trim_end(ts, ws);
    lemma_trim_start_shape(u, ws);
    lemma_trim_end_shape(ts, ws);
    lemma_collapse_commas_no_comma(input);
    let k1 = choose|k: int| 0 <= k <= u.len() && ts == u.skip(k);
    let k2 = choose|k: int| 0 <= k <= ts.len() && v == ts.take(k);
    assert(v =~= u.subrange(k1, k1 + k2));
    if v.contains(',') {
        lemma_subrange_contains(u, k1, k1 + k2, ',');
    }
    if v.len() > 0 {
        assert(v[0] == ts[0]);
    }
    lemma_split_collapse(v, ws, ',');
    if v.len() > 0 {
        lemma_words_nonempty(v, ws);
    }
}

/// Normalises a raw tags string: commas and white space both separate tags,
/// each distinct tag is kept once, where it first occurs, and the tags are
/// joined with single commas (no trailing comma).
pub fn make_tags(input: &str) -> (r: String)
    ensures
        r@ == join(distinct_in_order(words(input@, tag_separator())), seq![',']),
{
    let commas = ",+";
    let space = " ";
    let runs = "\\s+";
    let comma_str = ",";
    proof {
        reveal_strlit(",+");
        reveal_strlit(" ");
        reveal_strlit("\\s+");
        reveal_strlit(",");
        assert(commas@ =~= seq![',', '+']);
        assert(runs@ =~= seq!['\\', 's', '+']);
        assert(space@ =~= seq![' ']);
        assert(comma_str@ =~= seq![',']);
        assert(!space@.contains('$'));
        assert(!comma_str@.contains('$'));
    }
    let s1 = regex_replace_all(commas, input, space).unwrap();
    let v = trim_chars(&chars_of(s1.as_str()));
    let vs = string_from_chars(&v);
    let s2 = regex_replace_all(runs, vs.as_str(), comma_str).unwrap();
    let pieces = split_chars(&chars_of(s2.as_str()), ',');
    proof {
        lemma_tag_pieces(input@, s1@, v@, s2@);
    }
    let ghost ps = char_views(pieces@);
    let mut set = linked_set_new();
    let mut i: usize = 0;
    assert(ps.take(0) =~= Seq::<Seq<char>>::empty());
    while i < pieces.len()
        invariant
            i <= pieces.len(),
            ps == char_views(pieces@),
            linked_set_items(set) == distinct_in_order(ps.take(i as int)),
        decreases pieces.len() - i,
    {
        let piece = string_from_chars(&pieces[i]);
        linked_set_insert_if_absent(&mut set, piece);
        proof {
            assert(ps.take(i + 1).drop_last() =~= ps.take(i as int));
            assert(ps.take(i + 1).last() == pieces@[i as int]@);
        }
        i += 1;
    }
    assert(ps.take(pieces.len() as int) =~= ps);
    let items = linked_set_items_vec(&set);
    let r = join_strings(&items, comma_str);
    proof {
        let w = words(input@, tag_separator());
        if w.len() == 0 {
            let e = Seq::<char>::empty();
            assert(seq![e].drop_last() =~= Seq::<Seq<char>>::empty());
            assert(distinct_in_order(Seq::<Seq<char>>::empty()) =~= Seq::<Seq<char>>::empty());
            assert(!Seq::<Seq<char>>::empty().contains(e));
            assert(distinct_in_order(seq![e]) =~= seq![e]);
        }
    }
    r
}

/// The AI tags stored for a note, read leniently: a JSON array of strings,
/// or (the older format) comma-separated tags, trimmed and stripped of
/// double quotes, empty ones dropped; lower-cased either way.
pub open spec fn ai_tag_list(s: Seq<char>) -> Seq<Seq<char>> {
    match json_string_list(s) {
        Some(tags) => tags.map_values(|t: Seq<char>| lowercase_text(t)),
        None => split_on(s, ',').map_values(
            |t: Seq<char>| lowercase_text(trim_both(trim_ws(t), class_pred(CharClass::DoubleQuote))),
        ).filter(|t: Seq<char>| t.len() > 0),
    }
}

/// The union of two AI tag lists, each tag once: those of the first list,
/// then the new ones of the second.
pub open spec fn merged_tags(existing: Seq<char>, incoming: Seq<char>) -> Seq<Seq<char>> {
    distinct_in_order(ai_tag_list(existing) + ai_tag_list(incoming))
}

fn read_ai_tags(s: &str) -> (r: Vec<String>)
    ensures
        string_views(r@) == ai_tag_list(s@),
{
    match parse_json_string_list(s) {
        Some(tags) => {
            let ghost tv = string_views(tags@);
            let mut r: Vec<String> = Vec::new();
            let mut i: usize = 0;
            while i < tags.len()
                invariant
                    i <= tags.len(),
                    tv == string_views(tags@),
                    string_views(r@) == tv.take(i as int).map_values(|t: Seq<char>| lowercase_text(t)),
                decreases tags.len() - i,
            {
                let ghost before = string_views(r@);
                r.push(to_lowercase(tags[i].as_str()));
                assert(string_views(r@) =~= before.push(lowercase_text(tv[i as int])));
                assert(tv.take(i + 1) =~= tv.take(i as int).push(tv[i as int]));
                i += 1;
            }
            assert(tv.take(tags.len() as int) =~= tv);
            r
        },
        None => {
            let pieces = split_chars(&chars_of(s), ',');
            let ghost ps = char_views(pieces@);
            let ghost clean = |t: Seq<char>| lowercase_text(trim_both(trim_ws(t), class_pred(CharClass::DoubleQuote)));
            let ghost nonempty = |t: Seq<char>| t.len() > 0;
            let mut r: Vec<String> = Vec::new();
            let mut i: usize = 0;
            assert(ps.take(0).map_values(clean).filter(nonempty) =~= Seq::<Seq<char>>::empty());
            while i < pieces.len()
                invariant
                    i <= pieces.len(),
                    ps == char_views(pieces@),
                    clean == (|t: Seq<char>| lowercase_text(trim_both(trim_ws(t), class_pred(CharClass::DoubleQuote)))),
                    nonempty == (|t: Seq<char>| t.len() > 0),
                    string_views(r@) == ps.take(i as int).map_values(clean).filter(nonempty),
                decreases pieces.len() - i,
            {
                let t = trim_class(&trim_chars(&pieces[i]), CharClass::DoubleQuote);
                let lower = to_lowercase(string_from_chars(&t).as_str());
                assert(ps.take(i + 1).map_values(clean).drop_last() =~= ps.take(i as int).map_values(clean));
                assert(ps.take(i + 1).map_values(clean).last() == lower@);
                reveal_with_fuel(Seq::<_>::filter, 1);
                if lower.as_str().is_empty() {
                } else {
                    let ghost before = string_views(r@);
                    r.push(lower);
                    assert(string_views(r@) =~= before.push(r@.last()@));
                }
                i += 1;
            }
            assert(ps.take(pieces.len() as int) =~= ps);
            r
        },
    }
}

fn add_distinct(merged: &mut Vec<String>, items: &Vec<String>, base: Ghost<Seq<Seq<char>>>)
    requires
        string_views(old(merged)@) == distinct_in_order(base@),
    ensures
        string_views(final(merged)@) == distinct_in_order(base@ + string_views(items@)),
{
    let ghost iv = string_views(items@);
    let mut i: usize = 0;
    assert(base@ + iv.take(0) =~= base@);
    while i < items.len()
        invariant
            i <= items.len(),
            iv == string_views(items@),
            string_views(merged@) == distinct_in_order(base@ + iv.take(i as int)),
        decreases items.len() - i,
    {
        let item = &items[i];
        let ghost pre = base@ + iv.take(i as int);
        assert((base@ + iv.take(i + 1)).drop_last() =~= pre);
        assert((base@ + iv.take(i + 1)).last() == item@);
        proof {
            lemma_distinct_contains(pre, item@);
        }
        if !contains_string(merged, item) {
            let ghost before = string_views(merged@);
            merged.push(item.clone());
            assert(string_views(merged@) =~= before.push(item@));
        }
        i += 1;
    }
    assert(iv.take(items.len() as int) =~= iv);
}

/// Merge AI tags by unioning them (for sync). The stored form is a JSON
/// array, which reads back as the merged tags.
pub fn merge_ai_tags(existing: &str, incoming: &str) -> (r: String)
    ensures
        r@ == json_string_array(merged_tags(existing@, incoming@)),
        json_string_list(r@) == Some(merged_tags(existing@, incoming@)),
{
    let a = read_ai_tags(existing);
    let b = read_ai_tags(incoming);
    let mut merged: Vec<String> = Vec::new();
    assert(string_views(merged@) =~= distinct_in_order(Seq::<Seq<char>>::empty()));
    add_distinct(&mut merged, &a, Ghost(Seq::<Seq<char>>::empty()));
    assert(Seq::<Seq<char>>::empty() + string_views(a@) =~= string_views(a@));
    add_distinct(&mut merged, &b, Ghost(string_views(a@)));
    to_json_string_array(&merged)
}

/// The merged tags are exactly the tags of either side, each once.
pub proof fn law_merge_is_union(existing: Seq<char>, incoming: Seq<char>)
    ensures
        merged_tags(existing, incoming).to_set() == ai_tag_list(existing).to_set() + ai_tag_list(
            incoming,
        ).to_set(),
        merged_tags(existing, incoming).no_duplicates(),
{
    let a = ai_tag_list(existing);
    let b = ai_tag_list(incoming);
    let m = merged_tags(existing, incoming);
    assert forall|k: Seq<char>| #[trigger] m.to_set().contains(k) == (a.to_set() + b.to_set()).contains(
        k,
    ) by {
        lemma_distinct_contains(a + b, k);
        if (a + b).contains(k) {
            let i = choose|i: int| 0 <= i < (a + b).len() && (a + b)[i] == k;
            if i < a.len() {
                assert(a[i] == k);
            } else {
                assert(b[i - a.len()] == k);
            }
        }
        if a.contains(k) {
            let i = choose|i: int| 0 <= i < a.len() && a[i] == k;
            assert((a + b)[i] == k);
        }
        if b.contains(k) {
            let i = choose|i: int| 0 <= i < b.len() && b[i] == k;
            assert((a + b)[a.len() + i] == k);
        }
    }
    assert(m.to_set() =~= a.to_set() + b.to_set());
    lemma_distinct_contains(a + b, seq![]);
}

/// The AI tags an inserted note keeps: none when it brings none; merged
/// with the stored ones when both have some.
pub fn resolve_ai_tags(incoming: Option<String>, existing: Option<String>) -> (r: Option<String>)
    ensures
        match incoming {
            None => r is None,
            Some(i) => match existing {
                Some(e) => r matches Some(x) && x@ == json_string_array(merged_tags(e@, i@)),
                None => r matches Some(x) && x@ == i@,
            },
        },
{
    match incoming {
        None => None,
        Some(i) => match existing {
            Some(e) => Some(merge_ai_tags(e.as_str(), i.as_str())),
            None => Some(i),
        },
    }
}

/// Every word is non-empty and holds no separator.
pub proof fn lemma_words_clean(s: Seq<char>, sep: spec_fn(char) -> bool)
    ensures
        forall|i: int| 0 <= i < words(s, sep).len() ==> #[trigger] words(s, sep)[i].len() > 0,
        forall|i: int, j: int|
            0 <= i < words(s, sep).len() && 0 <= j < words(s, sep)[i].len() ==> !sep(
                #[trigger] words(s, sep)[i][j],
            ),
    decreases s.len(),
{
    if s.len() > 0 {
        let t = s.drop_last();
        let c = s.last();
        lemma_words_clean(t, sep);
        let w = words(t, sep);
        if sep(c) {
        } else if t.len() > 0 && !sep(t.last()) {
            lemma_words_nonempty(t, sep);
            let u = w.update(w.len() - 1, w.last().push(c));
            assert forall|i: int, j: int| 0 <= i < u.len() && 0 <= j < u[i].len() implies !sep(
                #[trigger] u[i][j],
            ) by {
                if i < w.len() - 1 {
                    assert(u[i] == w[i]);
                } else if j < w.last().len() {
                    assert(u[i][j] == w[w.len() - 1][j]);
                }
            }
            assert forall|i: int| 0 <= i < u.len() implies #[trigger] u[i].len() > 0 by {
                if i < w.len() - 1 {
                    assert(u[i] == w[i]);
                }
            }
        } else {
            let u = w.push(seq![c]);
            assert forall|i: int, j: int| 0 <= i < u.len() && 0 <= j < u[i].len() implies !sep(
                #[trigger] u[i][j],
            ) by {
                if i < w.len() {
                    assert(u[i] == w[i]);
                }
            }
            assert forall|i: int| 0 <= i < u.len() implies #[trigger] u[i].len() > 0 by {
                if i < w.len() {
                    assert(u[i] == w[i]);
                }
            }
        }
    }
}

/// The distinct list keeps each element once, and only elements of the list.
proof fn lemma_distinct_in_order(ws: Seq<Seq<char>>)
    ensures
        distinct_in_order(ws).no_duplicates(),
        distinct_in_order(ws).to_set() == ws.to_set(),
        forall|i: int|
            0 <= i < distinct_in_order(ws).len() ==> ws.contains(#[trigger] distinct_in_order(ws)[i]),
{
    let d = distinct_in_order(ws);
    lemma_distinct_contains(ws, Seq::<char>::empty());
    assert forall|y: Seq<char>| #[trigger] d.to_set().contains(y) == ws.to_set().contains(y) by {
        lemma_distinct_contains(ws, y);
    }
    assert(d.to_set() =~= ws.to_set());
    assert forall|i: int| 0 <= i < d.len() implies ws.contains(#[trigger] d[i]) by {
        lemma_distinct_contains(ws, d[i]);
        assert(d.contains(d[i]));
    }
}

/// A list without duplicates is its own distinct list.
proof fn lemma_distinct_in_order_distinct(ws: Seq<Seq<char>>)
    requires
        ws.no_duplicates(),
    ensures
        distinct_in_order(ws) == ws,
    decreases ws.len(),
{
    if ws.len() > 0 {
        let t = ws.drop_last();
        let x = ws.last();
        assert(t.no_duplicates()) by {
            assert forall|a: int, b: int| 0 <= a < t.len() && 0 <= b < t.len() && a != b implies t[a]
                != t[b] by {
                assert(t[a] == ws[a] && t[b] == ws[b]);
            }
        }
        lemma_distinct_in_order_distinct(t);
        assert(!t.contains(x)) by {
            if t.contains(x) {
                let i = choose|i: int| 0 <= i < t.len() && t[i] == x;
                assert(ws[i] == ws[ws.len() - 1]);
            }
        }
        assert(t.push(x) =~= ws);
    }
}

/// The words of `a`, a separator and a clean non-empty `b` are those of
/// `a` followed by `b`.
proof fn lemma_words_append(a: Seq<char>, d: char, b: Seq<char>, sep: spec_fn(char) -> bool)
    requires
        sep(d),
        b.len() > 0,
        forall|j: int| 0 <= j < b.len() ==> !sep(#[trigger] b[j]),
    ensures
        words(a + seq![d] + b, sep) == words(a, sep).push(b),
    decreases b.len(),
{
    let s = a + seq![d] + b;
    let c = b.last();
    assert(!sep(b[b.len() - 1]));
    if b.len() == 1 {
        assert(s.drop_last() =~= a.push(d));
        assert(s.last() == c);
        lemma_words_push_sep(a, d, sep);
        assert(b =~= seq![c]);
    } else {
        let b1 = b.drop_last();
        assert forall|j: int| 0 <= j < b1.len() implies !sep(#[trigger] b1[j]) by {
            assert(b1[j] == b[j]);
        }
        assert(!sep(b[b.len() - 2]));
        lemma_words_append(a, d, b1, sep);
        assert(s.drop_last() =~= a + seq![d] + b1);
        assert((a + seq![d] + b1).last() == b1.last());
        assert(b1.push(c) =~= b);
        let w = words(a, sep).push(b1);
        assert(w.update(w.len() - 1, w.last().push(c)) =~= words(a, sep).push(b));
    }
}

/// A clean non-empty text is a single word.
proof fn lemma_words_single(b: Seq<char>, sep: spec_fn(char) -> bool)
    requires
        b.len() > 0,
        forall|j: int| 0 <= j < b.len() ==> !sep(#[trigger] b[j]),
    ensures
        words(b, sep) == seq![b],
    decreases b.len(),
{
    let c = b.last();
    assert(!sep(b[b.len() - 1]));
    if b.len() == 1 {
        reveal_with_fuel(words, 2);
        assert(b.drop_last() =~= Seq::<char>::empty());
        assert(b =~= seq![c]);
        assert(Seq::<Seq<char>>::empty().push(seq![c]) =~= seq![b]);
    } else {
        let b1 = b.drop_last();
        assert forall|j: int| 0 <= j < b1.len() implies !sep(#[trigger] b1[j]) by {
            assert(b1[j] == b[j]);
        }
        assert(!sep(b[b.len() - 2]));
        assert(b1.last() == b[b.len() - 2]);
        assert(b1.push(c) =~= b);
        lemma_words_single(b1, sep);
        assert(seq![b1].update(0, b1.push(c)) =~= seq![b]);
    }
}

/// Joining clean non-empty words with a separator gives them back.
proof fn lemma_words_join(ws: Seq<Seq<char>>, d: char, sep: spec_fn(char) -> bool)
    requires
        sep(d),
        forall|i: int| 0 <= i < ws.len() ==> #[trigger] ws[i].len() > 0,
        forall|i: int, j: int| 0 <= i < ws.len() && 0 <= j < ws[i].len() ==> !sep(#[trigger] ws[i][j]),
    ensures
        words(join(ws, seq![d]), sep) == ws,
    decreases ws.len(),
{
    if ws.len() == 0 {
    } else if ws.len() == 1 {
        lemma_words_single(ws[0], sep);
        assert(ws =~= seq![ws[0]]);
    } else {
        let t = ws.drop_last();
        assert forall|i: int| 0 <= i < t.len() implies #[trigger] t[i].len() > 0 by {
            assert(t[i] == ws[i]);
        }
        assert forall|i: int, j: int| 0 <= i < t.len() && 0 <= j < t[i].len() implies !sep(
            #[trigger] t[i][j],
        ) by {
            assert(t[i] == ws[i]);
        }
        lemma_words_join(t, d, sep);
        let b = ws.last();
        assert(b == ws[ws.len() - 1]);
        assert forall|j: int| 0 <= j < b.len() implies !sep(#[trigger] b[j]) by {
            assert(b[j] == ws[ws.len() - 1][j]);
        }
        lemma_words_append(join(t, seq![d]), d, b, sep);
        assert(t.push(b) =~= ws);
    }
}

/// Normal form of tags: the tags are the words of the input, each kept
/// once, none empty and none holding a comma or white space.
pub proof fn law_make_tags_normal_form(input: Seq<char>)
    ensures
        distinct_in_order(words(input, tag_separator())).no_duplicates(),
        distinct_in_order(words(input, tag_separator())).to_set() == words(input, tag_separator()).to_set(),
        forall|i: int|
            0 <= i < distinct_in_order(words(input, tag_separator())).len() ==> #[trigger] distinct_in_order(
                words(input, tag_separator()),
            )[i].len() > 0,
        forall|i: int, j: int|
            0 <= i < distinct_in_order(words(input, tag_separator())).len() && 0 <= j < distinct_in_order(
                words(input, tag_separator()),
            )[i].len() ==> !is_tag_separator(
                #[trigger] distinct_in_order(words(input, tag_separator()))[i][j],
            ),
{
    let ws = words(input, tag_separator());
    lemma_distinct_in_order(ws);
    lemma_words_clean(input, tag_separator());
    let k = distinct_in_order(ws);
    assert forall|i: int| 0 <= i < k.len() implies #[trigger] k[i].len() > 0 by {
        assert(ws.contains(k[i]));
        let m = choose|m: int| 0 <= m < ws.len() && ws[m] == k[i];
        assert(ws[m].len() > 0);
    }
    assert forall|i: int, j: int| 0 <= i < k.len() && 0 <= j < k[i].len() implies !is_tag_separator(
        #[trigger] k[i][j],
    ) by {
        assert(ws.contains(k[i]));
        let m = choose|m: int| 0 <= m < ws.len() && ws[m] == k[i];
        assert(ws[m][j] == k[i][j]);
        assert(!tag_separator()(ws[m][j]));
    }
}

/// Normalising tags twice is normalising them once.
pub proof fn law_make_tags_idempotent(input: Seq<char>)
    ensures
        join(distinct_in_order(words(join(distinct_in_order(words(input, tag_separator())), seq![',']), tag_separator())), seq![','])
            == join(distinct_in_order(words(input, tag_separator())), seq![',']),
{
    let k = distinct_in_order(words(input, tag_separator()));
    law_make_tags_normal_form(input);
    assert forall|i: int, j: int| 0 <= i < k.len() && 0 <= j < k[i].len() implies !tag_separator()(
        #[trigger] k[i][j],
    ) by {
        assert(!is_tag_separator(k[i][j]));
    }
    lemma_words_join(k, ',', tag_separator());
    lemma_distinct_in_order_distinct(k);
}

} // verus!

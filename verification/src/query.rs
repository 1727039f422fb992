//! The SQL text and parameters of keyword searches over notes.
use crate::foreign::{regex_replace_all, string_from_chars};
use crate::text::{
    chars_of, collapse_runs, join, join_strings, lemma_split_collapse, lemma_trim_end_collapse,
    lemma_trim_end_shape, lemma_trim_start_collapse, lemma_trim_start_shape, lemma_words_nonempty,
    lemma_words_trim_end, lemma_words_trim_start, split_chars, split_on, string_views, trim_chars,
    trim_end, trim_start, trim_ws, white_space, words, char_views,
};
use vstd::prelude::*;

verus! {

/// The decimal digit for `n < 10`.
pub open spec fn digit_char(n: nat) -> char {
    if n == 0 {
        '0'
    } else if n == 1 {
        '1'
    } else if n == 2 {
        '2'
    } else if n == 3 {
        '3'
    } else if n == 4 {
        '4'
    } else if n == 5 {
        '5'
    } else if n == 6 {
        '6'
    } else if n == 7 {
        '7'
    } else if n == 8 {
        '8'
    } else {
        '9'
    }
}

/// The decimal rendering of `n`, without leading zeros.
pub open spec fn decimal(n: nat) -> Seq<char>
    decreases n,
{
    if n < 10 {
        seq![digit_char(n)]
    } else {
        decimal(n / 10).push(digit_char(n % 10))
    }
}

fn digit(n: u64) -> (c: char)
    requires
        n < 10,
    ensures
        c == digit_char(n as nat),
{
    if n == 0 {
        '0'
    } else if n == 1 {
        '1'
    } else if n == 2 {
        '2'
    } else if n == 3 {
        '3'
    } else if n == 4 {
        '4'
    } else if n == 5 {
        '5'
    } else if n == 6 {
        '6'
    } else if n == 7 {
        '7'
    } else if n == 8 {
        '8'
    } else {
        '9'
    }
}

/// `n.to_string()` for an unsigned integer.
pub fn decimal_string(n: u64) -> (r: String)
    ensures
        r@ == decimal(n as nat),
    decreases n,
{
    if n < 10 {
        string_from_chars(&vec![digit(n)])
    } else {
        let mut s = decimal_string(n / 10);
        let d = string_from_chars(&vec![digit(n % 10)]);
        s.append(d.as_str());
        proof {
            assert(d@ =~= seq![digit_char((n % 10) as nat)]);
            assert(decimal((n / 10) as nat) + d@ =~= decimal((n / 10) as nat).push(
                digit_char((n % 10) as nat),
            ));
        }
        s
    }
}

/// The decimal rendering of a signed integer: `-` before the digits of a
/// negative one.
pub open spec fn signed_decimal(n: int) -> Seq<char> {
    if n < 0 {
        seq!['-'] + decimal((-n) as nat)
    } else {
        decimal(n as nat)
    }
}

/// `n.to_string()` for a signed integer.
pub fn i64_string(n: i64) -> (r: String)
    ensures
        r@ == signed_decimal(n as int),
{
    if n < 0 {
        let magnitude: u64 = (-(n as i128)) as u64;
        let digits = decimal_string(magnitude);
        let mut r = String::from_str("-");
        r.append(digits.as_str());
        proof {
            reveal_strlit("-");
        }
        r
    } else {
        decimal_string(n as u64)
    }
}

/// Every word is non-empty.
pub proof fn lemma_words_each_nonempty(s: Seq<char>, sep: spec_fn(char) -> bool)
    ensures
        forall|i: int| 0 <= i < words(s, sep).len() ==> #[trigger] words(s, sep)[i].len() > 0,
    decreases s.len(),
{
    if s.len() > 0 {
        let t = s.drop_last();
        lemma_words_each_nonempty(t, sep);
        let w = words(t, sep);
        let c = s.last();
        if !sep(c) && t.len() > 0 && !sep(t.last()) {
            lemma_words_nonempty(t, sep);
            let u = w.update(w.len() - 1, w.last().push(c));
            assert forall|i: int| 0 <= i < u.len() implies #[trigger] u[i].len() > 0 by {
                if i != w.len() - 1 {
                    assert(u[i] == w[i]);
                }
            }
        } else if !sep(c) {
            let u = w.push(seq![c]);
            assert forall|i: int| 0 <= i < u.len() implies #[trigger] u[i].len() > 0 by {
                if i < w.len() {
                    assert(u[i] == w[i]);
                }
            }
        }
    }
}

/// The pieces a white-space normalised query splits into: its words, or a
/// single empty piece when it has none.
pub open spec fn query_pieces(q: Seq<char>) -> Seq<Seq<char>> {
    if words(q, white_space()).len() == 0 {
        seq![Seq::<char>::empty()]
    } else {
        words(q, white_space())
    }
}

/// Splitting the trimmed, run-collapsed query on single spaces gives its pieces.
proof fn lemma_query_pieces(q: Seq<char>, x: Seq<char>)
    requires
        x == trim_ws(collapse_runs(q, white_space(), seq![' '])),
    ensures
        split_on(x, ' ') == query_pieces(q),
{
    let ws = white_space();
    let ts = trim_start(q, ws);
    lemma_trim_start_collapse(q, ws, ' ');
    lemma_trim_end_collapse(ts, ws, ' ');
    let v = trim_ws(q);
    assert(x == collapse_runs(v, ws, seq![' ']));
    lemma_words_trim_start(q, ws);
    lemma_words_trim_end(ts, ws);
    lemma_trim_start_shape(q, ws);
    lemma_trim_end_shape(ts, ws);
    if v.len() > 0 {
        let k2 = choose|k: int| 0 <= k <= ts.len() && v == ts.take(k);
        assert(v[0] == ts[0]);
        lemma_words_nonempty(v, ws);
    }
    lemma_split_collapse(v, ws, ' ');
}

/// `%w%` LIKE patterns, one per query word; a blank query gives the single
/// pattern `%%`, which matches every note.
pub fn make_words(query: &str) -> (r: Vec<String>)
    ensures
        string_views(r@) == query_pieces(query@).map_values(|w: Seq<char>| seq!['%'] + w + seq!['%']),
{
    let runs = "\\s+";
    let space = " ";
    let pct = "%";
    proof {
        reveal_strlit("\\s+");
        reveal_strlit(" ");
        reveal_strlit("%");
        assert(runs@ =~= seq!['\\', 's', '+']);
        assert(space@ =~= seq![' ']);
        assert(!space@.contains('$'));
    }
    let s1 = regex_replace_all(runs, query, space).unwrap();
    let v = trim_chars(&chars_of(s1.as_str()));
    let pieces = split_chars(&v, ' ');
    proof {
        lemma_query_pieces(query@, v@);
    }
    let ghost target = query_pieces(query@).map_values(|w: Seq<char>| seq!['%'] + w + seq!['%']);
    let mut r: Vec<String> = Vec::new();
    let mut i: usize = 0;
    while i < pieces.len()
        invariant
            i <= pieces.len(),
            char_views(pieces@) == query_pieces(query@),
            target == query_pieces(query@).map_values(|w: Seq<char>| seq!['%'] + w + seq!['%']),
            pct@ == seq!['%'],
            string_views(r@) == target.take(i as int),
        decreases pieces.len() - i,
    {
        let mut w = String::new();
        w.append(pct);
        let body = string_from_chars(&pieces[i]);
        w.append(body.as_str());
        w.append(pct);
        let ghost old_r = string_views(r@);
        proof {
            assert(char_views(pieces@)[i as int] == pieces@[i as int]@);
            assert(w@ == seq!['%'] + pieces@[i as int]@ + seq!['%']);
            assert(target[i as int] == seq!['%'] + query_pieces(query@)[i as int] + seq!['%']);
        }
        r.push(w);
        proof {
            assert(string_views(r@) =~= old_r.push(w@));
            assert(string_views(r@) =~= target.take(i + 1));
        }
        i += 1;
    }
    assert(target.take(pieces.len() as int) =~= target);
    r
}

/// The parameter name `:w{i}` of the `i`-th query word.
pub open spec fn key_name(i: nat) -> Seq<char> {
    seq![':', 'w'] + decimal(i)
}

/// Names `:w0`, `:w1`, ... for `num_words` parameters.
pub fn make_keys(num_words: usize) -> (r: Vec<String>)
    ensures
        string_views(r@) == Seq::new(num_words as nat, |i: int| key_name(i as nat)),
{
    let prefix = ":w";
    proof {
        reveal_strlit(":w");
    }
    let mut r: Vec<String> = Vec::new();
    let mut i: usize = 0;
    while i < num_words
        invariant
            i <= num_words,
            prefix@ == seq![':', 'w'],
            string_views(r@) == Seq::new(i as nat, |k: int| key_name(k as nat)),
        decreases num_words - i,
    {
        let mut k = String::new();
        k.append(prefix);
        let n = decimal_string(i as u64);
        k.append(n.as_str());
        let ghost old_r = string_views(r@);
        r.push(k);
        assert(string_views(r@) =~= old_r.push(k@));
        assert(string_views(r@) =~= Seq::new((i + 1) as nat, |k: int| key_name(k as nat)));
        i += 1;
    }
    r
}


/// The LIKE condition that query word `i` must meet: it occurs in the text
/// or in the tags.
pub open spec fn where_clause(i: nat) -> Seq<char> {
    "(\n        txt like "@ + key_name(i) + "\n        or tags like "@ + key_name(i) + "\n        )"@
}

/// One LIKE condition per query word.
pub fn where_vec(num_words: usize) -> (r: Vec<String>)
    ensures
        string_views(r@) == Seq::new(num_words as nat, |i: int| where_clause(i as nat)),
{
    let keys = make_keys(num_words);
    assert(string_views(keys@).len() == keys@.len());
    let mut r: Vec<String> = Vec::new();
    let mut i: usize = 0;
    while i < num_words
        invariant
            i <= num_words,
            keys@.len() == num_words,
            string_views(keys@) == Seq::new(num_words as nat, |k: int| key_name(k as nat)),
            string_views(r@) == Seq::new(i as nat, |k: int| where_clause(k as nat)),
        decreases num_words - i,
    {
        let mut c = String::new();
        c.append("(\n        txt like ");
        c.append(keys[i].as_str());
        c.append("\n        or tags like ");
        c.append(keys[i].as_str());
        c.append("\n        )");
        assert(string_views(keys@)[i as int] == keys@[i as int]@);
        let ghost old_r = string_views(r@);
        r.push(c);
        assert(string_views(r@) =~= old_r.push(c@));
        assert(string_views(r@) =~= Seq::new((i + 1) as nat, |k: int| where_clause(k as nat)));
        i += 1;
    }
    r
}

/// The SQL that counts the notes meeting every condition.
pub open spec fn search_count_sql_text(num_words: nat) -> Seq<char> {
    "SELECT count(1)\n        FROM note where\n        "@ + join(
        Seq::new(num_words, |i: int| where_clause(i as nat)),
        " and "@,
    )
}

/// The SQL of `search_count` for `num_words` query words.
pub fn search_count_sql(num_words: usize) -> (r: String)
    ensures
        r@ == search_count_sql_text(num_words as nat),
{
    let clauses = where_vec(num_words);
    let body = join_strings(&clauses, " and ");
    let mut r = String::new();
    r.append("SELECT count(1)\n        FROM note where\n        ");
    r.append(body.as_str());
    r
}

/// The SQL that pages through the notes meeting every condition, newest
/// first.
pub open spec fn search_sql_text(num_words: nat) -> Seq<char> {
    "SELECT rowid, uuid4, txt, tags, created_at, json(ai_tags), ai_summary, ai_category\n        FROM note where\n        "@
        + join(Seq::new(num_words, |i: int| where_clause(i as nat)), " and "@)
        + "\n        order by created_at desc limit :limit offset :offset"@
}

/// The SQL of `search` for `num_words` query words.
pub fn search_sql(num_words: usize) -> (r: String)
    ensures
        r@ == search_sql_text(num_words as nat),
{
    let clauses = where_vec(num_words);
    let body = join_strings(&clauses, " and ");
    let mut r = String::new();
    r.append(
        "SELECT rowid, uuid4, txt, tags, created_at, json(ai_tags), ai_summary, ai_category\n        FROM note where\n        ",
    );
    r.append(body.as_str());
    r.append("\n        order by created_at desc limit :limit offset :offset");
    r
}

/// The SQL of the LIKE fallback of hybrid search: matching row ids, newest
/// first.
pub open spec fn like_search_sql_text(num_words: nat) -> Seq<char> {
    "SELECT rowid FROM note WHERE "@ + join(
        Seq::new(num_words, |i: int| where_clause(i as nat)),
        " AND "@,
    ) + " ORDER BY created_at DESC LIMIT :limit"@
}

/// The SQL of the LIKE fallback of hybrid search.
pub fn like_search_sql(num_words: usize) -> (r: String)
    ensures
        r@ == like_search_sql_text(num_words as nat),
{
    let clauses = where_vec(num_words);
    let body = join_strings(&clauses, " AND ");
    let mut r = String::new();
    r.append("SELECT rowid FROM note WHERE ");
    r.append(body.as_str());
    r.append(" ORDER BY created_at DESC LIMIT :limit");
    r
}

/// `n` SQL placeholders `?` separated by commas.
pub fn placeholders(n: usize) -> (r: String)
    ensures
        r@ == join(Seq::new(n as nat, |i: int| seq!['?']), seq![',']),
{
    let mut marks: Vec<String> = Vec::new();
    let mut i: usize = 0;
    proof {
        reveal_strlit("?");
        reveal_strlit(",");
    }
    while i < n
        invariant
            i <= n,
            string_views(marks@) == Seq::new(i as nat, |k: int| seq!['?']),
        decreases n - i,
    {
        let q = String::from_str("?");
        proof {
            reveal_strlit("?");
        }
        assert(q@ =~= seq!['?']);
        let ghost old_m = string_views(marks@);
        marks.push(q);
        assert(string_views(marks@) =~= old_m.push(seq!['?']));
        assert(string_views(marks@) =~= Seq::new((i + 1) as nat, |k: int| seq!['?']));
        i += 1;
    }
    let sep = ",";
    assert(sep@ =~= seq![',']);
    join_strings(&marks, sep)
}


/// `w` with every `"` doubled.
pub open spec fn escape_quotes(w: Seq<char>) -> Seq<char>
    decreases w.len(),
{
    if w.len() == 0 {
        seq![]
    } else if w.last() == '"' {
        escape_quotes(w.drop_last()) + seq!['"', '"']
    } else {
        escape_quotes(w.drop_last()).push(w.last())
    }
}

/// An FTS5 string literal holding `w`.
pub open spec fn fts5_quote(w: Seq<char>) -> Seq<char> {
    seq!['"'] + escape_quotes(w) + seq!['"']
}

/// The FTS5 query for a user query: each word quoted, all of them required.
pub open spec fn fts5_query_text(q: Seq<char>) -> Seq<char> {
    join(words(q, white_space()).map_values(|w: Seq<char>| fts5_quote(w)), " AND "@)
}

/// Filtering by a predicate every element meets changes nothing.
pub proof fn lemma_filter_all<A>(s: Seq<A>, f: spec_fn(A) -> bool)
    requires
        forall|i: int| 0 <= i < s.len() ==> f(#[trigger] s[i]),
    ensures
        s.filter(f) == s,
    decreases s.len(),
{
    reveal_with_fuel(Seq::<_>::filter, 1);
    if s.len() > 0 {
        let t = s.drop_last();
        assert forall|i: int| 0 <= i < t.len() implies f(#[trigger] t[i]) by {
            assert(t[i] == s[i]);
        }
        lemma_filter_all(t, f);
        assert(s.last() == s[s.len() - 1]);
        assert(t.push(s.last()) =~= s);
    }
}

fn fts5_quote_chars(w: &Vec<char>) -> (r: String)
    ensures
        r@ == fts5_quote(w@),
{
    let mut out: Vec<char> = Vec::new();
    out.push('"');
    let mut i: usize = 0;
    assert(w@.take(0) =~= Seq::<char>::empty());
    while i < w.len()
        invariant
            i <= w.len(),
            out@ == seq!['"'] + escape_quotes(w@.take(i as int)),
        decreases w.len() - i,
    {
        let c = w[i];
        assert(w@.take(i + 1).drop_last() =~= w@.take(i as int));
        assert(w@.take(i + 1).last() == c);
        let ghost before = out@;
        if c == '"' {
            out.push('"');
            out.push('"');
            assert(out@ =~= seq!['"'] + escape_quotes(w@.take(i + 1)));
        } else {
            out.push(c);
            assert(out@ =~= seq!['"'] + escape_quotes(w@.take(i + 1)));
        }
        i += 1;
    }
    out.push('"');
    assert(w@.take(w.len() as int) =~= w@);
    string_from_chars(&out)
}

/// Builds an FTS5 MATCH query: each word of the query quoted (inner quotes
/// doubled) and the words joined with `AND`.
pub fn make_fts5_query(query: &str) -> (r: String)
    ensures
        r@ == fts5_query_text(query@),
{
    let runs = "\\s+";
    let space = " ";
    proof {
        reveal_strlit("\\s+");
        reveal_strlit(" ");
        assert(runs@ =~= seq!['\\', 's', '+']);
        assert(space@ =~= seq![' ']);
        assert(!space@.contains('$'));
    }
    let trimmed = string_from_chars(&trim_chars(&chars_of(query)));
    let normalized = regex_replace_all(runs, trimmed.as_str(), space).unwrap();
    let pieces = split_chars(&chars_of(normalized.as_str()), ' ');
    let ghost ps = char_views(pieces@);
    let ghost nonempty = |w: Seq<char>| w.len() > 0;
    let ghost quote = |w: Seq<char>| fts5_quote(w);
    let mut quoted: Vec<String> = Vec::new();
    let mut i: usize = 0;
    assert(ps.take(0) =~= Seq::<Seq<char>>::empty());
    while i < pieces.len()
        invariant
            i <= pieces.len(),
            ps == char_views(pieces@),
            nonempty == (|w: Seq<char>| w.len() > 0),
            quote == (|w: Seq<char>| fts5_quote(w)),
            string_views(quoted@) == ps.take(i as int).filter(nonempty).map_values(quote),
        decreases pieces.len() - i,
    {
        assert(ps.take(i + 1).drop_last() =~= ps.take(i as int));
        assert(ps.take(i + 1).last() == pieces@[i as int]@);
        reveal_with_fuel(Seq::<_>::filter, 1);
        if pieces[i].len() > 0 {
            let q = fts5_quote_chars(&pieces[i]);
            let ghost before = string_views(quoted@);
            quoted.push(q);
            assert(string_views(quoted@) =~= before.push(q@));
            assert(ps.take(i + 1).filter(nonempty) =~= ps.take(i as int).filter(nonempty).push(
                pieces@[i as int]@,
            ));
            assert(string_views(quoted@) =~= ps.take(i + 1).filter(nonempty).map_values(quote));
        } else {
            assert(ps.take(i + 1).filter(nonempty) =~= ps.take(i as int).filter(nonempty));
        }
        i += 1;
    }
    assert(ps.take(pieces.len() as int) =~= ps);
    proof {
        let ws = white_space();
        let v = trim_ws(query@);
        let ts = trim_start(query@, ws);
        lemma_words_trim_start(query@, ws);
        lemma_words_trim_end(ts, ws);
        lemma_trim_start_shape(query@, ws);
        lemma_trim_end_shape(ts, ws);
        if v.len() > 0 {
            let k2 = choose|k: int| 0 <= k <= ts.len() && v == ts.take(k);
            assert(v[0] == ts[0]);
            lemma_words_nonempty(v, ws);
        }
        lemma_split_collapse(v, ws, ' ');
        lemma_words_each_nonempty(query@, ws);
        if v.len() > 0 {
            lemma_filter_all(words(query@, ws), nonempty);
        } else {
            reveal_with_fuel(Seq::<_>::filter, 2);
            assert(seq![Seq::<char>::empty()].drop_last() =~= Seq::<Seq<char>>::empty());
            assert(ps.filter(nonempty) =~= Seq::<Seq<char>>::empty());
            assert(words(query@, ws) =~= Seq::<Seq<char>>::empty());
        }
    }
    join_strings(&quoted, " AND ")
}

/// The statement creating the vector table for embeddings of `dim` floats.
pub fn vec_table_sql(dim: usize) -> (r: String)
    ensures
        r@ == "CREATE VIRTUAL TABLE IF NOT EXISTS vec_notes USING vec0(note_rowid INTEGER PRIMARY KEY, embedding float["@
            + decimal(dim as nat) + "])"@,
{
    let mut r = String::from_str(
        "CREATE VIRTUAL TABLE IF NOT EXISTS vec_notes USING vec0(note_rowid INTEGER PRIMARY KEY, embedding float[",
    );
    r.append(decimal_string(dim as u64).as_str());
    r.append("])");
    r
}

/// The query counting the note table's columns named `col`.
pub fn column_check_sql(col: &str) -> (r: String)
    ensures
        r@ == "SELECT COUNT(*) FROM pragma_table_info('note') WHERE name='"@ + col@ + "'"@,
{
    let mut r = String::from_str("SELECT COUNT(*) FROM pragma_table_info('note') WHERE name='");
    r.append(col);
    r.append("'");
    r
}

/// The statement adding a text column `col` to the note table.
pub fn add_column_sql(col: &str) -> (r: String)
    ensures
        r@ == "ALTER TABLE note ADD COLUMN "@ + col@ + " TEXT"@,
{
    let mut r = String::from_str("ALTER TABLE note ADD COLUMN ");
    r.append(col);
    r.append(" TEXT");
    r
}

/// Whether a search falls back to listing notes: when its patterns are a
/// single empty one.
pub fn lists_instead(words: &Vec<String>) -> (r: bool)
    ensures
        r == (words@.len() == 1 && words@[0]@.len() == 0),
{
    words.len() == 1 && words[0].as_str().is_empty()
}

/// Joining one more item appends the separator and the item.
proof fn lemma_join_new_step(f: spec_fn(int) -> Seq<char>, n: nat, d: Seq<char>)
    ensures
        join(Seq::new(n + 2, f), d) == join(Seq::new(n + 1, f), d) + d + f((n + 1) as int),
        join(Seq::new(1, f), d) == f(0),
        join(Seq::new(0, f), d) == Seq::<char>::empty(),
{
    assert(Seq::new(n + 2, f).drop_last() =~= Seq::new(n + 1, f));
}

/// A keyword search requires every word: each word's condition asks for it
/// in the text or in the tags, each further word adds its condition with
/// `and` (with `AND` in the fallback of hybrid search), and the search and
/// its count select by the same conditions.
pub proof fn law_search_requires_every_word(n: nat)
    ensures
        where_clause(n) == "(\n        txt like :w"@ + decimal(n) + "\n        or tags like :w"@
            + decimal(n) + "\n        )"@,
        search_count_sql_text(0) == "SELECT count(1)\n        FROM note where\n        "@,
        search_count_sql_text(1) == "SELECT count(1)\n        FROM note where\n        "@
            + where_clause(0),
        search_count_sql_text(n + 2) == search_count_sql_text(n + 1) + " and "@ + where_clause(n + 1),
        search_sql_text(n) == "SELECT rowid, uuid4, txt, tags, created_at, json(ai_tags), ai_summary, ai_category\n        FROM note where\n        "@
            + search_count_sql_text(n).skip(
            "SELECT count(1)\n        FROM note where\n        "@.len() as int,
        ) + "\n        order by created_at desc limit :limit offset :offset"@,
        search_count_sql_text(n).take("SELECT count(1)\n        FROM note where\n        "@.len() as int)
            == "SELECT count(1)\n        FROM note where\n        "@,
        like_search_sql_text(n + 2) == like_search_sql_text(n + 1).take(
            like_search_sql_text(n + 1).len() - " ORDER BY created_at DESC LIMIT :limit"@.len(),
        ) + " AND "@ + where_clause(n + 1) + " ORDER BY created_at DESC LIMIT :limit"@,
        like_search_sql_text(1) == "SELECT rowid FROM note WHERE "@ + where_clause(0)
            + " ORDER BY created_at DESC LIMIT :limit"@,
{
    reveal_strlit("(\n        txt like ");
    reveal_strlit("(\n        txt like :w");
    reveal_strlit("\n        or tags like ");
    reveal_strlit("\n        or tags like :w");
    assert("(\n        txt like "@ + seq![':', 'w'] =~= "(\n        txt like :w"@);
    assert("\n        or tags like "@ + seq![':', 'w'] =~= "\n        or tags like :w"@);
    assert(where_clause(n) =~= "(\n        txt like :w"@ + decimal(n) + "\n        or tags like :w"@
        + decimal(n) + "\n        )"@);
    let f = |i: int| where_clause(i as nat);
    lemma_join_new_step(f, n, " and "@);
    lemma_join_new_step(f, n, " AND "@);
    let head = "SELECT count(1)\n        FROM note where\n        "@;
    let w = join(Seq::new(n, f), " and "@);
    assert((head + w).skip(head.len() as int) =~= w);
    assert((head + w).take(head.len() as int) =~= head);
    let tail = " ORDER BY created_at DESC LIMIT :limit"@;
    let lh = "SELECT rowid FROM note WHERE "@;
    let lw = join(Seq::new(n + 1, f), " AND "@);
    assert((lh + lw + tail).take((lh + lw + tail).len() - tail.len()) =~= lh + lw);
    assert(lh + lw + " AND "@ + where_clause(n + 1) + tail =~= lh + (lw + " AND "@ + where_clause(n + 1)) + tail);
    assert(search_count_sql_text(n + 1) + " and "@ + where_clause(n + 1) =~= head + (join(Seq::new(n + 1, f), " and "@) + " and "@ + where_clause(n + 1)));
    assert(search_count_sql_text(0) =~= head);
}

/// A full-text search requires every word too: each word of the query is
/// quoted, the first alone is the whole query for a one-word query, and
/// each further word is added with `AND`.
pub proof fn law_fts5_requires_every_word(q: Seq<char>)
    ensures
        words(q, white_space()).len() == 0 ==> fts5_query_text(q).len() == 0,
        words(q, white_space()).len() == 1 ==> fts5_query_text(q) == seq!['"'] + escape_quotes(
            words(q, white_space())[0],
        ) + seq!['"'],
        words(q, white_space()).len() >= 2 ==> fts5_query_text(q) == join(
            words(q, white_space()).drop_last().map_values(|w: Seq<char>| fts5_quote(w)),
            " AND "@,
        ) + " AND "@ + seq!['"'] + escape_quotes(words(q, white_space()).last()) + seq!['"'],
{
    let ws = words(q, white_space());
    let f = |w: Seq<char>| fts5_quote(w);
    if ws.len() >= 2 {
        assert(ws.map_values(f).drop_last() =~= ws.drop_last().map_values(f));
        assert(ws.map_values(f).last() == fts5_quote(ws.last()));
    }
}

} // verus!


//! The texts the desktop window shows for the answers of the core: status
//! lines, count labels, note displays and the category overview.
//!
//! The application reads the answers' JSON into plain values; these
//! functions decide what is shown.
use crate::ai::opt_str;
use crate::desktop::{SearchOutcome, SummaryOutcome, TagSuggestion};
use crate::foreign::string_from_chars;
use crate::order::{sort_distinct, sorted_distinct, vec_views};
use crate::query::{decimal, decimal_string};
use crate::text::{
    char_views, chars_of, first_n, join, join_strings, lemma_split_on_nonempty, split_chars,
    split_on, string_views,
};
use vstd::prelude::*;

verus! {

/// `Error: {err}`.
pub open spec fn error_line(err: Seq<char>) -> Seq<char> {
    "Error: "@ + err
}

/// The status of a batch command: `{verb} {processed} notes ({errors}
/// errors)` when the answer counts processed notes (missing errors count as
/// 0), else its error, else `Failed: {verb}`.
pub open spec fn batch_status_text(
    processed: Option<u64>,
    errors: Option<u64>,
    error: Seq<char>,
    verb: Seq<char>,
) -> Seq<char> {
    match processed {
        Some(p) => verb + " "@ + decimal(p as nat) + " notes ("@ + decimal(
            match errors {
                Some(e) => e as nat,
                None => 0,
            },
        ) + " errors)"@,
        None => if error.len() == 0 {
            "Failed: "@ + verb
        } else {
            error_line(error)
        },
    }
}

/// Format a `{processed, errors}` batch answer, or surface its error.
pub fn batch_status(processed: Option<u64>, errors: Option<u64>, error: &str, verb: &str) -> (r:
    String)
    ensures
        r@ == batch_status_text(processed, errors, error@, verb@),
{
    match processed {
        Some(p) => {
            let e = match errors {
                Some(e) => e,
                None => 0,
            };
            let mut r = String::from_str(verb);
            r.append(" ");
            r.append(decimal_string(p).as_str());
            r.append(" notes (");
            r.append(decimal_string(e).as_str());
            r.append(" errors)");
            r
        },
        None => {
            if error.is_empty() {
                let mut r = String::from_str("Failed: ");
                r.append(verb);
                r
            } else {
                let mut r = String::from_str("Error: ");
                r.append(error);
                r
            }
        },
    }
}

/// The lines listing categories and their counts: `  {name}: {count}
/// notes`, joined with newlines.
pub open spec fn category_count_lines(cats: Seq<(Seq<char>, u64)>) -> Seq<char> {
    join(
        cats.map_values(|c: (Seq<char>, u64)| "  "@ + c.0 + ": "@ + decimal(c.1 as nat) + " notes"@),
        seq!['\n'],
    )
}

/// The status of an organize command.
pub open spec fn organize_status_text(
    processed: Option<u64>,
    errors: Option<u64>,
    cats: Seq<(Seq<char>, u64)>,
    error: Seq<char>,
) -> Seq<char> {
    match processed {
        Some(p) => "Organized "@ + decimal(p as nat) + " notes ("@ + decimal(
            match errors {
                Some(e) => e as nat,
                None => 0,
            },
        ) + " errors)\n"@ + category_count_lines(cats),
        None => if error.len() == 0 {
            "Failed to organize notes"@
        } else {
            error_line(error)
        },
    }
}

/// The views of category counts.
pub open spec fn count_views(v: Seq<(String, u64)>) -> Seq<(Seq<char>, u64)> {
    v.map_values(|c: (String, u64)| (c.0@, c.1))
}

/// The status of an organize command: counts and the breakdown by category,
/// or the error.
pub fn organize_status(
    processed: Option<u64>,
    errors: Option<u64>,
    categories: &Vec<(String, u64)>,
    error: &str,
) -> (r: String)
    ensures
        r@ == organize_status_text(processed, errors, count_views(categories@), error@),
{
    match processed {
        Some(p) => {
            let e = match errors {
                Some(e) => e,
                None => 0,
            };
            let mut lines: Vec<String> = Vec::new();
            let mut i: usize = 0;
            let ghost cv = count_views(categories@);
            let ghost f = |c: (Seq<char>, u64)| "  "@ + c.0 + ": "@ + decimal(c.1 as nat) + " notes"@;
            while i < categories.len()
                invariant
                    i <= categories.len(),
                    cv == count_views(categories@),
                    f == (|c: (Seq<char>, u64)| "  "@ + c.0 + ": "@ + decimal(c.1 as nat)
                        + " notes"@),
                    string_views(lines@) == cv.take(i as int).map_values(f),
                decreases categories.len() - i,
            {
                let mut l = String::from_str("  ");
                l.append(categories[i].0.as_str());
                l.append(": ");
                l.append(decimal_string(categories[i].1).as_str());
                l.append(" notes");
                let ghost before = string_views(lines@);
                lines.push(l);
                assert(string_views(lines@) =~= before.push(f(cv[i as int])));
                assert(cv.take(i + 1) =~= cv.take(i as int).push(cv[i as int]));
                i += 1;
            }
            assert(cv.take(categories.len() as int) =~= cv);
            let nl = "\n";
            proof {
                reveal_strlit("\n");
                assert(nl@ =~= seq!['\n']);
            }
            let body = join_strings(&lines, nl);
            let mut r = String::from_str("Organized ");
            r.append(decimal_string(p).as_str());
            r.append(" notes (");
            r.append(decimal_string(e).as_str());
            r.append(" errors)\n");
            r.append(body.as_str());
            proof {
                reveal_strlit("\n");
            }
            r
        },
        None => {
            if error.is_empty() {
                String::from_str("Failed to organize notes")
            } else {
                let mut r = String::from_str("Error: ");
                r.append(error);
                r
            }
        },
    }
}

/// The status of a connection test.
pub fn connection_status(available: bool) -> (r: String)
    ensures
        available ==> r@ == "\u{2713} Connected to Ollama successfully!"@,
        !available ==> r@ == "\u{2717} Could not connect to Ollama. Make sure it's running."@,
{
    if available {
        String::from_str("\u{2713} Connected to Ollama successfully!")
    } else {
        String::from_str("\u{2717} Could not connect to Ollama. Make sure it's running.")
    }
}

/// The status of a client sync: the server's reply marked done, else the
/// error, else `Sync failed`.
pub fn client_sync_status(reply: Option<String>, error: &str) -> (r: String)
    ensures
        r@ == match reply {
            Some(s) => "\u{2713} "@ + s@,
            None => if error@.len() == 0 {
                "Sync failed"@
            } else {
                error_line(error@)
            },
        },
{
    match reply {
        Some(s) => {
            let mut r = String::from_str("\u{2713} ");
            r.append(s.as_str());
            r
        },
        None => if error.is_empty() {
            String::from_str("Sync failed")
        } else {
            let mut r = String::from_str("Error: ");
            r.append(error);
            r
        },
    }
}

/// The tag suggestion shown for an answer: the string tags joined with
/// commas and, when the backend was not available, a hint; without a tags
/// list, the error or a parse failure.
pub fn tag_suggestion(tags: Option<Vec<String>>, available: bool, error: &str) -> (r: TagSuggestion)
    ensures
        match tags {
            Some(t) => r.tags@ == join(string_views(t@), seq![',']) && r.status@ == if available {
                Seq::<char>::empty()
            } else {
                "AI not available. Check Ollama is running."@
            },
            None => r.tags@ == Seq::<char>::empty() && r.status@ == if error@.len() == 0 {
                "Failed to parse AI response"@
            } else {
                error_line(error@)
            },
        },
{
    match tags {
        Some(t) => {
            let comma = ",";
            proof {
                reveal_strlit(",");
                assert(comma@ =~= seq![',']);
            }
            let joined = join_strings(&t, comma);
            TagSuggestion {
                tags: joined,
                status: if available {
                    String::new()
                } else {
                    String::from_str("AI not available. Check Ollama is running.")
                },
            }
        },
        None => TagSuggestion {
            tags: String::new(),
            status: if error.is_empty() {
                String::from_str("Failed to parse AI response")
            } else {
                let mut r = String::from_str("Error: ");
                r.append(error);
                r
            },
        },
    }
}

/// The summary shown for a new note: the answer's summary, else its error,
/// else a failure (also when the note could not be inserted).
pub fn summary_outcome(inserted: bool, summary: Option<String>, error: &str) -> (r: SummaryOutcome)
    ensures
        !inserted ==> r.summary@ == Seq::<char>::empty() && r.status@
            == "Failed to generate summary"@,
        inserted ==> match summary {
            Some(s) => r.summary@ == s@ && r.status@ == Seq::<char>::empty(),
            None => r.summary@ == Seq::<char>::empty() && r.status@ == if error@.len() == 0 {
                "Failed to generate summary"@
            } else {
                error_line(error@)
            },
        },
{
    if !inserted {
        return SummaryOutcome {
            summary: String::new(),
            status: String::from_str("Failed to generate summary"),
        };
    }
    match summary {
        Some(s) => SummaryOutcome { summary: s, status: String::new() },
        None => SummaryOutcome {
            summary: String::new(),
            status: if error.is_empty() {
                String::from_str("Failed to generate summary")
            } else {
                let mut r = String::from_str("Error: ");
                r.append(error);
                r
            },
        },
    }
}

/// The outcome of listing recent notes: `{count} notes`, the count being
/// the answer's, or the number of notes listed.
pub fn recent_outcome<N>(count: Option<u64>, notes: Vec<N>) -> (r: SearchOutcome<N>)
    ensures
        r.count_label@ == decimal(
            match count {
                Some(c) => c as nat,
                None => notes@.len(),
            },
        ) + " notes"@,
        r.notes@ == notes@,
        r.status@ == Seq::<char>::empty(),
{
    let c: u64 = match count {
        Some(c) => c,
        None => notes.len() as u64,
    };
    let mut label = decimal_string(c);
    label.append(" notes");
    SearchOutcome { count_label: label, notes, status: String::new() }
}

/// The outcome of a keyword search: `{count} notes found` (0 when the answer
/// has no count).
pub fn text_search_outcome<N>(count: Option<u64>, notes: Vec<N>) -> (r: SearchOutcome<N>)
    ensures
        r.count_label@ == decimal(
            match count {
                Some(c) => c as nat,
                None => 0,
            },
        ) + " notes found"@,
        r.notes@ == notes@,
        r.status@ == Seq::<char>::empty(),
{
    let c: u64 = match count {
        Some(c) => c,
        None => 0,
    };
    let mut label = decimal_string(c);
    label.append(" notes found");
    SearchOutcome { count_label: label, notes, status: String::new() }
}

/// The outcome of a semantic search: the results found (with a hint when
/// AI was not available), or none with the error.
pub fn semantic_search_outcome<N>(results: Option<Vec<N>>, available: bool, error: &str) -> (r:
    SearchOutcome<N>)
    ensures
        match results {
            Some(v) => r.count_label@ == decimal(v@.len()) + " similar notes"@ && r.notes@ == v@
                && r.status@ == if available {
                Seq::<char>::empty()
            } else {
                "AI not available for semantic search"@
            },
            None => r.count_label@ == "0 notes"@ && r.notes@.len() == 0 && r.status@ == if error@.len()
                == 0 {
                "Search failed"@
            } else {
                error_line(error@)
            },
        },
{
    match results {
        Some(v) => {
            let mut label = decimal_string(v.len() as u64);
            label.append(" similar notes");
            SearchOutcome {
                count_label: label,
                notes: v,
                status: if available {
                    String::new()
                } else {
                    String::from_str("AI not available for semantic search")
                },
            }
        },
        None => SearchOutcome {
            count_label: String::from_str("0 notes"),
            notes: Vec::new(),
            status: if error.is_empty() {
                String::from_str("Search failed")
            } else {
                let mut r = String::from_str("Error: ");
                r.append(error);
                r
            },
        },
    }
}

/// The date part of a `%Y-%m-%d %H:%M:%S` timestamp: up to the first space.
pub fn note_date(created_at: &str) -> (r: String)
    ensures
        r@ == split_on(created_at@, ' ')[0],
{
    let pieces = split_chars(&chars_of(created_at), ' ');
    proof {
        lemma_split_on_nonempty(created_at@, ' ');
        assert(char_views(pieces@)[0] == pieces@[0]@);
    }
    string_from_chars(&pieces[0])
}

/// The first `n` characters of `s`.
pub fn first_chars(s: &str, n: usize) -> (r: String)
    ensures
        r@ == first_n(s@, n as nat),
{
    let cs = chars_of(s);
    let mut out: Vec<char> = Vec::new();
    let mut i: usize = 0;
    while i < cs.len() && i < n
        invariant
            i <= cs.len(),
            i <= n,
            out@ == cs@.take(i as int),
        decreases cs.len() - i,
    {
        out.push(cs[i]);
        assert(out@ =~= cs@.take(i + 1));
        i += 1;
    }
    assert(cs@.take(cs.len() as int) =~= cs@);
    string_from_chars(&out)
}

/// How one note is shown in a result list: a similarity line for semantic
/// results, the first 100 characters, the tags in brackets, the summary when
/// there is one, the date and a separator.
pub open spec fn note_display_text(
    similarity_percent: Option<u64>,
    txt: Seq<char>,
    tags: Seq<char>,
    summary: Seq<char>,
    date: Seq<char>,
) -> Seq<char> {
    let head = match similarity_percent {
        Some(p) => "\u{1F50D} "@ + decimal(p as nat) + "% similar\n"@,
        None => seq![],
    };
    let base = head + first_n(txt, 100) + "\n["@ + tags + "]"@;
    let with_summary = if summary.len() == 0 {
        base
    } else {
        base + "\n\u{1F4DD} Summary: "@ + summary
    };
    with_summary + "\n\u{1F4C5} "@ + date + "\n---"@
}

/// How one note is shown in a result list.
pub fn note_display(
    similarity_percent: Option<u64>,
    txt: &str,
    tags: &str,
    summary: &str,
    date: &str,
) -> (r: String)
    ensures
        r@ == note_display_text(similarity_percent, txt@, tags@, summary@, date@),
{
    let mut r = String::new();
    match similarity_percent {
        Some(p) => {
            r.append("\u{1F50D} ");
            r.append(decimal_string(p).as_str());
            r.append("% similar\n");
        },
        None => {},
    }
    r.append(first_chars(txt, 100).as_str());
    r.append("\n[");
    r.append(tags);
    r.append("]");
    if !summary.is_empty() {
        r.append("\n\u{1F4DD} Summary: ");
        r.append(summary);
    }
    r.append("\n\u{1F4C5} ");
    r.append(date);
    r.append("\n---");
    r
}

/// A note as the category overview sees it.
pub struct CategoryNote {
    pub category: Option<String>,
    pub txt: String,
}

/// A note's category, `uncategorized` when it has none.
pub open spec fn category_key(n: CategoryNote) -> Seq<char> {
    match opt_str(n.category) {
        Some(c) => c,
        None => "uncategorized"@,
    }
}

/// The first 50 characters of the notes of category `k`, in order.
pub open spec fn group_items(notes: Seq<CategoryNote>, k: Seq<char>) -> Seq<Seq<char>> {
    notes.filter(|n: CategoryNote| category_key(n) == k).map_values(
        |n: CategoryNote| first_n(n.txt@, 50),
    )
}

/// The lines of one category: a header with the count, up to five notes,
/// a line counting the rest, and an empty line.
pub open spec fn group_lines(k: Seq<char>, items: Seq<Seq<char>>) -> Seq<Seq<char>> {
    seq!["\u{1F4C1} "@ + k + " ("@ + decimal(items.len()) + " notes)"@] + first_n(items, 5).map_values(
        |i: Seq<char>| "  \u{2022} "@ + i,
    ) + (if items.len() > 5 {
        seq!["  ... and "@ + decimal((items.len() - 5) as nat) + " more"@]
    } else {
        seq![]
    }) + seq![Seq::<char>::empty()]
}

/// The lines of the given categories, in order.
pub open spec fn overview_lines(keys: Seq<Seq<char>>, notes: Seq<CategoryNote>) -> Seq<Seq<char>>
    decreases keys.len(),
{
    if keys.len() == 0 {
        seq![]
    } else {
        overview_lines(keys.drop_last(), notes) + group_lines(
            keys.last(),
            group_items(notes, keys.last()),
        )
    }
}

/// The notes grouped by category, categories in sorted order.
pub open spec fn category_overview_text(notes: Seq<CategoryNote>) -> Seq<char> {
    if notes.len() == 0 {
        "No notes found. Run 'Organize Notes' to categorize."@
    } else {
        join(
            overview_lines(sorted_distinct(notes.map_values(|n: CategoryNote| category_key(n))), notes),
            seq!['\n'],
        )
    }
}

fn key_of(n: &CategoryNote) -> (r: Vec<char>)
    ensures
        r@ == category_key(*n),
{
    match &n.category {
        Some(c) => chars_of(c.as_str()),
        None => chars_of("uncategorized"),
    }
}

fn push_group_lines(parts: &mut Vec<String>, k: &Vec<char>, items: &Vec<String>)
    ensures
        string_views(final(parts)@) == string_views(old(parts)@) + group_lines(k@, string_views(items@)),
{
    let ghost start = string_views(parts@);
    let ghost iv = string_views(items@);
    let mut header = String::from_str("\u{1F4C1} ");
    header.append(string_from_chars(k).as_str());
    header.append(" (");
    header.append(decimal_string(items.len() as u64).as_str());
    header.append(" notes)");
    parts.push(header);
    let ghost after_header = string_views(parts@);
    let shown: usize = if items.len() > 5 {
        5
    } else {
        items.len()
    };
    let ghost bullet = |i: Seq<char>| "  \u{2022} "@ + i;
    let mut t: usize = 0;
    assert(first_n(iv, 5) =~= iv.take(shown as int));
    while t < shown
        invariant
            t <= shown,
            shown <= items.len(),
            iv == string_views(items@),
            first_n(iv, 5) == iv.take(shown as int),
            bullet == (|i: Seq<char>| "  \u{2022} "@ + i),
            string_views(parts@) == after_header + iv.take(t as int).map_values(bullet),
        decreases shown - t,
    {
        let mut line = String::from_str("  \u{2022} ");
        line.append(items[t].as_str());
        let ghost before = string_views(parts@);
        parts.push(line);
        assert(string_views(parts@) =~= before.push(bullet(iv[t as int])));
        assert(iv.take(t + 1) =~= iv.take(t as int).push(iv[t as int]));
        assert(after_header + iv.take(t + 1).map_values(bullet) =~= (after_header + iv.take(
            t as int,
        ).map_values(bullet)).push(bullet(iv[t as int])));
        t += 1;
    }
    let ghost after_items = string_views(parts@);
    if items.len() > 5 {
        let mut more = String::from_str("  ... and ");
        more.append(decimal_string((items.len() - 5) as u64).as_str());
        more.append(" more");
        parts.push(more);
        assert(string_views(parts@) =~= after_items.push(more@));
    } else {
        assert(string_views(parts@) =~= after_items + Seq::<Seq<char>>::empty());
    }
    let ghost after_more = string_views(parts@);
    parts.push(String::new());
    assert(string_views(parts@) =~= after_more.push(Seq::<char>::empty()));
    assert(string_views(parts@) =~= start + group_lines(k@, iv));
}

/// Load notes grouped by category, formatted for display: for each
/// category, in sorted order, its count and up to five note openings.
pub fn category_overview(notes: &Vec<CategoryNote>) -> (r: String)
    ensures
        r@ == category_overview_text(notes@),
{
    if notes.len() == 0 {
        return String::from_str("No notes found. Run 'Organize Notes' to categorize.");
    }
    let ghost nv = notes@;
    let ghost keyf = |n: CategoryNote| category_key(n);
    let mut all_keys: Vec<Vec<char>> = Vec::new();
    let mut i: usize = 0;
    while i < notes.len()
        invariant
            i <= notes.len(),
            nv == notes@,
            keyf == (|n: CategoryNote| category_key(n)),
            vec_views(all_keys@) == nv.take(i as int).map_values(keyf),
        decreases notes.len() - i,
    {
        let ghost before = vec_views(all_keys@);
        all_keys.push(key_of(&notes[i]));
        assert(vec_views(all_keys@) =~= before.push(keyf(nv[i as int])));
        assert(nv.take(i + 1) =~= nv.take(i as int).push(nv[i as int]));
        i += 1;
    }
    assert(nv.take(notes.len() as int) =~= nv);
    let keys = sort_distinct(&all_keys);
    let ghost kv = vec_views(keys@);
    let mut parts: Vec<String> = Vec::new();
    let mut g: usize = 0;
    assert(kv.take(0) =~= Seq::<Seq<char>>::empty());
    while g < keys.len()
        invariant
            g <= keys.len(),
            nv == notes@,
            kv == vec_views(keys@),
            string_views(parts@) == overview_lines(kv.take(g as int), nv),
        decreases keys.len() - g,
    {
        let k = &keys[g];
        let ghost pred = |n: CategoryNote| category_key(n) == k@;
        let ghost cut = |n: CategoryNote| first_n(n.txt@, 50);
        let mut items: Vec<String> = Vec::new();
        let mut j: usize = 0;
        assert(nv.take(0).filter(pred) =~= Seq::<CategoryNote>::empty());
        while j < notes.len()
            invariant
                j <= notes.len(),
                nv == notes@,
                pred == (|n: CategoryNote| category_key(n) == k@),
                cut == (|n: CategoryNote| first_n(n.txt@, 50)),
                string_views(items@) == nv.take(j as int).filter(pred).map_values(cut),
            decreases notes.len() - j,
        {
            let nk = key_of(&notes[j]);
            reveal_with_fuel(Seq::<_>::filter, 1);
            assert(nv.take(j + 1).drop_last() =~= nv.take(j as int));
            assert(nv.take(j + 1).last() == nv[j as int]);
            if crate::order::chars_eq(&nk, k) {
                let ghost before = string_views(items@);
                items.push(first_chars(notes[j].txt.as_str(), 50));
                assert(string_views(items@) =~= before.push(cut(nv[j as int])));
                assert(nv.take(j + 1).filter(pred) =~= nv.take(j as int).filter(pred).push(
                    nv[j as int],
                ));
            } else {
                assert(nv.take(j + 1).filter(pred) =~= nv.take(j as int).filter(pred));
            }
            j += 1;
        }
        assert(nv.take(notes.len() as int) =~= nv);
        assert(string_views(items@) == group_items(nv, k@));
        push_group_lines(&mut parts, k, &items);
        assert(kv.take(g + 1).drop_last() =~= kv.take(g as int));
        assert(kv.take(g + 1).last() == k@);
        g += 1;
    }
    assert(kv.take(keys.len() as int) =~= kv);
    let nl = "\n";
    proof {
        reveal_strlit("\n");
        assert(nl@ =~= seq!['\n']);
    }
    join_strings(&parts, nl)
}

} // verus!

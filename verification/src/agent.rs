//! Agent memory on top of notes: memories are notes whose tags carry the
//! agent, the topic and the importance, and recall filters by them.
use crate::actions::{category_counts, count_by_category, count_pairs};
use crate::foreign::{json_string, string_from_chars, to_json_string};
use crate::query::{decimal, decimal_string, signed_decimal};
use crate::text::{
    char_views, chars_of, contains_chars, has_piece, join, join_strings, split_chars, split_on,
    string_views, trim_chars, trim_ws,
};
use vstd::prelude::*;

verus! {

/// The pieces of an agent memory's tags: `agent:{id}` and `topic:{topic}`
/// when given and non-empty, `importance:{level}` (medium by default), and
/// the user's tags when non-empty.
pub open spec fn agent_tag_parts(
    user_tags: Option<Seq<char>>,
    agent_id: Option<Seq<char>>,
    topic: Option<Seq<char>>,
    importance: Option<Seq<char>>,
) -> Seq<Seq<char>> {
    (match agent_id {
        Some(a) if a.len() > 0 => seq!["agent:"@ + a],
        _ => seq![],
    }) + (match topic {
        Some(t) if t.len() > 0 => seq!["topic:"@ + t],
        _ => seq![],
    }) + seq![
        "importance:"@ + match importance {
            Some(i) => i,
            None => "medium"@,
        },
    ] + (match user_tags {
        Some(u) if u.len() > 0 => seq![u],
        _ => seq![],
    })
}

/// The views of an optional string slice.
pub open spec fn opt_view(o: Option<&str>) -> Option<Seq<char>> {
    match o {
        Some(s) => Some(s@),
        None => None,
    }
}

/// Build a combined tags string from user tags and agent metadata.
pub fn build_agent_tags(
    user_tags: Option<&str>,
    agent_id: Option<&str>,
    topic: Option<&str>,
    importance: Option<&str>,
) -> (r: String)
    ensures
        r@ == join(
            agent_tag_parts(opt_view(user_tags), opt_view(agent_id), opt_view(topic), opt_view(importance)),
            seq![','],
        ),
{
    let mut parts: Vec<String> = Vec::new();
    let ghost p0 = string_views(parts@);
    match agent_id {
        Some(a) => if !a.is_empty() {
            let mut s = String::from_str("agent:");
            s.append(a);
            parts.push(s);
        },
        None => {},
    }
    let ghost p1 = string_views(parts@);
    assert(p1 =~= p0 + match opt_view(agent_id) {
        Some(a) if a.len() > 0 => seq!["agent:"@ + a],
        _ => Seq::<Seq<char>>::empty(),
    });
    match topic {
        Some(t) => if !t.is_empty() {
            let mut s = String::from_str("topic:");
            s.append(t);
            parts.push(s);
        },
        None => {},
    }
    let ghost p2 = string_views(parts@);
    assert(p2 =~= p1 + match opt_view(topic) {
        Some(t) if t.len() > 0 => seq!["topic:"@ + t],
        _ => Seq::<Seq<char>>::empty(),
    });
    let mut imp = String::from_str("importance:");
    match importance {
        Some(i) => imp.append(i),
        None => imp.append("medium"),
    }
    parts.push(imp);
    let ghost p3 = string_views(parts@);
    assert(p3 =~= p2.push(parts@.last()@));
    match user_tags {
        Some(u) => if !u.is_empty() {
            parts.push(String::from_str(u));
        },
        None => {},
    }
    assert(string_views(parts@) =~= p3 + match opt_view(user_tags) {
        Some(u) if u.len() > 0 => seq![u],
        _ => Seq::<Seq<char>>::empty(),
    });
    assert(string_views(parts@) =~= agent_tag_parts(
        opt_view(user_tags),
        opt_view(agent_id),
        opt_view(topic),
        opt_view(importance),
    ));
    let comma = ",";
    proof {
        reveal_strlit(",");
        assert(comma@ =~= seq![',']);
    }
    join_strings(&parts, comma)
}

/// Whether a memory's tags pass the recall filters: they contain
/// `agent:{id}` and `topic:{topic}` for the filters given.
pub open spec fn recall_match(tags: Seq<char>, agent_id: Option<Seq<char>>, topic: Option<Seq<char>>) -> bool {
    (match agent_id {
        Some(a) => has_piece(tags, "agent:"@ + a),
        None => true,
    }) && (match topic {
        Some(t) => has_piece(tags, "topic:"@ + t),
        None => true,
    })
}

/// Each piece of a joined text occurs in it.
proof fn lemma_join_has_piece(ws: Seq<Seq<char>>, d: Seq<char>, k: int)
    requires
        0 <= k < ws.len(),
    ensures
        has_piece(join(ws, d), ws[k]),
    decreases ws.len(),
{
    let j = join(ws, d);
    if ws.len() == 1 {
        let i: int = 0;
        assert(j.subrange(i, i + ws[k].len()) =~= ws[k]);
    } else {
        let front = join(ws.drop_last(), d);
        if k == ws.len() - 1 {
            let i: int = (front.len() + d.len()) as int;
            assert(j.subrange(i, i + ws[k].len()) =~= ws[k]);
        } else {
            lemma_join_has_piece(ws.drop_last(), d, k);
            assert(ws.drop_last()[k] == ws[k]);
            let i = choose|i: int|
                0 <= i && i + ws[k].len() <= front.len() && #[trigger] front.subrange(i, i + ws[k].len())
                    == ws[k];
            assert(j.subrange(i, i + ws[k].len()) =~= front.subrange(i, i + ws[k].len()));
        }
    }
}

/// A memory is found again by what it was stored with: the tags built for a
/// memory of a non-empty agent id and topic pass recall by that agent and
/// topic, by either alone, and with no filter, whatever its importance and
/// own tags.
pub proof fn law_memory_recalled_by_its_agent_and_topic(
    user_tags: Option<Seq<char>>,
    a: Seq<char>,
    t: Seq<char>,
    importance: Option<Seq<char>>,
)
    requires
        a.len() > 0,
        t.len() > 0,
    ensures
        ({
            let stored = join(agent_tag_parts(user_tags, Some(a), Some(t), importance), seq![',']);
            &&& has_piece(stored, "agent:"@ + a)
            &&& has_piece(stored, "topic:"@ + t)
            &&& recall_match(stored, Some(a), Some(t))
            &&& recall_match(stored, Some(a), None)
            &&& recall_match(stored, None, Some(t))
            &&& recall_match(stored, None, None)
        }),
{
    let parts = agent_tag_parts(user_tags, Some(a), Some(t), importance);
    assert(parts[0] == "agent:"@ + a);
    assert(parts[1] == "topic:"@ + t);
    lemma_join_has_piece(parts, seq![','], 0);
    lemma_join_has_piece(parts, seq![','], 1);
}

/// The positions of the memories recall keeps, in order.
pub open spec fn recall_positions(
    tags: Seq<Seq<char>>,
    agent_id: Option<Seq<char>>,
    topic: Option<Seq<char>>,
) -> Seq<int>
    decreases tags.len(),
{
    if tags.len() == 0 {
        seq![]
    } else {
        let prev = recall_positions(tags.drop_last(), agent_id, topic);
        if recall_match(tags.last(), agent_id, topic) {
            prev.push(tags.len() - 1)
        } else {
            prev
        }
    }
}

/// Recall filters by agent and by topic independently: a memory is kept
/// exactly when its tags contain `agent:{id}` if an agent id is given and
/// contain `topic:{topic}` if a topic is given, whether or not the other
/// filter is given; the kept positions come in the order of the results.
pub proof fn law_recall_filters_independently(
    tags: Seq<Seq<char>>,
    agent_id: Option<Seq<char>>,
    topic: Option<Seq<char>>,
)
    ensures
        forall|k: int|
            #![trigger recall_positions(tags, agent_id, topic).contains(k)]
            recall_positions(tags, agent_id, topic).contains(k) <==> 0 <= k < tags.len() && (
            agent_id matches Some(a) ==> has_piece(tags[k], "agent:"@ + a)) && (topic matches Some(
                t,
            ) ==> has_piece(tags[k], "topic:"@ + t)),
        forall|i: int, j: int|
            0 <= i < j < recall_positions(tags, agent_id, topic).len() ==> #[trigger] recall_positions(
                tags,
                agent_id,
                topic,
            )[i] < #[trigger] recall_positions(tags, agent_id, topic)[j],
    decreases tags.len(),
{
    let ps = recall_positions(tags, agent_id, topic);
    if tags.len() > 0 {
        let d = tags.drop_last();
        let x = tags.len() - 1;
        law_recall_filters_independently(d, agent_id, topic);
        let prev = recall_positions(d, agent_id, topic);
        assert forall|k: int|
            #![trigger ps.contains(k)]
            ps.contains(k) <==> 0 <= k < tags.len() && (agent_id matches Some(a) ==> has_piece(
                tags[k],
                "agent:"@ + a,
            )) && (topic matches Some(t) ==> has_piece(tags[k], "topic:"@ + t)) by {
            if 0 <= k < x {
                assert(d[k] == tags[k]);
            }
            if ps.contains(k) {
                let w = choose|w: int| 0 <= w < ps.len() && ps[w] == k;
                if w < prev.len() {
                    assert(prev[w] == k);
                    assert(prev.contains(k));
                }
            }
            if 0 <= k < x && prev.contains(k) {
                let w = choose|w: int| 0 <= w < prev.len() && prev[w] == k;
                assert(ps[w] == k);
            }
            if k == x && recall_match(tags.last(), agent_id, topic) {
                assert(ps[ps.len() - 1] == k);
            }
        }
        assert forall|i: int, j: int| 0 <= i < j < ps.len() implies #[trigger] ps[i] < #[trigger] ps[j] by {
            if j < prev.len() {
                assert(prev[i] < prev[j]);
            } else {
                assert(prev.contains(prev[i]));
            }
        }
    }
}

/// The positions (into the search results, given by their tags) of the
/// memories recall answers with: those passing the filters, at most `limit`
/// of them (no limit when it is negative).
pub fn recall_keep(tags: &Vec<String>, agent_id: Option<&str>, topic: Option<&str>, limit: i64) -> (r:
    Vec<usize>)
    ensures
        r@.map_values(|i: usize| i as int) == if limit < 0 {
            recall_positions(string_views(tags@), opt_view(agent_id), opt_view(topic))
        } else {
            crate::text::first_n(
                recall_positions(string_views(tags@), opt_view(agent_id), opt_view(topic)),
                limit as nat,
            )
        },
        forall|j: int|
            0 <= j < r@.len() ==> (#[trigger] r@[j] as int) < tags@.len() && (agent_id matches Some(a)
                ==> has_piece(tags@[r@[j] as int]@, "agent:"@ + a@)) && (topic matches Some(t)
                ==> has_piece(tags@[r@[j] as int]@, "topic:"@ + t@)),
        forall|j: int, l: int| 0 <= j < l < r@.len() ==> #[trigger] r@[j] < #[trigger] r@[l],
        limit >= 0 ==> r@.len() <= limit,
{
    let ghost tv = string_views(tags@);
    let agent_pat: Option<Vec<char>> = match agent_id {
        Some(a) => {
            let mut s = String::from_str("agent:");
            s.append(a);
            Some(chars_of(s.as_str()))
        },
        None => None,
    };
    let topic_pat: Option<Vec<char>> = match topic {
        Some(t) => {
            let mut s = String::from_str("topic:");
            s.append(t);
            Some(chars_of(s.as_str()))
        },
        None => None,
    };
    let mut kept: Vec<usize> = Vec::new();
    let mut i: usize = 0;
    while i < tags.len()
        invariant
            i <= tags.len(),
            tv == string_views(tags@),
            agent_pat matches Some(p) ==> agent_id matches Some(a) && p@ == "agent:"@ + a@,
            agent_pat is None ==> agent_id is None,
            topic_pat matches Some(p) ==> topic matches Some(t) && p@ == "topic:"@ + t@,
            topic_pat is None ==> topic is None,
            kept@.map_values(|k: usize| k as int) == recall_positions(
                tv.take(i as int),
                opt_view(agent_id),
                opt_view(topic),
            ),
        decreases tags.len() - i,
    {
        let t = chars_of(tags[i].as_str());
        let agent_ok = match &agent_pat {
            Some(p) => contains_chars(&t, p),
            None => true,
        };
        let topic_ok = match &topic_pat {
            Some(p) => contains_chars(&t, p),
            None => true,
        };
        assert(tv.take(i + 1).drop_last() =~= tv.take(i as int));
        assert(tv.take(i + 1).last() == t@);
        if agent_ok && topic_ok {
            let ghost before = kept@.map_values(|k: usize| k as int);
            kept.push(i);
            assert(kept@.map_values(|k: usize| k as int) =~= before.push(i as int));
        }
        i += 1;
    }
    assert(tv.take(tags.len() as int) =~= tv);
    let ghost all = kept@.map_values(|k: usize| k as int);
    let r = if limit >= 0 && (limit as u64) < (kept.len() as u64) {
        let n = limit as usize;
        let mut r: Vec<usize> = Vec::new();
        let mut j: usize = 0;
        while j < n
            invariant
                j <= n,
                n < kept@.len(),
                all == kept@.map_values(|k: usize| k as int),
                r@.map_values(|k: usize| k as int) == all.take(j as int),
            decreases n - j,
        {
            let ghost before = r@.map_values(|k: usize| k as int);
            r.push(kept[j]);
            assert(r@.map_values(|k: usize| k as int) =~= before.push(all[j as int]));
            assert(all.take(j + 1) =~= all.take(j as int).push(all[j as int]));
            j += 1;
        }
        r
    } else {
        kept
    };
    proof {
        let ps = recall_positions(tv, opt_view(agent_id), opt_view(topic));
        law_recall_filters_independently(tv, opt_view(agent_id), opt_view(topic));
        let rm = r@.map_values(|k: usize| k as int);
        assert forall|j: int| 0 <= j < r@.len() implies rm[j] == ps[j] && ps.contains(ps[j]) by {
            assert(rm[j] == ps[j]);
        }
        assert forall|j: int|
            0 <= j < r@.len() implies (#[trigger] r@[j] as int) < tags@.len() && (agent_id matches Some(a)
                ==> has_piece(tags@[r@[j] as int]@, "agent:"@ + a@)) && (topic matches Some(t)
                ==> has_piece(tags@[r@[j] as int]@, "topic:"@ + t@)) by {
            assert(rm[j] == r@[j] as int);
            assert(ps.contains(ps[j]));
            assert(tv[r@[j] as int] == tags@[r@[j] as int]@);
        }
        assert forall|j: int, l: int| 0 <= j < l < r@.len() implies #[trigger] r@[j] < #[trigger] r@[l] by {
            assert(rm[j] == ps[j] && rm[l] == ps[l]);
        }
    }
    r
}

/// The number of search results recall asks for: five times its limit (10
/// by default), so that filtering leaves enough.
pub fn recall_fetch_limit(limit: Option<i64>) -> (r: i64)
    requires
        match limit {
            Some(l) => -0x1999_9999_9999_9999 <= l <= 0x1999_9999_9999_9999,
            None => true,
        },
    ensures
        r == 5 * match limit {
            Some(l) => l as int,
            None => 10,
        },
{
    match limit {
        Some(l) => l * 5,
        None => 50,
    }
}

/// The tag marking memories of a topic.
pub fn topic_tag(topic: &str) -> (r: String)
    ensures
        r@ == "topic:"@ + topic@,
{
    let mut r = String::from_str("topic:");
    r.append(topic);
    r
}

/// The tags of the temporary note a topic summary is made from.
pub fn temp_summary_tags(topic: &str) -> (r: String)
    ensures
        r@ == "_temp_summary,topic:"@ + topic@,
{
    let mut r = String::from_str("_temp_summary,topic:");
    r.append(topic);
    r
}

/// The texts of a topic's memories, separated by rules, as one text to
/// summarize.
pub fn combined_text(texts: &Vec<String>) -> (r: String)
    ensures
        r@ == join(string_views(texts@), "\n\n---\n\n"@),
{
    join_strings(texts, "\n\n---\n\n")
}

/// What has happened so far in summarizing a topic's memories.
pub enum ContextEvent {
    /// Nothing yet.
    Begun,
    /// The search for the topic's memories found `count` notes, with these
    /// texts.
    Found { count: usize, texts: Vec<String> },
    /// The temporary note holding the texts was inserted; `rowid` is the
    /// newest note's row id (negative when there is none).
    Inserted { count: usize, rowid: i64 },
    /// The temporary note was summarized (the summary empty when there was
    /// none).
    Summarized { count: usize, rowid: i64, summary: String },
    /// The temporary note was deleted.
    Deleted { count: usize, summary: String },
}

/// What to do next in summarizing a topic's memories.
pub enum ContextStep {
    /// Search the notes for the query, at most `limit` of them.
    Search { query: String, limit: i64 },
    /// Insert a note with this text and these tags.
    Insert { txt: String, tags: String },
    /// Summarize the note with this row id.
    Summarize { rowid: i64 },
    /// Delete the note with this row id.
    Delete { rowid: i64 },
    /// Answer with this JSON text; done.
    Answer(String),
}

/// The answer when no memory has the topic.
pub open spec fn no_memories_text(topic: Seq<char>) -> Seq<char> {
    "{\"error\":\"No memories found for this topic\",\"note_count\":0,\"summary\":null,\"topic\":"@
        + json_string(topic) + "}"@
}

/// The answer when the temporary note could not be made.
pub open spec fn no_temp_note_text() -> Seq<char> {
    "{\"error\":\"Failed to create temporary note for summarization\"}"@
}

/// The summary of a topic: how many memories it was made from, the
/// summary, the topic.
pub open spec fn context_summary_text(count: nat, summary: Seq<char>, topic: Seq<char>) -> Seq<char> {
    "{\"note_count\":"@ + decimal(count) + ",\"summary\":"@ + json_string(summary)
        + ",\"topic\":"@ + json_string(topic) + "}"@
}

/// The next step in summarizing the memories of a topic: search the notes
/// tagged with the topic (20 by default); with none found, answer so;
/// else put their texts into a temporary note, summarize it, delete it,
/// and answer with the summary and the number of memories.
pub fn summarize_context_step(topic: &str, max_notes: Option<i64>, event: ContextEvent) -> (r: ContextStep)
    ensures
        match event {
            ContextEvent::Begun => r matches ContextStep::Search { query, limit } && query@
                == "topic:"@ + topic@ && limit == match max_notes {
                Some(m) => m,
                None => 20i64,
            },
            ContextEvent::Found { count, texts } => if count == 0 {
                r matches ContextStep::Answer(a) && a@ == no_memories_text(topic@)
            } else {
                r matches ContextStep::Insert { txt, tags } && txt@ == join(
                    string_views(texts@),
                    "\n\n---\n\n"@,
                ) && tags@ == "_temp_summary,topic:"@ + topic@
            },
            ContextEvent::Inserted { count, rowid } => if rowid < 0 {
                r matches ContextStep::Answer(a) && a@ == no_temp_note_text()
            } else {
                r matches ContextStep::Summarize { rowid: x } && x == rowid
            },
            ContextEvent::Summarized { count, rowid, summary } => r matches ContextStep::Delete {
                rowid: x,
            } && x == rowid,
            ContextEvent::Deleted { count, summary } => r matches ContextStep::Answer(a) && a@
                == context_summary_text(count as nat, summary@, topic@),
        },
{
    match event {
        ContextEvent::Begun => {
            let limit: i64 = match max_notes {
                Some(m) => m,
                None => 20,
            };
            ContextStep::Search { query: topic_tag(topic), limit }
        },
        ContextEvent::Found { count, texts } => {
            if count == 0 {
                let mut a = String::from_str(
                    "{\"error\":\"No memories found for this topic\",\"note_count\":0,\"summary\":null,\"topic\":",
                );
                a.append(to_json_string(topic).as_str());
                a.append("}");
                ContextStep::Answer(a)
            } else {
                ContextStep::Insert { txt: combined_text(&texts), tags: temp_summary_tags(topic) }
            }
        },
        ContextEvent::Inserted { count, rowid } => {
            if rowid < 0 {
                ContextStep::Answer(
                    String::from_str(
                        "{\"error\":\"Failed to create temporary note for summarization\"}",
                    ),
                )
            } else {
                ContextStep::Summarize { rowid }
            }
        },
        ContextEvent::Summarized { count, rowid, summary } => ContextStep::Delete { rowid },
        ContextEvent::Deleted { count, summary } => {
            let mut a = String::from_str("{\"note_count\":");
            a.append(decimal_string(count as u64).as_str());
            a.append(",\"summary\":");
            a.append(to_json_string(summary.as_str()).as_str());
            a.append(",\"topic\":");
            a.append(to_json_string(topic).as_str());
            a.append("}");
            ContextStep::Answer(a)
        },
    }
}

/// `{"error":"Note with rowid {rowid} not found"}`.
pub fn note_not_found_response(rowid: i64) -> (r: String)
    ensures
        r@ == "{\"error\":\"Note with rowid "@ + signed_decimal(rowid as int) + " not found\"}"@,
{
    let mut r = String::from_str("{\"error\":\"Note with rowid ");
    r.append(crate::query::i64_string(rowid).as_str());
    r.append(" not found\"}");
    r
}

/// The topic a tag names: the rest of a trimmed tag that starts with
/// `topic:`, when not empty.
pub open spec fn topic_of_tag(tag: Seq<char>) -> Option<Seq<char>> {
    let t = trim_ws(tag);
    if t.len() > 6 && t.take(6) == "topic:"@ {
        Some(t.skip(6))
    } else {
        None
    }
}

/// The topics named in one tags string, in order.
pub open spec fn topics_in(tags: Seq<Seq<char>>) -> Seq<Seq<char>>
    decreases tags.len(),
{
    if tags.len() == 0 {
        seq![]
    } else {
        match topic_of_tag(tags.last()) {
            Some(t) => topics_in(tags.drop_last()).push(t),
            None => topics_in(tags.drop_last()),
        }
    }
}

/// The topics named in the tags strings of all memories, in order.
pub open spec fn all_topics(rows: Seq<Seq<char>>) -> Seq<Seq<char>>
    decreases rows.len(),
{
    if rows.len() == 0 {
        seq![]
    } else {
        all_topics(rows.drop_last()) + topics_in(split_on(rows.last(), ','))
    }
}

/// `x` placed before the first entry with a lower count (after all entries
/// with a count at least its own).
pub open spec fn insert_by_count(s: Seq<(Seq<char>, nat)>, x: (Seq<char>, nat)) -> Seq<
    (Seq<char>, nat),
>
    decreases s.len(),
{
    if s.len() == 0 {
        seq![x]
    } else if s[0].1 < x.1 {
        seq![x] + s
    } else {
        seq![s[0]] + insert_by_count(s.drop_first(), x)
    }
}

/// `s` sorted by decreasing count, keeping the order of equal counts.
pub open spec fn sort_by_count(s: Seq<(Seq<char>, nat)>) -> Seq<(Seq<char>, nat)>
    decreases s.len(),
{
    if s.len() == 0 {
        seq![]
    } else {
        insert_by_count(sort_by_count(s.drop_last()), s.last())
    }
}

/// The topics of all memories with their counts, most used first (equal
/// counts in order of first appearance).
pub open spec fn topic_counts(rows: Seq<Seq<char>>) -> Seq<(Seq<char>, nat)> {
    sort_by_count(category_counts(all_topics(rows)))
}

proof fn lemma_insert_at(s: Seq<(Seq<char>, nat)>, x: (Seq<char>, nat), i: int)
    requires
        0 <= i <= s.len(),
        forall|k: int| 0 <= k < i ==> s[k].1 >= x.1,
        i < s.len() ==> s[i].1 < x.1,
    ensures
        insert_by_count(s, x) == s.take(i).push(x) + s.skip(i),
    decreases s.len(),
{
    if s.len() == 0 {
        assert(s.take(i).push(x) + s.skip(i) =~= seq![x]);
    } else if i == 0 {
        assert(s.take(0).push(x) + s.skip(0) =~= seq![x] + s);
    } else {
        let t = s.drop_first();
        assert forall|k: int| 0 <= k < i - 1 implies t[k].1 >= x.1 by {
            assert(t[k] == s[k + 1]);
        }
        if i - 1 < t.len() {
            assert(t[i - 1] == s[i]);
        }
        lemma_insert_at(t, x, i - 1);
        assert(seq![s[0]] + (t.take(i - 1).push(x) + t.skip(i - 1)) =~= s.take(i).push(x) + s.skip(
            i,
        ));
    }
}

/// Placing an entry by its count keeps a list in decreasing count order
/// and keeps every entry.
proof fn lemma_insert_by_count_sorted(s: Seq<(Seq<char>, nat)>, x: (Seq<char>, nat))
    requires
        forall|i: int, j: int| 0 <= i < j < s.len() ==> #[trigger] s[i].1 >= #[trigger] s[j].1,
    ensures
        forall|i: int, j: int|
            0 <= i < j < insert_by_count(s, x).len() ==> #[trigger] insert_by_count(s, x)[i].1
                >= #[trigger] insert_by_count(s, x)[j].1,
        insert_by_count(s, x).to_multiset() == s.to_multiset().insert(x),
    decreases s.len(),
{
    broadcast use vstd::seq_lib::group_to_multiset_ensures;
    broadcast use vstd::multiset::group_multiset_axioms;

    let r = insert_by_count(s, x);
    if s.len() == 0 {
        assert(r =~= s.insert(0, x));
    } else if s[0].1 < x.1 {
        assert(r =~= s.insert(0, x));
        assert forall|i: int, j: int| 0 <= i < j < r.len() implies #[trigger] r[i].1 >= #[trigger] r[j].1 by {
            assert(r[j] == s[j - 1]);
            if i > 0 {
                assert(r[i] == s[i - 1]);
            } else if j - 1 > 0 {
                assert(s[0].1 >= s[j - 1].1);
            }
        }
    } else {
        let t = s.drop_first();
        assert forall|i: int, j: int| 0 <= i < j < t.len() implies #[trigger] t[i].1 >= #[trigger] t[j].1 by {
            assert(t[i] == s[i + 1] && t[j] == s[j + 1]);
        }
        lemma_insert_by_count_sorted(t, x);
        let rt = insert_by_count(t, x);
        assert(r =~= rt.insert(0, s[0]));
        assert(s =~= t.insert(0, s[0]));
        assert forall|i: int, j: int| 0 <= i < j < r.len() implies #[trigger] r[i].1 >= #[trigger] r[j].1 by {
            assert(r[j] == rt[j - 1]);
            if i > 0 {
                assert(r[i] == rt[i - 1]);
            } else {
                let e = rt[j - 1];
                assert(rt.contains(e));
                assert(rt.to_multiset().count(e) > 0);
                if e != x {
                    assert(t.to_multiset().count(e) > 0);
                    assert(t.contains(e));
                    let k = choose|k: int| 0 <= k < t.len() && t[k] == e;
                    assert(t[k] == s[k + 1]);
                }
            }
        }
        assert(r.to_multiset() =~= s.to_multiset().insert(x));
    }
}

/// Sorting by count orders the counts downwards and keeps every entry.
proof fn lemma_sort_by_count(s: Seq<(Seq<char>, nat)>)
    ensures
        forall|i: int, j: int|
            0 <= i < j < sort_by_count(s).len() ==> #[trigger] sort_by_count(s)[i].1
                >= #[trigger] sort_by_count(s)[j].1,
        sort_by_count(s).to_multiset() == s.to_multiset(),
    decreases s.len(),
{
    if s.len() > 0 {
        lemma_sort_by_count(s.drop_last());
        lemma_insert_by_count_sorted(sort_by_count(s.drop_last()), s.last());
        assert(s =~= s.drop_last().push(s.last()));
        s.drop_last().to_multiset_ensures();
    } else {
        assert(sort_by_count(s) =~= s);
    }
}

/// Topics are listed most used first: the counts never increase along the
/// list, and the listing keeps every (topic, count) entry that counting
/// gave.
pub proof fn law_topics_most_used_first(rows: Seq<Seq<char>>)
    ensures
        forall|i: int, j: int|
            0 <= i < j < topic_counts(rows).len() ==> #[trigger] topic_counts(rows)[i].1
                >= #[trigger] topic_counts(rows)[j].1,
        topic_counts(rows).to_multiset() == category_counts(all_topics(rows)).to_multiset(),
{
    lemma_sort_by_count(category_counts(all_topics(rows)));
}

/// The views of (topic, count) pairs.
pub open spec fn topic_count_views(v: Seq<(String, usize)>) -> Seq<(Seq<char>, nat)> {
    v.map_values(|p: (String, usize)| (p.0@, p.1 as nat))
}

/// The topics named in one tags string.
fn topics_of_row(row: &String, out: &mut Vec<String>)
    ensures
        string_views(final(out)@) == string_views(old(out)@) + topics_in(split_on(row@, ',')),
{
    let pieces = split_chars(&chars_of(row.as_str()), ',');
    let ghost ps = char_views(pieces@);
    let ghost start = string_views(out@);
    let mut i: usize = 0;
    assert(ps.take(0) =~= Seq::<Seq<char>>::empty());
    assert(start + topics_in(ps.take(0)) =~= start);
    let prefix = chars_of("topic:");
    while i < pieces.len()
        invariant
            i <= pieces.len(),
            ps == char_views(pieces@),
            prefix@ == "topic:"@,
            string_views(out@) == start + topics_in(ps.take(i as int)),
        decreases pieces.len() - i,
    {
        let t = trim_chars(&pieces[i]);
        assert(ps.take(i + 1).drop_last() =~= ps.take(i as int));
        assert(ps.take(i + 1).last() == pieces@[i as int]@);
        proof {
            reveal_strlit("topic:");
        }
        let mut starts = t.len() > 6;
        let mut k: usize = 0;
        while starts && k < 6
            invariant
                k <= 6,
                prefix@ == "topic:"@,
                prefix@.len() == 6,
                starts ==> t@.len() > 6,
                starts ==> forall|m: int| 0 <= m < k ==> t@[m] == prefix@[m],
                !starts ==> !(t@.len() > 6 && t@.take(6) == "topic:"@),
            decreases 6 - k,
        {
            if t[k] != prefix[k] {
                starts = false;
                assert(t@.take(6)[k as int] != prefix@[k as int]);
            }
            k += 1;
        }
        if starts {
            assert(t@.take(6) =~= prefix@);
            let mut rest: Vec<char> = Vec::new();
            let mut m: usize = 6;
            while m < t.len()
                invariant
                    6 <= m <= t.len(),
                    rest@ == t@.subrange(6, m as int),
                decreases t.len() - m,
            {
                rest.push(t[m]);
                assert(rest@ =~= t@.subrange(6, m + 1));
                m += 1;
            }
            assert(rest@ =~= t@.skip(6));
            let ghost before = string_views(out@);
            out.push(string_from_chars(&rest));
            assert(string_views(out@) =~= before.push(rest@));
        }
        i += 1;
    }
    assert(ps.take(pieces.len() as int) =~= ps);
}

/// List all topics with their memory counts, most used first, from the
/// tags strings of the memories.
pub fn list_topics(rows: &Vec<String>) -> (r: Vec<(String, usize)>)
    ensures
        topic_count_views(r@) == topic_counts(string_views(rows@)),
{
    let ghost rv = string_views(rows@);
    let mut names: Vec<String> = Vec::new();
    let mut i: usize = 0;
    assert(rv.take(0) =~= Seq::<Seq<char>>::empty());
    while i < rows.len()
        invariant
            i <= rows.len(),
            rv == string_views(rows@),
            string_views(names@) == all_topics(rv.take(i as int)),
        decreases rows.len() - i,
    {
        topics_of_row(&rows[i], &mut names);
        assert(rv.take(i + 1).drop_last() =~= rv.take(i as int));
        assert(rv.take(i + 1).last() == rows@[i as int]@);
        i += 1;
    }
    assert(rv.take(rows.len() as int) =~= rv);
    let counts = count_by_category(&names);
    let ghost cv = count_pairs(counts@);
    let mut sorted: Vec<(String, usize)> = Vec::new();
    let mut j: usize = 0;
    assert(cv.take(0) =~= Seq::<(Seq<char>, nat)>::empty());
    while j < counts.len()
        invariant
            j <= counts.len(),
            cv == count_pairs(counts@),
            topic_count_views(sorted@) == sort_by_count(cv.take(j as int)),
        decreases counts.len() - j,
    {
        let x = &counts[j];
        let ghost s = topic_count_views(sorted@);
        let mut p: usize = 0;
        while p < sorted.len() && sorted[p].1 >= x.1
            invariant
                p <= sorted@.len(),
                s == topic_count_views(sorted@),
                forall|k: int| 0 <= k < p ==> s[k].1 >= x.1 as nat,
            decreases sorted.len() - p,
        {
            p += 1;
        }
        proof {
            lemma_insert_at(s, (x.0@, x.1 as nat), p as int);
            assert(cv.take(j + 1).drop_last() =~= cv.take(j as int));
            assert(cv.take(j + 1).last() == (x.0@, x.1 as nat));
        }
        sorted.insert(p, (x.0.clone(), x.1));
        assert(topic_count_views(sorted@) =~= s.take(p as int).push((x.0@, x.1 as nat)) + s.skip(
            p as int,
        ));
        j += 1;
    }
    assert(cv.take(counts.len() as int) =~= cv);
    sorted
}

} // verus!

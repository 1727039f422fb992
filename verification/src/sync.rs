//! Syncing notes and embeddings between two devices: which notes each side
//! lacks, whether embeddings can be exchanged, and how a sync reports.
use crate::foreign::str_eq;
use crate::text::{join, join_strings, string_views};
use vstd::prelude::*;

verus! {

/// The entries of `candidates` that `known` lacks, in order.
pub open spec fn missing_from(candidates: Seq<Seq<char>>, known: Seq<Seq<char>>) -> Seq<Seq<char>> {
    candidates.filter(|u: Seq<char>| !known.contains(u))
}

/// Whether a list of strings holds `s`.
pub fn contains_string(v: &Vec<String>, s: &String) -> (r: bool)
    ensures
        r == string_views(v@).contains(s@),
{
    let mut i: usize = 0;
    while i < v.len()
        invariant
            i <= v.len(),
            forall|k: int| 0 <= k < i ==> v@[k]@ != s@,
        decreases v.len() - i,
    {
        if str_eq(v[i].as_str(), s.as_str()) {
            assert(string_views(v@)[i as int] == s@);
            return true;
        }
        i += 1;
    }
    proof {
        if string_views(v@).contains(s@) {
            let k = choose|k: int| 0 <= k < string_views(v@).len() && string_views(v@)[k] == s@;
            assert(v@[k]@ == s@);
        }
    }
    false
}

/// The entries of `candidates` that `known` lacks, in order.
pub fn uuids_missing_from(candidates: &Vec<String>, known: &Vec<String>) -> (r: Vec<String>)
    ensures
        string_views(r@) == missing_from(string_views(candidates@), string_views(known@)),
{
    let ghost cv = string_views(candidates@);
    let ghost kv = string_views(known@);
    let ghost absent = |u: Seq<char>| !kv.contains(u);
    let mut r: Vec<String> = Vec::new();
    let mut i: usize = 0;
    assert(cv.take(0).filter(absent) =~= Seq::<Seq<char>>::empty());
    while i < candidates.len()
        invariant
            i <= candidates.len(),
            cv == string_views(candidates@),
            kv == string_views(known@),
            absent == (|u: Seq<char>| !kv.contains(u)),
            string_views(r@) == cv.take(i as int).filter(absent),
        decreases candidates.len() - i,
    {
        reveal_with_fuel(Seq::<_>::filter, 1);
        assert(cv.take(i + 1).drop_last() =~= cv.take(i as int));
        assert(cv.take(i + 1).last() == candidates@[i as int]@);
        if !contains_string(known, &candidates[i]) {
            let ghost before = string_views(r@);
            r.push(candidates[i].clone());
            assert(string_views(r@) =~= before.push(candidates@[i as int]@));
        }
        i += 1;
    }
    assert(cv.take(candidates.len() as int) =~= cv);
    r
}

/// The notes a client offers that the server lacks (the server runs this
/// on the client's UUIDs and its own).
pub fn diff_uuid4_to_server(candidates: &Vec<String>, local: &Vec<String>) -> (r: Vec<String>)
    ensures
        string_views(r@) == missing_from(string_views(candidates@), string_views(local@)),
{
    uuids_missing_from(candidates, local)
}

/// The server's notes a client lacks (the server runs this on its own
/// UUIDs and the client's).
pub fn diff_uuid4_from_server(local: &Vec<String>, candidates: &Vec<String>) -> (r: Vec<String>)
    ensures
        string_views(r@) == missing_from(string_views(local@), string_views(candidates@)),
{
    uuids_missing_from(local, candidates)
}

/// Every candidate is either known or missing, and nothing missing is
/// known.
pub proof fn law_missing_partitions(candidates: Seq<Seq<char>>, known: Seq<Seq<char>>)
    ensures
        forall|u: Seq<char>|
            candidates.contains(u) ==> (known.contains(u) || missing_from(
                candidates,
                known,
            ).contains(u)),
        forall|u: Seq<char>| #[trigger]
            missing_from(candidates, known).contains(u) ==> candidates.contains(u) && !known.contains(
                u,
            ),
{
    let absent = |u: Seq<char>| !known.contains(u);
    assert forall|u: Seq<char>| candidates.contains(u) implies (known.contains(u) || missing_from(
        candidates,
        known,
    ).contains(u)) by {
        if !known.contains(u) {
            let i = choose|i: int| 0 <= i < candidates.len() && candidates[i] == u;
            candidates.lemma_filter_contains(absent, i);
        }
    }
    assert forall|u: Seq<char>| #[trigger]
        missing_from(candidates, known).contains(u) implies candidates.contains(u) && !known.contains(
        u,
    ) by {
        candidates.lemma_filter_contains_rev(absent, u);
        let f = candidates.filter(absent);
        let j = choose|j: int| 0 <= j < f.len() && f[j] == u;
        candidates.lemma_filter_pred(absent, j);
    }
}

/// A sync in both directions leaves each side with every note of either
/// side: the server gets what it lacked of the client's notes, the client
/// what it lacked of the server's.
pub proof fn law_sync_reaches_union(client: Seq<Seq<char>>, server: Seq<Seq<char>>)
    ensures
        (server + missing_from(client, server)).to_set() == client.to_set() + server.to_set(),
        (client + missing_from(server, client)).to_set() == client.to_set() + server.to_set(),
{
    law_missing_partitions(client, server);
    law_missing_partitions(server, client);
    let a = server + missing_from(client, server);
    let b = client + missing_from(server, client);
    assert forall|u: Seq<char>| #[trigger] a.to_set().contains(u) == (client.to_set()
        + server.to_set()).contains(u) by {
        if a.contains(u) {
            let i = choose|i: int| 0 <= i < a.len() && a[i] == u;
            if i < server.len() {
                assert(server[i] == u);
            } else {
                assert(missing_from(client, server)[i - server.len()] == u);
                assert(missing_from(client, server).contains(u));
            }
        }
        if server.contains(u) {
            let i = choose|i: int| 0 <= i < server.len() && server[i] == u;
            assert(a[i] == u);
        } else if client.contains(u) {
            assert(missing_from(client, server).contains(u));
            let j = choose|j: int|
                0 <= j < missing_from(client, server).len() && missing_from(client, server)[j] == u;
            assert(a[server.len() + j] == u);
        }
    }
    assert forall|u: Seq<char>| #[trigger] b.to_set().contains(u) == (client.to_set()
        + server.to_set()).contains(u) by {
        if b.contains(u) {
            let i = choose|i: int| 0 <= i < b.len() && b[i] == u;
            if i < client.len() {
                assert(client[i] == u);
            } else {
                assert(missing_from(server, client)[i - client.len()] == u);
                assert(missing_from(server, client).contains(u));
            }
        }
        if client.contains(u) {
            let i = choose|i: int| 0 <= i < client.len() && client[i] == u;
            assert(b[i] == u);
        } else if server.contains(u) {
            assert(missing_from(server, client).contains(u));
            let j = choose|j: int|
                0 <= j < missing_from(server, client).len() && missing_from(server, client)[j] == u;
            assert(b[client.len() + j] == u);
        }
    }
    assert(a.to_set() =~= client.to_set() + server.to_set());
    assert(b.to_set() =~= client.to_set() + server.to_set());
}

/// Whether a client's schema version is the server's.
pub fn is_version_match(version: &str, local_version: &str) -> (r: bool)
    ensures
        r == (version@ == local_version@),
{
    str_eq(version, local_version)
}

/// The model whose embeddings two devices can exchange: only when both have
/// embeddings and with the same model.
pub fn shared_model(local: Option<String>, remote: Option<String>) -> (r: Option<String>)
    ensures
        match (local, remote) {
            (Some(l), Some(m)) => if l@ == m@ {
                r matches Some(x) && x@ == l@
            } else {
                r is None
            },
            _ => r is None,
        },
{
    match (local, remote) {
        (Some(l), Some(m)) => if str_eq(l.as_str(), m.as_str()) {
            Some(l)
        } else {
            None
        },
        _ => None,
    }
}

/// The outcome of a two-way sync from the errors of its two directions:
/// `sync ok`, or the errors labelled by direction and joined with `; `.
pub open spec fn sync_outcome_text(to_err: Option<Seq<char>>, from_err: Option<Seq<char>>) -> Result<
    Seq<char>,
    Seq<char>,
> {
    let parts = (match to_err {
        Some(e) => seq!["sync-to-server: "@ + e],
        None => seq![],
    }) + (match from_err {
        Some(e) => seq!["sync-from-server: "@ + e],
        None => seq![],
    });
    if parts.len() == 0 {
        Ok("sync ok"@)
    } else {
        Err(join(parts, "; "@))
    }
}

/// The outcome of a two-way sync from the errors of its two directions.
pub fn sync_outcome(to_err: Option<String>, from_err: Option<String>) -> (r: Result<String, String>)
    ensures
        match (r, sync_outcome_text(crate::ai::opt_str(to_err), crate::ai::opt_str(from_err))) {
            (Ok(a), Ok(b)) => a@ == b,
            (Err(a), Err(b)) => a@ == b,
            _ => false,
        },
{
    let mut errors: Vec<String> = Vec::new();
    match to_err {
        Some(e) => {
            let mut m = String::from_str("sync-to-server: ");
            m.append(e.as_str());
            errors.push(m);
        },
        None => {},
    }
    let ghost first = string_views(errors@);
    match from_err {
        Some(e) => {
            let mut m = String::from_str("sync-from-server: ");
            m.append(e.as_str());
            errors.push(m);
            assert(string_views(errors@) =~= first.push(m@));
        },
        None => {},
    }
    let ghost parts = (match crate::ai::opt_str(to_err) {
        Some(e) => seq!["sync-to-server: "@ + e],
        None => Seq::<Seq<char>>::empty(),
    }) + (match crate::ai::opt_str(from_err) {
        Some(e) => seq!["sync-from-server: "@ + e],
        None => Seq::<Seq<char>>::empty(),
    });
    assert(string_views(errors@) =~= parts);
    if errors.len() == 0 {
        Ok(String::from_str("sync ok"))
    } else {
        Err(join_strings(&errors, "; "))
    }
}

/// The outcome of an embedding sync: `sync_embeddings ok`, or its error.
pub fn embeddings_sync_outcome(err: Option<String>) -> (r: Result<String, String>)
    ensures
        match err {
            None => r matches Ok(m) && m@ == "sync_embeddings ok"@,
            Some(e) => r matches Err(m) && m@ == "sync_embeddings error: "@ + e@,
        },
{
    match err {
        None => Ok(String::from_str("sync_embeddings ok")),
        Some(e) => {
            let mut m = String::from_str("sync_embeddings error: ");
            m.append(e.as_str());
            Err(m)
        },
    }
}

/// The error for an address that does not parse.
pub fn invalid_addr_message(addr: &str, err: &str) -> (r: String)
    ensures
        r@ == "server_addr "@ + addr@ + " invalid: "@ + err@,
{
    let mut r = String::from_str("server_addr ");
    r.append(addr);
    r.append(" invalid: ");
    r.append(err);
    r
}

/// The address a server advertises: the first interface that is not a
/// loopback, with port 3456; empty when there is none.
pub open spec fn server_addr_text(ifaces: Seq<(bool, Seq<char>)>) -> Seq<char>
    decreases ifaces.len(),
{
    if ifaces.len() == 0 {
        seq![]
    } else if !ifaces[0].0 {
        ifaces[0].1 + ":3456"@
    } else {
        server_addr_text(ifaces.drop_first())
    }
}

/// The views of (is loopback, address) pairs.
pub open spec fn iface_views(v: Seq<(bool, String)>) -> Seq<(bool, Seq<char>)> {
    v.map_values(|p: (bool, String)| (p.0, p.1@))
}

/// The address a server advertises, from its interfaces (is loopback, IP).
pub fn server_addr_of(ifaces: &Vec<(bool, String)>) -> (r: String)
    ensures
        r@ == server_addr_text(iface_views(ifaces@)),
{
    let ghost iv = iface_views(ifaces@);
    let mut i: usize = 0;
    assert(iv.skip(0) =~= iv);
    while i < ifaces.len()
        invariant
            i <= ifaces.len(),
            iv == iface_views(ifaces@),
            server_addr_text(iv) == server_addr_text(iv.skip(i as int)),
        decreases ifaces.len() - i,
    {
        if !ifaces[i].0 {
            let mut r = ifaces[i].1.clone();
            r.append(":3456");
            assert(iv.skip(i as int)[0] == (ifaces@[i as int].0, ifaces@[i as int].1@));
            return r;
        }
        assert(iv.skip(i as int).drop_first() =~= iv.skip(i + 1));
        assert(iv.skip(i as int)[0] == (ifaces@[i as int].0, ifaces@[i as int].1@));
        i += 1;
    }
    String::new()
}

/// Whether a sync may go on: only when both sides run the same schema
/// version.
pub fn version_gate(matched: bool) -> (r: Result<(), String>)
    ensures
        matched ==> r is Ok,
        !matched ==> (r matches Err(e) && e@ == "VERSION_NOT_MATCH"@),
{
    if matched {
        Ok(())
    } else {
        Err(String::from_str("VERSION_NOT_MATCH"))
    }
}

} // verus!

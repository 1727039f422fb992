//! Upgrading the database schema: which migrations a stored schema version
//! still needs, in order.
use crate::foreign::{parse_semver, semver_parts, str_eq};
use crate::query::{decimal, decimal_string};
use vstd::prelude::*;

verus! {

/// The schema version the code upgrades to.
pub open spec fn target_version() -> Seq<char> {
    "0.5.0"@
}

/// The migrations, in the order they run.
#[derive(Debug, Clone, Copy, PartialEq, Eq, Structural)]
pub enum Migration {
    /// 0.1.0: record the first version.
    MarkV010,
    /// 0.2.0: add the AI columns.
    AddAiColumns,
    /// 0.3.0: add the vector search table and fill it.
    AddVecNotes,
    /// 0.4.0: store AI tags as JSONB.
    AiTagsToJsonb,
    /// 0.5.0: add full-text search.
    AddFts5,
}

/// The version (major, minor) a migration brings the schema to; the patch
/// is 0.
pub open spec fn migration_version(m: Migration) -> (u64, u64) {
    match m {
        Migration::MarkV010 => (0, 1),
        Migration::AddAiColumns => (0, 2),
        Migration::AddVecNotes => (0, 3),
        Migration::AiTagsToJsonb => (0, 4),
        Migration::AddFts5 => (0, 5),
    }
}

/// All migrations, in order.
pub open spec fn all_migrations() -> Seq<Migration> {
    seq![
        Migration::MarkV010,
        Migration::AddAiColumns,
        Migration::AddVecNotes,
        Migration::AiTagsToJsonb,
        Migration::AddFts5,
    ]
}

/// Whether a parsed version (major, minor, patch, pre-release) comes before
/// the release `major.minor.0` in semantic-version order; a version that did
/// not parse comes before every version. A pre-release comes before its
/// release; build metadata does not make a version earlier.
pub open spec fn version_below(v: Option<(u64, u64, u64, Seq<char>)>, major: u64, minor: u64) -> bool {
    match v {
        None => true,
        Some(p) => p.0 < major || (p.0 == major && p.1 < minor) || (p.0 == major && p.1 == minor
            && p.2 == 0 && p.3.len() > 0),
    }
}

/// The migrations a stored version still needs, in order.
pub open spec fn pending_spec(v: Option<(u64, u64, u64, Seq<char>)>) -> Seq<Migration> {
    all_migrations().filter(
        |m: Migration| version_below(v, migration_version(m).0, migration_version(m).1),
    )
}

fn below(v: &Option<(u64, u64, u64, String)>, major: u64, minor: u64) -> (r: bool)
    ensures
        r == version_below(
            match v {
                Some(p) => Some((p.0, p.1, p.2, p.3@)),
                None => None,
            },
            major,
            minor,
        ),
{
    match v {
        None => true,
        Some(p) => p.0 < major || (p.0 == major && p.1 < minor) || (p.0 == major && p.1 == minor
            && p.2 == 0 && !p.3.as_str().is_empty()),
    }
}

/// The migrations a stored schema version still needs, in order.
pub fn pending_migrations(stored: &str) -> (r: Vec<Migration>)
    ensures
        r@ == pending_spec(semver_parts(stored@)),
{
    let v = parse_semver(stored);
    let ghost gv = semver_parts(stored@);
    let ghost f = |m: Migration| version_below(gv, migration_version(m).0, migration_version(m).1);
    let mut r: Vec<Migration> = Vec::new();
    reveal_with_fuel(Seq::<_>::filter, 6);
    let ghost all = all_migrations();
    assert(all.drop_last() =~= seq![
        Migration::MarkV010,
        Migration::AddAiColumns,
        Migration::AddVecNotes,
        Migration::AiTagsToJsonb,
    ]);
    assert(all.drop_last().drop_last() =~= seq![
        Migration::MarkV010,
        Migration::AddAiColumns,
        Migration::AddVecNotes,
    ]);
    assert(all.drop_last().drop_last().drop_last() =~= seq![
        Migration::MarkV010,
        Migration::AddAiColumns,
    ]);
    assert(all.drop_last().drop_last().drop_last().drop_last() =~= seq![Migration::MarkV010]);
    assert(seq![Migration::MarkV010].drop_last() =~= Seq::<Migration>::empty());
    if below(&v, 0, 1) {
        r.push(Migration::MarkV010);
    }
    if below(&v, 0, 2) {
        r.push(Migration::AddAiColumns);
    }
    if below(&v, 0, 3) {
        r.push(Migration::AddVecNotes);
    }
    if below(&v, 0, 4) {
        r.push(Migration::AiTagsToJsonb);
    }
    if below(&v, 0, 5) {
        r.push(Migration::AddFts5);
    }
    r
}

/// Whether another upgrade is running: the stored flag is `1`.
pub fn is_upgrading(flag: Option<&str>) -> (r: bool)
    ensures
        r == (flag matches Some(f) && f@ == "1"@),
{
    match flag {
        Some(f) => str_eq(f, "1"),
        None => false,
    }
}

/// The version text a migration stores.
pub fn migration_version_text(m: Migration) -> (r: String)
    ensures
        r@ == "0."@ + decimal(migration_version(m).1 as nat) + ".0"@,
{
    let minor: u64 = match m {
        Migration::MarkV010 => 1,
        Migration::AddAiColumns => 2,
        Migration::AddVecNotes => 3,
        Migration::AiTagsToJsonb => 4,
        Migration::AddFts5 => 5,
    };
    let mut r = String::from_str("0.");
    r.append(decimal_string(minor).as_str());
    r.append(".0");
    r
}

/// The version an upgrade leaves: that of the last migration it ran, or the
/// version it found when none was pending.
pub open spec fn version_after_upgrade(v: Option<(u64, u64, u64, Seq<char>)>) -> Option<
    (u64, u64, u64, Seq<char>),
> {
    let p = pending_spec(v);
    if p.len() == 0 {
        v
    } else {
        Some((migration_version(p.last()).0, migration_version(p.last()).1, 0u64, Seq::empty()))
    }
}

/// Upgrading twice is upgrading once: whatever version a database has, the
/// version its upgrade leaves needs no migration.
pub proof fn law_upgrade_is_idempotent(v: Option<(u64, u64, u64, Seq<char>)>)
    ensures
        pending_spec(version_after_upgrade(v)).len() == 0,
{
    reveal_with_fuel(Seq::<_>::filter, 6);
    let all = all_migrations();
    assert(all.drop_last() =~= seq![
        Migration::MarkV010,
        Migration::AddAiColumns,
        Migration::AddVecNotes,
        Migration::AiTagsToJsonb,
    ]);
    assert(all.drop_last().drop_last() =~= seq![
        Migration::MarkV010,
        Migration::AddAiColumns,
        Migration::AddVecNotes,
    ]);
    assert(all.drop_last().drop_last().drop_last() =~= seq![
        Migration::MarkV010,
        Migration::AddAiColumns,
    ]);
    assert(all.drop_last().drop_last().drop_last().drop_last() =~= seq![Migration::MarkV010]);
    assert(seq![Migration::MarkV010].drop_last() =~= Seq::<Migration>::empty());
    let p = pending_spec(v);
    if p.len() > 0 {
        // The last migration always runs when any does: it is the newest.
        assert(version_below(v, 0, 5));
        assert(p.last() == Migration::AddFts5);
    }
}

/// The migrations needed are a suffix of all migrations: once one is
/// needed, every later one is too.
pub proof fn law_pending_is_suffix(v: Option<(u64, u64, u64, Seq<char>)>, minor: u64, later: u64)
    requires
        minor <= later,
        version_below(v, 0, minor),
    ensures
        version_below(v, 0, later),
{
}

/// Whether a stored embedding fits the vector table: 384 four-byte floats.
pub fn fits_vec_table(len_bytes: usize) -> (r: bool)
    ensures
        r == (len_bytes / 4 == 384),
{
    len_bytes / 4 == 384
}

/// The migrations run in version order: 0.1.0, 0.2.0, 0.3.0, 0.4.0 and
/// 0.5.0, each later than the one before; each is pending exactly for the
/// stored versions below its own, so a database at any 0.1.x release still
/// needs every migration from the AI columns on.
pub proof fn law_migrations_in_version_order(v: Option<(u64, u64, u64, Seq<char>)>, p: u64, pre: Seq<char>)
    ensures
        all_migrations().len() == 5,
        forall|k: int|
            0 <= k < 5 ==> #[trigger] migration_version(all_migrations()[k]) == (0u64, (k + 1) as u64),
        forall|i: int, j: int|
            0 <= i < j < 5 ==> migration_version(#[trigger] all_migrations()[i]).1 < migration_version(
                #[trigger] all_migrations()[j],
            ).1,
        forall|m: Migration|
            pending_spec(v).contains(m) <==> all_migrations().contains(m) && match v {
                None => true,
                Some(x) => x.0 == 0 && (x.1 < migration_version(m).1 || (x.1 == migration_version(m).1
                    && x.2 == 0 && x.3.len() > 0)),
            },
        pending_spec(Some((0u64, 1u64, p, pre))).contains(Migration::AddAiColumns),
        migration_version(Migration::AddAiColumns) == (0u64, 2u64),
{
    reveal_with_fuel(Seq::<_>::filter, 6);
    let all = all_migrations();
    assert(all[0] == Migration::MarkV010);
    assert(all[1] == Migration::AddAiColumns);
    assert(all[2] == Migration::AddVecNotes);
    assert(all[3] == Migration::AiTagsToJsonb);
    assert(all[4] == Migration::AddFts5);
    let pred = |m: Migration| version_below(v, migration_version(m).0, migration_version(m).1);
    assert forall|m: Migration|
        pending_spec(v).contains(m) <==> all.contains(m) && match v {
            None => true,
            Some(x) => x.0 == 0 && (x.1 < migration_version(m).1 || (x.1 == migration_version(m).1
                && x.2 == 0 && x.3.len() > 0)),
        } by {
        assert(pending_spec(v) == all.filter(pred));
        if all.contains(m) && pred(m) {
            let k = choose|k: int| 0 <= k < all.len() && all[k] == m;
            all.lemma_filter_contains(pred, k);
        }
        if pending_spec(v).contains(m) {
            all.lemma_filter_contains_rev(pred, m);
        }
    }
    let w = Some((0u64, 1u64, p, pre));
    let pw = |m: Migration| version_below(w, migration_version(m).0, migration_version(m).1);
    all.lemma_filter_contains(pw, 1);
}

} // verus!

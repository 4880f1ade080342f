//! Migrations of the store. The version of a store is the number of the last
//! migration that ran; each one runs exactly once.
use vstd::prelude::*;

use crate::numerals::{decimal_nat, parse_u32, parsed_u32, u64_text};
use crate::text::texts;

verus! {

/// A statement to execute.
#[derive(Debug)]
pub struct Statement {
    pub sql: &'static str,
    /// The values of its parameters.
    pub binds: Vec<String>,
    /// Whether its failure is ignored: what it changes may be there already.
    pub may_fail: bool,
}

/// The same, as seen by contracts: the text, the values, and whether a failure
/// is ignored.
pub type StatementView = (Seq<char>, Seq<Seq<char>>, bool);

pub open spec fn statement_view(s: Statement) -> StatementView {
    (s.sql@, texts(s.binds@), s.may_fail)
}

pub open spec fn statement_views(v: Seq<Statement>) -> Seq<StatementView> {
    v.map_values(|s: Statement| statement_view(s))
}

/// A statement without parameters.
pub fn statement(sql: &'static str, may_fail: bool) -> (r: Statement)
    ensures
        statement_view(r) == (sql@, Seq::<Seq<char>>::empty(), may_fail),
{
    let r: Statement = Statement { sql, binds: Vec::new(), may_fail };
    assert(texts(r.binds@) =~= Seq::<Seq<char>>::empty());
    r
}

/// The version of a store to which all migrations were applied.
pub const LATEST_VERSION: u32 = 14;

/// Records a version.
pub const RECORD_VERSION: &'static str =
    "INSERT OR REPLACE INTO config(key, value, updated_at) VALUES('schema_version', ?1, datetime('now'))";

pub const RENAME_JOB_AGENT: &'static str =
    "UPDATE scheduled_jobs SET agent_id = ?1 WHERE agent_id = ?2";

pub const RENAME_STACK_AGENT: &'static str =
    "UPDATE chat_sessions_stack SET agent_id = ?1 WHERE agent_id = ?2";

pub const MIGRATION_2: &'static str =
    "ALTER TABLE tts_models ADD COLUMN voice_id TEXT";

pub const MIGRATION_3_A: &'static str =
    "ALTER TABLE llm_requests ADD COLUMN cache_read_tokens INTEGER";

pub const MIGRATION_3_B: &'static str =
    "ALTER TABLE llm_requests ADD COLUMN cache_creation_tokens INTEGER";

pub const MIGRATION_4: &'static str =
    "ALTER TABLE scheduled_jobs ADD COLUMN kind TEXT NOT NULL DEFAULT 'cron'";

pub const MIGRATION_5_A: &'static str =
    "ALTER TABLE approval_rules ADD COLUMN group_id TEXT";

pub const MIGRATION_5_B: &'static str =
    "ALTER TABLE chat_sessions ADD COLUMN run_context_id TEXT";

pub const MIGRATION_6_A: &'static str =
    "UPDATE scheduled_jobs SET kind = 'sync' WHERE kind = 'immediate'";

pub const MIGRATION_6_B: &'static str =
    "ALTER TABLE scheduled_jobs ADD COLUMN parent_session_id INTEGER REFERENCES chat_sessions(id)";

pub const MIGRATION_7: &'static str =
    "ALTER TABLE scheduled_jobs ADD COLUMN run_context_id TEXT";

pub const MIGRATION_8: &'static str =
    "ALTER TABLE scheduled_jobs ADD COLUMN running_since TEXT";

pub const MIGRATION_9_A: &'static str =
    "UPDATE chat_sessions SET run_context_id = ( SELECT tool_group_id FROM run_contexts WHERE id = chat_sessions.run_context_id ) WHERE run_context_id IS NOT NULL";

pub const MIGRATION_9_B: &'static str =
    "UPDATE scheduled_jobs SET run_context_id = ( SELECT tool_group_id FROM run_contexts WHERE id = scheduled_jobs.run_context_id ) WHERE run_context_id IS NOT NULL";

pub const MIGRATION_9_C: &'static str =
    "DROP TABLE IF EXISTS run_contexts";

pub const MIGRATION_10_A: &'static str =
    "ALTER TABLE chat_sessions RENAME COLUMN run_context_id TO run_context";

pub const MIGRATION_10_B: &'static str =
    "ALTER TABLE scheduled_jobs RENAME COLUMN run_context_id TO run_context";

pub const MIGRATION_10_C: &'static str =
    "UPDATE chat_sessions SET run_context = NULL";

pub const MIGRATION_10_D: &'static str =
    "UPDATE scheduled_jobs SET run_context = NULL";

pub const MIGRATION_11: &'static str =
    "ALTER TABLE scheduled_jobs ADD COLUMN origin_ref TEXT";

pub const MIGRATION_12: &'static str =
    "ALTER TABLE projects DROP COLUMN agent_id";

pub const MIGRATION_14: &'static str =
    "ALTER TABLE chat_history ADD COLUMN cost REAL";

/// The agents that were renamed: the old name, then the new one.
pub open spec fn renamed_agents() -> Seq<(Seq<char>, Seq<char>)> {
    seq![
        ("engineer"@, "software-engineer"@),
        ("architect"@, "software-architect"@),
        ("explorer"@, "code-explorer"@),
        ("blueprint"@, "spec-writer"@),
        ("tinker"@, "generalist"@),
        ("worker"@, "generalist"@),
    ]
}

/// The statements that rename the first `n` of the renamed agents.
pub open spec fn rename_plan(n: int) -> Seq<StatementView>
    decreases n,
{
    if n <= 0 {
        Seq::empty()
    } else {
        let (from, to) = renamed_agents()[n - 1];
        rename_plan(n - 1) + seq![
            (RENAME_JOB_AGENT@, seq![to, from], true),
            (RENAME_STACK_AGENT@, seq![to, from], true),
        ]
    }
}

/// A statement without parameters whose failure is ignored.
pub open spec fn tolerant(sql: Seq<char>) -> StatementView {
    (sql, Seq::empty(), true)
}

/// What a migration changes.
pub open spec fn changes_of(n: int) -> Seq<StatementView> {
    if n == 2 {
        seq![tolerant(MIGRATION_2@)]
    } else if n == 3 {
        seq![tolerant(MIGRATION_3_A@), tolerant(MIGRATION_3_B@)]
    } else if n == 4 {
        seq![tolerant(MIGRATION_4@)]
    } else if n == 5 {
        seq![tolerant(MIGRATION_5_A@), tolerant(MIGRATION_5_B@)]
    } else if n == 6 {
        seq![tolerant(MIGRATION_6_A@), tolerant(MIGRATION_6_B@)]
    } else if n == 7 {
        seq![tolerant(MIGRATION_7@)]
    } else if n == 8 {
        seq![tolerant(MIGRATION_8@)]
    } else if n == 9 {
        seq![tolerant(MIGRATION_9_A@), tolerant(MIGRATION_9_B@), tolerant(MIGRATION_9_C@)]
    } else if n == 10 {
        seq![tolerant(MIGRATION_10_A@), tolerant(MIGRATION_10_B@), tolerant(MIGRATION_10_C@), tolerant(MIGRATION_10_D@)]
    } else if n == 11 {
        seq![tolerant(MIGRATION_11@)]
    } else if n == 12 {
        seq![tolerant(MIGRATION_12@)]
    } else if n == 13 {
        rename_plan(renamed_agents().len() as int)
    } else if n == 14 {
        seq![tolerant(MIGRATION_14@)]
    } else {
        Seq::empty()
    }
}

/// The statement that records a version; it must not fail.
pub open spec fn record_of(n: int) -> StatementView {
    (RECORD_VERSION@, seq![decimal_nat(n as nat)], false)
}

/// The statements of the migrations behind `version`, up to the `n`th: what
/// each changes, then its record.
pub open spec fn plan_between(version: int, n: int) -> Seq<StatementView>
    decreases n,
{
    if n <= version || n <= 0 {
        Seq::empty()
    } else {
        plan_between(version, n - 1) + changes_of(n) + seq![record_of(n)]
    }
}

/// The version that a stored text denotes; zero where there is none.
pub open spec fn version_of(stored: Option<Seq<char>>) -> int {
    match stored {
        Some(t) => match parsed_u32(t) {
            Some(n) => n,
            None => 0,
        },
        None => 0,
    }
}

/// The version of a store, from the text it holds.
pub fn stored_version(stored: Option<&str>) -> (r: u32)
    ensures
        r == version_of(
            match stored {
                Some(t) => Some(t@),
                None => None,
            },
        ),
{
    match stored {
        Some(t) => match parse_u32(t) {
            Some(n) => n,
            None => 0,
        },
        None => 0,
    }
}

fn bound(sql: &'static str, first: &str, second: &str) -> (r: Statement)
    ensures
        statement_view(r) == (sql@, seq![first@, second@], true),
{
    let mut binds: Vec<String> = Vec::new();
    binds.push(first.to_owned());
    binds.push(second.to_owned());
    assert(texts(binds@) =~= seq![first@, second@]);
    Statement { sql, binds, may_fail: true }
}

fn record(n: u32) -> (r: Statement)
    ensures
        statement_view(r) == record_of(n as int),
{
    let mut binds: Vec<String> = Vec::new();
    binds.push(u64_text(n as u64));
    assert(texts(binds@) =~= seq![decimal_nat(n as nat)]);
    Statement { sql: RECORD_VERSION, binds, may_fail: false }
}

fn push_rename(out: &mut Vec<Statement>, from: &str, to: &str)
    ensures
        statement_views(final(out)@) == statement_views(old(out)@) + seq![
            (RENAME_JOB_AGENT@, seq![to@, from@], true),
            (RENAME_STACK_AGENT@, seq![to@, from@], true),
        ],
{
    let ghost had = statement_views(out@);
    out.push(bound(RENAME_JOB_AGENT, to, from));
    out.push(bound(RENAME_STACK_AGENT, to, from));
    assert(statement_views(out@) =~= had + seq![
        (RENAME_JOB_AGENT@, seq![to@, from@], true),
        (RENAME_STACK_AGENT@, seq![to@, from@], true),
    ]);
}

fn push_renames(out: &mut Vec<Statement>)
    ensures
        statement_views(final(out)@) == statement_views(old(out)@) + rename_plan(
            renamed_agents().len() as int,
        ),
{
    let ghost start = statement_views(out@);
    assert(start + rename_plan(0) =~= start);
    push_rename(out, "engineer", "software-engineer");
    assert(statement_views(out@) =~= start + rename_plan(1)) by {
        reveal_with_fuel(rename_plan, 2);
    }
    push_rename(out, "architect", "software-architect");
    assert(statement_views(out@) =~= start + rename_plan(2)) by {
        reveal_with_fuel(rename_plan, 2);
    }
    push_rename(out, "explorer", "code-explorer");
    assert(statement_views(out@) =~= start + rename_plan(3)) by {
        reveal_with_fuel(rename_plan, 2);
    }
    push_rename(out, "blueprint", "spec-writer");
    assert(statement_views(out@) =~= start + rename_plan(4)) by {
        reveal_with_fuel(rename_plan, 2);
    }
    push_rename(out, "tinker", "generalist");
    assert(statement_views(out@) =~= start + rename_plan(5)) by {
        reveal_with_fuel(rename_plan, 2);
    }
    push_rename(out, "worker", "generalist");
    assert(statement_views(out@) =~= start + rename_plan(6)) by {
        reveal_with_fuel(rename_plan, 2);
    }
}

fn push_changes(out: &mut Vec<Statement>, n: u32)
    ensures
        statement_views(final(out)@) == statement_views(old(out)@) + changes_of(n as int),
{
    let ghost start = statement_views(out@);
    if n == 2 {
        out.push(statement(MIGRATION_2, true));
    } else if n == 3 {
        out.push(statement(MIGRATION_3_A, true));
        out.push(statement(MIGRATION_3_B, true));
    } else if n == 4 {
        out.push(statement(MIGRATION_4, true));
    } else if n == 5 {
        out.push(statement(MIGRATION_5_A, true));
        out.push(statement(MIGRATION_5_B, true));
    } else if n == 6 {
        out.push(statement(MIGRATION_6_A, true));
        out.push(statement(MIGRATION_6_B, true));
    } else if n == 7 {
        out.push(statement(MIGRATION_7, true));
    } else if n == 8 {
        out.push(statement(MIGRATION_8, true));
    } else if n == 9 {
        out.push(statement(MIGRATION_9_A, true));
        out.push(statement(MIGRATION_9_B, true));
        out.push(statement(MIGRATION_9_C, true));
    } else if n == 10 {
        out.push(statement(MIGRATION_10_A, true));
        out.push(statement(MIGRATION_10_B, true));
        out.push(statement(MIGRATION_10_C, true));
        out.push(statement(MIGRATION_10_D, true));
    } else if n == 11 {
        out.push(statement(MIGRATION_11, true));
    } else if n == 12 {
        out.push(statement(MIGRATION_12, true));
    } else if n == 13 {
        push_renames(out);
        return;
    } else if n == 14 {
        out.push(statement(MIGRATION_14, true));
    }
    assert(statement_views(out@) =~= start + changes_of(n as int));
}

/// The statements that bring a store of that version to the latest one. Each
/// migration behind the version comes once, in order, and is followed by its
/// record.
pub fn migrate_tables(version: u32) -> (r: Vec<Statement>)
    ensures
        statement_views(r@) == plan_between(version as int, LATEST_VERSION as int),
{
    let mut out: Vec<Statement> = Vec::new();
    let mut n: u32 = 0;
    assert(statement_views(out@) =~= plan_between(version as int, 0));
    while n < LATEST_VERSION
        invariant
            n <= LATEST_VERSION,
            statement_views(out@) == plan_between(version as int, n as int),
        decreases LATEST_VERSION - n,
    {
        n = n + 1;
        if version < n {
            let ghost before = statement_views(out@);
            push_changes(&mut out, n);
            let ghost changed = statement_views(out@);
            out.push(record(n));
            assert(statement_views(out@) =~= before + changes_of(n as int) + seq![record_of(n as int)]);
        } else {
            assert(plan_between(version as int, n as int) =~= plan_between(version as int, n - 1));
        }
    }
    out
}

/// A store of the latest version is left alone.
pub proof fn law_latest_is_left_alone(version: int)
    requires
        version >= LATEST_VERSION,
    ensures
        plan_between(version, LATEST_VERSION as int).len() == 0,
{
}

/// Migrating can stop after any migration and go on later: what is left then
/// is exactly what had not run.
pub proof fn law_migrations_resume(version: int, k: int, n: int)
    requires
        0 <= version <= k <= n,
    ensures
        plan_between(version, n) == plan_between(version, k) + plan_between(k, n),
    decreases n - k,
{
    if n == k {
        assert(plan_between(version, k) + plan_between(k, n) =~= plan_between(version, n));
    } else {
        law_migrations_resume(version, k, n - 1);
        assert(plan_between(version, k) + plan_between(k, n) =~= plan_between(version, n));
    }
}

/// The version of a database is the number stored, and zero where none can be
/// read.
pub proof fn law_stored_versions(stored: Option<&str>, r: u32)
    requires
        call_ensures(stored_version, (stored,), r),
    ensures
        stored is None ==> r == 0,
        stored matches Some(t) ==> (parsed_u32(t@) matches Some(n) ==> r == n),
        stored matches Some(t) ==> (parsed_u32(t@) is None ==> r == 0),
{
}

/// Migrating from one version is making the changes of the next, recording it,
/// and migrating from there; the latest version needs nothing.
pub proof fn law_migrations_go_step_by_step(
    version: u32,
    next: u32,
    r: Vec<Statement>,
    s: Vec<Statement>,
    k: int,
)
    requires
        call_ensures(migrate_tables, (version,), r),
        call_ensures(migrate_tables, (next,), s),
        next == version + 1,
    ensures
        version >= 14 ==> r@.len() == 0,
        version < 14 ==> r@.len() > s@.len() && statement_views(r@).skip(r@.len() - s@.len())
            == statement_views(s@),
        version < 14 ==> statement_views(r@)[r@.len() - s@.len() - 1] == (
            "INSERT OR REPLACE INTO config(key, value, updated_at) VALUES('schema_version', ?1, datetime('now'))"@,
            seq![decimal_nat(next as nat)],
            false,
        ),
{
    let n = LATEST_VERSION as int;
    let a = statement_views(r@);
    let b = statement_views(s@);
    assert(a.len() == r@.len() && b.len() == s@.len());
    if version < 14 {
        law_migrations_resume(version as int, next as int, n);
        let first = plan_between(version as int, next as int);
        assert(plan_between(version as int, version as int) =~= Seq::<StatementView>::empty());
        assert(first =~= changes_of(next as int) + seq![record_of(next as int)]);
        assert(a == first + b);
        assert(a.skip(a.len() - b.len()) =~= b);
        assert(a[a.len() - b.len() - 1] == first.last());
    } else {
        law_latest_is_left_alone(version as int);
    }
}

/// What the last step changes, and what the ones before it do.
pub proof fn law_changes_of_versions(version: u32, next: u32, r: Vec<Statement>, s: Vec<Statement>)
    requires
        call_ensures(migrate_tables, (version,), r),
        call_ensures(migrate_tables, (next,), s),
        next == version + 1,
        version < 14,
    ensures
        ({
            let own = statement_views(r@).take(r@.len() - s@.len() - 1);
            let one = |sql: Seq<char>| (sql, Seq::<Seq<char>>::empty(), true);
            &&& next == 1 ==> own.len() == 0
            &&& next == 2 ==> own == seq![one("ALTER TABLE tts_models ADD COLUMN voice_id TEXT"@)]
            &&& next == 4 ==> own == seq![
                one("ALTER TABLE scheduled_jobs ADD COLUMN kind TEXT NOT NULL DEFAULT 'cron'"@),
            ]
            &&& next == 7 ==> own == seq![
                one("ALTER TABLE scheduled_jobs ADD COLUMN run_context_id TEXT"@),
            ]
            &&& next == 8 ==> own == seq![
                one("ALTER TABLE scheduled_jobs ADD COLUMN running_since TEXT"@),
            ]
            &&& next == 11 ==> own == seq![
                one("ALTER TABLE scheduled_jobs ADD COLUMN origin_ref TEXT"@),
            ]
            &&& next == 12 ==> own == seq![one("ALTER TABLE projects DROP COLUMN agent_id"@)]
            &&& next == 14 ==> own == seq![one("ALTER TABLE chat_history ADD COLUMN cost REAL"@)]
            &&& next == 3 ==> own == seq![
                one("ALTER TABLE llm_requests ADD COLUMN cache_read_tokens INTEGER"@),
                one("ALTER TABLE llm_requests ADD COLUMN cache_creation_tokens INTEGER"@),
            ]
            &&& next == 5 ==> own == seq![
                one("ALTER TABLE approval_rules ADD COLUMN group_id TEXT"@),
                one("ALTER TABLE chat_sessions ADD COLUMN run_context_id TEXT"@),
            ]
            &&& next == 6 ==> own == seq![
                one("UPDATE scheduled_jobs SET kind = 'sync' WHERE kind = 'immediate'"@),
                one(
                    "ALTER TABLE scheduled_jobs ADD COLUMN parent_session_id INTEGER REFERENCES chat_sessions(id)"@,
                ),
            ]
            &&& next == 9 ==> own == seq![
                one(
                    "UPDATE chat_sessions SET run_context_id = ( SELECT tool_group_id FROM run_contexts WHERE id = chat_sessions.run_context_id ) WHERE run_context_id IS NOT NULL"@,
                ),
                one(
                    "UPDATE scheduled_jobs SET run_context_id = ( SELECT tool_group_id FROM run_contexts WHERE id = scheduled_jobs.run_context_id ) WHERE run_context_id IS NOT NULL"@,
                ),
                one("DROP TABLE IF EXISTS run_contexts"@),
            ]
            &&& next == 10 ==> own == seq![
                one("ALTER TABLE chat_sessions RENAME COLUMN run_context_id TO run_context"@),
                one("ALTER TABLE scheduled_jobs RENAME COLUMN run_context_id TO run_context"@),
                one("UPDATE chat_sessions SET run_context = NULL"@),
                one("UPDATE scheduled_jobs SET run_context = NULL"@),
            ]
        }),
{
    let n = LATEST_VERSION as int;
    let a = statement_views(r@);
    let b = statement_views(s@);
    assert(a.len() == r@.len() && b.len() == s@.len());
    law_migrations_resume(version as int, next as int, n);
    let first = plan_between(version as int, next as int);
    let changes = changes_of(next as int);
    assert(plan_between(version as int, version as int) =~= Seq::<StatementView>::empty());
    assert(first =~= changes + seq![record_of(next as int)]);
    assert(a == first + b);
    assert(a.take(a.len() - b.len() - 1) =~= changes);
}

/// The step that renames agents renames each of them in the jobs and then in the
/// stacks: the new name is bound first, then the old one.
pub proof fn law_agents_are_renamed(version: u32, next: u32, r: Vec<Statement>, s: Vec<Statement>, i: int)
    requires
        call_ensures(migrate_tables, (version,), r),
        call_ensures(migrate_tables, (next,), s),
        version == 12 && next == 13,
        0 <= i < 6,
    ensures
        r@.len() == s@.len() + 13,
        ({
            let from = seq![
                "engineer"@,
                "architect"@,
                "explorer"@,
                "blueprint"@,
                "tinker"@,
                "worker"@,
            ];
            let to = seq![
                "software-engineer"@,
                "software-architect"@,
                "code-explorer"@,
                "spec-writer"@,
                "generalist"@,
                "generalist"@,
            ];
            let own = statement_views(r@);
            &&& own[2 * i] == (RENAME_JOB_AGENT@, seq![to[i], from[i]], true)
            &&& own[2 * i + 1] == (RENAME_STACK_AGENT@, seq![to[i], from[i]], true)
        }),
{
    let n = LATEST_VERSION as int;
    let a = statement_views(r@);
    let b = statement_views(s@);
    assert(a.len() == r@.len() && b.len() == s@.len());
    law_migrations_resume(12, 13, n);
    let changes = changes_of(13);
    assert(plan_between(12, 12) =~= Seq::<StatementView>::empty());
    assert(plan_between(12, 13) =~= changes + seq![record_of(13)]);
    assert(a == plan_between(12, 13) + b);
    reveal_with_fuel(rename_plan, 7);
    assert(renamed_agents().len() == 6);
    assert(changes == rename_plan(6));
    assert(changes.len() == 12);
    assert(a[2 * i] == changes[2 * i] && a[2 * i + 1] == changes[2 * i + 1]);
    assert(i == 0 || i == 1 || i == 2 || i == 3 || i == 4 || i == 5);
}

} // verus!

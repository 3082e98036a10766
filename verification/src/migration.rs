//! Which schema migrations run, which one a rollback undoes, and what a failing step reports.
use vstd::prelude::*;
use vstd::string::*;

use crate::error::AppError;
use crate::text::{concat, str_eq};

verus! {

/// The identifiers of the core migrations, in the order they apply.
pub open spec fn core_ids() -> Seq<Seq<char>> {
    seq!["core:0001:create-core-tables"@, "core:0002:add-user-status"@, "core:0003:create-post-revisions"@]
}

/// The identifiers of the core migrations, in the order they apply: the core tables, the user
/// status column, the post revision table.
pub fn core_migration_ids() -> (ids: Vec<&'static str>)
    ensures
        ids@.map_values(|s: &'static str| s@) == core_ids(),
{
    let mut ids: Vec<&'static str> = Vec::new();
    ids.push("core:0001:create-core-tables");
    ids.push("core:0002:add-user-status");
    ids.push("core:0003:create-post-revisions");
    assert(ids@.map_values(|s: &'static str| s@) =~= core_ids());
    ids
}

pub open spec fn in_list(list: Seq<String>, id: Seq<char>) -> bool {
    exists|j: int| 0 <= j < list.len() && (#[trigger] list[j])@ == id
}

fn listed(list: &Vec<String>, id: &str) -> (b: bool)
    ensures
        b == in_list(list@, id@),
{
    let mut j: usize = 0;
    while j < list.len()
        invariant
            j <= list@.len(),
            forall|k: int| 0 <= k < j ==> (#[trigger] list@[k])@ != id@,
        decreases list@.len() - j,
    {
        if str_eq(list[j].as_str(), id) {
            return true;
        }
        j = j + 1;
    }
    false
}

/// Migration `i` still has to run: `applied` does not record its id, and no earlier
/// migration in `ids` has the same id (that one runs first and records it).
pub open spec fn is_pending(ids: Seq<String>, applied: Seq<String>, i: int) -> bool {
    &&& !in_list(applied, ids[i]@)
    &&& forall|j: int| 0 <= j < i ==> (#[trigger] ids[j])@ != ids[i]@
}

fn first_occurrence(ids: &Vec<String>, i: usize) -> (b: bool)
    requires
        i < ids@.len(),
    ensures
        b == forall|j: int| 0 <= j < i ==> (#[trigger] ids@[j])@ != ids@[i as int]@,
{
    let mut j: usize = 0;
    while j < i
        invariant
            j <= i < ids@.len(),
            forall|k: int| 0 <= k < j ==> (#[trigger] ids@[k])@ != ids@[i as int]@,
        decreases i - j,
    {
        if str_eq(ids[j].as_str(), ids[i].as_str()) {
            return false;
        }
        j = j + 1;
    }
    true
}

/// The positions, in order, of the migrations in `ids` that still have to run: those whose
/// id `applied` does not record, each id once (at its first position).
pub fn pending_migrations(ids: &Vec<String>, applied: &Vec<String>) -> (pending: Vec<usize>)
    ensures
        forall|k: int| 0 <= k < pending@.len() ==> (#[trigger] pending@[k]) < ids@.len() && is_pending(
            ids@,
            applied@,
            pending@[k] as int,
        ),
        forall|i: int| 0 <= i < ids@.len() && is_pending(ids@, applied@, i) ==> exists|k: int|
            0 <= k < pending@.len() && pending@[k] == i,
        forall|k: int, l: int| 0 <= k < l < pending@.len() ==> #[trigger] pending@[k] < #[trigger] pending@[l],
{
    let mut pending: Vec<usize> = Vec::new();
    let mut i: usize = 0;
    while i < ids.len()
        invariant
            i <= ids@.len(),
            forall|k: int| 0 <= k < pending@.len() ==> (#[trigger] pending@[k]) < i && is_pending(
                ids@,
                applied@,
                pending@[k] as int,
            ),
            forall|m: int| 0 <= m < i && is_pending(ids@, applied@, m) ==> exists|k: int|
                0 <= k < pending@.len() && pending@[k] == m,
            forall|k: int, l: int| 0 <= k < l < pending@.len() ==> #[trigger] pending@[k] < #[trigger] pending@[l],
        decreases ids@.len() - i,
    {
        if !listed(applied, ids[i].as_str()) && first_occurrence(ids, i) {
            let ghost before = pending@;
            pending.push(i);
            proof {
                assert forall|m: int| 0 <= m < i + 1 && is_pending(ids@, applied@, m) implies exists|k: int|
                    0 <= k < pending@.len() && pending@[k] == m by {
                    if m == i {
                        assert(pending@[before.len() as int] == i);
                    } else {
                        let k0 = choose|k: int| 0 <= k < before.len() && before[k] == m;
                        assert(pending@[k0] == m);
                    }
                }
            }
        }
        i = i + 1;
    }
    pending
}

/// The message of a rollback whose last applied migration is not among those given.
pub open spec fn unknown_applied_message(id: Seq<char>) -> Seq<char> {
    "migration "@ + id + " is applied but not present in provided migration list"@
}

/// The migration a rollback undoes: the position in `ids` of the last applied migration
/// (`None` when nothing is applied); a configuration error when that migration is not in
/// `ids`.
#[verifier::loop_isolation(false)]
pub fn rollback_target(ids: &Vec<String>, last_applied: Option<&str>) -> (r: Result<Option<usize>, AppError>)
    ensures
        match last_applied {
            None => r == Ok::<Option<usize>, AppError>(None),
            Some(a) => match r {
                Ok(Some(i)) => i < ids@.len() && ids@[i as int]@ == a@ && forall|j: int| 0 <= j < i ==> (#[trigger] ids@[j])@ != a@,
                Ok(None) => false,
                Err(e) => !in_list(ids@, a@) && (e matches AppError::Config(m) && m@ == unknown_applied_message(a@)),
            },
        },
{
    let applied = match last_applied {
        Some(a) => a,
        None => return Ok(None),
    };
    let mut j: usize = 0;
    while j < ids.len()
        invariant
            j <= ids@.len(),
            forall|k: int| 0 <= k < j ==> (#[trigger] ids@[k])@ != applied@,
        decreases ids@.len() - j,
    {
        if str_eq(ids[j].as_str(), applied) {
            return Ok(Some(j));
        }
        j = j + 1;
    }
    let mut m = concat("migration ", applied);
    m.append(" is applied but not present in provided migration list");
    Err(AppError::Config(m))
}

/// The step of applying or undoing a migration that failed.
#[derive(Clone, Copy, Debug, PartialEq, Eq, Structural)]
pub enum MigrationStage {
    Up,
    Record,
    Commit,
    Down,
    RemoveRecord,
    CommitRollback,
}

/// The message that reports migration `id` failing at `stage` with the error text `err`.
pub open spec fn stage_message(stage: MigrationStage, id: Seq<char>, err: Seq<char>) -> Seq<char> {
    match stage {
        MigrationStage::Up => "migration "@ + id + " failed: "@ + err,
        MigrationStage::Record => "failed to record migration "@ + id + ": "@ + err,
        MigrationStage::Commit => "failed to commit migration "@ + id + ": "@ + err,
        MigrationStage::Down => "rollback migration "@ + id + " failed: "@ + err,
        MigrationStage::RemoveRecord => "failed to remove migration record "@ + id + ": "@ + err,
        MigrationStage::CommitRollback => "failed to commit rollback migration "@ + id + ": "@ + err,
    }
}

/// The configuration error that reports migration `id` failing at `stage`.
pub fn migration_failure(stage: MigrationStage, id: &str, err: &str) -> (e: AppError)
    ensures
        e matches AppError::Config(m) && m@ == stage_message(stage, id@, err@),
{
    let (lead, mid) = match stage {
        MigrationStage::Up => ("migration ", " failed: "),
        MigrationStage::Record => ("failed to record migration ", ": "),
        MigrationStage::Commit => ("failed to commit migration ", ": "),
        MigrationStage::Down => ("rollback migration ", " failed: "),
        MigrationStage::RemoveRecord => ("failed to remove migration record ", ": "),
        MigrationStage::CommitRollback => ("failed to commit rollback migration ", ": "),
    };
    let mut m = concat(lead, id);
    m.append(mid);
    m.append(err);
    AppError::Config(m)
}

/// What undoing a migration without a rollback step reports.
pub fn rollback_unsupported(id: &str) -> (e: AppError)
    ensures
        e matches AppError::Config(m) && m@ == "migration "@ + id@ + " does not support rollback"@,
{
    let mut m = concat("migration ", id);
    m.append(" does not support rollback");
    AppError::Config(m)
}

/// The database engines the migrations support.
#[derive(Clone, Copy, Debug, PartialEq, Eq, Structural)]
pub enum DbBackend {
    Sqlite,
    Postgres,
    MySql,
}

/// The query that counts the columns named by the second parameter in the table named by the
/// first, on each engine.
pub open spec fn column_count_sql(backend: DbBackend) -> Seq<char> {
    match backend {
        DbBackend::Sqlite => "SELECT COUNT(*) AS \"exists\" FROM pragma_table_info(?) WHERE name = ?"@,
        DbBackend::Postgres => "SELECT COUNT(*) AS \"exists\" FROM information_schema.columns WHERE table_name = $1 AND column_name = $2"@,
        DbBackend::MySql => "SELECT COUNT(*) AS `exists` FROM information_schema.columns WHERE table_schema = DATABASE() AND table_name = ? AND column_name = ?"@,
    }
}

/// The column-existence query for `backend`.
pub fn column_exists_query(backend: DbBackend) -> (q: &'static str)
    ensures
        q@ == column_count_sql(backend),
{
    match backend {
        DbBackend::Sqlite => "SELECT COUNT(*) AS \"exists\" FROM pragma_table_info(?) WHERE name = ?",
        DbBackend::Postgres => "SELECT COUNT(*) AS \"exists\" FROM information_schema.columns WHERE table_name = $1 AND column_name = $2",
        DbBackend::MySql => "SELECT COUNT(*) AS `exists` FROM information_schema.columns WHERE table_schema = DATABASE() AND table_name = ? AND column_name = ?",
    }
}

/// The statement that adds the user status column, on every engine.
pub open spec fn user_status_sql() -> Seq<char> {
    "ALTER TABLE users ADD COLUMN status varchar(32) NOT NULL DEFAULT 'active'"@
}

/// The statement that adds the `status` column to `users` (the same on each engine); `None`
/// when the column already exists, and the migration has nothing to do.
pub fn add_user_status_statement(backend: DbBackend, column_exists: bool) -> (s: Option<&'static str>)
    ensures
        column_exists ==> s is None,
        !column_exists ==> (s matches Some(q) && q@ == user_status_sql()),
{
    if column_exists {
        return None;
    }
    match backend {
        DbBackend::Sqlite => Some("ALTER TABLE users ADD COLUMN status varchar(32) NOT NULL DEFAULT 'active'"),
        DbBackend::Postgres => Some("ALTER TABLE users ADD COLUMN status varchar(32) NOT NULL DEFAULT 'active'"),
        DbBackend::MySql => Some("ALTER TABLE users ADD COLUMN status varchar(32) NOT NULL DEFAULT 'active'"),
    }
}

/// Whether the column-count row says the column exists (a missing row means it does not).
pub fn column_exists_from_count(count: Option<i32>) -> (b: bool)
    ensures
        b == (count matches Some(n) && n > 0),
{
    match count {
        Some(n) => n > 0,
        None => false,
    }
}

} // verus!

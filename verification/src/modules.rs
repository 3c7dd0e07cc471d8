//! What a connected plan has to know before it rebuilds a module.
//!
//! Every module change on this engine is a drop and a create, and a `DROP`
//! takes with it everything the catalog attached to the object. So the plan
//! enumerates what the catalog holds for it, and every item that a `CREATE`
//! would not put back is a refusal. The same goes for the objects that depend
//! on it: the ones the declarations hold are rebuilt around it, and the others
//! refuse.
use vstd::prelude::*;

use crate::model;
use crate::model::{Module, ModuleId, ModuleKind, ObjectName, RoutineArg, Table, TableName};
use crate::sql;
use crate::text;
use crate::validate;

verus! {

// ---------------------------------------------------------------------------
// What to ask

/// The reads run under an empty `search_path`: a name is qualified in them
/// only where it is not visible on the path.
pub const CANONICAL_PATH: &'static str = "SELECT pg_catalog.set_config('search_path', '', true) AS was_set";

/// Marks the caller's transaction, if there is one.
pub const MARK_TRANSACTION: &'static str =
    "SELECT pg_catalog.set_config('pbps.in_a_transaction', 'yes', true) AS was_set";

/// Reads the mark back: it is gone where there was no transaction.
pub const READ_MARK: &'static str =
    "SELECT COALESCE(pg_catalog.current_setting('pbps.in_a_transaction', true), '') AS probe";

/// What the mark reads as inside the caller's transaction.
pub const MARK: &'static str = "yes";

/// Why a read outside the caller's transaction is refused.
pub const NO_TRANSACTION: &'static str =
    "this read has to run inside the transaction that will do the rebuild, and this \
                  connection has none open.\nWhat it reads is what a `DROP` is about to destroy, \
                  and it takes the object's lock so that nothing changes between the read and the \
                  `DROP`. Outside a transaction the lock is released at the end of the statement \
                  that took it, and the canonical `search_path` these reads pin is set \
                  `is_local` and does nothing at all — so the answer would be true when it was \
                  given, unenforced afterwards, and worded by whatever path the session happened \
                  to hold (ADR-0009 §3).";

/// A view's owner, ACL and options.
pub const RELATION_STATE: &'static str =
    "SELECT pg_catalog.pg_get_userbyid(c.relowner) AS owner,
                    COALESCE(c.relacl::text, '') AS acl,
                    COALESCE(pg_catalog.array_to_string(c.reloptions, ', '), '') AS reloptions,
                    CURRENT_USER::text AS deploying_as
               FROM pg_catalog.pg_class c
               JOIN pg_catalog.pg_namespace n ON n.oid = c.relnamespace
              WHERE n.nspname = $1 AND c.relname = $2 AND c.relkind = 'v'";

/// A routine's owner and ACL.
pub const ROUTINE_STATE: &'static str =
    "SELECT pg_catalog.pg_get_userbyid(p.proowner) AS owner,
                    COALESCE(p.proacl::text, '') AS acl,
                    p.prosecdef AS security_definer,
                    CURRENT_USER::text AS deploying_as
               FROM pg_catalog.pg_proc p
               JOIN pg_catalog.pg_namespace n ON n.oid = p.pronamespace
              WHERE n.nspname = $1 AND p.proname = $2
                AND COALESCE((SELECT pg_catalog.string_agg(
                                       pg_catalog.format_type(u.ty, NULL), ',' ORDER BY u.pos)
                                FROM pg_catalog.unnest(p.proargtypes)
                                       WITH ORDINALITY AS u(ty, pos)), '') = $3";

/// The column defaults of a view.
pub const VIEW_DEFAULTS: &'static str =
    "SELECT a.attname AS column_name,
                    pg_catalog.pg_get_expr(d.adbin, d.adrelid) AS expression
               FROM pg_catalog.pg_attrdef d
               JOIN pg_catalog.pg_class c ON c.oid = d.adrelid
               JOIN pg_catalog.pg_attribute a
                 ON a.attrelid = d.adrelid AND a.attnum = d.adnum
               JOIN pg_catalog.pg_namespace n ON n.oid = c.relnamespace
              WHERE n.nspname = $1 AND c.relname = $2 AND c.relkind = 'v'
              ORDER BY a.attnum";

/// Whether a trigger is enabled.
pub const TRIGGER_STATE: &'static str =
    "SELECT tg.tgenabled::text AS enabled
               FROM pg_catalog.pg_trigger tg
               JOIN pg_catalog.pg_class c ON c.oid = tg.tgrelid
               JOIN pg_catalog.pg_namespace n ON n.oid = c.relnamespace
              WHERE n.nspname = $1 AND c.relname = $2 AND tg.tgname = $3
                AND NOT tg.tgisinternal";

/// The grants a new object would arrive with.
pub const ARRIVING_GRANTS: &'static str =
    "SELECT da.defaclacl::text AS acl,
                    COALESCE(n.nspname, '(every schema)') AS in_schema
               FROM pg_catalog.pg_default_acl da
               LEFT JOIN pg_catalog.pg_namespace n ON n.oid = da.defaclnamespace
              WHERE da.defaclobjtype::text = $1
                AND pg_catalog.pg_get_userbyid(da.defaclrole) = CURRENT_USER::text
                AND (da.defaclnamespace = 0 OR n.nspname = $2)";

/// A view's number.
pub const VIEW_OID: &'static str =
    "SELECT c.oid::int8 AS oid
                   FROM pg_catalog.pg_class c
                   JOIN pg_catalog.pg_namespace n ON n.oid = c.relnamespace
                  WHERE n.nspname = $1 AND c.relname = $2 AND c.relkind = 'v'";

/// A routine's number.
pub const ROUTINE_OID: &'static str =
    "SELECT p.oid::int8 AS oid
                   FROM pg_catalog.pg_proc p
                   JOIN pg_catalog.pg_namespace n ON n.oid = p.pronamespace
                  WHERE n.nspname = $1 AND p.proname = $2
                    AND COALESCE((SELECT pg_catalog.string_agg(
                                           pg_catalog.format_type(u.ty, NULL), ',' ORDER BY u.pos)
                                    FROM pg_catalog.unnest(p.proargtypes)
                                           WITH ORDINALITY AS u(ty, pos)), '') = $3";

/// A trigger's number.
pub const TRIGGER_OID: &'static str =
    "SELECT tg.oid::int8 AS oid
                   FROM pg_catalog.pg_trigger tg
                   JOIN pg_catalog.pg_class c ON c.oid = tg.tgrelid
                   JOIN pg_catalog.pg_namespace n ON n.oid = c.relnamespace
                  WHERE n.nspname = $1 AND c.relname = $2 AND tg.tgname = $3
                    AND NOT tg.tgisinternal";

/// The row lock that serializes a routine's rebuild, for an account that can
/// take it.
pub const ROW_LOCK: &'static str =
    "SELECT p.oid::int8 AS oid FROM pg_catalog.pg_proc p \
                     WHERE p.oid = ($1::int8)::oid FOR UPDATE";

/// Opens a savepoint before the row lock is tried: a failed statement dooms the
/// transaction it runs in.
pub const BEFORE_ROW_LOCK: &'static str = "SAVEPOINT pbps_routine_lock";

/// Gives the savepoint back and keeps the lock.
pub const KEEP_ROW_LOCK: &'static str = "RELEASE SAVEPOINT pbps_routine_lock";

/// Takes the failed statement back.
pub const WITHOUT_ROW_LOCK: &'static str = "ROLLBACK TO SAVEPOINT pbps_routine_lock";

/// The statement that follows the row lock.
pub fn after_row_lock(taken: bool) -> (r: &'static str)
    ensures
        r@ == if taken {
            KEEP_ROW_LOCK@
        } else {
            WITHOUT_ROW_LOCK@
        },
{
    if taken {
        KEEP_ROW_LOCK
    } else {
        WITHOUT_ROW_LOCK
    }
}

/// Whether the connection is inside the caller's transaction, from what the
/// mark reads as.
pub fn in_the_callers_transaction(probe: Option<&str>) -> (r: Result<(), String>)
    ensures
        if probe matches Some(p) && p@ == MARK@ {
            r is Ok
        } else {
            r matches Err(e) && e@ == NO_TRANSACTION@
        },
{
    if let Some(p) = probe {
        if text::same(p, MARK) {
            return Ok(());
        }
    }
    Err(NO_TRANSACTION.to_owned())
}

// ---------------------------------------------------------------------------
// What a rebuild takes with it

/// One thing the catalog holds for a module that a `DROP` takes with it.
#[derive(Debug, Clone, PartialEq, Eq)]
pub struct Carried {
    /// What it is, and the catalog it was read from.
    pub what: &'static str,
    /// What it says, in the engine's own text.
    pub detail: String,
}

impl View for Carried {
    type V = (Seq<char>, Seq<char>);

    open spec fn view(&self) -> (Seq<char>, Seq<char>) {
        (self.what@, self.detail@)
    }
}

/// Some carried things.
pub open spec fn all_carried(v: Seq<Carried>) -> Seq<(Seq<char>, Seq<char>)> {
    Seq::new(v.len(), |i: int| v[i]@)
}

/// Whether the read of the carried state was serialized against a concurrent
/// change, and where it was not, why.
#[derive(Debug, Clone, PartialEq, Eq)]
pub enum Serialized {
    /// The lock is held, and by what.
    By(&'static str),
    /// It is not, and this is what an operator needs to be told.
    Not(String),
}

/// What a rebuild of one module would cost.
#[derive(Debug, Clone, PartialEq, Eq)]
pub struct Rebuild {
    pub id: ModuleId,
    /// Empty means that the object carries only what a `CREATE` puts back.
    /// Anything here is a refusal.
    pub carries: Vec<Carried>,
    pub serialized: Serialized,
}

/// One carried thing, in a line.
pub const CARRIED_LINE: &'static str = "- {}: {}";

/// Why a module that carries something cannot be rebuilt.
pub const CANNOT_CARRY: &'static str =
    "`{}` cannot be rebuilt: this engine has no `CREATE OR ALTER`, so every module change \
             is a drop and a create (ADR-0009 §3), and the catalog holds things for this object \
             that a `CREATE` would not put back:\n{}\nDeclare them, or undo them, and plan again. \
             Proceeding would report success while quietly changing who may use this object.";

/// Between two lines.
pub const NEWLINE: &'static str = "\n";

/// The lines of some carried things.
pub open spec fn carried_lines(carried: Seq<(Seq<char>, Seq<char>)>) -> Seq<Seq<char>> {
    Seq::new(
        carried.len(),
        |i: int| text::filled(CARRIED_LINE@, seq![carried[i].0, carried[i].1]),
    )
}

impl Rebuild {
    /// The refusal, or `None` where there is nothing to refuse: one message
    /// naming every item.
    #[must_use]
    pub fn refusal(&self) -> (r: Option<String>)
        ensures
            match r {
                None => self.carries@.len() == 0,
                Some(message) => self.carries@.len() > 0 && message@ == text::filled(
                    CANNOT_CARRY@,
                    seq![
                        model::module_text(self.id@),
                        text::joined(carried_lines(all_carried(self.carries@)), NEWLINE@),
                    ],
                ),
            },
    {
        if self.carries.len() == 0 {
            return None;
        }
        let mut lines: Vec<String> = Vec::new();
        let mut i: usize = 0;
        while i < self.carries.len()
            invariant
                i <= self.carries@.len(),
                lines@.len() == i,
                forall|k: int|
                    0 <= k < i ==> (#[trigger] lines@[k])@ == carried_lines(
                        all_carried(self.carries@),
                    )[k],
            decreases self.carries@.len() - i,
        {
            lines.push(
                text::fill2(
                    CARRIED_LINE,
                    self.carries[i].what,
                    self.carries[i].detail.as_str(),
                ),
            );
            i += 1;
        }
        assert(text::texts(lines@) =~= carried_lines(all_carried(self.carries@)));
        let list = text::join(&lines, NEWLINE);
        let shown = self.id.show();
        Some(text::fill2(CANNOT_CARRY, shown.as_str(), list.as_str()))
    }
}

/// The row of [`RELATION_STATE`].
#[derive(Debug, Clone, PartialEq, Eq)]
pub struct RelationRow {
    pub owner: String,
    pub acl: String,
    pub reloptions: String,
    pub deploying_as: String,
}

/// The row of [`ROUTINE_STATE`].
#[derive(Debug, Clone, PartialEq, Eq)]
pub struct RoutineRow {
    pub owner: String,
    pub acl: String,
    pub security_definer: bool,
    pub deploying_as: String,
}

/// A row of [`VIEW_DEFAULTS`].
#[derive(Debug, Clone, PartialEq, Eq)]
pub struct DefaultRow {
    pub column_name: String,
    pub expression: String,
}

/// A row of [`ARRIVING_GRANTS`].
#[derive(Debug, Clone, PartialEq, Eq)]
pub struct ArrivingRow {
    pub in_schema: String,
    pub acl: String,
}

/// What the catalog returned for one module: the fields its kind does not read
/// are empty.
#[derive(Debug, Clone, PartialEq, Eq)]
pub struct CatalogRows {
    pub relation: Option<RelationRow>,
    pub defaults: Vec<DefaultRow>,
    pub routine: Option<RoutineRow>,
    pub enabled: Vec<String>,
    pub arriving: Vec<ArrivingRow>,
}

/// An owner other than the deploying account.
pub const OWNER: &'static str = "the object's owner, which a rebuild gives to the deploying account";

/// An owner, in words.
pub const OWNED_BY: &'static str = "`{}` owns it and this session is `{}`";

/// The owner of a routine that runs with its owner's privileges, in words.
pub const DEFINER: &'static str =
    "`{}` owns it and this session is `{}` — and it is \
                 `SECURITY DEFINER`, so the rebuild would leave it running with this account's \
                 privileges";

/// An ACL.
pub const ACL: &'static str =
    "the object's ACL, which a `DROP` destroys and no declaration here can restore";

/// Options of a view.
pub const OPTIONS: &'static str =
    "options in `pg_class.reloptions`, which the declarations cannot express";

/// A column default of a view.
pub const VIEW_DEFAULT: &'static str =
    "a view column default in `pg_attrdef`, which the declarations cannot express";

/// A column default, in words.
pub const DEFAULTS_TO: &'static str = "column `{}` defaults to {}";

/// The switch of a trigger.
pub const ENABLED: &'static str =
    "a trigger's enabled state in `pg_trigger.tgenabled`, which the \
                       declarations cannot express";

/// A switch this reader has no words for.
pub const OTHER_STATE: &'static str = "`tgenabled` is `{}`";

/// Grants that the replacement would arrive with.
pub const ARRIVING: &'static str =
    "grants the replacement would arrive with, from `pg_default_acl`";

/// Arriving grants, in words.
pub const ARRIVES_WITH: &'static str =
    "`ALTER DEFAULT PRIVILEGES` for this account in {} grants {}";

/// What an owner other than the deploying account carries.
pub open spec fn owner_carried(owner: Seq<char>, deploying_as: Seq<char>, definer: bool) -> Seq<
    (Seq<char>, Seq<char>),
> {
    if owner == deploying_as {
        Seq::empty()
    } else {
        seq![
            (
                OWNER@,
                text::filled(
                    if definer {
                        DEFINER@
                    } else {
                        OWNED_BY@
                    },
                    seq![owner, deploying_as],
                ),
            ),
        ]
    }
}

/// A text that is carried where it is not empty.
pub open spec fn text_carried(what: Seq<char>, detail: Seq<char>) -> Seq<(Seq<char>, Seq<char>)> {
    if detail.len() == 0 {
        Seq::empty()
    } else {
        seq![(what, detail)]
    }
}

/// What a view itself carries.
pub open spec fn relation_carried(row: Option<RelationRow>) -> Seq<(Seq<char>, Seq<char>)> {
    match row {
        None => Seq::empty(),
        Some(row) => owner_carried(row.owner@, row.deploying_as@, false) + text_carried(
            ACL@,
            row.acl@,
        ) + text_carried(OPTIONS@, row.reloptions@),
    }
}

/// What a routine itself carries.
pub open spec fn routine_carried(row: Option<RoutineRow>) -> Seq<(Seq<char>, Seq<char>)> {
    match row {
        None => Seq::empty(),
        Some(row) => owner_carried(row.owner@, row.deploying_as@, row.security_definer)
            + text_carried(ACL@, row.acl@),
    }
}

/// The column defaults of a view.
pub open spec fn defaults_carried(rows: Seq<DefaultRow>) -> Seq<(Seq<char>, Seq<char>)> {
    Seq::new(
        rows.len(),
        |i: int|
            (
                VIEW_DEFAULT@,
                text::filled(DEFAULTS_TO@, seq![rows[i].column_name@, rows[i].expression@]),
            ),
    )
}

/// A trigger's switch, in words.
pub open spec fn state_text(enabled: Seq<char>) -> Seq<char> {
    if enabled == "D"@ {
        "the trigger is disabled"@
    } else if enabled == "R"@ {
        "the trigger fires only on a replica"@
    } else if enabled == "A"@ {
        "the trigger fires always, replica or not"@
    } else {
        text::filled(OTHER_STATE@, seq![enabled])
    }
}

/// The switches of the first `n` triggers that are not on.
pub open spec fn switches_carried(rows: Seq<Seq<char>>, n: int) -> Seq<(Seq<char>, Seq<char>)>
    decreases n,
{
    if n <= 0 {
        Seq::empty()
    } else {
        let rest = switches_carried(rows, n - 1);
        if rows[n - 1] == "O"@ {
            rest
        } else {
            rest.push((ENABLED@, state_text(rows[n - 1])))
        }
    }
}

/// The grants the replacement would arrive with.
pub open spec fn arriving_carried(rows: Seq<ArrivingRow>) -> Seq<(Seq<char>, Seq<char>)> {
    Seq::new(
        rows.len(),
        |i: int|
            (ARRIVING@, text::filled(ARRIVES_WITH@, seq![rows[i].in_schema@, rows[i].acl@])),
    )
}

/// Everything a module of one kind carries.
pub open spec fn carried_by(kind: ModuleKind, rows: CatalogRows) -> Seq<(Seq<char>, Seq<char>)> {
    match kind {
        ModuleKind::View => relation_carried(rows.relation) + defaults_carried(rows.defaults@)
            + arriving_carried(rows.arriving@),
        ModuleKind::Function | ModuleKind::Procedure => routine_carried(rows.routine)
            + arriving_carried(rows.arriving@),
        ModuleKind::Trigger => switches_carried(
            text::texts(rows.enabled@),
            rows.enabled@.len() as int,
        ),
    }
}

fn carry(carries: &mut Vec<Carried>, what: &'static str, detail: String)
    ensures
        all_carried(final(carries)@) == all_carried(old(carries)@) + seq![(what@, detail@)],
{
    let ghost before = carries@;
    let item = Carried { what, detail };
    carries.push(item);
    assert(all_carried(carries@) =~= all_carried(before) + seq![item@]);
}

/// Adds an owner other than the deploying account: a rebuild makes the
/// deploying account the owner, and no ACL shows it.
pub fn push_owner(carries: &mut Vec<Carried>, owner: &str, deploying_as: &str, definer: bool)
    ensures
        all_carried(final(carries)@) == all_carried(old(carries)@) + owner_carried(
            owner@,
            deploying_as@,
            definer,
        ),
{
    if text::same(owner, deploying_as) {
        assert(all_carried(carries@) =~= all_carried(carries@) + Seq::<
            (Seq<char>, Seq<char>),
        >::empty());
        return ;
    }
    let detail = if definer {
        text::fill2(DEFINER, owner, deploying_as)
    } else {
        text::fill2(OWNED_BY, owner, deploying_as)
    };
    carry(carries, OWNER, detail);
}

fn push_text(carries: &mut Vec<Carried>, what: &'static str, detail: &String)
    ensures
        all_carried(final(carries)@) == all_carried(old(carries)@) + text_carried(what@, detail@),
{
    if detail.as_str().is_empty() {
        assert(all_carried(carries@) =~= all_carried(carries@) + Seq::<
            (Seq<char>, Seq<char>),
        >::empty());
        return ;
    }
    carry(carries, what, detail.clone());
}

/// Adds an ACL, in either direction: a revocation is the absence of the
/// engine's default, and a rebuild restores the default.
pub fn push_acl(carries: &mut Vec<Carried>, acl: &String)
    ensures
        all_carried(final(carries)@) == all_carried(old(carries)@) + text_carried(ACL@, acl@),
{
    push_text(carries, ACL, acl);
}

fn read_relation(carries: &mut Vec<Carried>, row: &Option<RelationRow>)
    ensures
        all_carried(final(carries)@) == all_carried(old(carries)@) + relation_carried(*row),
{
    let ghost start = all_carried(carries@);
    if let Some(row) = row {
        push_owner(carries, row.owner.as_str(), row.deploying_as.as_str(), false);
        push_acl(carries, &row.acl);
        push_text(carries, OPTIONS, &row.reloptions);
    }
    assert(all_carried(carries@) =~= start + relation_carried(*row));
}

fn read_routine(carries: &mut Vec<Carried>, row: &Option<RoutineRow>)
    ensures
        all_carried(final(carries)@) == all_carried(old(carries)@) + routine_carried(*row),
{
    let ghost start = all_carried(carries@);
    if let Some(row) = row {
        push_owner(
            carries,
            row.owner.as_str(),
            row.deploying_as.as_str(),
            row.security_definer,
        );
        push_acl(carries, &row.acl);
    }
    assert(all_carried(carries@) =~= start + routine_carried(*row));
}

fn read_view_column_defaults(carries: &mut Vec<Carried>, rows: &Vec<DefaultRow>)
    ensures
        all_carried(final(carries)@) == all_carried(old(carries)@) + defaults_carried(rows@),
{
    let ghost start = all_carried(carries@);
    let ghost all = defaults_carried(rows@);
    let mut i: usize = 0;
    assert(start + all.take(0) =~= start);
    while i < rows.len()
        invariant
            i <= rows@.len(),
            all == defaults_carried(rows@),
            all_carried(carries@) == start + all.take(i as int),
        decreases rows@.len() - i,
    {
        carry(
            carries,
            VIEW_DEFAULT,
            text::fill2(
                DEFAULTS_TO,
                rows[i].column_name.as_str(),
                rows[i].expression.as_str(),
            ),
        );
        i += 1;
        assert(all_carried(carries@) =~= start + all.take(i as int));
    }
    assert(all.take(i as int) =~= all);
}

fn read_arriving_grants(carries: &mut Vec<Carried>, rows: &Vec<ArrivingRow>)
    ensures
        all_carried(final(carries)@) == all_carried(old(carries)@) + arriving_carried(rows@),
{
    let ghost start = all_carried(carries@);
    let ghost all = arriving_carried(rows@);
    let mut i: usize = 0;
    assert(start + all.take(0) =~= start);
    while i < rows.len()
        invariant
            i <= rows@.len(),
            all == arriving_carried(rows@),
            all_carried(carries@) == start + all.take(i as int),
        decreases rows@.len() - i,
    {
        carry(
            carries,
            ARRIVING,
            text::fill2(ARRIVES_WITH, rows[i].in_schema.as_str(), rows[i].acl.as_str()),
        );
        i += 1;
        assert(all_carried(carries@) =~= start + all.take(i as int));
    }
    assert(all.take(i as int) =~= all);
}

fn describe_state(enabled: &str) -> (r: String)
    ensures
        r@ == state_text(enabled@),
{
    if text::same(enabled, "D") {
        "the trigger is disabled".to_owned()
    } else if text::same(enabled, "R") {
        "the trigger fires only on a replica".to_owned()
    } else if text::same(enabled, "A") {
        "the trigger fires always, replica or not".to_owned()
    } else {
        text::fill1(OTHER_STATE, enabled)
    }
}

fn read_trigger_enabled(carries: &mut Vec<Carried>, rows: &Vec<String>)
    ensures
        all_carried(final(carries)@) == all_carried(old(carries)@) + switches_carried(
            text::texts(rows@),
            rows@.len() as int,
        ),
{
    let ghost start = all_carried(carries@);
    let ghost all = text::texts(rows@);
    let mut i: usize = 0;
    assert(start + switches_carried(all, 0) =~= start);
    while i < rows.len()
        invariant
            i <= rows@.len(),
            all == text::texts(rows@),
            all_carried(carries@) == start + switches_carried(all, i as int),
        decreases rows@.len() - i,
    {
        let enabled = rows[i].as_str();
        if !text::same(enabled, "O") {
            carry(carries, ENABLED, describe_state(enabled));
        }
        i += 1;
        assert(all_carried(carries@) =~= start + switches_carried(all, i as int));
    }
}

/// Everything a rebuild of a module would take with it, from the rows the
/// catalog returned under the object's lock.
pub fn before_a_rebuild(
    id: &ModuleId,
    kind: ModuleKind,
    rows: &CatalogRows,
    serialized: Serialized,
) -> (r: Rebuild)
    ensures
        r.id@ == id@,
        all_carried(r.carries@) == carried_by(kind, *rows),
        r.serialized == serialized,
{
    let mut carries: Vec<Carried> = Vec::new();
    assert(all_carried(carries@) =~= Seq::empty());
    match kind {
        ModuleKind::View => {
            read_relation(&mut carries, &rows.relation);
            read_view_column_defaults(&mut carries, &rows.defaults);
            read_arriving_grants(&mut carries, &rows.arriving);
        },
        ModuleKind::Function | ModuleKind::Procedure => {
            read_routine(&mut carries, &rows.routine);
            read_arriving_grants(&mut carries, &rows.arriving);
        },
        ModuleKind::Trigger => read_trigger_enabled(&mut carries, &rows.enabled),
    }
    assert(all_carried(carries@) =~= carried_by(kind, *rows));
    Rebuild { id: id.again(), carries, serialized }
}

/// The kind of object under which the grants a replacement would arrive with
/// are asked for. A trigger is no grantable object.
pub fn arriving_kind(kind: ModuleKind) -> (r: Option<&'static str>)
    ensures
        match kind {
            ModuleKind::View => r matches Some(k) && k@ == "r"@,
            ModuleKind::Function | ModuleKind::Procedure => r matches Some(k) && k@ == "f"@,
            ModuleKind::Trigger => r is None,
        },
{
    match kind {
        ModuleKind::View => Some("r"),
        ModuleKind::Function | ModuleKind::Procedure => Some("f"),
        ModuleKind::Trigger => None,
    }
}

// ---------------------------------------------------------------------------
// Locks

/// An identifier between double quotes, whatever it is: the name comes from
/// the catalog or from a declaration that was validated.
pub fn one_quoted(ident: &str) -> (r: String)
    ensures
        r@ == sql::quoted_text(ident@),
{
    let mut out = text::one_char('"');
    let inner = text::double(ident, '"');
    out.append(inner.as_str());
    out.push('"');
    assert(out@ =~= sql::quoted_text(ident@));
    out
}

/// A qualified name between double quotes.
pub open spec fn quoted_name(name: model::Qualified) -> Seq<char> {
    text::filled(sql::DOTTED@, seq![sql::quoted_text(name.0), sql::quoted_text(name.1)])
}

/// A qualified name between double quotes.
pub fn quoted(name: &TableName) -> (r: String)
    ensures
        r@ == quoted_name(name@),
{
    let schema = one_quoted(name.schema.as_str());
    let own = one_quoted(name.name.as_str());
    text::fill2(sql::DOTTED, schema.as_str(), own.as_str())
}

/// How a rebuild is serialized.
#[derive(Debug, Clone, PartialEq, Eq)]
pub enum LockPlan {
    /// By this statement, and this is what it holds.
    Statement(String, &'static str),
    /// By a row lock on the routine, where the account can take one.
    RoutineRow,
    /// Not at all, and why.
    Without(String),
}

/// The lock of a relation.
pub const LOCK_TABLE: &'static str = "LOCK TABLE {} IN ACCESS EXCLUSIVE MODE";

/// What a view's lock holds.
pub const BY_VIEW: &'static str = "the view's own ACCESS EXCLUSIVE lock";

/// What a trigger's lock holds.
pub const BY_TABLE: &'static str = "the trigger's parent table's ACCESS EXCLUSIVE lock";

/// What a routine's lock holds.
pub const BY_ROW: &'static str = "a row lock on the routine's `pg_proc` entry";

/// Why a trigger without a table has no lock.
pub const NO_LOCK: &'static str =
    "`{}` does not say which table it is on, so there is no lock to take";

/// Why a routine that is not there has no lock.
pub const NOT_THERE: &'static str = "`{}` is not in the catalog";

/// Why a routine's rebuild is not serialized.
pub const NOT_SERIALIZED: &'static str =
    "this rebuild is not serialized: a routine is not a relation, so the \
                         only lock that would serialize it is a row lock on its `pg_proc` entry, \
                         and this account cannot take one ({}). A concurrent `ALTER FUNCTION` \
                         between this read and the `DROP` is reverted by the rebuild, and pbps \
                         cannot stop it without privileges it should not need (ADR-0009 §3)";

/// The lock that a kind of module allows: a view's own, a trigger's parent
/// table's, and for a routine, which is not a relation, a row lock.
pub fn lock_plan(id: &ModuleId, kind: ModuleKind) -> (r: LockPlan)
    ensures
        match kind {
            ModuleKind::View => r matches LockPlan::Statement(s, by) && s@ == text::filled(
                LOCK_TABLE@,
                seq![quoted_name((model::module_schema(id@), model::module_name(id@)))],
            ) && by@ == BY_VIEW@,
            ModuleKind::Trigger => match id@ {
                model::ModuleIdView::Trigger { on, name: _ } => r matches LockPlan::Statement(
                    s,
                    by,
                ) && s@ == text::filled(LOCK_TABLE@, seq![quoted_name(on)]) && by@ == BY_TABLE@,
                _ => r matches LockPlan::Without(why) && why@ == text::filled(
                    NO_LOCK@,
                    seq![model::module_text(id@)],
                ),
            },
            ModuleKind::Function | ModuleKind::Procedure => r is RoutineRow,
        },
{
    match kind {
        ModuleKind::View => {
            let name = quoted(&id.object_name());
            LockPlan::Statement(text::fill1(LOCK_TABLE, name.as_str()), BY_VIEW)
        },
        ModuleKind::Trigger => match id {
            ModuleId::Trigger { on, .. } => {
                let name = quoted(on);
                LockPlan::Statement(text::fill1(LOCK_TABLE, name.as_str()), BY_TABLE)
            },
            _ => {
                let shown = id.show();
                LockPlan::Without(text::fill1(NO_LOCK, shown.as_str()))
            },
        },
        ModuleKind::Function | ModuleKind::Procedure => LockPlan::RoutineRow,
    }
}

/// Why the rebuild of a routine that is not in the catalog takes no lock.
pub fn not_in_the_catalog(id: &ModuleId) -> (r: Serialized)
    ensures
        r matches Serialized::Not(why) && why@ == text::filled(
            NOT_THERE@,
            seq![model::module_text(id@)],
        ),
{
    let shown = id.show();
    Serialized::Not(text::fill1(NOT_THERE, shown.as_str()))
}

/// What the attempt to lock a routine's row came to: a refusal is not an error
/// to the caller, because every routine edit is a rebuild.
pub fn row_lock(taken: Result<(), String>) -> (r: Serialized)
    ensures
        match taken {
            Ok(_) => r matches Serialized::By(by) && by@ == BY_ROW@,
            Err(e) => r matches Serialized::Not(why) && why@ == text::filled(
                NOT_SERIALIZED@,
                seq![e@],
            ),
        },
{
    match taken {
        Ok(_) => Serialized::By(BY_ROW),
        Err(e) => Serialized::Not(text::fill1(NOT_SERIALIZED, e.as_str())),
    }
}

/// The argument types as the catalog joins them, which is how the identity is
/// compared there.
pub open spec fn catalog_signature(id: model::ModuleIdView) -> Seq<char> {
    match id {
        model::ModuleIdView::Routine { name: _, args } => text::joined(
            model::written(args),
            model::ARG_COMMA@,
        ),
        _ => Seq::empty(),
    }
}

/// The argument types as the catalog joins them.
pub fn signature(id: &ModuleId) -> (r: String)
    ensures
        r@ == catalog_signature(id@),
{
    match id {
        ModuleId::Routine { args, .. } => {
            let list = model::arg_list(args);
            text::join(&list, model::ARG_COMMA)
        },
        _ => String::new(),
    }
}

/// How to look a module up: the query and its parameters.
#[derive(Debug, Clone, PartialEq, Eq)]
pub struct OidQuery {
    pub sql: &'static str,
    pub parameters: Vec<String>,
}

/// How to look a module up in the catalog, or `None` for a trigger whose
/// identity names no table.
pub fn module_oid(id: &ModuleId, kind: ModuleKind) -> (r: Option<OidQuery>)
    ensures
        match kind {
            ModuleKind::View => r matches Some(q) && q.sql@ == VIEW_OID@ && text::texts(
                q.parameters@,
            ) == seq![model::module_schema(id@), model::module_name(id@)],
            ModuleKind::Function | ModuleKind::Procedure => r matches Some(q) && q.sql@
                == ROUTINE_OID@ && text::texts(q.parameters@) == seq![
                model::module_schema(id@),
                model::module_name(id@),
                catalog_signature(id@),
            ],
            ModuleKind::Trigger => match id@ {
                model::ModuleIdView::Trigger { on, name } => r matches Some(q) && q.sql@
                    == TRIGGER_OID@ && text::texts(q.parameters@) == seq![on.0, on.1, name],
                _ => r is None,
            },
        },
{
    let schema = id.schema().to_owned();
    let name = id.name().to_owned();
    match kind {
        ModuleKind::View => {
            let parameters: Vec<String> = vec![schema, name];
            assert(text::texts(parameters@) =~= seq![
                model::module_schema(id@),
                model::module_name(id@),
            ]);
            Some(OidQuery { sql: VIEW_OID, parameters })
        },
        ModuleKind::Function | ModuleKind::Procedure => {
            let parameters: Vec<String> = vec![schema, name, signature(id)];
            assert(text::texts(parameters@) =~= seq![
                model::module_schema(id@),
                model::module_name(id@),
                catalog_signature(id@),
            ]);
            Some(OidQuery { sql: ROUTINE_OID, parameters })
        },
        ModuleKind::Trigger => match id {
            ModuleId::Trigger { on, name: own } => {
                let parameters: Vec<String> = vec![
                    on.schema.clone(),
                    on.name.clone(),
                    own.clone(),
                ];
                assert(text::texts(parameters@) =~= seq![on@.0, on@.1, own@]);
                Some(OidQuery { sql: TRIGGER_OID, parameters })
            },
            _ => None,
        },
    }
}

// ---------------------------------------------------------------------------
// What depends on a module

/// Which part of a table a dependent is.
#[derive(Debug, Clone, PartialEq, Eq)]
pub enum Part {
    Check(String),
    Default(String),
    Index(String),
}

/// What a dependent is, in terms this project can act on.
#[derive(Debug, Clone, PartialEq, Eq)]
pub enum Holds {
    /// A module, keyed the way the declarations key it.
    Module(ModuleId),
    /// A part of a table.
    TablePart { table: TableName, part: Part },
    /// Something no declaration can hold.
    Unrepresentable(String),
}

/// Which part of a table a dependent is.
pub enum PartView {
    Check(Seq<char>),
    Default(Seq<char>),
    Index(Seq<char>),
}

/// What a dependent is.
pub enum HoldsView {
    Module(model::ModuleIdView),
    TablePart(model::Qualified, PartView),
    Unrepresentable(Seq<char>),
}

impl View for Part {
    type V = PartView;

    open spec fn view(&self) -> PartView {
        match *self {
            Part::Check(name) => PartView::Check(name@),
            Part::Default(name) => PartView::Default(name@),
            Part::Index(name) => PartView::Index(name@),
        }
    }
}

impl View for Holds {
    type V = HoldsView;

    open spec fn view(&self) -> HoldsView {
        match *self {
            Holds::Module(id) => HoldsView::Module(id@),
            Holds::TablePart { table, part } => HoldsView::TablePart(table@, part@),
            Holds::Unrepresentable(why) => HoldsView::Unrepresentable(why@),
        }
    }
}

/// One object that depends on a module, established by the catalog.
#[derive(Debug, Clone, PartialEq, Eq)]
pub struct Dependent {
    /// The engine's own words for it.
    pub described: String,
    pub holds: Holds,
}

impl View for Dependent {
    type V = (Seq<char>, HoldsView);

    open spec fn view(&self) -> (Seq<char>, HoldsView) {
        (self.described@, self.holds@)
    }
}

/// A declared module, with the objects whose names its text mentions.
#[derive(Debug, Clone, PartialEq, Eq)]
pub struct DeclaredModule {
    pub id: ModuleId,
    pub module: Module,
    pub mentions: Vec<ObjectName>,
}

/// The declarations: tables and modules in the order of their keys.
#[derive(Debug, Clone, PartialEq, Eq)]
pub struct Schema {
    pub tables: Vec<(TableName, Table)>,
    pub modules: Vec<DeclaredModule>,
}

/// The first declared table of this name.
pub open spec fn table_at(tables: Seq<(TableName, Table)>, name: model::Qualified, at: int) -> Option<
    Table,
>
    decreases tables.len() - at,
{
    if at < 0 || at >= tables.len() {
        None
    } else if tables[at].0@ == name {
        Some(tables[at].1)
    } else {
        table_at(tables, name, at + 1)
    }
}

/// Whether a module of this identity is declared.
pub open spec fn declares_module(modules: Seq<DeclaredModule>, id: model::ModuleIdView) -> bool {
    exists|i: int| 0 <= i < modules.len() && (#[trigger] modules[i]).id@ == id
}

/// Whether a table declares a part.
pub open spec fn declares_part(table: Table, part: PartView) -> bool {
    match part {
        PartView::Check(name) => validate::keys(table.checks@).contains(name),
        PartView::Index(name) => validate::keys(table.indexes@).contains(name),
        PartView::Default(column) => match validate::column_at(table.columns@, column, 0) {
            Some(at) => table.columns@[at].1.default is Some,
            None => false,
        },
    }
}

/// Whether the declarations hold a dependent, so that a plan could drop it
/// before the rebuild and put it back after.
pub open spec fn is_managed(holds: HoldsView, declared: Schema) -> bool {
    match holds {
        HoldsView::Module(id) => declares_module(declared.modules@, id),
        HoldsView::TablePart(table, part) => match table_at(declared.tables@, table, 0) {
            Some(t) => declares_part(t, part),
            None => false,
        },
        HoldsView::Unrepresentable(_) => false,
    }
}

fn find_table<'a>(tables: &'a Vec<(TableName, Table)>, name: &TableName) -> (r: Option<&'a Table>)
    ensures
        match r {
            Some(t) => table_at(tables@, name@, 0) == Some(*t),
            None => table_at(tables@, name@, 0) is None,
        },
{
    let mut i: usize = 0;
    while i < tables.len()
        invariant
            i <= tables@.len(),
            table_at(tables@, name@, 0) == table_at(tables@, name@, i as int),
        decreases tables@.len() - i,
    {
        if tables[i].0.is(name) {
            return Some(&tables[i].1);
        }
        i += 1;
    }
    None
}

fn has_module(modules: &Vec<DeclaredModule>, id: &ModuleId) -> (r: bool)
    ensures
        r == declares_module(modules@, id@),
{
    let mut i: usize = 0;
    while i < modules.len()
        invariant
            i <= modules@.len(),
            forall|k: int| 0 <= k < i ==> (#[trigger] modules@[k]).id@ != id@,
        decreases modules@.len() - i,
    {
        if modules[i].id.is(id) {
            return true;
        }
        i += 1;
    }
    false
}

fn has_default(table: &Table, column: &str) -> (r: bool)
    ensures
        r == declares_part(*table, PartView::Default(column@)),
{
    let mut i: usize = 0;
    while i < table.columns.len()
        invariant
            i <= table.columns@.len(),
            validate::column_at(table.columns@, column@, 0) == validate::column_at(
                table.columns@,
                column@,
                i as int,
            ),
        decreases table.columns@.len() - i,
    {
        if text::same(table.columns[i].0.as_str(), column) {
            return table.columns[i].1.default.is_some();
        }
        i += 1;
    }
    false
}

impl Dependent {
    /// Whether the declarations hold this, so that a plan could drop it before
    /// the rebuild and put it back after. It is asked of the exact part: a
    /// declared table does not make every constraint on it declared.
    #[must_use]
    pub fn managed(&self, declared: &Schema) -> (r: bool)
        ensures
            r == is_managed(self.holds@, *declared),
    {
        match &self.holds {
            Holds::Module(id) => has_module(&declared.modules, id),
            Holds::TablePart { table, part } => match find_table(&declared.tables, table) {
                Some(t) => match part {
                    Part::Check(name) => {
                        let names = validate::entry_keys(&t.checks);
                        text::listed_in(&names, name.as_str())
                    },
                    Part::Index(name) => {
                        let names = validate::entry_keys(&t.indexes);
                        text::listed_in(&names, name.as_str())
                    },
                    Part::Default(column) => has_default(t, column.as_str()),
                },
                None => false,
            },
            Holds::Unrepresentable(_) => false,
        }
    }
}

/// One argument type of a dependent routine, in order: what it reads as, or
/// `None` where it cannot be part of an identity.
#[derive(Debug, Clone, PartialEq, Eq)]
pub struct ArgRow {
    pub routine: i64,
    pub ty: Option<RoutineArg>,
}

/// One row of the dependents query.
#[derive(Debug, Clone, PartialEq, Eq)]
pub struct DependentRow {
    pub what: String,
    pub described: String,
    pub dep_schema: String,
    pub dep_name: String,
    pub part: String,
    pub dep_oid: i64,
    pub unrepresentable: String,
}

/// Why a routine whose argument types cannot be part of an identity cannot be
/// held.
pub const UNREADABLE_ARGS: &'static str =
    "a routine whose argument types this model cannot hold as an identity";

/// Why a dependent of another kind cannot be held.
pub const UNKNOWN_KIND: &'static str =
    "a dependent of a kind this reader does not know (`{}`)";

/// Whether an argument type of a routine cannot be part of an identity.
pub open spec fn refused_args(rows: Seq<ArgRow>, routine: i64) -> bool {
    exists|i: int| 0 <= i < rows.len() && (#[trigger] rows[i]).routine == routine && rows[i].ty is None
}

/// The argument types of a routine among the first `n` rows.
pub open spec fn args_of(rows: Seq<ArgRow>, routine: i64, n: int) -> Seq<model::ArgView>
    decreases n,
{
    if n <= 0 {
        Seq::empty()
    } else {
        let rest = args_of(rows, routine, n - 1);
        match rows[n - 1].ty {
            Some(arg) => if rows[n - 1].routine == routine {
                rest.push(arg@)
            } else {
                rest
            },
            None => rest,
        }
    }
}

/// What a row of the dependents is: a module is keyed the way the declarations
/// key it, in every row that names it.
pub open spec fn holds_of(row: DependentRow, args: Seq<ArgRow>) -> HoldsView {
    let name = (row.dep_schema@, row.dep_name@);
    if row.unrepresentable@.len() > 0 {
        HoldsView::Unrepresentable(row.unrepresentable@)
    } else if row.what@ == "view"@ {
        HoldsView::Module(model::ModuleIdView::Named(name))
    } else if row.what@ == "routine"@ {
        if refused_args(args, row.dep_oid) {
            HoldsView::Unrepresentable(UNREADABLE_ARGS@)
        } else {
            HoldsView::Module(
                model::ModuleIdView::Routine {
                    name,
                    args: args_of(args, row.dep_oid, args.len() as int),
                },
            )
        }
    } else if row.what@ == "trigger"@ {
        HoldsView::Module(model::ModuleIdView::Trigger { on: name, name: row.part@ })
    } else if row.what@ == "check"@ {
        HoldsView::TablePart(name, PartView::Check(row.part@))
    } else if row.what@ == "default"@ {
        HoldsView::TablePart(name, PartView::Default(row.part@))
    } else if row.what@ == "index"@ {
        HoldsView::TablePart(name, PartView::Index(row.part@))
    } else {
        HoldsView::Unrepresentable(text::filled(UNKNOWN_KIND@, seq![row.what@]))
    }
}

fn args_refused(rows: &Vec<ArgRow>, routine: i64) -> (r: bool)
    ensures
        r == refused_args(rows@, routine),
{
    let mut i: usize = 0;
    while i < rows.len()
        invariant
            i <= rows@.len(),
            forall|k: int|
                0 <= k < i ==> !((#[trigger] rows@[k]).routine == routine && rows@[k].ty is None),
        decreases rows@.len() - i,
    {
        if rows[i].routine == routine && rows[i].ty.is_none() {
            return true;
        }
        i += 1;
    }
    false
}

fn collect_args(rows: &Vec<ArgRow>, routine: i64) -> (r: Vec<RoutineArg>)
    ensures
        model::all_args(r@) == args_of(rows@, routine, rows@.len() as int),
{
    let mut out: Vec<RoutineArg> = Vec::new();
    let mut i: usize = 0;
    assert(model::all_args(out@) =~= Seq::empty());
    while i < rows.len()
        invariant
            i <= rows@.len(),
            model::all_args(out@) == args_of(rows@, routine, i as int),
        decreases rows@.len() - i,
    {
        if let Some(arg) = &rows[i].ty {
            if rows[i].routine == routine {
                let ghost before = out@;
                let copied = arg.again();
                out.push(copied);
                assert(model::all_args(out@) =~= model::all_args(before).push(copied@));
            }
        }
        i += 1;
    }
    out
}

fn held(row: &DependentRow, args: &Vec<ArgRow>) -> (r: Holds)
    ensures
        r@ == holds_of(*row, args@),
{
    let what = row.what.as_str();
    let name = TableName::new(row.dep_schema.as_str(), row.dep_name.as_str());
    if !row.unrepresentable.as_str().is_empty() {
        Holds::Unrepresentable(row.unrepresentable.clone())
    } else if text::same(what, "view") {
        Holds::Module(ModuleId::Named(name))
    } else if text::same(what, "routine") {
        if args_refused(args, row.dep_oid) {
            Holds::Unrepresentable(UNREADABLE_ARGS.to_owned())
        } else {
            let list = collect_args(args, row.dep_oid);
            Holds::Module(ModuleId::Routine { name, args: list })
        }
    } else if text::same(what, "trigger") {
        Holds::Module(ModuleId::Trigger { on: name, name: row.part.clone() })
    } else if text::same(what, "check") {
        Holds::TablePart { table: name, part: Part::Check(row.part.clone()) }
    } else if text::same(what, "default") {
        Holds::TablePart { table: name, part: Part::Default(row.part.clone()) }
    } else if text::same(what, "index") {
        Holds::TablePart { table: name, part: Part::Index(row.part.clone()) }
    } else {
        Holds::Unrepresentable(text::fill1(UNKNOWN_KIND, what))
    }
}

/// Some dependents.
pub open spec fn all_dependents(v: Seq<Dependent>) -> Seq<(Seq<char>, HoldsView)> {
    Seq::new(v.len(), |i: int| v[i]@)
}

/// What depends on a module, over every kind of dependent, from the rows the
/// catalog returned.
pub fn dependents(rows: &Vec<DependentRow>, args: &Vec<ArgRow>) -> (r: Vec<Dependent>)
    ensures
        all_dependents(r@) == Seq::new(
            rows@.len(),
            |i: int| (rows@[i].described@, holds_of(rows@[i], args@)),
        ),
{
    let mut out: Vec<Dependent> = Vec::new();
    let mut i: usize = 0;
    while i < rows.len()
        invariant
            i <= rows@.len(),
            out@.len() == i,
            forall|k: int|
                0 <= k < i ==> (#[trigger] out@[k])@ == (
                    rows@[k].described@,
                    holds_of(rows@[k], args@),
                ),
        decreases rows@.len() - i,
    {
        out.push(Dependent { described: rows[i].described.clone(), holds: held(&rows[i], args) });
        i += 1;
    }
    assert(all_dependents(out@) =~= Seq::new(
        rows@.len(),
        |k: int| (rows@[k].described@, holds_of(rows@[k], args@)),
    ));
    out
}

/// The catalog a kind of module is in.
pub fn reference_class(kind: ModuleKind) -> (r: &'static str)
    ensures
        r@ == match kind {
            ModuleKind::View => "pg_catalog.pg_class"@,
            ModuleKind::Function | ModuleKind::Procedure => "pg_catalog.pg_proc"@,
            ModuleKind::Trigger => "pg_catalog.pg_trigger"@,
        },
{
    match kind {
        ModuleKind::View => "pg_catalog.pg_class",
        ModuleKind::Function | ModuleKind::Procedure => "pg_catalog.pg_proc",
        ModuleKind::Trigger => "pg_catalog.pg_trigger",
    }
}

/// The argument types of the routines that depend on a module.
pub const DEPENDENT_ARGS: &'static str =
    "SELECT d.objid::int8 AS oid, u.pos::int8 AS pos,
                pg_catalog.format_type(u.ty, NULL) AS ty
           FROM pg_catalog.pg_depend d
           JOIN pg_catalog.pg_proc p ON p.oid = d.objid
     CROSS JOIN LATERAL pg_catalog.unnest(p.proargtypes) WITH ORDINALITY AS u(ty, pos)
          WHERE d.refclassid = '{}'::regclass
            AND d.refobjid = ($1::int8)::oid
            AND d.classid = 'pg_catalog.pg_proc'::regclass
            AND d.deptype <> 'i'
          ORDER BY 1, 2";

/// The edges of one module that are not its own parts.
pub const EDGE: &'static str =
    "d.refclassid = '{}'::regclass AND d.refobjid = ($1::int8)::oid AND d.deptype <> 'i'";

/// The engine's own words for a dependent.
pub const DESCRIBED: &'static str =
    "pg_catalog.pg_describe_object(d.classid, d.objid, d.objsubid) AS described";

/// One row per dependent, over the catalogs a dependent can live in.
pub const DEPENDENTS: &'static str =
    "SELECT 'view' AS what, {}, n2.nspname AS dep_schema, c2.relname AS dep_name,
                '' AS part, 0::int8 AS dep_oid,
                CASE WHEN c2.relkind = 'm'
                     THEN 'a materialized view, which this model does not hold'
                     ELSE '' END AS unrepresentable
           FROM pg_catalog.pg_depend d
           JOIN pg_catalog.pg_rewrite r ON r.oid = d.objid
           JOIN pg_catalog.pg_class c2 ON c2.oid = r.ev_class
           JOIN pg_catalog.pg_namespace n2 ON n2.oid = c2.relnamespace
          WHERE {} AND d.classid = 'pg_catalog.pg_rewrite'::regclass
          UNION ALL
         SELECT 'routine', {}, n2.nspname, p2.proname, '', p2.oid::int8,
                CASE WHEN p2.prokind NOT IN ('f', 'p')
                     THEN 'an aggregate or window function, which this model does not hold'
                     ELSE '' END
           FROM pg_catalog.pg_depend d
           JOIN pg_catalog.pg_proc p2 ON p2.oid = d.objid
           JOIN pg_catalog.pg_namespace n2 ON n2.oid = p2.pronamespace
          WHERE {} AND d.classid = 'pg_catalog.pg_proc'::regclass
          UNION ALL
         SELECT 'trigger', {}, n2.nspname, c2.relname, tg.tgname, 0::int8, ''
           FROM pg_catalog.pg_depend d
           JOIN pg_catalog.pg_trigger tg ON tg.oid = d.objid
           JOIN pg_catalog.pg_class c2 ON c2.oid = tg.tgrelid
           JOIN pg_catalog.pg_namespace n2 ON n2.oid = c2.relnamespace
          WHERE {} AND d.classid = 'pg_catalog.pg_trigger'::regclass
            AND NOT tg.tgisinternal
          UNION ALL
         SELECT 'check', {}, n2.nspname, c2.relname, con.conname, 0::int8,
                CASE WHEN con.contype <> 'c'
                     THEN 'a constraint of a kind that is not a check'
                     ELSE '' END
           FROM pg_catalog.pg_depend d
           JOIN pg_catalog.pg_constraint con ON con.oid = d.objid
           JOIN pg_catalog.pg_class c2 ON c2.oid = con.conrelid
           JOIN pg_catalog.pg_namespace n2 ON n2.oid = c2.relnamespace
          WHERE {} AND d.classid = 'pg_catalog.pg_constraint'::regclass
          UNION ALL
         SELECT 'default', {}, n2.nspname, c2.relname, a.attname, 0::int8,
                CASE WHEN a.attgenerated <> ''
                     THEN 'a generated column, which `Column` has no field for'
                     ELSE '' END
           FROM pg_catalog.pg_depend d
           JOIN pg_catalog.pg_attrdef ad ON ad.oid = d.objid
           JOIN pg_catalog.pg_class c2 ON c2.oid = ad.adrelid
           JOIN pg_catalog.pg_attribute a
             ON a.attrelid = ad.adrelid AND a.attnum = ad.adnum
           JOIN pg_catalog.pg_namespace n2 ON n2.oid = c2.relnamespace
          WHERE {} AND d.classid = 'pg_catalog.pg_attrdef'::regclass
          UNION ALL
         SELECT 'index', {}, n2.nspname, c2.relname, ic.relname, 0::int8,
                CASE WHEN i.indexprs IS NOT NULL
                     THEN 'an index over an expression, which `IndexColumn` has no field for'
                     WHEN ic.relkind <> 'i'
                     THEN 'a relation of a kind this reader does not know'
                     ELSE '' END
           FROM pg_catalog.pg_depend d
           JOIN pg_catalog.pg_class ic ON ic.oid = d.objid
           LEFT JOIN pg_catalog.pg_index i ON i.indexrelid = ic.oid
           LEFT JOIN pg_catalog.pg_class c2 ON c2.oid = i.indrelid
           LEFT JOIN pg_catalog.pg_namespace n2 ON n2.oid = c2.relnamespace
          WHERE {} AND d.classid = 'pg_catalog.pg_class'::regclass
          ORDER BY 2";

/// The query for the argument types of the routines that depend on a module of
/// this catalog.
pub fn dependent_routine_args_query(refclass: &str) -> (r: String)
    ensures
        r@ == text::filled(DEPENDENT_ARGS@, seq![refclass@]),
{
    text::fill1(DEPENDENT_ARGS, refclass)
}

/// The query for what depends on a module of this catalog.
pub fn dependents_query(refclass: &str) -> (r: String)
    ensures
        ({
            let edge = text::filled(EDGE@, seq![refclass@]);
            r@ == text::filled(
                DEPENDENTS@,
                seq![
                    DESCRIBED@, edge,
                    DESCRIBED@, edge,
                    DESCRIBED@, edge,
                    DESCRIBED@, edge,
                    DESCRIBED@, edge,
                    DESCRIBED@, edge,
                ],
            )
        }),
{
    let edge = text::fill1(EDGE, refclass);
    let args: Vec<String> = vec![
        DESCRIBED.to_owned(), edge.clone(),
        DESCRIBED.to_owned(), edge.clone(),
        DESCRIBED.to_owned(), edge.clone(),
        DESCRIBED.to_owned(), edge.clone(),
        DESCRIBED.to_owned(), edge.clone(),
        DESCRIBED.to_owned(), edge.clone(),
    ];
    assert(text::texts(args@) =~= seq![
        DESCRIBED@, edge@,
        DESCRIBED@, edge@,
        DESCRIBED@, edge@,
        DESCRIBED@, edge@,
        DESCRIBED@, edge@,
        DESCRIBED@, edge@,
    ]);
    text::fill(DEPENDENTS, &args)
}

// ---------------------------------------------------------------------------
// Refusals and reports

/// A dependent that no declaration can hold, in a line.
pub const BLOCKED_BY: &'static str = "- {} — {}";

/// Why a dependent that is not declared blocks.
pub const UNDECLARED: &'static str = "this project does not declare it";

/// Why a module with dependents that are not managed cannot be rebuilt.
pub const CANNOT_RESTORE: &'static str =
    "`{}` cannot be rebuilt: this engine has no `CREATE OR ALTER`, so the change is a drop \
         and a create (ADR-0009 §3), and these objects depend on it and this project could not \
         put them back:\n{}\nThe plan names every object it drops, or it does not drop \
         (SPEC 14.3), so `DROP … CASCADE` is not offered. Declare them, or remove the \
         dependency, and plan again.";

/// Why a dependent is not managed.
pub open spec fn blocked_why(holds: HoldsView) -> Seq<char> {
    match holds {
        HoldsView::Unrepresentable(why) => why,
        _ => UNDECLARED@,
    }
}

/// A dependent that is not managed, in a line.
pub open spec fn blocked_line(d: (Seq<char>, HoldsView)) -> Seq<char> {
    text::filled(BLOCKED_BY@, seq![d.0, blocked_why(d.1)])
}

/// The lines of the dependents among the first `n` that are not managed.
pub open spec fn blocked_lines(
    dependents: Seq<(Seq<char>, HoldsView)>,
    declared: Schema,
    n: int,
) -> Seq<Seq<char>>
    decreases n,
{
    if n <= 0 {
        Seq::empty()
    } else {
        let rest = blocked_lines(dependents, declared, n - 1);
        if is_managed(dependents[n - 1].1, declared) {
            rest
        } else {
            rest.push(blocked_line(dependents[n - 1]))
        }
    }
}

/// The refusal for dependents this project could not put back, or `None`. The
/// plan names every object it drops, or it does not drop.
#[must_use]
pub fn unmanaged_refusal(id: &ModuleId, dependents: &[Dependent], declared: &Schema) -> (r: Option<
    String,
>)
    ensures
        ({
            let lines = blocked_lines(
                all_dependents(dependents@),
                *declared,
                dependents@.len() as int,
            );
            match r {
                None => lines.len() == 0,
                Some(message) => lines.len() > 0 && message@ == text::filled(
                    CANNOT_RESTORE@,
                    seq![model::module_text(id@), text::joined(lines, NEWLINE@)],
                ),
            }
        }),
{
    let mut lines: Vec<String> = Vec::new();
    let mut i: usize = 0;
    let ghost all = all_dependents(dependents@);
    assert(text::texts(lines@) =~= Seq::empty());
    while i < dependents.len()
        invariant
            i <= dependents@.len(),
            all == all_dependents(dependents@),
            text::texts(lines@) == blocked_lines(all, *declared, i as int),
        decreases dependents@.len() - i,
    {
        let d = &dependents[i];
        assert(all[i as int] == d@);
        if !d.managed(declared) {
            let why = match &d.holds {
                Holds::Unrepresentable(why) => why.as_str(),
                Holds::Module(_) | Holds::TablePart { .. } => UNDECLARED,
            };
            let line = text::fill2(BLOCKED_BY, d.described.as_str(), why);
            assert(why@ == blocked_why(d.holds@));
            assert(line@ == blocked_line(d@));
            proof {
                text::texts_push(lines@, line);
            }
            lines.push(line);
        }
        i += 1;
    }
    assert(text::texts(lines@).len() == lines@.len());
    if lines.len() == 0 {
        return None;
    }
    let list = text::join(&lines, NEWLINE);
    let shown = id.show();
    Some(text::fill2(CANNOT_RESTORE, shown.as_str(), list.as_str()))
}

/// The dependents among the first `n` that are managed.
pub open spec fn managed_ones(
    dependents: Seq<(Seq<char>, HoldsView)>,
    declared: Schema,
    n: int,
) -> Seq<(Seq<char>, HoldsView)>
    decreases n,
{
    if n <= 0 {
        Seq::empty()
    } else {
        let rest = managed_ones(dependents, declared, n - 1);
        if is_managed(dependents[n - 1].1, declared) {
            rest.push(dependents[n - 1])
        } else {
            rest
        }
    }
}

/// Some borrowed dependents.
pub open spec fn all_borrowed(v: Seq<&Dependent>) -> Seq<(Seq<char>, HoldsView)> {
    Seq::new(v.len(), |i: int| v[i]@)
}

/// The managed dependents a plan has to drop before the rebuild and create
/// after it, in order.
#[must_use]
pub fn to_rebuild<'a>(dependents: &'a [Dependent], declared: &Schema) -> (r: Vec<&'a Dependent>)
    ensures
        all_borrowed(r@) == managed_ones(
            all_dependents(dependents@),
            *declared,
            dependents@.len() as int,
        ),
{
    let mut out: Vec<&'a Dependent> = Vec::new();
    let mut i: usize = 0;
    let ghost all = all_dependents(dependents@);
    assert(all_borrowed(out@) =~= Seq::empty());
    while i < dependents.len()
        invariant
            i <= dependents@.len(),
            all == all_dependents(dependents@),
            all_borrowed(out@) == managed_ones(all, *declared, i as int),
        decreases dependents@.len() - i,
    {
        let d = &dependents[i];
        assert(all[i as int] == d@);
        if d.managed(declared) {
            let ghost before = out@;
            out.push(d);
            assert(all_borrowed(out@) =~= all_borrowed(before).push(d@));
        }
        i += 1;
    }
    out
}

/// Whether a module's text mentions an object.
pub open spec fn mentions(module: DeclaredModule, name: model::Qualified) -> bool {
    exists|i: int| 0 <= i < module.mentions@.len() && (#[trigger] module.mentions@[i])@ == name
}

fn does_mention(module: &DeclaredModule, name: &ObjectName) -> (r: bool)
    ensures
        r == mentions(*module, name@),
{
    let mut i: usize = 0;
    while i < module.mentions.len()
        invariant
            i <= module.mentions@.len(),
            forall|k: int| 0 <= k < i ==> (#[trigger] module.mentions@[k])@ != name@,
        decreases module.mentions@.len() - i,
    {
        if module.mentions[i].is(name) {
            return true;
        }
        i += 1;
    }
    false
}

/// The declared modules among the first `n` that mention a module's name, the
/// module itself left out.
pub open spec fn callers_of(
    modules: Seq<DeclaredModule>,
    id: model::ModuleIdView,
    n: int,
) -> Seq<model::ModuleIdView>
    decreases n,
{
    if n <= 0 {
        Seq::empty()
    } else {
        let rest = callers_of(modules, id, n - 1);
        let other = modules[n - 1];
        if other.id@ != id && mentions(
            other,
            (model::module_schema(id), model::module_name(id)),
        ) {
            rest.push(other.id@)
        } else {
            rest
        }
    }
}

/// Some identities.
pub open spec fn all_ids(v: Seq<ModuleId>) -> Seq<model::ModuleIdView> {
    Seq::new(v.len(), |i: int| v[i]@)
}

/// Declared callers that only a name scan can see: reported, never refused,
/// because with overloading a name is not an identity.
#[must_use]
pub fn callers_by_name(declared: &Schema, id: &ModuleId) -> (r: Vec<ModuleId>)
    ensures
        all_ids(r@) == callers_of(declared.modules@, id@, declared.modules@.len() as int),
{
    let name = id.object_name();
    let modules = &declared.modules;
    let mut out: Vec<ModuleId> = Vec::new();
    let mut i: usize = 0;
    assert(all_ids(out@) =~= Seq::empty());
    while i < modules.len()
        invariant
            i <= modules@.len(),
            modules@ == declared.modules@,
            name@ == (model::module_schema(id@), model::module_name(id@)),
            all_ids(out@) == callers_of(modules@, id@, i as int),
        decreases modules@.len() - i,
    {
        if !modules[i].id.is(id) && does_mention(&modules[i], &name) {
            let found = modules[i].id.again();
            let ghost before = out@;
            out.push(found);
            assert(all_ids(out@) =~= all_ids(before).push(found@));
        }
        i += 1;
    }
    out
}

/// A caller, in a line.
pub const CALLER: &'static str = "- {}";

/// What is said of callers that only a name scan can see.
pub const CALLERS: &'static str =
    "`{}` is being rebuilt or removed, and these declared modules mention its name. The \
         catalog records a dependency only for a body it parsed at creation time — measured, a \
         `BEGIN ATOMIC` body records one and a plpgsql or SQL string-literal body records \
         nothing — so this is a scan, and a name is not an identity where routines overload. It \
         is reported and not refused; check each and, where the call has to be reordered, say so \
         with `depends_on:`:\n{}";

/// The lines of some callers.
pub open spec fn caller_lines(callers: Seq<model::ModuleIdView>) -> Seq<Seq<char>> {
    Seq::new(
        callers.len(),
        |i: int| text::filled(CALLER@, seq![model::module_text(callers[i])]),
    )
}

/// The report those callers become, or `None` where the scan found nothing.
#[must_use]
pub fn callers_report(id: &ModuleId, callers: &[ModuleId]) -> (r: Option<String>)
    ensures
        match r {
            None => callers@.len() == 0,
            Some(message) => callers@.len() > 0 && message@ == text::filled(
                CALLERS@,
                seq![
                    model::module_text(id@),
                    text::joined(caller_lines(all_ids(callers@)), NEWLINE@),
                ],
            ),
        },
{
    if callers.len() == 0 {
        return None;
    }
    let mut lines: Vec<String> = Vec::new();
    let mut i: usize = 0;
    while i < callers.len()
        invariant
            i <= callers@.len(),
            lines@.len() == i,
            forall|k: int|
                0 <= k < i ==> (#[trigger] lines@[k])@ == caller_lines(all_ids(callers@))[k],
        decreases callers@.len() - i,
    {
        let shown = callers[i].show();
        lines.push(text::fill1(CALLER, shown.as_str()));
        i += 1;
    }
    assert(text::texts(lines@) =~= caller_lines(all_ids(callers@)));
    let list = text::join(&lines, NEWLINE);
    let shown = id.show();
    Some(text::fill2(CALLERS, shown.as_str(), list.as_str()))
}

// ---------------------------------------------------------------------------
// Bindings this plan could move

/// One module this plan must rebuild because it puts a same-named object where
/// the module's names resolve.
#[derive(Debug, Clone, PartialEq, Eq)]
pub struct Rebound {
    /// The module whose binding could move.
    pub module: ModuleId,
    /// What this plan introduces that could capture it.
    pub arriving: ModuleId,
}

impl View for Rebound {
    type V = (model::ModuleIdView, model::ModuleIdView);

    open spec fn view(&self) -> (model::ModuleIdView, model::ModuleIdView) {
        (self.module@, self.arriving@)
    }
}

/// Some rebound modules.
pub open spec fn all_rebound(v: Seq<Rebound>) -> Seq<(model::ModuleIdView, model::ModuleIdView)> {
    Seq::new(v.len(), |i: int| v[i]@)
}

/// Whether an arriving object could capture a name of a module: it arrives on
/// the module's write path, and the module's text mentions its name.
pub open spec fn captures(
    module: DeclaredModule,
    extras: Seq<Seq<char>>,
    arriving: model::ModuleIdView,
) -> bool {
    &&& arriving != module.id@
    &&& model::module_schema(arriving) == model::module_schema(module.id@) || extras.contains(
        model::module_schema(arriving),
    )
    &&& mentions(module, (model::module_schema(arriving), model::module_name(arriving)))
}

/// What could capture a name of a module, among the first `n` arriving.
pub open spec fn rebound_one(
    module: DeclaredModule,
    extras: Seq<Seq<char>>,
    arriving: Seq<model::ModuleIdView>,
    n: int,
) -> Seq<(model::ModuleIdView, model::ModuleIdView)>
    decreases n,
{
    if n <= 0 {
        Seq::empty()
    } else {
        let rest = rebound_one(module, extras, arriving, n - 1);
        if captures(module, extras, arriving[n - 1]) {
            rest.push((module.id@, arriving[n - 1]))
        } else {
            rest
        }
    }
}

/// The modules among the first `n` whose binding a plan could move.
pub open spec fn rebound_of(
    modules: Seq<DeclaredModule>,
    extras: Seq<Seq<char>>,
    arriving: Seq<model::ModuleIdView>,
    changed: Seq<model::ModuleIdView>,
    n: int,
) -> Seq<(model::ModuleIdView, model::ModuleIdView)>
    decreases n,
{
    if n <= 0 {
        Seq::empty()
    } else {
        let rest = rebound_of(modules, extras, arriving, changed, n - 1);
        if changed.contains(modules[n - 1].id@) {
            rest
        } else {
            rest + rebound_one(modules[n - 1], extras, arriving, arriving.len() as int)
        }
    }
}

fn is_one_of(ids: &[ModuleId], id: &ModuleId) -> (r: bool)
    ensures
        r == all_ids(ids@).contains(id@),
{
    let mut i: usize = 0;
    while i < ids.len()
        invariant
            i <= ids@.len(),
            forall|k: int| 0 <= k < i ==> all_ids(ids@)[k] != id@,
        decreases ids@.len() - i,
    {
        if ids[i].is(id) {
            assert(all_ids(ids@)[i as int] == id@);
            return true;
        }
        i += 1;
    }
    false
}

fn lists(extras: &[String], schema: &str) -> (r: bool)
    ensures
        r == text::texts(extras@).contains(schema@),
{
    let mut i: usize = 0;
    while i < extras.len()
        invariant
            i <= extras@.len(),
            forall|k: int| 0 <= k < i ==> text::texts(extras@)[k] != schema@,
        decreases extras@.len() - i,
    {
        if text::same(extras[i].as_str(), schema) {
            assert(text::texts(extras@)[i as int] == schema@);
            return true;
        }
        i += 1;
    }
    false
}

fn rebound_module(module: &DeclaredModule, extras: &[String], arriving: &[ModuleId]) -> (r: Vec<
    Rebound,
>)
    ensures
        all_rebound(r@) == rebound_one(
            *module,
            text::texts(extras@),
            all_ids(arriving@),
            arriving@.len() as int,
        ),
{
    let mut out: Vec<Rebound> = Vec::new();
    let mut i: usize = 0;
    assert(all_rebound(out@) =~= Seq::empty());
    while i < arriving.len()
        invariant
            i <= arriving@.len(),
            all_rebound(out@) == rebound_one(
                *module,
                text::texts(extras@),
                all_ids(arriving@),
                i as int,
            ),
        decreases arriving@.len() - i,
    {
        let new = &arriving[i];
        if !new.is(&module.id) && (text::same(new.schema(), module.id.schema()) || lists(
            extras,
            new.schema(),
        )) && does_mention(module, &new.object_name()) {
            let found = Rebound { module: module.id.again(), arriving: new.again() };
            let ghost before = out@;
            out.push(found);
            assert(all_rebound(out@) =~= all_rebound(before).push(found@));
        }
        i += 1;
    }
    out
}

/// Every unchanged declared module whose binding this plan could move, asked
/// of the catalog as the plan will leave it: `arriving` is what the plan
/// brings into being, and `already_changed` what it rebuilds anyway.
#[must_use]
pub fn rebound_by_this_plan(
    declared: &Schema,
    write_path_extras: &[String],
    arriving: &[ModuleId],
    already_changed: &[ModuleId],
) -> (r: Vec<Rebound>)
    ensures
        all_rebound(r@) == rebound_of(
            declared.modules@,
            text::texts(write_path_extras@),
            all_ids(arriving@),
            all_ids(already_changed@),
            declared.modules@.len() as int,
        ),
{
    let modules = &declared.modules;
    let mut out: Vec<Rebound> = Vec::new();
    let mut i: usize = 0;
    assert(all_rebound(out@) =~= Seq::empty());
    while i < modules.len()
        invariant
            i <= modules@.len(),
            modules@ == declared.modules@,
            all_rebound(out@) == rebound_of(
                modules@,
                text::texts(write_path_extras@),
                all_ids(arriving@),
                all_ids(already_changed@),
                i as int,
            ),
        decreases modules@.len() - i,
    {
        if !is_one_of(already_changed, &modules[i].id) {
            let mut more = rebound_module(&modules[i], write_path_extras, arriving);
            let ghost before = out@;
            let ghost added = more@;
            out.append(&mut more);
            assert(out@ =~= before + added);
            assert(all_rebound(out@) =~= all_rebound(before) + all_rebound(added));
        }
        i += 1;
    }
    out
}

// ---------------------------------------------------------------------------
// Laws

/// Every dependent is rebuilt or refused, and none is both: the managed ones
/// and the lines of the refusal are as many as the dependents together.
pub proof fn every_dependent_is_rebuilt_or_refused(
    dependents: Seq<(Seq<char>, HoldsView)>,
    declared: Schema,
    n: int,
)
    requires
        0 <= n <= dependents.len(),
    ensures
        managed_ones(dependents, declared, n).len() + blocked_lines(dependents, declared, n).len()
            == n,
    decreases n,
{
    if n > 0 {
        every_dependent_is_rebuilt_or_refused(dependents, declared, n - 1);
    }
}

/// Nothing is refused exactly where every dependent is managed.
pub proof fn nothing_is_refused_where_everything_is_managed(
    dependents: Seq<(Seq<char>, HoldsView)>,
    declared: Schema,
    n: int,
)
    requires
        0 <= n <= dependents.len(),
    ensures
        blocked_lines(dependents, declared, n).len() == 0 <==> forall|i: int|
            0 <= i < n ==> is_managed((#[trigger] dependents[i]).1, declared),
    decreases n,
{
    if n > 0 {
        nothing_is_refused_where_everything_is_managed(dependents, declared, n - 1);
        assert(is_managed(dependents[n - 1].1, declared)
            || blocked_lines(dependents, declared, n).len() > 0);
        if blocked_lines(dependents, declared, n).len() == 0 {
            assert(blocked_lines(dependents, declared, n - 1).len() == 0);
        }
    }
}

/// What no declaration can hold is never managed, whatever is declared.
pub proof fn what_cannot_be_held_is_never_managed(why: Seq<char>, declared: Schema)
    ensures
        !is_managed(HoldsView::Unrepresentable(why), declared),
{
}

/// A module the plan already changes is never rebuilt a second time, and what
/// rebinds one is always on its write path and another module.
pub proof fn a_changed_module_is_not_rebound(
    modules: Seq<DeclaredModule>,
    extras: Seq<Seq<char>>,
    arriving: Seq<model::ModuleIdView>,
    changed: Seq<model::ModuleIdView>,
    n: int,
    k: int,
)
    requires
        0 <= n <= modules.len(),
        0 <= k < rebound_of(modules, extras, arriving, changed, n).len(),
    ensures
        ({
            let found = rebound_of(modules, extras, arriving, changed, n)[k];
            &&& !changed.contains(found.0)
            &&& found.0 != found.1
            &&& model::module_schema(found.1) == model::module_schema(found.0) || extras.contains(
                model::module_schema(found.1),
            )
        }),
    decreases n,
{
    let rest = rebound_of(modules, extras, arriving, changed, n - 1);
    if changed.contains(modules[n - 1].id@) || k < rest.len() {
        a_changed_module_is_not_rebound(modules, extras, arriving, changed, n - 1, k);
    } else {
        rebound_one_captures(
            modules[n - 1],
            extras,
            arriving,
            arriving.len() as int,
            k - rest.len(),
        );
    }
}

proof fn rebound_one_captures(
    module: DeclaredModule,
    extras: Seq<Seq<char>>,
    arriving: Seq<model::ModuleIdView>,
    n: int,
    k: int,
)
    requires
        0 <= n <= arriving.len(),
        0 <= k < rebound_one(module, extras, arriving, n).len(),
    ensures
        rebound_one(module, extras, arriving, n)[k].0 == module.id@,
        captures(module, extras, rebound_one(module, extras, arriving, n)[k].1),
    decreases n,
{
    let rest = rebound_one(module, extras, arriving, n - 1);
    if k < rest.len() {
        rebound_one_captures(module, extras, arriving, n - 1, k);
    }
}

} // verus!

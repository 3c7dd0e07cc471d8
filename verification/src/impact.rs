//! What a rename breaks.
//!
//! This engine stores the bodies it parses, so a rename rewrites them: the
//! dependency catalog lists what survives. What breaks is what the engine
//! keeps as text, and the only way to find it is to read those bodies. So
//! there are three lists: what will break and does not stop the rename, what
//! the rename is carried into, and what blocks it, which on this engine is
//! nothing.
use vstd::prelude::*;

use crate::drop_impact;
use crate::error;
use crate::error::{invalid, DialectError};
use crate::lexer;
use crate::model;
use crate::model::{Change, ChangeSet, ColumnRef, ModuleId, TableName};
use crate::sql;
use crate::text;

verus! {

// ---------------------------------------------------------------------------
// Targets

/// What a rename is about, under the name the catalog knows it by.
#[derive(Debug, Clone, PartialEq, Eq)]
pub enum RenameTarget {
    Table(TableName),
    Column(ColumnRef),
    Module(ModuleId),
}

/// What a rename is about.
pub enum TargetView {
    Table(model::Qualified),
    Column(model::Qualified, Seq<char>),
    Module(model::ModuleIdView),
}

impl View for RenameTarget {
    type V = TargetView;

    open spec fn view(&self) -> TargetView {
        match *self {
            RenameTarget::Table(table) => TargetView::Table(table@),
            RenameTarget::Column(column) => TargetView::Column(column@.0, column@.1),
            RenameTarget::Module(id) => TargetView::Module(id@),
        }
    }
}

/// A table, in words.
pub const TABLE: &'static str = "table {}";

/// A column, in words.
pub const COLUMN: &'static str = "column {}";

/// A module, in words.
pub const MODULE: &'static str = "module {}";

/// A target, in words.
pub open spec fn target_text(target: TargetView) -> Seq<char> {
    match target {
        TargetView::Table(table) => text::filled(TABLE@, seq![model::dotted(table)]),
        TargetView::Column(table, name) => text::filled(
            COLUMN@,
            seq![model::column_text((table, name))],
        ),
        TargetView::Module(id) => text::filled(MODULE@, seq![model::module_text(id)]),
    }
}

/// The table a target is, or is in: a module's is its own qualified name.
pub open spec fn target_table(target: TargetView) -> model::Qualified {
    match target {
        TargetView::Table(table) => table,
        TargetView::Column(table, _) => table,
        TargetView::Module(id) => (model::module_schema(id), model::module_name(id)),
    }
}

/// The column a target is.
pub open spec fn target_column(target: TargetView) -> Option<Seq<char>> {
    match target {
        TargetView::Column(_, name) => Some(name),
        _ => None,
    }
}

impl RenameTarget {
    /// The target, in words.
    pub fn show(&self) -> (r: String)
        ensures
            r@ == target_text(self@),
    {
        match self {
            RenameTarget::Table(table) => {
                let shown = table.show();
                text::fill1(TABLE, shown.as_str())
            },
            RenameTarget::Column(column) => {
                let shown = column.show();
                text::fill1(COLUMN, shown.as_str())
            },
            RenameTarget::Module(id) => {
                let shown = id.show();
                text::fill1(MODULE, shown.as_str())
            },
        }
    }

    /// The table the target is, or is in.
    pub fn table(&self) -> (r: TableName)
        ensures
            r@ == target_table(self@),
    {
        match self {
            RenameTarget::Table(table) => table.again(),
            RenameTarget::Column(column) => column.table.again(),
            RenameTarget::Module(id) => id.object_name(),
        }
    }

    /// The column the target is.
    pub fn column(&self) -> (r: Option<&str>)
        ensures
            match r {
                Some(name) => target_column(self@) == Some(name@),
                None => target_column(self@) is None,
            },
    {
        match self {
            RenameTarget::Column(column) => Some(column.name.as_str()),
            _ => None,
        }
    }
}

/// The target of the change at `at` in a plan, under the name the catalog still
/// has. A rename's old name is the one that the changes before it leave. A
/// column's table is named as the whole plan names it: nothing here rests on
/// the table renames standing in front.
pub open spec fn target_of(changes: Seq<Change>, at: int) -> Option<TargetView> {
    match changes[at] {
        Change::RenameTable { from, to: _ } => Some(
            TargetView::Table(model::origin(changes, at, from@).0),
        ),
        Change::RenameColumn { table, from, to: _ } => Some(
            TargetView::Column(
                model::catalog_name(changes, table@),
                model::column_origin(changes, at, table@, from@),
            ),
        ),
        _ => None,
    }
}

/// The targets of the first `n` changes of a plan.
pub open spec fn targets_of(changes: Seq<Change>, n: int) -> Seq<TargetView>
    decreases n,
{
    if n <= 0 {
        Seq::empty()
    } else {
        let rest = targets_of(changes, n - 1);
        match target_of(changes, n - 1) {
            Some(target) => rest.push(target),
            None => rest,
        }
    }
}

/// What some targets are.
pub open spec fn target_views(v: Seq<RenameTarget>) -> Seq<TargetView> {
    Seq::new(v.len(), |i: int| v[i]@)
}

/// Every rename in a plan, as the objects they are renamed from: the name the
/// catalog still knows them by. A module rename reaches the plan as a drop and
/// a create and is not one of them.
pub fn rename_targets(changes: &ChangeSet) -> (r: Vec<RenameTarget>)
    ensures
        target_views(r@) == targets_of(changes.changes@, changes.changes@.len() as int),
{
    let plan = &changes.changes;
    let mut out: Vec<RenameTarget> = Vec::new();
    let mut i: usize = 0;
    assert(target_views(out@) =~= Seq::empty());
    while i < plan.len()
        invariant
            i <= plan@.len(),
            plan@ == changes.changes@,
            target_views(out@) == targets_of(plan@, i as int),
        decreases plan@.len() - i,
    {
        let target = match &plan[i] {
            Change::RenameTable { from, .. } => Some(
                RenameTarget::Table(model::traced(plan, i, from).0),
            ),
            Change::RenameColumn { table, from, .. } => {
                let stored = model::stored_name(plan, table);
                let column = model::traced_column(plan, i, table, from);
                Some(RenameTarget::Column(stored.column(column.as_str())))
            },
            Change::DropModule { .. }
            | Change::CreateTable { .. }
            | Change::DropTable { .. }
            | Change::AddColumn { .. }
            | Change::DropColumn { .. }
            | Change::AlterColumnType { .. }
            | Change::AlterColumnNullability { .. }
            | Change::AlterColumnDefault { .. }
            | Change::SetColumnDeprecated { .. }
            | Change::SetPrimaryKey { .. }
            | Change::AddUnique { .. }
            | Change::DropUnique { .. }
            | Change::AddForeignKey { .. }
            | Change::DropForeignKey { .. }
            | Change::AddCheck { .. }
            | Change::DropCheck { .. }
            | Change::AddIndex { .. }
            | Change::DropIndex { .. }
            | Change::CreateModule { .. }
            | Change::AlterModule { .. }
            | Change::InsertRow { .. }
            | Change::UpdateRow { .. }
            | Change::DeleteRow { .. }
            | Change::SetDataMode { .. }
            | Change::CreateRole { .. }
            | Change::DropRole { .. }
            | Change::RenameRole { .. }
            | Change::Grant { .. }
            | Change::Revoke { .. }
            | Change::PublicExecution { .. } => None,
        };
        if let Some(target) = target {
            let ghost before = out@;
            out.push(target);
            assert(target_views(out@) =~= target_views(before).push(target@));
        }
        i += 1;
    }
    out
}

// ---------------------------------------------------------------------------
// What to ask

/// Every routine whose body the engine keeps as text, with the body.
pub const TEXT_BODIED_ROUTINES: &'static str = "\
SELECT n.nspname AS schema_name,
       p.proname AS routine_name,
       pg_catalog.pg_get_function_identity_arguments(p.oid) AS args,
       CASE p.prokind WHEN 'p' THEN 'procedure' ELSE 'function' END AS kind,
       l.lanname AS language,
       p.prosrc AS body
  FROM pg_catalog.pg_proc p
  JOIN pg_catalog.pg_namespace n ON n.oid = p.pronamespace
  JOIN pg_catalog.pg_language l ON l.oid = p.prolang
 WHERE p.prosqlbody IS NULL
   AND l.lanname NOT IN ('internal', 'c')
   AND n.nspname NOT IN ('pg_catalog', 'information_schema')
   AND n.nspname NOT LIKE 'pg\\_%'
   AND NOT EXISTS (SELECT 1 FROM pg_catalog.pg_depend d
                    WHERE d.classid = 'pg_catalog.pg_proc'::regclass
                      AND d.objid = p.oid AND d.deptype = 'e')
 ORDER BY n.nspname, p.proname";

/// Everything the catalog holds an edge to, described in the engine's own
/// words: the objects a rename is carried into.
pub const CARRIED: &'static str = "\
SELECT DISTINCT pg_catalog.pg_describe_object(d.classid, d.objid, d.objsubid) AS described
  FROM pg_catalog.pg_depend d
 WHERE d.refclassid = 'pg_catalog.pg_class'::regclass
   AND d.refobjid = ($1::int8)::oid
   AND d.deptype <> 'i'
   AND ($2 = 0 OR d.refobjsubid IN (0, $2))
 ORDER BY 1";

/// The indexes and constraints on a table.
pub const NAMED_OBJECTS: &'static str = "\
SELECT 'index' AS kind, ic.relname AS name
  FROM pg_catalog.pg_index i
  JOIN pg_catalog.pg_class ic ON ic.oid = i.indexrelid
 WHERE i.indrelid = ($1::int8)::oid
UNION ALL
SELECT 'constraint', con.conname
  FROM pg_catalog.pg_constraint con
 WHERE con.conrelid = ($1::int8)::oid
 ORDER BY 1, 2";

/// The relation a report is about, resolved once.
pub const RELATION: &'static str = "SELECT pg_catalog.to_regclass($1)::oid::int8 AS oid";

/// A column's number, which is not its position: a dropped column keeps its
/// slot.
pub const ATTNUM: &'static str = "\
SELECT a.attnum::int4 AS attnum
  FROM pg_catalog.pg_attribute a
 WHERE a.attrelid = ($1::int8)::oid
   AND a.attname = $2 AND NOT a.attisdropped";

/// Why a module is not a rename target.
pub const NOT_A_TARGET: &'static str =
    "module {} is not a rename target on this engine: what depends on a \
                 module about to be dropped is `modules::dependents`'s question";

/// Why a table that is not there cannot be reported on.
pub const NO_TABLE: &'static str =
    "{} is not a table this database has, so what a rename of {} \
                     would affect cannot be read";

/// Why a column that is not there cannot be reported on.
pub const NO_COLUMN: &'static str =
    "{} is not a column this database has, so what a rename of it \
                             would affect cannot be read";

/// The name a report is asked under.
pub open spec fn asked_as(target: TargetView) -> Result<Seq<char>, error::Refusal> {
    match target {
        TargetView::Module(id) => Err(
            error::refused(text::filled(NOT_A_TARGET@, seq![model::module_text(id)])),
        ),
        _ => sql::qualified_text(target_table(target)),
    }
}

/// The quoted, qualified name to resolve for a target. A module is refused
/// rather than answered: it has no columns, and every query would come back
/// empty.
pub fn relation_name(target: &RenameTarget) -> (r: Result<String, DialectError>)
    ensures
        error::told(r) == asked_as(target@),
{
    if let RenameTarget::Module(id) = target {
        let shown = id.show();
        return Err(invalid(text::fill1(NOT_A_TARGET, shown.as_str())));
    }
    sql::qualified(&target.table())
}

/// The relation that was resolved, or the refusal of one that is not there:
/// absent is not empty.
pub fn resolved(target: &RenameTarget, oid: Option<i64>) -> (r: Result<i64, DialectError>)
    ensures
        match oid {
            Some(oid) => r == Ok::<i64, DialectError>(oid),
            None => r matches Err(e) && e@ == error::refused(
                text::filled(
                    NO_TABLE@,
                    seq![model::dotted(target_table(target@)), target_text(target@)],
                ),
            ),
        },
{
    match oid {
        Some(oid) => Ok(oid),
        None => {
            let table = target.table().show();
            let shown = target.show();
            Err(invalid(text::fill2(NO_TABLE, table.as_str(), shown.as_str())))
        },
    }
}

/// The column's number, or zero for a table target, which [`CARRIED`] reads as
/// every column. `row` is the row [`ATTNUM`] returned: `None` where it
/// returned none.
pub fn column_number(target: &RenameTarget, row: Option<Option<i32>>) -> (r: Result<
    i32,
    DialectError,
>)
    ensures
        match (target_column(target@), row) {
            (None, _) => r == Ok::<i32, DialectError>(0),
            (Some(_), Some(Some(n))) => r == Ok::<i32, DialectError>(n),
            (Some(_), Some(None)) => r == Ok::<i32, DialectError>(0),
            (Some(_), None) => r matches Err(e) && e@ == error::refused(
                text::filled(NO_COLUMN@, seq![target_text(target@)]),
            ),
        },
{
    if target.column().is_none() {
        return Ok(0);
    }
    match row {
        Some(Some(n)) => Ok(n),
        Some(None) => Ok(0),
        None => {
            let shown = target.show();
            Err(invalid(text::fill1(NO_COLUMN, shown.as_str())))
        },
    }
}

// ---------------------------------------------------------------------------
// What a body mentions

/// ASCII white space, the vertical tab counted.
pub open spec fn is_blank(c: char) -> bool {
    text::is_space(c) || c == '\u{b}'
}

/// Whether an identifier of `code` from `at` on is the name: a quoted one is
/// exactly the name's own spelling, a bare one folds to it, and where the name
/// is reserved a bare one counts only behind a dot.
pub open spec fn mentioned_from(
    code: Seq<char>,
    name: Seq<char>,
    reserved: bool,
    at: int,
    after_dot: bool,
) -> bool
    decreases code.len() - at,
{
    if at < 0 || at >= code.len() {
        false
    } else if code[at] == '"' {
        match lexer::quoted_end(code, at + 1) {
            Some(e) => if at < e <= code.len() {
                code.subrange(at, e) == sql::quoted_text(name) || mentioned_from(
                    code,
                    name,
                    reserved,
                    e,
                    false,
                )
            } else {
                false
            },
            None => false,
        }
    } else if lexer::goes_on(code[at]) {
        let e = lexer::ident_end(code, at);
        if at < e <= code.len() {
            ||| name == text::lower(name) && (!reserved || after_dot) && text::lower(
                code.subrange(at, e),
            ) == text::lower(name)
            ||| mentioned_from(code, name, reserved, e, false)
        } else {
            false
        }
    } else {
        mentioned_from(
            code,
            name,
            reserved,
            at + 1,
            if is_blank(code[at]) {
                after_dot
            } else {
                code[at] == '.'
            },
        )
    }
}

/// Whether a body mentions an object of this name. A text that cannot be an
/// identifier is mentioned nowhere.
pub open spec fn is_mentioned(code: Seq<char>, name: Seq<char>, reserved: bool) -> bool {
    sql::is_ident(name) && mentioned_from(code, name, reserved, 0, false)
}

/// Whether a stored body contains an identifier naming this object. `code` is
/// the body with its literals and comments blanked out, and `reserved` is
/// whether the name is a reserved word.
pub fn mentions(code: &str, name: &str, reserved: bool) -> (r: bool)
    ensures
        r == is_mentioned(code@, name@, reserved),
{
    let quoted = match sql::quote(name) {
        Ok(quoted) => text::chars_of(quoted.as_str()),
        Err(_) => {
            return false;
        },
    };
    let cs = text::chars_of(code);
    let folded = text::fold(name);
    let bare = text::same(name, folded.as_str());
    let s = cs.as_slice();
    let mut at: usize = 0;
    let mut after_dot = false;
    while at < s.len()
        invariant
            at <= s@.len(),
            s@ == code@,
            quoted@ == sql::quoted_text(name@),
            bare == (name@ == text::lower(name@)),
            sql::is_ident(name@),
            is_mentioned(code@, name@, reserved) == mentioned_from(
                code@,
                name@,
                reserved,
                at as int,
                after_dot,
            ),
        decreases s@.len() - at,
    {
        let c = s[at];
        if c == '"' {
            match lexer::one_ident_len(s, at) {
                Some(e) => {
                    let token = text::part(s, at, e);
                    if token.len() == quoted.len() && text::stands_at(token, quoted.as_slice(), 0) {
                        assert(token@.subrange(0, token@.len() as int) =~= token@);
                        return true;
                    }
                    proof {
                        if token@ == quoted@ {
                            assert(token@.subrange(0, token@.len() as int) =~= token@);
                        }
                    }
                    at = e;
                    after_dot = false;
                },
                None => {
                    return false;
                },
            }
        } else if lexer::continues_ident(c) {
            let e = lexer::end_of_word(s, at);
            if bare && (!reserved || after_dot) && text::spells(text::part(s, at, e), name) {
                return true;
            }
            at = e;
            after_dot = false;
        } else {
            if !(text::space(c) || c == '\u{b}') {
                after_dot = c == '.';
            }
            at += 1;
        }
    }
    false
}

// ---------------------------------------------------------------------------
// The report

/// One object a rename reaches.
#[derive(Debug, Clone, PartialEq, Eq)]
pub struct Referrer {
    pub kind: String,
    pub name: String,
    pub detail: Option<String>,
}

/// One object a rename reaches.
pub struct ReferrerView {
    pub kind: Seq<char>,
    pub name: Seq<char>,
    pub detail: Option<Seq<char>>,
}

impl View for Referrer {
    type V = ReferrerView;

    open spec fn view(&self) -> ReferrerView {
        ReferrerView {
            kind: self.kind@,
            name: self.name@,
            detail: text::text_in(self.detail),
        }
    }
}

/// Some objects a rename reaches.
pub open spec fn referrers(v: Seq<Referrer>) -> Seq<ReferrerView> {
    Seq::new(v.len(), |i: int| v[i]@)
}

/// Everything one rename reaches.
#[derive(Debug, Clone, PartialEq, Eq)]
pub struct ImpactReport {
    pub target: String,
    /// The engine refuses the statement.
    pub blocking: Vec<Referrer>,
    /// This will break, and the engine will not stop the rename.
    pub advisory: Vec<Referrer>,
    /// This follows the rename and keeps working.
    pub carried: Vec<Referrer>,
}

impl ImpactReport {
    /// Whether the rename reaches nothing.
    pub fn is_empty(&self) -> (r: bool)
        ensures
            r == (self.blocking@.len() == 0 && self.advisory@.len() == 0 && self.carried@.len()
                == 0),
    {
        self.blocking.len() == 0 && self.advisory.len() == 0 && self.carried.len() == 0
    }
}

/// One row of [`TEXT_BODIED_ROUTINES`], with the body's literals and comments
/// blanked out.
#[derive(Debug, Clone, PartialEq, Eq)]
pub struct TextRoutine {
    pub schema_name: String,
    pub routine_name: String,
    pub args: String,
    pub kind: String,
    pub language: String,
    pub code: String,
}

/// One row of [`NAMED_OBJECTS`].
#[derive(Debug, Clone, PartialEq, Eq)]
pub struct NamedObject {
    pub kind: String,
    pub name: String,
}

/// A routine, in words.
pub const ROUTINE: &'static str = "{}.{}({})";

/// Why a routine whose body is text breaks.
pub const TEXT_BODY: &'static str =
    "its {} body is text this engine never parsed, so the rename does not reach it \
                 and the failure lands the next time it runs";

/// Why an object's name goes stale.
pub const STALE_NAME: &'static str = "the name embeds the old column name";

/// What a carried object is listed as.
pub const CARRIED_KIND: &'static str = "carried";

/// The name a text body is searched for.
pub open spec fn needle(target: TargetView) -> Seq<char> {
    match target_column(target) {
        Some(name) => name,
        None => target_table(target).1,
    }
}

/// A routine that breaks.
pub open spec fn broken(routine: TextRoutine) -> ReferrerView {
    ReferrerView {
        kind: routine.kind@,
        name: text::filled(
            ROUTINE@,
            seq![routine.schema_name@, routine.routine_name@, routine.args@],
        ),
        detail: Some(text::filled(TEXT_BODY@, seq![routine.language@])),
    }
}

/// The routines that break, among the first `n`.
pub open spec fn broken_routines(
    routines: Seq<TextRoutine>,
    name: Seq<char>,
    reserved: bool,
    n: int,
) -> Seq<ReferrerView>
    decreases n,
{
    if n <= 0 {
        Seq::empty()
    } else {
        let rest = broken_routines(routines, name, reserved, n - 1);
        if is_mentioned(routines[n - 1].code@, name, reserved) {
            rest.push(broken(routines[n - 1]))
        } else {
            rest
        }
    }
}

/// The objects whose name goes stale, among the first `n`.
pub open spec fn stale_names(objects: Seq<NamedObject>, column: Seq<char>, n: int) -> Seq<
    ReferrerView,
>
    decreases n,
{
    if n <= 0 {
        Seq::empty()
    } else {
        let rest = stale_names(objects, column, n - 1);
        if text::holds(objects[n - 1].name@, column) {
            rest.push(
                ReferrerView {
                    kind: objects[n - 1].kind@,
                    name: objects[n - 1].name@,
                    detail: Some(STALE_NAME@),
                },
            )
        } else {
            rest
        }
    }
}

/// What will break: the text bodies first, then, for a column, the names that
/// embed it.
pub open spec fn advisory_of(
    target: TargetView,
    reserved: bool,
    routines: Seq<TextRoutine>,
    objects: Seq<NamedObject>,
) -> Seq<ReferrerView> {
    broken_routines(routines, needle(target), reserved, routines.len() as int) + match target_column(
        target,
    ) {
        Some(column) => stale_names(objects, column, objects.len() as int),
        None => Seq::empty(),
    }
}

/// What the rename is carried into.
pub open spec fn carried_of(described: Seq<Seq<char>>) -> Seq<ReferrerView> {
    Seq::new(
        described.len(),
        |i: int| ReferrerView { kind: CARRIED_KIND@, name: described[i], detail: None },
    )
}

fn breaking(routines: &Vec<TextRoutine>, name: &str, reserved: bool) -> (r: Vec<Referrer>)
    ensures
        referrers(r@) == broken_routines(routines@, name@, reserved, routines@.len() as int),
{
    let mut out: Vec<Referrer> = Vec::new();
    let mut i: usize = 0;
    assert(referrers(out@) =~= Seq::empty());
    while i < routines.len()
        invariant
            i <= routines@.len(),
            referrers(out@) == broken_routines(routines@, name@, reserved, i as int),
        decreases routines@.len() - i,
    {
        let routine = &routines[i];
        if mentions(routine.code.as_str(), name, reserved) {
            let found = Referrer {
                kind: routine.kind.clone(),
                name: text::fill3(
                    ROUTINE,
                    routine.schema_name.as_str(),
                    routine.routine_name.as_str(),
                    routine.args.as_str(),
                ),
                detail: Some(text::fill1(TEXT_BODY, routine.language.as_str())),
            };
            let ghost before = out@;
            out.push(found);
            assert(referrers(out@) =~= referrers(before).push(found@));
        }
        i += 1;
    }
    out
}

fn stale(objects: &Vec<NamedObject>, column: &str) -> (r: Vec<Referrer>)
    ensures
        referrers(r@) == stale_names(objects@, column@, objects@.len() as int),
{
    let mut out: Vec<Referrer> = Vec::new();
    let mut i: usize = 0;
    assert(referrers(out@) =~= Seq::empty());
    while i < objects.len()
        invariant
            i <= objects@.len(),
            referrers(out@) == stale_names(objects@, column@, i as int),
        decreases objects@.len() - i,
    {
        if text::has(objects[i].name.as_str(), column) {
            let found = Referrer {
                kind: objects[i].kind.clone(),
                name: objects[i].name.clone(),
                detail: Some(STALE_NAME.to_owned()),
            };
            let ghost before = out@;
            out.push(found);
            assert(referrers(out@) =~= referrers(before).push(found@));
        }
        i += 1;
    }
    out
}

/// Everything one rename reaches, from the rows the catalog returned:
/// `routines` are the text bodies, `objects` the names on the table,
/// `described` what the rename is carried into, and `reserved` whether the old
/// name is a reserved word. Nothing blocks a rename on this engine.
pub fn rename_impact(
    target: &RenameTarget,
    reserved: bool,
    routines: &Vec<TextRoutine>,
    objects: &Vec<NamedObject>,
    described: &Vec<String>,
) -> (r: ImpactReport)
    ensures
        r.target@ == target_text(target@),
        r.blocking@.len() == 0,
        referrers(r.advisory@) == advisory_of(target@, reserved, routines@, objects@),
        referrers(r.carried@) == carried_of(text::texts(described@)),
{
    let mut advisory = match target.column() {
        Some(column) => breaking(routines, column, reserved),
        None => {
            let table = target.table();
            breaking(routines, table.name.as_str(), reserved)
        },
    };
    let ghost first = advisory@;
    if let Some(column) = target.column() {
        let mut more = stale(objects, column);
        let ghost added = more@;
        advisory.append(&mut more);
        assert(advisory@ =~= first + added);
        assert(referrers(advisory@) =~= referrers(first) + referrers(added));
    } else {
        assert(referrers(advisory@) =~= referrers(first) + Seq::<ReferrerView>::empty());
    }
    let mut carried: Vec<Referrer> = Vec::new();
    let mut i: usize = 0;
    while i < described.len()
        invariant
            i <= described@.len(),
            carried@.len() == i,
            forall|k: int|
                0 <= k < i ==> (#[trigger] carried@[k])@ == (ReferrerView {
                    kind: CARRIED_KIND@,
                    name: described@[k]@,
                    detail: None,
                }),
        decreases described@.len() - i,
    {
        carried.push(
            Referrer {
                kind: CARRIED_KIND.to_owned(),
                name: described[i].clone(),
                detail: None,
            },
        );
        i += 1;
    }
    assert(referrers(carried@) =~= carried_of(text::texts(described@)));
    ImpactReport { target: target.show(), blocking: Vec::new(), advisory, carried }
}

/// What is said under a report that carries something.
pub const CARRIED_NOTE: &'static str =
    "Those are carried into the new name by the engine and keep working. A view also \
             keeps its old output column name as an alias, so the view's own consumers see no \
             change.";

/// What is said under a report with something that will break.
pub const ADVISORY_NOTE: &'static str =
    "A routine body this engine stores as text is matched by name, so one of those may \
             be naming a different object that happens to share the spelling.";

/// What is said under every report.
pub const OUTSIDE_NOTE: &'static str =
    "Nothing outside the database is visible here: applications and downstream consumers \
         need a human's checklist.";

/// The lines a caller prints under a report: what an empty list means, and
/// always what no query can see.
pub fn notes(report: &ImpactReport) -> (r: Vec<String>)
    ensures
        text::texts(r@) == (if report.carried@.len() > 0 {
            seq![CARRIED_NOTE@]
        } else {
            Seq::empty()
        }) + (if report.advisory@.len() > 0 {
            seq![ADVISORY_NOTE@]
        } else {
            Seq::empty()
        }) + seq![OUTSIDE_NOTE@],
{
    let mut out: Vec<String> = Vec::new();
    if report.carried.len() > 0 {
        out.push(CARRIED_NOTE.to_owned());
    }
    if report.advisory.len() > 0 {
        out.push(ADVISORY_NOTE.to_owned());
    }
    out.push(OUTSIDE_NOTE.to_owned());
    assert(text::texts(out@) =~= (if report.carried@.len() > 0 {
        seq![CARRIED_NOTE@]
    } else {
        Seq::empty()
    }) + (if report.advisory@.len() > 0 {
        seq![ADVISORY_NOTE@]
    } else {
        Seq::empty()
    }) + seq![OUTSIDE_NOTE@]);
    out
}

// ---------------------------------------------------------------------------
// Laws

/// Every target of a plan is a rename's, under the name that the object is
/// traced back to: a table's through the changes before its rename, and a
/// column's in the table as the catalog has it.
pub proof fn targets_have_their_old_names(changes: Seq<Change>, n: int, k: int)
    requires
        0 <= n <= changes.len(),
        0 <= k < targets_of(changes, n).len(),
    ensures
        exists|i: int|
            0 <= i < n && match #[trigger] changes[i] {
                Change::RenameTable { from, to: _ } => targets_of(changes, n)[k]
                    == TargetView::Table(model::origin(changes, i, from@).0),
                Change::RenameColumn { table, from, to: _ } => targets_of(changes, n)[k]
                    == TargetView::Column(
                    model::origin(changes, changes.len() as int, table@).0,
                    model::column_origin(changes, i, table@, from@),
                ),
                _ => false,
            },
    decreases n,
{
    let rest = targets_of(changes, n - 1);
    match target_of(changes, n - 1) {
        Some(target) => {
            if k < rest.len() {
                targets_have_their_old_names(changes, n - 1, k);
            } else {
                assert(Some(targets_of(changes, n)[k]) == target_of(changes, n - 1));
                assert(changes[n - 1] is RenameTable || changes[n - 1] is RenameColumn);
            }
        },
        None => {
            targets_have_their_old_names(changes, n - 1, k);
        },
    }
}

/// A change that renames nothing is no target, and a module's drop is one of
/// those.
pub proof fn only_renames_are_targets(changes: Seq<Change>, at: int)
    ensures
        target_of(changes, at) is Some <==> changes[at] is RenameTable
            || changes[at] is RenameColumn,
{
}

/// Whether a table of this name is there once the first `n` changes of a plan
/// have run on a database that has the tables `catalog`.
pub open spec fn has_table(
    catalog: Set<model::Qualified>,
    changes: Seq<Change>,
    n: int,
    table: model::Qualified,
) -> bool
    decreases n,
{
    if n <= 0 {
        catalog.contains(table)
    } else {
        match changes[n - 1] {
            Change::RenameTable { from, to } => if to@ == table {
                has_table(catalog, changes, n - 1, from@)
            } else {
                from@ != table && has_table(catalog, changes, n - 1, table)
            },
            Change::CreateTable { name, table: _ } => name@ == table || has_table(
                catalog,
                changes,
                n - 1,
                table,
            ),
            Change::DropTable { name } => name@ != table && has_table(
                catalog,
                changes,
                n - 1,
                table,
            ),
            _ => has_table(catalog, changes, n - 1, table),
        }
    }
}

/// A table that is there after some changes is one the catalog has, under the name
/// it is traced to, or one they created.
pub proof fn a_table_is_traced_to_the_catalog(
    catalog: Set<model::Qualified>,
    changes: Seq<Change>,
    n: int,
    table: model::Qualified,
)
    requires
        has_table(catalog, changes, n, table),
    ensures
        ({
            let (name, created) = model::origin(changes, n, table);
            created || catalog.contains(name)
        }),
    decreases n,
{
    if n > 0 {
        match changes[n - 1] {
            Change::RenameTable { from, to } => {
                if to@ == table {
                    a_table_is_traced_to_the_catalog(catalog, changes, n - 1, from@);
                } else {
                    a_table_is_traced_to_the_catalog(catalog, changes, n - 1, table);
                }
            },
            Change::CreateTable { name, table: _ } => {
                if name@ != table {
                    a_table_is_traced_to_the_catalog(catalog, changes, n - 1, table);
                }
            },
            _ => {
                a_table_is_traced_to_the_catalog(catalog, changes, n - 1, table);
            },
        }
    }
}

/// A table rename that finds its table asks about a table the catalog has now,
/// unless the plan itself creates it: never about a name that only the plan
/// gives.
pub proof fn a_renamed_table_is_one_the_catalog_has(
    catalog: Set<model::Qualified>,
    changes: Seq<Change>,
    at: int,
)
    requires
        0 <= at < changes.len(),
        changes[at] matches Change::RenameTable { from, .. } && has_table(
            catalog,
            changes,
            at,
            from@,
        ),
    ensures
        target_of(changes, at) matches Some(TargetView::Table(name)) && (catalog.contains(name)
            || model::origin(changes, at, changes[at]->RenameTable_from@).1),
{
    let from = changes[at]->RenameTable_from;
    a_table_is_traced_to_the_catalog(catalog, changes, at, from@);
}

/// Whether a column of this name is there once the first `n` changes of a plan
/// have run on a database that has the columns `catalog`.
pub open spec fn has_column(
    catalog: Set<(model::Qualified, Seq<char>)>,
    changes: Seq<Change>,
    n: int,
    table: model::Qualified,
    column: Seq<char>,
) -> bool
    decreases n,
{
    if n <= 0 {
        catalog.contains((table, column))
    } else {
        match changes[n - 1] {
            Change::RenameColumn { table: on, from, to } => if on@ == table && to@ == column {
                has_column(catalog, changes, n - 1, table, from@)
            } else {
                !(on@ == table && from@ == column) && has_column(
                    catalog,
                    changes,
                    n - 1,
                    table,
                    column,
                )
            },
            Change::RenameTable { from, to } => if to@ == table {
                has_column(catalog, changes, n - 1, from@, column)
            } else {
                from@ != table && has_column(catalog, changes, n - 1, table, column)
            },
            Change::CreateTable { name, table: created } => if name@ == table {
                exists|i: int|
                    0 <= i < created.columns@.len() && (#[trigger] created.columns@[i]).0@
                        == column
            } else {
                has_column(catalog, changes, n - 1, table, column)
            },
            Change::AddColumn { table: on, name, column: _ } => (on@ == table && name@ == column)
                || has_column(catalog, changes, n - 1, table, column),
            Change::DropColumn { column: dropped } => dropped@ != (table, column) && has_column(
                catalog,
                changes,
                n - 1,
                table,
                column,
            ),
            Change::DropTable { name } => name@ != table && has_column(
                catalog,
                changes,
                n - 1,
                table,
                column,
            ),
            _ => has_column(catalog, changes, n - 1, table, column),
        }
    }
}

proof fn a_column_is_traced_to_the_catalog(
    catalog: Set<(model::Qualified, Seq<char>)>,
    changes: Seq<Change>,
    n: int,
    table: model::Qualified,
    column: Seq<char>,
)
    requires
        has_column(catalog, changes, n, table, column),
    ensures
        drop_impact::stored_at(changes, n, table, Some(column)) matches Some((t, c)) ==> c is Some
            && catalog.contains((t, c->0)),
    decreases n,
{
    if n > 0 {
        match changes[n - 1] {
            Change::RenameColumn { table: on, from, to } => {
                if on@ == table && to@ == column {
                    a_column_is_traced_to_the_catalog(catalog, changes, n - 1, table, from@);
                } else {
                    a_column_is_traced_to_the_catalog(catalog, changes, n - 1, table, column);
                }
            },
            Change::RenameTable { from, to } => {
                if to@ == table {
                    a_column_is_traced_to_the_catalog(catalog, changes, n - 1, from@, column);
                } else {
                    a_column_is_traced_to_the_catalog(catalog, changes, n - 1, table, column);
                }
            },
            Change::CreateTable { name, table: _ } => {
                if name@ != table {
                    a_column_is_traced_to_the_catalog(catalog, changes, n - 1, table, column);
                }
            },
            Change::AddColumn { table: on, name, column: _ } => {
                if !(on@ == table && name@ == column) {
                    a_column_is_traced_to_the_catalog(catalog, changes, n - 1, table, column);
                }
            },
            _ => {
                a_column_is_traced_to_the_catalog(catalog, changes, n - 1, table, column);
            },
        }
    }
}

/// A column is traced back the way a drop traces it: the table and the column
/// that a drop at this place of the plan would find are the origins of both.
pub proof fn a_column_is_traced_as_a_drop_traces_it(
    changes: Seq<Change>,
    n: int,
    table: model::Qualified,
    column: Seq<char>,
)
    ensures
        drop_impact::stored_at(changes, n, table, Some(column)) matches Some((t, c)) ==> t
            == model::origin(changes, n, table).0 && c == Some(
            model::column_origin(changes, n, table, column),
        ),
    decreases n,
{
    if n > 0 {
        match changes[n - 1] {
            Change::RenameColumn { table: on, from, to } => {
                if on@ == table && to@ == column {
                    a_column_is_traced_as_a_drop_traces_it(changes, n - 1, table, from@);
                } else {
                    a_column_is_traced_as_a_drop_traces_it(changes, n - 1, table, column);
                }
            },
            Change::RenameTable { from, to } => {
                if to@ == table {
                    a_column_is_traced_as_a_drop_traces_it(changes, n - 1, from@, column);
                } else {
                    a_column_is_traced_as_a_drop_traces_it(changes, n - 1, table, column);
                }
            },
            _ => {
                a_column_is_traced_as_a_drop_traces_it(changes, n - 1, table, column);
            },
        }
    }
}

/// Whether no change from `at` on gives a table this name.
pub open spec fn is_settled(changes: Seq<Change>, at: int, table: model::Qualified) -> bool {
    forall|j: int|
        at <= j < changes.len() ==> match #[trigger] changes[j] {
            Change::RenameTable { from: _, to } => to@ != table,
            Change::CreateTable { name, table: _ } => name@ != table,
            _ => true,
        }
}

proof fn a_settled_name_has_one_origin(
    changes: Seq<Change>,
    at: int,
    n: int,
    table: model::Qualified,
)
    requires
        0 <= at <= n <= changes.len(),
        is_settled(changes, at, table),
    ensures
        model::origin(changes, n, table) == model::origin(changes, at, table),
    decreases n,
{
    if at < n {
        assert(changes[n - 1] == changes[n - 1]);
        a_settled_name_has_one_origin(changes, at, n - 1, table);
    }
}

/// A column rename that finds its column, with the table renames in front of
/// it, asks about a column the catalog has now, unless the plan itself creates
/// it.
pub proof fn a_renamed_column_is_one_the_catalog_has(
    catalog: Set<(model::Qualified, Seq<char>)>,
    changes: Seq<Change>,
    at: int,
)
    requires
        0 <= at < changes.len(),
        changes[at] matches Change::RenameColumn { table, from, .. } && is_settled(
            changes,
            at,
            table@,
        ) && has_column(catalog, changes, at, table@, from@),
    ensures
        target_of(changes, at) matches Some(TargetView::Column(table, column)) && (
        catalog.contains((table, column)) || drop_impact::stored_at(
            changes,
            at,
            changes[at]->RenameColumn_table@,
            Some(changes[at]->RenameColumn_from@),
        ) is None),
{
    let table = changes[at]->RenameColumn_table;
    let from = changes[at]->RenameColumn_from;
    a_settled_name_has_one_origin(changes, at, changes.len() as int, table@);
    a_column_is_traced_to_the_catalog(catalog, changes, at, table@, from@);
    a_column_is_traced_as_a_drop_traces_it(changes, at, table@, from@);
}

} // verus!

//! The roles of a database and what each holds in it.
//!
//! An entry of an access list is a grant only where somebody made it. The
//! engine's default, and the owner's own entry, are the point every object
//! starts from: they are not compared, because the plan after a successful
//! apply would otherwise revoke what that apply produced, and they are reported,
//! one line to a shape. PUBLIC is every principal there is and no role.
//! Everything else is held by a role, or is reported with the reason why the
//! model cannot hold it.
use vstd::prelude::*;

use crate::entries;
use crate::entries::{Entry, Key};
use crate::introspect;
use crate::introspect::{
    GrantedKind, Pulled, RawCatalog, RawDefaultAcl, RawGrant, RawModuleArg, RawOtherGrant,
    RawRole, RawSharedDependency, ReadBack, Schema, TableView, Unexpressible,
};
use crate::model;
use crate::model::{
    GrantTarget, ModuleId, ModuleKind, ObjectName, RoutineArg, TargetView,
};
use crate::order;
use crate::text;

verus! {

/// The permissions that a role holds on one target, in the order of their
/// names.
#[derive(Debug, Clone, Default, PartialEq, Eq)]
pub struct Permissions(pub Vec<String>);

impl View for Permissions {
    type V = Seq<Seq<char>>;

    open spec fn view(&self) -> Seq<Seq<char>> {
        text::texts(self.0@)
    }
}

/// A role that was read.
#[derive(Debug, Clone, Default, PartialEq, Eq)]
pub struct Role {
    pub grants: Vec<(GrantTarget, Permissions)>,
}

/// What a role holds: the permissions under each target, and the targets
/// themselves, in the same order.
#[verifier::ext_equal]
pub struct RoleView {
    pub grants: Seq<Entry<Seq<Seq<char>>>>,
    pub targets: Seq<TargetView>,
}

impl View for Role {
    type V = RoleView;

    open spec fn view(&self) -> RoleView {
        RoleView {
            grants: entries::entries(self.grants@),
            targets: entries::keys(self.grants@),
        }
    }
}

/// A role that holds nothing.
pub open spec fn bare_role() -> RoleView {
    RoleView { grants: Seq::empty(), targets: Seq::empty() }
}

// ---------------------------------------------------------------------------
// Words

/// `1 routine` or `4 routines`.
pub open spec fn counted(n: int, what: Seq<char>) -> Seq<char> {
    if n == 1 {
        text::filled("1 {}"@, seq![what])
    } else {
        text::filled("{} {}s"@, seq![text::decimal(n as nat), what])
    }
}

/// `1 routine` or `4 routines`.
pub fn plural(n: usize, what: &str) -> (r: String)
    ensures
        r@ == counted(n as int, what@),
{
    if n == 1 {
        text::fill1("1 {}", what)
    } else {
        let number = text::show_len(n);
        text::fill2("{} {}s", number.as_str(), what)
    }
}

/// How many names a list shows.
pub const SHOWN: usize = 10;

/// The names, capped, with the rest counted rather than printed.
pub open spec fn list_text(names: Seq<Seq<char>>) -> Seq<char> {
    if names.len() > SHOWN {
        text::joined(names.take(SHOWN as int), ", "@) + text::filled(
            " and {} more"@,
            seq![text::decimal((names.len() - SHOWN) as nat)],
        )
    } else {
        text::joined(names, ", "@)
    }
}

/// The names, capped, with the rest counted rather than printed.
pub fn listed(names: &Vec<String>) -> (r: String)
    ensures
        r@ == list_text(text::texts(names@)),
{
    let ghost all = text::texts(names@);
    if names.len() > SHOWN {
        let mut front: Vec<String> = Vec::new();
        let mut i: usize = 0;
        assert(text::texts(front@) =~= all.take(0));
        while i < SHOWN
            invariant
                i <= SHOWN < names@.len(),
                all == text::texts(names@),
                text::texts(front@) == all.take(i as int),
            decreases SHOWN - i,
        {
            let ghost before = front@;
            let name = names[i].clone();
            front.push(name);
            proof {
                text::texts_push(before, name);
                assert(all.take(i + 1) =~= all.take(i as int).push(all[i as int]));
            }
            i += 1;
        }
        let shown = text::join(&front, ", ");
        let rest = text::show_len(names.len() - SHOWN);
        let more = text::fill1(" and {} more", rest.as_str());
        text::glue(shown.as_str(), more.as_str())
    } else {
        text::join(names, ", ")
    }
}

/// What an `ALTER DEFAULT PRIVILEGES` entry covers, in words.
pub open spec fn default_acl_text(objtype: char) -> Seq<char> {
    if objtype == 'r' {
        "the tables and views"@
    } else if objtype == 'S' {
        "the sequences"@
    } else if objtype == 'f' {
        "the functions and procedures"@
    } else if objtype == 'T' {
        "the types"@
    } else if objtype == 'n' {
        "the schemas"@
    } else {
        "the objects"@
    }
}

/// What an `ALTER DEFAULT PRIVILEGES` entry covers, in words.
pub fn default_acl_objects(objtype: char) -> (r: &'static str)
    ensures
        r@ == default_acl_text(objtype),
{
    match objtype {
        'r' => "the tables and views",
        'S' => "the sequences",
        'f' => "the functions and procedures",
        'T' => "the types",
        'n' => "the schemas",
        _ => "the objects",
    }
}

/// A kind of relation, in words.
pub open spec fn relation_kind_text(relkind: char) -> Seq<char> {
    if relkind == 'm' {
        "a materialized view"@
    } else if relkind == 'p' {
        "a partitioned table"@
    } else if relkind == 'f' {
        "a foreign table"@
    } else if relkind == 'c' {
        "a composite type"@
    } else {
        "a relation of a kind this reader does not know"@
    }
}

/// A kind of relation, in words.
pub fn relation_kind(relkind: char) -> (r: &'static str)
    ensures
        r@ == relation_kind_text(relkind),
{
    match relkind {
        'm' => "a materialized view",
        'p' => "a partitioned table",
        'f' => "a foreign table",
        'c' => "a composite type",
        _ => "a relation of a kind this reader does not know",
    }
}

/// A kind of routine, in words.
pub open spec fn routine_kind_text(prokind: char) -> Seq<char> {
    if prokind == 'a' {
        "an aggregate"@
    } else if prokind == 'w' {
        "a window function"@
    } else {
        "a routine of a kind this reader does not know"@
    }
}

/// A kind of routine, in words.
pub fn routine_kind(prokind: char) -> (r: &'static str)
    ensures
        r@ == routine_kind_text(prokind),
{
    match prokind {
        'a' => "an aggregate",
        'w' => "a window function",
        _ => "a routine of a kind this reader does not know",
    }
}

// ---------------------------------------------------------------------------
// Targets

/// The argument types of a routine, among the first `n` rows, as the catalog
/// spells them.
pub open spec fn spelled(rows: Seq<RawModuleArg>, oid: i64, n: int) -> Seq<Seq<char>>
    decreases n,
{
    if n <= 0 {
        Seq::empty()
    } else if rows[n - 1].routine_oid == oid {
        spelled(rows, oid, n - 1).push(rows[n - 1].ty@)
    } else {
        spelled(rows, oid, n - 1)
    }
}

/// The argument types of the routine a grant is on.
pub open spec fn spelled_args(g: RawGrant, rows: Seq<RawModuleArg>) -> Seq<Seq<char>> {
    match g.routine_oid {
        Some(oid) => spelled(rows, oid, rows.len() as int),
        None => Seq::empty(),
    }
}

/// The argument types of the routine a grant is on, in order: none for a
/// routine that takes none. They are never one string, because a comma can be
/// part of an argument.
pub fn routine_args(g: &RawGrant, rows: &Vec<RawModuleArg>) -> (r: Vec<String>)
    ensures
        text::texts(r@) == spelled_args(*g, rows@),
{
    let mut out: Vec<String> = Vec::new();
    assert(text::texts(out@) =~= Seq::<Seq<char>>::empty());
    if let Some(oid) = g.routine_oid {
        let mut i: usize = 0;
        while i < rows.len()
            invariant
                i <= rows@.len(),
                text::texts(out@) == spelled(rows@, oid, i as int),
            decreases rows@.len() - i,
        {
            if rows[i].routine_oid == oid {
                let ghost before = out@;
                let ty = rows[i].ty.clone();
                out.push(ty);
                proof {
                    text::texts_push(before, ty);
                }
            }
            i += 1;
        }
    }
    out
}

pub const ROUTINE_LABEL: &'static str = "`{}.{}({})`";

pub const OBJECT_LABEL: &'static str = "`{}.{}`";

pub const SCHEMA_LABEL: &'static str = "schema `{}`";

/// A grant's target as a message names it.
pub open spec fn label(g: RawGrant, rows: Seq<RawModuleArg>) -> Seq<char> {
    match g.object {
        Some(object) => if g.routine_oid is Some {
            text::filled(
                ROUTINE_LABEL@,
                seq![g.schema@, object@, text::joined(spelled_args(g, rows), ", "@)],
            )
        } else {
            text::filled(OBJECT_LABEL@, seq![g.schema@, object@])
        },
        None => text::filled(SCHEMA_LABEL@, seq![g.schema@]),
    }
}

/// A grant's target as a message names it, before the model has decided
/// whether it can hold one.
pub fn target_label(g: &RawGrant, rows: &Vec<RawModuleArg>) -> (r: String)
    ensures
        r@ == label(*g, rows@),
{
    match &g.object {
        Some(object) => match g.routine_oid {
            Some(_) => {
                let args = routine_args(g, rows);
                let list = text::join(&args, ", ");
                text::fill3(ROUTINE_LABEL, g.schema.as_str(), object.as_str(), list.as_str())
            },
            None => text::fill2(OBJECT_LABEL, g.schema.as_str(), object.as_str()),
        },
        None => text::fill1(SCHEMA_LABEL, g.schema.as_str()),
    }
}

pub const ON_SEQUENCE: &'static str =
    "{} on sequence `{}` is a grant on a sequence, which this model does not declare \
             — an identity column needs no such grant and a `serial` column does, which is why \
             `serial` is refused at load (ADR-0010 §7)";

pub const ON_OTHER_KIND: &'static str = "{} on `{}` is on {}, which this model does not declare";

pub const UNSPELLABLE_ARGUMENT: &'static str =
    "{} on `{}` is on a routine whose argument `{}` a \
                             declaration cannot spell";

pub const SCHEMA_AND_OBJECT: &'static str =
    "{} on `{}` came back as a grant on a schema that also names an object";

/// The argument types that the first `k` spellings are, or the first spelling
/// that is none.
pub open spec fn args_named(read: ReadBack, spellings: Seq<Seq<char>>, k: int) -> Result<
    Seq<model::ArgView>,
    Seq<char>,
>
    decreases k,
{
    if k <= 0 {
        Ok(Seq::empty())
    } else {
        match args_named(read, spellings, k - 1) {
            Ok(front) => match introspect::arg_read(read, spellings[k - 1]) {
                Ok(arg) => Ok(front.push(arg)),
                Err(_) => Err(spellings[k - 1]),
            },
            Err(spelling) => Err(spelling),
        }
    }
}

proof fn names_stop_at(read: ReadBack, spellings: Seq<Seq<char>>, at: int, k: int)
    requires
        0 <= at <= k <= spellings.len(),
        args_named(read, spellings, at) is Err,
    ensures
        args_named(read, spellings, k) == args_named(read, spellings, at),
    decreases k,
{
    if k > at {
        names_stop_at(read, spellings, at, k - 1);
    }
}

/// The argument types that some spellings are, or the first spelling that is
/// none.
fn name_args(read: &ReadBack, spellings: &Vec<String>) -> (r: Result<Vec<RoutineArg>, String>)
    ensures
        match r {
            Ok(args) => args_named(*read, text::texts(spellings@), spellings@.len() as int) == Ok::<
                Seq<model::ArgView>,
                Seq<char>,
            >(model::all_args(args@)),
            Err(spelling) => args_named(
                *read,
                text::texts(spellings@),
                spellings@.len() as int,
            ) == Err::<Seq<model::ArgView>, Seq<char>>(spelling@),
        },
{
    let ghost all = text::texts(spellings@);
    let mut out: Vec<RoutineArg> = Vec::new();
    let mut i: usize = 0;
    assert(model::all_args(out@) =~= Seq::<model::ArgView>::empty());
    while i < spellings.len()
        invariant
            i <= spellings@.len(),
            all == text::texts(spellings@),
            args_named(*read, all, i as int) == Ok::<Seq<model::ArgView>, Seq<char>>(
                model::all_args(out@),
            ),
        decreases spellings@.len() - i,
    {
        assert(all[i as int] == spellings@[i as int]@);
        match introspect::read_arg(read, spellings[i].as_str()) {
            Ok(arg) => {
                let ghost before = out@;
                out.push(arg);
                assert(model::all_args(out@) =~= model::all_args(before).push(arg@));
            },
            Err(_) => {
                proof {
                    names_stop_at(*read, all, i + 1, all.len() as int);
                }
                return Err(spellings[i].clone());
            },
        }
        i += 1;
    }
    Ok(out)
}

/// The target a grant names, or why the model cannot name it.
pub open spec fn target_read(g: RawGrant, rows: Seq<RawModuleArg>, read: ReadBack) -> Result<
    TargetView,
    Seq<char>,
> {
    match g.object {
        None => Ok(TargetView::Schema(g.schema@)),
        Some(object) => {
            let name = (g.schema@, object@);
            let shown = model::dotted(name);
            match g.kind {
                GrantedKind::Relation(kind) => if kind == 'r' || kind == 'v' {
                    Ok(TargetView::Object(name))
                } else if kind == 'S' {
                    Err(text::filled(ON_SEQUENCE@, seq![g.permission@, shown]))
                } else {
                    Err(
                        text::filled(
                            ON_OTHER_KIND@,
                            seq![g.permission@, shown, relation_kind_text(kind)],
                        ),
                    )
                },
                GrantedKind::Routine(kind) => if kind == 'f' || kind == 'p' {
                    let spellings = spelled_args(g, rows);
                    match args_named(read, spellings, spellings.len() as int) {
                        Ok(args) => Ok(TargetView::Routine { name, args }),
                        Err(spelling) => Err(
                            text::filled(
                                UNSPELLABLE_ARGUMENT@,
                                seq![g.permission@, shown, spelling],
                            ),
                        ),
                    }
                } else {
                    Err(
                        text::filled(
                            ON_OTHER_KIND@,
                            seq![g.permission@, shown, routine_kind_text(kind)],
                        ),
                    )
                },
                GrantedKind::Schema => Err(
                    text::filled(SCHEMA_AND_OBJECT@, seq![g.permission@, shown]),
                ),
            }
        },
    }
}

/// The target a grant names, or why the model cannot name it.
pub fn target_of(g: &RawGrant, rows: &Vec<RawModuleArg>, read: &ReadBack) -> (r: Result<
    GrantTarget,
    String,
>)
    ensures
        match r {
            Ok(target) => target_read(*g, rows@, *read) == Ok::<TargetView, Seq<char>>(target@),
            Err(what) => target_read(*g, rows@, *read) == Err::<TargetView, Seq<char>>(what@),
        },
{
    let object = match &g.object {
        None => {
            return Ok(GrantTarget::Schema(g.schema.clone()));
        },
        Some(object) => object,
    };
    let name = ObjectName::new(g.schema.as_str(), object.as_str());
    let shown = name.show();
    let permission = g.permission.as_str();
    match g.kind {
        GrantedKind::Relation(kind) => {
            if kind == 'r' || kind == 'v' {
                Ok(GrantTarget::Object(name))
            } else if kind == 'S' {
                Err(text::fill2(ON_SEQUENCE, permission, shown.as_str()))
            } else {
                Err(text::fill3(ON_OTHER_KIND, permission, shown.as_str(), relation_kind(kind)))
            }
        },
        GrantedKind::Routine(kind) => {
            if kind == 'f' || kind == 'p' {
                let spellings = routine_args(g, rows);
                assert(text::texts(spellings@).len() == spellings@.len());
                match name_args(read, &spellings) {
                    Ok(args) => Ok(GrantTarget::Routine { name, args }),
                    Err(spelling) => Err(
                        text::fill3(
                            UNSPELLABLE_ARGUMENT,
                            permission,
                            shown.as_str(),
                            spelling.as_str(),
                        ),
                    ),
                }
            } else {
                Err(text::fill3(ON_OTHER_KIND, permission, shown.as_str(), routine_kind(kind)))
            }
        },
        GrantedKind::Schema => Err(text::fill2(SCHEMA_AND_OBJECT, permission, shown.as_str())),
    }
}

/// Whether the pull recorded what a grant is on, in the target's own
/// namespace: a routine does not answer for a relation of its name.
pub open spec fn is_recorded(
    tables: Seq<Entry<TableView>>,
    modules: Seq<Entry<(ModuleKind, Seq<char>)>>,
    target: TargetView,
) -> bool {
    match target {
        TargetView::Object(name) => {
            ||| entries::found(tables, model::table_rank(name)) is Some
            ||| is_view(
                entries::found(modules, model::module_rank(model::ModuleIdView::Named(name))),
            )
        },
        TargetView::Routine { name, args } => entries::found(
            modules,
            model::module_rank(model::ModuleIdView::Routine { name, args }),
        ) is Some,
        // The model holds no list of schemas, and this names one directly.
        TargetView::Schema(_) => true,
    }
}

/// Whether what was found is a view.
pub open spec fn is_view(module: Option<(ModuleKind, Seq<char>)>) -> bool {
    match module {
        Some(module) => module.0 == ModuleKind::View,
        None => false,
    }
}

/// Whether the pull recorded what a grant is on.
pub fn recorded(schema: &Schema, target: &GrantTarget) -> (r: bool)
    ensures
        r == is_recorded(
            entries::entries(schema.tables@),
            entries::entries(schema.modules@),
            target@,
        ),
{
    match target {
        GrantTarget::Object(name) => {
            if let Some(_) = entries::find(&schema.tables, name) {
                return true;
            }
            let id = ModuleId::Named(name.again());
            match entries::find(&schema.modules, &id) {
                Some(module) => module.kind == ModuleKind::View,
                None => false,
            }
        },
        GrantTarget::Routine { name, args } => {
            let copied = model::copy_args(args);
            let id = ModuleId::Routine { name: name.again(), args: copied };
            match entries::find(&schema.modules, &id) {
                Some(_) => true,
                None => false,
            }
        },
        GrantTarget::Schema(_) => true,
    }
}

// ---------------------------------------------------------------------------
// Grants

pub const PUBLIC_HOLDS: &'static str =
    "PUBLIC holds {} on {}, which is every principal in the cluster and not a \
                     role this project can declare (ADR-0010 §5)";

pub const STRANGER_HOLDS: &'static str =
    "`{}` holds {} on {}, and is not a role this project can declare";

pub const ROLE_FINDING: &'static str = "role {}: {}";

pub const AMBIGUOUS_TARGET: &'static str =
    "role {}: {} on {} is on an object whose name contains a parenthesis \
                     or a period, which a declaration cannot spell — written out it reads back \
                     as a different target; the declarations cannot express it";

pub const UNRECORDED_TARGET: &'static str =
    "role {}: {} on {} is on an object this pull did not record, so the \
                     declarations cannot express it";

pub const COLUMN_GRANT: &'static str =
    "role {}: {} on column `{}` of {} is a column-level grant, which \
                     the declarations cannot express";

pub const UNHELD_PERMISSION: &'static str =
    "role {}: {} on {} is not a permission this model holds; the \
                     declarations cannot express it";

pub const GRANT_OPTION: &'static str =
    "role {}: {} on {} is `WITH GRANT OPTION`, which the declarations \
                     cannot express";

/// What an entry of an access list means.
pub enum Meaning {
    /// The point every object starts from: one more object of a shape.
    ZeroPoint { shape: Seq<Seq<char>>, on: Seq<char> },
    /// Something to report, and no role's.
    Warned(Seq<char>),
    /// Every principal can execute this routine.
    Executable(Seq<char>),
    /// A role's, and nothing the model can hold.
    Unexpressible { target: Option<TargetView>, what: Seq<char> },
    /// A role's permission on a target.
    Held { target: TargetView, permission: Seq<char> },
}

/// Whether the row is of a function or a procedure.
pub open spec fn is_routine(kind: GrantedKind) -> bool {
    match kind {
        GrantedKind::Routine(kind) => kind == 'f' || kind == 'p',
        _ => false,
    }
}

/// Whether a role of this name is known.
pub open spec fn is_role(roles: Seq<Entry<RoleView>>, name: Seq<char>) -> bool {
    entries::found(roles, seq![name]) is Some
}

pub const COLUMN_LABEL: &'static str = "column `{}` of {}";

/// What a permission stands on: an object, or a column of one.
pub open spec fn place_label(g: RawGrant, rows: Seq<RawModuleArg>) -> Seq<char> {
    match g.column {
        Some(column) => text::filled(COLUMN_LABEL@, seq![column@, label(g, rows)]),
        None => label(g, rows),
    }
}

/// What a permission stands on.
fn place_text(g: &RawGrant, rows: &Vec<RawModuleArg>) -> (r: String)
    ensures
        r@ == place_label(*g, rows@),
{
    let on = target_label(g, rows);
    match &g.column {
        Some(column) => text::fill2(COLUMN_LABEL, column.as_str(), on.as_str()),
        None => on,
    }
}

/// The kind of object an entry is about, in a word.
pub open spec fn kind_text(kind: GrantedKind) -> Seq<char> {
    match kind {
        GrantedKind::Relation(_) => "relation"@,
        GrantedKind::Routine(_) => "routine"@,
        GrantedKind::Schema => "schema"@,
    }
}

/// The kind of object an entry is about, in a word.
fn kind_word(kind: GrantedKind) -> (r: &'static str)
    ensures
        r@ == kind_text(kind),
{
    match kind {
        GrantedKind::Relation(_) => "relation",
        GrantedKind::Routine(_) => "routine",
        GrantedKind::Schema => "schema",
    }
}

/// The permission of an entry, with what it lets the grantee do with it.
pub open spec fn right_text(permission: Seq<char>, grantable: bool) -> Seq<char> {
    if grantable {
        text::filled(WITH_GRANT_OPTION@, seq![permission])
    } else {
        permission
    }
}

/// The permission of an entry, with what it lets the grantee do with it.
fn right(permission: &String, grantable: bool) -> (r: String)
    ensures
        r@ == right_text(permission@, grantable),
{
    if grantable {
        text::fill1(WITH_GRANT_OPTION, permission.as_str())
    } else {
        permission.clone()
    }
}

/// The shape of an entry: who holds what, on which kind of object.
pub open spec fn shape_of(g: RawGrant, grantee: Seq<char>) -> Seq<Seq<char>> {
    seq![grantee, kind_text(g.kind), right_text(g.permission@, g.grantable)]
}

/// What the grant's target reads back as is the target itself.
pub open spec fn target_reads_back(read: ReadBack, target: TargetView) -> bool {
    match introspect::answer(read.targets@, model::target_text(target)) {
        Some(back) => back@ == target,
        None => false,
    }
}

/// What a role's grant on a nameable target means.
pub open spec fn held_meaning(
    raw: RawCatalog,
    read: ReadBack,
    tables: Seq<Entry<TableView>>,
    modules: Seq<Entry<(ModuleKind, Seq<char>)>>,
    g: RawGrant,
    grantee: Seq<char>,
    target: TargetView,
) -> Meaning {
    let on = label(g, raw.routine_args@);
    let p = g.permission@;
    if !target_reads_back(read, target) {
        Meaning::Unexpressible {
            target: Some(target),
            what: text::filled(AMBIGUOUS_TARGET@, seq![grantee, p, on]),
        }
    } else if !is_recorded(tables, modules, target) {
        Meaning::Unexpressible {
            target: Some(target),
            what: text::filled(UNRECORDED_TARGET@, seq![grantee, p, on]),
        }
    } else {
        match g.column {
            Some(column) => Meaning::Unexpressible {
                target: Some(target),
                what: text::filled(COLUMN_GRANT@, seq![grantee, p, column@, on]),
            },
            None => match introspect::answer(read.permissions@, p) {
                None => Meaning::Unexpressible {
                    target: Some(target),
                    what: text::filled(UNHELD_PERMISSION@, seq![grantee, p, on]),
                },
                Some(permission) => if g.grantable {
                    Meaning::Unexpressible {
                        target: Some(target),
                        what: text::filled(GRANT_OPTION@, seq![grantee, p, on]),
                    }
                } else {
                    Meaning::Held { target, permission: permission@ }
                },
            },
        }
    }
}

/// What an entry of an access list means.
pub open spec fn meaning(
    raw: RawCatalog,
    read: ReadBack,
    tables: Seq<Entry<TableView>>,
    modules: Seq<Entry<(ModuleKind, Seq<char>)>>,
    roles: Seq<Entry<RoleView>>,
    g: RawGrant,
) -> Meaning {
    let on = label(g, raw.routine_args@);
    match g.grantee {
        None => if is_routine(g.kind) && g.permission@ == "EXECUTE"@ {
            Meaning::Executable(on)
        } else {
            Meaning::Warned(text::filled(PUBLIC_HOLDS@, seq![g.permission@, on]))
        },
        Some(grantee) => if g.defaulted || grantee@ == g.owner@ {
            Meaning::ZeroPoint {
                shape: shape_of(g, grantee@),
                on: place_label(g, raw.routine_args@),
            }
        } else if !is_role(roles, grantee@) {
            Meaning::Warned(text::filled(STRANGER_HOLDS@, seq![grantee@, g.permission@, on]))
        } else {
            match target_read(g, raw.routine_args@, read) {
                Err(what) => Meaning::Unexpressible {
                    target: None,
                    what: text::filled(ROLE_FINDING@, seq![grantee@, what]),
                },
                Ok(target) => held_meaning(raw, read, tables, modules, g, grantee@, target),
            }
        },
    }
}

/// What an entry of an access list was found to mean.
enum Found {
    ZeroPoint { shape: Line, on: String },
    Warned(String),
    Executable(String),
    Unexpressible { target: Option<GrantTarget>, what: String },
    Held { target: GrantTarget, permission: String },
}

/// An optional target.
pub open spec fn target_in(target: Option<GrantTarget>) -> Option<TargetView> {
    match target {
        Some(target) => Some(target@),
        None => None,
    }
}

impl Found {
    spec fn means(self) -> Meaning {
        match self {
            Found::ZeroPoint { shape, on } => Meaning::ZeroPoint { shape: shape.rank(), on: on@ },
            Found::Warned(warning) => Meaning::Warned(warning@),
            Found::Executable(on) => Meaning::Executable(on@),
            Found::Unexpressible { target, what } => Meaning::Unexpressible {
                target: target_in(target),
                what: what@,
            },
            Found::Held { target, permission } => Meaning::Held {
                target: target@,
                permission: permission@,
            },
        }
    }
}

/// Whether a role of this name is known.
fn names_a_role(roles: &Vec<(String, Role)>, name: &String) -> (r: bool)
    ensures
        r == is_role(entries::entries(roles@), name@),
{
    match entries::find(roles, name) {
        Some(_) => true,
        None => false,
    }
}

/// What a role's grant on a nameable target means.
fn find_held(
    raw: &RawCatalog,
    read: &ReadBack,
    schema: &Schema,
    g: &RawGrant,
    grantee: &str,
    target: GrantTarget,
) -> (r: Found)
    ensures
        r.means() == held_meaning(
            *raw,
            *read,
            entries::entries(schema.tables@),
            entries::entries(schema.modules@),
            *g,
            grantee@,
            target@,
        ),
{
    let on = target_label(g, &raw.routine_args);
    let p = g.permission.as_str();
    let written = target.show();
    let reads = match introspect::ask(&read.targets, written.as_str()) {
        Some(back) => back.is(&target),
        None => false,
    };
    if !reads {
        let what = text::fill3(AMBIGUOUS_TARGET, grantee, p, on.as_str());
        return Found::Unexpressible { target: Some(target), what };
    }
    if !recorded(schema, &target) {
        let what = text::fill3(UNRECORDED_TARGET, grantee, p, on.as_str());
        return Found::Unexpressible { target: Some(target), what };
    }
    if let Some(column) = &g.column {
        let what = text::fill4(COLUMN_GRANT, grantee, p, column.as_str(), on.as_str());
        return Found::Unexpressible { target: Some(target), what };
    }
    match introspect::ask(&read.permissions, p) {
        None => {
            let what = text::fill3(UNHELD_PERMISSION, grantee, p, on.as_str());
            Found::Unexpressible { target: Some(target), what }
        },
        Some(permission) => {
            if g.grantable {
                let what = text::fill3(GRANT_OPTION, grantee, p, on.as_str());
                Found::Unexpressible { target: Some(target), what }
            } else {
                Found::Held { target, permission: permission.clone() }
            }
        },
    }
}

/// What an entry of an access list means.
fn find_meaning(
    raw: &RawCatalog,
    read: &ReadBack,
    schema: &Schema,
    roles: &Vec<(String, Role)>,
    g: &RawGrant,
) -> (r: Found)
    ensures
        r.means() == meaning(
            *raw,
            *read,
            entries::entries(schema.tables@),
            entries::entries(schema.modules@),
            entries::entries(roles@),
            *g,
        ),
{
    let grantee = match &g.grantee {
        None => {
            let on = target_label(g, &raw.routine_args);
            let routine = match g.kind {
                GrantedKind::Routine(kind) => kind == 'f' || kind == 'p',
                _ => false,
            };
            if routine && text::same(g.permission.as_str(), "EXECUTE") {
                return Found::Executable(on);
            }
            return Found::Warned(text::fill2(PUBLIC_HOLDS, g.permission.as_str(), on.as_str()));
        },
        Some(grantee) => grantee,
    };
    if g.defaulted || text::same(grantee.as_str(), g.owner.as_str()) {
        let shape = Line {
            role: grantee.clone(),
            class: kind_word(g.kind).to_owned(),
            permission: right(&g.permission, g.grantable),
        };
        assert(shape.rank() =~= shape_of(*g, grantee@));
        return Found::ZeroPoint { shape, on: place_text(g, &raw.routine_args) };
    }
    if !names_a_role(roles, grantee) {
        let on = target_label(g, &raw.routine_args);
        return Found::Warned(
            text::fill3(STRANGER_HOLDS, grantee.as_str(), g.permission.as_str(), on.as_str()),
        );
    }
    match target_of(g, &raw.routine_args, read) {
        Err(what) => Found::Unexpressible {
            target: None,
            what: text::fill2(ROLE_FINDING, grantee.as_str(), what.as_str()),
        },
        Ok(target) => find_held(raw, read, schema, g, grantee.as_str(), target),
    }
}

// ---------------------------------------------------------------------------
// Roles

pub const SUPERUSER: &'static str =
    "role `{}` is a superuser, which passes every privilege check without consulting \
                 an ACL: what it is granted here does not decide what it can do";

/// What is known of the roles.
#[verifier::ext_equal]
pub struct Granted {
    pub roles: Seq<Entry<RoleView>>,
    pub warnings: Seq<Seq<char>>,
    pub unexpressible: Seq<(Seq<char>, Option<TargetView>, Seq<char>)>,
    /// The routines that every principal can execute.
    pub executable: Seq<Seq<char>>,
    /// What nobody granted, by its shape.
    pub standing: Seq<Entry<Seq<Seq<char>>>>,
}

/// What is known once the first `n` roles are read.
pub open spec fn with_roles(roles: Seq<RawRole>, start: Granted, n: int) -> Granted
    decreases n,
{
    if n <= 0 {
        start
    } else {
        let front = with_roles(roles, start, n - 1);
        let r = roles[n - 1];
        Granted {
            roles: entries::put(front.roles, seq![r.name@], bare_role()),
            warnings: front.warnings + introspect::only_if(
                r.superuser,
                text::filled(SUPERUSER@, seq![r.name@]),
            ),
            ..front
        }
    }
}

/// The permissions that stand under a target.
pub open spec fn held_on(role: RoleView, target: TargetView) -> Seq<Seq<char>> {
    match entries::found(role.grants, model::target_rank(target)) {
        Some(permissions) => permissions,
        None => Seq::empty(),
    }
}

/// A role with one more permission.
pub open spec fn with_permission(role: RoleView, target: TargetView, permission: Seq<char>) ->
    RoleView {
    let rank = model::target_rank(target);
    RoleView {
        grants: entries::put(
            role.grants,
            rank,
            order::with_text(held_on(role, target), permission),
        ),
        targets: entries::put_key(role.grants, role.targets, rank, target),
    }
}

/// The roles with one more permission of one of them.
pub open spec fn with_held(
    roles: Seq<Entry<RoleView>>,
    grantee: Seq<char>,
    target: TargetView,
    permission: Seq<char>,
) -> Seq<Entry<RoleView>> {
    match entries::found(roles, seq![grantee]) {
        Some(role) => entries::put_behind(
            roles,
            seq![grantee],
            with_permission(role, target, permission),
        ),
        None => roles,
    }
}

/// The grantee of an entry, by name.
pub open spec fn grantee_of(g: RawGrant) -> Seq<char> {
    match g.grantee {
        Some(grantee) => grantee@,
        None => Seq::empty(),
    }
}

/// What is known once an entry of this meaning is read.
pub open spec fn with_meaning(front: Granted, grantee: Seq<char>, m: Meaning) -> Granted {
    match m {
        Meaning::ZeroPoint { shape, on } => Granted {
            standing: with_line(front.standing, shape, on),
            ..front
        },
        Meaning::Warned(warning) => Granted { warnings: front.warnings.push(warning), ..front },
        Meaning::Executable(on) => Granted { executable: front.executable.push(on), ..front },
        Meaning::Unexpressible { target, what } => Granted {
            unexpressible: front.unexpressible.push((grantee, target, what)),
            ..front
        },
        Meaning::Held { target, permission } => Granted {
            roles: with_held(front.roles, grantee, target, permission),
            ..front
        },
    }
}

/// What is known once the first `n` entries are read.
pub open spec fn with_grants(
    raw: RawCatalog,
    read: ReadBack,
    tables: Seq<Entry<TableView>>,
    modules: Seq<Entry<(ModuleKind, Seq<char>)>>,
    start: Granted,
    n: int,
) -> Granted
    decreases n,
{
    if n <= 0 {
        start
    } else {
        let g = raw.grants@[n - 1];
        with_meaning(
            with_grants(raw, read, tables, modules, start, n - 1),
            grantee_of(g),
            meaning(raw, read, tables, modules, start.roles, g),
        )
    }
}

/// What entries mean rests on the names of the roles alone.
pub proof fn meaning_goes_by_names(
    raw: RawCatalog,
    read: ReadBack,
    tables: Seq<Entry<TableView>>,
    modules: Seq<Entry<(ModuleKind, Seq<char>)>>,
    a: Seq<Entry<RoleView>>,
    b: Seq<Entry<RoleView>>,
    g: RawGrant,
)
    requires
        forall|name: Seq<char>| #[trigger] is_role(a, name) == is_role(b, name),
    ensures
        meaning(raw, read, tables, modules, a, g) == meaning(raw, read, tables, modules, b, g),
{
    if let Some(grantee) = g.grantee {
        assert(is_role(a, grantee@) == is_role(b, grantee@));
    }
}

/// Reading entries adds no role and takes none away.
pub proof fn grants_keep_the_names(
    raw: RawCatalog,
    read: ReadBack,
    tables: Seq<Entry<TableView>>,
    modules: Seq<Entry<(ModuleKind, Seq<char>)>>,
    start: Granted,
    n: int,
)
    ensures
        forall|name: Seq<char>| #[trigger]
            is_role(with_grants(raw, read, tables, modules, start, n).roles, name) == is_role(
                start.roles,
                name,
            ),
    decreases n,
{
    if n > 0 {
        grants_keep_the_names(raw, read, tables, modules, start, n - 1);
        let front = with_grants(raw, read, tables, modules, start, n - 1);
        let after = with_grants(raw, read, tables, modules, start, n);
        let g = raw.grants@[n - 1];
        let key = seq![grantee_of(g)];
        let m = meaning(raw, read, tables, modules, start.roles, g);
        if let Meaning::Held { target, permission } = m {
            if let Some(role) = entries::found(front.roles, key) {
                let value = with_permission(role, target, permission);
                entries::put_behind_is_a_map_insert(front.roles, key, value);
            }
        }
        assert forall|name: Seq<char>| #[trigger] is_role(after.roles, name) == is_role(
            start.roles,
            name,
        ) by {
            assert(is_role(front.roles, name) == is_role(start.roles, name));
        }
    }
}

/// The unexpressible permissions of a list.
pub open spec fn unexpressed(v: Seq<Unexpressible>) -> Seq<
    (Seq<char>, Option<TargetView>, Seq<char>),
> {
    Seq::new(v.len(), |i: int| (v[i].role@, target_in(v[i].target), v[i].what@))
}

/// What is known of the roles.
struct Grants {
    roles: Vec<(String, Role)>,
    warnings: Vec<String>,
    unexpressible: Vec<Unexpressible>,
    executable: Vec<String>,
    standing: Vec<(Line, Permissions)>,
}

impl View for Grants {
    type V = Granted;

    closed spec fn view(&self) -> Granted {
        Granted {
            roles: entries::entries(self.roles@),
            warnings: text::texts(self.warnings@),
            unexpressible: unexpressed(self.unexpressible@),
            executable: text::texts(self.executable@),
            standing: entries::entries(self.standing@),
        }
    }
}

/// Reads the roles: each of them, grants or none, because a role that has had
/// its last grant revoked is not a missing one.
fn read_roles(roles: &Vec<RawRole>, grants: &mut Grants)
    ensures
        final(grants)@ == with_roles(roles@, old(grants)@, roles@.len() as int),
{
    let ghost start = grants@;
    let mut i: usize = 0;
    while i < roles.len()
        invariant
            i <= roles@.len(),
            grants@ == with_roles(roles@, start, i as int),
        decreases roles@.len() - i,
    {
        let r = &roles[i];
        let ghost front = grants@;
        let role = Role { grants: Vec::new() };
        assert(role@ =~= bare_role());
        entries::put_in(&mut grants.roles, r.name.clone(), role);
        if r.superuser {
            introspect::say(&mut grants.warnings, text::fill1(SUPERUSER, r.name.as_str()));
        }
        assert(grants@ =~= with_roles(roles@, start, i + 1));
        i += 1;
    }
}

/// Adds a permission to a role.
fn hold(role: &mut Role, target: GrantTarget, permission: String)
    ensures
        final(role)@ == with_permission(old(role)@, target@, permission@),
{
    let ghost before = role@;
    let mut held = match entries::find(&role.grants, &target) {
        Some(permissions) => {
            let copied = text::copy_texts(&permissions.0);
            Permissions(copied)
        },
        None => Permissions(Vec::new()),
    };
    assert(held@ =~= held_on(before, target@));
    order::insert(&mut held.0, permission);
    let ghost was = role.grants@;
    entries::put_in(&mut role.grants, target, held);
    proof {
        entries::a_key_is_put(was, target, held);
    }
    assert(role@ =~= with_permission(before, target@, permission@));
}

/// Adds a permission to the role of this name.
fn hold_for(roles: &mut Vec<(String, Role)>, grantee: &String, target: GrantTarget, permission: String)
    ensures
        entries::entries(final(roles)@) == with_held(
            entries::entries(old(roles)@),
            grantee@,
            target@,
            permission@,
        ),
{
    let ghost before = entries::entries(roles@);
    if let Some(at) = entries::position(roles, grantee) {
        let ghost was = roles@;
        let (name, mut role) = roles.remove(at);
        assert(before[at as int] == (seq![name@], role@));
        let ghost held = role@;
        hold(&mut role, target, permission);
        roles.insert(at, (name, role));
        proof {
            entries::position_has_key(before, seq![grantee@]);
            assert(roles@ =~= was.update(at as int, (name, role)));
            assert(entries::entries(roles@) =~= before.update(
                at as int,
                (seq![grantee@], with_permission(held, target@, permission@)),
            ));
        }
    }
}

/// Takes an entry of an access list for what it means.
fn take(grants: &mut Grants, g: &RawGrant, found: Found)
    ensures
        final(grants)@ == with_meaning(old(grants)@, grantee_of(*g), found.means()),
{
    let ghost before = grants@;
    let ghost warned = grants.warnings@;
    let ghost told = grants.unexpressible@;
    let ghost run = grants.executable@;
    match found {
        Found::ZeroPoint { shape, on } => {
            add_line(&mut grants.standing, shape, on);
        },
        Found::Warned(warning) => {
            grants.warnings.push(warning);
            proof {
                text::texts_push(warned, warning);
            }
        },
        Found::Executable(on) => {
            grants.executable.push(on);
            proof {
                text::texts_push(run, on);
            }
        },
        Found::Unexpressible { target, what } => {
            let role = match &g.grantee {
                Some(grantee) => grantee.clone(),
                None => String::new(),
            };
            assert(role@ =~= grantee_of(*g));
            grants.unexpressible.push(Unexpressible { role, target, what });
            assert(unexpressed(grants.unexpressible@) =~= unexpressed(told).push(
                (grantee_of(*g), target_in(target), what@),
            ));
        },
        Found::Held { target, permission } => {
            let role = match &g.grantee {
                Some(grantee) => grantee.clone(),
                None => String::new(),
            };
            assert(role@ =~= grantee_of(*g));
            hold_for(&mut grants.roles, &role, target, permission);
        },
    }
    assert(grants@ =~= with_meaning(before, grantee_of(*g), found.means()));
}

/// Reads the entries of the access lists.
fn read_grants(raw: &RawCatalog, read: &ReadBack, schema: &Schema, grants: &mut Grants)
    ensures
        final(grants)@ == with_grants(
            *raw,
            *read,
            entries::entries(schema.tables@),
            entries::entries(schema.modules@),
            old(grants)@,
            raw.grants@.len() as int,
        ),
{
    let ghost start = grants@;
    let ghost tables = entries::entries(schema.tables@);
    let ghost modules = entries::entries(schema.modules@);
    let mut i: usize = 0;
    while i < raw.grants.len()
        invariant
            i <= raw.grants@.len(),
            tables == entries::entries(schema.tables@),
            modules == entries::entries(schema.modules@),
            grants@ == with_grants(
                *raw,
                *read,
                entries::entries(schema.tables@),
                entries::entries(schema.modules@),
                start,
                i as int,
            ),
        decreases raw.grants@.len() - i,
    {
        let g = &raw.grants[i];
        let found = find_meaning(raw, read, schema, &grants.roles, g);
        proof {
            grants_keep_the_names(*raw, *read, tables, modules, start, i as int);
            meaning_goes_by_names(*raw, *read, tables, modules, grants@.roles, start.roles, *g);
        }
        take(grants, g, found);
        i += 1;
    }
}

// ---------------------------------------------------------------------------
// PUBLIC and the routines

pub const PUBLIC_EXECUTES: &'static str =
    "PUBLIC can execute {}: {}. That is this engine's default for a routine \
             (`acldefault('f', owner)` is `{=X/owner,owner=X/owner}`), not something anyone \
             granted, so it is reported rather than compared (ADR-0010 §5)";

pub const CLOSED_TO_PUBLIC: &'static str =
    "`EXECUTE` has been revoked from PUBLIC on {}: {}. The declarations cannot express \
             that — a revocation here is the absence of the engine's default rather than a row — \
             and a rebuild restores the default, so an ordinary edit would reopen a routine \
             somebody deliberately closed (ADR-0009 §3, ADR-0010 §5)";

/// The routines, among the first `n` entries, whose access list somebody made
/// and that PUBLIC cannot execute.
pub open spec fn closed(raw: RawCatalog, executable: Seq<Seq<char>>, n: int) -> Seq<Seq<char>>
    decreases n,
{
    if n <= 0 {
        Seq::empty()
    } else {
        let g = raw.grants@[n - 1];
        let on = label(g, raw.routine_args@);
        let front = closed(raw, executable, n - 1);
        if is_routine(g.kind) && !g.defaulted && !executable.contains(on) {
            order::with_text(front, on)
        } else {
            front
        }
    }
}

/// How many routines there are, and their list.
pub open spec fn counted_list(routines: Seq<Seq<char>>) -> Seq<Seq<char>> {
    seq![counted(routines.len() as int, "routine"@), list_text(routines)]
}

/// What is said of routines, where there are any.
pub open spec fn routines_note(template: Seq<char>, routines: Seq<Seq<char>>) -> Seq<Seq<char>> {
    introspect::only_if(
        routines.len() > 0,
        text::filled(
            template,
            counted_list(routines),
        ),
    )
}

/// The routines that somebody closed to PUBLIC.
fn closed_to_public(raw: &RawCatalog, executable: &Vec<String>) -> (r: Vec<String>)
    ensures
        text::texts(r@) == closed(*raw, text::texts(executable@), raw.grants@.len() as int),
{
    let mut out: Vec<String> = Vec::new();
    let mut i: usize = 0;
    assert(text::texts(out@) =~= Seq::<Seq<char>>::empty());
    while i < raw.grants.len()
        invariant
            i <= raw.grants@.len(),
            text::texts(out@) == closed(*raw, text::texts(executable@), i as int),
        decreases raw.grants@.len() - i,
    {
        let g = &raw.grants[i];
        let routine = match g.kind {
            GrantedKind::Routine(kind) => kind == 'f' || kind == 'p',
            _ => false,
        };
        if routine && !g.defaulted {
            let on = target_label(g, &raw.routine_args);
            if !text::listed_in(executable, on.as_str()) {
                order::insert(&mut out, on);
            }
        }
        i += 1;
    }
    out
}

/// Says what is to be said of routines.
fn say_routines(warnings: &mut Vec<String>, template: &str, routines: &Vec<String>)
    ensures
        text::texts(final(warnings)@) == text::texts(old(warnings)@) + routines_note(
            template@,
            text::texts(routines@),
        ),
{
    assert(text::texts(routines@).len() == routines@.len());
    if routines.len() > 0 {
        let count = plural(routines.len(), "routine");
        let list = listed(routines);
        introspect::say(warnings, text::fill2(template, count.as_str(), list.as_str()));
    } else {
        assert(text::texts(warnings@) + Seq::<Seq<char>>::empty() =~= text::texts(warnings@));
    }
}

// ---------------------------------------------------------------------------
// What no declaration can name

pub const WITH_GRANT_OPTION: &'static str = "{} WITH GRANT OPTION";

pub const UNNAMEABLE: &'static str =
    "role {}: {} on {} is not something the declarations can \
                 name — {}";

/// What one line is about: a role, a class of objects and a permission.
struct Line {
    role: String,
    class: String,
    permission: String,
}

impl Key for Line {
    closed spec fn rank(&self) -> Seq<Seq<char>> {
        seq![self.role@, self.class@, self.permission@]
    }

    fn ranks(&self) -> (r: Vec<String>) {
        let r: Vec<String> = vec![self.role.clone(), self.class.clone(), self.permission.clone()];
        assert(text::texts(r@) =~= self.rank());
        r
    }
}

/// Whether two optional texts are the same text.
pub open spec fn is_owner(grantee: Seq<char>, owner: Option<String>) -> bool {
    match owner {
        Some(owner) => owner@ == grantee,
        None => false,
    }
}

/// The names that stand under a line.
pub open spec fn names_under(lines: Seq<Entry<Seq<Seq<char>>>>, key: Seq<Seq<char>>) -> Seq<
    Seq<char>,
> {
    match entries::found(lines, key) {
        Some(names) => names,
        None => Seq::empty(),
    }
}

/// The lines with one more name under one of them.
pub open spec fn with_line(
    lines: Seq<Entry<Seq<Seq<char>>>>,
    key: Seq<Seq<char>>,
    name: Seq<char>,
) -> Seq<Entry<Seq<Seq<char>>>> {
    entries::put(lines, key, names_under(lines, key).push(name))
}

/// Adds a name to a line.
fn add_line(lines: &mut Vec<(Line, Permissions)>, key: Line, name: String)
    ensures
        entries::entries(final(lines)@) == with_line(
            entries::entries(old(lines)@),
            key.rank(),
            name@,
        ),
{
    let ghost front = entries::entries(lines@);
    let mut names = match entries::find(lines, &key) {
        Some(names) => text::copy_texts(&names.0),
        None => Vec::new(),
    };
    assert(text::texts(names@) =~= names_under(front, key.rank()));
    let ghost before = names@;
    names.push(name);
    proof {
        text::texts_push(before, name);
    }
    entries::put_in(lines, key, Permissions(names));
}

/// The lines of the first `n` grants: PUBLIC's and the owner's are the same in
/// every database, and a principal that is no role here is none of its
/// business.
pub open spec fn lines(raw: RawCatalog, roles: Seq<Entry<RoleView>>, n: int) -> Seq<
    Entry<Seq<Seq<char>>>,
>
    decreases n,
{
    if n <= 0 {
        Seq::empty()
    } else {
        let g = raw.other_grants@[n - 1];
        let front = lines(raw, roles, n - 1);
        match g.grantee {
            Some(grantee) => if !is_owner(grantee@, g.owner) && is_role(roles, grantee@) {
                with_line(
                    front,
                    seq![grantee@, g.class@, right_text(g.permission@, g.grantable)],
                    g.name@,
                )
            } else {
                front
            },
            None => front,
        }
    }
}

/// The findings of the first `n` lines. They name no target, because the model
/// cannot name one.
pub open spec fn findings(lines: Seq<Entry<Seq<Seq<char>>>>, n: int) -> Seq<
    (Seq<char>, Option<TargetView>, Seq<char>),
> {
    Seq::new(
        n as nat,
        |i: int|
            (
                lines[i].0[0],
                None,
                text::filled(
                    UNNAMEABLE@,
                    seq![lines[i].0[0], lines[i].0[2], lines[i].0[1], list_text(lines[i].1)],
                ),
            ),
    )
}

/// The lines of the grants that no declaration can name.
fn gather(raw: &RawCatalog, roles: &Vec<(String, Role)>) -> (r: Vec<(Line, Permissions)>)
    ensures
        entries::entries(r@) == lines(
            *raw,
            entries::entries(roles@),
            raw.other_grants@.len() as int,
        ),
{
    let ghost known = entries::entries(roles@);
    let mut out: Vec<(Line, Permissions)> = Vec::new();
    let mut i: usize = 0;
    assert(entries::entries(out@) =~= Seq::<Entry<Seq<Seq<char>>>>::empty());
    while i < raw.other_grants.len()
        invariant
            i <= raw.other_grants@.len(),
            known == entries::entries(roles@),
            entries::entries(out@) == lines(*raw, known, i as int),
        decreases raw.other_grants@.len() - i,
    {
        let g = &raw.other_grants[i];
        if let Some(grantee) = &g.grantee {
            let owned = match &g.owner {
                Some(owner) => text::same(owner.as_str(), grantee.as_str()),
                None => false,
            };
            if !owned && names_a_role(roles, grantee) {
                let permission = right(&g.permission, g.grantable);
                let key = Line { role: grantee.clone(), class: g.class.clone(), permission };
                assert(key.rank() =~= seq![
                    grantee@,
                    g.class@,
                    right_text(g.permission@, g.grantable),
                ]);
                add_line(&mut out, key, g.name.clone());
            }
        }
        i += 1;
    }
    out
}

/// Reports the lines.
fn report_lines(gathered: &Vec<(Line, Permissions)>, grants: &mut Grants)
    ensures
        final(grants)@ == (Granted {
            unexpressible: old(grants)@.unexpressible + findings(
                entries::entries(gathered@),
                gathered@.len() as int,
            ),
            ..old(grants)@
        }),
{
    let ghost start = grants@;
    let ghost all = entries::entries(gathered@);
    let mut i: usize = 0;
    assert(start.unexpressible + findings(all, 0) =~= start.unexpressible);
    while i < gathered.len()
        invariant
            i <= gathered@.len(),
            all == entries::entries(gathered@),
            grants@ == (Granted {
                unexpressible: start.unexpressible + findings(all, i as int),
                ..start
            }),
        decreases gathered@.len() - i,
    {
        let ghost told = grants.unexpressible@;
        let key = &gathered[i].0;
        assert(all[i as int] == (key.rank(), gathered@[i as int].1@));
        let list = listed(&gathered[i].1.0);
        let what = text::fill4(
            UNNAMEABLE,
            key.role.as_str(),
            key.permission.as_str(),
            key.class.as_str(),
            list.as_str(),
        );
        grants.unexpressible.push(Unexpressible { role: key.role.clone(), target: None, what });
        proof {
            assert(unexpressed(grants.unexpressible@) =~= unexpressed(told).push(
                (key.role@, None, what@),
            ));
            assert(findings(all, i + 1) =~= findings(all, i as int).push((key.role@, None, what@)));
            assert(grants@.unexpressible =~= start.unexpressible + findings(all, i + 1));
            assert(grants@ =~= (Granted {
                unexpressible: start.unexpressible + findings(all, i + 1),
                ..start
            }));
        }
        i += 1;
    }
}

// ---------------------------------------------------------------------------
// The zero point

pub const ZERO_POINT: &'static str =
    "`{}` holds {} on {}: {}. That is the point every object starts from — this \
             engine's default, or the owner's own entry — and not something anyone granted, so it \
             is reported rather than compared (ADR-0010 §5)";

/// What is said of a shape: one line, however many objects have it.
pub open spec fn standing_note(line: Entry<Seq<Seq<char>>>) -> Seq<char> {
    text::filled(
        ZERO_POINT@,
        seq![
            line.0[0],
            line.0[2],
            counted(line.1.len() as int, line.0[1]),
            list_text(line.1),
        ],
    )
}

/// What is said of the shapes.
pub open spec fn standing_notes(lines: Seq<Entry<Seq<Seq<char>>>>) -> Seq<Seq<char>> {
    Seq::new(lines.len(), |i: int| standing_note(lines[i]))
}

/// Says what nobody granted, one line to a shape.
fn say_standing(standing: &Vec<(Line, Permissions)>, warnings: &mut Vec<String>)
    ensures
        text::texts(final(warnings)@) == text::texts(old(warnings)@) + standing_notes(
            entries::entries(standing@),
        ),
{
    let ghost start = text::texts(warnings@);
    let ghost lines = entries::entries(standing@);
    let ghost all = standing_notes(lines);
    let mut i: usize = 0;
    assert(start + all.take(0) =~= start);
    while i < standing.len()
        invariant
            i <= standing@.len(),
            lines == entries::entries(standing@),
            all == standing_notes(lines),
            text::texts(warnings@) == start + all.take(i as int),
        decreases standing@.len() - i,
    {
        let ghost before = warnings@;
        let key = &standing[i].0;
        let names = &standing[i].1.0;
        assert(lines[i as int] == (key.rank(), text::texts(names@)));
        assert(text::texts(names@).len() == names@.len());
        let count = plural(names.len(), key.class.as_str());
        let list = listed(names);
        let line = text::fill4(
            ZERO_POINT,
            key.role.as_str(),
            key.permission.as_str(),
            count.as_str(),
            list.as_str(),
        );
        warnings.push(line);
        proof {
            text::texts_push(before, line);
            assert(line@ == all[i as int]);
            assert(start + all.take(i + 1) =~= (start + all.take(i as int)).push(all[i as int]));
        }
        i += 1;
    }
    assert(all.take(i as int) =~= all);
}

// ---------------------------------------------------------------------------
// What the catalog of this database does not show

pub const DEFAULT_PRIVILEGES: &'static str =
    "`ALTER DEFAULT PRIVILEGES FOR ROLE {}` in {} grants {} on {} that role creates from \
             now on; the declarations have no such thing, because on this engine who creates an \
             object decides what it arrives with (ADR-0010 §2)";

/// Where a standing instruction applies.
pub open spec fn where_text(in_schema: Option<String>) -> Seq<char> {
    match in_schema {
        Some(schema) => text::filled(SCHEMA_LABEL@, seq![schema@]),
        None => "every schema"@,
    }
}

/// What is said of a standing instruction.
pub open spec fn default_acl_note(d: RawDefaultAcl) -> Seq<char> {
    text::filled(
        DEFAULT_PRIVILEGES@,
        seq![d.grantor@, where_text(d.in_schema), d.acl@, default_acl_text(d.objtype)],
    )
}

/// What is said of the roles' holders outside this database.
pub open spec fn held_notes(held: Seq<RawSharedDependency>) -> Seq<Seq<char>> {
    Seq::new(held.len(), |i: int| held[i].rendered@)
}

/// What is said of the standing instructions.
pub open spec fn default_acl_notes(acls: Seq<RawDefaultAcl>) -> Seq<Seq<char>> {
    Seq::new(acls.len(), |i: int| default_acl_note(acls[i]))
}

/// Says who holds the roles outside this database.
fn say_held(held: &Vec<RawSharedDependency>, warnings: &mut Vec<String>)
    ensures
        text::texts(final(warnings)@) == text::texts(old(warnings)@) + held_notes(held@),
{
    let ghost start = text::texts(warnings@);
    let ghost all = held_notes(held@);
    let mut i: usize = 0;
    assert(start + all.take(0) =~= start);
    while i < held.len()
        invariant
            i <= held@.len(),
            all == held_notes(held@),
            text::texts(warnings@) == start + all.take(i as int),
        decreases held@.len() - i,
    {
        let ghost before = warnings@;
        let line = held[i].rendered.clone();
        warnings.push(line);
        proof {
            text::texts_push(before, line);
            assert(start + all.take(i + 1) =~= (start + all.take(i as int)).push(all[i as int]));
        }
        i += 1;
    }
    assert(all.take(i as int) =~= all);
}

/// Says what the standing instructions are.
fn say_default_acls(acls: &Vec<RawDefaultAcl>, warnings: &mut Vec<String>)
    ensures
        text::texts(final(warnings)@) == text::texts(old(warnings)@) + default_acl_notes(acls@),
{
    let ghost start = text::texts(warnings@);
    let ghost all = default_acl_notes(acls@);
    let mut i: usize = 0;
    assert(start + all.take(0) =~= start);
    while i < acls.len()
        invariant
            i <= acls@.len(),
            all == default_acl_notes(acls@),
            text::texts(warnings@) == start + all.take(i as int),
        decreases acls@.len() - i,
    {
        let ghost before = warnings@;
        let d = &acls[i];
        let place = match &d.in_schema {
            Some(schema) => text::fill1(SCHEMA_LABEL, schema.as_str()),
            None => "every schema".to_owned(),
        };
        let line = text::fill4(
            DEFAULT_PRIVILEGES,
            d.grantor.as_str(),
            place.as_str(),
            d.acl.as_str(),
            default_acl_objects(d.objtype),
        );
        warnings.push(line);
        proof {
            text::texts_push(before, line);
            assert(start + all.take(i + 1) =~= (start + all.take(i as int)).push(all[i as int]));
        }
        i += 1;
    }
    assert(all.take(i as int) =~= all);
}

/// Nothing known but some roles and what they hold that cannot be expressed.
pub open spec fn granted_so_far(
    roles: Seq<Entry<RoleView>>,
    unexpressible: Seq<(Seq<char>, Option<TargetView>, Seq<char>)>,
) -> Granted {
    Granted {
        roles,
        warnings: Seq::empty(),
        unexpressible,
        executable: Seq::empty(),
        standing: Seq::empty(),
    }
}

/// Nothing known yet.
pub open spec fn nothing_granted() -> Granted {
    granted_so_far(Seq::empty(), Seq::empty())
}

/// The roles, what each holds, and everything to be said of that, added to
/// what is known.
pub open spec fn roles_read(
    raw: RawCatalog,
    read: ReadBack,
    tables: Seq<Entry<TableView>>,
    modules: Seq<Entry<(ModuleKind, Seq<char>)>>,
    start: Granted,
) -> Granted {
    let known = with_grants(
        raw,
        read,
        tables,
        modules,
        with_roles(raw.roles@, start, raw.roles@.len() as int),
        raw.grants@.len() as int,
    );
    let unnamed = lines(raw, known.roles, raw.other_grants@.len() as int);
    Granted {
        warnings: known.warnings + routines_note(PUBLIC_EXECUTES@, known.executable)
            + routines_note(
            CLOSED_TO_PUBLIC@,
            closed(raw, known.executable, raw.grants@.len() as int),
        ) + standing_notes(known.standing) + held_notes(raw.held_elsewhere@) + default_acl_notes(
            raw.default_acls@,
        ),
        unexpressible: known.unexpressible + findings(unnamed, unnamed.len() as int),
        ..known
    }
}

/// Reads the roles and what each holds in this database.
fn roles_of(raw: &RawCatalog, read: &ReadBack, schema: &Schema, grants: &mut Grants)
    ensures
        final(grants)@ == roles_read(
            *raw,
            *read,
            entries::entries(schema.tables@),
            entries::entries(schema.modules@),
            old(grants)@,
        ),
{
    read_roles(&raw.roles, grants);
    read_grants(raw, read, schema, grants);
    let ghost known = grants@;
    say_routines(&mut grants.warnings, PUBLIC_EXECUTES, &grants.executable);
    let shut = closed_to_public(raw, &grants.executable);
    say_routines(&mut grants.warnings, CLOSED_TO_PUBLIC, &shut);
    say_standing(&grants.standing, &mut grants.warnings);
    let gathered = gather(raw, &grants.roles);
    report_lines(&gathered, grants);
    say_held(&raw.held_elsewhere, &mut grants.warnings);
    say_default_acls(&raw.default_acls, &mut grants.warnings);
    assert(entries::entries(gathered@).len() == gathered@.len());
}

/// The roles and what each holds in this database, added to a pull.
pub(crate) fn add_roles(raw: &RawCatalog, read: &ReadBack, pulled: &mut Pulled)
    ensures
        ({
            let granted = roles_read(
                *raw,
                *read,
                entries::entries(old(pulled).schema.tables@),
                entries::entries(old(pulled).schema.modules@),
                granted_so_far(
                    entries::entries(old(pulled).schema.roles@),
                    unexpressed(old(pulled).unexpressible@),
                ),
            );
            &&& entries::entries(final(pulled).schema.roles@) == granted.roles
            &&& text::texts(final(pulled).warnings@) == text::texts(old(pulled).warnings@)
                + granted.warnings
            &&& unexpressed(final(pulled).unexpressible@) == granted.unexpressible
            &&& final(pulled).limitations == old(pulled).limitations
            &&& final(pulled).schema.tables == old(pulled).schema.tables
            &&& final(pulled).schema.modules == old(pulled).schema.modules
        }),
{
    let mut grants = Grants {
        roles: Vec::new(),
        warnings: Vec::new(),
        unexpressible: Vec::new(),
        executable: Vec::new(),
        standing: Vec::new(),
    };
    core::mem::swap(&mut grants.roles, &mut pulled.schema.roles);
    core::mem::swap(&mut grants.unexpressible, &mut pulled.unexpressible);
    assert(grants@ =~= granted_so_far(
        entries::entries(old(pulled).schema.roles@),
        unexpressed(old(pulled).unexpressible@),
    ));
    roles_of(raw, read, &pulled.schema, &mut grants);
    let Grants { roles, warnings, unexpressible, executable: _, standing: _ } = grants;
    pulled.schema.roles = roles;
    pulled.unexpressible = unexpressible;
    let ghost start = text::texts(pulled.warnings@);
    let ghost all = text::texts(warnings@);
    let mut i: usize = 0;
    assert(start + all.take(0) =~= start);
    while i < warnings.len()
        invariant
            i <= warnings@.len(),
            all == text::texts(warnings@),
            text::texts(pulled.warnings@) == start + all.take(i as int),
            pulled.schema.roles == roles,
            pulled.unexpressible == unexpressible,
            pulled.limitations == old(pulled).limitations,
            pulled.schema.tables == old(pulled).schema.tables,
            pulled.schema.modules == old(pulled).schema.modules,
        decreases warnings@.len() - i,
    {
        let ghost before = pulled.warnings@;
        let line = warnings[i].clone();
        pulled.warnings.push(line);
        proof {
            text::texts_push(before, line);
            assert(start + all.take(i + 1) =~= (start + all.take(i as int)).push(all[i as int]));
        }
        i += 1;
    }
    assert(all.take(i as int) =~= all);
}

} // verus!

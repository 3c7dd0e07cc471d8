//! What a declaration is accepted for, stated of the declaration itself.
use vstd::prelude::*;

use crate::definition;
use crate::error;
use crate::lexer;
use crate::model;
use crate::model::{Cast, Column, ColumnType, DeclaredDefault, Module, ModuleKind, Reading, Table};
use crate::readings::count;
use crate::statements;
use crate::text;
use crate::validate;

verus! {

/// Whether a schema is one that a table can be declared in: none that a search
/// path replaces, and none that is never read.
pub open spec fn is_project_schema(schema: Seq<char>) -> bool {
    schema != "$user"@ && schema != "information_schema"@ && !text::begins(schema, "pg_"@)
}

/// Whether a table's name is one of the two that this tool keeps for itself.
pub open spec fn is_taken(name: Seq<char>) -> bool {
    name == "__pbps_state"@ || name == "__pbps_lock"@
}

/// Every problem with where a table is declared is a refusal of its own.
pub proof fn every_problem_of_a_place_is_refused(name: model::Qualified)
    ensures
        validate::place_refusals(name).len() == count(!statements::is_name(name.0)) + count(
            !statements::is_name(name.1),
        ) + count(name.0 == "$user"@) + count(
            name.0 == "information_schema"@ || text::begins(name.0, "pg_"@),
        ) + count(is_taken(name.1)),
{
    reveal_strlit("$user");
    reveal_strlit("information_schema");
    reveal_strlit("pg_");
    reveal_strlit("__pbps_state");
    reveal_strlit("__pbps_lock");
    statements::a_name_is_quoted(name.0);
    statements::a_name_is_quoted(name.1);
}

/// A schema whose name begins with `pg_` is never read, and one that only holds
/// those letters elsewhere is.
pub proof fn a_system_schema_begins_with_its_prefix(rest: Seq<char>)
    ensures
        text::begins("pg_"@ + rest, "pg_"@),
        !text::begins("app"@ + rest, "pg_"@),
{
    reveal_strlit("pg_");
    reveal_strlit("app");
    let s = "pg_"@ + rest;
    let t = "app"@ + rest;
    assert(s.subrange(0, 3) =~= "pg_"@);
    assert(t[0] == 'a' && "pg_"@[0] == 'p');
    assert(t.subrange(0, 3)[0] == 'a');
}

/// Whether a default is a NULL of the column's own type, which the engine does
/// not keep: bare, or cast to the type of a column without a modifier.
pub open spec fn is_no_default(default: DeclaredDefault, written: ColumnType, normal: ColumnType) -> bool {
    text::lower(default.core@) == "null"@ && match default.cast {
        Cast::Absent => true,
        Cast::Unread => false,
        Cast::To(ty) => written.args@.len() == 0 && ty@ == normal@,
    }
}

proof fn null_is_folded()
    ensures
        text::lower("null"@) == "null"@,
{
    reveal_strlit("null");
    assert(text::lower("null"@) =~= "null"@);
}

/// Every problem with a default is a refusal of its own: that the session would
/// decide its value, and that the engine would not keep it.
pub proof fn every_problem_of_a_default_is_refused(
    name: Seq<char>,
    column: Column,
    normal: ColumnType,
)
    ensures
        validate::default_refusals(name, column, normal).len() == match column.default {
            None => 0,
            Some(default) => count(
                statements::is_session_decided(normal.base@, default.text@),
            ) + count(is_no_default(default, column.ty.written, normal)),
        },
{
    null_is_folded();
}

/// Every problem with an identity is a refusal of its own: a type or a seed
/// that no sequence takes, a column that may be null, a step of nothing, and a
/// default beside it.
pub proof fn every_problem_of_an_identity_is_refused(name: Seq<char>, column: Column)
    ensures
        validate::identity_refusals(name, column).len() == match column.identity {
            None => 0,
            Some(id) => count(
                match id.accepted {
                    None => true,
                    Some((low, high)) => id.seed < low || high < id.seed,
                },
            ) + count(column.nullable) + count(id.increment == 0) + count(
                column.default is Some,
            ),
        },
{
}

/// Every problem with a column is a refusal of its own. A type that was refused
/// is the one problem that is asked nothing further.
pub proof fn every_problem_of_a_column_is_refused(name: Seq<char>, column: Column)
    ensures
        validate::column_refusals(name, column).len() == count(!statements::is_name(name)) + (
        if column.serial is Some || column.ty.normal is Refused {
            1
        } else {
            validate::default_refusals(name, column, column.ty.normal->As_0).len()
                + validate::identity_refusals(name, column).len()
        }),
{
    statements::a_name_is_quoted(name);
}

/// Whether a column is accepted.
pub open spec fn is_good_column(name: Seq<char>, column: Column) -> bool {
    &&& statements::is_name(name)
    &&& column.serial is None
    &&& column.ty.normal matches Reading::As(normal) && {
        &&& column.default matches Some(default) ==> !statements::is_session_decided(
            normal.base@,
            default.text@,
        ) && !is_no_default(default, column.ty.written, normal) && column.identity is None
        &&& column.identity matches Some(id) ==> !column.nullable && id.increment != 0 && (
        match id.accepted {
            Some((low, high)) => low <= id.seed && id.seed <= high,
            None => false,
        })
    }
}

proof fn a_good_column_has_no_refusals(name: Seq<char>, column: Column)
    ensures
        validate::column_refusals(name, column).len() == 0 <==> is_good_column(name, column),
{
    every_problem_of_a_column_is_refused(name, column);
    if column.ty.normal is As {
        every_problem_of_a_default_is_refused(name, column, column.ty.normal->As_0);
    }
    every_problem_of_an_identity_is_refused(name, column);
}

proof fn good_columns_have_no_refusals(columns: Seq<(String, Column)>, n: int)
    requires
        0 <= n <= columns.len(),
    ensures
        validate::columns_refusals(columns, n).len() == 0 <==> forall|i: int|
            0 <= i < n ==> is_good_column((#[trigger] columns[i]).0@, columns[i].1),
    decreases n,
{
    if n > 0 {
        good_columns_have_no_refusals(columns, n - 1);
        a_good_column_has_no_refusals(columns[n - 1].0@, columns[n - 1].1);
        if validate::columns_refusals(columns, n).len() == 0 {
            assert forall|i: int| 0 <= i < n implies is_good_column(
                (#[trigger] columns[i]).0@,
                columns[i].1,
            ) by {
                if i < n - 1 {
                    assert(validate::columns_refusals(columns, n - 1).len() == 0);
                }
            }
        } else if forall|i: int|
            0 <= i < n ==> is_good_column((#[trigger] columns[i]).0@, columns[i].1) {
            assert(is_good_column(columns[n - 1].0@, columns[n - 1].1));
        }
    }
}

proof fn good_names_have_no_refusals(names: Seq<Seq<char>>, n: int)
    requires
        0 <= n <= names.len(),
    ensures
        validate::names_refusals(names, n).len() == 0 <==> forall|i: int|
            0 <= i < n ==> statements::is_name(#[trigger] names[i]),
    decreases n,
{
    if n > 0 {
        good_names_have_no_refusals(names, n - 1);
        statements::a_name_is_quoted(names[n - 1]);
        if forall|i: int| 0 <= i < n ==> statements::is_name(#[trigger] names[i]) {
            assert(statements::is_name(names[n - 1]));
        }
    }
}

/// Whether the first column of this name may be null.
pub open spec fn is_declared_nullable(columns: Seq<(String, Column)>, name: Seq<char>) -> bool {
    exists|k: int|
        0 <= k < columns.len() && (#[trigger] columns[k]).0@ == name && columns[k].1.nullable
            && forall|j: int| 0 <= j < k ==> (#[trigger] columns[j]).0@ != name
}

/// The column of a name is the first that has it.
pub proof fn first_column(columns: Seq<(String, Column)>, name: Seq<char>, at: int)
    requires
        0 <= at <= columns.len(),
        forall|j: int| 0 <= j < at ==> (#[trigger] columns[j]).0@ != name,
    ensures
        match validate::column_at(columns, name, at) {
            Some(k) => at <= k < columns.len() && columns[k].0@ == name && forall|j: int|
                0 <= j < k ==> (#[trigger] columns[j]).0@ != name,
            None => forall|j: int| 0 <= j < columns.len() ==> (#[trigger] columns[j]).0@ != name,
        },
    decreases columns.len() - at,
{
    if at < columns.len() && columns[at].0@ != name {
        first_column(columns, name, at + 1);
    }
}

proof fn nullable_is_declared(columns: Seq<(String, Column)>, name: Seq<char>)
    ensures
        validate::is_nullable(columns, name) == is_declared_nullable(columns, name),
{
    first_column(columns, name, 0);
    match validate::column_at(columns, name, 0) {
        Some(k) => {
            assert(columns[k].0@ == name);
            if is_declared_nullable(columns, name) {
                let x = choose|x: int|
                    0 <= x < columns.len() && (#[trigger] columns[x]).0@ == name
                        && columns[x].1.nullable && forall|j: int|
                        0 <= j < x ==> (#[trigger] columns[j]).0@ != name;
                if x < k {
                    assert(columns[x].0@ != name);
                }
                if k < x {
                    assert(columns[k].0@ != name);
                }
            }
        },
        None => {},
    }
}

proof fn solid_keys_have_no_refusals(columns: Seq<(String, Column)>, key: Seq<Seq<char>>, n: int)
    requires
        0 <= n <= key.len(),
    ensures
        validate::key_refusals(columns, key, n).len() == 0 <==> forall|i: int|
            0 <= i < n ==> !is_declared_nullable(columns, #[trigger] key[i]),
    decreases n,
{
    if n > 0 {
        solid_keys_have_no_refusals(columns, key, n - 1);
        nullable_is_declared(columns, key[n - 1]);
        if forall|i: int| 0 <= i < n ==> !is_declared_nullable(columns, #[trigger] key[i]) {
            assert(!is_declared_nullable(columns, key[n - 1]));
        }
    }
}

/// Whether every name that a table gives to something of its own is a name.
pub open spec fn names_its_own_well(table: Table) -> bool {
    &&& table.primary_key matches Some(pk) ==> (pk.name matches Some(name)
        ==> statements::is_name(name@))
    &&& forall|i: int|
        0 <= i < table.unique@.len() ==> statements::is_name((#[trigger] table.unique@[i]).0@)
    &&& forall|i: int|
        0 <= i < table.foreign_keys@.len() ==> statements::is_name(
            (#[trigger] table.foreign_keys@[i]).0@,
        )
    &&& forall|i: int|
        0 <= i < table.checks@.len() ==> statements::is_name((#[trigger] table.checks@[i]).0@)
    &&& forall|i: int|
        0 <= i < table.indexes@.len() ==> statements::is_name((#[trigger] table.indexes@[i]).0@)
}

proof fn owned_names_are_all_of_them(table: Table)
    ensures
        (forall|i: int|
            0 <= i < validate::owned_names(table).len() ==> statements::is_name(
                #[trigger] validate::owned_names(table)[i],
            )) <==> names_its_own_well(table),
{
    let all = validate::owned_names(table);
    let p = match table.primary_key {
        Some(pk) => match pk.name {
            Some(name) => seq![name@],
            None => Seq::empty(),
        },
        None => Seq::empty(),
    };
    let u = validate::keys(table.unique@);
    let f = validate::keys(table.foreign_keys@);
    let c = validate::keys(table.checks@);
    let x = validate::keys(table.indexes@);
    assert(all =~= p + u + f + c + x);
    let a = p.len() as int;
    let b = a + u.len();
    let d = b + f.len();
    let e = d + c.len();
    if forall|i: int| 0 <= i < all.len() ==> statements::is_name(#[trigger] all[i]) {
        if p.len() > 0 {
            assert(all[0] == p[0]);
        }
        assert forall|i: int| 0 <= i < table.unique@.len() implies statements::is_name(
            (#[trigger] table.unique@[i]).0@,
        ) by {
            assert(all[a + i] == u[i]);
        }
        assert forall|i: int| 0 <= i < table.foreign_keys@.len() implies statements::is_name(
            (#[trigger] table.foreign_keys@[i]).0@,
        ) by {
            assert(all[b + i] == f[i]);
        }
        assert forall|i: int| 0 <= i < table.checks@.len() implies statements::is_name(
            (#[trigger] table.checks@[i]).0@,
        ) by {
            assert(all[d + i] == c[i]);
        }
        assert forall|i: int| 0 <= i < table.indexes@.len() implies statements::is_name(
            (#[trigger] table.indexes@[i]).0@,
        ) by {
            assert(all[e + i] == x[i]);
        }
    }
    if names_its_own_well(table) {
        assert forall|i: int| 0 <= i < all.len() implies statements::is_name(#[trigger] all[i]) by {
            if i < a {
            } else if i < b {
                assert(all[i] == table.unique@[i - a].0@);
            } else if i < d {
                assert(all[i] == table.foreign_keys@[i - b].0@);
            } else if i < e {
                assert(all[i] == table.checks@[i - d].0@);
            } else {
                assert(all[i] == table.indexes@[i - e].0@);
            }
        }
    }
}

/// A table is accepted exactly where it is declared in a schema of the project
/// under a name of its own, everything it names can be written, no column of
/// its primary key may be null, every column is good and its rows are.
pub proof fn a_table_is_accepted_exactly_where_it_is_good(
    name: model::Qualified,
    table: Table,
    data: Seq<error::Refusal>,
)
    ensures
        validate::table_refusals(name, table, data).len() == 0 <==> {
            &&& statements::is_table_name(name)
            &&& is_project_schema(name.0)
            &&& !is_taken(name.1)
            &&& names_its_own_well(table)
            &&& table.primary_key matches Some(pk) ==> forall|i: int|
                0 <= i < pk.columns@.len() ==> !is_declared_nullable(
                    table.columns@,
                    (#[trigger] pk.columns@[i])@,
                )
            &&& forall|i: int|
                0 <= i < table.columns@.len() ==> is_good_column(
                    (#[trigger] table.columns@[i]).0@,
                    table.columns@[i].1,
                )
            &&& data.len() == 0
        },
{
    every_problem_of_a_place_is_refused(name);
    good_names_have_no_refusals(
        validate::owned_names(table),
        validate::owned_names(table).len() as int,
    );
    owned_names_are_all_of_them(table);
    good_columns_have_no_refusals(table.columns@, table.columns@.len() as int);
    if let Some(pk) = table.primary_key {
        let key = text::texts(pk.columns@);
        solid_keys_have_no_refusals(table.columns@, key, pk.columns@.len() as int);
        if forall|i: int|
            0 <= i < pk.columns@.len() ==> !is_declared_nullable(
                table.columns@,
                (#[trigger] pk.columns@[i])@,
            ) {
            assert forall|i: int| 0 <= i < key.len() implies !is_declared_nullable(
                table.columns@,
                #[trigger] key[i],
            ) by {
                assert(key[i] == pk.columns@[i]@);
            }
        }
        if forall|i: int|
            0 <= i < key.len() ==> !is_declared_nullable(table.columns@, #[trigger] key[i]) {
            assert forall|i: int| 0 <= i < pk.columns@.len() implies !is_declared_nullable(
                table.columns@,
                (#[trigger] pk.columns@[i])@,
            ) by {
                assert(key[i] == pk.columns@[i]@);
            }
        }
    }
}

// ---------------------------------------------------------------------------
// Modules

/// A view is accepted exactly where its definition is not blank and its names
/// can be written.
pub proof fn a_view_is_accepted_exactly_where_it_is_good(
    id: model::ModuleId,
    module: Module,
    readings: definition::Readings,
)
    requires
        module.kind == ModuleKind::View,
    ensures
        definition::module_problems(id, module, readings).len() == count(
            lexer::trimmed(module.definition@).len() == 0,
        ) + count(!statements::is_name(model::module_schema(id@))) + count(
            !statements::is_name(model::module_name(id@)),
        ),
{
    statements::a_name_is_quoted(model::module_schema(id@));
    statements::a_name_is_quoted(model::module_name(id@));
}

/// A routine that has no argument list, and a trigger that says no table, is
/// never accepted.
pub proof fn a_module_is_declared_under_its_kind_of_identity(
    id: model::ModuleId,
    module: Module,
    readings: definition::Readings,
)
    ensures
        (module.kind == ModuleKind::Function || module.kind == ModuleKind::Procedure) && !(id
            is Routine) ==> definition::module_problems(id, module, readings).len() > 0,
        module.kind == ModuleKind::Trigger && !(id is Trigger) ==> definition::module_problems(
            id,
            module,
            readings,
        ).len() > 0,
{
}

/// A trigger that is accepted names, behind its `ON`, the table of its
/// identity.
pub proof fn an_accepted_trigger_is_on_its_own_table(
    id: model::ModuleId,
    module: Module,
    readings: definition::Readings,
)
    requires
        module.kind == ModuleKind::Trigger,
        definition::module_problems(id, module, readings).len() == 0,
    ensures
        id matches model::ModuleId::Trigger { on, name } && statements::is_table_name(on@)
            && statements::is_name(name@) && match definition::table_in_body(module.definition@) {
            Some(named) => definition::names_table(named, on@, readings.decodings@),
            None => false,
        },
{
    statements::a_name_is_quoted(model::module_schema(id@));
    statements::a_name_is_quoted(model::module_name(id@));
    if let model::ModuleId::Trigger { on, name } = id {
        statements::a_name_is_quoted(on@.0);
        statements::a_name_is_quoted(on@.1);
    }
}

proof fn nothing_is_overlong(id: model::ModuleIdView, args: Seq<model::RoutineArg>, n: int)
    requires
        0 <= n <= args.len(),
        definition::overlong_problems(id, args, n).len() == 0,
    ensures
        forall|i: int| 0 <= i < n ==> (#[trigger] args[i]).overlong is None,
    decreases n,
{
    if n > 0 {
        nothing_is_overlong(id, args, n - 1);
    }
}

/// A routine that is accepted has a definition that begins with its parameter
/// list, a parameter in it for every argument type of its identity and no
/// other, none of them certainly another type, and no name in a type that the
/// engine would cut.
pub proof fn an_accepted_routine_declares_its_own_identity(
    id: model::ModuleId,
    module: Module,
    readings: definition::Readings,
)
    requires
        module.kind == ModuleKind::Function || module.kind == ModuleKind::Procedure,
        definition::module_problems(id, module, readings).len() == 0,
    ensures
        id matches model::ModuleId::Routine { name: _, args } && lexer::trimmed(
            module.definition@,
        ).len() > 0 && (forall|i: int|
            0 <= i < args@.len() ==> (#[trigger] args@[i]).overlong is None)
            && definition::body_problems(
            id@,
            module.definition@,
            args@,
            readings.spellings@,
        ).len() == 0,
{
    if let model::ModuleId::Routine { name: _, args } = id {
        nothing_is_overlong(id@, args@, args@.len() as int);
    }
}

} // verus!

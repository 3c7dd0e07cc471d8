//! The routines a plan pins against replacement.
//!
//! The pull reads what the plan manages. This reads what it does not: every
//! routine a role short of a superuser could replace between approval and
//! apply, as the catalog row the engine will run. Which of them the plan
//! manages, and what the digest is, are the caller's.
use vstd::prelude::*;

use crate::text;

verus! {

/// One routine in the pin set, as the catalog holds it.
#[derive(Debug, Clone, PartialEq, Eq)]
pub struct Routine {
    /// The schema's number, which keys the pin: a schema the plan renames
    /// keeps it.
    pub namespace: i64,
    /// The schema's name when this was read, for messages only.
    pub schema: String,
    pub name: String,
    /// The argument types in the spelling the pull gives a routine's identity.
    pub args: Vec<String>,
    /// The canonical JSON this routine contributes to its schema's pin.
    pub input: String,
}

/// What one read returned.
#[derive(Debug, Clone, PartialEq, Eq)]
pub struct Read {
    /// The server's version, compared before any digest.
    pub server_version: String,
    pub routines: Vec<Routine>,
}

/// Where the read runs.
#[derive(Debug, Clone, Copy, PartialEq, Eq, Structural)]
pub enum Within {
    /// No transaction is open; the read opens and closes its own.
    OwnTransaction,
    /// Inside the caller's open transaction, under a savepoint that is rolled
    /// back afterwards, so that the path it sets goes with it.
    CallersTransaction,
}

// ---------------------------------------------------------------------------
// What to ask

/// The owners whose routines only superusers can replace: a superuser every
/// one of whose members, by any path, is a superuser too.
pub const HELD_ONLY_BY_SUPERUSERS: &'static str = "
    SELECT r.oid
      FROM pg_catalog.pg_roles r
     WHERE r.rolsuper
       AND NOT EXISTS (
             SELECT 1
               FROM pg_catalog.pg_roles m
              WHERE NOT m.rolsuper
                AND m.oid <> r.oid
                AND pg_catalog.pg_has_role(m.oid, r.oid, 'MEMBER'))";

/// An aggregate's own row, with every reference in it as a number.
pub const AGGREGATE_ROW: &'static str = "
    SELECT pg_catalog.to_jsonb(a)
           || pg_catalog.jsonb_build_object(
                'aggfnoid', a.aggfnoid::oid,
                'aggtransfn', a.aggtransfn::oid,
                'aggfinalfn', a.aggfinalfn::oid,
                'aggcombinefn', a.aggcombinefn::oid,
                'aggserialfn', a.aggserialfn::oid,
                'aggdeserialfn', a.aggdeserialfn::oid,
                'aggmtransfn', a.aggmtransfn::oid,
                'aggminvtransfn', a.aggminvtransfn::oid,
                'aggmfinalfn', a.aggmfinalfn::oid)
      FROM pg_catalog.pg_aggregate a
     WHERE a.aggfnoid = p.oid";

/// Every routine in the pin set, around the two queries above.
pub const PINNED: &'static str =
    "WITH super_only AS ({}),
              member_of AS (
                SELECT d.objid, e.oid AS extension, e.extowner, e.extversion
                  FROM pg_catalog.pg_depend d
                  JOIN pg_catalog.pg_extension e ON e.oid = d.refobjid
                 WHERE d.classid = 'pg_catalog.pg_proc'::pg_catalog.regclass
                   AND d.refclassid = 'pg_catalog.pg_extension'::pg_catalog.regclass
                   AND d.deptype = 'e')
         SELECT p.pronamespace::int8 AS namespace,
                n.nspname AS schema_name,
                p.proname AS name,
                pg_catalog.to_jsonb(ARRAY(
                    SELECT pg_catalog.format_type(u.ty, NULL)
                      FROM pg_catalog.unnest(p.proargtypes) WITH ORDINALITY AS u(ty, pos)
                     ORDER BY u.pos))::text AS args,
                pg_catalog.jsonb_build_object(
                    'oid', p.oid::int8,
                    'proc', (pg_catalog.to_jsonb(p) - 'oid' - 'proacl')
                            || pg_catalog.jsonb_build_object('prosupport', p.prosupport::oid),
                    'acl', (SELECT pg_catalog.jsonb_agg(
                                       pg_catalog.jsonb_build_array(
                                           x.grantor, x.grantee, x.privilege_type, x.is_grantable)
                                       ORDER BY x.grantor, x.grantee, x.privilege_type, x.is_grantable)
                              FROM pg_catalog.aclexplode(p.proacl) AS x),
                    'aggregate', ({}),
                    'extension', (SELECT pg_catalog.jsonb_build_object(
                                             'oid', m.extension::int8, 'version', m.extversion)
                                    FROM member_of m WHERE m.objid = p.oid))::text AS input
           FROM pg_catalog.pg_proc p
           JOIN pg_catalog.pg_namespace n ON n.oid = p.pronamespace
          WHERE NOT pg_catalog.pg_is_other_temp_schema(p.pronamespace)
            AND p.pronamespace IS DISTINCT FROM pg_catalog.pg_my_temp_schema()
            AND (p.proowner NOT IN (SELECT oid FROM super_only)
                 OR EXISTS (SELECT 1 FROM member_of m
                             WHERE m.objid = p.oid
                               AND m.extowner NOT IN (SELECT oid FROM super_only)))
          ORDER BY p.pronamespace, p.oid";

/// Makes the argument spelling qualify every name that is not built in.
pub const CANONICAL_PATH: &'static str =
    "SELECT pg_catalog.set_config('search_path', '', true) AS was_set";

/// The server's version.
pub const SERVER_VERSION: &'static str =
    "SELECT pg_catalog.current_setting('server_version_num') AS version";

/// Opens the read's own transaction.
pub const BEGIN: &'static str = "BEGIN ISOLATION LEVEL READ COMMITTED READ ONLY;";

/// Closes the read's own transaction.
pub const ROLLBACK: &'static str = "ROLLBACK;";

/// Opens the read inside the caller's transaction.
pub const SAVEPOINT: &'static str = "SAVEPOINT pbps_routine_pins";

/// Takes back what the read set inside the caller's transaction.
pub const ROLLBACK_TO: &'static str = "ROLLBACK TO SAVEPOINT pbps_routine_pins";

/// Gives the savepoint back.
pub const RELEASE: &'static str = "RELEASE SAVEPOINT pbps_routine_pins";

/// The query for every routine in the pin set.
pub open spec fn pinned_text() -> Seq<char> {
    text::filled(PINNED@, seq![HELD_ONLY_BY_SUPERUSERS@, AGGREGATE_ROW@])
}

/// The query for every routine in the pin set.
pub fn pinned_routines_query() -> (r: String)
    ensures
        r@ == pinned_text(),
{
    text::fill2(PINNED, HELD_ONLY_BY_SUPERUSERS, AGGREGATE_ROW)
}

/// The statement that opens the read, and those that close it, in order. They
/// close it whether or not the read failed: the path it set goes with the
/// savepoint either way, and a failed read leaves the caller's transaction as
/// it found it.
pub fn framing(within: Within) -> (r: (&'static str, Vec<&'static str>))
    ensures
        match within {
            Within::OwnTransaction => r.0@ == BEGIN@ && r.1@.len() == 1 && r.1@[0]@ == ROLLBACK@,
            Within::CallersTransaction => r.0@ == SAVEPOINT@ && r.1@.len() == 2 && r.1@[0]@
                == ROLLBACK_TO@ && r.1@[1]@ == RELEASE@,
        },
{
    match within {
        Within::OwnTransaction => (BEGIN, vec![ROLLBACK]),
        Within::CallersTransaction => (SAVEPOINT, vec![ROLLBACK_TO, RELEASE]),
    }
}

/// What a read that was closed comes to: why it failed, where it did, and why
/// it could not be closed, where it did not.
pub fn concluded<E>(read: Result<Read, E>, closed: Result<(), E>) -> (r: Result<Read, E>)
    ensures
        match (read, closed) {
            (Err(e), _) => r == Err::<Read, E>(e),
            (Ok(_), Err(e)) => r == Err::<Read, E>(e),
            (Ok(read), Ok(_)) => r == Ok::<Read, E>(read),
        },
{
    match read {
        Err(e) => Err(e),
        Ok(read) => match closed {
            Err(e) => Err(e),
            Ok(_) => Ok(read),
        },
    }
}

// ---------------------------------------------------------------------------
// Rows

/// One row of the query, each field absent where the catalog has a null.
#[derive(Debug, Clone, PartialEq, Eq)]
pub struct RoutineRow {
    pub namespace: Option<i64>,
    pub schema_name: Option<String>,
    pub name: Option<String>,
    pub args: Option<String>,
    pub input: Option<String>,
}

/// Why a row with a null in it cannot be read.
pub const NULL_COLUMN: &'static str = "column `{}` is unexpectedly NULL";

/// Why an argument list that is not JSON cannot be read.
pub const NOT_JSON: &'static str = "a routine's argument list is not JSON: {}";

/// Why a server without a version cannot be read.
pub const NO_VERSION: &'static str = "`server_version_num` returned no row";

/// What `serde_json::from_str` reads a text as when a list of strings is asked
/// for: the strings, or the words of its error.
pub uninterp spec fn json_strings(json: Seq<char>) -> Result<Seq<Seq<char>>, Seq<char>>;

/// What a parse came to.
pub open spec fn parsed(r: Result<Vec<String>, String>) -> Result<Seq<Seq<char>>, Seq<char>> {
    match r {
        Ok(list) => Ok(text::texts(list@)),
        Err(e) => Err(e@),
    }
}

/// `serde_json::from_str` for a `Vec<String>`, with its error turned into the
/// error's own words. What is claimed of it is that the same text is always
/// read the same way.
#[verifier::external_body]
fn parse_strings(json: &str) -> (r: Result<Vec<String>, String>)
    ensures
        parsed(r) == json_strings(json@),
{
    serde_json::from_str::<Vec<String>>(json).map_err(|e| e.to_string())
}

/// The first field that a row leaves out, apart from its argument list.
pub open spec fn null_field(row: RoutineRow) -> Option<Seq<char>> {
    if row.namespace is None {
        Some("namespace"@)
    } else if row.schema_name is None {
        Some("schema_name"@)
    } else if row.name is None {
        Some("name"@)
    } else if row.input is None {
        Some("input"@)
    } else {
        None
    }
}

/// Whether `r` is the routine of a row whose argument list reads as `args`, or
/// what is wrong with the row: the argument list first, then the first null.
pub open spec fn reads_row(
    r: Result<Routine, String>,
    row: RoutineRow,
    args: Result<Seq<Seq<char>>, Seq<char>>,
) -> bool {
    match args {
        Err(e) => r matches Err(message) && message@ == text::filled(NOT_JSON@, seq![e]),
        Ok(list) => match null_field(row) {
            Some(field) => r matches Err(message) && message@ == text::filled(
                NULL_COLUMN@,
                seq![field],
            ),
            None => r matches Ok(routine) && routine.namespace == row.namespace->0
                && routine.schema@ == row.schema_name->0@ && routine.name@ == row.name->0@
                && text::texts(routine.args@) == list && routine.input@ == row.input->0@,
        },
    }
}

/// The text of a field that has to be there.
pub fn field(value: &Option<String>, column: &str) -> (r: Result<String, String>)
    ensures
        match text::text_in(*value) {
            Some(s) => r matches Ok(t) && t@ == s,
            None => r matches Err(e) && e@ == text::filled(NULL_COLUMN@, seq![column@]),
        },
{
    match value {
        Some(s) => Ok(s.clone()),
        None => Err(text::fill1(NULL_COLUMN, column)),
    }
}

/// The routine of a row, once its argument list has been parsed.
pub fn routine_with(row: &RoutineRow, args: Result<Vec<String>, String>) -> (r: Result<
    Routine,
    String,
>)
    ensures
        reads_row(r, *row, parsed(args)),
{
    let args = match args {
        Ok(list) => list,
        Err(e) => {
            return Err(text::fill1(NOT_JSON, e.as_str()));
        },
    };
    let namespace = match row.namespace {
        Some(n) => n,
        None => {
            return Err(text::fill1(NULL_COLUMN, "namespace"));
        },
    };
    let schema = field(&row.schema_name, "schema_name")?;
    let name = field(&row.name, "name")?;
    let input = field(&row.input, "input")?;
    Ok(Routine { namespace, schema, name, args, input })
}

/// Whether `r` is the routine of a row, or what is wrong with the row.
pub open spec fn reads_routine(r: Result<Routine, String>, row: RoutineRow) -> bool {
    match row.args {
        None => r matches Err(message) && message@ == text::filled(NULL_COLUMN@, seq!["args"@]),
        Some(json) => reads_row(r, row, json_strings(json@)),
    }
}

/// The routine of a row.
pub fn routine(row: &RoutineRow) -> (r: Result<Routine, String>)
    ensures
        reads_routine(r, *row),
{
    let json = field(&row.args, "args")?;
    routine_with(row, parse_strings(json.as_str()))
}

/// The server's version, from the first row of its query: `None` where there
/// was no row, and a null inside where the row holds none.
pub fn server_version(row: Option<Option<String>>) -> (r: Result<String, String>)
    ensures
        match row {
            Some(Some(version)) => r matches Ok(v) && v@ == version@,
            Some(None) => r matches Err(e) && e@ == text::filled(NULL_COLUMN@, seq!["version"@]),
            None => r matches Err(e) && e@ == NO_VERSION@,
        },
{
    match row {
        Some(version) => field(&version, "version"),
        None => Err(NO_VERSION.to_owned()),
    }
}

/// Whether a row holds a routine: its argument list is there and reads as
/// strings, and nothing else in it is a null.
pub open spec fn is_readable(row: RoutineRow) -> bool {
    match row.args {
        Some(json) => json_strings(json@) is Ok && null_field(row) is None,
        None => false,
    }
}

/// Whether `r` is every routine of some rows in order, or what is wrong with
/// the first row that cannot be read.
pub open spec fn reads_all(r: Result<Vec<Routine>, String>, rows: Seq<RoutineRow>) -> bool {
    match r {
        Ok(list) => list@.len() == rows.len() && forall|i: int|
            0 <= i < rows.len() ==> reads_routine(
                Ok::<Routine, String>(#[trigger] list@[i]),
                rows[i],
            ),
        Err(e) => exists|i: int|
            0 <= i < rows.len() && reads_routine(
                Err::<Routine, String>(e),
                #[trigger] rows[i],
            ) && forall|k: int| 0 <= k < i ==> is_readable(#[trigger] rows[k]),
    }
}

/// Every routine of some rows, or what is wrong with the first row that cannot
/// be read.
pub fn routines(rows: &Vec<RoutineRow>) -> (r: Result<Vec<Routine>, String>)
    ensures
        reads_all(r, rows@),
{
    let mut out: Vec<Routine> = Vec::new();
    let mut i: usize = 0;
    while i < rows.len()
        invariant
            i <= rows@.len(),
            out@.len() == i,
            forall|k: int|
                0 <= k < i ==> reads_routine(Ok::<Routine, String>(#[trigger] out@[k]), rows@[k]),
        decreases rows@.len() - i,
    {
        match routine(&rows[i]) {
            Ok(found) => {
                out.push(found);
            },
            Err(e) => {
                assert forall|k: int| 0 <= k < i implies is_readable(#[trigger] rows@[k]) by {
                    assert(reads_routine(Ok::<Routine, String>(out@[k]), rows@[k]));
                }
                assert(reads_routine(Err::<Routine, String>(e), rows@[i as int]));
                return Err(e);
            },
        }
        i += 1;
    }
    Ok(out)
}

/// Everything one read returned, from the rows of its two queries: the version
/// is read first.
pub fn read(version: Option<Option<String>>, rows: &Vec<RoutineRow>) -> (r: Result<Read, String>)
    ensures
        match version {
            Some(Some(v)) => match r {
                Ok(read) => read.server_version@ == v@ && reads_all(
                    Ok::<Vec<Routine>, String>(read.routines),
                    rows@,
                ),
                Err(e) => reads_all(Err::<Vec<Routine>, String>(e), rows@),
            },
            Some(None) => r matches Err(e) && e@ == text::filled(NULL_COLUMN@, seq!["version"@]),
            None => r matches Err(e) && e@ == NO_VERSION@,
        },
{
    let server_version = server_version(version)?;
    let routines = routines(rows)?;
    Ok(Read { server_version, routines })
}

} // verus!

//! The dialect: what it quotes and refuses, the statements it writes and what
//! they cost.
//!
//! The type catalogue these tests stand in for knows the spellings they use,
//! reads a routine's argument types and decodes an escaped identifier.
use pbps_pg::definition::{self, Decoding, Readings, Spelling};
use pbps_pg::error::DialectError;
use pbps_pg::estimate::{estimate, estimates, rewrites, Lock, Reads, Rewrite, Rows};
use pbps_pg::lexer::{self, is_a_bare_literal};
use pbps_pg::model::{
    Cast, Change, ChangeSet, CheckConstraint, Column, ColumnRef, ColumnType, DeclaredDefault,
    DeclaredIdentity, DeclaredType, ForeignKey, Index, IndexColumn, Module, ModuleId, ModuleKind,
    PrimaryKey, Reading, ReferentialAction, RoutineArg, Strategy, Table, TableName, TypeArg,
    UniqueConstraint,
};
use pbps_pg::sql::MAX_IDENT_BYTES;
use pbps_pg::{Folded, Postgres, TypeChangeRisk, Unbuilt};

fn invalid(message: String) -> DialectError {
    DialectError::Invalid {
        dialect: "postgres",
        message,
    }
}

fn column_type(base: &str, args: &[i64]) -> ColumnType {
    let shown: Vec<String> = args.iter().map(|a| a.to_string()).collect();
    let spelled = if args.is_empty() {
        base.to_owned()
    } else {
        format!("{base}({})", shown.join(","))
    };
    ColumnType {
        base: base.to_owned(),
        args: args.iter().map(|a| TypeArg::Int(*a)).collect(),
        spelled,
    }
}

fn numbers(ty: &ColumnType) -> Vec<i64> {
    ty.args
        .iter()
        .map(|a| match a {
            TypeArg::Int(n) => *n,
            other => panic!("{other:?} is no number"),
        })
        .collect()
}

fn parsed_type(s: &str) -> ColumnType {
    match s.split_once('(') {
        None => column_type(s, &[]),
        Some((base, rest)) => {
            let args: Vec<i64> = rest
                .trim_end_matches(')')
                .split(',')
                .map(|a| a.trim().parse().expect("a number"))
                .collect();
            column_type(base, &args)
        }
    }
}

fn full_name(base: &str) -> Option<&'static str> {
    Some(match base {
        "smallint" => "smallint",
        "int" | "int4" | "integer" => "integer",
        "int8" | "bigint" => "bigint",
        "varchar" | "character varying" => "character varying",
        "char" | "character" => "character",
        "decimal" | "numeric" => "numeric",
        "bool" | "boolean" => "boolean",
        "timestamp" => "timestamp without time zone",
        "timestamptz" | "timestamp with time zone" => "timestamp with time zone",
        "timetz" => "time with time zone",
        "text" => "text",
        "date" => "date",
        "real" => "real",
        "double precision" => "double precision",
        "interval" => "interval",
        "uuid" => "uuid",
        "json" => "json",
        "jsonb" => "jsonb",
        _ => return None,
    })
}

fn catalogued(written: &ColumnType) -> Reading {
    let refused = || {
        Reading::Refused(invalid(format!(
            "postgres has no type `{}`",
            written.spelled
        )))
    };
    let Some(base) = full_name(&written.base) else {
        return refused();
    };
    let args = numbers(written);
    let accepted = match base {
        "character varying" => args.len() <= 1 && args.iter().all(|n| *n <= 10_485_760),
        "character" => args.len() <= 1,
        "numeric" => args.len() <= 2 && args.iter().all(|n| *n <= 1000),
        "interval" => args.len() <= 1 && args.iter().all(|n| *n <= 6),
        _ => args.is_empty(),
    };
    if !accepted {
        return refused();
    }
    if base == "character" && args.is_empty() {
        return Reading::As(column_type(base, &[1]));
    }
    Reading::As(column_type(base, &args))
}

fn ty(s: &str) -> DeclaredType {
    let written = parsed_type(s);
    let normal = catalogued(&written);
    DeclaredType { written, normal }
}

fn column(ty: DeclaredType) -> Column {
    Column {
        ty,
        nullable: true,
        default: None,
        identity: None,
        serial: None,
    }
}

fn not_null(mut column: Column) -> Column {
    column.nullable = false;
    column
}

fn serial(name: &str) -> Column {
    let mut out = column(ty("serial"));
    out.serial = Some(invalid(format!(
        "column `{name}`: `serial` is a macro, not a type"
    )));
    out
}

fn declared_default(text: &str) -> DeclaredDefault {
    let bare = !text.contains('(');
    DeclaredDefault {
        text: text.to_owned(),
        constant: bare,
        core: text.to_owned(),
        cast: Cast::Absent,
    }
}

fn identity(ty: &DeclaredType, seed: i64, increment: i64) -> DeclaredIdentity {
    let range = match &ty.normal {
        Reading::As(normal) => match normal.base.as_str() {
            "smallint" => Some((i64::from(i16::MIN), i64::from(i16::MAX))),
            "integer" => Some((i64::from(i32::MIN), i64::from(i32::MAX))),
            "bigint" => Some((i64::MIN, i64::MAX)),
            _ => None,
        },
        Reading::Refused(_) => None,
    };
    DeclaredIdentity {
        seed,
        increment,
        accepted: range.map(|(min, max)| if increment < 0 { (min, -1) } else { (1, max) }),
    }
}

fn empty_table() -> Table {
    Table {
        columns: Vec::new(),
        primary_key: None,
        unique: Vec::new(),
        checks: Vec::new(),
        foreign_keys: Vec::new(),
        indexes: Vec::new(),
    }
}

fn tname(s: &str) -> TableName {
    let (schema, name) = s.split_once('.').expect("a table name");
    TableName::new(schema, name)
}

fn cref(s: &str) -> ColumnRef {
    let (table, name) = s.rsplit_once('.').expect("a column reference");
    tname(table).column(name)
}

fn name(schema: &str, table: &str) -> TableName {
    TableName::new(schema, table)
}

fn table_problems(name: &TableName, table: &Table) -> Vec<DialectError> {
    Postgres::new().validate_table(name, table, Vec::new())
}

fn module(kind: ModuleKind, definition: &str) -> Module {
    Module {
        kind,
        definition: definition.to_owned(),
    }
}

/// The spelling with its modifiers, its comments and its spare white space
/// gone, and its unquoted letters folded.
fn bared(spelling: &str) -> String {
    let chars: Vec<char> = spelling.chars().collect();
    let mut out = String::new();
    let mut at = 0;
    let mut depth = 0;
    let mut gap = false;
    while at < chars.len() {
        if chars[at] == '"' {
            let end = lexer::one_ident_len(&chars, at).unwrap_or(chars.len());
            if gap && !out.is_empty() {
                out.push(' ');
            }
            gap = false;
            out.extend(&chars[at..end]);
            at = end;
            continue;
        }
        if let Some(end) = lexer::skip_datum_at(&chars, at) {
            gap = true;
            at = end;
            continue;
        }
        let c = chars[at];
        at += 1;
        match c {
            '(' => depth += 1,
            ')' => depth -= 1,
            c if depth > 0 => {
                let _ = c;
            }
            c if c.is_ascii_whitespace() => gap = true,
            c => {
                if gap && !out.is_empty() && c != '[' {
                    out.push(' ');
                }
                gap = false;
                out.push(c.to_ascii_lowercase());
            }
        }
    }
    out
}

fn overlong(element: &str) -> Option<String> {
    element
        .split('.')
        .map(|part| part.trim_matches('"'))
        .find(|part| part.len() > MAX_IDENT_BYTES)
        .map(str::to_owned)
}

fn arg(spelling: &str) -> Option<RoutineArg> {
    let bare = bared(spelling);
    if bare.is_empty() || bare.contains('%') {
        return None;
    }
    let array = bare.ends_with("[]");
    let inner = bare.trim_end_matches("[]");
    let known = full_name(inner);
    let element = known.unwrap_or(inner).to_owned();
    let canonical = if array {
        format!("{element}[]")
    } else {
        element.clone()
    };
    Some(RoutineArg {
        text: canonical.clone(),
        canonical,
        overlong: overlong(&element),
        element,
        array,
        catalogued: known.is_some(),
    })
}

fn id(s: &str) -> ModuleId {
    if let Some((routine, args)) = s.split_once('(') {
        let args = args.strip_suffix(')').expect("a closed list");
        return ModuleId::Routine {
            name: tname(routine),
            args: if args.is_empty() {
                Vec::new()
            } else {
                args.split(',').map(|a| arg(a).expect("a type")).collect()
            },
        };
    }
    match s.split('.').collect::<Vec<_>>().as_slice() {
        [schema, name] => ModuleId::Named(TableName::new(schema, name)),
        [schema, table, name] => ModuleId::Trigger {
            on: TableName::new(schema, table),
            name: (*name).to_owned(),
        },
        _ => panic!("`{s}` is no module"),
    }
}

/// What an escaped identifier's text stands for.
fn decoded(inner: &str, escape: char) -> Option<String> {
    let chars: Vec<char> = inner.chars().collect();
    let mut units: Vec<u16> = Vec::new();
    let mut at = 0;
    while at < chars.len() {
        if chars[at] != escape {
            let mut buffer = [0; 2];
            units.extend_from_slice(chars[at].encode_utf16(&mut buffer));
            at += 1;
            continue;
        }
        if chars.get(at + 1) == Some(&escape) {
            let mut buffer = [0; 2];
            units.extend_from_slice(escape.encode_utf16(&mut buffer));
            at += 2;
            continue;
        }
        let (from, digits) = if chars.get(at + 1) == Some(&'+') {
            (at + 2, 6)
        } else {
            (at + 1, 4)
        };
        let hex: String = chars.get(from..from + digits)?.iter().collect();
        let value = u32::from_str_radix(&hex, 16).ok()?;
        match u16::try_from(value) {
            Ok(unit) => units.push(unit),
            Err(_) => {
                let mut buffer = [0; 2];
                units.extend_from_slice(char::from_u32(value)?.encode_utf16(&mut buffer));
            }
        }
        at = from + digits;
    }
    String::from_utf16(&units).ok()
}

/// Every escaped identifier of a text, decoded with each escape in use.
fn decodings(text: &str) -> Vec<Decoding> {
    let chars: Vec<char> = text.chars().collect();
    let mut out = Vec::new();
    for at in 0..chars.len() {
        if !lexer::unicode_quoted(&chars, at) {
            continue;
        }
        let Some(end) = lexer::end_of_quoted(&chars, at + 3) else {
            continue;
        };
        let raw: String = chars[at + 3..end - 1].iter().collect();
        let inner = raw.replace("\"\"", "\"");
        for escape in ['\\', '!'] {
            out.push(Decoding {
                inner: inner.clone(),
                escape,
                decoded: decoded(&inner, escape),
            });
        }
    }
    out
}

fn unquoted(written: &str, escape: char) -> Option<String> {
    let chars: Vec<char> = written.chars().collect();
    definition::unquoted(&chars, escape, &decodings(written))
}

fn uescape_len(text: &str) -> Option<usize> {
    let chars: Vec<char> = text.chars().collect();
    lexer::uescape_len(&chars, 0)
}

fn validated(id: &ModuleId, module: &Module) -> Vec<DialectError> {
    let readings = Readings {
        decodings: definition::escapes_in(&module.definition)
            .into_iter()
            .map(|(inner, escape)| Decoding {
                decoded: decoded(&inner, escape),
                inner,
                escape,
            })
            .collect(),
        spellings: definition::spellings_in(&module.definition)
            .into_iter()
            .map(|text| Spelling {
                read: arg(&text),
                text,
            })
            .collect(),
    };
    Postgres::new().validate_module(id, module, &readings)
}

fn sql_of(pg: &Postgres, change: &Change) -> Vec<String> {
    pg.emit(change, Strategy::default())
        .expect("emit")
        .into_iter()
        .map(|s| s.sql)
        .collect()
}

fn retyped(column: ColumnRef, from: &str, to: &str, nullable: bool) -> Change {
    let zoned = |s: &str| s.ends_with("tz");
    let dated = |s: &str| ["timestamp", "timestamptz", "date", "timetz"].contains(&s);
    Change::AlterColumnType {
        column,
        from: ty(from),
        to: ty(to),
        from_nullable: nullable,
        to_nullable: nullable,
        incompatible: from.starts_with("character") && to == "integer",
        zone_decided: dated(from) && dated(to) && (zoned(from) || zoned(to)),
    }
}

fn retype(from: &str, to: &str) -> Change {
    retyped(cref("app.t.at"), from, to, false)
}

/// The catalogue's answer for two types it reads.
fn between(from: &DeclaredType, to: &DeclaredType) -> TypeChangeRisk {
    let (Reading::As(from), Reading::As(to)) = (&from.normal, &to.normal) else {
        return TypeChangeRisk::Safe;
    };
    let narrower = match (from.base.as_str(), to.base.as_str()) {
        ("bigint", "integer") => true,
        _ => numbers(from)
            .iter()
            .zip(numbers(to))
            .any(|(from, to)| to < *from),
    };
    if narrower {
        TypeChangeRisk::Narrowing
    } else {
        TypeChangeRisk::Safe
    }
}

#[test]
fn a_risk_is_judged_on_the_normalized_types_even_if_the_caller_forgot() {
    for (from, to, expected) in [
        ("character(5)", "character", TypeChangeRisk::Narrowing),
        ("char(5)", "char(10)", TypeChangeRisk::Safe),
        ("int", "integer", TypeChangeRisk::Safe),
        ("integer", "int", TypeChangeRisk::Safe),
        ("numeric(10,2)", "decimal(10,2)", TypeChangeRisk::Safe),
        ("varchar(50)", "varchar(10)", TypeChangeRisk::Narrowing),
        ("int8", "int4", TypeChangeRisk::Narrowing),
        ("serial", "integer", TypeChangeRisk::Incompatible),
        ("nonesuch", "integer", TypeChangeRisk::Incompatible),
        ("numeric(1000)", "numeric(1001)", TypeChangeRisk::Incompatible),
        ("numeric(1001)", "numeric(1000)", TypeChangeRisk::Incompatible),
        ("interval(6)", "interval(7)", TypeChangeRisk::Incompatible),
        (
            "varchar(10485760)",
            "varchar(10485761)",
            TypeChangeRisk::Incompatible,
        ),
    ] {
        let (from, to) = (ty(from), ty(to));
        assert_eq!(
            Postgres::new().type_change_risk(&from, &to, between(&from, &to)),
            expected,
            "{from:?} -> {to:?}"
        );
    }
}

#[test]
fn a_null_default_is_refused_in_every_spelling_the_engine_erases() {
    let mut table = empty_table();
    // The column, its type, its default, what the default's cast names, and
    // whether the catalogue reads that type.
    let erased = [
        ("bare", "text", "NULL", ""),
        ("parens", "text", "(null)", ""),
        ("cast", "text", "NULL::text", "text"),
        ("standard", "text", "CAST(NULL AS text)", "text"),
        ("commented", "text", "NULL /* note */::text", "text"),
        (
            "cast_commented",
            "text",
            "CAST(NULL /* note */ AS text)",
            "text",
        ),
        ("led", "text", "/* lead */ NULL", ""),
        (
            "typed_comment",
            "text",
            "CAST(NULL AS text /* note */)",
            "text",
        ),
        ("alias", "integer", "NULL::int", "int"),
        (
            "worded",
            "timestamptz",
            "CAST(NULL AS timestamp with time zone)",
            "timestamp with time zone",
        ),
        ("twice", "text", "NULL::varchar::text", "text"),
        (
            "worded_comment",
            "double precision",
            "CAST(NULL AS double /* note */ precision)",
            "double precision",
        ),
        ("cr_comment", "text", "CAST(NULL -- note\r AS text)", "text"),
        ("glued", "text", "CAST(NULL/**/AS/**/text)", "text"),
        ("qualified", "text", "NULL::pg_catalog.text", "text"),
        (
            "qualified_call",
            "text",
            "CAST(NULL AS pg_catalog.text)",
            "text",
        ),
        ("quoted", "text", "NULL::\"text\"", "text"),
        (
            "quoted_both",
            "text",
            "CAST(NULL AS \"pg_catalog\" . \"text\")",
            "text",
        ),
        (
            "spaced",
            "text",
            "CAST(NULL AS pg_catalog/**/./**/text)",
            "text",
        ),
        ("folded", "integer", "NULL::PG_CATALOG.INT4", "int4"),
        ("quoted_alias", "boolean", "NULL::\"bool\"", "bool"),
        (
            "qualified_time",
            "timestamptz",
            "NULL::pg_catalog.timestamptz",
            "timestamptz",
        ),
        ("glued_quote", "text", "CAST(NULL AS\"text\")", "text"),
    ];
    let kept = [
        ("other_type", "text", "NULL::varchar", "varchar"),
        (
            "modified_column",
            "varchar(10)",
            "NULL::varchar(10)",
            "varchar(10)",
        ),
        (
            "modified_cast",
            "timestamptz",
            "NULL::timestamp(3) with time zone",
            "unread",
        ),
        (
            "modified_numeric",
            "numeric(5,2)",
            "CAST(NULL AS numeric(5,2))",
            "numeric(5,2)",
        ),
        (
            "modified_comment",
            "numeric(5,2)",
            "CAST(NULL AS numeric(5, /* c */ 2))",
            "numeric(5,2)",
        ),
        ("wider", "integer", "NULL::bigint", "bigint"),
        ("other_schema", "text", "NULL::app.text", "unread"),
        (
            "no_such_type",
            "integer",
            "NULL::pg_catalog.integer",
            "unread",
        ),
        ("quoted_grammar", "text", "CAST(NULL AS \"TEXT\")", "unread"),
        ("internal_char", "character", "NULL::\"char\"", "unread"),
        (
            "catalog_char",
            "character",
            "NULL::pg_catalog.bpchar",
            "unread",
        ),
        ("value", "text", "'x'", ""),
        ("expression", "text", "NULLIF('a', 'a')", ""),
    ];
    for (name, declared, text, cast) in erased.iter().chain(&kept) {
        let mut c = column(ty(declared));
        let null = !matches!(*name, "value" | "expression");
        c.default = Some(DeclaredDefault {
            text: (*text).to_owned(),
            constant: *name != "expression",
            core: if !null {
                (*text).to_owned()
            } else if *name == "parens" {
                "null".to_owned()
            } else {
                "NULL".to_owned()
            },
            cast: if cast.is_empty() {
                Cast::Absent
            } else {
                match ty(cast).normal {
                    Reading::As(to) => Cast::To(to),
                    Reading::Refused(_) => Cast::Unread,
                }
            },
        });
        table.columns.push(((*name).to_owned(), c));
    }
    table.columns.push(("none".to_owned(), column(ty("text"))));

    let problems = table_problems(&tname("app.t"), &table);
    let mut named: Vec<String> = problems
        .iter()
        .map(|e| {
            let m = e.message();
            assert!(m.contains("declare no default"), "{m}");
            m.split('`').nth(1).expect("a column name").to_owned()
        })
        .collect();
    named.sort();
    let mut expected: Vec<&str> = erased.iter().map(|(n, _, _, _)| *n).collect();
    expected.sort_unstable();
    assert_eq!(named, expected, "{problems:?}");
}

#[test]
fn a_bare_name_ranks_the_own_schema_first_and_then_the_extras() {
    let pg = Postgres::with_write_path_extras(vec!["shared".into(), "public".into()]);
    assert_eq!(pg.bare_name_rank("app", "app"), Some(0));
    assert_eq!(pg.bare_name_rank("app", "shared"), Some(1));
    assert_eq!(pg.bare_name_rank("app", "public"), Some(2));
    assert_eq!(pg.bare_name_rank("app", "other"), None);
    assert_eq!(
        pg.bare_name_rank("app", "App"),
        None,
        "names are exact"
    );
    assert_eq!(pg.bare_name_rank("shared", "shared"), Some(0));
    assert_eq!(
        Postgres::new().bare_name_rank("app", "shared"),
        None
    );
}

#[test]
fn an_unbuilt_part_refuses_by_name_and_never_reads_as_nothing_to_do() {
    for part in [Unbuilt::Introspection, Unbuilt::Roles, Unbuilt::Probes] {
        let message = part.refuse().message();
        assert!(message.contains("Phase 5 step"), "{message}");
        assert!(message.contains("does not implement"), "{message}");
        assert!(message.ends_with("yet"), "{message}");
    }
}

#[test]
fn a_change_from_an_unbuilt_part_is_an_error_and_not_an_empty_plan() {
    let unbuilt = [(
        Change::CreateRole {
            name: "analyst".to_owned(),
        },
        "Phase 5 step 6",
    )];
    for (change, step) in unbuilt {
        let refusal = Postgres::new()
            .emit(&change, Strategy::default())
            .expect_err("this part is not built");
        assert!(refusal.message().contains(step), "{refusal:?}");
    }
}

#[test]
fn validating_a_table_names_a_default_the_applying_session_would_decide() {
    let mut table = empty_table();
    let mut d = column(ty("date"));
    d.default = Some(declared_default("'01/02/2026'"));
    table.columns.push(("d".into(), d));
    let mut label = column(ty("text"));
    label.default = Some(declared_default("'01/02/2026'"));
    table.columns.push(("label".into(), label));
    let mut ok = column(ty("date"));
    ok.default = Some(declared_default("'2026-01-02'::date"));
    table.columns.push(("resolved".into(), ok));

    let problems =
        table_problems(&tname("app.t"), &table);
    assert_eq!(problems.len(), 1, "{problems:?}");
    let message = problems[0].message();
    assert!(message.contains("column `d`"), "{message}");
    assert!(message.contains("DateStyle"), "{message}");
}

#[test]
fn validating_a_table_refuses_a_schema_the_pull_would_never_read() {
    let one = |name: &str| {
        let mut table = empty_table();
        table.columns.push((
            "id".into(),
            column(ty("integer"))));
        table_problems(&tname(name), &table)
    };
    for name in [
        "pg_temp.t",
        "pg_catalog.t",
        "information_schema.t",
        "pg_toast.t",
    ] {
        let problems = one(name);
        assert_eq!(problems.len(), 1, "`{name}`: {problems:?}");
        let message = problems[0].message();
        assert!(message.contains("never reads"), "`{name}`: {message}");
    }
    for name in ["pga.t", "app.t", "public.t", "pg.t"] {
        assert!(one(name).is_empty(), "`{name}` is a project's own");
    }
}

#[test]
fn validating_a_table_refuses_the_schema_name_a_path_substitutes() {
    let mut table = empty_table();
    table.columns.push((
        "id".into(),
        column(ty("integer"))));
    let problems =
        table_problems(&TableName::new("$user", "t"), &table);
    assert_eq!(problems.len(), 1, "{problems:?}");
    assert!(
        problems[0].message().contains("role's own schema"),
        "{:?}",
        problems[0]
    );
    for ok in ["$users", "$USER", "app"] {
        assert!(
            table_problems(&TableName::new(ok, "t"), &table)
                .is_empty(),
            "`{ok}` is an ordinary schema"
        );
    }
}

#[test]
fn validating_a_table_refuses_the_two_names_this_tool_owns() {
    let one = |name: &str| {
        let mut table = empty_table();
        table.columns.push((
            "id".into(),
            column(ty("integer"))));
        table_problems(&tname(name), &table)
    };
    for name in ["app.__pbps_state", "app.__pbps_lock", "public.__pbps_state"] {
        let problems = one(name);
        assert_eq!(problems.len(), 1, "`{name}`: {problems:?}");
        assert!(
            problems[0].message().contains("this tool owns"),
            "`{name}`: {:?}",
            problems[0]
        );
    }
    for name in [
        "app.__pbps_customers",
        "app.__pbps_statement",
        "app.pbps_state",
        "app.customers",
    ] {
        assert!(one(name).is_empty(), "`{name}` is a project's own");
    }
}

#[test]
fn an_unquoted_identifier_folds_to_lower_case() {
    assert_eq!(Postgres::new().fold_ident("Customer").as_str(), "customer");
    assert_eq!(Postgres::new().fold_ident("CUSTOMER").as_str(), "customer");
    assert!(matches!(
        Postgres::new().fold_ident("customer"),
        Folded::Borrowed(_)
    ));
}

#[test]
fn folding_leaves_every_letter_the_engine_leaves() {
    assert_eq!(Postgres::new().fold_ident("AÄ").as_str(), "aÄ");
    assert_eq!(Postgres::new().fold_ident("STRASSE").as_str(), "strasse");
    assert_eq!(Postgres::new().fold_ident("Straße").as_str(), "straße");
    assert!(matches!(Postgres::new().fold_ident("Ä"), Folded::Borrowed(_)));
    assert_eq!(Postgres::new().fold_ident("Ä").as_str(), "Ä");
}

#[test]
fn a_name_the_server_would_truncate_is_refused_by_bytes_not_characters() {
    assert!(
        Postgres::new()
            .quote_ident(&"a".repeat(MAX_IDENT_BYTES))
            .is_ok()
    );
    assert!(
        Postgres::new()
            .quote_ident(&"a".repeat(MAX_IDENT_BYTES + 1))
            .is_err()
    );
    let long = "ä".repeat(32);
    assert_eq!(long.chars().count(), 32);
    assert_eq!(long.len(), 64);
    assert!(Postgres::new().quote_ident(&"ä".repeat(31)).is_ok());
    assert!(Postgres::new().quote_ident(&long).is_err());
}

#[test]
fn quoting_doubles_an_embedded_quote_and_refuses_what_cannot_be_a_name() {
    assert_eq!(
        Postgres::new().quote_ident("customer").unwrap(),
        "\"customer\""
    );
    assert_eq!(
        Postgres::new().quote_ident("Odd Name").unwrap(),
        "\"Odd Name\""
    );
    assert_eq!(Postgres::new().quote_ident("a\"b").unwrap(), "\"a\"\"b\"");
    assert!(Postgres::new().quote_ident("").is_err());
    assert!(Postgres::new().quote_ident("a\0b").is_err());
}

#[test]
fn validating_a_table_names_the_serial_column() {
    let mut table = empty_table();
    table
        .columns
        .push(("id".to_owned(), serial("id")));
    table
        .columns
        .push(("note".to_owned(), column(ty("text"))));
    let found = table_problems(&tname("app.t"), &table);
    let serial: Vec<_> = found
        .iter()
        .map(DialectError::message)
        .filter(|m| m.contains("macro, not a type"))
        .collect();
    assert_eq!(serial.len(), 1, "{found:?}");
    assert!(serial[0].contains("column `id`"), "{}", serial[0]);
    assert_eq!(found.len(), 1, "{found:?}");
}

#[test]
fn validating_a_table_refuses_a_name_the_emitter_could_not_spell() {
    let long = "a".repeat(MAX_IDENT_BYTES + 1);
    let mut table = empty_table();
    table
        .columns
        .push((long.clone(), column(ty("integer"))));
    let found =
        table_problems(&TableName::new(&long, &long), &table);
    assert_eq!(found.len(), 3, "{found:?}");
    assert!(
        found
            .iter()
            .all(|e| matches!(e, DialectError::UnquotableIdent(_))),
        "{found:?}"
    );

    let mut ok = empty_table();
    ok.columns
        .push(("id".to_owned(), column(ty("integer"))));
    assert!(
        table_problems(&tname("app.t"), &ok)
            .is_empty()
    );
}

#[test]
fn validating_a_table_refuses_every_owned_name_the_emitter_could_not_spell() {
    let long = "a".repeat(MAX_IDENT_BYTES + 1);
    let mut table = empty_table();
    table.columns.push((
        "id".to_owned(),
        not_null(column(ty("integer")))));
    table.primary_key = Some(PrimaryKey {
        name: Some(long.clone()),
        columns: vec!["id".to_owned()],
    });
    table.unique.push((
        long.clone(),
        UniqueConstraint {
            columns: vec!["id".to_owned()],
        }));
    table.checks.push((
        long.clone(),
        CheckConstraint {
            expression: "id > 0".to_owned(),
        }));
    let found = table_problems(&tname("app.t"), &table);
    assert_eq!(found.len(), 3, "{found:?}");
    assert!(
        found
            .iter()
            .all(|e| matches!(e, DialectError::UnquotableIdent(_))),
        "{found:?}"
    );
}

#[test]
fn an_identity_is_refused_on_a_type_this_engine_will_not_carry_one_on() {
    for (declared, accepted) in [
        ("smallint", true),
        ("integer", true),
        ("bigint", true),
        ("numeric(10,0)", false),
        ("numeric", false),
        ("text", false),
        ("uuid", false),
        ("real", false),
    ] {
        let mut table = empty_table();
        let mut column = column(ty(declared));
        column.nullable = false;
        column.identity = Some(identity(&column.ty, 1, 1));
        table.columns.push(("id".to_owned(), column));
        let found = table_problems(&tname("app.t"), &table);
        assert_eq!(
            found.is_empty(),
            accepted,
            "`{declared}` as an identity: {found:?}"
        );
        if !accepted {
            assert!(
                found[0]
                    .message()
                    .contains("smallint, integer, or bigint")
            );
        }
    }
}

#[test]
fn an_identity_that_is_nullable_or_defaulted_or_never_advances_is_refused() {
    let mut table = empty_table();
    let mut declared = column(ty("integer"));
    declared.nullable = true;
    declared.default = Some(declared_default("7"));
    declared.identity = Some(identity(&declared.ty, 1, 0));
    table.columns.push(("id".to_owned(), declared.clone()));
    table.columns.push(("other".to_owned(), {
        let mut c = column(ty("bigint"));
        c.nullable = false;
        c.identity = Some(identity(&c.ty, 1, 1));
        c
    }));
    let found = table_problems(&tname("app.t"), &table);
    assert_eq!(found.len(), 3, "{found:?}");
    assert!(found.iter().any(|e| e.message().contains("nullable")));
    assert!(found.iter().any(|e| e.message().contains("`default:`")));
    assert!(
        found
            .iter()
            .any(|e| e.message().contains("never advances"))
    );
}

#[test]
fn an_identity_seed_outside_the_sequences_own_bounds_is_refused() {
    for (declared, seed, increment, accepted) in [
        ("smallint", 1, 1, true),
        ("smallint", 32767, 1, true),
        ("smallint", 32768, 1, false),
        ("integer", 2_147_483_647, 1, true),
        ("integer", 2_147_483_648, 1, false),
        ("integer", 0, 1, false),
        ("integer", -5, 1, false),
        ("integer", -5, -1, true),
        ("integer", 5, -1, false),
        ("smallint", -32768, -1, true),
        ("smallint", -32769, -1, false),
        ("bigint", i64::MAX, 1, true),
        ("bigint", i64::MIN, -1, true),
    ] {
        let mut table = empty_table();
        let mut column = column(ty(declared));
        column.nullable = false;
        column.identity = Some(identity(&column.ty, seed, increment));
        table.columns.push(("id".to_owned(), column));
        let found = table_problems(&tname("app.t"), &table);
        assert_eq!(
            found.is_empty(),
            accepted,
            "`{declared}` starting at {seed} by {increment}: {found:?}"
        );
    }
}

#[test]
fn validating_a_table_reports_every_type_it_cannot_spell() {
    let mut table = empty_table();
    for (name, ty_) in [("a", "widget"), ("b", "timestamp(3)"), ("c", "integer")] {
        table
            .columns
            .push((name.to_owned(), column(ty(ty_))));
    }
    let found = table_problems(&tname("app.t"), &table);
    assert_eq!(found.len(), 2, "{found:?}");
}

#[test]
fn a_parameter_list_that_creates_another_identity_is_refused_offline() {
    for (key, definition) in [
        (
            "app.f(integer)",
            "(x text) RETURNS int LANGUAGE sql AS $$ SELECT 1 $$",
        ),
        (
            "app.f(integer)",
            "(a integer, b text) RETURNS int LANGUAGE sql AS $$ SELECT 1 $$",
        ),
        (
            "app.f(integer)",
            "() RETURNS int LANGUAGE sql AS $$ SELECT 1 $$",
        ),
        (
            "app.f(integer)",
            "(a out integer) LANGUAGE sql AS $$ SELECT 1 $$",
        ),
        (
            "app.f(integer)",
            "(a numeric(10, 2)) RETURNS int LANGUAGE sql AS $$ SELECT 1 $$",
        ),
        (
            "app.f(md.my_type)",
            "(a other.my_type) RETURNS int LANGUAGE sql AS $$ SELECT 1 $$",
        ),
        (
            "app.f(app.precision)",
            "(double precision) RETURNS int LANGUAGE sql AS $$ SELECT 1 $$",
        ),
        (
            "app.f(integer)",
            "(a text = ')') RETURNS int LANGUAGE sql AS $$ SELECT 1 $$",
        ),
        (
            "app.f(integer)",
            "RETURNS int LANGUAGE sql AS $$ SELECT 1 $$",
        ),
    ] {
        let found = validated(&id(key), &module(ModuleKind::Function, definition));
        assert!(
            !found.is_empty(),
            "`{key}` with `{definition}` was accepted, and the engine would create another \
             object under this key"
        );
    }
}

#[test]
fn an_argument_type_the_engine_would_truncate_is_refused_before_it_is_created() {
    let at = "t".repeat(MAX_IDENT_BYTES);
    let over = format!("{at}x");
    for (key, definition) in [
        (
            format!("app.f(app.{over})"),
            format!("(a app.{over}) RETURNS int LANGUAGE sql AS $$ SELECT 1 $$"),
        ),
        (
            format!("app.p(app.\"{over}\"[])"),
            format!("(a app.\"{over}\"[]) LANGUAGE sql AS $$ SELECT 1 $$"),
        ),
    ] {
        let kind = if key.starts_with("app.p") {
            ModuleKind::Procedure
        } else {
            ModuleKind::Function
        };
        let found = validated(&id(&key), &module(kind, &definition));
        assert!(
            found
                .iter()
                .any(|e| e.message().contains("over 63 bytes")),
            "`{key}` was accepted, and the engine would truncate it: {found:?}"
        );
    }
    let key = format!("app.f(app.{at})");
    let found = validated(
        &id(&key),
        &module(
            ModuleKind::Function,
            &format!("(a app.{at}) RETURNS int LANGUAGE sql AS $$ SELECT 1 $$"),
        ),
    );
    assert!(found.is_empty(), "{found:?}");
}

#[test]
fn a_parameter_list_that_creates_the_declared_identity_is_accepted() {
    for (key, definition) in [
        (
            "app.f(integer)",
            "(x integer) RETURNS int LANGUAGE sql AS $$ SELECT 1 $$",
        ),
        (
            "app.f(integer)",
            "(integer) RETURNS int LANGUAGE sql AS $$ SELECT $1 $$",
        ),
        (
            "app.f(integer)",
            "(foo$tag$ integer) RETURNS int LANGUAGE sql AS $$ SELECT foo$tag$ $$",
        ),
        (
            "app.f(integer, text)",
            "(a$ integer, b$c$ text DEFAULT $x$a$x$) RETURNS int LANGUAGE sql AS $$ SELECT 1 $$",
        ),
        (
            "app.f(integer)",
            "(a int DEFAULT 3) RETURNS int LANGUAGE sql AS $$ SELECT 1 $$",
        ),
        (
            "app.f(numeric)",
            "(a numeric(10, 2)) RETURNS int LANGUAGE sql AS $$ SELECT 1 $$",
        ),
        (
            "app.f(character varying)",
            "(a character varying(5)) RETURNS int LANGUAGE sql AS $$ SELECT 1 $$",
        ),
        (
            "app.f(double precision)",
            "(a double precision) RETURNS int LANGUAGE sql AS $$ SELECT 1 $$",
        ),
        (
            "app.f(double precision)",
            "(double precision) RETURNS int LANGUAGE sql AS $$ SELECT $1 $$",
        ),
        ("app.f()", "(out x text) LANGUAGE sql AS $$ SELECT 'q' $$"),
        (
            "app.f(integer)",
            "(a integer, out b text) LANGUAGE sql AS $$ SELECT 'q' $$",
        ),
        (
            "app.f(integer)",
            "(a inout integer) LANGUAGE sql AS $$ SELECT 1 $$",
        ),
        (
            "app.f(text[])",
            "(variadic a text[]) RETURNS int LANGUAGE sql AS $$ SELECT 1 $$",
        ),
        ("app.f()", "(a out integer) LANGUAGE sql AS $$ SELECT 1 $$"),
        (
            "app.f()",
            "(/* note */ out value integer) LANGUAGE sql AS $$ SELECT 1 $$",
        ),
        (
            "app.f(integer)",
            "(-- which one\n a integer) RETURNS int LANGUAGE sql AS $$ SELECT 1 $$",
        ),
        (
            "app.f()",
            "(value /* note */ out integer) LANGUAGE sql AS $$ SELECT 1 $$",
        ),
        (
            "app.f()",
            "(out /* note */ value integer) LANGUAGE sql AS $$ SELECT 1 $$",
        ),
        (
            "app.f()",
            "(value out /* note */ integer) LANGUAGE sql AS $$ SELECT 1 $$",
        ),
        (
            "app.f()",
            "(value\n-- line comment\nout integer) LANGUAGE sql AS $$ SELECT 1 $$",
        ),
        (
            "app.f(integer)",
            "(in /* note */ x /* note */ int) RETURNS int LANGUAGE sql AS $$ SELECT 1 $$",
        ),
        (
            "app.f(md.x\u{a0}, integer)",
            "(a md.x\u{a0}, b integer) RETURNS int LANGUAGE sql AS $$ SELECT 1 $$",
        ),
        (
            "app.f(md.x\u{a0})",
            "(a md.x\u{a0} DEFAULT NULL) RETURNS int LANGUAGE sql AS $$ SELECT 1 $$",
        ),
        (
            "app.f(integer)",
            "(a integer /* trailing */) RETURNS int LANGUAGE sql AS $$ SELECT 1 $$",
        ),
        (
            "app.f(md.my_type)",
            "(a my_type) RETURNS int LANGUAGE sql AS $$ SELECT 1 $$",
        ),
        (
            "app.f(md.my_type[])",
            "(a my_type[]) RETURNS int LANGUAGE sql AS $$ SELECT 1 $$",
        ),
        (
            "app.f(integer)",
            "(\"a,b\" integer) RETURNS int LANGUAGE sql AS $$ SELECT 1 $$",
        ),
        (
            "app.f(integer,text)",
            "(a integer, b text DEFAULT ',)') RETURNS int LANGUAGE sql AS $$ SELECT 1 $$",
        ),
        ("app.f()", "() RETURNS int LANGUAGE sql AS $$ SELECT 1 $$"),
        (
            "app.f(integer)",
            "/* the id */ (a integer) RETURNS int LANGUAGE sql AS $$ SELECT 1 $$",
        ),
    ] {
        let found = validated(&id(key), &module(ModuleKind::Function, definition));
        assert!(
            found.is_empty(),
            "`{key}` with `{definition}` was refused: {:?}",
            found.iter().map(DialectError::message).collect::<Vec<_>>()
        );
    }
}

#[test]
fn a_parameter_this_scan_cannot_read_is_not_read_as_a_disagreement() {
    for (key, definition) in [
        (
            "app.f(integer)",
            "(a t%rowtype) RETURNS int LANGUAGE sql AS $$ SELECT 1 $$",
        ),
        (
            "app.f(\"odd type\")",
            "(a \"odd type\") RETURNS int LANGUAGE sql AS $$ SELECT 1 $$",
        ),
    ] {
        let found = validated(&id(key), &module(ModuleKind::Function, definition));
        assert!(
            found.is_empty(),
            "`{key}` with `{definition}` was refused on a spelling this dialect cannot read: \
             {:?}",
            found.iter().map(DialectError::message).collect::<Vec<_>>()
        );
    }
}

#[test]
fn each_kind_is_created_with_the_prefix_its_grammar_allows() {
    let pg = Postgres::new();
    let cases = [
        (
            id("app.v"),
            module(ModuleKind::View, "SELECT id FROM app.t"),
            "CREATE VIEW \"app\".\"v\" AS\nSELECT id FROM app.t",
        ),
        (
            id("app.v"),
            module(ModuleKind::View, " \n SELECT 1 AS x\u{a0}\n "),
            "CREATE VIEW \"app\".\"v\" AS\nSELECT 1 AS x\u{a0}",
        ),
        (
            id("app.f(integer)"),
            module(
                ModuleKind::Function,
                "(a integer) RETURNS integer AS $$ SELECT a $$",
            ),
            "CREATE FUNCTION \"app\".\"f\"\n(a integer) RETURNS integer AS $$ SELECT a $$",
        ),
        (
            id("app.p(integer)"),
            module(
                ModuleKind::Procedure,
                "(a integer) LANGUAGE sql AS $$ SELECT 1 $$",
            ),
            "CREATE PROCEDURE \"app\".\"p\"\n(a integer) LANGUAGE sql AS $$ SELECT 1 $$",
        ),
        (
            id("app.t.audit"),
            module(
                ModuleKind::Trigger,
                "AFTER INSERT ON app.t FOR EACH ROW EXECUTE FUNCTION app.trf()",
            ),
            "CREATE TRIGGER \"audit\"\nAFTER INSERT ON app.t FOR EACH ROW EXECUTE FUNCTION \
             app.trf()",
        ),
    ];
    for (id, m, expected) in cases {
        let sql = sql_of(
            &pg,
            &Change::CreateModule {
                id: id.clone(),
                module: m,
            },
        );
        assert_eq!(
            sql,
            vec![format!(
                "SET search_path = \"app\";\n{expected}\n;\nRESET search_path;"
            )],
            "{id:?}"
        );
    }
}

#[test]
fn a_module_change_is_a_drop_and_a_create_and_never_a_replace() {
    let pg = Postgres::new();
    let sql = sql_of(
        &pg,
        &Change::AlterModule {
            id: id("app.f(integer, text)"),
            module: module(
                ModuleKind::Function,
                "(a integer, b text) RETURNS int",
            ),
        },
    );
    assert_eq!(sql.len(), 2, "{sql:?}");
    assert!(
        sql[0].contains("DROP FUNCTION \"app\".\"f\"(integer, text);"),
        "{}",
        sql[0]
    );
    assert!(
        sql[1].contains("CREATE FUNCTION \"app\".\"f\""),
        "{}",
        sql[1]
    );
    assert!(
        !sql.iter().any(|s| s.to_uppercase().contains("OR REPLACE")),
        "{sql:?}"
    );
}

#[test]
fn a_drop_names_exactly_one_object_on_an_engine_that_overloads() {
    let pg = Postgres::new();
    let cases = [
        (id("app.v"), ModuleKind::View, "DROP VIEW \"app\".\"v\";"),
        (
            id("app.f(character varying, integer[])"),
            ModuleKind::Function,
            "DROP FUNCTION \"app\".\"f\"(character varying, integer[]);",
        ),
        (
            id("app.f()"),
            ModuleKind::Procedure,
            "DROP PROCEDURE \"app\".\"f\"();",
        ),
        (
            id("app.t.audit"),
            ModuleKind::Trigger,
            "DROP TRIGGER \"audit\" ON \"app\".\"t\";",
        ),
    ];
    for (id, kind, expected) in cases {
        let sql = sql_of(
            &pg,
            &Change::DropModule {
                id: id.clone(),
                kind,
            },
        );
        assert_eq!(sql.len(), 1, "{id:?}");
        assert!(sql[0].contains(expected), "{id:?}: {}", sql[0]);
    }
}

#[test]
fn no_module_statement_offers_cascade() {
    let pg = Postgres::new();
    let changes = [
        Change::DropModule {
            id: id("app.v"),
            kind: ModuleKind::View,
        },
        Change::DropModule {
            id: id("app.f(integer)"),
            kind: ModuleKind::Function,
        },
        Change::DropModule {
            id: id("app.t.audit"),
            kind: ModuleKind::Trigger,
        },
        Change::AlterModule {
            id: id("app.v"),
            module: module(ModuleKind::View, "SELECT 1"),
        },
    ];
    for change in changes {
        for sql in sql_of(&pg, &change) {
            assert!(!sql.to_uppercase().contains("CASCADE"), "{sql}");
        }
    }
}

#[test]
fn a_unicode_escaped_identifier_decodes_the_way_the_engine_reads_it() {
    for (written, name) in [
        ("U&\"d\\0061t\\+000061\"", "data"),
        ("U&\"a\\\\b\"", "a\\b"),
        ("U&\"\\D83D\\DE00\"", "😀"),
        ("u&\"a\"\"b\"", "a\"b"),
        ("U&\"Ätype\"", "Ätype"),
    ] {
        assert_eq!(unquoted(written, '\\').as_deref(), Some(name), "{written}");
    }
    assert_eq!(unquoted("U&\"!0074\"", '!').as_deref(), Some("t"));
    for malformed in [
        "U&\"\\00G1\"",
        "U&\"\\D83D\"",
        "U&\"\\DE00\"",
        "U&\"\\D83Dx\"",
    ] {
        assert_eq!(unquoted(malformed, '\\'), None, "{malformed}");
    }
    assert_eq!(uescape_len("UESCAPE '!' FOR"), Some(11));
    assert_eq!(uescape_len("uescape  '!'"), Some(12));
    for not_one in [
        "UESCAPE '+'",
        "UESCAPE 'a'",
        "UESCAPE ''",
        "UESCAPED '!'",
        "ON app.t",
    ] {
        assert_eq!(uescape_len(not_one), None, "{not_one}");
    }
}

#[test]
fn a_trigger_whose_body_names_another_table_is_refused_offline() {
    for body in [
        "AFTER INSERT ON app.other FOR EACH ROW EXECUTE FUNCTION app.trf()",
        "AFTER UPDATE OF t ON app.other FOR EACH ROW EXECUTE FUNCTION app.trf()",
        "AFTER INSERT ON other FOR EACH ROW EXECUTE FUNCTION app.trf()",
        "AFTER INSERT ON elsewhere.t FOR EACH ROW EXECUTE FUNCTION app.trf()",
        "AFTER INSERT ON app . other FOR EACH ROW EXECUTE FUNCTION app.trf()",
        "AFTER INSERT ON U&\"app\".U&\"\\006Fther\" FOR EACH ROW EXECUTE FUNCTION app.trf()",
    ] {
        let found = validated(&id("app.t.audit"), &module(ModuleKind::Trigger, body));
        assert_eq!(found.len(), 1, "{body}: {found:?}");
        assert!(
            found[0].message().contains("app.t"),
            "{body}: {:?}",
            found[0]
        );
    }

    for body in [
        "FOR EACH ROW EXECUTE FUNCTION app.trf()",
        "AFTER INSERT /* on app.t */ WHEN (new.a = 'on app.t') FOR EACH ROW EXECUTE \
         FUNCTION app.trf()",
    ] {
        let found = validated(&id("app.t.audit"), &module(ModuleKind::Trigger, body));
        assert_eq!(found.len(), 1, "{body}: {found:?}");
        assert!(
            found[0].message().contains("cannot find an `ON"),
            "{body}: {:?}",
            found[0]
        );
    }

    for body in [
        "AFTER INSERT ON app.t FOR EACH ROW EXECUTE FUNCTION app.trf()",
        "AFTER INSERT ON t FOR EACH ROW EXECUTE FUNCTION trf()",
        "AFTER INSERT ON APP.T FOR EACH ROW EXECUTE FUNCTION app.trf()",
        "AFTER INSERT ON \"app\".\"t\" FOR EACH ROW EXECUTE FUNCTION app.trf()",
        "AFTER UPDATE OF other ON app.t FOR EACH ROW EXECUTE FUNCTION app.trf()",
        "AFTER UPDATE OF \"on\" ON app.t FOR EACH ROW EXECUTE FUNCTION app.trf()",
        "AFTER UPDATE OF \"a on b\" ON app.t FOR EACH ROW EXECUTE FUNCTION app.trf()",
        "AFTER INSERT ON app . t FOR EACH ROW EXECUTE FUNCTION app.trf()",
        "AFTER INSERT ON app /* schema */ .\n  t FOR EACH ROW EXECUTE FUNCTION app.trf()",
        "AFTER INSERT ON \"app\" . \"t\" FOR EACH ROW EXECUTE FUNCTION app.trf()",
        "AFTER INSERT ON /* c */ app.t FOR EACH ROW EXECUTE FUNCTION app.trf()",
        "AFTER INSERT ON\n-- c\napp.t FOR EACH ROW EXECUTE FUNCTION app.trf()",
        "AFTER INSERT ON U&\"app\".U&\"\\0074\" FOR EACH ROW EXECUTE FUNCTION app.trf()",
        "AFTER INSERT ON u&\"app\".\"t\" FOR EACH ROW EXECUTE FUNCTION app.trf()",
        "AFTER INSERT ON U&\"app\".U&\"!0074\" UESCAPE '!' FOR EACH ROW EXECUTE FUNCTION \
         app.trf()",
        "AFTER INSERT ON U&\"\\0061pp\" UESCAPE '\\'.U&\"\\+000074\" FOR EACH ROW EXECUTE \
         FUNCTION app.trf()",
        "AFTER INSERT -- on app.other\nON app.t FOR EACH ROW EXECUTE FUNCTION app.trf()",
        "AFTER INSERT ON app.t FOR EACH ROW WHEN (new.a = 'on app.other') EXECUTE \
         FUNCTION app.trf()",
    ] {
        assert!(
            validated(&id("app.t.audit"), &module(ModuleKind::Trigger, body))
                .is_empty(),
            "{body}"
        );
    }
}

#[test]
fn a_module_with_no_definition_is_refused_by_both_gates() {
    let empty = module(ModuleKind::View, "  \n ");
    let found = validated(&id("app.v"), &empty);
    assert_eq!(found.len(), 1, "{found:?}");
    assert!(
        found[0].message().contains("empty definition"),
        "{:?}",
        found[0]
    );
    let refused = Postgres::new().emit(
        &Change::CreateModule {
            id: id("app.v"),
            module: empty,
        },
        Strategy::default(),
    );
    assert!(refused.is_err(), "an empty definition emitted a statement");
}

#[test]
fn every_statement_sets_the_write_path_and_gives_it_back() {
    let pg = Postgres::with_write_path_extras(vec!["shared".into(), "public".into()]);
    let sql = sql_of(
        &pg,
        &Change::DropTable {
            name: name("app", "t"),
        },
    );
    assert_eq!(
        sql,
        vec![
            "SET search_path = \"app\", \"shared\", \"public\";\n\
             DROP TABLE \"app\".\"t\";\n\
             RESET search_path;"
        ]
    );
}

#[test]
fn the_path_of_an_unconfigured_project_is_the_objects_own_schema() {
    let sql = sql_of(
        &Postgres::new(),
        &Change::DropIndex {
            table: name("app", "t"),
            name: "ix".into(),
        },
    );
    assert_eq!(
        sql,
        vec!["SET search_path = \"app\";\nDROP INDEX \"app\".\"ix\";\nRESET search_path;"]
    );
}

#[test]
fn the_one_schema_a_path_cannot_name_is_refused_from_either_end() {
    let drop_it = |pg: &Postgres, schema: &str| {
        pg.emit(
            &Change::DropTable {
                name: name(schema, "t"),
            },
            Strategy::default(),
        )
    };
    for (pg, schema) in [
        (Postgres::new(), "$user"),
        (
            Postgres::with_write_path_extras(vec!["$user".into()]),
            "app",
        ),
    ] {
        let refusal = drop_it(&pg, schema).expect_err("the path would not mean this");
        assert!(refusal.message().contains("$user"), "{refusal:?}");
    }
    for (pg, schema) in [
        (Postgres::new(), "$users"),
        (Postgres::new(), "$USER"),
        (Postgres::with_write_path_extras(vec!["user".into()]), "app"),
    ] {
        assert!(
            drop_it(&pg, schema).is_ok(),
            "`{schema}` is an ordinary name"
        );
    }
}

#[test]
fn the_one_schema_a_path_must_leave_out_is_refused_wherever_it_is_written() {
    let drop_it = |pg: &Postgres, schema: &str| {
        pg.emit(
            &Change::DropTable {
                name: name(schema, "t"),
            },
            Strategy::default(),
        )
    };
    for (pg, schema) in [
        (Postgres::new(), "pg_catalog"),
        (
            Postgres::with_write_path_extras(vec!["pg_catalog".into()]),
            "app",
        ),
        (
            Postgres::with_write_path_extras(vec!["shared".into(), "pg_catalog".into()]),
            "app",
        ),
    ] {
        let refusal = drop_it(&pg, schema).expect_err("the path would not mean this");
        assert!(refusal.message().contains("pg_catalog"), "{refusal:?}");
    }
    for (pg, schema) in [
        (Postgres::new(), "pg_catalogue"),
        (
            Postgres::with_write_path_extras(vec!["shared".into()]),
            "app",
        ),
    ] {
        assert!(
            drop_it(&pg, schema).is_ok(),
            "`{schema}` is an ordinary path"
        );
    }
}

#[test]
fn an_extra_that_cannot_be_an_identifier_refuses_the_statement() {
    let pg = Postgres::with_write_path_extras(vec![String::new()]);
    let refusal = pg
        .emit(
            &Change::DropTable {
                name: name("app", "t"),
            },
            Strategy::default(),
        )
        .expect_err("an empty schema name is not an identifier");
    assert!(
        matches!(refusal, DialectError::UnquotableIdent(_)),
        "{refusal:?}"
    );
}

#[test]
fn a_type_change_the_engine_or_the_session_would_decide_is_refused_by_name() {
    let pg = Postgres::new();
    for (from, to, named) in [
        ("timestamp", "timestamptz", "time zone"),
        ("timestamptz", "timestamp", "time zone"),
        ("date", "timestamptz", "time zone"),
        ("timestamptz", "timetz", "time zone"),
        ("character varying(10)", "integer", "USING"),
    ] {
        let refusal = pg
            .emit(&retype(from, to), Strategy::default())
            .expect_err("neither conversion is pbps's to choose");
        let DialectError::Invalid { message, .. } = &refusal else {
            panic!("`{from}` -> `{to}`: {refusal:?}");
        };
        assert!(message.contains(named), "`{from}` -> `{to}`: {message}");
        assert!(message.contains("at"), "`{from}` -> `{to}`: {message}");
    }
    assert_eq!(
        sql_of(
            &pg,
            &retype("character varying(10)", "character varying(20)")
        ),
        vec![
            "SET search_path = \"app\";\n\
             ALTER TABLE \"app\".\"t\" ALTER COLUMN \"at\" TYPE character varying(20);\n\
             RESET search_path;"
        ]
    );
}

#[test]
fn a_created_table_names_the_access_method_it_will_be_read_back_under() {
    let mut table = empty_table();
    table
        .columns
        .push(("id".into(), not_null(column(ty("integer")))));
    let sql = sql_of(
        &Postgres::new(),
        &Change::CreateTable {
            name: name("app", "t"),
            table: table,
        },
    );
    assert_eq!(
        sql,
        vec![
            "SET search_path = \"app\";\n\
             CREATE TABLE \"app\".\"t\" (\n\
             \x20   \"id\" integer NOT NULL\n\
             ) USING heap;\n\
             RESET search_path;"
        ]
    );
}

#[test]
fn only_a_whole_bare_literal_is_one() {
    for yes in [
        "'2026-01-02'",
        "  '2026-01-02'  ",
        "''",
        "'it''s'",
        r"E'2026-01-02'",
        r"e'it\'s'",
        "N'2026-01-02'",
        "n'2026-01-02'",
        "(N') ')",
        "$$2026-01-02$$",
        "$d$2026-01-02$d$",
        "$a\u{301}$01/02/2026$a\u{301}$",
        "('01/02/2026')",
        "'01/02/'\n'2026'",
        "E'01/02/'\n'2026'",
        "U&'01/02/'\n'2026'",
        "'01/02/'\n  \n  '2026'",
        "'01/'\n'02/'\n'2026'",
        "  ( ( '01/02/2026' ) )  ",
        "($$01/02/2026$$)",
        "U&'2026-01-02'",
        "'01/02/' -- split here\n'2026'",
        "'01/02/' --\n'2026'",
        "'01/02/' -- /* x\n'2026'",
        "'2026-01-02' -- trailing",
        "'2026-01-02' /* trailing */",
        "/* leading */ '2026-01-02'",
        "(/* inside the grouping */ '2026-01-02')",
        "$$2026-01-02$$ -- trailing",
        "'01/02/'\r'2026'",
        "'01/02/'\r\n'2026'",
        "'01/02/' -- c\r'2026'",
        "( -- )\r '01/02/2026')",
        "('01/02/2026') -- note",
        "('01/02/2026') /* note */",
        "(('01/02/2026') -- inner\n) -- outer",
        "$$01/02/2026$$ /* note */",
        "(/* ) */ '01/02/2026')",
        "('01/02/2026' /* ( */)",
        "('01/02/2026' -- (\n)",
        "($$01/02/2026$$ /* ) */)",
    ] {
        assert!(is_a_bare_literal(yes), "{yes}");
    }
    for no in [
        "'2026-01-02'::date",
        "DATE '2026-01-02'",
        "'a' || 'b'",
        "now()",
        "'a', 'b'",
        "",
        "'",
        "current_date",
        r"E'a' || E'b'",
        "$$a$$ || $$b$$",
        r"E'a\'",
        "$1$a$1$",
        "$d$a$e$",
        "$1a$b$1a$",
        "('a') || ('b')",
        "'01/02/' '2026'",
        "'01/02/'\nE'2026'",
        "$$01/02/$$\n$$2026$$",
        "'a'\n|| 'b'",
        "('a')::date",
        "('a'",
        "('(') || (b)",
        "(/* ( */ 'a') || ('b')",
        "U&'a' UESCAPE '!'",
        "'01/02/' /* c */\n'2026'",
        "'01/02/' /* c */\r'2026'",
        "('a') || ('b') -- note",
        "('01/02/2026') /* unterminated",
        "'01/02/'\n/* c */ '2026'",
        "'01/02/' /* /* x */ */\n'2026'",
        "'01/02/' /* -- x\n*/ '2026'",
        "'2026-01-02' /* unterminated",
        "$$01/02/$$ -- c\n$$2026$$",
        "'01/02/' -- c\nE'2026'",
        "'a' -- c\n|| 'b'",
    ] {
        assert!(!is_a_bare_literal(no), "{no}");
    }
}

#[test]
fn an_identity_is_generated_always_and_leaves_the_sequence_at_its_defaults() {
    let mut table = empty_table();
    let mut id = not_null(column(ty("bigint")));
    id.identity = Some(identity(&id.ty, 7, 3));
    table.columns.push(("id".into(), id));
    let sql = sql_of(
        &Postgres::new(),
        &Change::CreateTable {
            name: name("app", "t"),
            table: table,
        },
    );
    assert!(
        sql[0].contains("GENERATED ALWAYS AS IDENTITY (START WITH 7 INCREMENT BY 3)"),
        "{}",
        sql[0]
    );
    assert!(
        !sql[0].contains("MINVALUE") && !sql[0].contains("CACHE"),
        "{}",
        sql[0]
    );
}

#[test]
fn a_change_the_database_cannot_hold_emits_nothing_rather_than_pretending() {
    let deprecated = Change::SetColumnDeprecated {
        column: name("app", "t").column("c"),
        reason: Some("gone in March".into()),
    };
    let mode = Change::SetDataMode {
        table: name("app", "t"),
    };
    for change in [deprecated, mode] {
        assert!(
            Postgres::new()
                .emit(&change, Strategy::default())
                .expect("emit")
                .is_empty()
        );
    }
}

#[test]
fn a_referential_action_is_spelled_only_when_it_is_not_the_default() {
    let fk = |on_delete, on_update| ForeignKey {
        columns: vec!["a".into()],
        references_table: name("app", "parent"),
        references_columns: vec!["b".into()],
        on_delete,
        on_update,
    };
    let emit = |fk| {
        sql_of(
            &Postgres::new(),
            &Change::AddForeignKey {
                table: name("app", "t"),
                name: "fk".into(),
                constraint: fk,
            },
        )
        .remove(0)
    };
    let quiet = emit(fk(ReferentialAction::NoAction, ReferentialAction::NoAction));
    assert!(
        !quiet.contains("ON DELETE") && !quiet.contains("ON UPDATE"),
        "{quiet}"
    );
    let loud = emit(fk(
        ReferentialAction::SetDefault,
        ReferentialAction::Cascade,
    ));
    assert!(loud.contains("ON DELETE SET DEFAULT"), "{loud}");
    assert!(loud.contains("ON UPDATE CASCADE"), "{loud}");
}

#[test]
fn a_name_that_needs_quoting_is_quoted_in_both_positions() {
    let sql = sql_of(
        &Postgres::new(),
        &Change::SetPrimaryKey {
            table: name("odd schema", "it's"),
            from: Some(PrimaryKey {
                name: None,
                columns: vec!["id".into()],
            }),
            to: None,
        },
    );
    let block = &sql[0];
    assert!(
        block.contains("SET search_path = \"odd schema\";"),
        "{block}"
    );
    assert!(
        block.contains("'\"odd schema\".\"it''s\"'::pg_catalog.regclass"),
        "{block}"
    );
    assert!(
        block.contains(
            "pg_catalog.format('ALTER TABLE \"odd schema\".\"it''s\" DROP CONSTRAINT %I', pk)"
        ),
        "{block}"
    );
    assert!(
        block.starts_with("SET search_path = \"odd schema\";\nDO $pbps$\n"),
        "{block}"
    );
}

#[test]
fn a_name_that_spells_the_dollar_tag_does_not_end_the_block() {
    let sql = sql_of(
        &Postgres::new(),
        &Change::SetPrimaryKey {
            table: name("app", "x$pbps$y"),
            from: Some(PrimaryKey {
                name: None,
                columns: vec!["id".into()],
            }),
            to: None,
        },
    );
    let block = &sql[0];
    assert!(block.contains("DO $pbps1$"), "{block}");
    assert_eq!(block.matches("$pbps1$").count(), 2, "{block}");
}

#[test]
fn only_the_concurrent_index_leaves_the_scope_off() {
    let index = Index {
        columns: vec![IndexColumn {
            name: "n".into(),
            descending: true,
        }],
        include_columns: vec!["m".into()],
        unique: true,
        filter: None,
    };
    let change = Change::AddIndex {
        table: name("app", "t"),
        name: "ix".into(),
        index: index,
    };
    let offline = sql_of(&Postgres::new(), &change).remove(0);
    assert!(
        offline.starts_with("SET search_path = \"app\";"),
        "{offline}"
    );
    assert!(
        offline.contains(
            "CREATE UNIQUE INDEX \"ix\" ON \"app\".\"t\" (\"n\" DESC) INCLUDE (\"m\");"
        ),
        "{offline}"
    );
    let online = Postgres::new()
        .emit(&change, Strategy { online: true })
        .expect("emit")
        .remove(0);
    assert_eq!(
        online.sql,
        "CREATE UNIQUE INDEX CONCURRENTLY \"ix\" ON \"app\".\"t\" (\"n\" DESC) INCLUDE (\"m\");"
    );
}

#[test]
fn a_declared_expression_is_emitted_verbatim() {
    let sql = sql_of(
        &Postgres::new(),
        &Change::AddCheck {
            table: name("app", "t"),
            name: "ck".into(),
            constraint: CheckConstraint {
                expression: "(n > 0)".into(),
            },
        },
    )
    .remove(0);
    assert!(
        sql.contains("ADD CONSTRAINT \"ck\" CHECK ((n > 0)\n);"),
        "{sql}"
    );

    for (expression, tail) in [
        ("n > 0 -- reason", "-- reason\n);"),
        ("n > 0 /* reason */", "/* reason */\n);"),
    ] {
        let sql = sql_of(
            &Postgres::new(),
            &Change::AddCheck {
                table: name("app", "t"),
                name: "ck".into(),
                constraint: CheckConstraint {
                    expression: expression.into(),
                },
            },
        )
        .remove(0);
        assert!(sql.contains(tail), "{expression}: {sql}");
    }

    let mut column = column(ty("integer"));
    column.default = Some(declared_default("1 -- why"));
    let mut table = empty_table();
    table.columns.push(("n".into(), column.clone()));
    let created = sql_of(
        &Postgres::new(),
        &Change::CreateTable {
            name: name("app", "t"),
            table: table,
        },
    )
    .remove(0);
    assert!(created.contains("DEFAULT 1 -- why\n"), "{created}");
    let added = sql_of(
        &Postgres::new(),
        &Change::AddColumn {
            table: name("app", "t"),
            name: "n".into(),
            column: column,
        },
    )
    .remove(0);
    assert!(added.contains("DEFAULT 1 -- why\n"), "{added}");
    let set = sql_of(
        &Postgres::new(),
        &Change::AlterColumnDefault {
            column: name("app", "t").column("n"),
            from: None,
            to: Some("1 -- why".into()),
        },
    )
    .remove(0);
    assert!(set.contains("SET DEFAULT 1 -- why\n;"), "{set}");
    let indexed = sql_of(
        &Postgres::new(),
        &Change::AddIndex {
            table: name("app", "t"),
            name: "ix".into(),
            index: Index {
                columns: vec![IndexColumn {
                    name: "n".into(),
                    descending: false,
                }],
                include_columns: vec![],
                unique: false,
                filter: Some("n > 0 -- why".into()),
            },
        },
    )
    .remove(0);
    assert!(indexed.contains("WHERE (n > 0 -- why\n);"), "{indexed}");
}

#[test]
fn a_table_with_no_columns_is_refused_by_name() {
    let refusal = Postgres::new()
        .emit(
            &Change::CreateTable {
                name: name("app", "empty"),
                table: empty_table(),
            },
            Strategy::default(),
        )
        .expect_err("no columns");
    assert!(refusal.message().contains("app.empty"), "{refusal:?}");
}

#[test]
fn a_table_this_plan_renames_is_measured_under_the_name_the_catalog_has() {
    let cs = ChangeSet {
        changes: vec![
            Change::RenameTable {
                from: tname("app.client"),
                to: tname("app.customer"),
            },
            retyped(cref("app.customer.v"), "integer", "bigint", true),
            Change::RenameColumn {
                table: tname("app.customer"),
                from: "v".into(),
                to: "amount".into(),
            },
            retyped(cref("app.invoice.v"), "integer", "bigint", true),
        ],
    };
    let got: Vec<(String, String)> = estimates(&cs, Strategy::default())
        .iter()
        .map(|e| (e.table.show(), e.stored().show()))
        .collect();
    assert_eq!(
        got,
        [
            ("app.client".to_owned(), "app.client".to_owned()),
            ("app.customer".to_owned(), "app.client".to_owned()),
            ("app.customer".to_owned(), "app.client".to_owned()),
            ("app.invoice".to_owned(), "app.invoice".to_owned()),
        ],
        "the plan's name to read, the catalog's name to measure"
    );
}

#[test]
fn only_a_target_that_constrains_no_byte_avoids_the_rebuild() {
    for (from, to) in [
        ("character varying(5)", "character varying(10)"),
        ("character varying(5)", "character varying"),
        ("character varying(5)", "text"),
        ("character varying", "text"),
        ("text", "character varying"),
        ("numeric(10,2)", "numeric"),
        ("numeric(10,2)", "numeric(12,2)"),
        ("integer", "integer"),
    ] {
        assert_eq!(
            rewrites(&ty(from), &ty(to), false),
            Rewrite::No,
            "{from} -> {to} rewrites nothing"
        );
    }
    for (from, to) in [
        ("integer", "bigint"),
        ("bigint", "integer"),
        ("real", "double precision"),
        ("numeric(10,2)", "numeric(10,4)"),
        ("numeric", "numeric(10,2)"),
        ("character(5)", "character(10)"),
        ("character(5)", "text"),
        ("character varying(10)", "character varying(5)"),
        ("character varying(10)", "character(10)"),
        ("text", "character varying(20)"),
        ("jsonb", "json"),
        ("json", "jsonb"),
        ("date", "timestamp"),
    ] {
        assert_eq!(
            rewrites(&ty(from), &ty(to), false),
            Rewrite::Yes,
            "{from} -> {to} rebuilds the table"
        );
    }
}

#[test]
fn a_cost_the_session_decides_is_unknown_and_says_which_setting() {
    let Rewrite::Unknown(why) = rewrites(&ty("timestamp"), &ty("timestamptz"), true) else {
        panic!("the session's TimeZone decides this one");
    };
    assert!(why.contains("TimeZone"), "{why}");
}

#[test]
fn rewriting_nothing_is_not_the_same_as_reading_nothing() {
    let tightened = estimate(
        &Change::AlterColumnNullability {
            column: cref("app.t.v"),
            to_nullable: false,
        },
        Strategy::default(),
    )
    .expect("an estimate");
    assert_eq!(tightened.rewrite, Rewrite::No);
    assert_eq!(tightened.reads, Reads::EveryRow);
    assert!(
        !tightened.is_cheap(),
        "a full scan under an exclusive lock is not cheap"
    );

    let widened = estimate(
        &retyped(cref("app.t.v"), "varchar(10)", "varchar(20)", true),
        Strategy::default(),
    )
    .expect("an estimate");
    assert_eq!(widened.rewrite, Rewrite::No);
    assert_eq!(widened.reads, Reads::Nothing);
    assert!(widened.is_cheap());
}

#[test]
fn an_unparsed_default_is_never_called_cheap() {
    let column = |default: &str| {
        let mut c = column(ty("uuid"));
        c.default = Some(declared_default(default));
        Change::AddColumn {
            table: tname("app.t"),
            name: "v".into(),
            column: c,
        }
    };
    let guessed =
        estimate(&column("gen_random_uuid()"), Strategy::default()).expect("an estimate");
    assert!(
        matches!(guessed.rewrite, Rewrite::Unknown(_)),
        "{guessed:#?}"
    );
    assert!(!guessed.is_cheap(), "{guessed:#?}");

    let literal = estimate(&column("'2026-01-02'"), Strategy::default()).expect("an estimate");
    assert_eq!(literal.rewrite, Rewrite::No);
    assert!(literal.is_cheap(), "{literal:#?}");
}

#[test]
fn a_foreign_key_names_the_referenced_table_it_also_locks() {
    let change = Change::AddForeignKey {
        table: tname("app.child"),
        name: "fk_child".into(),
        constraint: ForeignKey {
            columns: vec!["parent_id".into()],
            references_table: tname("app.parent"),
            references_columns: vec!["id".into()],
            on_delete: ReferentialAction::NoAction,
            on_update: ReferentialAction::NoAction,
        },
    };
    let e = estimate(&change, Strategy::default()).expect("an estimate");
    assert_eq!(e.lock, Lock::ShareRowExclusive);
    assert_eq!(e.also_locks, [tname("app.parent")]);
    assert_eq!(e.lock.blocks(), "writes");
    let mut self_referencing = change.clone();
    if let Change::AddForeignKey { constraint, .. } = &mut self_referencing {
        constraint.references_table = tname("app.child");
    }
    assert!(
        estimate(&self_referencing, Strategy::default())
            .expect("an estimate")
            .also_locks
            .is_empty()
    );
}

#[test]
fn the_index_lock_is_the_one_the_emitter_will_actually_take() {
    let index = |filter: Option<&str>| Change::AddIndex {
        table: tname("app.t"),
        name: "ix".into(),
        index: Index {
            columns: vec![IndexColumn {
                name: "v".into(),
                descending: false,
            }],
            include_columns: Vec::new(),
            unique: false,
            filter: filter.map(str::to_owned),
        },
    };
    let online = Strategy { online: true };
    let lock = |change: &Change, strategy: Strategy| {
        estimate(change, strategy).expect("an estimate").lock
    };
    assert_eq!(lock(&index(None), Strategy::default()), Lock::Share);
    assert_eq!(
        lock(&index(Some("v > 0")), Strategy::default()),
        Lock::Share
    );
    assert_eq!(lock(&index(None), online), Lock::ShareUpdateExclusive);
    assert_eq!(lock(&index(Some("v > 0")), online), Lock::Share);
    assert_eq!(Lock::Share.blocks(), "writes");
    assert_eq!(
        Lock::ShareUpdateExclusive.blocks(),
        "neither reads nor writes, only other schema changes"
    );
}

#[test]
fn never_analyzed_is_its_own_answer() {
    assert_ne!(Rows::NeverAnalyzed, Rows::Estimated(0));
}

#[test]
fn what_was_not_asked_about_changes_nothing() {
    let id = id("app.t.audit");
    let trigger = module(
        ModuleKind::Trigger,
        "AFTER INSERT ON U&\"app\".U&\"!0074\" UESCAPE '!' FOR EACH ROW EXECUTE FUNCTION app.trf()",
    );
    assert_eq!(
        definition::escapes_in(&trigger.definition),
        [("app".to_owned(), '\\'), ("!0074".to_owned(), '!')]
    );
    let mut readings = Readings {
        decodings: vec![
            Decoding {
                inner: "app".to_owned(),
                escape: '\\',
                decoded: Some("app".to_owned()),
            },
            Decoding {
                inner: "!0074".to_owned(),
                escape: '!',
                decoded: Some("other".to_owned()),
            },
        ],
        spellings: Vec::new(),
    };
    let before = Postgres::new().validate_module(&id, &trigger, &readings);
    assert_eq!(before.len(), 1, "{before:?}");
    readings.decodings.push(Decoding {
        inner: "!0074".to_owned(),
        escape: '?',
        decoded: Some("t".to_owned()),
    });
    readings.spellings.push(Spelling {
        text: "integer".to_owned(),
        read: arg("integer"),
    });
    assert_eq!(
        Postgres::new().validate_module(&id, &trigger, &readings),
        before
    );
    assert_eq!(
        definition::spellings_in("(a integer, b text DEFAULT 'x')"),
        ["a integer", "integer", "b text", "text"]
    );
}

#[test]
fn every_name_of_a_module_that_cannot_be_written_is_refused() {
    let over = "t".repeat(64);
    let view = Module {
        kind: ModuleKind::View,
        definition: "SELECT 1".to_owned(),
    };
    let named = |schema: &str, name: &str| ModuleId::Named(TableName::new(schema, name));
    assert_eq!(validated(&named("app", "v"), &view).len(), 0);
    assert_eq!(validated(&named("", "v"), &view).len(), 1);
    assert_eq!(validated(&named("app", &over), &view).len(), 1);
    assert_eq!(
        validated(&named("", &over), &view),
        [
            DialectError::UnquotableIdent(String::new()),
            DialectError::UnquotableIdent(over.clone())
        ]
    );
}

#[test]
fn the_refusal_of_an_owned_name_says_which_names_are_taken() {
    let mut table = empty_table();
    table.columns.push(("id".into(), column(ty("integer"))));
    let problems = table_problems(&tname("app.__pbps_lock"), &table);
    assert_eq!(
        problems[0].message(),
        invalid(
            "table `app.__pbps_lock` uses the name `__pbps_lock`, which is one of the two this \
             tool owns (SPEC §8.1) and which this dialect's pull hides in every schema. The \
             engine would create the table and no plan could ever see it again. Only these two \
             names are taken: a table of your own called `__pbps_lock_customers`, or anything \
             else beginning with the same letters, is read back normally."
                .to_owned()
        )
        .message()
    );
}

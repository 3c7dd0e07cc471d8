//! What each template of a statement says, piece by piece.
use vstd::prelude::*;

use crate::definition;
use crate::drop_impact;
use crate::emit;
use crate::error;
use crate::estimate;
use crate::granted;
use crate::impact;
use crate::model;
use crate::modules;
use crate::pins;
use crate::sql;
use crate::text;

verus! {

/// Whether a text has no place for an argument.
pub open spec fn is_plain(s: Seq<char>) -> bool {
    forall|i: int| 0 <= i < s.len() ==> (#[trigger] s[i]) != '{'
}

/// A template up to its next place, and that place, filled.
proof fn one_place(t: Seq<char>, from: int, lit: Seq<char>, args: Seq<Seq<char>>, k: int)
    requires
        0 <= from,
        from + lit.len() + 2 <= t.len(),
        t.subrange(from, from + lit.len()) == lit,
        is_plain(lit),
        t[from + lit.len()] == '{',
        t[from + lit.len() + 1] == '}',
        0 <= k < args.len(),
    ensures
        text::filled_from(t, from, args, k) == lit + args[k] + text::filled_from(
            t,
            from + lit.len() + 2,
            args,
            k + 1,
        ),
    decreases lit.len(),
{
    let rest = text::filled_from(t, from + lit.len() + 2, args, k + 1);
    if lit.len() == 0 {
        assert(lit + args[k] =~= args[k]);
    } else {
        assert(t[from] == t.subrange(from, from + lit.len())[0]);
        let next = lit.drop_first();
        assert forall|i: int| 0 <= i < next.len() implies (#[trigger] next[i]) != '{' by {
            assert(next[i] == lit[i + 1]);
        }
        assert(t.subrange(from + 1, from + 1 + next.len()) =~= t.subrange(
            from,
            from + lit.len(),
        ).drop_first());
        one_place(t, from + 1, next, args, k);
        assert(seq![t[from]] + (next + args[k] + rest) =~= lit + args[k] + rest);
    }
}

/// A template behind its last place.
proof fn no_place(t: Seq<char>, from: int, lit: Seq<char>, args: Seq<Seq<char>>, k: int)
    requires
        0 <= from <= t.len(),
        t.subrange(from, t.len() as int) == lit,
        is_plain(lit),
    ensures
        text::filled_from(t, from, args, k) == lit,
    decreases lit.len(),
{
    if lit.len() == 0 {
        assert(text::filled_from(t, from, args, k) =~= lit);
    } else {
        assert(t[from] == t.subrange(from, t.len() as int)[0]);
        let next = lit.drop_first();
        assert forall|i: int| 0 <= i < next.len() implies (#[trigger] next[i]) != '{' by {
            assert(next[i] == lit[i + 1]);
        }
        assert(t.subrange(from + 1, t.len() as int) =~= t.subrange(
            from,
            t.len() as int,
        ).drop_first());
        no_place(t, from + 1, next, args, k);
        assert(seq![t[from]] + next =~= lit);
    }
}

/// How a named type is written.
pub proof fn a_named_type_reads(a: Seq<char>, b: Seq<char>)
    ensures
        text::filled(emit::NAMED_TYPE@, seq![a, b]) == a + " "@ + b,
{
    reveal_strlit("{} {}");
    reveal_strlit(" ");
    let t = emit::NAMED_TYPE@;
    let args = seq![a, b];
    let none = Seq::<char>::empty();
    assert(t.len() == 5);
    assert(t.subrange(0, 0) =~= none);
    one_place(t, 0, none, args, 0);
    assert(t.subrange(2, 3) =~= " "@);
    one_place(t, 2, " "@, args, 1);
    assert(t.subrange(5, 5) =~= none);
    no_place(t, 5, none, args, 2);
    assert(text::filled(t, args) =~= a + " "@ + b);
}

/// How an identity is written.
pub proof fn an_identity_reads(a: Seq<char>, b: Seq<char>)
    ensures
        text::filled(emit::IDENTITY@, seq![a, b]) == " GENERATED ALWAYS AS IDENTITY (START WITH "@ + a + " INCREMENT BY "@ + b + ")"@,
{
    reveal_strlit(" GENERATED ALWAYS AS IDENTITY (START WITH {} INCREMENT BY {})");
    reveal_strlit(" GENERATED ALWAYS AS IDENTITY (START WITH ");
    reveal_strlit(" INCREMENT BY ");
    reveal_strlit(")");
    let t = emit::IDENTITY@;
    let args = seq![a, b];
    let none = Seq::<char>::empty();
    assert(t.len() == 61);
    assert(t.subrange(0, 42) =~= " GENERATED ALWAYS AS IDENTITY (START WITH "@);
    one_place(t, 0, " GENERATED ALWAYS AS IDENTITY (START WITH "@, args, 0);
    assert(t.subrange(44, 58) =~= " INCREMENT BY "@);
    one_place(t, 44, " INCREMENT BY "@, args, 1);
    assert(t.subrange(60, 61) =~= ")"@);
    no_place(t, 60, ")"@, args, 2);
    assert(text::filled(t, args) =~= " GENERATED ALWAYS AS IDENTITY (START WITH "@ + a + " INCREMENT BY "@ + b + ")"@);
}

/// How a default is written.
pub proof fn a_default_reads(a: Seq<char>)
    ensures
        text::filled(emit::DEFAULT@, seq![a]) == " DEFAULT "@ + a,
{
    reveal_strlit(" DEFAULT {}");
    reveal_strlit(" DEFAULT ");
    let t = emit::DEFAULT@;
    let args = seq![a];
    let none = Seq::<char>::empty();
    assert(t.len() == 11);
    assert(t.subrange(0, 9) =~= " DEFAULT "@);
    one_place(t, 0, " DEFAULT "@, args, 0);
    assert(t.subrange(11, 11) =~= none);
    no_place(t, 11, none, args, 1);
    assert(text::filled(t, args) =~= " DEFAULT "@ + a);
}

/// How a named primary key is written.
pub proof fn a_named_primary_key_reads(a: Seq<char>, b: Seq<char>)
    ensures
        text::filled(emit::NAMED_PRIMARY_KEY@, seq![a, b]) == "CONSTRAINT "@ + a + " PRIMARY KEY ("@ + b + ")"@,
{
    reveal_strlit("CONSTRAINT {} PRIMARY KEY ({})");
    reveal_strlit("CONSTRAINT ");
    reveal_strlit(" PRIMARY KEY (");
    reveal_strlit(")");
    let t = emit::NAMED_PRIMARY_KEY@;
    let args = seq![a, b];
    let none = Seq::<char>::empty();
    assert(t.len() == 30);
    assert(t.subrange(0, 11) =~= "CONSTRAINT "@);
    one_place(t, 0, "CONSTRAINT "@, args, 0);
    assert(t.subrange(13, 27) =~= " PRIMARY KEY ("@);
    one_place(t, 13, " PRIMARY KEY ("@, args, 1);
    assert(t.subrange(29, 30) =~= ")"@);
    no_place(t, 29, ")"@, args, 2);
    assert(text::filled(t, args) =~= "CONSTRAINT "@ + a + " PRIMARY KEY ("@ + b + ")"@);
}

/// How a primary key is written.
pub proof fn a_primary_key_reads(a: Seq<char>)
    ensures
        text::filled(emit::PRIMARY_KEY@, seq![a]) == "PRIMARY KEY ("@ + a + ")"@,
{
    reveal_strlit("PRIMARY KEY ({})");
    reveal_strlit("PRIMARY KEY (");
    reveal_strlit(")");
    let t = emit::PRIMARY_KEY@;
    let args = seq![a];
    let none = Seq::<char>::empty();
    assert(t.len() == 16);
    assert(t.subrange(0, 13) =~= "PRIMARY KEY ("@);
    one_place(t, 0, "PRIMARY KEY ("@, args, 0);
    assert(t.subrange(15, 16) =~= ")"@);
    no_place(t, 15, ")"@, args, 1);
    assert(text::filled(t, args) =~= "PRIMARY KEY ("@ + a + ")"@);
}

/// How a unique constraint is written.
pub proof fn a_unique_constraint_reads(a: Seq<char>, b: Seq<char>)
    ensures
        text::filled(emit::UNIQUE@, seq![a, b]) == "CONSTRAINT "@ + a + " UNIQUE ("@ + b + ")"@,
{
    reveal_strlit("CONSTRAINT {} UNIQUE ({})");
    reveal_strlit("CONSTRAINT ");
    reveal_strlit(" UNIQUE (");
    reveal_strlit(")");
    let t = emit::UNIQUE@;
    let args = seq![a, b];
    let none = Seq::<char>::empty();
    assert(t.len() == 25);
    assert(t.subrange(0, 11) =~= "CONSTRAINT "@);
    one_place(t, 0, "CONSTRAINT "@, args, 0);
    assert(t.subrange(13, 22) =~= " UNIQUE ("@);
    one_place(t, 13, " UNIQUE ("@, args, 1);
    assert(t.subrange(24, 25) =~= ")"@);
    no_place(t, 24, ")"@, args, 2);
    assert(text::filled(t, args) =~= "CONSTRAINT "@ + a + " UNIQUE ("@ + b + ")"@);
}

/// How a foreign key is written.
pub proof fn a_foreign_key_reads(a: Seq<char>, b: Seq<char>, c: Seq<char>, d: Seq<char>)
    ensures
        text::filled(emit::FOREIGN_KEY@, seq![a, b, c, d]) == "CONSTRAINT "@ + a + " FOREIGN KEY ("@ + b + ") REFERENCES "@ + c + " ("@ + d + ")"@,
{
    reveal_strlit("CONSTRAINT {} FOREIGN KEY ({}) REFERENCES {} ({})");
    reveal_strlit("CONSTRAINT ");
    reveal_strlit(" FOREIGN KEY (");
    reveal_strlit(") REFERENCES ");
    reveal_strlit(" (");
    reveal_strlit(")");
    let t = emit::FOREIGN_KEY@;
    let args = seq![a, b, c, d];
    let none = Seq::<char>::empty();
    assert(t.len() == 49);
    assert(t.subrange(0, 11) =~= "CONSTRAINT "@);
    one_place(t, 0, "CONSTRAINT "@, args, 0);
    assert(t.subrange(13, 27) =~= " FOREIGN KEY ("@);
    one_place(t, 13, " FOREIGN KEY ("@, args, 1);
    assert(t.subrange(29, 42) =~= ") REFERENCES "@);
    one_place(t, 29, ") REFERENCES "@, args, 2);
    assert(t.subrange(44, 46) =~= " ("@);
    one_place(t, 44, " ("@, args, 3);
    assert(t.subrange(48, 49) =~= ")"@);
    no_place(t, 48, ")"@, args, 4);
    assert(text::filled(t, args) =~= "CONSTRAINT "@ + a + " FOREIGN KEY ("@ + b + ") REFERENCES "@ + c + " ("@ + d + ")"@);
}

/// How a delete action is written.
pub proof fn a_delete_action_reads(a: Seq<char>)
    ensures
        text::filled(emit::ON_DELETE@, seq![a]) == " ON DELETE "@ + a,
{
    reveal_strlit(" ON DELETE {}");
    reveal_strlit(" ON DELETE ");
    let t = emit::ON_DELETE@;
    let args = seq![a];
    let none = Seq::<char>::empty();
    assert(t.len() == 13);
    assert(t.subrange(0, 11) =~= " ON DELETE "@);
    one_place(t, 0, " ON DELETE "@, args, 0);
    assert(t.subrange(13, 13) =~= none);
    no_place(t, 13, none, args, 1);
    assert(text::filled(t, args) =~= " ON DELETE "@ + a);
}

/// How an update action is written.
pub proof fn an_update_action_reads(a: Seq<char>)
    ensures
        text::filled(emit::ON_UPDATE@, seq![a]) == " ON UPDATE "@ + a,
{
    reveal_strlit(" ON UPDATE {}");
    reveal_strlit(" ON UPDATE ");
    let t = emit::ON_UPDATE@;
    let args = seq![a];
    let none = Seq::<char>::empty();
    assert(t.len() == 13);
    assert(t.subrange(0, 11) =~= " ON UPDATE "@);
    one_place(t, 0, " ON UPDATE "@, args, 0);
    assert(t.subrange(13, 13) =~= none);
    no_place(t, 13, none, args, 1);
    assert(text::filled(t, args) =~= " ON UPDATE "@ + a);
}

/// How an index key is written.
pub proof fn an_index_key_reads(a: Seq<char>, b: Seq<char>)
    ensures
        text::filled(emit::INDEX_KEY@, seq![a, b]) == a + " "@ + b,
{
    reveal_strlit("{} {}");
    reveal_strlit(" ");
    let t = emit::INDEX_KEY@;
    let args = seq![a, b];
    let none = Seq::<char>::empty();
    assert(t.len() == 5);
    assert(t.subrange(0, 0) =~= none);
    one_place(t, 0, none, args, 0);
    assert(t.subrange(2, 3) =~= " "@);
    one_place(t, 2, " "@, args, 1);
    assert(t.subrange(5, 5) =~= none);
    no_place(t, 5, none, args, 2);
    assert(text::filled(t, args) =~= a + " "@ + b);
}

/// How an index is written.
pub proof fn an_index_reads(a: Seq<char>, b: Seq<char>, c: Seq<char>, d: Seq<char>, e: Seq<char>)
    ensures
        text::filled(emit::INDEX@, seq![a, b, c, d, e]) == "CREATE "@ + a + "INDEX "@ + b + c + " ON "@ + d + " ("@ + e + ")"@,
{
    reveal_strlit("CREATE {}INDEX {}{} ON {} ({})");
    reveal_strlit("CREATE ");
    reveal_strlit("INDEX ");
    reveal_strlit(" ON ");
    reveal_strlit(" (");
    reveal_strlit(")");
    let t = emit::INDEX@;
    let args = seq![a, b, c, d, e];
    let none = Seq::<char>::empty();
    assert(t.len() == 30);
    assert(t.subrange(0, 7) =~= "CREATE "@);
    one_place(t, 0, "CREATE "@, args, 0);
    assert(t.subrange(9, 15) =~= "INDEX "@);
    one_place(t, 9, "INDEX "@, args, 1);
    assert(t.subrange(17, 17) =~= none);
    one_place(t, 17, none, args, 2);
    assert(t.subrange(19, 23) =~= " ON "@);
    one_place(t, 19, " ON "@, args, 3);
    assert(t.subrange(25, 27) =~= " ("@);
    one_place(t, 25, " ("@, args, 4);
    assert(t.subrange(29, 30) =~= ")"@);
    no_place(t, 29, ")"@, args, 5);
    assert(text::filled(t, args) =~= "CREATE "@ + a + "INDEX "@ + b + c + " ON "@ + d + " ("@ + e + ")"@);
}

/// How a payload is written.
pub proof fn a_payload_reads(a: Seq<char>)
    ensures
        text::filled(emit::INCLUDED@, seq![a]) == " INCLUDE ("@ + a + ")"@,
{
    reveal_strlit(" INCLUDE ({})");
    reveal_strlit(" INCLUDE (");
    reveal_strlit(")");
    let t = emit::INCLUDED@;
    let args = seq![a];
    let none = Seq::<char>::empty();
    assert(t.len() == 13);
    assert(t.subrange(0, 10) =~= " INCLUDE ("@);
    one_place(t, 0, " INCLUDE ("@, args, 0);
    assert(t.subrange(12, 13) =~= ")"@);
    no_place(t, 12, ")"@, args, 1);
    assert(text::filled(t, args) =~= " INCLUDE ("@ + a + ")"@);
}

/// How a filter is written.
pub proof fn a_filter_reads(a: Seq<char>)
    ensures
        text::filled(emit::FILTERED@, seq![a]) == " WHERE ("@ + a + ")"@,
{
    reveal_strlit(" WHERE ({})");
    reveal_strlit(" WHERE (");
    reveal_strlit(")");
    let t = emit::FILTERED@;
    let args = seq![a];
    let none = Seq::<char>::empty();
    assert(t.len() == 11);
    assert(t.subrange(0, 8) =~= " WHERE ("@);
    one_place(t, 0, " WHERE ("@, args, 0);
    assert(t.subrange(10, 11) =~= ")"@);
    no_place(t, 10, ")"@, args, 1);
    assert(text::filled(t, args) =~= " WHERE ("@ + a + ")"@);
}

/// How a dropped constraint is written.
pub proof fn a_dropped_constraint_reads(a: Seq<char>, b: Seq<char>)
    ensures
        text::filled(emit::DROP_CONSTRAINT@, seq![a, b]) == "ALTER TABLE "@ + a + " DROP CONSTRAINT "@ + b + ";"@,
{
    reveal_strlit("ALTER TABLE {} DROP CONSTRAINT {};");
    reveal_strlit("ALTER TABLE ");
    reveal_strlit(" DROP CONSTRAINT ");
    reveal_strlit(";");
    let t = emit::DROP_CONSTRAINT@;
    let args = seq![a, b];
    let none = Seq::<char>::empty();
    assert(t.len() == 34);
    assert(t.subrange(0, 12) =~= "ALTER TABLE "@);
    one_place(t, 0, "ALTER TABLE "@, args, 0);
    assert(t.subrange(14, 31) =~= " DROP CONSTRAINT "@);
    one_place(t, 14, " DROP CONSTRAINT "@, args, 1);
    assert(t.subrange(33, 34) =~= ";"@);
    no_place(t, 33, ";"@, args, 2);
    assert(text::filled(t, args) =~= "ALTER TABLE "@ + a + " DROP CONSTRAINT "@ + b + ";"@);
}

/// How a block is written.
pub proof fn a_block_reads(a: Seq<char>, b: Seq<char>, c: Seq<char>)
    ensures
        text::filled(emit::DO_BLOCK@, seq![a, b, c]) == "DO "@ + a + "\n"@ + b + "\n"@ + c + ";"@,
{
    reveal_strlit("DO {}\n{}\n{};");
    reveal_strlit("DO ");
    reveal_strlit("\n");
    reveal_strlit(";");
    let t = emit::DO_BLOCK@;
    let args = seq![a, b, c];
    let none = Seq::<char>::empty();
    assert(t.len() == 12);
    assert(t.subrange(0, 3) =~= "DO "@);
    one_place(t, 0, "DO "@, args, 0);
    assert(t.subrange(5, 6) =~= "\n"@);
    one_place(t, 5, "\n"@, args, 1);
    assert(t.subrange(8, 9) =~= "\n"@);
    one_place(t, 8, "\n"@, args, 2);
    assert(t.subrange(11, 12) =~= ";"@);
    no_place(t, 11, ";"@, args, 3);
    assert(text::filled(t, args) =~= "DO "@ + a + "\n"@ + b + "\n"@ + c + ";"@);
}

/// How a looked up drop is written.
pub proof fn a_looked_up_drop_reads(a: Seq<char>)
    ensures
        text::filled(emit::DROP_LOOKED_UP@, seq![a]) == "ALTER TABLE "@ + a + " DROP CONSTRAINT %I"@,
{
    reveal_strlit("ALTER TABLE {} DROP CONSTRAINT %I");
    reveal_strlit("ALTER TABLE ");
    reveal_strlit(" DROP CONSTRAINT %I");
    let t = emit::DROP_LOOKED_UP@;
    let args = seq![a];
    let none = Seq::<char>::empty();
    assert(t.len() == 33);
    assert(t.subrange(0, 12) =~= "ALTER TABLE "@);
    one_place(t, 0, "ALTER TABLE "@, args, 0);
    assert(t.subrange(14, 33) =~= " DROP CONSTRAINT %I"@);
    no_place(t, 14, " DROP CONSTRAINT %I"@, args, 1);
    assert(text::filled(t, args) =~= "ALTER TABLE "@ + a + " DROP CONSTRAINT %I"@);
}

/// How a look up is written.
pub proof fn a_look_up_reads(a: Seq<char>, b: Seq<char>)
    ensures
        text::filled(emit::LOOK_UP@, seq![a, b]) == "DECLARE pk name := (SELECT conname FROM pg_catalog.pg_constraint\n                     WHERE conrelid = "@ + a + "::pg_catalog.regclass AND contype = 'p');\nBEGIN\n    IF pk IS NOT NULL THEN\n        EXECUTE pg_catalog.format("@ + b + ", pk);\n    END IF;\nEND"@,
{
    reveal_strlit("DECLARE pk name := (SELECT conname FROM pg_catalog.pg_constraint\n                     WHERE conrelid = {}::pg_catalog.regclass AND contype = 'p');\nBEGIN\n    IF pk IS NOT NULL THEN\n        EXECUTE pg_catalog.format({}, pk);\n    END IF;\nEND");
    reveal_strlit("DECLARE pk name := (SELECT conname FROM pg_catalog.pg_constraint\n                     WHERE conrelid = ");
    reveal_strlit("::pg_catalog.regclass AND contype = 'p');\nBEGIN\n    IF pk IS NOT NULL THEN\n        EXECUTE pg_catalog.format(");
    reveal_strlit(", pk);\n    END IF;\nEND");
    let t = emit::LOOK_UP@;
    let args = seq![a, b];
    let none = Seq::<char>::empty();
    assert(t.len() == 238);
    assert(t.subrange(0, 103) =~= "DECLARE pk name := (SELECT conname FROM pg_catalog.pg_constraint\n                     WHERE conrelid = "@);
    one_place(t, 0, "DECLARE pk name := (SELECT conname FROM pg_catalog.pg_constraint\n                     WHERE conrelid = "@, args, 0);
    assert(t.subrange(105, 214) =~= "::pg_catalog.regclass AND contype = 'p');\nBEGIN\n    IF pk IS NOT NULL THEN\n        EXECUTE pg_catalog.format("@);
    one_place(t, 105, "::pg_catalog.regclass AND contype = 'p');\nBEGIN\n    IF pk IS NOT NULL THEN\n        EXECUTE pg_catalog.format("@, args, 1);
    assert(t.subrange(216, 238) =~= ", pk);\n    END IF;\nEND"@);
    no_place(t, 216, ", pk);\n    END IF;\nEND"@, args, 2);
    assert(text::filled(t, args) =~= "DECLARE pk name := (SELECT conname FROM pg_catalog.pg_constraint\n                     WHERE conrelid = "@ + a + "::pg_catalog.regclass AND contype = 'p');\nBEGIN\n    IF pk IS NOT NULL THEN\n        EXECUTE pg_catalog.format("@ + b + ", pk);\n    END IF;\nEND"@);
}

/// How a created table is written.
pub proof fn a_created_table_reads(a: Seq<char>, b: Seq<char>)
    ensures
        text::filled(emit::CREATE_TABLE@, seq![a, b]) == "CREATE TABLE "@ + a + " (\n    "@ + b + "\n) USING heap;"@,
{
    reveal_strlit("CREATE TABLE {} (\n    {}\n) USING heap;");
    reveal_strlit("CREATE TABLE ");
    reveal_strlit(" (\n    ");
    reveal_strlit("\n) USING heap;");
    let t = emit::CREATE_TABLE@;
    let args = seq![a, b];
    let none = Seq::<char>::empty();
    assert(t.len() == 38);
    assert(t.subrange(0, 13) =~= "CREATE TABLE "@);
    one_place(t, 0, "CREATE TABLE "@, args, 0);
    assert(t.subrange(15, 22) =~= " (\n    "@);
    one_place(t, 15, " (\n    "@, args, 1);
    assert(t.subrange(24, 38) =~= "\n) USING heap;"@);
    no_place(t, 24, "\n) USING heap;"@, args, 2);
    assert(text::filled(t, args) =~= "CREATE TABLE "@ + a + " (\n    "@ + b + "\n) USING heap;"@);
}

/// How an addition is written.
pub proof fn an_addition_reads(a: Seq<char>, b: Seq<char>)
    ensures
        text::filled(emit::ADD@, seq![a, b]) == "ALTER TABLE "@ + a + " ADD "@ + b + ";"@,
{
    reveal_strlit("ALTER TABLE {} ADD {};");
    reveal_strlit("ALTER TABLE ");
    reveal_strlit(" ADD ");
    reveal_strlit(";");
    let t = emit::ADD@;
    let args = seq![a, b];
    let none = Seq::<char>::empty();
    assert(t.len() == 22);
    assert(t.subrange(0, 12) =~= "ALTER TABLE "@);
    one_place(t, 0, "ALTER TABLE "@, args, 0);
    assert(t.subrange(14, 19) =~= " ADD "@);
    one_place(t, 14, " ADD "@, args, 1);
    assert(t.subrange(21, 22) =~= ";"@);
    no_place(t, 21, ";"@, args, 2);
    assert(text::filled(t, args) =~= "ALTER TABLE "@ + a + " ADD "@ + b + ";"@);
}

/// How an added check is written.
pub proof fn an_added_check_reads(a: Seq<char>, b: Seq<char>, c: Seq<char>)
    ensures
        text::filled(emit::ADD_CHECK@, seq![a, b, c]) == "ALTER TABLE "@ + a + " ADD CONSTRAINT "@ + b + " CHECK ("@ + c + ");"@,
{
    reveal_strlit("ALTER TABLE {} ADD CONSTRAINT {} CHECK ({});");
    reveal_strlit("ALTER TABLE ");
    reveal_strlit(" ADD CONSTRAINT ");
    reveal_strlit(" CHECK (");
    reveal_strlit(");");
    let t = emit::ADD_CHECK@;
    let args = seq![a, b, c];
    let none = Seq::<char>::empty();
    assert(t.len() == 44);
    assert(t.subrange(0, 12) =~= "ALTER TABLE "@);
    one_place(t, 0, "ALTER TABLE "@, args, 0);
    assert(t.subrange(14, 30) =~= " ADD CONSTRAINT "@);
    one_place(t, 14, " ADD CONSTRAINT "@, args, 1);
    assert(t.subrange(32, 40) =~= " CHECK ("@);
    one_place(t, 32, " CHECK ("@, args, 2);
    assert(t.subrange(42, 44) =~= ");"@);
    no_place(t, 42, ");"@, args, 3);
    assert(text::filled(t, args) =~= "ALTER TABLE "@ + a + " ADD CONSTRAINT "@ + b + " CHECK ("@ + c + ");"@);
}

/// How a moved table is written.
pub proof fn a_moved_table_reads(a: Seq<char>, b: Seq<char>)
    ensures
        text::filled(emit::SET_SCHEMA@, seq![a, b]) == "ALTER TABLE "@ + a + " SET SCHEMA "@ + b + ";"@,
{
    reveal_strlit("ALTER TABLE {} SET SCHEMA {};");
    reveal_strlit("ALTER TABLE ");
    reveal_strlit(" SET SCHEMA ");
    reveal_strlit(";");
    let t = emit::SET_SCHEMA@;
    let args = seq![a, b];
    let none = Seq::<char>::empty();
    assert(t.len() == 29);
    assert(t.subrange(0, 12) =~= "ALTER TABLE "@);
    one_place(t, 0, "ALTER TABLE "@, args, 0);
    assert(t.subrange(14, 26) =~= " SET SCHEMA "@);
    one_place(t, 14, " SET SCHEMA "@, args, 1);
    assert(t.subrange(28, 29) =~= ";"@);
    no_place(t, 28, ";"@, args, 2);
    assert(text::filled(t, args) =~= "ALTER TABLE "@ + a + " SET SCHEMA "@ + b + ";"@);
}

/// How a renamed table is written.
pub proof fn a_renamed_table_reads(a: Seq<char>, b: Seq<char>)
    ensures
        text::filled(emit::RENAME_TO@, seq![a, b]) == "ALTER TABLE "@ + a + " RENAME TO "@ + b + ";"@,
{
    reveal_strlit("ALTER TABLE {} RENAME TO {};");
    reveal_strlit("ALTER TABLE ");
    reveal_strlit(" RENAME TO ");
    reveal_strlit(";");
    let t = emit::RENAME_TO@;
    let args = seq![a, b];
    let none = Seq::<char>::empty();
    assert(t.len() == 28);
    assert(t.subrange(0, 12) =~= "ALTER TABLE "@);
    one_place(t, 0, "ALTER TABLE "@, args, 0);
    assert(t.subrange(14, 25) =~= " RENAME TO "@);
    one_place(t, 14, " RENAME TO "@, args, 1);
    assert(t.subrange(27, 28) =~= ";"@);
    no_place(t, 27, ";"@, args, 2);
    assert(text::filled(t, args) =~= "ALTER TABLE "@ + a + " RENAME TO "@ + b + ";"@);
}

/// How an added column is written.
pub proof fn an_added_column_reads(a: Seq<char>, b: Seq<char>)
    ensures
        text::filled(emit::ADD_COLUMN@, seq![a, b]) == "ALTER TABLE "@ + a + " ADD COLUMN "@ + b + ";"@,
{
    reveal_strlit("ALTER TABLE {} ADD COLUMN {};");
    reveal_strlit("ALTER TABLE ");
    reveal_strlit(" ADD COLUMN ");
    reveal_strlit(";");
    let t = emit::ADD_COLUMN@;
    let args = seq![a, b];
    let none = Seq::<char>::empty();
    assert(t.len() == 29);
    assert(t.subrange(0, 12) =~= "ALTER TABLE "@);
    one_place(t, 0, "ALTER TABLE "@, args, 0);
    assert(t.subrange(14, 26) =~= " ADD COLUMN "@);
    one_place(t, 14, " ADD COLUMN "@, args, 1);
    assert(t.subrange(28, 29) =~= ";"@);
    no_place(t, 28, ";"@, args, 2);
    assert(text::filled(t, args) =~= "ALTER TABLE "@ + a + " ADD COLUMN "@ + b + ";"@);
}

/// How a dropped column is written.
pub proof fn a_dropped_column_reads(a: Seq<char>, b: Seq<char>)
    ensures
        text::filled(emit::DROP_COLUMN@, seq![a, b]) == "ALTER TABLE "@ + a + " DROP COLUMN "@ + b + ";"@,
{
    reveal_strlit("ALTER TABLE {} DROP COLUMN {};");
    reveal_strlit("ALTER TABLE ");
    reveal_strlit(" DROP COLUMN ");
    reveal_strlit(";");
    let t = emit::DROP_COLUMN@;
    let args = seq![a, b];
    let none = Seq::<char>::empty();
    assert(t.len() == 30);
    assert(t.subrange(0, 12) =~= "ALTER TABLE "@);
    one_place(t, 0, "ALTER TABLE "@, args, 0);
    assert(t.subrange(14, 27) =~= " DROP COLUMN "@);
    one_place(t, 14, " DROP COLUMN "@, args, 1);
    assert(t.subrange(29, 30) =~= ";"@);
    no_place(t, 29, ";"@, args, 2);
    assert(text::filled(t, args) =~= "ALTER TABLE "@ + a + " DROP COLUMN "@ + b + ";"@);
}

/// How a renamed column is written.
pub proof fn a_renamed_column_reads(a: Seq<char>, b: Seq<char>, c: Seq<char>)
    ensures
        text::filled(emit::RENAME_COLUMN@, seq![a, b, c]) == "ALTER TABLE "@ + a + " RENAME COLUMN "@ + b + " TO "@ + c + ";"@,
{
    reveal_strlit("ALTER TABLE {} RENAME COLUMN {} TO {};");
    reveal_strlit("ALTER TABLE ");
    reveal_strlit(" RENAME COLUMN ");
    reveal_strlit(" TO ");
    reveal_strlit(";");
    let t = emit::RENAME_COLUMN@;
    let args = seq![a, b, c];
    let none = Seq::<char>::empty();
    assert(t.len() == 38);
    assert(t.subrange(0, 12) =~= "ALTER TABLE "@);
    one_place(t, 0, "ALTER TABLE "@, args, 0);
    assert(t.subrange(14, 29) =~= " RENAME COLUMN "@);
    one_place(t, 14, " RENAME COLUMN "@, args, 1);
    assert(t.subrange(31, 35) =~= " TO "@);
    one_place(t, 31, " TO "@, args, 2);
    assert(t.subrange(37, 38) =~= ";"@);
    no_place(t, 37, ";"@, args, 3);
    assert(text::filled(t, args) =~= "ALTER TABLE "@ + a + " RENAME COLUMN "@ + b + " TO "@ + c + ";"@);
}

/// How a nullability is written.
pub proof fn a_nullability_reads(a: Seq<char>, b: Seq<char>, c: Seq<char>)
    ensures
        text::filled(emit::ALTER_NULLABILITY@, seq![a, b, c]) == "ALTER TABLE "@ + a + " ALTER COLUMN "@ + b + " "@ + c + ";"@,
{
    reveal_strlit("ALTER TABLE {} ALTER COLUMN {} {};");
    reveal_strlit("ALTER TABLE ");
    reveal_strlit(" ALTER COLUMN ");
    reveal_strlit(" ");
    reveal_strlit(";");
    let t = emit::ALTER_NULLABILITY@;
    let args = seq![a, b, c];
    let none = Seq::<char>::empty();
    assert(t.len() == 34);
    assert(t.subrange(0, 12) =~= "ALTER TABLE "@);
    one_place(t, 0, "ALTER TABLE "@, args, 0);
    assert(t.subrange(14, 28) =~= " ALTER COLUMN "@);
    one_place(t, 14, " ALTER COLUMN "@, args, 1);
    assert(t.subrange(30, 31) =~= " "@);
    one_place(t, 30, " "@, args, 2);
    assert(t.subrange(33, 34) =~= ";"@);
    no_place(t, 33, ";"@, args, 3);
    assert(text::filled(t, args) =~= "ALTER TABLE "@ + a + " ALTER COLUMN "@ + b + " "@ + c + ";"@);
}

/// How a set default is written.
pub proof fn a_set_default_reads(a: Seq<char>, b: Seq<char>, c: Seq<char>)
    ensures
        text::filled(emit::SET_DEFAULT@, seq![a, b, c]) == "ALTER TABLE "@ + a + " ALTER COLUMN "@ + b + " SET DEFAULT "@ + c + ";"@,
{
    reveal_strlit("ALTER TABLE {} ALTER COLUMN {} SET DEFAULT {};");
    reveal_strlit("ALTER TABLE ");
    reveal_strlit(" ALTER COLUMN ");
    reveal_strlit(" SET DEFAULT ");
    reveal_strlit(";");
    let t = emit::SET_DEFAULT@;
    let args = seq![a, b, c];
    let none = Seq::<char>::empty();
    assert(t.len() == 46);
    assert(t.subrange(0, 12) =~= "ALTER TABLE "@);
    one_place(t, 0, "ALTER TABLE "@, args, 0);
    assert(t.subrange(14, 28) =~= " ALTER COLUMN "@);
    one_place(t, 14, " ALTER COLUMN "@, args, 1);
    assert(t.subrange(30, 43) =~= " SET DEFAULT "@);
    one_place(t, 30, " SET DEFAULT "@, args, 2);
    assert(t.subrange(45, 46) =~= ";"@);
    no_place(t, 45, ";"@, args, 3);
    assert(text::filled(t, args) =~= "ALTER TABLE "@ + a + " ALTER COLUMN "@ + b + " SET DEFAULT "@ + c + ";"@);
}

/// How a dropped default is written.
pub proof fn a_dropped_default_reads(a: Seq<char>, b: Seq<char>)
    ensures
        text::filled(emit::DROP_DEFAULT@, seq![a, b]) == "ALTER TABLE "@ + a + " ALTER COLUMN "@ + b + " DROP DEFAULT;"@,
{
    reveal_strlit("ALTER TABLE {} ALTER COLUMN {} DROP DEFAULT;");
    reveal_strlit("ALTER TABLE ");
    reveal_strlit(" ALTER COLUMN ");
    reveal_strlit(" DROP DEFAULT;");
    let t = emit::DROP_DEFAULT@;
    let args = seq![a, b];
    let none = Seq::<char>::empty();
    assert(t.len() == 44);
    assert(t.subrange(0, 12) =~= "ALTER TABLE "@);
    one_place(t, 0, "ALTER TABLE "@, args, 0);
    assert(t.subrange(14, 28) =~= " ALTER COLUMN "@);
    one_place(t, 14, " ALTER COLUMN "@, args, 1);
    assert(t.subrange(30, 44) =~= " DROP DEFAULT;"@);
    no_place(t, 30, " DROP DEFAULT;"@, args, 2);
    assert(text::filled(t, args) =~= "ALTER TABLE "@ + a + " ALTER COLUMN "@ + b + " DROP DEFAULT;"@);
}

/// How a type part is written.
pub proof fn a_type_part_reads(a: Seq<char>, b: Seq<char>)
    ensures
        text::filled(emit::TYPE_PART@, seq![a, b]) == "ALTER COLUMN "@ + a + " TYPE "@ + b,
{
    reveal_strlit("ALTER COLUMN {} TYPE {}");
    reveal_strlit("ALTER COLUMN ");
    reveal_strlit(" TYPE ");
    let t = emit::TYPE_PART@;
    let args = seq![a, b];
    let none = Seq::<char>::empty();
    assert(t.len() == 23);
    assert(t.subrange(0, 13) =~= "ALTER COLUMN "@);
    one_place(t, 0, "ALTER COLUMN "@, args, 0);
    assert(t.subrange(15, 21) =~= " TYPE "@);
    one_place(t, 15, " TYPE "@, args, 1);
    assert(t.subrange(23, 23) =~= none);
    no_place(t, 23, none, args, 2);
    assert(text::filled(t, args) =~= "ALTER COLUMN "@ + a + " TYPE "@ + b);
}

/// How a null part is written.
pub proof fn a_null_part_reads(a: Seq<char>, b: Seq<char>)
    ensures
        text::filled(emit::NULL_PART@, seq![a, b]) == "ALTER COLUMN "@ + a + " "@ + b,
{
    reveal_strlit("ALTER COLUMN {} {}");
    reveal_strlit("ALTER COLUMN ");
    reveal_strlit(" ");
    let t = emit::NULL_PART@;
    let args = seq![a, b];
    let none = Seq::<char>::empty();
    assert(t.len() == 18);
    assert(t.subrange(0, 13) =~= "ALTER COLUMN "@);
    one_place(t, 0, "ALTER COLUMN "@, args, 0);
    assert(t.subrange(15, 16) =~= " "@);
    one_place(t, 15, " "@, args, 1);
    assert(t.subrange(18, 18) =~= none);
    no_place(t, 18, none, args, 2);
    assert(text::filled(t, args) =~= "ALTER COLUMN "@ + a + " "@ + b);
}

/// How an altered table is written.
pub proof fn an_altered_table_reads(a: Seq<char>, b: Seq<char>)
    ensures
        text::filled(emit::ALTER_TABLE@, seq![a, b]) == "ALTER TABLE "@ + a + " "@ + b + ";"@,
{
    reveal_strlit("ALTER TABLE {} {};");
    reveal_strlit("ALTER TABLE ");
    reveal_strlit(" ");
    reveal_strlit(";");
    let t = emit::ALTER_TABLE@;
    let args = seq![a, b];
    let none = Seq::<char>::empty();
    assert(t.len() == 18);
    assert(t.subrange(0, 12) =~= "ALTER TABLE "@);
    one_place(t, 0, "ALTER TABLE "@, args, 0);
    assert(t.subrange(14, 15) =~= " "@);
    one_place(t, 14, " "@, args, 1);
    assert(t.subrange(17, 18) =~= ";"@);
    no_place(t, 17, ";"@, args, 2);
    assert(text::filled(t, args) =~= "ALTER TABLE "@ + a + " "@ + b + ";"@);
}

/// How a dropped index is written.
pub proof fn a_dropped_index_reads(a: Seq<char>, b: Seq<char>)
    ensures
        text::filled(emit::DROP_INDEX@, seq![a, b]) == "DROP INDEX "@ + a + "."@ + b + ";"@,
{
    reveal_strlit("DROP INDEX {}.{};");
    reveal_strlit("DROP INDEX ");
    reveal_strlit(".");
    reveal_strlit(";");
    let t = emit::DROP_INDEX@;
    let args = seq![a, b];
    let none = Seq::<char>::empty();
    assert(t.len() == 17);
    assert(t.subrange(0, 11) =~= "DROP INDEX "@);
    one_place(t, 0, "DROP INDEX "@, args, 0);
    assert(t.subrange(13, 14) =~= "."@);
    one_place(t, 13, "."@, args, 1);
    assert(t.subrange(16, 17) =~= ";"@);
    no_place(t, 16, ";"@, args, 2);
    assert(text::filled(t, args) =~= "DROP INDEX "@ + a + "."@ + b + ";"@);
}

/// How a dropped table is written.
pub proof fn a_dropped_table_reads(a: Seq<char>)
    ensures
        text::filled(emit::DROP_TABLE@, seq![a]) == "DROP TABLE "@ + a + ";"@,
{
    reveal_strlit("DROP TABLE {};");
    reveal_strlit("DROP TABLE ");
    reveal_strlit(";");
    let t = emit::DROP_TABLE@;
    let args = seq![a];
    let none = Seq::<char>::empty();
    assert(t.len() == 14);
    assert(t.subrange(0, 11) =~= "DROP TABLE "@);
    one_place(t, 0, "DROP TABLE "@, args, 0);
    assert(t.subrange(13, 14) =~= ";"@);
    no_place(t, 13, ";"@, args, 1);
    assert(text::filled(t, args) =~= "DROP TABLE "@ + a + ";"@);
}

/// How a created view is written.
pub proof fn a_created_view_reads(a: Seq<char>, b: Seq<char>)
    ensures
        text::filled(definition::CREATE_VIEW@, seq![a, b]) == "CREATE VIEW "@ + a + " AS\n"@ + b,
{
    reveal_strlit("CREATE VIEW {} AS\n{}");
    reveal_strlit("CREATE VIEW ");
    reveal_strlit(" AS\n");
    let t = definition::CREATE_VIEW@;
    let args = seq![a, b];
    let none = Seq::<char>::empty();
    assert(t.len() == 20);
    assert(t.subrange(0, 12) =~= "CREATE VIEW "@);
    one_place(t, 0, "CREATE VIEW "@, args, 0);
    assert(t.subrange(14, 18) =~= " AS\n"@);
    one_place(t, 14, " AS\n"@, args, 1);
    assert(t.subrange(20, 20) =~= none);
    no_place(t, 20, none, args, 2);
    assert(text::filled(t, args) =~= "CREATE VIEW "@ + a + " AS\n"@ + b);
}

/// How a created routine is written.
pub proof fn a_created_routine_reads(a: Seq<char>, b: Seq<char>, c: Seq<char>)
    ensures
        text::filled(definition::CREATE_ROUTINE@, seq![a, b, c]) == "CREATE "@ + a + " "@ + b + "\n"@ + c,
{
    reveal_strlit("CREATE {} {}\n{}");
    reveal_strlit("CREATE ");
    reveal_strlit(" ");
    reveal_strlit("\n");
    let t = definition::CREATE_ROUTINE@;
    let args = seq![a, b, c];
    let none = Seq::<char>::empty();
    assert(t.len() == 15);
    assert(t.subrange(0, 7) =~= "CREATE "@);
    one_place(t, 0, "CREATE "@, args, 0);
    assert(t.subrange(9, 10) =~= " "@);
    one_place(t, 9, " "@, args, 1);
    assert(t.subrange(12, 13) =~= "\n"@);
    one_place(t, 12, "\n"@, args, 2);
    assert(t.subrange(15, 15) =~= none);
    no_place(t, 15, none, args, 3);
    assert(text::filled(t, args) =~= "CREATE "@ + a + " "@ + b + "\n"@ + c);
}

/// How a created trigger is written.
pub proof fn a_created_trigger_reads(a: Seq<char>, b: Seq<char>)
    ensures
        text::filled(definition::CREATE_TRIGGER@, seq![a, b]) == "CREATE TRIGGER "@ + a + "\n"@ + b,
{
    reveal_strlit("CREATE TRIGGER {}\n{}");
    reveal_strlit("CREATE TRIGGER ");
    reveal_strlit("\n");
    let t = definition::CREATE_TRIGGER@;
    let args = seq![a, b];
    let none = Seq::<char>::empty();
    assert(t.len() == 20);
    assert(t.subrange(0, 15) =~= "CREATE TRIGGER "@);
    one_place(t, 0, "CREATE TRIGGER "@, args, 0);
    assert(t.subrange(17, 18) =~= "\n"@);
    one_place(t, 17, "\n"@, args, 1);
    assert(t.subrange(20, 20) =~= none);
    no_place(t, 20, none, args, 2);
    assert(text::filled(t, args) =~= "CREATE TRIGGER "@ + a + "\n"@ + b);
}

/// How a terminated statement is written.
pub proof fn a_terminated_statement_reads(a: Seq<char>)
    ensures
        text::filled(definition::TERMINATED@, seq![a]) == a + "\n;"@,
{
    reveal_strlit("{}\n;");
    reveal_strlit("\n;");
    let t = definition::TERMINATED@;
    let args = seq![a];
    let none = Seq::<char>::empty();
    assert(t.len() == 4);
    assert(t.subrange(0, 0) =~= none);
    one_place(t, 0, none, args, 0);
    assert(t.subrange(2, 4) =~= "\n;"@);
    no_place(t, 2, "\n;"@, args, 1);
    assert(text::filled(t, args) =~= a + "\n;"@);
}

/// How a dropped view is written.
pub proof fn a_dropped_view_reads(a: Seq<char>)
    ensures
        text::filled(definition::DROP_VIEW@, seq![a]) == "DROP VIEW "@ + a + ";"@,
{
    reveal_strlit("DROP VIEW {};");
    reveal_strlit("DROP VIEW ");
    reveal_strlit(";");
    let t = definition::DROP_VIEW@;
    let args = seq![a];
    let none = Seq::<char>::empty();
    assert(t.len() == 13);
    assert(t.subrange(0, 10) =~= "DROP VIEW "@);
    one_place(t, 0, "DROP VIEW "@, args, 0);
    assert(t.subrange(12, 13) =~= ";"@);
    no_place(t, 12, ";"@, args, 1);
    assert(text::filled(t, args) =~= "DROP VIEW "@ + a + ";"@);
}

/// How a dropped routine is written.
pub proof fn a_dropped_routine_reads(a: Seq<char>, b: Seq<char>, c: Seq<char>)
    ensures
        text::filled(definition::DROP_ROUTINE@, seq![a, b, c]) == "DROP "@ + a + " "@ + b + "("@ + c + ");"@,
{
    reveal_strlit("DROP {} {}({});");
    reveal_strlit("DROP ");
    reveal_strlit(" ");
    reveal_strlit("(");
    reveal_strlit(");");
    let t = definition::DROP_ROUTINE@;
    let args = seq![a, b, c];
    let none = Seq::<char>::empty();
    assert(t.len() == 15);
    assert(t.subrange(0, 5) =~= "DROP "@);
    one_place(t, 0, "DROP "@, args, 0);
    assert(t.subrange(7, 8) =~= " "@);
    one_place(t, 7, " "@, args, 1);
    assert(t.subrange(10, 11) =~= "("@);
    one_place(t, 10, "("@, args, 2);
    assert(t.subrange(13, 15) =~= ");"@);
    no_place(t, 13, ");"@, args, 3);
    assert(text::filled(t, args) =~= "DROP "@ + a + " "@ + b + "("@ + c + ");"@);
}

/// How a dropped trigger is written.
pub proof fn a_dropped_trigger_reads(a: Seq<char>, b: Seq<char>)
    ensures
        text::filled(definition::DROP_TRIGGER@, seq![a, b]) == "DROP TRIGGER "@ + a + " ON "@ + b + ";"@,
{
    reveal_strlit("DROP TRIGGER {} ON {};");
    reveal_strlit("DROP TRIGGER ");
    reveal_strlit(" ON ");
    reveal_strlit(";");
    let t = definition::DROP_TRIGGER@;
    let args = seq![a, b];
    let none = Seq::<char>::empty();
    assert(t.len() == 22);
    assert(t.subrange(0, 13) =~= "DROP TRIGGER "@);
    one_place(t, 0, "DROP TRIGGER "@, args, 0);
    assert(t.subrange(15, 19) =~= " ON "@);
    one_place(t, 15, " ON "@, args, 1);
    assert(t.subrange(21, 22) =~= ";"@);
    no_place(t, 21, ";"@, args, 2);
    assert(text::filled(t, args) =~= "DROP TRIGGER "@ + a + " ON "@ + b + ";"@);
}

/// How a type change in words is written.
pub proof fn a_type_change_in_words_reads(a: Seq<char>, b: Seq<char>)
    ensures
        text::filled(estimate::CHANGING@, seq![a, b]) == "changing "@ + a + " to "@ + b,
{
    reveal_strlit("changing {} to {}");
    reveal_strlit("changing ");
    reveal_strlit(" to ");
    let t = estimate::CHANGING@;
    let args = seq![a, b];
    let none = Seq::<char>::empty();
    assert(t.len() == 17);
    assert(t.subrange(0, 9) =~= "changing "@);
    one_place(t, 0, "changing "@, args, 0);
    assert(t.subrange(11, 15) =~= " to "@);
    one_place(t, 11, " to "@, args, 1);
    assert(t.subrange(17, 17) =~= none);
    no_place(t, 17, none, args, 2);
    assert(text::filled(t, args) =~= "changing "@ + a + " to "@ + b);
}

/// How a nullability in words is written.
pub proof fn a_nullability_in_words_reads(a: Seq<char>, b: Seq<char>)
    ensures
        text::filled(estimate::MAKING@, seq![a, b]) == "making "@ + a + " "@ + b,
{
    reveal_strlit("making {} {}");
    reveal_strlit("making ");
    reveal_strlit(" ");
    let t = estimate::MAKING@;
    let args = seq![a, b];
    let none = Seq::<char>::empty();
    assert(t.len() == 12);
    assert(t.subrange(0, 7) =~= "making "@);
    one_place(t, 0, "making "@, args, 0);
    assert(t.subrange(9, 10) =~= " "@);
    one_place(t, 9, " "@, args, 1);
    assert(t.subrange(12, 12) =~= none);
    no_place(t, 12, none, args, 2);
    assert(text::filled(t, args) =~= "making "@ + a + " "@ + b);
}

/// How a new column in words is written.
pub proof fn a_new_column_in_words_reads(a: Seq<char>)
    ensures
        text::filled(estimate::ADDING_COLUMN@, seq![a]) == "adding the column "@ + a,
{
    reveal_strlit("adding the column {}");
    reveal_strlit("adding the column ");
    let t = estimate::ADDING_COLUMN@;
    let args = seq![a];
    let none = Seq::<char>::empty();
    assert(t.len() == 20);
    assert(t.subrange(0, 18) =~= "adding the column "@);
    one_place(t, 0, "adding the column "@, args, 0);
    assert(t.subrange(20, 20) =~= none);
    no_place(t, 20, none, args, 1);
    assert(text::filled(t, args) =~= "adding the column "@ + a);
}

/// How a dropped column in words is written.
pub proof fn a_dropped_column_in_words_reads(a: Seq<char>)
    ensures
        text::filled(estimate::DROPPING@, seq![a]) == "dropping "@ + a + ", which does not reclaim its space"@,
{
    reveal_strlit("dropping {}, which does not reclaim its space");
    reveal_strlit("dropping ");
    reveal_strlit(", which does not reclaim its space");
    let t = estimate::DROPPING@;
    let args = seq![a];
    let none = Seq::<char>::empty();
    assert(t.len() == 45);
    assert(t.subrange(0, 9) =~= "dropping "@);
    one_place(t, 0, "dropping "@, args, 0);
    assert(t.subrange(11, 45) =~= ", which does not reclaim its space"@);
    no_place(t, 11, ", which does not reclaim its space"@, args, 1);
    assert(text::filled(t, args) =~= "dropping "@ + a + ", which does not reclaim its space"@);
}

/// How a new check in words is written.
pub proof fn a_new_check_in_words_reads(a: Seq<char>)
    ensures
        text::filled(estimate::ADDING_CHECK@, seq![a]) == "adding the check "@ + a,
{
    reveal_strlit("adding the check {}");
    reveal_strlit("adding the check ");
    let t = estimate::ADDING_CHECK@;
    let args = seq![a];
    let none = Seq::<char>::empty();
    assert(t.len() == 19);
    assert(t.subrange(0, 17) =~= "adding the check "@);
    one_place(t, 0, "adding the check "@, args, 0);
    assert(t.subrange(19, 19) =~= none);
    no_place(t, 19, none, args, 1);
    assert(text::filled(t, args) =~= "adding the check "@ + a);
}

/// How a new unique constraint in words is written.
pub proof fn a_new_unique_constraint_in_words_reads(a: Seq<char>)
    ensures
        text::filled(estimate::ADDING_UNIQUE@, seq![a]) == "adding the unique constraint "@ + a,
{
    reveal_strlit("adding the unique constraint {}");
    reveal_strlit("adding the unique constraint ");
    let t = estimate::ADDING_UNIQUE@;
    let args = seq![a];
    let none = Seq::<char>::empty();
    assert(t.len() == 31);
    assert(t.subrange(0, 29) =~= "adding the unique constraint "@);
    one_place(t, 0, "adding the unique constraint "@, args, 0);
    assert(t.subrange(31, 31) =~= none);
    no_place(t, 31, none, args, 1);
    assert(text::filled(t, args) =~= "adding the unique constraint "@ + a);
}

/// How a new foreign key in words is written.
pub proof fn a_new_foreign_key_in_words_reads(a: Seq<char>)
    ensures
        text::filled(estimate::ADDING_FOREIGN_KEY@, seq![a]) == "adding the foreign key "@ + a,
{
    reveal_strlit("adding the foreign key {}");
    reveal_strlit("adding the foreign key ");
    let t = estimate::ADDING_FOREIGN_KEY@;
    let args = seq![a];
    let none = Seq::<char>::empty();
    assert(t.len() == 25);
    assert(t.subrange(0, 23) =~= "adding the foreign key "@);
    one_place(t, 0, "adding the foreign key "@, args, 0);
    assert(t.subrange(25, 25) =~= none);
    no_place(t, 25, none, args, 1);
    assert(text::filled(t, args) =~= "adding the foreign key "@ + a);
}

/// How an index build in words is written.
pub proof fn an_index_build_in_words_reads(a: Seq<char>)
    ensures
        text::filled(estimate::BUILDING@, seq![a]) == "building the index "@ + a,
{
    reveal_strlit("building the index {}");
    reveal_strlit("building the index ");
    let t = estimate::BUILDING@;
    let args = seq![a];
    let none = Seq::<char>::empty();
    assert(t.len() == 21);
    assert(t.subrange(0, 19) =~= "building the index "@);
    one_place(t, 0, "building the index "@, args, 0);
    assert(t.subrange(21, 21) =~= none);
    no_place(t, 21, none, args, 1);
    assert(text::filled(t, args) =~= "building the index "@ + a);
}

/// How a changed default in words is written.
pub proof fn a_changed_default_in_words_reads(a: Seq<char>)
    ensures
        text::filled(estimate::CHANGING_DEFAULT@, seq![a]) == "changing the default of "@ + a,
{
    reveal_strlit("changing the default of {}");
    reveal_strlit("changing the default of ");
    let t = estimate::CHANGING_DEFAULT@;
    let args = seq![a];
    let none = Seq::<char>::empty();
    assert(t.len() == 26);
    assert(t.subrange(0, 24) =~= "changing the default of "@);
    one_place(t, 0, "changing the default of "@, args, 0);
    assert(t.subrange(26, 26) =~= none);
    no_place(t, 26, none, args, 1);
    assert(text::filled(t, args) =~= "changing the default of "@ + a);
}

/// How a renamed column in words is written.
pub proof fn a_renamed_column_in_words_reads(a: Seq<char>)
    ensures
        text::filled(estimate::RENAMING@, seq![a]) == "renaming "@ + a,
{
    reveal_strlit("renaming {}");
    reveal_strlit("renaming ");
    let t = estimate::RENAMING@;
    let args = seq![a];
    let none = Seq::<char>::empty();
    assert(t.len() == 11);
    assert(t.subrange(0, 9) =~= "renaming "@);
    one_place(t, 0, "renaming "@, args, 0);
    assert(t.subrange(11, 11) =~= none);
    no_place(t, 11, none, args, 1);
    assert(text::filled(t, args) =~= "renaming "@ + a);
}

/// How a renamed table in words is written.
pub proof fn a_renamed_table_in_words_reads(a: Seq<char>)
    ensures
        text::filled(estimate::RENAMING_TABLE@, seq![a]) == "renaming the table "@ + a,
{
    reveal_strlit("renaming the table {}");
    reveal_strlit("renaming the table ");
    let t = estimate::RENAMING_TABLE@;
    let args = seq![a];
    let none = Seq::<char>::empty();
    assert(t.len() == 21);
    assert(t.subrange(0, 19) =~= "renaming the table "@);
    one_place(t, 0, "renaming the table "@, args, 0);
    assert(t.subrange(21, 21) =~= none);
    no_place(t, 21, none, args, 1);
    assert(text::filled(t, args) =~= "renaming the table "@ + a);
}

/// How a dropped table in words is written.
pub proof fn a_dropped_table_in_words_reads(a: Seq<char>)
    ensures
        text::filled(drop_impact::TABLE@, seq![a]) == "table "@ + a,
{
    reveal_strlit("table {}");
    reveal_strlit("table ");
    let t = drop_impact::TABLE@;
    let args = seq![a];
    let none = Seq::<char>::empty();
    assert(t.len() == 8);
    assert(t.subrange(0, 6) =~= "table "@);
    one_place(t, 0, "table "@, args, 0);
    assert(t.subrange(8, 8) =~= none);
    no_place(t, 8, none, args, 1);
    assert(text::filled(t, args) =~= "table "@ + a);
}

/// How a dropped column of a plan is written.
pub proof fn a_dropped_column_of_a_plan_reads(a: Seq<char>)
    ensures
        text::filled(drop_impact::COLUMN@, seq![a]) == "column "@ + a,
{
    reveal_strlit("column {}");
    reveal_strlit("column ");
    let t = drop_impact::COLUMN@;
    let args = seq![a];
    let none = Seq::<char>::empty();
    assert(t.len() == 9);
    assert(t.subrange(0, 7) =~= "column "@);
    one_place(t, 0, "column "@, args, 0);
    assert(t.subrange(9, 9) =~= none);
    no_place(t, 9, none, args, 1);
    assert(text::filled(t, args) =~= "column "@ + a);
}

/// How an owner in words is written.
pub proof fn an_owner_in_words_reads(a: Seq<char>, b: Seq<char>)
    ensures
        text::filled(drop_impact::OWNER@, seq![a, b]) == a + " (internal owner of "@ + b + ")"@,
{
    reveal_strlit("{} (internal owner of {})");
    reveal_strlit(" (internal owner of ");
    reveal_strlit(")");
    let t = drop_impact::OWNER@;
    let args = seq![a, b];
    let none = Seq::<char>::empty();
    assert(t.len() == 25);
    assert(t.subrange(0, 0) =~= none);
    one_place(t, 0, none, args, 0);
    assert(t.subrange(2, 22) =~= " (internal owner of "@);
    one_place(t, 2, " (internal owner of "@, args, 1);
    assert(t.subrange(24, 25) =~= ")"@);
    no_place(t, 24, ")"@, args, 2);
    assert(text::filled(t, args) =~= a + " (internal owner of "@ + b + ")"@);
}

/// How a routine in words is written.
pub proof fn a_routine_in_words_reads(a: Seq<char>, b: Seq<char>, c: Seq<char>)
    ensures
        text::filled(impact::ROUTINE@, seq![a, b, c]) == a + "."@ + b + "("@ + c + ")"@,
{
    reveal_strlit("{}.{}({})");
    reveal_strlit(".");
    reveal_strlit("(");
    reveal_strlit(")");
    let t = impact::ROUTINE@;
    let args = seq![a, b, c];
    let none = Seq::<char>::empty();
    assert(t.len() == 9);
    assert(t.subrange(0, 0) =~= none);
    one_place(t, 0, none, args, 0);
    assert(t.subrange(2, 3) =~= "."@);
    one_place(t, 2, "."@, args, 1);
    assert(t.subrange(5, 6) =~= "("@);
    one_place(t, 5, "("@, args, 2);
    assert(t.subrange(8, 9) =~= ")"@);
    no_place(t, 8, ")"@, args, 3);
    assert(text::filled(t, args) =~= a + "."@ + b + "("@ + c + ")"@);
}

/// How a text body in words is written.
pub proof fn a_text_body_in_words_reads(a: Seq<char>)
    ensures
        text::filled(impact::TEXT_BODY@, seq![a]) == "its "@ + a + " body is text this engine never parsed, so the rename does not reach it and the failure lands the next time it runs"@,
{
    reveal_strlit("its {} body is text this engine never parsed, so the rename does not reach it and the failure lands the next time it runs");
    reveal_strlit("its ");
    reveal_strlit(" body is text this engine never parsed, so the rename does not reach it and the failure lands the next time it runs");
    let t = impact::TEXT_BODY@;
    let args = seq![a];
    let none = Seq::<char>::empty();
    assert(t.len() == 121);
    assert(t.subrange(0, 4) =~= "its "@);
    one_place(t, 0, "its "@, args, 0);
    assert(t.subrange(6, 121) =~= " body is text this engine never parsed, so the rename does not reach it and the failure lands the next time it runs"@);
    no_place(t, 6, " body is text this engine never parsed, so the rename does not reach it and the failure lands the next time it runs"@, args, 1);
    assert(text::filled(t, args) =~= "its "@ + a + " body is text this engine never parsed, so the rename does not reach it and the failure lands the next time it runs"@);
}

/// How a table target in words is written.
pub proof fn a_table_target_in_words_reads(a: Seq<char>)
    ensures
        text::filled(impact::TABLE@, seq![a]) == "table "@ + a,
{
    reveal_strlit("table {}");
    reveal_strlit("table ");
    let t = impact::TABLE@;
    let args = seq![a];
    let none = Seq::<char>::empty();
    assert(t.len() == 8);
    assert(t.subrange(0, 6) =~= "table "@);
    one_place(t, 0, "table "@, args, 0);
    assert(t.subrange(8, 8) =~= none);
    no_place(t, 8, none, args, 1);
    assert(text::filled(t, args) =~= "table "@ + a);
}

/// How a scope is written.
pub proof fn a_scope_reads(a: Seq<char>, b: Seq<char>)
    ensures
        text::filled(sql::SCOPED@, seq![a, b]) == "SET search_path = "@ + a + ";\n"@ + b + "\nRESET search_path;"@,
{
    reveal_strlit("SET search_path = {};\n{}\nRESET search_path;");
    reveal_strlit("SET search_path = ");
    reveal_strlit(";\n");
    reveal_strlit("\nRESET search_path;");
    let t = sql::SCOPED@;
    let args = seq![a, b];
    let none = Seq::<char>::empty();
    assert(t.len() == 43);
    assert(t.subrange(0, 18) =~= "SET search_path = "@);
    one_place(t, 0, "SET search_path = "@, args, 0);
    assert(t.subrange(20, 22) =~= ";\n"@);
    one_place(t, 20, ";\n"@, args, 1);
    assert(t.subrange(24, 43) =~= "\nRESET search_path;"@);
    no_place(t, 24, "\nRESET search_path;"@, args, 2);
    assert(text::filled(t, args) =~= "SET search_path = "@ + a + ";\n"@ + b + "\nRESET search_path;"@);
}

/// How a qualified name is written.
pub proof fn a_qualified_name_reads(a: Seq<char>, b: Seq<char>)
    ensures
        text::filled(sql::DOTTED@, seq![a, b]) == a + "."@ + b,
{
    reveal_strlit("{}.{}");
    reveal_strlit(".");
    let t = sql::DOTTED@;
    let args = seq![a, b];
    let none = Seq::<char>::empty();
    assert(t.len() == 5);
    assert(t.subrange(0, 0) =~= none);
    one_place(t, 0, none, args, 0);
    assert(t.subrange(2, 3) =~= "."@);
    one_place(t, 2, "."@, args, 1);
    assert(t.subrange(5, 5) =~= none);
    no_place(t, 5, none, args, 2);
    assert(text::filled(t, args) =~= a + "."@ + b);
}

/// How an owner of a module is written.
pub proof fn an_owner_of_a_module_reads(a: Seq<char>, b: Seq<char>)
    ensures
        text::filled(modules::OWNED_BY@, seq![a, b]) == "`"@ + a + "` owns it and this session is `"@ + b + "`"@,
{
    reveal_strlit("`{}` owns it and this session is `{}`");
    reveal_strlit("`");
    reveal_strlit("` owns it and this session is `");
    let t = modules::OWNED_BY@;
    let args = seq![a, b];
    let none = Seq::<char>::empty();
    assert(t.len() == 37);
    assert(t.subrange(0, 1) =~= "`"@);
    one_place(t, 0, "`"@, args, 0);
    assert(t.subrange(3, 34) =~= "` owns it and this session is `"@);
    one_place(t, 3, "` owns it and this session is `"@, args, 1);
    assert(t.subrange(36, 37) =~= "`"@);
    no_place(t, 36, "`"@, args, 2);
    assert(text::filled(t, args) =~= "`"@ + a + "` owns it and this session is `"@ + b + "`"@);
}

/// How a default of a view is written.
pub proof fn a_default_of_a_view_reads(a: Seq<char>, b: Seq<char>)
    ensures
        text::filled(modules::DEFAULTS_TO@, seq![a, b]) == "column `"@ + a + "` defaults to "@ + b,
{
    reveal_strlit("column `{}` defaults to {}");
    reveal_strlit("column `");
    reveal_strlit("` defaults to ");
    let t = modules::DEFAULTS_TO@;
    let args = seq![a, b];
    let none = Seq::<char>::empty();
    assert(t.len() == 26);
    assert(t.subrange(0, 8) =~= "column `"@);
    one_place(t, 0, "column `"@, args, 0);
    assert(t.subrange(10, 24) =~= "` defaults to "@);
    one_place(t, 10, "` defaults to "@, args, 1);
    assert(t.subrange(26, 26) =~= none);
    no_place(t, 26, none, args, 2);
    assert(text::filled(t, args) =~= "column `"@ + a + "` defaults to "@ + b);
}

/// How a state of a trigger is written.
pub proof fn a_state_of_a_trigger_reads(a: Seq<char>)
    ensures
        text::filled(modules::OTHER_STATE@, seq![a]) == "`tgenabled` is `"@ + a + "`"@,
{
    reveal_strlit("`tgenabled` is `{}`");
    reveal_strlit("`tgenabled` is `");
    reveal_strlit("`");
    let t = modules::OTHER_STATE@;
    let args = seq![a];
    let none = Seq::<char>::empty();
    assert(t.len() == 19);
    assert(t.subrange(0, 16) =~= "`tgenabled` is `"@);
    one_place(t, 0, "`tgenabled` is `"@, args, 0);
    assert(t.subrange(18, 19) =~= "`"@);
    no_place(t, 18, "`"@, args, 1);
    assert(text::filled(t, args) =~= "`tgenabled` is `"@ + a + "`"@);
}

/// How an arriving grant is written.
pub proof fn an_arriving_grant_reads(a: Seq<char>, b: Seq<char>)
    ensures
        text::filled(modules::ARRIVES_WITH@, seq![a, b]) == "`ALTER DEFAULT PRIVILEGES` for this account in "@ + a + " grants "@ + b,
{
    reveal_strlit("`ALTER DEFAULT PRIVILEGES` for this account in {} grants {}");
    reveal_strlit("`ALTER DEFAULT PRIVILEGES` for this account in ");
    reveal_strlit(" grants ");
    let t = modules::ARRIVES_WITH@;
    let args = seq![a, b];
    let none = Seq::<char>::empty();
    assert(t.len() == 59);
    assert(t.subrange(0, 47) =~= "`ALTER DEFAULT PRIVILEGES` for this account in "@);
    one_place(t, 0, "`ALTER DEFAULT PRIVILEGES` for this account in "@, args, 0);
    assert(t.subrange(49, 57) =~= " grants "@);
    one_place(t, 49, " grants "@, args, 1);
    assert(t.subrange(59, 59) =~= none);
    no_place(t, 59, none, args, 2);
    assert(text::filled(t, args) =~= "`ALTER DEFAULT PRIVILEGES` for this account in "@ + a + " grants "@ + b);
}

/// How a carried thing is written.
pub proof fn a_carried_thing_reads(a: Seq<char>, b: Seq<char>)
    ensures
        text::filled(modules::CARRIED_LINE@, seq![a, b]) == "- "@ + a + ": "@ + b,
{
    reveal_strlit("- {}: {}");
    reveal_strlit("- ");
    reveal_strlit(": ");
    let t = modules::CARRIED_LINE@;
    let args = seq![a, b];
    let none = Seq::<char>::empty();
    assert(t.len() == 8);
    assert(t.subrange(0, 2) =~= "- "@);
    one_place(t, 0, "- "@, args, 0);
    assert(t.subrange(4, 6) =~= ": "@);
    one_place(t, 4, ": "@, args, 1);
    assert(t.subrange(8, 8) =~= none);
    no_place(t, 8, none, args, 2);
    assert(text::filled(t, args) =~= "- "@ + a + ": "@ + b);
}

/// How a table lock is written.
pub proof fn a_table_lock_reads(a: Seq<char>)
    ensures
        text::filled(modules::LOCK_TABLE@, seq![a]) == "LOCK TABLE "@ + a + " IN ACCESS EXCLUSIVE MODE"@,
{
    reveal_strlit("LOCK TABLE {} IN ACCESS EXCLUSIVE MODE");
    reveal_strlit("LOCK TABLE ");
    reveal_strlit(" IN ACCESS EXCLUSIVE MODE");
    let t = modules::LOCK_TABLE@;
    let args = seq![a];
    let none = Seq::<char>::empty();
    assert(t.len() == 38);
    assert(t.subrange(0, 11) =~= "LOCK TABLE "@);
    one_place(t, 0, "LOCK TABLE "@, args, 0);
    assert(t.subrange(13, 38) =~= " IN ACCESS EXCLUSIVE MODE"@);
    no_place(t, 13, " IN ACCESS EXCLUSIVE MODE"@, args, 1);
    assert(text::filled(t, args) =~= "LOCK TABLE "@ + a + " IN ACCESS EXCLUSIVE MODE"@);
}

/// How a module without a lock is written.
pub proof fn a_module_without_a_lock_reads(a: Seq<char>)
    ensures
        text::filled(modules::NO_LOCK@, seq![a]) == "`"@ + a + "` does not say which table it is on, so there is no lock to take"@,
{
    reveal_strlit("`{}` does not say which table it is on, so there is no lock to take");
    reveal_strlit("`");
    reveal_strlit("` does not say which table it is on, so there is no lock to take");
    let t = modules::NO_LOCK@;
    let args = seq![a];
    let none = Seq::<char>::empty();
    assert(t.len() == 67);
    assert(t.subrange(0, 1) =~= "`"@);
    one_place(t, 0, "`"@, args, 0);
    assert(t.subrange(3, 67) =~= "` does not say which table it is on, so there is no lock to take"@);
    no_place(t, 3, "` does not say which table it is on, so there is no lock to take"@, args, 1);
    assert(text::filled(t, args) =~= "`"@ + a + "` does not say which table it is on, so there is no lock to take"@);
}

/// How a module that is not there is written.
pub proof fn a_module_that_is_not_there_reads(a: Seq<char>)
    ensures
        text::filled(modules::NOT_THERE@, seq![a]) == "`"@ + a + "` is not in the catalog"@,
{
    reveal_strlit("`{}` is not in the catalog");
    reveal_strlit("`");
    reveal_strlit("` is not in the catalog");
    let t = modules::NOT_THERE@;
    let args = seq![a];
    let none = Seq::<char>::empty();
    assert(t.len() == 26);
    assert(t.subrange(0, 1) =~= "`"@);
    one_place(t, 0, "`"@, args, 0);
    assert(t.subrange(3, 26) =~= "` is not in the catalog"@);
    no_place(t, 3, "` is not in the catalog"@, args, 1);
    assert(text::filled(t, args) =~= "`"@ + a + "` is not in the catalog"@);
}

/// How a caller is written.
pub proof fn a_caller_reads(a: Seq<char>)
    ensures
        text::filled(modules::CALLER@, seq![a]) == "- "@ + a,
{
    reveal_strlit("- {}");
    reveal_strlit("- ");
    let t = modules::CALLER@;
    let args = seq![a];
    let none = Seq::<char>::empty();
    assert(t.len() == 4);
    assert(t.subrange(0, 2) =~= "- "@);
    one_place(t, 0, "- "@, args, 0);
    assert(t.subrange(4, 4) =~= none);
    no_place(t, 4, none, args, 1);
    assert(text::filled(t, args) =~= "- "@ + a);
}

/// How an unknown dependent is written.
pub proof fn an_unknown_dependent_reads(a: Seq<char>)
    ensures
        text::filled(modules::UNKNOWN_KIND@, seq![a]) == "a dependent of a kind this reader does not know (`"@ + a + "`)"@,
{
    reveal_strlit("a dependent of a kind this reader does not know (`{}`)");
    reveal_strlit("a dependent of a kind this reader does not know (`");
    reveal_strlit("`)");
    let t = modules::UNKNOWN_KIND@;
    let args = seq![a];
    let none = Seq::<char>::empty();
    assert(t.len() == 54);
    assert(t.subrange(0, 50) =~= "a dependent of a kind this reader does not know (`"@);
    one_place(t, 0, "a dependent of a kind this reader does not know (`"@, args, 0);
    assert(t.subrange(52, 54) =~= "`)"@);
    no_place(t, 52, "`)"@, args, 1);
    assert(text::filled(t, args) =~= "a dependent of a kind this reader does not know (`"@ + a + "`)"@);
}

/// How a granted routine is written.
pub proof fn a_granted_routine_reads(a: Seq<char>, b: Seq<char>, c: Seq<char>)
    ensures
        text::filled(granted::ROUTINE_LABEL@, seq![a, b, c]) == "`"@ + a + "."@ + b + "("@ + c + ")`"@,
{
    reveal_strlit("`{}.{}({})`");
    reveal_strlit("`");
    reveal_strlit(".");
    reveal_strlit("(");
    reveal_strlit(")`");
    let t = granted::ROUTINE_LABEL@;
    let args = seq![a, b, c];
    let none = Seq::<char>::empty();
    assert(t.len() == 11);
    assert(t.subrange(0, 1) =~= "`"@);
    one_place(t, 0, "`"@, args, 0);
    assert(t.subrange(3, 4) =~= "."@);
    one_place(t, 3, "."@, args, 1);
    assert(t.subrange(6, 7) =~= "("@);
    one_place(t, 6, "("@, args, 2);
    assert(t.subrange(9, 11) =~= ")`"@);
    no_place(t, 9, ")`"@, args, 3);
    assert(text::filled(t, args) =~= "`"@ + a + "."@ + b + "("@ + c + ")`"@);
}

/// How a granted object is written.
pub proof fn a_granted_object_reads(a: Seq<char>, b: Seq<char>)
    ensures
        text::filled(granted::OBJECT_LABEL@, seq![a, b]) == "`"@ + a + "."@ + b + "`"@,
{
    reveal_strlit("`{}.{}`");
    reveal_strlit("`");
    reveal_strlit(".");
    let t = granted::OBJECT_LABEL@;
    let args = seq![a, b];
    let none = Seq::<char>::empty();
    assert(t.len() == 7);
    assert(t.subrange(0, 1) =~= "`"@);
    one_place(t, 0, "`"@, args, 0);
    assert(t.subrange(3, 4) =~= "."@);
    one_place(t, 3, "."@, args, 1);
    assert(t.subrange(6, 7) =~= "`"@);
    no_place(t, 6, "`"@, args, 2);
    assert(text::filled(t, args) =~= "`"@ + a + "."@ + b + "`"@);
}

/// How a granted schema is written.
pub proof fn a_granted_schema_reads(a: Seq<char>)
    ensures
        text::filled(granted::SCHEMA_LABEL@, seq![a]) == "schema `"@ + a + "`"@,
{
    reveal_strlit("schema `{}`");
    reveal_strlit("schema `");
    reveal_strlit("`");
    let t = granted::SCHEMA_LABEL@;
    let args = seq![a];
    let none = Seq::<char>::empty();
    assert(t.len() == 11);
    assert(t.subrange(0, 8) =~= "schema `"@);
    one_place(t, 0, "schema `"@, args, 0);
    assert(t.subrange(10, 11) =~= "`"@);
    no_place(t, 10, "`"@, args, 1);
    assert(text::filled(t, args) =~= "schema `"@ + a + "`"@);
}

/// How a granted column is written.
pub proof fn a_granted_column_reads(a: Seq<char>, b: Seq<char>)
    ensures
        text::filled(granted::COLUMN_LABEL@, seq![a, b]) == "column `"@ + a + "` of "@ + b,
{
    reveal_strlit("column `{}` of {}");
    reveal_strlit("column `");
    reveal_strlit("` of ");
    let t = granted::COLUMN_LABEL@;
    let args = seq![a, b];
    let none = Seq::<char>::empty();
    assert(t.len() == 17);
    assert(t.subrange(0, 8) =~= "column `"@);
    one_place(t, 0, "column `"@, args, 0);
    assert(t.subrange(10, 15) =~= "` of "@);
    one_place(t, 10, "` of "@, args, 1);
    assert(t.subrange(17, 17) =~= none);
    no_place(t, 17, none, args, 2);
    assert(text::filled(t, args) =~= "column `"@ + a + "` of "@ + b);
}

/// How a stranger is written.
pub proof fn a_stranger_reads(a: Seq<char>, b: Seq<char>, c: Seq<char>)
    ensures
        text::filled(granted::STRANGER_HOLDS@, seq![a, b, c]) == "`"@ + a + "` holds "@ + b + " on "@ + c + ", and is not a role this project can declare"@,
{
    reveal_strlit("`{}` holds {} on {}, and is not a role this project can declare");
    reveal_strlit("`");
    reveal_strlit("` holds ");
    reveal_strlit(" on ");
    reveal_strlit(", and is not a role this project can declare");
    let t = granted::STRANGER_HOLDS@;
    let args = seq![a, b, c];
    let none = Seq::<char>::empty();
    assert(t.len() == 63);
    assert(t.subrange(0, 1) =~= "`"@);
    one_place(t, 0, "`"@, args, 0);
    assert(t.subrange(3, 11) =~= "` holds "@);
    one_place(t, 3, "` holds "@, args, 1);
    assert(t.subrange(13, 17) =~= " on "@);
    one_place(t, 13, " on "@, args, 2);
    assert(t.subrange(19, 63) =~= ", and is not a role this project can declare"@);
    no_place(t, 19, ", and is not a role this project can declare"@, args, 3);
    assert(text::filled(t, args) =~= "`"@ + a + "` holds "@ + b + " on "@ + c + ", and is not a role this project can declare"@);
}

/// How a finding of a role is written.
pub proof fn a_finding_of_a_role_reads(a: Seq<char>, b: Seq<char>)
    ensures
        text::filled(granted::ROLE_FINDING@, seq![a, b]) == "role "@ + a + ": "@ + b,
{
    reveal_strlit("role {}: {}");
    reveal_strlit("role ");
    reveal_strlit(": ");
    let t = granted::ROLE_FINDING@;
    let args = seq![a, b];
    let none = Seq::<char>::empty();
    assert(t.len() == 11);
    assert(t.subrange(0, 5) =~= "role "@);
    one_place(t, 0, "role "@, args, 0);
    assert(t.subrange(7, 9) =~= ": "@);
    one_place(t, 7, ": "@, args, 1);
    assert(t.subrange(11, 11) =~= none);
    no_place(t, 11, none, args, 2);
    assert(text::filled(t, args) =~= "role "@ + a + ": "@ + b);
}

/// How a right to grant is written.
pub proof fn a_right_to_grant_reads(a: Seq<char>)
    ensures
        text::filled(granted::WITH_GRANT_OPTION@, seq![a]) == a + " WITH GRANT OPTION"@,
{
    reveal_strlit("{} WITH GRANT OPTION");
    reveal_strlit(" WITH GRANT OPTION");
    let t = granted::WITH_GRANT_OPTION@;
    let args = seq![a];
    let none = Seq::<char>::empty();
    assert(t.len() == 20);
    assert(t.subrange(0, 0) =~= none);
    one_place(t, 0, none, args, 0);
    assert(t.subrange(2, 20) =~= " WITH GRANT OPTION"@);
    no_place(t, 2, " WITH GRANT OPTION"@, args, 1);
    assert(text::filled(t, args) =~= a + " WITH GRANT OPTION"@);
}

/// How a grant on another kind is written.
pub proof fn a_grant_on_another_kind_reads(a: Seq<char>, b: Seq<char>, c: Seq<char>)
    ensures
        text::filled(granted::ON_OTHER_KIND@, seq![a, b, c]) == a + " on `"@ + b + "` is on "@ + c + ", which this model does not declare"@,
{
    reveal_strlit("{} on `{}` is on {}, which this model does not declare");
    reveal_strlit(" on `");
    reveal_strlit("` is on ");
    reveal_strlit(", which this model does not declare");
    let t = granted::ON_OTHER_KIND@;
    let args = seq![a, b, c];
    let none = Seq::<char>::empty();
    assert(t.len() == 54);
    assert(t.subrange(0, 0) =~= none);
    one_place(t, 0, none, args, 0);
    assert(t.subrange(2, 7) =~= " on `"@);
    one_place(t, 2, " on `"@, args, 1);
    assert(t.subrange(9, 17) =~= "` is on "@);
    one_place(t, 9, "` is on "@, args, 2);
    assert(t.subrange(19, 54) =~= ", which this model does not declare"@);
    no_place(t, 19, ", which this model does not declare"@, args, 3);
    assert(text::filled(t, args) =~= a + " on `"@ + b + "` is on "@ + c + ", which this model does not declare"@);
}

/// How a grant to grant is written.
pub proof fn a_grant_to_grant_reads(a: Seq<char>, b: Seq<char>, c: Seq<char>)
    ensures
        text::filled(granted::GRANT_OPTION@, seq![a, b, c]) == "role "@ + a + ": "@ + b + " on "@ + c + " is `WITH GRANT OPTION`, which the declarations cannot express"@,
{
    reveal_strlit("role {}: {} on {} is `WITH GRANT OPTION`, which the declarations cannot express");
    reveal_strlit("role ");
    reveal_strlit(": ");
    reveal_strlit(" on ");
    reveal_strlit(" is `WITH GRANT OPTION`, which the declarations cannot express");
    let t = granted::GRANT_OPTION@;
    let args = seq![a, b, c];
    let none = Seq::<char>::empty();
    assert(t.len() == 79);
    assert(t.subrange(0, 5) =~= "role "@);
    one_place(t, 0, "role "@, args, 0);
    assert(t.subrange(7, 9) =~= ": "@);
    one_place(t, 7, ": "@, args, 1);
    assert(t.subrange(11, 15) =~= " on "@);
    one_place(t, 11, " on "@, args, 2);
    assert(t.subrange(17, 79) =~= " is `WITH GRANT OPTION`, which the declarations cannot express"@);
    no_place(t, 17, " is `WITH GRANT OPTION`, which the declarations cannot express"@, args, 3);
    assert(text::filled(t, args) =~= "role "@ + a + ": "@ + b + " on "@ + c + " is `WITH GRANT OPTION`, which the declarations cannot express"@);
}

/// How a grant on a column is written.
pub proof fn a_grant_on_a_column_reads(a: Seq<char>, b: Seq<char>, c: Seq<char>, d: Seq<char>)
    ensures
        text::filled(granted::COLUMN_GRANT@, seq![a, b, c, d]) == "role "@ + a + ": "@ + b + " on column `"@ + c + "` of "@ + d + " is a column-level grant, which the declarations cannot express"@,
{
    reveal_strlit("role {}: {} on column `{}` of {} is a column-level grant, which the declarations cannot express");
    reveal_strlit("role ");
    reveal_strlit(": ");
    reveal_strlit(" on column `");
    reveal_strlit("` of ");
    reveal_strlit(" is a column-level grant, which the declarations cannot express");
    let t = granted::COLUMN_GRANT@;
    let args = seq![a, b, c, d];
    let none = Seq::<char>::empty();
    assert(t.len() == 95);
    assert(t.subrange(0, 5) =~= "role "@);
    one_place(t, 0, "role "@, args, 0);
    assert(t.subrange(7, 9) =~= ": "@);
    one_place(t, 7, ": "@, args, 1);
    assert(t.subrange(11, 23) =~= " on column `"@);
    one_place(t, 11, " on column `"@, args, 2);
    assert(t.subrange(25, 30) =~= "` of "@);
    one_place(t, 25, "` of "@, args, 3);
    assert(t.subrange(32, 95) =~= " is a column-level grant, which the declarations cannot express"@);
    no_place(t, 32, " is a column-level grant, which the declarations cannot express"@, args, 4);
    assert(text::filled(t, args) =~= "role "@ + a + ": "@ + b + " on column `"@ + c + "` of "@ + d + " is a column-level grant, which the declarations cannot express"@);
}

/// How an unheld permission is written.
pub proof fn an_unheld_permission_reads(a: Seq<char>, b: Seq<char>, c: Seq<char>)
    ensures
        text::filled(granted::UNHELD_PERMISSION@, seq![a, b, c]) == "role "@ + a + ": "@ + b + " on "@ + c + " is not a permission this model holds; the declarations cannot express it"@,
{
    reveal_strlit("role {}: {} on {} is not a permission this model holds; the declarations cannot express it");
    reveal_strlit("role ");
    reveal_strlit(": ");
    reveal_strlit(" on ");
    reveal_strlit(" is not a permission this model holds; the declarations cannot express it");
    let t = granted::UNHELD_PERMISSION@;
    let args = seq![a, b, c];
    let none = Seq::<char>::empty();
    assert(t.len() == 90);
    assert(t.subrange(0, 5) =~= "role "@);
    one_place(t, 0, "role "@, args, 0);
    assert(t.subrange(7, 9) =~= ": "@);
    one_place(t, 7, ": "@, args, 1);
    assert(t.subrange(11, 15) =~= " on "@);
    one_place(t, 11, " on "@, args, 2);
    assert(t.subrange(17, 90) =~= " is not a permission this model holds; the declarations cannot express it"@);
    no_place(t, 17, " is not a permission this model holds; the declarations cannot express it"@, args, 3);
    assert(text::filled(t, args) =~= "role "@ + a + ": "@ + b + " on "@ + c + " is not a permission this model holds; the declarations cannot express it"@);
}

/// How an unrecorded target is written.
pub proof fn an_unrecorded_target_reads(a: Seq<char>, b: Seq<char>, c: Seq<char>)
    ensures
        text::filled(granted::UNRECORDED_TARGET@, seq![a, b, c]) == "role "@ + a + ": "@ + b + " on "@ + c + " is on an object this pull did not record, so the declarations cannot express it"@,
{
    reveal_strlit("role {}: {} on {} is on an object this pull did not record, so the declarations cannot express it");
    reveal_strlit("role ");
    reveal_strlit(": ");
    reveal_strlit(" on ");
    reveal_strlit(" is on an object this pull did not record, so the declarations cannot express it");
    let t = granted::UNRECORDED_TARGET@;
    let args = seq![a, b, c];
    let none = Seq::<char>::empty();
    assert(t.len() == 97);
    assert(t.subrange(0, 5) =~= "role "@);
    one_place(t, 0, "role "@, args, 0);
    assert(t.subrange(7, 9) =~= ": "@);
    one_place(t, 7, ": "@, args, 1);
    assert(t.subrange(11, 15) =~= " on "@);
    one_place(t, 11, " on "@, args, 2);
    assert(t.subrange(17, 97) =~= " is on an object this pull did not record, so the declarations cannot express it"@);
    no_place(t, 17, " is on an object this pull did not record, so the declarations cannot express it"@, args, 3);
    assert(text::filled(t, args) =~= "role "@ + a + ": "@ + b + " on "@ + c + " is on an object this pull did not record, so the declarations cannot express it"@);
}

/// How one thing is written.
pub proof fn one_thing_reads(a: Seq<char>)
    ensures
        text::filled("1 {}"@, seq![a]) == "1 "@ + a,
{
    reveal_strlit("1 {}");
    reveal_strlit("1 ");
    let t = "1 {}"@;
    let args = seq![a];
    let none = Seq::<char>::empty();
    assert(t.len() == 4);
    assert(t.subrange(0, 2) =~= "1 "@);
    one_place(t, 0, "1 "@, args, 0);
    assert(t.subrange(4, 4) =~= none);
    no_place(t, 4, none, args, 1);
    assert(text::filled(t, args) =~= "1 "@ + a);
}

/// How several things is written.
pub proof fn several_things_reads(a: Seq<char>, b: Seq<char>)
    ensures
        text::filled("{} {}s"@, seq![a, b]) == a + " "@ + b + "s"@,
{
    reveal_strlit("{} {}s");
    reveal_strlit(" ");
    reveal_strlit("s");
    let t = "{} {}s"@;
    let args = seq![a, b];
    let none = Seq::<char>::empty();
    assert(t.len() == 6);
    assert(t.subrange(0, 0) =~= none);
    one_place(t, 0, none, args, 0);
    assert(t.subrange(2, 3) =~= " "@);
    one_place(t, 2, " "@, args, 1);
    assert(t.subrange(5, 6) =~= "s"@);
    no_place(t, 5, "s"@, args, 2);
    assert(text::filled(t, args) =~= a + " "@ + b + "s"@);
}

/// How what is left is written.
pub proof fn what_is_left_reads(a: Seq<char>)
    ensures
        text::filled(" and {} more"@, seq![a]) == " and "@ + a + " more"@,
{
    reveal_strlit(" and {} more");
    reveal_strlit(" and ");
    reveal_strlit(" more");
    let t = " and {} more"@;
    let args = seq![a];
    let none = Seq::<char>::empty();
    assert(t.len() == 12);
    assert(t.subrange(0, 5) =~= " and "@);
    one_place(t, 0, " and "@, args, 0);
    assert(t.subrange(7, 12) =~= " more"@);
    no_place(t, 7, " more"@, args, 1);
    assert(text::filled(t, args) =~= " and "@ + a + " more"@);
}

/// How an unquotable identifier is written.
pub proof fn an_unquotable_identifier_reads(a: Seq<char>)
    ensures
        text::filled(error::UNQUOTABLE@, seq![a]) == "`"@ + a + "` cannot be written as an identifier"@,
{
    reveal_strlit("`{}` cannot be written as an identifier");
    reveal_strlit("`");
    reveal_strlit("` cannot be written as an identifier");
    let t = error::UNQUOTABLE@;
    let args = seq![a];
    let none = Seq::<char>::empty();
    assert(t.len() == 39);
    assert(t.subrange(0, 1) =~= "`"@);
    one_place(t, 0, "`"@, args, 0);
    assert(t.subrange(3, 39) =~= "` cannot be written as an identifier"@);
    no_place(t, 3, "` cannot be written as an identifier"@, args, 1);
    assert(text::filled(t, args) =~= "`"@ + a + "` cannot be written as an identifier"@);
}

/// How an unbuilt part is written.
pub proof fn an_unbuilt_part_reads(a: Seq<char>, b: Seq<char>)
    ensures
        text::filled(error::NOT_BUILT@, seq![a, b]) == "the "@ + a + " dialect does not implement "@ + b + " yet"@,
{
    reveal_strlit("the {} dialect does not implement {} yet");
    reveal_strlit("the ");
    reveal_strlit(" dialect does not implement ");
    reveal_strlit(" yet");
    let t = error::NOT_BUILT@;
    let args = seq![a, b];
    let none = Seq::<char>::empty();
    assert(t.len() == 40);
    assert(t.subrange(0, 4) =~= "the "@);
    one_place(t, 0, "the "@, args, 0);
    assert(t.subrange(6, 34) =~= " dialect does not implement "@);
    one_place(t, 6, " dialect does not implement "@, args, 1);
    assert(t.subrange(36, 40) =~= " yet"@);
    no_place(t, 36, " yet"@, args, 2);
    assert(text::filled(t, args) =~= "the "@ + a + " dialect does not implement "@ + b + " yet"@);
}

/// How a routine identity is written.
pub proof fn a_routine_identity_reads(a: Seq<char>, b: Seq<char>)
    ensures
        text::filled(model::ROUTINE@, seq![a, b]) == a + "("@ + b + ")"@,
{
    reveal_strlit("{}({})");
    reveal_strlit("(");
    reveal_strlit(")");
    let t = model::ROUTINE@;
    let args = seq![a, b];
    let none = Seq::<char>::empty();
    assert(t.len() == 6);
    assert(t.subrange(0, 0) =~= none);
    one_place(t, 0, none, args, 0);
    assert(t.subrange(2, 3) =~= "("@);
    one_place(t, 2, "("@, args, 1);
    assert(t.subrange(5, 6) =~= ")"@);
    no_place(t, 5, ")"@, args, 2);
    assert(text::filled(t, args) =~= a + "("@ + b + ")"@);
}

/// How a schema target is written.
pub proof fn a_schema_target_reads(a: Seq<char>)
    ensures
        text::filled(model::SCHEMA_TARGET@, seq![a]) == "schema::"@ + a,
{
    reveal_strlit("schema::{}");
    reveal_strlit("schema::");
    let t = model::SCHEMA_TARGET@;
    let args = seq![a];
    let none = Seq::<char>::empty();
    assert(t.len() == 10);
    assert(t.subrange(0, 8) =~= "schema::"@);
    one_place(t, 0, "schema::"@, args, 0);
    assert(t.subrange(10, 10) =~= none);
    no_place(t, 10, none, args, 1);
    assert(text::filled(t, args) =~= "schema::"@ + a);
}

/// How a null column is written.
pub proof fn a_null_column_reads(a: Seq<char>)
    ensures
        text::filled(pins::NULL_COLUMN@, seq![a]) == "column `"@ + a + "` is unexpectedly NULL"@,
{
    reveal_strlit("column `{}` is unexpectedly NULL");
    reveal_strlit("column `");
    reveal_strlit("` is unexpectedly NULL");
    let t = pins::NULL_COLUMN@;
    let args = seq![a];
    let none = Seq::<char>::empty();
    assert(t.len() == 32);
    assert(t.subrange(0, 8) =~= "column `"@);
    one_place(t, 0, "column `"@, args, 0);
    assert(t.subrange(10, 32) =~= "` is unexpectedly NULL"@);
    no_place(t, 10, "` is unexpectedly NULL"@, args, 1);
    assert(text::filled(t, args) =~= "column `"@ + a + "` is unexpectedly NULL"@);
}

/// How an unreadable argument list is written.
pub proof fn an_unreadable_argument_list_reads(a: Seq<char>)
    ensures
        text::filled(pins::NOT_JSON@, seq![a]) == "a routine's argument list is not JSON: "@ + a,
{
    reveal_strlit("a routine's argument list is not JSON: {}");
    reveal_strlit("a routine's argument list is not JSON: ");
    let t = pins::NOT_JSON@;
    let args = seq![a];
    let none = Seq::<char>::empty();
    assert(t.len() == 41);
    assert(t.subrange(0, 39) =~= "a routine's argument list is not JSON: "@);
    one_place(t, 0, "a routine's argument list is not JSON: "@, args, 0);
    assert(t.subrange(41, 41) =~= none);
    no_place(t, 41, none, args, 1);
    assert(text::filled(t, args) =~= "a routine's argument list is not JSON: "@ + a);
}

/// How a seed is written.
pub proof fn a_seed_reads(a: Seq<char>, b: Seq<char>, c: Seq<char>)
    ensures
        text::filled(drop_impact::SEED@, seq![a, b, c]) == "("@ + a + "::oid,"@ + b + "::oid,"@ + c + "::int4)"@,
{
    reveal_strlit("({}::oid,{}::oid,{}::int4)");
    reveal_strlit("(");
    reveal_strlit("::oid,");
    reveal_strlit("::int4)");
    let t = drop_impact::SEED@;
    let args = seq![a, b, c];
    let none = Seq::<char>::empty();
    assert(t.len() == 26);
    assert(t.subrange(0, 1) =~= "("@);
    one_place(t, 0, "("@, args, 0);
    assert(t.subrange(3, 9) =~= "::oid,"@);
    one_place(t, 3, "::oid,"@, args, 1);
    assert(t.subrange(11, 17) =~= "::oid,"@);
    one_place(t, 11, "::oid,"@, args, 2);
    assert(t.subrange(19, 26) =~= "::int4)"@);
    no_place(t, 19, "::int4)"@, args, 3);
    assert(text::filled(t, args) =~= "("@ + a + "::oid,"@ + b + "::oid,"@ + c + "::int4)"@);
}

/// How an omitted column is written.
pub proof fn an_omitted_column_reads(a: Seq<char>)
    ensures
        text::filled(drop_impact::OMITTED@, seq![a]) == "drop_blockers: catalog omitted "@ + a,
{
    reveal_strlit("drop_blockers: catalog omitted {}");
    reveal_strlit("drop_blockers: catalog omitted ");
    let t = drop_impact::OMITTED@;
    let args = seq![a];
    let none = Seq::<char>::empty();
    assert(t.len() == 33);
    assert(t.subrange(0, 31) =~= "drop_blockers: catalog omitted "@);
    one_place(t, 0, "drop_blockers: catalog omitted "@, args, 0);
    assert(t.subrange(33, 33) =~= none);
    no_place(t, 33, none, args, 1);
    assert(text::filled(t, args) =~= "drop_blockers: catalog omitted "@ + a);
}

/// How an absent table is written.
pub proof fn an_absent_table_reads(a: Seq<char>)
    ensures
        text::filled(drop_impact::ABSENT_TABLE@, seq![a]) == "drop_blockers: table "@ + a + " is absent from the catalog"@,
{
    reveal_strlit("drop_blockers: table {} is absent from the catalog");
    reveal_strlit("drop_blockers: table ");
    reveal_strlit(" is absent from the catalog");
    let t = drop_impact::ABSENT_TABLE@;
    let args = seq![a];
    let none = Seq::<char>::empty();
    assert(t.len() == 50);
    assert(t.subrange(0, 21) =~= "drop_blockers: table "@);
    one_place(t, 0, "drop_blockers: table "@, args, 0);
    assert(t.subrange(23, 50) =~= " is absent from the catalog"@);
    no_place(t, 23, " is absent from the catalog"@, args, 1);
    assert(text::filled(t, args) =~= "drop_blockers: table "@ + a + " is absent from the catalog"@);
}

/// How an absent column is written.
pub proof fn an_absent_column_reads(a: Seq<char>)
    ensures
        text::filled(drop_impact::ABSENT_COLUMN@, seq![a]) == "drop_blockers: column "@ + a + " is absent from the catalog"@,
{
    reveal_strlit("drop_blockers: column {} is absent from the catalog");
    reveal_strlit("drop_blockers: column ");
    reveal_strlit(" is absent from the catalog");
    let t = drop_impact::ABSENT_COLUMN@;
    let args = seq![a];
    let none = Seq::<char>::empty();
    assert(t.len() == 51);
    assert(t.subrange(0, 22) =~= "drop_blockers: column "@);
    one_place(t, 0, "drop_blockers: column "@, args, 0);
    assert(t.subrange(24, 51) =~= " is absent from the catalog"@);
    no_place(t, 24, " is absent from the catalog"@, args, 1);
    assert(text::filled(t, args) =~= "drop_blockers: column "@ + a + " is absent from the catalog"@);
}

/// How a table nobody has is written.
pub proof fn a_table_nobody_has_reads(a: Seq<char>, b: Seq<char>)
    ensures
        text::filled(impact::NO_TABLE@, seq![a, b]) == a + " is not a table this database has, so what a rename of "@ + b + " would affect cannot be read"@,
{
    reveal_strlit("{} is not a table this database has, so what a rename of {} would affect cannot be read");
    reveal_strlit(" is not a table this database has, so what a rename of ");
    reveal_strlit(" would affect cannot be read");
    let t = impact::NO_TABLE@;
    let args = seq![a, b];
    let none = Seq::<char>::empty();
    assert(t.len() == 87);
    assert(t.subrange(0, 0) =~= none);
    one_place(t, 0, none, args, 0);
    assert(t.subrange(2, 57) =~= " is not a table this database has, so what a rename of "@);
    one_place(t, 2, " is not a table this database has, so what a rename of "@, args, 1);
    assert(t.subrange(59, 87) =~= " would affect cannot be read"@);
    no_place(t, 59, " would affect cannot be read"@, args, 2);
    assert(text::filled(t, args) =~= a + " is not a table this database has, so what a rename of "@ + b + " would affect cannot be read"@);
}

/// How a column nobody has is written.
pub proof fn a_column_nobody_has_reads(a: Seq<char>)
    ensures
        text::filled(impact::NO_COLUMN@, seq![a]) == a + " is not a column this database has, so what a rename of it would affect cannot be read"@,
{
    reveal_strlit("{} is not a column this database has, so what a rename of it would affect cannot be read");
    reveal_strlit(" is not a column this database has, so what a rename of it would affect cannot be read");
    let t = impact::NO_COLUMN@;
    let args = seq![a];
    let none = Seq::<char>::empty();
    assert(t.len() == 88);
    assert(t.subrange(0, 0) =~= none);
    one_place(t, 0, none, args, 0);
    assert(t.subrange(2, 88) =~= " is not a column this database has, so what a rename of it would affect cannot be read"@);
    no_place(t, 2, " is not a column this database has, so what a rename of it would affect cannot be read"@, args, 1);
    assert(text::filled(t, args) =~= a + " is not a column this database has, so what a rename of it would affect cannot be read"@);
}

/// How a blocker is written.
pub proof fn a_blocker_reads(a: Seq<char>, b: Seq<char>)
    ensures
        text::filled(modules::BLOCKED_BY@, seq![a, b]) == "- "@ + a + " — "@ + b,
{
    reveal_strlit("- {} — {}");
    reveal_strlit("- ");
    reveal_strlit(" — ");
    let t = modules::BLOCKED_BY@;
    let args = seq![a, b];
    let none = Seq::<char>::empty();
    assert(t.len() == 9);
    assert(t.subrange(0, 2) =~= "- "@);
    one_place(t, 0, "- "@, args, 0);
    assert(t.subrange(4, 7) =~= " — "@);
    one_place(t, 4, " — "@, args, 1);
    assert(t.subrange(9, 9) =~= none);
    no_place(t, 9, none, args, 2);
    assert(text::filled(t, args) =~= "- "@ + a + " — "@ + b);
}

/// How a column target in words is written.
pub proof fn a_column_target_in_words_reads(a: Seq<char>)
    ensures
        text::filled(impact::COLUMN@, seq![a]) == "column "@ + a,
{
    reveal_strlit("column {}");
    reveal_strlit("column ");
    let t = impact::COLUMN@;
    let args = seq![a];
    let none = Seq::<char>::empty();
    assert(t.len() == 9);
    assert(t.subrange(0, 7) =~= "column "@);
    one_place(t, 0, "column "@, args, 0);
    assert(t.subrange(9, 9) =~= none);
    no_place(t, 9, none, args, 1);
    assert(text::filled(t, args) =~= "column "@ + a);
}

} // verus!

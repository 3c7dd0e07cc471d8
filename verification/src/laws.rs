//! Laws that relate one part of the dialect to another: what is written reads
//! back, what validation accepts is emitted, and every statement of a plan
//! runs under the scope it says.
use vstd::prelude::*;

use crate::definition;
use crate::emit;
use crate::error;
use crate::lexer;
use crate::model;
use crate::sql;
use crate::text;
use crate::validate;

verus! {

// ---------------------------------------------------------------------------
// Identifiers

/// The closing quote of a doubled text is the one behind it.
proof fn quoted_end_passes(front: Seq<char>, s: Seq<char>, back: Seq<char>)
    requires
        back.len() > 0,
        back[0] == '"',
        back.len() > 1 ==> back[1] != '"',
    ensures
        lexer::quoted_end(front + text::doubled(s, '"') + back, front.len() as int) == Some(
            front.len() as int + text::doubled(s, '"').len() as int + 1,
        ),
    decreases s.len(),
{
    reveal_with_fuel(text::doubled, 2);
    let whole = front + text::doubled(s, '"') + back;
    let at = front.len() as int;
    if s.len() == 0 {
        assert(whole[at] == '"');
        assert(lexer::next_char(whole, '"', at) == Some(at));
    } else {
        let head = seq![s[0]];
        let tail = s.drop_first();
        assert(s =~= head + tail);
        text::doubled_appends(head, tail, '"');
        assert(head.drop_last() =~= Seq::<char>::empty());
        if s[0] == '"' {
            assert(text::doubled(head, '"') =~= seq!['"', '"']);
            let next = front + seq!['"', '"'];
            assert(whole =~= next + text::doubled(tail, '"') + back);
            quoted_end_passes(next, tail, back);
            assert(whole[at] == '"' && whole[at + 1] == '"');
            assert(lexer::next_char(whole, '"', at) == Some(at));
        } else {
            assert(text::doubled(head, '"') =~= head);
            let next = front + head;
            assert(whole =~= next + text::doubled(tail, '"') + back);
            quoted_end_passes(next, tail, back);
            assert(whole[at] == s[0]);
            assert(lexer::next_char(whole, '"', at) == lexer::next_char(whole, '"', at + 1));
            next_char_goes_on(whole, '"', at + 1);
        }
    }
}

/// The next character is behind the position it is looked for from.
proof fn next_char_goes_on(s: Seq<char>, c: char, at: int)
    requires
        0 <= at,
    ensures
        lexer::next_char(s, c, at) matches Some(p) ==> at <= p < s.len() && s[p] == c,
    decreases s.len() - at,
{
    if at < s.len() && s[at] != c {
        next_char_goes_on(s, c, at + 1);
    }
}

/// A quoted identifier is one identifier from its first character to its last,
/// and it spells the name that was quoted, whatever that name holds.
pub proof fn a_quoted_identifier_reads_back(
    ident: Seq<char>,
    escape: char,
    decodings: Seq<definition::Decoding>,
)
    ensures
        lexer::one_ident_end(sql::quoted_text(ident), 0) == Some(
            sql::quoted_text(ident).len() as int,
        ),
        definition::unquoted_text(sql::quoted_text(ident), escape, decodings) == Some(ident),
{
    let q = sql::quoted_text(ident);
    let inner = text::doubled(ident, '"');
    assert(q =~= seq!['"'] + inner + seq!['"']);
    quoted_end_passes(seq!['"'], ident, seq!['"']);
    assert(q[0] == '"');
    assert(q.last() == '"');
    assert(q.subrange(1, q.len() - 1) =~= inner);
    text::undoubled_reads_doubled(Seq::empty(), ident, '"');
    assert(Seq::<char>::empty() + inner =~= inner);
}

/// A quoted name ends where it is closed, wherever it stands.
pub proof fn a_quoted_name_ends_where_it_is_closed(
    front: Seq<char>,
    ident: Seq<char>,
    back: Seq<char>,
)
    requires
        back.len() > 0 ==> back[0] != '"',
    ensures
        lexer::quoted_end(front + sql::quoted_text(ident) + back, front.len() as int + 1) == Some(
            (front.len() + sql::quoted_text(ident).len()) as int,
        ),
{
    let inner = text::doubled(ident, '"');
    let opened = front + seq!['"'];
    let closed = seq!['"'] + back;
    assert(front + sql::quoted_text(ident) + back =~= opened + inner + closed);
    quoted_end_passes(opened, ident, closed);
}

/// Two names that are quoted the same are the same name.
pub proof fn quoting_is_injective(a: Seq<char>, b: Seq<char>)
    requires
        sql::quoted_text(a) == sql::quoted_text(b),
    ensures
        a == b,
{
    a_quoted_identifier_reads_back(a, '\\', Seq::empty());
    a_quoted_identifier_reads_back(b, '\\', Seq::empty());
}

// ---------------------------------------------------------------------------
// Literals

/// The closing quote of a doubled text is the one behind it.
proof fn literal_end_passes(front: Seq<char>, s: Seq<char>)
    ensures
        lexer::literal_end(
            front + text::doubled(s, '\'') + seq!['\''],
            front.len() as int,
            false,
        ) == Some(front.len() as int + text::doubled(s, '\'').len() as int + 1),
    decreases s.len(),
{
    reveal_with_fuel(text::doubled, 2);
    let back = seq!['\''];
    let whole = front + text::doubled(s, '\'') + back;
    let at = front.len() as int;
    if s.len() == 0 {
        assert(whole[at] == '\'');
        assert(whole.len() == at + 1);
    } else {
        let head = seq![s[0]];
        let tail = s.drop_first();
        assert(s =~= head + tail);
        text::doubled_appends(head, tail, '\'');
        assert(head.drop_last() =~= Seq::<char>::empty());
        if s[0] == '\'' {
            assert(text::doubled(head, '\'') =~= seq!['\'', '\'']);
            let next = front + seq!['\'', '\''];
            assert(whole =~= next + text::doubled(tail, '\'') + back);
            literal_end_passes(next, tail);
            assert(whole[at] == '\'' && whole[at + 1] == '\'');
        } else {
            assert(text::doubled(head, '\'') =~= head);
            let next = front + head;
            assert(whole =~= next + text::doubled(tail, '\'') + back);
            literal_end_passes(next, tail);
            assert(whole[at] == s[0]);
        }
    }
}

/// A text between quotes has nothing around it to take off.
proof fn a_literal_is_bare_already(e: Seq<char>)
    requires
        e.len() >= 2,
        e[0] == '\'',
        e.last() == '\'',
        lexer::literal_end(e, 1, false) == Some(e.len() as int),
    ensures
        lexer::stripped(e) == e,
        lexer::datum_end_at(e, 0) == Some(e.len() as int),
{
    assert(lexer::opener(e, 0) == Some((1int, false)));
    assert(lexer::past_gap(e, 0) == 0);
    assert(e.skip(0) =~= e);
    assert(lexer::datum_end_at(e, 0) == Some(e.len() as int));
    assert(lexer::code_end(e, e.len() as int, e.len() as int) == e.len());
    assert(lexer::code_end(e, 0, 0) == e.len());
    assert(e.take(e.len() as int) =~= e);
    assert(lexer::bared_end(e) == e);
    assert(lexer::solid_from(e, 0) == 0);
    assert(lexer::solid_to(e, 0, e.len() as int) == e.len());
    assert(e.subrange(0, e.len() as int) =~= e);
    assert(lexer::trimmed(e) == e);
    assert(lexer::ungrouped(e) == e);
}

/// A literal is one bare literal and nothing else, and it spells the text that
/// was written, whatever that text holds.
pub proof fn a_literal_reads_back(s: Seq<char>)
    ensures
        lexer::is_bare_literal(sql::literal_text(s)),
        lexer::datum_end(sql::literal_text(s), 0) == Some(sql::literal_text(s).len() as int),
        text::undoubled_from(
            sql::literal_text(s).subrange(1, sql::literal_text(s).len() - 1),
            '\'',
            0,
        ) == s,
{
    let e = sql::literal_text(s);
    let inner = text::doubled(s, '\'');
    literal_end_passes(seq!['\''], s);
    assert(e =~= seq!['\''] + inner + seq!['\'']);
    assert(e[0] == '\'' && e.last() == '\'');
    a_literal_is_bare_already(e);
    assert(lexer::continued(e, e.len() as int));
    assert(e.subrange(1, e.len() - 1) =~= inner);
    text::undoubled_reads_doubled(Seq::empty(), s, '\'');
    assert(Seq::<char>::empty() + inner =~= inner);
}

/// A default that is one bare literal is never emitted on a type whose text a
/// session setting decides, however the literal is written.
pub proof fn a_literal_of_an_ambiguous_type_is_refused(
    column: Seq<char>,
    ty: model::ColumnType,
    value: Seq<char>,
)
    requires
        emit::setting_sensitive(ty.base@),
    ensures
        emit::unresolved(column, ty, sql::literal_text(value)) is Some,
{
    a_literal_reads_back(value);
}

// ---------------------------------------------------------------------------
// Dollar quoting

/// A body between two of the tags chosen for it.
pub open spec fn block(body: Seq<char>) -> Seq<char> {
    sql::free_tag(body) + seq!['\n'] + body + seq!['\n'] + sql::free_tag(body)
}

/// A text between two of its free tags is one datum: nothing inside it closes
/// the block, not even together with the characters around it.
pub proof fn a_block_is_closed_by_its_last_tag(body: Seq<char>)
    ensures
        lexer::datum_end(block(body), 0) == Some(block(body).len() as int),
{
    let tag = sql::free_tag(body);
    let whole = block(body);
    let n = tag.len() as int;
    let close = n + 1 + body.len() + 1;
    sql::a_tag_is_a_name_between_dollars(sql::first_free(body, 0));
    sql::the_tag_is_never_in_the_body(body);
    assert(whole.len() == close + n);
    assert(whole.subrange(0, n) =~= tag);
    assert(forall|i: int| 0 <= i < n ==> whole[i] == tag[i]);
    assert(forall|i: int| 0 <= i < n ==> whole[close + i] == tag[i]);
    assert(whole[n] == '\n');
    assert(whole[close - 1] == '\n');
    assert forall|i: int| 0 <= i < body.len() implies whole[n + 1 + i] == body[i] by {}
    // The opening tag ends at its second dollar.
    assert(whole[0] == '$');
    skips_to(whole, '$', 1, n - 1);
    assert(lexer::next_char(whole, '$', 1) == Some(n - 1));
    assert(whole.subrange(1, n - 1) =~= tag.subrange(1, n - 1));
    assert(lexer::is_tag(whole.subrange(1, n - 1)));
    assert(lexer::delimiter_end(whole, 0) == Some(n));
    // The tag stands nowhere in front of its last place.
    assert forall|k: int| n <= k < close implies !text::occurs_at(whole, tag, k) by {
        if text::occurs_at(whole, tag, k) {
            let here = whole.subrange(k, k + n);
            assert(here =~= tag);
            assert(here[0] == whole[k]);
            if k == n || k == close - 1 {
                assert(whole[k] == '\n');
                assert(tag[0] == '$');
            } else if k + n <= close - 1 {
                assert(body.subrange(k - n - 1, k - 1) =~= tag) by {
                    assert forall|i: int| 0 <= i < n implies body.subrange(k - n - 1, k - 1)[i]
                        == tag[i] by {
                        assert(whole[n + 1 + (k - n - 1 + i)] == body[k - n - 1 + i]);
                        assert(here[i] == whole[k + i]);
                    }
                }
                assert(text::occurs_at(body, tag, k - n - 1));
                assert(text::holds(body, tag));
            } else {
                assert(here[close - 1 - k] == whole[close - 1]);
                assert(tag[close - 1 - k] == '\n');
                assert(tag[0] == '$');
                assert(tag.last() == '$');
            }
        }
    }
    assert(whole.subrange(close, close + n) =~= tag);
    assert(text::occurs_at(whole, tag, close));
    text::first_at_is_first(whole, tag, n);
    match text::first_at(whole, tag, n) {
        Some(at) => {
            if at > close {
                assert(!text::occurs_at(whole, tag, close));
            }
            assert(at == close);
        },
        None => {
            assert(!text::occurs_at(whole, tag, close));
        },
    }
    assert(lexer::opener(whole, 0) is None);
}

/// The next character is the first there is.
proof fn skips_to(s: Seq<char>, c: char, at: int, to: int)
    requires
        0 <= at <= to < s.len(),
        s[to] == c,
        forall|i: int| at <= i < to ==> s[i] != c,
    ensures
        lexer::next_char(s, c, at) == Some(to),
    decreases to - at,
{
    if at < to {
        skips_to(s, c, at + 1, to);
    }
}

// ---------------------------------------------------------------------------
// The write path

/// Whether a path can list a schema.
pub open spec fn can_be_listed(schema: Seq<char>) -> bool {
    &&& sql::is_ident(schema)
    &&& schema != sql::NOT_A_SCHEMA_A_PATH_CAN_NAME@
    &&& schema != sql::NOT_A_SCHEMA_A_PATH_MAY_LIST@
}

/// A refusal among some pieces is one of them.
proof fn a_refusal_is_a_piece<T>(parts: Seq<Result<T, error::Refusal>>)
    requires
        forall|i: int| 0 <= i < parts.len() ==> (#[trigger] parts[i]) is Ok,
    ensures
        error::first_refusal(parts) is None,
    decreases parts.len(),
{
    if parts.len() > 0 {
        assert(parts[0] is Ok);
        assert forall|i: int| 0 <= i < parts.drop_first().len() implies (
        #[trigger] parts.drop_first()[i]) is Ok by {
            assert(parts.drop_first()[i] == parts[i + 1]);
        }
        a_refusal_is_a_piece(parts.drop_first());
    }
}

/// A write path is built exactly where every schema on it can be listed: it
/// never lists `pg_catalog`, which would move it from the front, and never
/// `$user`, which the engine reads as somebody's own schema.
pub proof fn a_write_path_lists_only_schemas_that_can_be_listed(
    schema: Seq<char>,
    extras: Seq<Seq<char>>,
)
    ensures
        sql::write_path_text(schema, extras) is Ok <==> forall|i: int|
            0 <= i < sql::path_schemas(schema, extras).len() ==> can_be_listed(
                #[trigger] sql::path_schemas(schema, extras)[i],
            ),
{
    let schemas = sql::path_schemas(schema, extras);
    let parts = Seq::new(schemas.len(), |i: int| sql::path_entry(schemas[i]));
    if forall|i: int| 0 <= i < schemas.len() ==> can_be_listed(#[trigger] schemas[i]) {
        assert forall|i: int| 0 <= i < parts.len() implies (#[trigger] parts[i]) is Ok by {
            assert(can_be_listed(schemas[i]));
        }
        a_refusal_is_a_piece(parts);
    }
    if sql::write_path_text(schema, extras) is Ok {
        error::nothing_refused(parts);
        assert forall|i: int| 0 <= i < schemas.len() implies can_be_listed(
            #[trigger] schemas[i],
        ) by {
            assert(parts[i] is Ok);
        }
    }
}

// ---------------------------------------------------------------------------
// Templates

/// Whether a `{}` begins at `i`.
spec fn is_slot(template: Seq<char>, i: int) -> bool {
    0 <= i && i + 1 < template.len() && template[i] == '{' && template[i + 1] == '}'
}

/// What stands in a template between two slots is copied.
proof fn copies(template: Seq<char>, from: int, to: int, args: Seq<Seq<char>>, k: int)
    requires
        0 <= from <= to <= template.len(),
        forall|i: int| from <= i < to ==> !is_slot(template, i),
    ensures
        text::filled_from(template, from, args, k) == template.subrange(from, to)
            + text::filled_from(template, to, args, k),
    decreases to - from,
{
    if from == to {
        assert(template.subrange(from, to) =~= Seq::<char>::empty());
        assert(Seq::<char>::empty() + text::filled_from(template, to, args, k)
            =~= text::filled_from(template, to, args, k));
    } else {
        assert(!is_slot(template, from));
        copies(template, from + 1, to, args, k);
        assert(seq![template[from]] + (template.subrange(from + 1, to) + text::filled_from(
            template,
            to,
            args,
            k,
        )) =~= template.subrange(from, to) + text::filled_from(template, to, args, k));
    }
}

/// A schema and a name with a dot between them.
proof fn dotted_fills(a: Seq<char>, b: Seq<char>)
    ensures
        text::filled(sql::DOTTED@, seq![a, b]) == a + seq!['.'] + b,
{
    reveal_strlit("{}.{}");
    let t = sql::DOTTED@;
    let args = seq![a, b];
    assert(t.len() == 5);
    assert(text::filled_from(t, 5, args, 2) == Seq::<char>::empty());
    assert(text::filled_from(t, 3, args, 1) =~= b);
    assert(text::filled_from(t, 2, args, 1) =~= seq!['.'] + b);
    assert(text::filled_from(t, 0, args, 0) =~= a + (seq!['.'] + b));
    assert(a + (seq!['.'] + b) =~= a + seq!['.'] + b);
}

/// What opens the scope of a statement.
pub const OPENS: &'static str = "SET search_path = ";

/// What stands between the path and the statement.
pub const BETWEEN: &'static str = ";\n";

/// What closes the scope of a statement.
pub const CLOSES: &'static str = "\nRESET search_path;";

/// A statement between the two that set its scope and give it back.
pub open spec fn in_scope(path: Seq<char>, body: Seq<char>) -> Seq<char> {
    OPENS@ + path + BETWEEN@ + body + CLOSES@
}

/// A scoped statement is its path, itself, and the reset, each where it
/// belongs.
pub proof fn a_scope_is_opened_and_closed(path: Seq<char>, body: Seq<char>)
    ensures
        text::filled(sql::SCOPED@, seq![path, body]) == in_scope(path, body),
{
    reveal_strlit("SET search_path = {};\n{}\nRESET search_path;");
    reveal_strlit("SET search_path = ");
    reveal_strlit(";\n");
    reveal_strlit("\nRESET search_path;");
    let t = sql::SCOPED@;
    let args = seq![path, body];
    assert(OPENS@.len() == 18);
    assert(BETWEEN@.len() == 2);
    assert(CLOSES@.len() == 19);
    assert(t.len() == 43);
    copies(t, 0, 18, args, 0);
    assert(t.subrange(0, 18) =~= OPENS@);
    assert(is_slot(t, 18));
    assert(text::filled_from(t, 18, args, 0) == path + text::filled_from(t, 20, args, 1));
    copies(t, 20, 22, args, 1);
    assert(t.subrange(20, 22) =~= BETWEEN@);
    assert(is_slot(t, 22));
    assert(text::filled_from(t, 22, args, 1) == body + text::filled_from(t, 24, args, 2));
    copies(t, 24, 43, args, 2);
    assert(t.subrange(24, 43) =~= CLOSES@);
    assert(text::filled_from(t, 43, args, 2) =~= Seq::<char>::empty());
    assert(text::filled(t, args) =~= OPENS@ + path + BETWEEN@ + body + CLOSES@);
}

// ---------------------------------------------------------------------------
// Statements

/// Whether a path is the write path of some schema.
pub open spec fn is_write_path(extras: Seq<Seq<char>>, path: Seq<char>) -> bool {
    exists|schema: Seq<char>|
        #[trigger] sql::write_path_text(schema, extras) == Ok::<Seq<char>, error::Refusal>(path)
}

/// Whether a statement is between the two that set the write path of a schema
/// and give it back.
pub open spec fn is_scoped(extras: Seq<Seq<char>>, sql: Seq<char>) -> bool {
    exists|path: Seq<char>, body: Seq<char>|
        sql == #[trigger] in_scope(path, body) && is_write_path(extras, path)
}

/// What every statement of this dialect keeps to: it shares the transaction
/// and a batch and runs under a scope of its own, or it is alone outside the
/// transaction.
pub open spec fn is_framed(extras: Seq<Seq<char>>, s: emit::StatementView) -> bool {
    &&& s.transactional == !s.own_batch
    &&& s.transactional ==> is_scoped(extras, s.sql)
}

proof fn scoped_is_scoped(
    schema: Seq<char>,
    extras: Seq<Seq<char>>,
    body: Result<Seq<char>, error::Refusal>,
)
    ensures
        sql::scoped_text(schema, extras, body) matches Ok(sql) ==> is_scoped(extras, sql),
{
    reveal_with_fuel(error::first_refusal, 3);
    match (body, sql::write_path_text(schema, extras)) {
        (Ok(b), Ok(path)) => {
            let parts = seq![sql::write_path_text(schema, extras), body];
            assert(Seq::new(parts.len(), |i: int| parts[i]->Ok_0) =~= seq![path, b]);
            assert(parts.drop_first() =~= seq![body]);
            assert(seq![body].drop_first() =~= Seq::empty());
            a_scope_is_opened_and_closed(path, b);
            assert(is_write_path(extras, path));
        },
        (Ok(b), Err(e)) => {
            let parts = seq![sql::write_path_text(schema, extras), body];
            assert(parts[0] is Err);
        },
        _ => {},
    }
}

/// What was gathered is made of the pieces it was gathered from.
proof fn gathered_is_framed(
    extras: Seq<Seq<char>>,
    parts: Seq<Result<emit::StatementView, error::Refusal>>,
)
    requires
        forall|i: int|
            0 <= i < parts.len() ==> ((#[trigger] parts[i]) matches Ok(s) ==> is_framed(extras, s)
                && s.transactional),
    ensures
        error::collected(parts) matches Ok(all) ==> forall|i: int|
            0 <= i < all.len() ==> is_framed(extras, #[trigger] all[i]) && all[i].transactional,
{
    if error::first_refusal(parts) is None {
        error::nothing_refused(parts);
        let all = Seq::new(parts.len(), |i: int| parts[i]->Ok_0);
        assert forall|i: int| 0 <= i < all.len() implies is_framed(extras, #[trigger] all[i])
            && all[i].transactional by {
            assert(parts[i] is Ok);
        }
    }
}

proof fn scoped_statement_is_framed(
    extras: Seq<Seq<char>>,
    schema: Seq<char>,
    body: Result<Seq<char>, error::Refusal>,
)
    ensures
        emit::scoped(extras, schema, body) matches Ok(s) ==> is_framed(extras, s) && s.transactional,
        emit::single(extras, schema, body) matches Ok(all) ==> all.len() == 1 && is_framed(
            extras,
            all[0],
        ) && all[0].transactional,
{
    scoped_is_scoped(schema, extras, body);
}

proof fn created_table_is_framed(
    extras: Seq<Seq<char>>,
    name: model::Qualified,
    table: model::Table,
)
    ensures
        emit::create_table_statements(extras, name, table) matches Ok(all) ==> forall|i: int|
            0 <= i < all.len() ==> is_framed(extras, #[trigger] all[i]) && all[i].transactional,
{
    if table.columns@.len() > 0 {
        let first = seq![emit::table_statement(extras, name, table)];
        let u = emit::unique_statements(extras, name, table);
        let c = emit::check_statements(extras, name, table);
        let f = emit::foreign_key_statements(extras, name, table);
        let x = emit::index_statements(extras, name, table);
        let parts = first + u + c + f + x;
        assert forall|i: int| 0 <= i < parts.len() implies ((#[trigger] parts[i]) matches Ok(s)
            ==> is_framed(extras, s) && s.transactional) by {
            let q = sql::qualified_text(name);
            if i == 0 {
                scoped_is_scoped(
                    name.0,
                    extras,
                    error::composed(
                        emit::CREATE_TABLE@,
                        seq![
                            q,
                            error::joined_all(emit::table_lines(table), emit::NEXT_LINE@),
                        ],
                    ),
                );
                assert(parts[0] == first[0]);
            } else if i < 1 + u.len() {
                let k = i - 1;
                assert(parts[i] == u[k]);
                scoped_statement_is_framed(
                    extras,
                    name.0,
                    emit::add_unique_text(q, table.unique@[k].0@, table.unique@[k].1),
                );
            } else if i < 1 + u.len() + c.len() {
                let k = i - 1 - u.len();
                assert(parts[i] == c[k]);
                scoped_statement_is_framed(
                    extras,
                    name.0,
                    emit::add_check_text(
                        q,
                        table.checks@[k].0@,
                        table.checks@[k].1.expression@,
                    ),
                );
            } else if i < 1 + u.len() + c.len() + f.len() {
                let k = i - 1 - u.len() - c.len();
                assert(parts[i] == f[k]);
                scoped_statement_is_framed(
                    extras,
                    name.0,
                    emit::add_foreign_key_text(
                        q,
                        table.foreign_keys@[k].0@,
                        table.foreign_keys@[k].1,
                    ),
                );
            } else {
                let k = i - 1 - u.len() - c.len() - f.len();
                assert(parts[i] == x[k]);
                scoped_statement_is_framed(
                    extras,
                    name.0,
                    emit::create_index_text(
                        name,
                        table.indexes@[k].0@,
                        table.indexes@[k].1,
                        model::Strategy { online: false },
                    ),
                );
            }
        }
        gathered_is_framed(extras, parts);
    }
}

proof fn rename_step_is_framed(
    extras: Seq<Seq<char>>,
    template: Seq<char>,
    at: model::Qualified,
    target: Seq<char>,
    to: model::Qualified,
)
    ensures
        emit::rename_statement(extras, template, at, target, to) matches Ok(s) ==> is_framed(extras, s)
            && s.transactional && s.renames == Some((at, to)),
{
    scoped_is_scoped(
        at.0,
        extras,
        error::composed(template, seq![sql::qualified_text(at), sql::quoted(target)]),
    );
}

proof fn rename_is_framed(extras: Seq<Seq<char>>, from: model::Qualified, to: model::Qualified)
    ensures
        emit::rename_table_statements(extras, from, to) matches Ok(all) ==> forall|i: int|
            0 <= i < all.len() ==> is_framed(extras, #[trigger] all[i]) && all[i].transactional,
{
    let moved = (to.0, from.1);
    let at = if from.0 != to.0 {
        moved
    } else {
        from
    };
    rename_step_is_framed(extras, emit::SET_SCHEMA@, from, to.0, moved);
    rename_step_is_framed(extras, emit::RENAME_TO@, at, to.1, to);
    let transfer = if from.0 != to.0 {
        seq![emit::rename_statement(extras, emit::SET_SCHEMA@, from, to.0, moved)]
    } else {
        Seq::empty()
    };
    let rename = if at.1 != to.1 {
        seq![emit::rename_statement(extras, emit::RENAME_TO@, at, to.1, to)]
    } else {
        Seq::empty()
    };
    gathered_is_framed(extras, transfer + rename);
}

proof fn modules_are_framed(extras: Seq<Seq<char>>, parts: Seq<Result<Seq<char>, error::Refusal>>)
    requires
        forall|i: int|
            0 <= i < parts.len() ==> ((#[trigger] parts[i]) matches Ok(sql) ==> is_scoped(extras, sql)),
    ensures
        emit::module_statements(parts) matches Ok(all) ==> forall|i: int|
            0 <= i < all.len() ==> is_framed(extras, #[trigger] all[i]) && all[i].transactional,
{
    let all = Seq::new(parts.len(), |i: int| emit::module_statement(parts[i]));
    assert forall|i: int| 0 <= i < all.len() implies ((#[trigger] all[i]) matches Ok(s)
        ==> is_framed(extras, s) && s.transactional) by {
        assert(parts[i] matches Ok(sql) ==> is_scoped(extras, sql));
    }
    gathered_is_framed(extras, all);
}

/// The `CREATE` and the `DROP` of a module are scoped.
proof fn module_texts_are_scoped(
    extras: Seq<Seq<char>>,
    id: model::ModuleIdView,
    module: model::Module,
    kind: model::ModuleKind,
)
    ensures
        definition::create_module_text(extras, id, module) matches Ok(sql) ==> is_scoped(extras, sql),
        definition::drop_module_text(extras, id, kind) matches Ok(sql) ==> is_scoped(extras, sql),
{
    scoped_is_scoped(
        model::module_schema(id),
        extras,
        error::composed(
            definition::TERMINATED@,
            seq![definition::create_body_text(id, module)],
        ),
    );
    let object = definition::object_text(id);
    match kind {
        model::ModuleKind::View => scoped_is_scoped(
            model::module_schema(id),
            extras,
            error::composed(definition::DROP_VIEW@, seq![object]),
        ),
        model::ModuleKind::Function | model::ModuleKind::Procedure => scoped_is_scoped(
            model::module_schema(id),
            extras,
            error::composed(
                definition::DROP_ROUTINE@,
                seq![
                    Ok::<Seq<char>, error::Refusal>(definition::keyword_text(kind)),
                    object,
                    definition::signature_text(id),
                ],
            ),
        ),
        model::ModuleKind::Trigger => scoped_is_scoped(
            model::module_schema(id),
            extras,
            error::composed(
                definition::DROP_TRIGGER@,
                seq![sql::quoted(model::module_name(id)), definition::attached_name(id)],
            ),
        ),
    }
}

/// Whether a change builds an index concurrently.
pub open spec fn builds_concurrently(change: model::Change, strategy: model::Strategy) -> bool {
    match change {
        model::Change::AddIndex { table: _, name: _, index } => emit::is_concurrent(
            index,
            strategy,
        ),
        _ => false,
    }
}

/// Every statement of every change runs inside the transaction under a write
/// path of its own, which it gives back. The one exception is a concurrent
/// index build, which is alone in its batch and outside the transaction.
pub proof fn every_statement_is_framed(
    extras: Seq<Seq<char>>,
    change: model::Change,
    strategy: model::Strategy,
)
    ensures
        emit::emitted(extras, change, strategy) matches Ok(all) ==> forall|i: int|
            0 <= i < all.len() ==> is_framed(extras, #[trigger] all[i]) && all[i].transactional
                == !builds_concurrently(change, strategy),
{
    match change {
        model::Change::CreateTable { name, table } => created_table_is_framed(
            extras,
            name@,
            table,
        ),
        model::Change::DropTable { name } => scoped_statement_is_framed(
            extras,
            name@.0,
            error::composed(emit::DROP_TABLE@, seq![sql::qualified_text(name@)]),
        ),
        model::Change::RenameTable { from, to } => rename_is_framed(extras, from@, to@),
        model::Change::AddColumn { table, name, column } => scoped_is_scoped(
            table@.0,
            extras,
            error::composed(
                emit::ADD_COLUMN@,
                seq![sql::qualified_text(table@), emit::column_definition_text(name@, column)],
            ),
        ),
        model::Change::DropColumn { column } => scoped_statement_is_framed(
            extras,
            column@.0.0,
            error::composed(
                emit::DROP_COLUMN@,
                seq![sql::qualified_text(column@.0), sql::quoted(column@.1)],
            ),
        ),
        model::Change::RenameColumn { table, from, to } => scoped_statement_is_framed(
            extras,
            table@.0,
            error::composed(
                emit::RENAME_COLUMN@,
                seq![sql::qualified_text(table@), sql::quoted(from@), sql::quoted(to@)],
            ),
        ),
        model::Change::AlterColumnType {
            column,
            from,
            to,
            from_nullable,
            to_nullable,
            incompatible,
            zone_decided,
        } => scoped_statement_is_framed(
            extras,
            column@.0.0,
            emit::alter_type_text(
                column@,
                from.normal,
                to.normal,
                (from_nullable, to_nullable),
                incompatible,
                zone_decided,
            ),
        ),
        model::Change::AlterColumnNullability { column, to_nullable } => scoped_statement_is_framed(
            extras,
            column@.0.0,
            error::composed(
                emit::ALTER_NULLABILITY@,
                seq![
                    sql::qualified_text(column@.0),
                    sql::quoted(column@.1),
                    Ok::<Seq<char>, error::Refusal>(emit::nullability_text(to_nullable)),
                ],
            ),
        ),
        model::Change::AlterColumnDefault { column, from: _, to } => scoped_statement_is_framed(
            extras,
            column@.0.0,
            emit::alter_default_text(column@, to),
        ),
        model::Change::SetPrimaryKey { table, from, to } => {
            let dropped = match from {
                Some(pk) => seq![
                    emit::scoped(extras, table@.0, emit::drop_primary_key_text(table@, pk)),
                ],
                None => Seq::empty(),
            };
            let added = match to {
                Some(pk) => seq![
                    emit::scoped(
                        extras,
                        table@.0,
                        error::composed(
                            emit::ADD@,
                            seq![sql::qualified_text(table@), emit::primary_key_text(pk)],
                        ),
                    ),
                ],
                None => Seq::empty(),
            };
            if let Some(pk) = from {
                scoped_statement_is_framed(
                    extras,
                    table@.0,
                    emit::drop_primary_key_text(table@, pk),
                );
            }
            if let Some(pk) = to {
                scoped_statement_is_framed(
                    extras,
                    table@.0,
                    error::composed(
                        emit::ADD@,
                        seq![sql::qualified_text(table@), emit::primary_key_text(pk)],
                    ),
                );
            }
            gathered_is_framed(extras, dropped + added);
        },
        model::Change::AddUnique { table, name, constraint } => scoped_statement_is_framed(
            extras,
            table@.0,
            emit::add_unique_text(sql::qualified_text(table@), name@, constraint),
        ),
        model::Change::AddForeignKey { table, name, constraint } => scoped_statement_is_framed(
            extras,
            table@.0,
            emit::add_foreign_key_text(sql::qualified_text(table@), name@, constraint),
        ),
        model::Change::AddCheck { table, name, constraint } => scoped_statement_is_framed(
            extras,
            table@.0,
            emit::add_check_text(
                sql::qualified_text(table@),
                name@,
                constraint.expression@,
            ),
        ),
        model::Change::DropUnique { table, name } => scoped_statement_is_framed(
            extras,
            table@.0,
            emit::drop_constraint_text(table@, name@),
        ),
        model::Change::DropForeignKey { table, name } => scoped_statement_is_framed(
            extras,
            table@.0,
            emit::drop_constraint_text(table@, name@),
        ),
        model::Change::DropCheck { table, name } => scoped_statement_is_framed(
            extras,
            table@.0,
            emit::drop_constraint_text(table@, name@),
        ),
        model::Change::AddIndex { table, name, index } => scoped_statement_is_framed(
            extras,
            table@.0,
            emit::create_index_text(table@, name@, index, strategy),
        ),
        model::Change::DropIndex { table, name } => scoped_statement_is_framed(
            extras,
            table@.0,
            error::composed(
                emit::DROP_INDEX@,
                seq![sql::quoted(table@.0), sql::quoted(name@)],
            ),
        ),
        model::Change::CreateModule { id, module } => {
            module_texts_are_scoped(extras, id@, module, module.kind);
            modules_are_framed(extras, seq![definition::create_module_text(extras, id@, module)]);
        },
        model::Change::AlterModule { id, module } => {
            module_texts_are_scoped(extras, id@, module, module.kind);
            modules_are_framed(extras, seq![
                    definition::drop_module_text(extras, id@, module.kind),
                    definition::create_module_text(extras, id@, module),
                ],
            );
        },
        model::Change::DropModule { id, kind } => {
            module_texts_are_scoped(
                extras,
                id@,
                model::Module { kind, definition: arbitrary() },
                kind,
            );
            modules_are_framed(extras, seq![definition::drop_module_text(extras, id@, kind)]);
        },
        _ => {},
    }
}

// ---------------------------------------------------------------------------
// What a change amounts to

/// A module that changed is dropped and created again, in that order, and is
/// refused exactly where one of the two is.
pub proof fn altering_a_module_is_dropping_and_creating_it(
    extras: Seq<Seq<char>>,
    id: model::ModuleId,
    module: model::Module,
    strategy: model::Strategy,
)
    ensures
        ({
            let dropped = emit::emitted(
                extras,
                model::Change::DropModule { id, kind: module.kind },
                strategy,
            );
            let created = emit::emitted(
                extras,
                model::Change::CreateModule { id, module },
                strategy,
            );
            emit::emitted(extras, model::Change::AlterModule { id, module }, strategy) == match (
                dropped,
                created,
            ) {
                (Ok(a), Ok(b)) => Ok(a + b),
                (Err(e), _) => Err(e),
                (Ok(_), Err(e)) => Err(e),
            }
        }),
{
    reveal_with_fuel(error::first_refusal, 3);
    let d = definition::drop_module_text(extras, id@, module.kind);
    let c = definition::create_module_text(extras, id@, module);
    let both = seq![d, c];
    let one = seq![d];
    let other = seq![c];
    let both_parts = Seq::new(both.len(), |i: int| emit::module_statement(both[i]));
    let one_part = Seq::new(one.len(), |i: int| emit::module_statement(one[i]));
    let other_part = Seq::new(other.len(), |i: int| emit::module_statement(other[i]));
    assert(both_parts =~= one_part + other_part);
    error::first_refusal_appends(one_part, other_part);
    assert(one_part.drop_first() =~= Seq::empty());
    assert(other_part.drop_first() =~= Seq::empty());
    assert(Seq::new(both_parts.len(), |i: int| both_parts[i]->Ok_0) =~= Seq::new(
        one_part.len(),
        |i: int| one_part[i]->Ok_0,
    ) + Seq::new(other_part.len(), |i: int| other_part[i]->Ok_0));
}

/// A change that is a fact about the declarations alone is no statement.
pub proof fn a_fact_about_the_declarations_is_no_statement(
    extras: Seq<Seq<char>>,
    change: model::Change,
    strategy: model::Strategy,
)
    requires
        change is SetColumnDeprecated || change is SetDataMode,
    ensures
        emit::emitted(extras, change, strategy) == Ok::<
            Seq<emit::StatementView>,
            error::Refusal,
        >(Seq::empty()),
{
}

/// A change that needs a part that is not built is refused with the step that
/// supplies it, and never passed over.
pub proof fn an_unbuilt_change_is_refused(
    extras: Seq<Seq<char>>,
    change: model::Change,
    strategy: model::Strategy,
)
    ensures
        (change is CreateRole || change is DropRole || change is RenameRole || change is Grant
            || change is Revoke || change is PublicExecution) ==> emit::emitted(
            extras,
            change,
            strategy,
        ) == Err::<Seq<emit::StatementView>, error::Refusal>(crate::Unbuilt::Roles.refusal()),
        (change is InsertRow || change is UpdateRow || change is DeleteRow) ==> emit::emitted(
            extras,
            change,
            strategy,
        ) == Err::<Seq<emit::StatementView>, error::Refusal>(
            crate::Unbuilt::ReferenceData.refusal(),
        ),
{
}

/// The statements of a table's rename lead from the old name to the new one,
/// each from where the one before it left the table.
pub proof fn a_rename_leads_from_the_old_name_to_the_new_one(
    extras: Seq<Seq<char>>,
    from: model::Qualified,
    to: model::Qualified,
)
    ensures
        emit::rename_table_statements(extras, from, to) matches Ok(all) ==> {
            &&& all.len() == 0 <==> from == to
            &&& all.len() == 1 ==> all[0].renames == Some((from, to))
            &&& all.len() == 2 ==> all[0].renames == Some((from, (to.0, from.1)))
                && all[1].renames == Some(((to.0, from.1), to))
            &&& all.len() <= 2
        },
{
    let moved = (to.0, from.1);
    let at = if from.0 != to.0 {
        moved
    } else {
        from
    };
    rename_step_is_framed(extras, emit::SET_SCHEMA@, from, to.0, moved);
    rename_step_is_framed(extras, emit::RENAME_TO@, at, to.1, to);
    let transfer = if from.0 != to.0 {
        seq![emit::rename_statement(extras, emit::SET_SCHEMA@, from, to.0, moved)]
    } else {
        Seq::empty()
    };
    let rename = if at.1 != to.1 {
        seq![emit::rename_statement(extras, emit::RENAME_TO@, at, to.1, to)]
    } else {
        Seq::empty()
    };
    let parts = transfer + rename;
    if error::first_refusal(parts) is None {
        error::nothing_refused(parts);
        assert(parts.len() <= 2);
        if parts.len() >= 1 {
            assert(parts[0] is Ok);
        }
        if parts.len() == 2 {
            assert(parts[1] is Ok);
        }
    }
}

/// Creating a table brings the table into being in its first statement, and
/// every constraint and index of it follows as a statement of its own.
pub proof fn a_table_is_created_before_its_constraints(
    extras: Seq<Seq<char>>,
    name: model::Qualified,
    table: model::Table,
)
    ensures
        emit::create_table_statements(extras, name, table) matches Ok(all) ==> {
            &&& all.len() == 1 + table.unique@.len() + table.checks@.len()
                + table.foreign_keys@.len() + table.indexes@.len()
            &&& all[0].creates == seq![emit::CreatedView::Table(name)]
            &&& forall|i: int| 0 < i < all.len() ==> (#[trigger] all[i]).creates.len() == 0
        },
{
    if table.columns@.len() > 0 {
        let first = seq![emit::table_statement(extras, name, table)];
        let u = emit::unique_statements(extras, name, table);
        let c = emit::check_statements(extras, name, table);
        let f = emit::foreign_key_statements(extras, name, table);
        let x = emit::index_statements(extras, name, table);
        let parts = first + u + c + f + x;
        if error::first_refusal(parts) is None {
            error::nothing_refused(parts);
            let all = Seq::new(parts.len(), |i: int| parts[i]->Ok_0);
            assert(parts[0] == first[0] && parts[0] is Ok);
            assert forall|i: int| 0 < i < all.len() implies (#[trigger] all[i]).creates.len()
                == 0 by {
                assert(parts[i] is Ok);
                if i < 1 + u.len() {
                    assert(parts[i] == u[i - 1]);
                } else if i < 1 + u.len() + c.len() {
                    assert(parts[i] == c[i - 1 - u.len()]);
                } else if i < 1 + u.len() + c.len() + f.len() {
                    assert(parts[i] == f[i - 1 - u.len() - c.len()]);
                } else {
                    assert(parts[i] == x[i - 1 - u.len() - c.len() - f.len()]);
                }
            }
        }
    }
}

// ---------------------------------------------------------------------------
// What validation accepts

/// Two pieces that are there fill a template.
proof fn two_compose(
    template: Seq<char>,
    a: Result<Seq<char>, error::Refusal>,
    b: Result<Seq<char>, error::Refusal>,
)
    requires
        a is Ok,
        b is Ok,
    ensures
        error::composed(template, seq![a, b]) is Ok,
{
    a_refusal_is_a_piece(seq![a, b]);
}

/// A column that validation accepts has a definition.
pub proof fn an_accepted_column_is_defined(name: Seq<char>, column: model::Column)
    requires
        validate::column_refusals(name, column) == Seq::<error::Refusal>::empty(),
    ensures
        emit::column_definition_text(name, column) is Ok,
{
    let named = validate::ident_refusals(name);
    assert(validate::column_refusals(name, column).len() == 0);
    assert(named.len() == 0);
    assert(sql::quoted(name) is Ok);
    match (column.serial, column.ty.normal) {
        (None, model::Reading::As(normal)) => {
            let d = validate::default_refusals(name, column, normal);
            assert(d.len() == 0);
            two_compose(
                emit::NAMED_TYPE@,
                sql::quoted(name),
                emit::read_type(column.ty.normal),
            );
            if let Some(default) = column.default {
                assert(emit::unresolved(name, normal, default.text@) is None);
            }
        },
        _ => {
            assert(false);
        },
    }
}

/// Nothing is refused of any column where nothing is refused of all of them.
proof fn no_column_is_refused(columns: Seq<(String, model::Column)>, n: int, i: int)
    requires
        0 <= i < n <= columns.len(),
        validate::columns_refusals(columns, n).len() == 0,
    ensures
        validate::column_refusals(columns[i].0@, columns[i].1).len() == 0,
    decreases n,
{
    if i < n - 1 {
        no_column_is_refused(columns, n - 1, i);
    }
}

/// Nothing is refused of any name where nothing is refused of all of them.
proof fn no_name_is_refused(names: Seq<Seq<char>>, n: int, i: int)
    requires
        0 <= i < n <= names.len(),
        validate::names_refusals(names, n).len() == 0,
    ensures
        sql::quoted(names[i]) is Ok,
    decreases n,
{
    if i < n - 1 {
        no_name_is_refused(names, n - 1, i);
    }
}

/// Whether a table has a column of this name.
pub open spec fn has_column(table: model::Table, name: Seq<char>) -> bool {
    exists|i: int| 0 <= i < table.columns@.len() && (#[trigger] table.columns@[i]).0@ == name
}

/// Whether a table's primary key names columns that the table has.
pub open spec fn key_is_its_own(table: model::Table) -> bool {
    match table.primary_key {
        Some(pk) => forall|i: int|
            0 <= i < pk.columns@.len() ==> has_column(table, (#[trigger] pk.columns@[i])@),
        None => true,
    }
}

/// A table that validation accepts, whose key names columns it has, is
/// created: its `CREATE TABLE` is refused only where the write path is.
pub proof fn an_accepted_table_is_created(
    extras: Seq<Seq<char>>,
    name: model::Qualified,
    table: model::Table,
    data: Seq<error::Refusal>,
)
    requires
        validate::table_refusals(name, table, data) == Seq::<error::Refusal>::empty(),
        key_is_its_own(table),
        sql::write_path_text(name.0, extras) is Ok,
    ensures
        emit::table_statement(extras, name, table) is Ok,
{
    let all = validate::table_refusals(name, table, data);
    let owned = validate::owned_names(table);
    let place = validate::place_refusals(name);
    let names = validate::names_refusals(owned, owned.len() as int);
    let columns = validate::columns_refusals(table.columns@, table.columns@.len() as int);
    assert(all.len() == 0);
    assert(place.len() == 0 && names.len() == 0 && columns.len() == 0);
    assert(validate::ident_refusals(name.0).len() == 0);
    assert(validate::ident_refusals(name.1).len() == 0);
    assert(sql::quoted(name.0) is Ok && sql::quoted(name.1) is Ok);
    two_compose(sql::DOTTED@, sql::quoted(name.0), sql::quoted(name.1));
    let lines = emit::table_lines(table);
    assert forall|i: int| 0 <= i < lines.len() implies (#[trigger] lines[i]) is Ok by {
        if i < table.columns@.len() {
            no_column_is_refused(table.columns@, table.columns@.len() as int, i);
            let c = table.columns@[i];
            assert(validate::column_refusals(c.0@, c.1) =~= Seq::<error::Refusal>::empty());
            an_accepted_column_is_defined(c.0@, c.1);
        } else {
            let pk = table.primary_key->0;
            let cols = text::texts(pk.columns@);
            let quoted = sql::quoted_each(cols);
            assert forall|k: int| 0 <= k < quoted.len() implies (#[trigger] quoted[k]) is Ok by {
                assert(has_column(table, pk.columns@[k]@));
                let j = choose|j: int|
                    0 <= j < table.columns@.len() && (#[trigger] table.columns@[j]).0@
                        == pk.columns@[k]@;
                no_column_is_refused(table.columns@, table.columns@.len() as int, j);
                assert(validate::ident_refusals(table.columns@[j].0@).len() == 0);
                assert(quoted[k] == sql::quoted(pk.columns@[k]@));
            }
            a_refusal_is_a_piece(quoted);
            assert(sql::column_list_text(cols) is Ok);
            if let Some(key) = pk.name {
                assert(owned[0] == key@);
                no_name_is_refused(owned, owned.len() as int, 0);
                two_compose(
                    emit::NAMED_PRIMARY_KEY@,
                    sql::quoted(key@),
                    Ok(sql::column_list_text(cols)->Ok_0),
                );
            }
            assert(lines[i] == emit::primary_key_text(pk));
        }
    }
    a_refusal_is_a_piece(lines);
    let body = error::joined_all(lines, emit::NEXT_LINE@);
    two_compose(emit::CREATE_TABLE@, sql::qualified_text(name), body);
    let created = error::composed(emit::CREATE_TABLE@, seq![sql::qualified_text(name), body]);
    two_compose(sql::SCOPED@, sql::write_path_text(name.0, extras), created);
}

/// A module that validation accepts is created and can be dropped again: its
/// statements are refused only where the write path is.
pub proof fn an_accepted_module_is_created_and_dropped(
    extras: Seq<Seq<char>>,
    id: model::ModuleId,
    module: model::Module,
    readings: definition::Readings,
)
    requires
        definition::module_problems(id, module, readings) == Seq::<error::Refusal>::empty(),
        sql::write_path_text(model::module_schema(id@), extras) is Ok,
    ensures
        definition::create_module_text(extras, id@, module) is Ok,
        definition::drop_module_text(extras, id@, module.kind) is Ok,
{
    let schema = model::module_schema(id@);
    let name = model::module_name(id@);
    let blank = definition::blank_problems(id@, module.definition@);
    let named = definition::name_problems(schema, name);
    assert(definition::module_problems(id, module, readings).len() == 0);
    assert(blank.len() == 0 && named.len() == 0);
    assert(sql::quoted(schema) is Ok && sql::quoted(name) is Ok);
    two_compose(sql::DOTTED@, sql::quoted(schema), sql::quoted(name));
    let object = definition::object_text(id@);
    let body = lexer::trimmed(module.definition@);
    assert(body.len() > 0);
    let text_of_body = Ok::<Seq<char>, error::Refusal>(body);
    let word = Ok::<Seq<char>, error::Refusal>(definition::keyword_text(module.kind));
    match module.kind {
        model::ModuleKind::View => {
            two_compose(definition::CREATE_VIEW@, object, text_of_body);
            a_refusal_is_a_piece(seq![object]);
        },
        model::ModuleKind::Function | model::ModuleKind::Procedure => {
            let problems = definition::routine_problems(id, module.definition@, readings);
            assert(problems.len() == 0);
            assert(id is Routine);
            a_refusal_is_a_piece(seq![word, object, text_of_body]);
            a_refusal_is_a_piece(seq![word, object, definition::signature_text(id@)]);
        },
        model::ModuleKind::Trigger => {
            let problems = definition::trigger_problems(id@, module.definition@, readings);
            assert(problems.len() == 0);
            assert(definition::attached_text(id@) is Ok);
            let on = definition::attached_text(id@)->Ok_0;
            assert(definition::name_problems(on.0, on.1).len() == 0);
            assert(sql::quoted(on.0) is Ok && sql::quoted(on.1) is Ok);
            two_compose(sql::DOTTED@, sql::quoted(on.0), sql::quoted(on.1));
            two_compose(definition::CREATE_TRIGGER@, sql::quoted(name), text_of_body);
            two_compose(definition::DROP_TRIGGER@, sql::quoted(name), definition::attached_name(id@));
        },
    }
    let made = definition::create_body_text(id@, module);
    assert(made is Ok);
    a_refusal_is_a_piece(seq![made]);
    let terminated = error::composed(definition::TERMINATED@, seq![made]);
    two_compose(sql::SCOPED@, sql::write_path_text(schema, extras), terminated);
    let dropped = match module.kind {
        model::ModuleKind::View => error::composed(definition::DROP_VIEW@, seq![object]),
        model::ModuleKind::Function | model::ModuleKind::Procedure => error::composed(
            definition::DROP_ROUTINE@,
            seq![word, object, definition::signature_text(id@)],
        ),
        model::ModuleKind::Trigger => error::composed(
            definition::DROP_TRIGGER@,
            seq![sql::quoted(name), definition::attached_name(id@)],
        ),
    };
    assert(dropped is Ok);
    two_compose(sql::SCOPED@, sql::write_path_text(schema, extras), dropped);
}

// ---------------------------------------------------------------------------
// Qualified names

/// No escape clause follows a dot.
proof fn a_dot_is_no_gap(s: Seq<char>, at: int)
    requires
        0 <= at < s.len(),
        s[at] == '.',
    ensures
        definition::escape_after(s, at) == ('\\', at),
{
    assert(lexer::past_gap(s, at) == at);
    assert(lexer::ident_end(s, at) == at);
    assert(lexer::one_ident_end(s, at) is None);
}

/// No escape clause follows the end of a text.
proof fn an_end_is_no_gap(s: Seq<char>)
    ensures
        definition::escape_after(s, s.len() as int) == ('\\', s.len() as int),
{
    let at = s.len() as int;
    assert(lexer::past_gap(s, at) == at);
    assert(lexer::ident_end(s, at) == at);
    assert(lexer::one_ident_end(s, at) is None);
}

/// Where the two quoted halves of a name end.
proof fn halves_end(a: Seq<char>, b: Seq<char>)
    ensures
        ({
            let q = sql::quoted_text(a);
            let s = q + seq!['.'] + sql::quoted_text(b);
            &&& s[q.len() as int] == '.'
            &&& s[q.len() as int + 1] == '"'
            &&& lexer::one_ident_end(s, 0) == Some(q.len() as int)
            &&& lexer::one_ident_end(s, q.len() as int + 1) == Some(s.len() as int)
            &&& s.subrange(0, q.len() as int) == q
            &&& s.subrange(q.len() as int + 1, s.len() as int) == sql::quoted_text(b)
        }),
{
    let q = sql::quoted_text(a);
    let r = sql::quoted_text(b);
    let s = q + seq!['.'] + r;
    let back = seq!['"', '.'] + r;
    quoted_end_passes(seq!['"'], a, back);
    assert(s =~= seq!['"'] + text::doubled(a, '"') + back);
    quoted_end_passes(q + seq!['.', '"'], b, seq!['"']);
    assert(s =~= (q + seq!['.', '"']) + text::doubled(b, '"') + seq!['"']);
    assert(s[0] == '"');
    assert(r[0] == '"');
    assert(s[q.len() as int + 1] == r[0]);
    assert(s.subrange(0, q.len() as int) =~= q);
    assert(s.subrange(q.len() as int + 1, s.len() as int) =~= r);
}

/// A qualified name, quoted on both halves, reads back as its two halves: the
/// table a trigger's definition names this way is the table of its identity.
pub proof fn a_qualified_name_reads_back(
    name: model::Qualified,
    decodings: Seq<definition::Decoding>,
)
    requires
        sql::qualified_text(name) is Ok,
    ensures
        definition::names_table(sql::qualified_text(name)->Ok_0, name, decodings),
{
    let parts = seq![sql::quoted(name.0), sql::quoted(name.1)];
    error::nothing_refused(parts);
    assert(parts[0] is Ok && parts[1] is Ok);
    let a = sql::quoted_text(name.0);
    let b = sql::quoted_text(name.1);
    assert(Seq::new(parts.len(), |i: int| parts[i]->Ok_0) =~= seq![a, b]);
    dotted_fills(a, b);
    let s = a + seq!['.'] + b;
    assert(sql::qualified_text(name)->Ok_0 == s);
    let mid = a.len() as int;
    halves_end(name.0, name.1);
    a_dot_is_no_gap(s, mid);
    an_end_is_no_gap(s);
    a_quoted_identifier_reads_back(name.0, '\\', decodings);
    a_quoted_identifier_reads_back(name.1, '\\', decodings);
    assert(lexer::past_gap(s, mid + 1) == mid + 1);
    let none = Seq::<Seq<char>>::empty();
    let both = none.push(name.0).push(name.1);
    assert(definition::read_name(s, mid + 1, none.push(name.0), decodings)
        == definition::NameReading::Parts(both));
    assert(definition::read_name(s, 0, none, decodings) == definition::NameReading::Parts(both));
    assert(both[0] == name.0 && both[1] == name.1);
}

} // verus!

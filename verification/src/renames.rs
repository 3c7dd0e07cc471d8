//! What the report of a rename holds, stated of its target and its rows.
use vstd::prelude::*;

use crate::impact;
use crate::impact::{
    ImpactReport, NamedObject, ReferrerView, RenameTarget, TargetView, TextRoutine,
};
use crate::laws;
use crate::lexer;
use crate::model;
use crate::scans;
use crate::statements;
use crate::templates;
use crate::text;

verus! {

/// The name a rename takes away: the table's own, or the column's.
pub open spec fn lost_name(target: RenameTarget) -> Seq<char> {
    match target {
        RenameTarget::Table(table) => table@.1,
        RenameTarget::Column(column) => column@.1,
        RenameTarget::Module(id) => match id@ {
            model::ModuleIdView::Named(name) => name.1,
            model::ModuleIdView::Routine { name, args: _ } => name.1,
            model::ModuleIdView::Trigger { on: _, name } => name,
        },
    }
}

/// How a routine that a rename breaks is reported: by its kind, its qualified
/// name with its arguments, and the language its body is text in.
pub open spec fn breaks(routine: TextRoutine) -> ReferrerView {
    ReferrerView {
        kind: routine.kind@,
        name: routine.schema_name@ + "."@ + routine.routine_name@ + "("@ + routine.args@ + ")"@,
        detail: Some(
            "its "@ + routine.language@
                + " body is text this engine never parsed, so the rename does not reach it and the failure lands the next time it runs"@,
        ),
    }
}

/// How many of the first `n` bodies mention a name.
pub open spec fn mentioning(
    routines: Seq<TextRoutine>,
    name: Seq<char>,
    reserved: bool,
    n: int,
) -> nat
    decreases n,
{
    if n <= 0 {
        0
    } else {
        mentioning(routines, name, reserved, n - 1) + if impact::is_mentioned(
            routines[n - 1].code@,
            name,
            reserved,
        ) {
            1nat
        } else {
            0nat
        }
    }
}

/// How many of the first `n` objects have a name that embeds a column's.
pub open spec fn embedding(objects: Seq<NamedObject>, column: Seq<char>, n: int) -> nat
    decreases n,
{
    if n <= 0 {
        0
    } else {
        embedding(objects, column, n - 1) + if text::holds(objects[n - 1].name@, column) {
            1nat
        } else {
            0nat
        }
    }
}

proof fn broken_routines_are_the_mentioning_ones(
    routines: Seq<TextRoutine>,
    name: Seq<char>,
    reserved: bool,
    n: int,
    i: int,
)
    requires
        0 <= n <= routines.len(),
        0 <= i < n,
    ensures
        ({
            let all = impact::broken_routines(routines, name, reserved, n);
            let at = mentioning(routines, name, reserved, i) as int;
            &&& all.len() == mentioning(routines, name, reserved, n)
            &&& impact::is_mentioned(routines[i].code@, name, reserved) ==> at < all.len()
                && all[at] == breaks(routines[i])
        }),
    decreases n,
{
    let r = routines[n - 1];
    templates::a_routine_in_words_reads(r.schema_name@, r.routine_name@, r.args@);
    templates::a_text_body_in_words_reads(r.language@);
    assert(impact::broken(r) =~= breaks(r));
    if i < n - 1 {
        broken_routines_are_the_mentioning_ones(routines, name, reserved, n - 1, i);
    } else if n > 1 {
        broken_routines_are_the_mentioning_ones(routines, name, reserved, n - 1, 0);
    }
}

proof fn stale_names_are_the_embedding_ones(
    objects: Seq<NamedObject>,
    column: Seq<char>,
    n: int,
    i: int,
)
    requires
        0 <= n <= objects.len(),
        0 <= i < n,
    ensures
        ({
            let all = impact::stale_names(objects, column, n);
            let at = embedding(objects, column, i) as int;
            &&& all.len() == embedding(objects, column, n)
            &&& text::holds(objects[i].name@, column) ==> at < all.len() && all[at] == (
            ReferrerView {
                kind: objects[i].kind@,
                name: objects[i].name@,
                detail: Some("the name embeds the old column name"@),
            })
        }),
    decreases n,
{
    reveal_strlit("the name embeds the old column name");
    let last = ReferrerView {
        kind: objects[n - 1].kind@,
        name: objects[n - 1].name@,
        detail: Some("the name embeds the old column name"@),
    };
    let rest = impact::stale_names(objects, column, n - 1);
    assert(impact::STALE_NAME@ == "the name embeds the old column name"@);
    assert(impact::stale_names(objects, column, n) == if text::holds(
        objects[n - 1].name@,
        column,
    ) {
        rest.push(last)
    } else {
        rest
    });
    if i < n - 1 {
        stale_names_are_the_embedding_ones(objects, column, n - 1, i);
    } else if n > 1 {
        stale_names_are_the_embedding_ones(objects, column, n - 1, 0);
    }
}

/// A report advises about the routines whose bodies mention the name that the
/// rename takes away, each of them and no other, in their order: the table's
/// own name for a table, and the column's for a column.
pub proof fn a_report_advises_about_every_body_that_mentions_the_name(
    target: RenameTarget,
    reserved: bool,
    routines: Vec<TextRoutine>,
    objects: Vec<NamedObject>,
    described: Vec<String>,
    r: ImpactReport,
    i: int,
)
    requires
        call_ensures(
            impact::rename_impact,
            (&target, reserved, &routines, &objects, &described),
            r,
        ),
        0 <= i < routines@.len(),
    ensures
        ({
            let all = impact::referrers(r.advisory@);
            let name = lost_name(target);
            let at = mentioning(routines@, name, reserved, i) as int;
            &&& impact::is_mentioned(routines@[i].code@, name, reserved) ==> at < all.len()
                && all[at] == breaks(routines@[i])
            &&& all.len() == mentioning(routines@, name, reserved, routines@.len() as int)
                + match target {
                RenameTarget::Column(column) => embedding(
                    objects@,
                    column@.1,
                    objects@.len() as int,
                ),
                _ => 0,
            }
        }),
{
    let name = lost_name(target);
    broken_routines_are_the_mentioning_ones(
        routines@,
        name,
        reserved,
        routines@.len() as int,
        i,
    );
    if let RenameTarget::Column(column) = target {
        if objects@.len() > 0 {
            stale_names_are_the_embedding_ones(objects@, column@.1, objects@.len() as int, 0);
        }
    }
}

/// Behind the routines, the report of a column's rename advises about every
/// index and constraint whose name embeds the column's, in their order.
pub proof fn a_report_advises_about_every_name_that_embeds_the_column(
    column: model::ColumnRef,
    reserved: bool,
    routines: Vec<TextRoutine>,
    objects: Vec<NamedObject>,
    described: Vec<String>,
    r: ImpactReport,
    i: int,
)
    requires
        call_ensures(
            impact::rename_impact,
            (&RenameTarget::Column(column), reserved, &routines, &objects, &described),
            r,
        ),
        0 <= i < objects@.len(),
        text::holds(objects@[i].name@, column@.1),
    ensures
        ({
            let all = impact::referrers(r.advisory@);
            let at = mentioning(routines@, column@.1, reserved, routines@.len() as int)
                + embedding(objects@, column@.1, i);
            at < all.len() && all[at as int] == (ReferrerView {
                kind: objects@[i].kind@,
                name: objects@[i].name@,
                detail: Some("the name embeds the old column name"@),
            })
        }),
{
    stale_names_are_the_embedding_ones(objects@, column@.1, objects@.len() as int, i);
    if routines@.len() > 0 {
        broken_routines_are_the_mentioning_ones(
            routines@,
            column@.1,
            reserved,
            routines@.len() as int,
            0,
        );
    }
}

/// Everything the catalog describes is reported as carried, in its words, and
/// nothing blocks a rename.
pub proof fn a_report_carries_everything_described(
    target: RenameTarget,
    reserved: bool,
    routines: Vec<TextRoutine>,
    objects: Vec<NamedObject>,
    described: Vec<String>,
    r: ImpactReport,
)
    requires
        call_ensures(
            impact::rename_impact,
            (&target, reserved, &routines, &objects, &described),
            r,
        ),
    ensures
        r.blocking@.len() == 0,
        r.carried@.len() == described@.len(),
        forall|i: int|
            0 <= i < described@.len() ==> (#[trigger] r.carried@[i])@ == (ReferrerView {
                kind: "carried"@,
                name: described@[i]@,
                detail: None,
            }),
{
    reveal_strlit("carried");
    let all = impact::referrers(r.carried@);
    let there = text::texts(described@);
    assert(all.len() == there.len());
    assert forall|i: int| 0 <= i < described@.len() implies (#[trigger] r.carried@[i])@ == (
    ReferrerView { kind: "carried"@, name: described@[i]@, detail: None }) by {
        assert(all[i] == r.carried@[i]@);
        assert(impact::carried_of(there)[i].name == there[i]);
    }
}

/// A target is asked about under its table's quoted name, a column in its
/// table's; a module is no target.
pub proof fn a_target_is_asked_about_under_its_table(target: TargetView)
    ensures
        target matches TargetView::Table(table) ==> (statements::is_table_name(table)
            ==> impact::asked_as(target) == Ok::<Seq<char>, crate::error::Refusal>(
            statements::table_in_quotes(table),
        )),
        target matches TargetView::Column(table, name) ==> (statements::is_table_name(table)
            ==> impact::asked_as(target) == Ok::<Seq<char>, crate::error::Refusal>(
            statements::table_in_quotes(table),
        )) && impact::target_column(target) == Some(name),
        target is Module ==> impact::asked_as(target) is Err,
        target is Table ==> impact::target_column(target) is None,
{
    match target {
        TargetView::Table(table) => {
            if statements::is_table_name(table) {
                statements::a_table_is_quoted(table);
            }
        },
        TargetView::Column(table, _) => {
            if statements::is_table_name(table) {
                statements::a_table_is_quoted(table);
            }
        },
        _ => {},
    }
}

// ---------------------------------------------------------------------------
// Mentions

proof fn a_word_ends_with_the_text(s: Seq<char>, at: int)
    requires
        0 <= at <= s.len(),
        forall|i: int| at <= i < s.len() ==> lexer::goes_on(#[trigger] s[i]),
    ensures
        lexer::ident_end(s, at) == s.len(),
    decreases s.len() - at,
{
    if at < s.len() {
        a_word_ends_with_the_text(s, at + 1);
    }
}

/// Whether a name is one word of identifier characters, folded.
pub open spec fn is_word(name: Seq<char>) -> bool {
    name.len() > 0 && name == text::lower(name) && forall|i: int|
        0 <= i < name.len() ==> lexer::goes_on(#[trigger] name[i])
}

/// A body that is the name, in letters of either case, mentions it, unless the
/// engine reserves the word.
pub proof fn a_bare_word_is_a_mention(code: Seq<char>, name: Seq<char>, reserved: bool)
    requires
        statements::is_name(name),
        is_word(name),
        code.len() > 0,
        text::lower(code) == name,
        forall|i: int| 0 <= i < code.len() ==> lexer::goes_on(#[trigger] code[i]),
    ensures
        impact::is_mentioned(code, name, reserved) == !reserved,
{
    a_word_ends_with_the_text(code, 0);
    assert(lexer::goes_on(code[0]));
    assert(code.subrange(0, code.len() as int) =~= code);
    assert(!impact::mentioned_from(code, name, reserved, code.len() as int, false));
    text::folding_is_idempotent(name);
}

/// Behind a dot even a reserved word is a mention.
pub proof fn a_word_behind_a_dot_is_a_mention(name: Seq<char>, reserved: bool)
    requires
        statements::is_name(name),
        is_word(name),
    ensures
        impact::is_mentioned(seq!['.'] + name, name, reserved),
{
    let code = seq!['.'] + name;
    assert(code[0] == '.');
    assert forall|i: int| 1 <= i < code.len() implies lexer::goes_on(#[trigger] code[i]) by {
        assert(code[i] == name[i - 1]);
    }
    a_word_ends_with_the_text(code, 1);
    assert(code.subrange(1, code.len() as int) =~= name);
    assert(lexer::goes_on(code[1]));
    assert(impact::mentioned_from(code, name, reserved, 1, true));
}

/// A longer word that begins with the name is another name.
pub proof fn a_longer_word_is_no_mention(name: Seq<char>, more: Seq<char>, reserved: bool)
    requires
        is_word(name),
        is_word(name + more),
        more.len() > 0,
    ensures
        !impact::is_mentioned(name + more, name, reserved),
{
    let code = name + more;
    a_word_ends_with_the_text(code, 0);
    assert(lexer::goes_on(code[0]));
    assert(code.subrange(0, code.len() as int) =~= code);
    assert(text::lower(code).len() == code.len());
    assert(text::lower(name).len() == name.len());
    assert(!impact::mentioned_from(code, name, reserved, code.len() as int, false));
}

/// A name with a capital letter in it is mentioned only in quotes: the bare
/// word is another name.
pub proof fn a_capital_needs_quotes(code: Seq<char>, name: Seq<char>, reserved: bool)
    requires
        name != text::lower(name),
        code.len() > 0,
        forall|i: int| 0 <= i < code.len() ==> lexer::goes_on(#[trigger] code[i]),
    ensures
        !impact::is_mentioned(code, name, reserved),
{
    a_word_ends_with_the_text(code, 0);
    assert(lexer::goes_on(code[0]));
    assert(!impact::mentioned_from(code, name, reserved, code.len() as int, false));
}

proof fn a_word_stops(s: Seq<char>, at: int, n: int)
    requires
        0 <= at <= n <= s.len(),
        n < s.len() ==> !lexer::goes_on(s[n]),
    ensures
        at <= lexer::ident_end(s, at) <= n,
        at < n && lexer::goes_on(s[at]) ==> at < lexer::ident_end(s, at),
    decreases n - at,
{
    if at < n && lexer::goes_on(s[at]) {
        a_word_stops(s, at + 1, n);
    }
}

/// A scan goes on to what stands behind words, however it came there.
proof fn a_scan_goes_on(
    code: Seq<char>,
    name: Seq<char>,
    reserved: bool,
    at: int,
    dot: bool,
    n: int,
)
    requires
        0 <= at <= n < code.len(),
        at == n || (n > 0 && !lexer::goes_on(code[n - 1])) || !lexer::goes_on(code[n]),
        forall|i: int| at <= i < n ==> #[trigger] code[i] != '"',
        impact::mentioned_from(code, name, reserved, n, true),
        impact::mentioned_from(code, name, reserved, n, false),
    ensures
        impact::mentioned_from(code, name, reserved, at, dot),
    decreases n - at,
{
    if at < n {
        assert(code[at] != '"');
        if lexer::goes_on(code[at]) {
            if lexer::goes_on(code[n]) {
                a_word_stops(code, at, n - 1);
            } else {
                a_word_stops(code, at, n);
            }
            a_scan_goes_on(code, name, reserved, lexer::ident_end(code, at), false, n);
        } else {
            a_scan_goes_on(
                code,
                name,
                reserved,
                at + 1,
                if impact::is_blank(code[at]) {
                    dot
                } else {
                    code[at] == '.'
                },
                n,
            );
        }
    }
}

/// A name in quotes is mentioned wherever it stands, whatever letters it has
/// and whether or not the engine reserves the word.
pub proof fn a_quoted_name_is_a_mention(
    front: Seq<char>,
    name: Seq<char>,
    back: Seq<char>,
    reserved: bool,
)
    requires
        statements::is_name(name),
        !front.contains('"'),
        back.len() > 0 ==> back[0] != '"',
    ensures
        impact::is_mentioned(front + statements::in_quotes(name) + back, name, reserved),
{
    let q = statements::in_quotes(name);
    let code = front + q + back;
    let n = front.len() as int;
    statements::a_name_is_quoted(name);
    assert forall|i: int| 0 <= i < n implies #[trigger] code[i] != '"' by {
        assert(code[i] == front[i]);
        assert(front.contains(front[i]));
    }
    laws::a_quoted_name_ends_where_it_is_closed(front, name, back);
    assert(code[n] == q[0]);
    assert(code.subrange(n, n + q.len()) =~= q);
    a_scan_goes_on(code, name, reserved, 0, false, n);
}

/// A name is mentioned by a word of its own, in letters of either case, among
/// whatever other words; one that the engine reserves only behind a dot.
pub proof fn a_word_of_its_own_is_a_mention(
    front: Seq<char>,
    word: Seq<char>,
    name: Seq<char>,
    back: Seq<char>,
    reserved: bool,
)
    requires
        statements::is_name(name),
        is_word(name),
        word.len() > 0,
        text::lower(word) == name,
        forall|i: int| 0 <= i < word.len() ==> lexer::goes_on(#[trigger] word[i]),
        !front.contains('"'),
        front.len() > 0 ==> !lexer::goes_on(front.last()),
        back.len() > 0 ==> !lexer::goes_on(back[0]),
        reserved ==> front.len() > 0 && front.last() == '.',
    ensures
        impact::is_mentioned(front + word + back, name, reserved),
{
    let code = front + word + back;
    let n = front.len() as int;
    let e = n + word.len();
    assert forall|i: int| 0 <= i < n implies #[trigger] code[i] != '"' by {
        assert(code[i] == front[i]);
        assert(front.contains(front[i]));
    }
    assert(code.subrange(n, e) =~= word);
    assert(code[n] == word[0]);
    assert(lexer::goes_on(word[0]));
    scans::a_word_ends_at_its_end(front, word, back);
    text::folding_is_idempotent(name);
    assert(impact::mentioned_from(code, name, reserved, n, true));
    if reserved {
        assert(code[n - 1] == front.last());
        assert(impact::mentioned_from(code, name, reserved, n - 1, true));
        assert(impact::mentioned_from(code, name, reserved, n - 1, false));
        if n >= 2 {
            a_scan_goes_on(code, name, reserved, 0, false, n - 1);
        }
    } else {
        assert(impact::mentioned_from(code, name, reserved, n, false));
        if n > 0 {
            assert(code[n - 1] == front.last());
        }
        a_scan_goes_on(code, name, reserved, 0, false, n);
    }
}

proof fn what_is_not_there_is_not_found(
    code: Seq<char>,
    name: Seq<char>,
    reserved: bool,
    at: int,
    dot: bool,
)
    requires
        0 <= at,
        !code.contains('"'),
        !text::holds(text::lower(code), name) || (reserved && !dot && !code.contains('.')),
    ensures
        !impact::mentioned_from(code, name, reserved, at, dot),
    decreases code.len() - at,
{
    if at < code.len() {
        assert(code.contains(code[at]));
        if lexer::goes_on(code[at]) {
            a_word_stops(code, at, code.len() as int);
            let e = lexer::ident_end(code, at);
            let low = text::lower(code);
            if text::lower(code.subrange(at, e)) == text::lower(name) && name == text::lower(name) {
                assert(low.subrange(at, e) =~= text::lower(code.subrange(at, e)));
                assert(text::occurs_at(low, name, at));
            }
            what_is_not_there_is_not_found(code, name, reserved, e, false);
        } else {
            what_is_not_there_is_not_found(
                code,
                name,
                reserved,
                at + 1,
                if impact::is_blank(code[at]) {
                    dot
                } else {
                    code[at] == '.'
                },
            );
        }
    }
}

/// A body without quotes that does not hold the name anywhere does not mention
/// it, and neither does one without a dot where the engine reserves the word.
pub proof fn what_is_nowhere_is_no_mention(code: Seq<char>, name: Seq<char>, reserved: bool)
    requires
        !code.contains('"'),
        !text::holds(text::lower(code), name) || (reserved && !code.contains('.')),
    ensures
        !impact::is_mentioned(code, name, reserved),
{
    what_is_not_there_is_not_found(code, name, reserved, 0, false);
}

} // verus!

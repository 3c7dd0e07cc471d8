//! What this dialect refuses, and how a refusal travels through a template.
use vstd::prelude::*;

use crate::text;

verus! {

/// The name this dialect answers to.
pub const DIALECT: &'static str = "postgres";

/// The text of a refusal whose subject cannot be an identifier.
pub const UNQUOTABLE: &'static str = "`{}` cannot be written as an identifier";

/// The text of a refusal of something that is not built.
pub const NOT_BUILT: &'static str = "the {} dialect does not implement {} yet";

/// Why this dialect refuses something.
#[derive(Debug, Clone, PartialEq, Eq)]
pub enum DialectError {
    /// The text cannot be an identifier on this engine.
    UnquotableIdent(String),
    /// The declaration or the change is one this dialect will not carry.
    Invalid { dialect: &'static str, message: String },
    /// A part of the dialect that is not there yet.
    NotBuilt { dialect: &'static str, part: String },
}

/// What a refusal says.
pub enum Refusal {
    UnquotableIdent(Seq<char>),
    Invalid { dialect: Seq<char>, message: Seq<char> },
    NotBuilt { dialect: Seq<char>, part: Seq<char> },
}

impl View for DialectError {
    type V = Refusal;

    open spec fn view(&self) -> Refusal {
        match *self {
            DialectError::UnquotableIdent(ident) => Refusal::UnquotableIdent(ident@),
            DialectError::Invalid { dialect, message } => Refusal::Invalid {
                dialect: dialect@,
                message: message@,
            },
            DialectError::NotBuilt { dialect, part } => Refusal::NotBuilt {
                dialect: dialect@,
                part: part@,
            },
        }
    }
}

/// The refusal of a declaration, in words.
pub open spec fn refused(message: Seq<char>) -> Refusal {
    Refusal::Invalid { dialect: DIALECT@, message }
}

/// The refusals in a list of errors.
pub open spec fn refusals(v: Seq<DialectError>) -> Seq<Refusal> {
    Seq::new(v.len(), |i: int| v[i]@)
}

/// Adding one error adds its refusal.
pub proof fn refusals_push(v: Seq<DialectError>, e: DialectError)
    ensures
        refusals(v.push(e)) == refusals(v).push(e@),
{
    assert(refusals(v.push(e)) =~= refusals(v).push(e@));
}

/// What a text-or-refusal holds.
pub open spec fn told(r: Result<String, DialectError>) -> Result<Seq<char>, Refusal> {
    match r {
        Ok(s) => Ok(s@),
        Err(e) => Err(e@),
    }
}

impl DialectError {
    /// The refusal as a person reads it.
    pub fn message(&self) -> (r: String)
        ensures
            r@ == match self@ {
                Refusal::UnquotableIdent(ident) => text::filled(UNQUOTABLE@, seq![ident]),
                Refusal::Invalid { dialect: _, message } => message,
                Refusal::NotBuilt { dialect, part } => text::filled(
                    NOT_BUILT@,
                    seq![dialect, part],
                ),
            },
    {
        match self {
            DialectError::UnquotableIdent(ident) => text::fill1(UNQUOTABLE, ident.as_str()),
            DialectError::Invalid { dialect: _, message } => message.clone(),
            DialectError::NotBuilt { dialect, part } => text::fill2(
                NOT_BUILT,
                dialect,
                part.as_str(),
            ),
        }
    }

    /// The same refusal once more.
    pub fn again(&self) -> (r: DialectError)
        ensures
            r@ == self@,
    {
        match self {
            DialectError::UnquotableIdent(ident) => DialectError::UnquotableIdent(ident.clone()),
            DialectError::Invalid { dialect, message } => DialectError::Invalid {
                dialect: *dialect,
                message: message.clone(),
            },
            DialectError::NotBuilt { dialect, part } => DialectError::NotBuilt {
                dialect: *dialect,
                part: part.clone(),
            },
        }
    }
}

/// A refusal with this message.
pub fn invalid(message: String) -> (r: DialectError)
    ensures
        r@ == refused(message@),
{
    DialectError::Invalid { dialect: DIALECT, message }
}

// ---------------------------------------------------------------------------
// Templates over pieces that may be refused

/// The first refusal among some pieces.
pub open spec fn first_refusal<T>(parts: Seq<Result<T, Refusal>>) -> Option<Refusal>
    decreases parts.len(),
{
    if parts.len() == 0 {
        None
    } else {
        match parts[0] {
            Err(e) => Some(e),
            Ok(_) => first_refusal(parts.drop_first()),
        }
    }
}

/// Everything in a list, or the first refusal in it.
pub open spec fn collected<T>(parts: Seq<Result<T, Refusal>>) -> Result<Seq<T>, Refusal> {
    match first_refusal(parts) {
        Some(e) => Err(e),
        None => Ok(Seq::new(parts.len(), |i: int| parts[i]->Ok_0)),
    }
}

/// A template filled with pieces, or the first refusal among them.
pub open spec fn composed(template: Seq<char>, parts: Seq<Result<Seq<char>, Refusal>>) -> Result<
    Seq<char>,
    Refusal,
> {
    match first_refusal(parts) {
        Some(e) => Err(e),
        None => Ok(text::filled(template, Seq::new(parts.len(), |i: int| parts[i]->Ok_0))),
    }
}

/// One piece.
pub fn compose1(template: &str, a: Result<String, DialectError>) -> (r: Result<
    String,
    DialectError,
>)
    ensures
        told(r) == composed(template@, seq![told(a)]),
{
    let ghost parts = seq![told(a)];
    proof {
        reveal_with_fuel(first_refusal, 3);
    }
    let a = a?;
    let out = text::fill1(template, a.as_str());
    assert(Seq::new(parts.len(), |i: int| parts[i]->Ok_0) =~= seq![a@]);
    Ok(out)
}

/// Two pieces; the first refusal wins.
pub fn compose2(
    template: &str,
    a: Result<String, DialectError>,
    b: Result<String, DialectError>,
) -> (r: Result<String, DialectError>)
    ensures
        told(r) == composed(template@, seq![told(a), told(b)]),
{
    let ghost parts = seq![told(a), told(b)];
    proof {
        reveal_with_fuel(first_refusal, 4);
    }
    let a = a?;
    let b = b?;
    let out = text::fill2(template, a.as_str(), b.as_str());
    assert(Seq::new(parts.len(), |i: int| parts[i]->Ok_0) =~= seq![a@, b@]);
    Ok(out)
}

/// Three pieces; the first refusal wins.
pub fn compose3(
    template: &str,
    a: Result<String, DialectError>,
    b: Result<String, DialectError>,
    c: Result<String, DialectError>,
) -> (r: Result<String, DialectError>)
    ensures
        told(r) == composed(template@, seq![told(a), told(b), told(c)]),
{
    let ghost parts = seq![told(a), told(b), told(c)];
    proof {
        reveal_with_fuel(first_refusal, 5);
    }
    let a = a?;
    let b = b?;
    let c = c?;
    let out = text::fill3(template, a.as_str(), b.as_str(), c.as_str());
    assert(Seq::new(parts.len(), |i: int| parts[i]->Ok_0) =~= seq![a@, b@, c@]);
    Ok(out)
}

/// Four pieces; the first refusal wins.
pub fn compose4(
    template: &str,
    a: Result<String, DialectError>,
    b: Result<String, DialectError>,
    c: Result<String, DialectError>,
    d: Result<String, DialectError>,
) -> (r: Result<String, DialectError>)
    ensures
        told(r) == composed(template@, seq![told(a), told(b), told(c), told(d)]),
{
    let ghost parts = seq![told(a), told(b), told(c), told(d)];
    proof {
        reveal_with_fuel(first_refusal, 6);
    }
    let a = a?;
    let b = b?;
    let c = c?;
    let d = d?;
    let out = text::fill4(template, a.as_str(), b.as_str(), c.as_str(), d.as_str());
    assert(Seq::new(parts.len(), |i: int| parts[i]->Ok_0) =~= seq![a@, b@, c@, d@]);
    Ok(out)
}

/// Five pieces; the first refusal wins.
pub fn compose5(
    template: &str,
    a: Result<String, DialectError>,
    b: Result<String, DialectError>,
    c: Result<String, DialectError>,
    d: Result<String, DialectError>,
    e: Result<String, DialectError>,
) -> (r: Result<String, DialectError>)
    ensures
        told(r) == composed(template@, seq![told(a), told(b), told(c), told(d), told(e)]),
{
    let ghost parts = seq![told(a), told(b), told(c), told(d), told(e)];
    proof {
        reveal_with_fuel(first_refusal, 7);
    }
    let a = a?;
    let b = b?;
    let c = c?;
    let d = d?;
    let e = e?;
    let out = text::fill5(template, a.as_str(), b.as_str(), c.as_str(), d.as_str(), e.as_str());
    assert(Seq::new(parts.len(), |i: int| parts[i]->Ok_0) =~= seq![a@, b@, c@, d@, e@]);
    Ok(out)
}

/// What comes after pieces that were all granted decides.
pub proof fn first_refusal_appends<T>(a: Seq<Result<T, Refusal>>, b: Seq<Result<T, Refusal>>)
    ensures
        first_refusal(a + b) == match first_refusal(a) {
            Some(e) => Some(e),
            None => first_refusal(b),
        },
    decreases a.len(),
{
    if a.len() == 0 {
        assert(a + b =~= b);
    } else {
        assert((a + b).drop_first() =~= a.drop_first() + b);
        first_refusal_appends(a.drop_first(), b);
    }
}

/// One more piece decides only where everything before it was granted.
pub proof fn first_refusal_pushes<T>(a: Seq<Result<T, Refusal>>, x: Result<T, Refusal>)
    ensures
        first_refusal(a.push(x)) == match first_refusal(a) {
            Some(e) => Some(e),
            None => match x {
                Err(e) => Some(e),
                Ok(_) => None,
            },
        },
{
    reveal_with_fuel(first_refusal, 2);
    first_refusal_appends(a, seq![x]);
    assert(a.push(x) =~= a + seq![x]);
    assert(seq![x].drop_first() =~= Seq::empty());
}

/// The refusal of a prefix is the refusal of the whole.
pub proof fn first_refusal_of_prefix<T>(parts: Seq<Result<T, Refusal>>, n: int)
    requires
        0 <= n <= parts.len(),
        first_refusal(parts.take(n)) is Some,
    ensures
        first_refusal(parts) == first_refusal(parts.take(n)),
{
    first_refusal_appends(parts.take(n), parts.skip(n));
    assert(parts =~= parts.take(n) + parts.skip(n));
}

/// Where nothing is refused, every piece is there.
pub proof fn nothing_refused<T>(parts: Seq<Result<T, Refusal>>)
    requires
        first_refusal(parts) is None,
    ensures
        forall|i: int| 0 <= i < parts.len() ==> (#[trigger] parts[i]) is Ok,
    decreases parts.len(),
{
    if parts.len() > 0 {
        nothing_refused(parts.drop_first());
        assert forall|i: int| 0 <= i < parts.len() implies (#[trigger] parts[i]) is Ok by {
            if i > 0 {
                assert(parts[i] == parts.drop_first()[i - 1]);
            }
        }
    }
}

/// What some texts-or-refusals hold.
pub open spec fn all_told(v: Seq<Result<String, DialectError>>) -> Seq<Result<Seq<char>, Refusal>> {
    Seq::new(v.len(), |i: int| told(v[i]))
}

/// The texts of a list with a separator between them, or the first refusal in
/// the list.
pub open spec fn joined_all(
    parts: Seq<Result<Seq<char>, Refusal>>,
    separator: Seq<char>,
) -> Result<Seq<char>, Refusal> {
    match collected(parts) {
        Err(e) => Err(e),
        Ok(all) => Ok(text::joined(all, separator)),
    }
}

/// Joins the texts of a list, or hands back the first refusal in it.
pub fn join_all(parts: Vec<Result<String, DialectError>>, separator: &str) -> (r: Result<
    String,
    DialectError,
>)
    ensures
        told(r) == joined_all(all_told(parts@), separator@),
{
    let ghost all = all_told(parts@);
    let mut out: Vec<String> = Vec::new();
    let mut i: usize = 0;
    while i < parts.len()
        invariant
            i <= parts@.len(),
            all == all_told(parts@),
            out@.len() == i,
            first_refusal(all.take(i as int)) is None,
            forall|k: int| 0 <= k < i ==> all[k] == Ok::<Seq<char>, Refusal>(out@[k]@),
        decreases parts@.len() - i,
    {
        proof {
            assert(all.take(i as int + 1) =~= all.take(i as int).push(all[i as int]));
            first_refusal_pushes(all.take(i as int), all[i as int]);
        }
        match &parts[i] {
            Ok(s) => {
                out.push(s.clone());
            },
            Err(e) => {
                proof {
                    first_refusal_of_prefix(all, i as int + 1);
                }
                return Err(e.again());
            },
        }
        i += 1;
    }
    assert(all.take(i as int) =~= all);
    assert(Seq::new(all.len(), |k: int| all[k]->Ok_0) =~= text::texts(out@));
    Ok(text::join(&out, separator))
}

// ---------------------------------------------------------------------------
// Lists of refusals

/// One refusal in a list of its own.
pub fn just(message: String) -> (r: Vec<DialectError>)
    ensures
        refusals(r@) == seq![refused(message@)],
{
    let out: Vec<DialectError> = vec![invalid(message)];
    assert(refusals(out@) =~= seq![refused(message@)]);
    out
}

/// Adds some refusals to others.
pub fn extend(found: &mut Vec<DialectError>, more: Vec<DialectError>)
    ensures
        refusals(final(found)@) == refusals(old(found)@) + refusals(more@),
{
    let mut more = more;
    let ghost before = found@;
    let ghost added = more@;
    found.append(&mut more);
    assert(found@ =~= before + added);
    assert(refusals(found@) =~= refusals(before) + refusals(added));
}

/// Adds one refusal to others.
pub fn add_one(found: &mut Vec<DialectError>, e: DialectError)
    ensures
        refusals(final(found)@) == refusals(old(found)@) + seq![e@],
{
    proof {
        refusals_push(found@, e);
    }
    let ghost before = refusals(found@);
    found.push(e);
    assert(refusals(found@) =~= before + seq![e@]);
}

} // verus!

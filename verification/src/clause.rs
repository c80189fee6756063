//! What the conditions of a query mean.
//!
//! A condition has a text, the values for its marks, and rows for which it
//! holds. A comparison with a missing value holds of no row.

use crate::db::ParamView;
use crate::text;
use vstd::prelude::*;

verus! {

/// A value in a condition.
pub enum Term {
    /// A column of the row.
    Column(Seq<char>),
    /// A mark, with the value that stands for it.
    Mark(ParamView),
    /// A text.
    Text(Seq<char>),
    /// A number.
    Number(i64),
    /// A member of the JSON text in a column.
    Member(Seq<char>, Seq<char>),
    /// The first of three values that is not missing.
    First(Box<Term>, Box<Term>, Box<Term>),
    /// The product of two differences.
    Product(Box<Term>, Box<Term>, Box<Term>, Box<Term>),
    /// A sum.
    Sum(Box<Term>, Box<Term>),
}

/// How two values are compared.
pub enum Test {
    Equal,
    /// Equal, whatever the case of ASCII letters.
    EqualNoCase,
    Differs,
    AtMost,
    AtLeast,
    More,
    Like,
}

/// A condition on one row.
pub enum Clause {
    IsNull(Seq<char>),
    NotNull(Seq<char>),
    Compare(Term, Test, Term),
    OneOf(Term, Seq<Term>),
    /// A column is one of several texts.
    Among(Seq<char>, Seq<Seq<char>>),
}

/// A part of a query: a condition, one of several, or that the system has a
/// body for which a condition holds.
pub enum Part {
    One(Clause),
    Any(Seq<Clause>),
    SystemHas(Clause),
}

/// What a query is put to: a row, the bodies there are, and how numbers and
/// JSON texts are read.
pub struct World {
    pub row: spec_fn(Seq<char>) -> ParamView,
    pub bodies: Set<spec_fn(Seq<char>) -> ParamView>,
    pub at_most: spec_fn(ParamView, ParamView) -> bool,
    pub member: spec_fn(ParamView, Seq<char>) -> ParamView,
    pub product: spec_fn(ParamView, ParamView, ParamView, ParamView) -> ParamView,
    pub sum: spec_fn(ParamView, ParamView) -> ParamView,
}

pub open spec fn term_text(t: Term) -> Seq<char>
    decreases t,
{
    match t {
        Term::Column(c) => c,
        Term::Mark(_) => "?"@,
        Term::Text(s) => "'"@ + s + "'"@,
        Term::Number(n) => text::signed_numeral(n as int),
        Term::Member(c, name) => "json_extract("@ + c + ",'$."@ + name + "')"@,
        Term::First(a, b, c) => "COALESCE("@ + term_text(*a) + ","@ + term_text(*b) + ","@
            + term_text(*c) + ")"@,
        Term::Product(a, b, c, d) => "("@ + term_text(*a) + "-"@ + term_text(*b) + ")*("@
            + term_text(*c) + "-"@ + term_text(*d) + ")"@,
        Term::Sum(a, b) => term_text(*a) + " + "@ + term_text(*b),
    }
}

/// The values for the marks of a term.
pub open spec fn term_values(t: Term) -> Seq<ParamView>
    decreases t,
{
    match t {
        Term::Mark(v) => seq![v],
        Term::First(a, b, c) => term_values(*a) + term_values(*b) + term_values(*c),
        Term::Product(a, b, c, d) => term_values(*a) + term_values(*b) + term_values(*c)
            + term_values(*d),
        Term::Sum(a, b) => term_values(*a) + term_values(*b),
        _ => Seq::empty(),
    }
}

/// What a term stands for.
pub open spec fn value(t: Term, w: World) -> ParamView
    decreases t,
{
    match t {
        Term::Column(c) => (w.row)(c),
        Term::Mark(v) => v,
        Term::Text(s) => ParamView::Text(s),
        Term::Number(n) => ParamView::Int(n),
        Term::Member(c, name) => (w.member)((w.row)(c), name),
        Term::First(a, b, c) => if value(*a, w) !is Null {
            value(*a, w)
        } else if value(*b, w) !is Null {
            value(*b, w)
        } else {
            value(*c, w)
        },
        Term::Product(a, b, c, d) => (w.product)(
            value(*a, w),
            value(*b, w),
            value(*c, w),
            value(*d, w),
        ),
        Term::Sum(a, b) => (w.sum)(value(*a, w), value(*b, w)),
    }
}

/// The text `s` is like the pattern `p`: `%` stands for any characters, `_` for
/// one, and the case of ASCII letters does not matter.
pub open spec fn is_like(s: Seq<char>, p: Seq<char>) -> bool
    decreases p.len(), s.len(),
{
    if p.len() == 0 {
        s.len() == 0
    } else if p[0] == '%' {
        is_like(s, p.skip(1)) || (s.len() > 0 && is_like(s.skip(1), p))
    } else if s.len() == 0 {
        false
    } else {
        (p[0] == '_' || text::ascii_lower(s[0]) == text::ascii_lower(p[0])) && is_like(
            s.skip(1),
            p.skip(1),
        )
    }
}

/// Two values are the same text, whatever the case of ASCII letters.
pub open spec fn same_text(a: ParamView, b: ParamView) -> bool {
    a matches ParamView::Text(s) && b matches ParamView::Text(t) && text::ascii_lower_all(s)
        == text::ascii_lower_all(t)
}

/// A value is a text that is like a pattern.
pub open spec fn like(a: ParamView, b: ParamView) -> bool {
    a matches ParamView::Text(s) && b matches ParamView::Text(p) && is_like(s, p)
}

/// A comparison holds.
pub open spec fn passes(a: ParamView, test: Test, b: ParamView, w: World) -> bool {
    a !is Null && b !is Null && match test {
        Test::Equal => a == b,
        Test::EqualNoCase => same_text(a, b),
        Test::Differs => a != b,
        Test::AtMost => (w.at_most)(a, b),
        Test::AtLeast => (w.at_most)(b, a),
        Test::More => !(w.at_most)(a, b),
        Test::Like => like(a, b),
    }
}

pub open spec fn test_text(test: Test) -> Seq<char> {
    match test {
        Test::Equal => " = "@,
        Test::EqualNoCase => " = "@,
        Test::Differs => " != "@,
        Test::AtMost => " <= "@,
        Test::AtLeast => " >= "@,
        Test::More => " > "@,
        Test::Like => " LIKE "@,
    }
}

/// What stands behind a comparison.
pub open spec fn test_end(test: Test) -> Seq<char> {
    match test {
        Test::EqualNoCase => " COLLATE NOCASE"@,
        _ => Seq::empty(),
    }
}

/// The texts of terms.
pub open spec fn term_texts(ts: Seq<Term>) -> Seq<Seq<char>> {
    ts.map_values(|t: Term| term_text(t))
}

pub open spec fn clause_text(c: Clause) -> Seq<char> {
    match c {
        Clause::IsNull(col) => col + " IS NULL"@,
        Clause::NotNull(col) => col + " IS NOT NULL"@,
        Clause::Compare(a, test, b) => term_text(a) + test_text(test) + term_text(b) + test_end(
            test,
        ),
        Clause::OneOf(a, ts) => term_text(a) + " IN ("@ + text::joined(term_texts(ts), ","@) + ")"@,
        Clause::Among(col, ts) => col + " IN ('"@ + text::joined(ts, "', '"@) + "')"@,
    }
}

/// The values for the marks of terms.
pub open spec fn terms_values(ts: Seq<Term>) -> Seq<ParamView>
    decreases ts.len(),
{
    if ts.len() == 0 {
        Seq::empty()
    } else {
        terms_values(ts.drop_last()) + term_values(ts.last())
    }
}

/// The values for the marks of a condition.
pub open spec fn clause_values(c: Clause) -> Seq<ParamView> {
    match c {
        Clause::Compare(a, _, b) => term_values(a) + term_values(b),
        Clause::OneOf(a, ts) => term_values(a) + terms_values(ts),
        _ => Seq::empty(),
    }
}

/// A condition holds of a row.
pub open spec fn clause_holds(c: Clause, w: World) -> bool {
    match c {
        Clause::IsNull(col) => (w.row)(col) is Null,
        Clause::NotNull(col) => (w.row)(col) !is Null,
        Clause::Compare(a, test, b) => passes(value(a, w), test, value(b, w), w),
        Clause::OneOf(a, ts) => exists|i: int|
            0 <= i < ts.len() && passes(value(a, w), Test::Equal, value(#[trigger] ts[i], w), w),
        Clause::Among(col, ts) => (w.row)(col) matches ParamView::Text(s) && ts.contains(s),
    }
}

/// The texts of conditions.
pub open spec fn clause_texts(cs: Seq<Clause>) -> Seq<Seq<char>> {
    cs.map_values(|c: Clause| clause_text(c))
}

/// The values for the marks of conditions.
pub open spec fn clauses_values(cs: Seq<Clause>) -> Seq<ParamView>
    decreases cs.len(),
{
    if cs.len() == 0 {
        Seq::empty()
    } else {
        clauses_values(cs.drop_last()) + clause_values(cs.last())
    }
}

pub open spec fn part_text(p: Part) -> Seq<char> {
    match p {
        Part::One(c) => clause_text(c),
        Part::Any(cs) => "("@ + text::joined(clause_texts(cs), " OR "@) + ")"@,
        Part::SystemHas(
            c,
        ) => "EXISTS (SELECT 1 FROM bodies b2 WHERE b2.systemId64 = s.id64 AND "@ + clause_text(c)
            + ")"@,
    }
}

/// The values for the marks of a part.
pub open spec fn part_values(p: Part) -> Seq<ParamView> {
    match p {
        Part::One(c) => clause_values(c),
        Part::Any(cs) => clauses_values(cs),
        Part::SystemHas(c) => clause_values(c),
    }
}

/// One of several conditions holds of a row.
pub open spec fn any_holds(cs: Seq<Clause>, w: World) -> bool {
    exists|i: int| 0 <= i < cs.len() && clause_holds(#[trigger] cs[i], w)
}

/// A part holds of a row.
pub open spec fn part_holds(p: Part, w: World) -> bool {
    match p {
        Part::One(c) => clause_holds(c, w),
        Part::Any(cs) => any_holds(cs, w),
        Part::SystemHas(c) => exists|b: spec_fn(Seq<char>) -> ParamView| #[trigger]
            w.bodies.contains(b) && passes(
                b("b2.systemId64"@),
                Test::Equal,
                (w.row)("s.id64"@),
                w,
            ) && clause_holds(c, World { row: b, ..w }),
    }
}

/// The parts of a query that all have to hold, each behind an `AND`.
pub open spec fn parts_text(ps: Seq<Part>) -> Seq<char>
    decreases ps.len(),
{
    if ps.len() == 0 {
        Seq::empty()
    } else {
        parts_text(ps.drop_last()) + (" AND "@ + part_text(ps.last()))
    }
}

/// The values for the marks of the parts of a query.
pub open spec fn parts_values(ps: Seq<Part>) -> Seq<ParamView>
    decreases ps.len(),
{
    if ps.len() == 0 {
        Seq::empty()
    } else {
        parts_values(ps.drop_last()) + part_values(ps.last())
    }
}

/// All parts of a query hold of a row.
pub open spec fn parts_hold(ps: Seq<Part>, w: World) -> bool
    decreases ps.len(),
{
    ps.len() == 0 || (parts_hold(ps.drop_last(), w) && part_holds(ps.last(), w))
}

/// One more part.
pub proof fn lemma_parts_push(ps: Seq<Part>, p: Part)
    ensures
        parts_text(ps.push(p)) == parts_text(ps) + (" AND "@ + part_text(p)),
        parts_values(ps.push(p)) == parts_values(ps) + part_values(p),
        forall|w: World| #[trigger]
            parts_hold(ps.push(p), w) <==> parts_hold(ps, w) && part_holds(p, w),
{
    assert(ps.push(p).drop_last() =~= ps);
}

/// Those of the first `n` parts that are asked for.
pub open spec fn chosen(asked: Seq<bool>, parts: Seq<Part>, n: nat) -> Seq<Part>
    decreases n,
{
    if n == 0 {
        Seq::empty()
    } else if asked[n - 1] {
        chosen(asked, parts, (n - 1) as nat).push(parts[n - 1])
    } else {
        chosen(asked, parts, (n - 1) as nat)
    }
}

/// The text `head` with those of the first `n` texts behind it that are asked
/// for.
pub open spec fn text_behind(
    head: Seq<char>,
    asked: Seq<bool>,
    texts: Seq<Seq<char>>,
    n: nat,
) -> Seq<char>
    decreases n,
{
    if n == 0 {
        head
    } else if asked[n - 1] {
        text_behind(head, asked, texts, (n - 1) as nat) + texts[n - 1]
    } else {
        text_behind(head, asked, texts, (n - 1) as nat)
    }
}

/// The values `head` with those of the first `n` lists of values behind them
/// that are asked for.
pub open spec fn values_behind(
    head: Seq<ParamView>,
    asked: Seq<bool>,
    values: Seq<Seq<ParamView>>,
    n: nat,
) -> Seq<ParamView>
    decreases n,
{
    if n == 0 {
        head
    } else if asked[n - 1] {
        values_behind(head, asked, values, (n - 1) as nat) + values[n - 1]
    } else {
        values_behind(head, asked, values, (n - 1) as nat)
    }
}

/// Where each text is that of a part, and each list of values too, what is
/// chosen of them is what is chosen of the parts; it holds of the rows of which
/// all the parts hold that are asked for.
pub proof fn lemma_chosen(
    head: Seq<char>,
    bounds: Seq<ParamView>,
    asked: Seq<bool>,
    parts: Seq<Part>,
    texts: Seq<Seq<char>>,
    values: Seq<Seq<ParamView>>,
    n: nat,
)
    requires
        forall|i: int|
            0 <= i < n && asked[i] ==> #[trigger] texts[i] == " AND "@ + part_text(parts[i]),
        forall|i: int| 0 <= i < n && asked[i] ==> #[trigger] values[i] == part_values(parts[i]),
    ensures
        text_behind(head, asked, texts, n) == head + parts_text(chosen(asked, parts, n)),
        values_behind(bounds, asked, values, n) == bounds + parts_values(chosen(asked, parts, n)),
        forall|w: World| #[trigger]
            parts_hold(chosen(asked, parts, n), w) <==> all_hold(asked, parts, n, w),
    decreases n,
{
    if n == 0 {
        assert(head + parts_text(chosen(asked, parts, n)) =~= head);
        assert(bounds + parts_values(chosen(asked, parts, n)) =~= bounds);
    } else {
        let m = (n - 1) as nat;
        lemma_chosen(head, bounds, asked, parts, texts, values, m);
        lemma_parts_push(chosen(asked, parts, m), parts[m as int]);
        let p = chosen(asked, parts, m);
        assert(head + parts_text(p) + texts[m as int] =~= head + (parts_text(p)
            + texts[m as int]));
        assert(bounds + parts_values(p) + values[m as int] =~= bounds + (parts_values(p)
            + values[m as int]));
        assert forall|w: World| #[trigger]
            parts_hold(chosen(asked, parts, n), w) <==> all_hold(asked, parts, n, w) by {
            assert(parts_hold(p, w) <==> all_hold(asked, parts, m, w));
        }
    }
}

/// Of the first `n` parts, all that are asked for hold of a row.
pub open spec fn all_hold(asked: Seq<bool>, parts: Seq<Part>, n: nat, w: World) -> bool
    decreases n,
{
    n == 0 || (all_hold(asked, parts, (n - 1) as nat, w) && (asked[n - 1] ==> part_holds(
        parts[n - 1],
        w,
    )))
}

/// One of two conditions.
pub open spec fn either(a: Clause, b: Clause) -> Part {
    Part::Any(seq![a, b])
}

/// What one of two conditions is.
pub proof fn lemma_either(a: Clause, b: Clause)
    ensures
        part_text(either(a, b)) == "("@ + (clause_text(a) + " OR "@ + clause_text(b)) + ")"@,
        part_values(either(a, b)) == clause_values(a) + clause_values(b),
        forall|w: World| #[trigger]
            part_holds(either(a, b), w) <==> clause_holds(a, w) || clause_holds(b, w),
{
    let cs = seq![a, b];
    let ts = clause_texts(cs);
    assert(ts.drop_last() =~= seq![clause_text(a)]);
    assert(ts.last() == clause_text(b));
    assert(text::joined(ts.drop_last(), " OR "@) == clause_text(a));
    assert(text::joined(ts, " OR "@) == clause_text(a) + " OR "@ + clause_text(b));
    assert(cs.drop_last() =~= seq![a]);
    assert(seq![a].drop_last() =~= Seq::<Clause>::empty());
    assert(clauses_values(seq![a]) =~= clause_values(a)) by {
        reveal_with_fuel(clauses_values, 3);
        assert(seq![a].last() == a);
    }
    assert(cs[0] == a && cs[1] == b);
    assert forall|w: World| #[trigger]
        part_holds(either(a, b), w) <==> clause_holds(a, w) || clause_holds(b, w) by {
        if clause_holds(a, w) || clause_holds(b, w) {
            let i: int = if clause_holds(a, w) {
                0
            } else {
                1
            };
            assert(0 <= i < cs.len() && clause_holds(cs[i], w));
        }
        if part_holds(either(a, b), w) {
            let i = choose|i: int| 0 <= i < cs.len() && clause_holds(#[trigger] cs[i], w);
            assert(i == 0 || i == 1);
        }
    }
}

/// One more condition of which one has to hold.
pub proof fn lemma_any_push(cs: Seq<Clause>, c: Clause)
    ensures
        clause_texts(cs.push(c)) == clause_texts(cs).push(clause_text(c)),
        clauses_values(cs.push(c)) == clauses_values(cs) + clause_values(c),
        forall|w: World| #[trigger]
            part_holds(Part::Any(cs.push(c)), w) <==> part_holds(Part::Any(cs), w) || clause_holds(
                c,
                w,
            ),
{
    let ds = cs.push(c);
    assert(clause_texts(ds) =~= clause_texts(cs).push(clause_text(c)));
    assert(ds.drop_last() =~= cs);
    assert forall|w: World| #[trigger]
        part_holds(Part::Any(cs.push(c)), w) <==> part_holds(Part::Any(cs), w) || clause_holds(
            c,
            w,
        ) by {
        assert(part_holds(Part::Any(ds), w) <==> any_holds(ds, w));
        assert(part_holds(Part::Any(cs), w) <==> any_holds(cs, w));
        if clause_holds(c, w) {
            assert(clause_holds(ds[cs.len() as int], w));
        }
        if part_holds(Part::Any(cs), w) {
            let i = choose|i: int| 0 <= i < cs.len() && clause_holds(#[trigger] cs[i], w);
            assert(clause_holds(ds[i], w));
        }
        if part_holds(Part::Any(ds), w) {
            let i = choose|i: int| 0 <= i < ds.len() && clause_holds(#[trigger] ds[i], w);
            if i < cs.len() {
                assert(clause_holds(cs[i], w));
            }
        }
    }
}

/// A column is one of the texts `ts`, each at a mark.
pub open spec fn one_of_texts(col: Seq<char>, ts: Seq<Seq<char>>) -> Clause {
    Clause::OneOf(Term::Column(col), text_marks(ts))
}

/// A mark for each text.
pub open spec fn text_marks(ts: Seq<Seq<char>>) -> Seq<Term> {
    ts.map_values(|t: Seq<char>| Term::Mark(ParamView::Text(t)))
}

/// A column is one of several texts.
pub proof fn lemma_one_of_texts(col: Seq<char>, ts: Seq<Seq<char>>)
    ensures
        clause_values(one_of_texts(col, ts)) == ts.map_values(|t: Seq<char>| ParamView::Text(t)),
        forall|w: World| #[trigger]
            clause_holds(one_of_texts(col, ts), w) <==> ((w.row)(col) matches ParamView::Text(s)
                && ts.contains(s)),
{
    lemma_text_marks(ts);
    let ms = text_marks(ts);
    assert(clause_values(one_of_texts(col, ts)) =~= terms_values(ms));
    assert forall|w: World| #[trigger]
        clause_holds(one_of_texts(col, ts), w) <==> ((w.row)(col) matches ParamView::Text(s)
            && ts.contains(s)) by {
        assert(clause_holds(Clause::OneOf(Term::Column(col), ms), w) <==> exists|i: int|
            0 <= i < ms.len() && passes(
                value(Term::Column(col), w),
                Test::Equal,
                value(#[trigger] ms[i], w),
                w,
            ));
        if clause_holds(one_of_texts(col, ts), w) {
            let i = choose|i: int|
                0 <= i < ms.len() && passes(
                    value(Term::Column(col), w),
                    Test::Equal,
                    value(#[trigger] ms[i], w),
                    w,
                );
            assert(ms[i] == Term::Mark(ParamView::Text(ts[i])));
            assert(ts.contains(ts[i]));
        }
        if (w.row)(col) matches ParamView::Text(s) && ts.contains(s) {
            let s = (w.row)(col)->Text_0;
            let i = choose|i: int| 0 <= i < ts.len() && ts[i] == s;
            assert(ms[i] == Term::Mark(ParamView::Text(ts[i])));
            assert(passes(value(Term::Column(col), w), Test::Equal, value(ms[i], w), w));
        }
    }
}

proof fn lemma_text_marks(ts: Seq<Seq<char>>)
    ensures
        terms_values(text_marks(ts)) == ts.map_values(|t: Seq<char>| ParamView::Text(t)),
    decreases ts.len(),
{
    if ts.len() > 0 {
        lemma_text_marks(ts.drop_last());
        assert(text_marks(ts).drop_last() =~= text_marks(ts.drop_last()));
        assert(text_marks(ts).last() == Term::Mark(ParamView::Text(ts.last())));
    }
    assert(terms_values(text_marks(ts)) =~= ts.map_values(|t: Seq<char>| ParamView::Text(t)));
}

/// A bound of a box: the place lies at or above it, or at or below it.
pub open spec fn box_clause(column: Seq<char>, test: Test, v: ParamView) -> Clause {
    Clause::Compare(Term::Column(column), test, Term::Mark(v))
}

/// The six bounds of a box: least and greatest along each axis.
pub open spec fn box_clauses(v: Seq<ParamView>) -> Seq<Clause> {
    seq![
        box_clause("i.minX"@, Test::AtLeast, v[0]),
        box_clause("i.maxX"@, Test::AtMost, v[1]),
        box_clause("i.minY"@, Test::AtLeast, v[2]),
        box_clause("i.maxY"@, Test::AtMost, v[3]),
        box_clause("i.minZ"@, Test::AtLeast, v[4]),
        box_clause("i.maxZ"@, Test::AtMost, v[5]),
    ]
}

/// The place of a row lies in a box.
pub open spec fn is_in_box(w: World, v: Seq<ParamView>) -> bool {
    &&& (w.at_most)(v[0], (w.row)("i.minX"@))
    &&& (w.at_most)((w.row)("i.maxX"@), v[1])
    &&& (w.at_most)(v[2], (w.row)("i.minY"@))
    &&& (w.at_most)((w.row)("i.maxY"@), v[3])
    &&& (w.at_most)(v[4], (w.row)("i.minZ"@))
    &&& (w.at_most)((w.row)("i.maxZ"@), v[5])
}

/// The bounds of a box take its values in order and hold of the places in it.
pub proof fn law_bounds_are_a_box(v: Seq<ParamView>, w: World)
    requires
        v.len() == 6,
        forall|i: int| 0 <= i < 6 ==> #[trigger] v[i] !is Null,
        (w.row)("i.minX"@) !is Null && (w.row)("i.maxX"@) !is Null,
        (w.row)("i.minY"@) !is Null && (w.row)("i.maxY"@) !is Null,
        (w.row)("i.minZ"@) !is Null && (w.row)("i.maxZ"@) !is Null,
    ensures
        clauses_values(box_clauses(v)) == v,
        (forall|i: int| 0 <= i < 6 ==> clause_holds(#[trigger] box_clauses(v)[i], w))
            <==> is_in_box(
            w,
            v,
        ),
{
    let b = box_clauses(v);
    let b5 = b.drop_last();
    let b4 = b5.drop_last();
    let b3 = b4.drop_last();
    let b2 = b3.drop_last();
    let b1 = b2.drop_last();
    assert(b1.drop_last() =~= Seq::<Clause>::empty());
    assert(b1.len() == 1 && b1.last() == b[0]);
    assert(clauses_values(b1) =~= v.take(1)) by {
        assert(clauses_values(b1.drop_last()) =~= Seq::empty());
    }
    assert(clauses_values(b2) =~= v.take(2));
    assert(clauses_values(b3) =~= v.take(3));
    assert(clauses_values(b4) =~= v.take(4));
    assert(clauses_values(b5) =~= v.take(5));
    assert(clauses_values(b) =~= v);
    if forall|i: int| 0 <= i < 6 ==> clause_holds(#[trigger] b[i], w) {
        assert(clause_holds(b[0], w) && clause_holds(b[1], w) && clause_holds(b[2], w));
        assert(clause_holds(b[3], w) && clause_holds(b[4], w) && clause_holds(b[5], w));
    }
}

/// The sum of the squares of the differences along the axes between the place
/// of a row and a place.
pub open spec fn squares(x: ParamView, y: ParamView, z: ParamView) -> Term {
    Term::Sum(
        Box::new(Term::Sum(Box::new(square("i.minX"@, x)), Box::new(square("i.minY"@, y)))),
        Box::new(square("i.minZ"@, z)),
    )
}

/// The square of the difference between a column and a value.
pub open spec fn square(column: Seq<char>, v: ParamView) -> Term {
    Term::Product(
        Box::new(Term::Column(column)),
        Box::new(Term::Mark(v)),
        Box::new(Term::Column(column)),
        Box::new(Term::Mark(v)),
    )
}

/// A text starts as `p` does, whatever the case of ASCII letters.
pub open spec fn starts_like(s: Seq<char>, p: Seq<char>) -> bool {
    &&& p.len() <= s.len()
    &&& forall|i: int|
        0 <= i < p.len() ==> text::ascii_lower(#[trigger] s[i]) == text::ascii_lower(p[i])
}

/// No character of a pattern stands for others.
pub open spec fn is_plain(p: Seq<char>) -> bool {
    forall|i: int| 0 <= i < p.len() ==> #[trigger] p[i] != '%' && p[i] != '_'
}

proof fn lemma_like_all(s: Seq<char>)
    ensures
        is_like(s, seq!['%']),
    decreases s.len(),
{
    reveal_with_fuel(is_like, 2);
    assert(seq!['%'].skip(1) =~= Seq::<char>::empty());
    if s.len() > 0 {
        lemma_like_all(s.skip(1));
    }
}

proof fn lemma_like_start(s: Seq<char>, p: Seq<char>)
    requires
        is_plain(p),
    ensures
        is_like(s, p + seq!['%']) <==> starts_like(s, p),
    decreases p.len(),
{
    let q = p + seq!['%'];
    if p.len() == 0 {
        assert(q =~= seq!['%']);
        lemma_like_all(s);
    } else {
        assert(q[0] == p[0]);
        assert(q.skip(1) =~= p.skip(1) + seq!['%']);
        assert(is_plain(p.skip(1)));
        if s.len() > 0 {
            lemma_like_start(s.skip(1), p.skip(1));
            if starts_like(s, p) {
                assert(text::ascii_lower(s[0]) == text::ascii_lower(p[0]));
                assert forall|i: int| 0 <= i < p.skip(1).len() implies text::ascii_lower(
                    #[trigger] s.skip(1)[i],
                ) == text::ascii_lower(p.skip(1)[i]) by {
                    assert(s.skip(1)[i] == s[i + 1]);
                }
            }
            if text::ascii_lower(s[0]) == text::ascii_lower(p[0]) && starts_like(
                s.skip(1),
                p.skip(1),
            ) {
                assert forall|i: int| 0 <= i < p.len() implies text::ascii_lower(#[trigger] s[i])
                    == text::ascii_lower(p[i]) by {
                    if i > 0 {
                        assert(s.skip(1)[i - 1] == s[i]);
                        assert(p.skip(1)[i - 1] == p[i]);
                    }
                }
            }
        }
    }
}

proof fn lemma_like_any(s: Seq<char>, q: Seq<char>)
    ensures
        is_like(s, seq!['%'] + q) <==> exists|k: int|
            0 <= k <= s.len() && is_like(#[trigger] s.skip(k), q),
    decreases s.len(),
{
    let x = seq!['%'] + q;
    assert(x.skip(1) =~= q);
    assert(s.skip(0) =~= s);
    if s.len() > 0 {
        let t = s.skip(1);
        lemma_like_any(t, q);
        if is_like(t, x) {
            let k = choose|k: int| 0 <= k <= t.len() && is_like(#[trigger] t.skip(k), q);
            assert(t.skip(k) =~= s.skip(k + 1));
        }
        if exists|k: int| 0 <= k <= s.len() && is_like(#[trigger] s.skip(k), q) {
            let k = choose|k: int| 0 <= k <= s.len() && is_like(#[trigger] s.skip(k), q);
            if k > 0 {
                assert(t.skip(k - 1) =~= s.skip(k));
            }
        }
    }
}

/// A text is like a plain pattern between two `%` where the pattern occurs in
/// it, whatever the case of ASCII letters; it is like a plain pattern before a
/// `%` where it starts so.
pub proof fn law_patterns_find_their_text(s: Seq<char>, p: Seq<char>)
    requires
        is_plain(p),
    ensures
        is_like(s, "%"@ + p + "%"@) <==> text::occurs(
            text::ascii_lower_all(s),
            text::ascii_lower_all(p),
        ),
        is_like(s, p + "%"@) <==> starts_like(s, p),
{
    reveal_strlit("%");
    assert("%"@ =~= seq!['%']);
    lemma_like_start(s, p);
    let q = p + seq!['%'];
    assert("%"@ + p + "%"@ =~= seq!['%'] + q);
    lemma_like_any(s, q);
    let l = text::ascii_lower_all(s);
    let m = text::ascii_lower_all(p);
    if is_like(s, seq!['%'] + q) {
        let k = choose|k: int| 0 <= k <= s.len() && is_like(#[trigger] s.skip(k), q);
        lemma_like_start(s.skip(k), p);
        assert(l.subrange(k, k + m.len()) =~= m) by {
            assert forall|i: int| 0 <= i < m.len() implies l.subrange(k, k + m.len())[i]
                == m[i] by {
                assert(s.skip(k)[i] == s[k + i]);
            }
        }
        assert(text::stands_at(l, m, k));
    }
    if text::occurs(l, m) {
        let k = choose|k: int| text::stands_at(l, m, k);
        assert forall|i: int| 0 <= i < p.len() implies text::ascii_lower(#[trigger] s.skip(k)[i])
            == text::ascii_lower(p[i]) by {
            assert(l.subrange(k, k + m.len())[i] == l[k + i]);
            assert(m[i] == text::ascii_lower(p[i]));
        }
        assert(starts_like(s.skip(k), p));
        lemma_like_start(s.skip(k), p);
    }
}

} // verus!

//! The search for systems and bodies in a cube.

use crate::clause;
use crate::clause::{Clause, Part, Term, Test, World};
use crate::db;
use crate::db::{Param, ParamView};
use crate::json;
use crate::json::{integer, string, Json, JsonView, Num, Object};
use crate::models::{CubeSearchQuery, SpanshCoords};
use crate::order;
use crate::order::order;
use crate::text;
use crate::text::{contains, contains_not_behind, decimal_i64, join, same, to_lowercase, trim, without};
use vstd::prelude::*;

verus! {

/// What a search asks for.
pub struct CubeFilter {
    /// Kinds of planets and of compact objects.
    pub subtypes: Vec<String>,
    /// Classes of stars.
    pub classes: Vec<String>,
    /// Kinds of white dwarfs.
    pub dwarfs: Vec<String>,
    /// Kinds of Wolf-Rayet stars.
    pub rayets: Vec<String>,
    /// What has to hold of the system, as SQL.
    pub reqs: Vec<String>,
    pub any_dwarf: bool,
    pub any_rayet: bool,
    pub terraformable: bool,
    pub bio: bool,
    pub geo: bool,
    pub landable: bool,
    /// The kind of rings; `%` stands for any.
    pub ring: Option<String>,
}

/// What a search asks for, as mathematics.
#[verifier::ext_equal]
pub struct FilterView {
    pub subtypes: Seq<Seq<char>>,
    pub classes: Seq<Seq<char>>,
    pub dwarfs: Seq<Seq<char>>,
    pub rayets: Seq<Seq<char>>,
    pub reqs: Seq<Seq<char>>,
    pub any_dwarf: bool,
    pub any_rayet: bool,
    pub terraformable: bool,
    pub bio: bool,
    pub geo: bool,
    pub landable: bool,
    pub ring: Option<Seq<char>>,
}

impl CubeFilter {
    pub open spec fn view(&self) -> FilterView {
        FilterView {
            subtypes: text::texts(self.subtypes@),
            classes: text::texts(self.classes@),
            dwarfs: text::texts(self.dwarfs@),
            rayets: text::texts(self.rayets@),
            reqs: text::texts(self.reqs@),
            any_dwarf: self.any_dwarf,
            any_rayet: self.any_rayet,
            terraformable: self.terraformable,
            bio: self.bio,
            geo: self.geo,
            landable: self.landable,
            ring: json::text_view(self.ring),
        }
    }
}

/// That a body of the system meets a condition, as SQL.
pub open spec fn system_has(condition: Seq<char>) -> Seq<char> {
    "EXISTS (SELECT 1 FROM bodies b2 WHERE b2.systemId64 = s.id64 AND b2.subType "@ + condition
        + ")"@
}

/// That a body of the system is of one kind.
pub open spec fn system_has_kind(kind: Seq<char>) -> Seq<char> {
    system_has("= '"@ + kind + "'"@)
}

fn has_sql(condition: &str) -> (r: String)
    ensures
        r@ == system_has(condition@),
{
    let mut r = String::new();
    r.append("EXISTS (SELECT 1 FROM bodies b2 WHERE b2.systemId64 = s.id64 AND b2.subType ");
    r.append(condition);
    r.append(")");
    assert(r@ =~= system_has(condition@));
    r
}

fn has_kind_sql(kind: &str) -> (r: String)
    ensures
        r@ == system_has_kind(kind@),
{
    let mut c = String::new();
    c.append("= '");
    c.append(kind);
    c.append("'");
    assert(c@ =~= "= '"@ + kind@ + "'"@);
    has_sql(c.as_str())
}

/// Adds a text to a list.
fn push_text(v: &mut Vec<String>, s: &str)
    ensures
        text::texts(final(v)@) == text::texts(old(v)@).push(s@),
{
    let ghost before = text::texts(v@);
    v.push(s.to_owned());
    assert(text::texts(v@) =~= before.push(s@));
}

/// Adds a text to a list.
fn push_string(v: &mut Vec<String>, s: String)
    ensures
        text::texts(final(v)@) == text::texts(old(v)@).push(s@),
{
    let ghost before = text::texts(v@);
    v.push(s);
    assert(text::texts(v@) =~= before.push(s@));
}

/// One more condition on the system.
pub open spec fn required(f: FilterView, req: Seq<char>) -> FilterView {
    FilterView { reqs: f.reqs.push(req), ..f }
}

/// A kind of planet or compact object is asked for.
#[verifier::opaque]
pub open spec fn with_subtype(f: FilterView, asked: bool, kind: Seq<char>) -> FilterView {
    if asked {
        required(FilterView { subtypes: f.subtypes.push(kind), ..f }, system_has_kind(kind))
    } else {
        f
    }
}

/// A kind of white dwarf is asked for.
#[verifier::opaque]
pub open spec fn with_dwarf(f: FilterView, asked: bool, kind: Seq<char>) -> FilterView {
    if asked {
        required(FilterView { dwarfs: f.dwarfs.push(kind), ..f }, system_has_kind(kind))
    } else {
        f
    }
}

/// A kind of Wolf-Rayet star is asked for.
#[verifier::opaque]
pub open spec fn with_rayet(f: FilterView, asked: bool, kind: Seq<char>) -> FilterView {
    if asked {
        required(FilterView { rayets: f.rayets.push(kind), ..f }, system_has_kind(kind))
    } else {
        f
    }
}

/// A class of stars with one name is asked for.
#[verifier::opaque]
pub open spec fn with_class(f: FilterView, asked: bool, kind: Seq<char>) -> FilterView {
    if asked {
        required(FilterView { classes: f.classes.push(kind), ..f }, system_has_kind(kind))
    } else {
        f
    }
}

/// A class of stars with two names is asked for.
#[verifier::opaque]
pub open spec fn with_class_pair(
    f: FilterView,
    asked: bool,
    a: Seq<char>,
    b: Seq<char>,
) -> FilterView {
    if asked {
        required(
            FilterView { classes: f.classes.push(a).push(b), ..f },
            system_has("IN ('"@ + a + "', '"@ + b + "')"@),
        )
    } else {
        f
    }
}

impl CubeFilter {
    fn subtype(&mut self, asked: bool, kind: &str)
        ensures
            final(self)@ == with_subtype(old(self)@, asked, kind@),
    {
        proof {
            reveal(with_subtype);
        }
        if asked {
            push_text(&mut self.subtypes, kind);
            push_string(&mut self.reqs, has_kind_sql(kind));
        }
    }

    fn dwarf(&mut self, asked: bool, kind: &str)
        ensures
            final(self)@ == with_dwarf(old(self)@, asked, kind@),
    {
        proof {
            reveal(with_dwarf);
        }
        if asked {
            push_text(&mut self.dwarfs, kind);
            push_string(&mut self.reqs, has_kind_sql(kind));
        }
    }

    fn rayet(&mut self, asked: bool, kind: &str)
        ensures
            final(self)@ == with_rayet(old(self)@, asked, kind@),
    {
        proof {
            reveal(with_rayet);
        }
        if asked {
            push_text(&mut self.rayets, kind);
            push_string(&mut self.reqs, has_kind_sql(kind));
        }
    }

    fn class(&mut self, asked: bool, kind: &str)
        ensures
            final(self)@ == with_class(old(self)@, asked, kind@),
    {
        proof {
            reveal(with_class);
        }
        if asked {
            push_text(&mut self.classes, kind);
            push_string(&mut self.reqs, has_kind_sql(kind));
        }
    }

    fn class_pair(&mut self, asked: bool, a: &str, b: &str)
        ensures
            final(self)@ == with_class_pair(old(self)@, asked, a@, b@),
    {
        proof {
            reveal(with_class_pair);
        }
        if asked {
            push_text(&mut self.classes, a);
            push_text(&mut self.classes, b);
            let mut c = String::new();
            c.append("IN ('");
            c.append(a);
            c.append("', '");
            c.append(b);
            c.append("')");
            assert(c@ =~= "IN ('"@ + a@ + "', '"@ + b@ + "')"@);
            push_string(&mut self.reqs, has_sql(c.as_str()));
        }
    }

    fn require(&mut self, req: &str)
        ensures
            final(self)@ == required(old(self)@, req@),
    {
        push_text(&mut self.reqs, req);
    }
}

/// The kinds of terrestrial planets that the text asks for.
pub open spec fn terrestrial(f: FilterView, eff: Seq<char>) -> FilterView {
    let f = with_subtype(f, text::occurs(eff, "earth-like"@), "Earth-like world"@);
    let f = with_subtype(f, text::occurs(eff, "water world"@), "Water world"@);
    let f = with_subtype(f, text::occurs(eff, "ammonia world"@), "Ammonia world"@);
    let f = with_subtype(f, text::occurs(eff, "high metal content"@), "High metal content world"@);
    let f = with_subtype(f, text::occurs(eff, "metal-rich body"@), "Metal-rich body"@);
    let f = with_subtype(f, text::occurs(eff, "rocky body"@), "Rocky body"@);
    let f = with_subtype(f, text::occurs(eff, "rocky ice world"@), "Rocky Ice world"@);
    let f = with_subtype(f, text::occurs(eff, "icy body"@), "Icy body"@);
    f
}

fn ask_terrestrial(f: &mut CubeFilter, eff: &str)
    ensures
        final(f)@ == terrestrial(old(f)@, eff@),
{
    f.subtype(contains(eff, "earth-like"), "Earth-like world");
    f.subtype(contains(eff, "water world"), "Water world");
    f.subtype(contains(eff, "ammonia world"), "Ammonia world");
    f.subtype(contains(eff, "high metal content"), "High metal content world");
    f.subtype(contains(eff, "metal-rich body"), "Metal-rich body");
    f.subtype(contains(eff, "rocky body"), "Rocky body");
    f.subtype(contains(eff, "rocky ice world"), "Rocky Ice world");
    f.subtype(contains(eff, "icy body"), "Icy body");
}

/// The kinds of gas giants that the text asks for.
pub open spec fn gas_giants(f: FilterView, eff: Seq<char>) -> FilterView {
    let f = with_subtype(f, text::occurs(eff, "class i gas giant"@), "Class I gas giant"@);
    let f = with_subtype(f, text::occurs(eff, "class ii gas giant"@), "Class II gas giant"@);
    let f = with_subtype(f, text::occurs(eff, "class iii gas giant"@), "Class III gas giant"@);
    let f = with_subtype(f, text::occurs(eff, "class iv gas giant"@), "Class IV gas giant"@);
    let f = with_subtype(f, text::occurs(eff, "class v gas giant"@), "Class V gas giant"@);
    let f = with_subtype(f, text::occurs(eff, "water-based life giant"@), "Gas giant with water-based life"@);
    let f = with_subtype(f, text::occurs(eff, "ammonia-based life giant"@), "Gas giant with ammonia-based life"@);
    let f = with_subtype(f, text::occurs(eff, "helium-rich gas giant"@), "Helium-rich gas giant"@);
    let f = with_subtype(f, !text::occurs(eff, "helium-rich gas giant"@) && text::occurs(eff, "helium gas giant"@), "Helium gas giant"@);
    let f = with_subtype(f, text::occurs(eff, "water giant"@), "Water giant"@);
    f
}

fn ask_gas_giants(f: &mut CubeFilter, eff: &str)
    ensures
        final(f)@ == gas_giants(old(f)@, eff@),
{
    f.subtype(contains(eff, "class i gas giant"), "Class I gas giant");
    f.subtype(contains(eff, "class ii gas giant"), "Class II gas giant");
    f.subtype(contains(eff, "class iii gas giant"), "Class III gas giant");
    f.subtype(contains(eff, "class iv gas giant"), "Class IV gas giant");
    f.subtype(contains(eff, "class v gas giant"), "Class V gas giant");
    f.subtype(contains(eff, "water-based life giant"), "Gas giant with water-based life");
    f.subtype(contains(eff, "ammonia-based life giant"), "Gas giant with ammonia-based life");
    f.subtype(contains(eff, "helium-rich gas giant"), "Helium-rich gas giant");
    f.subtype(!contains(eff, "helium-rich gas giant") && contains(eff, "helium gas giant"), "Helium gas giant");
    f.subtype(contains(eff, "water giant"), "Water giant");
}

/// The compact objects that the text asks for.
pub open spec fn compact(f: FilterView, eff: Seq<char>) -> FilterView {
    let f = with_subtype(f, text::occurs(eff, "neutron star"@), "Neutron Star"@);
    let f = with_subtype(f, text::occurs(eff, "supermassive black hole"@), "Supermassive Black Hole"@);
    let f = with_subtype(f, !text::occurs(eff, "supermassive black hole"@) && text::occurs(eff, "black hole"@), "Black Hole"@);
    f
}

fn ask_compact(f: &mut CubeFilter, eff: &str)
    ensures
        final(f)@ == compact(old(f)@, eff@),
{
    f.subtype(contains(eff, "neutron star"), "Neutron Star");
    f.subtype(contains(eff, "supermassive black hole"), "Supermassive Black Hole");
    f.subtype(!contains(eff, "supermassive black hole") && contains(eff, "black hole"), "Black Hole");
}

/// The white dwarfs of the kinds DA that the text asks for.
pub open spec fn dwarfs_da(f: FilterView, eff: Seq<char>) -> FilterView {
    let f = with_dwarf(f, text::occurs(eff, "white dwarf dab"@), "White Dwarf (DAB) Star"@);
    let f = with_dwarf(f, text::occurs(eff, "white dwarf dav"@), "White Dwarf (DAV) Star"@);
    let f = with_dwarf(f, text::occurs(eff, "white dwarf daz"@), "White Dwarf (DAZ) Star"@);
    let f = with_dwarf(f, text::occurs(eff, "white dwarf da"@) && !text::occurs(eff, "white dwarf dab"@) && !text::occurs(eff, "white dwarf dav"@) && !text::occurs(eff, "white dwarf daz"@), "White Dwarf (DA) Star"@);
    f
}

fn ask_dwarfs_da(f: &mut CubeFilter, eff: &str)
    ensures
        final(f)@ == dwarfs_da(old(f)@, eff@),
{
    f.dwarf(contains(eff, "white dwarf dab"), "White Dwarf (DAB) Star");
    f.dwarf(contains(eff, "white dwarf dav"), "White Dwarf (DAV) Star");
    f.dwarf(contains(eff, "white dwarf daz"), "White Dwarf (DAZ) Star");
    f.dwarf(contains(eff, "white dwarf da") && !contains(eff, "white dwarf dab") && !contains(eff, "white dwarf dav") && !contains(eff, "white dwarf daz"), "White Dwarf (DA) Star");
}

/// The white dwarfs of the kinds DB and DC that the text asks for.
pub open spec fn dwarfs_db(f: FilterView, eff: Seq<char>) -> FilterView {
    let f = with_dwarf(f, text::occurs(eff, "white dwarf dbv"@), "White Dwarf (DBV) Star"@);
    let f = with_dwarf(f, text::occurs(eff, "white dwarf dbz"@), "White Dwarf (DBZ) Star"@);
    let f = with_dwarf(f, text::occurs(eff, "white dwarf db"@) && !text::occurs(eff, "white dwarf dbv"@) && !text::occurs(eff, "white dwarf dbz"@), "White Dwarf (DB) Star"@);
    let f = with_dwarf(f, text::occurs(eff, "white dwarf dcv"@), "White Dwarf (DCV) Star"@);
    let f = with_dwarf(f, text::occurs(eff, "white dwarf dc"@) && !text::occurs(eff, "white dwarf dcv"@), "White Dwarf (DC) Star"@);
    f
}

fn ask_dwarfs_db(f: &mut CubeFilter, eff: &str)
    ensures
        final(f)@ == dwarfs_db(old(f)@, eff@),
{
    f.dwarf(contains(eff, "white dwarf dbv"), "White Dwarf (DBV) Star");
    f.dwarf(contains(eff, "white dwarf dbz"), "White Dwarf (DBZ) Star");
    f.dwarf(contains(eff, "white dwarf db") && !contains(eff, "white dwarf dbv") && !contains(eff, "white dwarf dbz"), "White Dwarf (DB) Star");
    f.dwarf(contains(eff, "white dwarf dcv"), "White Dwarf (DCV) Star");
    f.dwarf(contains(eff, "white dwarf dc") && !contains(eff, "white dwarf dcv"), "White Dwarf (DC) Star");
}

/// The white dwarfs of the other kinds that the text asks for.
pub open spec fn dwarfs_d(f: FilterView, eff: Seq<char>) -> FilterView {
    let f = with_dwarf(f, text::occurs(eff, "white dwarf dq"@), "White Dwarf (DQ) Star"@);
    let f = with_dwarf(f, text::occurs(eff, "white dwarf d"@) && !text::occurs(eff, "white dwarf da"@) && !text::occurs(eff, "white dwarf db"@) && !text::occurs(eff, "white dwarf dc"@) && !text::occurs(eff, "white dwarf dq"@), "White Dwarf (D) Star"@);
    f
}

fn ask_dwarfs_d(f: &mut CubeFilter, eff: &str)
    ensures
        final(f)@ == dwarfs_d(old(f)@, eff@),
{
    f.dwarf(contains(eff, "white dwarf dq"), "White Dwarf (DQ) Star");
    f.dwarf(contains(eff, "white dwarf d") && !contains(eff, "white dwarf da") && !contains(eff, "white dwarf db") && !contains(eff, "white dwarf dc") && !contains(eff, "white dwarf dq"), "White Dwarf (D) Star");
}

/// The white dwarfs that the text asks for: those of some kinds, or all.
pub open spec fn white_dwarfs(f: FilterView, eff: Seq<char>) -> FilterView {
    let f = dwarfs_da(f, eff);
    let f = dwarfs_db(f, eff);
    let f = dwarfs_d(f, eff);
    let f = if text::occurs(eff, "white dwarf"@) && f.dwarfs.len() == 0 {
        required(FilterView { any_dwarf: true, ..f }, system_has("LIKE 'White Dwarf%'"@))
    } else {
        f
    };
    f
}

fn ask_white_dwarfs(f: &mut CubeFilter, eff: &str)
    ensures
        final(f)@ == white_dwarfs(old(f)@, eff@),
{
    ask_dwarfs_da(f, eff);
    ask_dwarfs_db(f, eff);
    ask_dwarfs_d(f, eff);
    if contains(eff, "white dwarf") && f.dwarfs.len() == 0 {
        f.any_dwarf = true;
        let req = has_sql("LIKE 'White Dwarf%'");
        f.require(req.as_str());
    }
}

/// The Wolf-Rayet stars that the text asks for: those of some kinds, or all.
pub open spec fn wolf_rayets(f: FilterView, eff: Seq<char>) -> FilterView {
    let f = with_rayet(f, text::occurs(eff, "wolf-rayet c"@) && !text::occurs(eff, "wolf-rayet nc"@), "Wolf-Rayet C Star"@);
    let f = with_rayet(f, text::occurs(eff, "wolf-rayet n"@) && !text::occurs(eff, "wolf-rayet nc"@), "Wolf-Rayet N Star"@);
    let f = with_rayet(f, text::occurs(eff, "wolf-rayet nc"@), "Wolf-Rayet NC Star"@);
    let f = with_rayet(f, text::occurs(eff, "wolf-rayet o"@), "Wolf-Rayet O Star"@);
    let f = if text::occurs(eff, "wolf-rayet"@) && f.rayets.len() == 0 {
        required(FilterView { any_rayet: true, ..f }, system_has("LIKE 'Wolf-Rayet%'"@))
    } else {
        f
    };
    f
}

fn ask_wolf_rayets(f: &mut CubeFilter, eff: &str)
    ensures
        final(f)@ == wolf_rayets(old(f)@, eff@),
{
    f.rayet(contains(eff, "wolf-rayet c") && !contains(eff, "wolf-rayet nc"), "Wolf-Rayet C Star");
    f.rayet(contains(eff, "wolf-rayet n") && !contains(eff, "wolf-rayet nc"), "Wolf-Rayet N Star");
    f.rayet(contains(eff, "wolf-rayet nc"), "Wolf-Rayet NC Star");
    f.rayet(contains(eff, "wolf-rayet o"), "Wolf-Rayet O Star");
    if contains(eff, "wolf-rayet") && f.rayets.len() == 0 {
        f.any_rayet = true;
        let req = has_sql("LIKE 'Wolf-Rayet%'");
        f.require(req.as_str());
    }
}

/// The text asks for stars of class F. Where it asks for all white dwarfs, the
/// end of "white dwarf star" names no class.
pub open spec fn asks_for_f(eff: Seq<char>, any_dwarf: bool) -> bool {
    if any_dwarf {
        text::occurs_not_behind(eff, "f star"@, "white dwar"@)
    } else {
        text::occurs(eff, "f star"@)
    }
}

fn has_f(eff: &str, any_dwarf: bool) -> (r: bool)
    ensures
        r == asks_for_f(eff@, any_dwarf),
{
    if any_dwarf {
        contains_not_behind(eff, "f star", "white dwar")
    } else {
        contains(eff, "f star")
    }
}

/// The classes of the main sequence that the text asks for.
pub open spec fn main_sequence(f: FilterView, eff: Seq<char>) -> FilterView {
    let f = with_class(f, text::occurs(eff, "o star"@), "O (Blue-White) Star"@);
    let f = with_class_pair(f, text::occurs(eff, "b star"@), "B (Blue-White) Star"@, "B (Blue-White super giant) Star"@);
    let f = with_class_pair(f, text::occurs(eff, "a star"@), "A (Blue-White) Star"@, "A (Blue-White super giant) Star"@);
    let f = with_class_pair(f, asks_for_f(eff, f.any_dwarf), "F (White) Star"@, "F (White super giant) Star"@);
    let f = with_class_pair(f, text::occurs(eff, "g star"@), "G (White-Yellow) Star"@, "G (White-Yellow super giant) Star"@);
    let f = with_class_pair(f, text::occurs(eff, "k star"@), "K (Yellow-Orange) Star"@, "K (Yellow-Orange giant) Star"@);
    let f = if text::occurs(eff, "m star"@) {
        required(
            FilterView {
                classes: f.classes.push("M (Red dwarf) Star"@).push("M (Red giant) Star"@).push(
                    "M (Red super giant) Star"@,
                ),
                ..f
            },
            system_has(
                "IN ('M (Red dwarf) Star', 'M (Red giant) Star', 'M (Red super giant) Star')"@,
            ),
        )
    } else {
        f
    };
    f
}

fn ask_main_sequence(f: &mut CubeFilter, eff: &str)
    ensures
        final(f)@ == main_sequence(old(f)@, eff@),
{
    f.class(contains(eff, "o star"), "O (Blue-White) Star");
    f.class_pair(contains(eff, "b star"), "B (Blue-White) Star", "B (Blue-White super giant) Star");
    f.class_pair(contains(eff, "a star"), "A (Blue-White) Star", "A (Blue-White super giant) Star");
    f.class_pair(has_f(eff, f.any_dwarf), "F (White) Star", "F (White super giant) Star");
    f.class_pair(contains(eff, "g star"), "G (White-Yellow) Star", "G (White-Yellow super giant) Star");
    f.class_pair(contains(eff, "k star"), "K (Yellow-Orange) Star", "K (Yellow-Orange giant) Star");
    if contains(eff, "m star") {
        push_text(&mut f.classes, "M (Red dwarf) Star");
        push_text(&mut f.classes, "M (Red giant) Star");
        push_text(&mut f.classes, "M (Red super giant) Star");
        let req = has_sql(
            "IN ('M (Red dwarf) Star', 'M (Red giant) Star', 'M (Red super giant) Star')",
        );
        f.require(req.as_str());
    }
}

/// The other classes of stars that the text asks for.
pub open spec fn other_stars(f: FilterView, eff: Seq<char>) -> FilterView {
    let f = with_class(f, text::occurs(eff, "l dwarf"@), "L (Brown dwarf) Star"@);
    let f = with_class(f, text::occurs(eff, "t dwarf"@), "T (Brown dwarf) Star"@);
    let f = with_class(f, text::occurs(eff, "y dwarf"@), "Y (Brown dwarf) Star"@);
    let f = with_class(f, text::occurs(eff, "t tauri"@), "T Tauri Star"@);
    let f = with_class(f, text::occurs(eff, "herbig"@), "Herbig Ae/Be Star"@);
    let f = with_class(f, text::occurs(eff, "c star type"@), "C Star"@);
    let f = with_class(f, text::occurs(eff, "cj star type"@), "CJ Star"@);
    let f = with_class(f, text::occurs(eff, "cn star type"@), "CN Star"@);
    let f = with_class(f, text::occurs(eff, "ms star type"@), "MS-type Star"@);
    let f = with_class(f, text::occurs(eff, "s star type"@), "S-type Star"@);
    f
}

fn ask_other_stars(f: &mut CubeFilter, eff: &str)
    ensures
        final(f)@ == other_stars(old(f)@, eff@),
{
    f.class(contains(eff, "l dwarf"), "L (Brown dwarf) Star");
    f.class(contains(eff, "t dwarf"), "T (Brown dwarf) Star");
    f.class(contains(eff, "y dwarf"), "Y (Brown dwarf) Star");
    f.class(contains(eff, "t tauri"), "T Tauri Star");
    f.class(contains(eff, "herbig"), "Herbig Ae/Be Star");
    f.class(contains(eff, "c star type"), "C Star");
    f.class(contains(eff, "cj star type"), "CJ Star");
    f.class(contains(eff, "cn star type"), "CN Star");
    f.class(contains(eff, "ms star type"), "MS-type Star");
    f.class(contains(eff, "s star type"), "S-type Star");
}

/// The kind of rings that the text asks for.
pub open spec fn ring_kind(eff: Seq<char>) -> Option<Seq<char>> {
    if text::occurs(eff, "icy ring"@) {
        Some("Icy"@)
    } else if text::occurs(eff, "metallic ring"@) {
        Some("Metallic"@)
    } else if text::occurs(eff, "metal rich ring"@) {
        Some("Metal Rich"@)
    } else if text::occurs(eff, "rocky ring"@) {
        Some("Rocky"@)
    } else if text::occurs(eff, "rings"@) || text::occurs(eff, "ring"@) {
        Some("%"@)
    } else {
        None
    }
}

/// The properties that the text asks for.
pub open spec fn properties(f: FilterView, eff: Seq<char>) -> FilterView {
    FilterView {
        terraformable: text::occurs(eff, "terraformable"@),
        bio: text::occurs(eff, "bio"@) || text::occurs(eff, "biological"@),
        geo: text::occurs(eff, "geo"@) || text::occurs(eff, "geological"@),
        landable: text::occurs(eff, "landable"@),
        ring: ring_kind(eff),
        ..f
    }
}

fn ask_properties(f: &mut CubeFilter, eff: &str)
    ensures
        final(f)@ == properties(old(f)@, eff@),
{
    f.terraformable = contains(eff, "terraformable");
    f.bio = contains(eff, "bio") || contains(eff, "biological");
    f.geo = contains(eff, "geo") || contains(eff, "geological");
    f.landable = contains(eff, "landable");
    f.ring = if contains(eff, "icy ring") {
        Some("Icy".to_owned())
    } else if contains(eff, "metallic ring") {
        Some("Metallic".to_owned())
    } else if contains(eff, "metal rich ring") {
        Some("Metal Rich".to_owned())
    } else if contains(eff, "rocky ring") {
        Some("Rocky".to_owned())
    } else if contains(eff, "rings") || contains(eff, "ring") {
        Some("%".to_owned())
    } else {
        None
    };
}

/// The filter that asks for nothing.
pub open spec fn no_filter() -> FilterView {
    FilterView {
        subtypes: Seq::empty(),
        classes: Seq::empty(),
        dwarfs: Seq::empty(),
        rayets: Seq::empty(),
        reqs: Seq::empty(),
        any_dwarf: false,
        any_rayet: false,
        terraformable: false,
        bio: false,
        geo: false,
        landable: false,
        ring: None,
    }
}

/// What a text in lower case asks for.
pub open spec fn asked_for(eff: Seq<char>) -> FilterView {
    let f = terrestrial(no_filter(), eff);
    let f = gas_giants(f, eff);
    let f = compact(f, eff);
    let f = white_dwarfs(f, eff);
    let f = wolf_rayets(f, eff);
    let f = main_sequence(f, eff);
    let f = other_stars(f, eff);
    properties(f, eff)
}

/// What a text in lower case asks for.
pub fn parse_filter(eff: &str) -> (r: CubeFilter)
    ensures
        r@ == asked_for(eff@),
{
    let mut f = CubeFilter {
        subtypes: Vec::new(),
        classes: Vec::new(),
        dwarfs: Vec::new(),
        rayets: Vec::new(),
        reqs: Vec::new(),
        any_dwarf: false,
        any_rayet: false,
        terraformable: false,
        bio: false,
        geo: false,
        landable: false,
        ring: None,
    };
    assert(f@ =~= no_filter());
    ask_terrestrial(&mut f, eff);
    ask_gas_giants(&mut f, eff);
    ask_compact(&mut f, eff);
    ask_white_dwarfs(&mut f, eff);
    ask_wolf_rayets(&mut f, eff);
    ask_main_sequence(&mut f, eff);
    ask_other_stars(&mut f, eff);
    ask_properties(&mut f, eff);
    f
}

/// The text that decides what is asked for: the custom filter, or else the
/// kind of body.
pub open spec fn deciding_text(custom: Option<Seq<char>>, body: Option<Seq<char>>) -> Seq<char> {
    match custom {
        Some(c) if c.len() > 0 => c,
        _ => match body {
            Some(b) => b,
            None => Seq::empty(),
        },
    }
}

/// What a search asks for: a custom filter takes precedence over a kind of
/// body; the case of letters does not matter.
pub fn effective_filter(custom: &Option<String>, body: &Option<String>) -> (r: String)
    ensures
        r@ == text::lowercase(deciding_text(json::text_view(*custom), json::text_view(*body))),
        text::is_ascii_text(deciding_text(json::text_view(*custom), json::text_view(*body)))
            ==> r@ == text::ascii_lower_all(
            deciding_text(json::text_view(*custom), json::text_view(*body)),
        ),
{
    match custom {
        Some(c) => {
            if !c.as_str().is_empty() {
                return to_lowercase(c.as_str());
            }
        },
        None => {},
    }
    match body {
        Some(b) => to_lowercase(b.as_str()),
        None => {
            let r = to_lowercase("");
            proof {
                reveal_strlit("");
                assert(""@ =~= Seq::<char>::empty());
            }
            r
        },
    }
}

/// Some kind of body is asked for.
pub open spec fn wants_kinds(f: FilterView) -> bool {
    f.subtypes.len() > 0 || f.any_dwarf || f.classes.len() > 0 || f.dwarfs.len() > 0
        || f.rayets.len() > 0 || f.any_rayet
}

/// Something is asked for of the bodies.
pub open spec fn wants_bodies(f: FilterView) -> bool {
    f.terraformable || f.bio || f.geo || f.landable || f.ring is Some || wants_kinds(f)
}

impl CubeFilter {
    /// Whether some kind of body is asked for.
    fn kinds(&self) -> (r: bool)
        ensures
            r == wants_kinds(self@),
    {
        self.subtypes.len() > 0 || self.any_dwarf || self.classes.len() > 0 || self.dwarfs.len()
            > 0 || self.rayets.len() > 0 || self.any_rayet
    }

    /// Whether bodies are asked for, rather than systems.
    pub fn bodies(&self) -> (r: bool)
        ensures
            r == wants_bodies(self@),
    {
        self.terraformable || self.bio || self.geo || self.landable || self.ring.is_some()
            || self.kinds()
    }
}

/// `n` marks with commas between them.
pub open spec fn marks(n: nat) -> Seq<char>
    decreases n,
{
    if n == 0 {
        Seq::empty()
    } else if n == 1 {
        "?"@
    } else {
        marks((n - 1) as nat) + ",?"@
    }
}

/// There are as many marks as are asked for.
pub proof fn law_marks_are_counted(n: nat)
    ensures
        text::occurrences(marks(n), '?') == n,
    decreases n,
{
    if n == 1 {
        reveal_strlit("?");
        assert("?"@.drop_last() =~= Seq::<char>::empty());
        assert(text::occurrences("?"@.drop_last(), '?') == 0);
    } else if n > 1 {
        law_marks_are_counted((n - 1) as nat);
        text::lemma_occurrences_sum(marks((n - 1) as nat), ",?"@, '?');
        reveal_strlit(",?");
        let s = ",?"@;
        assert(s.drop_last().drop_last() =~= Seq::<char>::empty());
        assert(text::occurrences(s.drop_last().drop_last(), '?') == 0);
        assert(text::occurrences(s.drop_last(), '?') == 0);
    }
}

/// A body is of one of `n` kinds, as SQL.
pub open spec fn kind_in(n: nat) -> Seq<char> {
    "b.subType IN ("@ + marks(n) + ")"@
}

fn kind_in_sql(n: usize) -> (r: String)
    ensures
        r@ == kind_in(n as nat),
{
    let mut m = String::new();
    for i in 0..n
        invariant
            m@ == marks(i as nat),
    {
        if i == 0 {
            m.append("?");
            assert(m@ =~= "?"@);
        } else {
            m.append(",?");
        }
    }
    let mut r = String::new();
    r.append("b.subType IN (");
    r.append(m.as_str());
    r.append(")");
    assert(r@ =~= kind_in(n as nat));
    r
}

/// The list `v` with the text `s`, where `asked`.
pub open spec fn push_if(v: Seq<Seq<char>>, asked: bool, s: Seq<char>) -> Seq<Seq<char>> {
    if asked {
        v.push(s)
    } else {
        v
    }
}

/// The conditions of which a body has to meet one.
pub open spec fn kind_conditions(f: FilterView) -> Seq<Seq<char>> {
    let v = push_if(Seq::empty(), f.subtypes.len() > 0, kind_in(f.subtypes.len()));
    let v = push_if(v, f.classes.len() > 0, kind_in(f.classes.len()));
    let v = push_if(v, f.dwarfs.len() > 0, kind_in(f.dwarfs.len()));
    let v = push_if(v, f.any_dwarf, "b.subType LIKE 'White Dwarf%'"@);
    let v = push_if(v, f.rayets.len() > 0, kind_in(f.rayets.len()));
    push_if(v, f.any_rayet, "b.subType LIKE 'Wolf-Rayet%'"@)
}

fn kind_conditions_sql(f: &CubeFilter) -> (r: Vec<String>)
    ensures
        text::texts(r@) == kind_conditions(f@),
{
    let mut v: Vec<String> = Vec::new();
    assert(text::texts(v@) =~= Seq::<Seq<char>>::empty());
    if f.subtypes.len() > 0 {
        push_string(&mut v, kind_in_sql(f.subtypes.len()));
    }
    if f.classes.len() > 0 {
        push_string(&mut v, kind_in_sql(f.classes.len()));
    }
    if f.dwarfs.len() > 0 {
        push_string(&mut v, kind_in_sql(f.dwarfs.len()));
    }
    if f.any_dwarf {
        push_text(&mut v, "b.subType LIKE 'White Dwarf%'");
    }
    if f.rayets.len() > 0 {
        push_string(&mut v, kind_in_sql(f.rayets.len()));
    }
    if f.any_rayet {
        push_text(&mut v, "b.subType LIKE 'Wolf-Rayet%'");
    }
    v
}

/// The query for systems.
pub const SQL_SYSTEMS: &'static str = "
                SELECT s.id64, s.name, s.population, i.minX, i.minY, i.minZ
                FROM systems_index i JOIN systems s ON i.id = s.id64
                WHERE i.minX >= ? AND i.maxX <= ? AND i.minY >= ? AND i.maxY <= ? AND i.minZ >= ? AND i.maxZ <= ? LIMIT 5000
            ";

/// The start of the query for bodies.
pub const SQL_BODIES: &'static str = "
                SELECT s.id64, s.name as systemName, s.population, i.minX, i.minY, i.minZ,
                       b.bodyId, b.name as bodyName, b.subType, b.distanceToArrival
                FROM systems_index i JOIN systems s ON i.id = s.id64
                JOIN bodies b ON s.id64 = b.systemId64
                WHERE i.minX >= ? AND i.maxX <= ? AND i.minY >= ? AND i.maxY <= ? AND i.minZ >= ? AND i.maxZ <= ?";

/// The text `s` with the text `t` behind it, where `asked`.
pub open spec fn append_if(s: Seq<char>, asked: bool, t: Seq<char>) -> Seq<char> {
    if asked {
        s + t
    } else {
        s
    }
}

/// The first `n` conditions on the system.
pub open spec fn with_reqs(s: Seq<char>, reqs: Seq<Seq<char>>, n: int) -> Seq<char>
    decreases n,
{
    if n <= 0 {
        s
    } else {
        with_reqs(s, reqs, n - 1) + " AND "@ + reqs[n - 1]
    }
}

/// The condition on the rings of a body.
pub open spec fn ring_condition(ring: Option<Seq<char>>) -> Seq<char> {
    match ring {
        Some(r) => if r == "%"@ {
            " AND b.rings IS NOT NULL AND b.rings != '[]'"@
        } else {
            " AND b.rings LIKE ?"@
        },
        None => Seq::empty(),
    }
}

/// The query that answers a search.
pub open spec fn cube_query(f: FilterView) -> Seq<char> {
    if wants_bodies(f) {
        let s = with_reqs(SQL_BODIES@, f.reqs, f.reqs.len() as int);
        let s = append_if(
            s,
            f.terraformable,
            " AND (b.terraformingState = 'Terraformable' OR b.terraformingState = 'Terraforming completed')"@,
        );
        let s = append_if(s, f.bio, " AND b.signals LIKE '%Biological%'"@);
        let s = append_if(s, f.geo, " AND b.signals LIKE '%Geological%'"@);
        let s = append_if(s, f.landable, " AND b.isLandable = 1"@);
        let s = s + ring_condition(f.ring);
        let s = append_if(
            s,
            wants_kinds(f),
            " AND ("@ + text::joined(kind_conditions(f), " OR "@) + ")"@,
        );
        s + " LIMIT 5000"@
    } else {
        SQL_SYSTEMS@
    }
}

/// The query that answers a search.
pub fn cube_sql(f: &CubeFilter) -> (r: String)
    ensures
        r@ == cube_query(f@),
{
    if !f.bodies() {
        return SQL_SYSTEMS.to_owned();
    }
    let mut sql = SQL_BODIES.to_owned();
    let ghost reqs = text::texts(f.reqs@);
    for i in 0..f.reqs.len()
        invariant
            reqs == text::texts(f.reqs@),
            sql@ == with_reqs(SQL_BODIES@, reqs, i as int),
    {
        sql.append(" AND ");
        sql.append(f.reqs[i].as_str());
    }
    if f.terraformable {
        sql.append(
            " AND (b.terraformingState = 'Terraformable' OR b.terraformingState = 'Terraforming completed')",
        );
    }
    if f.bio {
        sql.append(" AND b.signals LIKE '%Biological%'");
    }
    if f.geo {
        sql.append(" AND b.signals LIKE '%Geological%'");
    }
    if f.landable {
        sql.append(" AND b.isLandable = 1");
    }
    let ghost before = sql@;
    match &f.ring {
        Some(r) => {
            if same(r.as_str(), "%") {
                sql.append(" AND b.rings IS NOT NULL AND b.rings != '[]'");
            } else {
                sql.append(" AND b.rings LIKE ?");
            }
        },
        None => {},
    }
    assert(sql@ =~= before + ring_condition(f@.ring));
    let ghost before = sql@;
    if f.kinds() {
        sql.append(" AND (");
        let conditions = join(&kind_conditions_sql(f), " OR ");
        sql.append(conditions.as_str());
        sql.append(")");
        assert(sql@ =~= before + (" AND ("@ + text::joined(kind_conditions(f@), " OR "@) + ")"@));
    }
    sql.append(" LIMIT 5000");
    sql
}

/// The texts of `v` as values.
pub open spec fn text_params(v: Seq<Seq<char>>) -> Seq<ParamView> {
    v.map_values(|s: Seq<char>| ParamView::Text(s))
}

/// What a ring of one kind looks like in the database.
pub open spec fn ring_pattern(kind: Seq<char>) -> Seq<char> {
    "%\""@ + kind + "%"@
}

/// The value for the condition on the rings, where it has one.
pub open spec fn ring_params(ring: Option<Seq<char>>) -> Seq<ParamView> {
    match ring {
        Some(r) => if r == "%"@ {
            Seq::empty()
        } else {
            seq![ParamView::Text(ring_pattern(r))]
        },
        None => Seq::empty(),
    }
}

/// The values of the query, in the order of its marks: the bounds of the cube,
/// then what is asked for.
pub open spec fn cube_values(f: FilterView, bounds: Seq<ParamView>) -> Seq<ParamView> {
    if wants_bodies(f) {
        bounds + ring_params(f.ring) + text_params(f.subtypes) + text_params(f.classes)
            + text_params(f.dwarfs) + text_params(f.rayets)
    } else {
        bounds
    }
}

fn push_texts(v: &mut Vec<Param>, list: &Vec<String>)
    ensures
        db::param_views(final(v)@) == db::param_views(old(v)@) + text_params(
            text::texts(list@),
        ),
{
    let ghost before = db::param_views(v@);
    let ghost all = text_params(text::texts(list@));
    assert(before + all.take(0) =~= before);
    for i in 0..list.len()
        invariant
            all == text_params(text::texts(list@)),
            db::param_views(v@) == before + all.take(i as int),
    {
        let ghost old_v = v@;
        v.push(Param::Text(list[i].clone()));
        assert(db::param_views(v@) =~= db::param_views(old_v).push(all[i as int]));
        assert(all.take(i + 1) =~= all.take(i as int).push(all[i as int]));
        assert(before + all.take(i + 1) =~= (before + all.take(i as int)).push(all[i as int]));
    }
    assert(all.take(list.len() as int) =~= all);
}

/// The values of the query, in the order of its marks.
pub fn cube_params(f: &CubeFilter, bounds: Vec<Param>) -> (r: Vec<Param>)
    ensures
        db::param_views(r@) == cube_values(f@, db::param_views(bounds@)),
{
    let mut v = bounds;
    if !f.bodies() {
        return v;
    }
    let ghost before = db::param_views(v@);
    match &f.ring {
        Some(r) => {
            if !same(r.as_str(), "%") {
                let mut pattern = String::new();
                pattern.append("%\"");
                pattern.append(r.as_str());
                pattern.append("%");
                assert(pattern@ =~= ring_pattern(r@));
                v.push(Param::Text(pattern));
            }
        },
        None => {},
    }
    assert(db::param_views(v@) =~= before + ring_params(f@.ring));
    push_texts(&mut v, &f.subtypes);
    push_texts(&mut v, &f.classes);
    push_texts(&mut v, &f.dwarfs);
    push_texts(&mut v, &f.rayets);
    v
}

/// The values of a search are one for each bound, one for a kind of rings and
/// one for each kind of body.
pub proof fn law_values_are_counted(f: FilterView, bounds: Seq<ParamView>)
    ensures
        cube_values(f, bounds).len() == bounds.len() + if wants_bodies(f) {
            ring_params(f.ring).len() + f.subtypes.len() + f.classes.len() + f.dwarfs.len()
                + f.rayets.len()
        } else {
            0
        },
{
}

/// A column is a text.
pub open spec fn is_text(column: Seq<char>, t: Seq<char>) -> Clause {
    Clause::Compare(Term::Column(column), Test::Equal, Term::Text(t))
}

/// A column is like a text.
pub open spec fn is_like_text(column: Seq<char>, t: Seq<char>) -> Clause {
    Clause::Compare(Term::Column(column), Test::Like, Term::Text(t))
}

/// A body can be made fit to live on, or has been.
pub open spec fn can_be_terraformed() -> Part {
    clause::either(
        is_text("b.terraformingState"@, "Terraformable"@),
        is_text("b.terraformingState"@, "Terraforming completed"@),
    )
}

/// A body can be landed on.
pub open spec fn can_be_landed_on() -> Part {
    Part::One(Clause::Compare(Term::Column("b.isLandable"@), Test::Equal, Term::Number(1)))
}

/// The rings of a body are known.
pub open spec fn rings_known() -> Part {
    Part::One(Clause::NotNull("b.rings"@))
}

/// The list of the rings of a body is not empty.
pub open spec fn rings_there() -> Part {
    Part::One(Clause::Compare(Term::Column("b.rings"@), Test::Differs, Term::Text("[]"@)))
}

/// A ring of a body is of a kind.
pub open spec fn ring_of_kind(kind: Seq<char>) -> Part {
    Part::One(
        Clause::Compare(
            Term::Column("b.rings"@),
            Test::Like,
            Term::Mark(ParamView::Text(ring_pattern(kind))),
        ),
    )
}

/// The list `v` with the condition `c`, where `asked`.
spec fn add_clause(v: Seq<Clause>, asked: bool, c: Clause) -> Seq<Clause> {
    if asked {
        v.push(c)
    } else {
        v
    }
}

/// The conditions on the kind of a body of which one has to hold.
spec fn kind_clauses(f: FilterView) -> Seq<Clause> {
    let v = add_clause(
        Seq::empty(),
        f.subtypes.len() > 0,
        clause::one_of_texts("b.subType"@, f.subtypes),
    );
    let v = add_clause(
        v,
        f.classes.len() > 0,
        clause::one_of_texts("b.subType"@, f.classes),
    );
    let v = add_clause(v, f.dwarfs.len() > 0, clause::one_of_texts("b.subType"@, f.dwarfs));
    let v = add_clause(v, f.any_dwarf, is_like_text("b.subType"@, "White Dwarf%"@));
    let v = add_clause(v, f.rayets.len() > 0, clause::one_of_texts("b.subType"@, f.rayets));
    add_clause(v, f.any_rayet, is_like_text("b.subType"@, "Wolf-Rayet%"@))
}

/// A body is of one of the kinds that are asked for.
pub open spec fn is_of_kind(f: FilterView, w: World) -> bool {
    (w.row)("b.subType"@) matches ParamView::Text(kind) && {
        ||| f.subtypes.contains(kind)
        ||| f.classes.contains(kind)
        ||| f.dwarfs.contains(kind)
        ||| f.rayets.contains(kind)
        ||| f.any_dwarf && clause::is_like(kind, "White Dwarf%"@)
        ||| f.any_rayet && clause::is_like(kind, "Wolf-Rayet%"@)
    }
}

/// A body is what a filter asks for.
pub open spec fn is_found(f: FilterView, w: World) -> bool {
    &&& f.terraformable ==> (w.row)("b.terraformingState"@) == ParamView::Text("Terraformable"@)
        || (w.row)("b.terraformingState"@) == ParamView::Text("Terraforming completed"@)
    &&& f.bio ==> clause::like((w.row)("b.signals"@), ParamView::Text("%Biological%"@))
    &&& f.geo ==> clause::like((w.row)("b.signals"@), ParamView::Text("%Geological%"@))
    &&& f.landable ==> (w.row)("b.isLandable"@) == ParamView::Int(1)
    &&& f.ring matches Some(kind) ==> if kind == "%"@ {
        (w.row)("b.rings"@) !is Null && (w.row)("b.rings"@) != ParamView::Text("[]"@)
    } else {
        clause::like((w.row)("b.rings"@), ParamView::Text("%\""@ + kind + "%"@))
    }
    &&& wants_kinds(f) ==> is_of_kind(f, w)
}

proof fn lemma_text_bio()
    ensures
        " AND b.signals LIKE '%Biological%'"@ == " AND "@
            + clause::part_text(Part::One(is_like_text("b.signals"@, "%Biological%"@))),
{
    reveal_strlit(" AND b.signals LIKE '%Biological%'");
    reveal_strlit(" AND ");
    reveal_strlit("b.signals");
    reveal_strlit(" LIKE ");
    reveal_strlit("'");
    reveal_strlit("%Biological%");
    assert(" AND b.signals LIKE '%Biological%'"@ =~= " AND "@
        + clause::part_text(Part::One(is_like_text("b.signals"@, "%Biological%"@))));
}

proof fn lemma_text_geo()
    ensures
        " AND b.signals LIKE '%Geological%'"@ == " AND "@
            + clause::part_text(Part::One(is_like_text("b.signals"@, "%Geological%"@))),
{
    reveal_strlit(" AND b.signals LIKE '%Geological%'");
    reveal_strlit(" AND ");
    reveal_strlit("b.signals");
    reveal_strlit(" LIKE ");
    reveal_strlit("'");
    reveal_strlit("%Geological%");
    assert(" AND b.signals LIKE '%Geological%'"@ =~= " AND "@
        + clause::part_text(Part::One(is_like_text("b.signals"@, "%Geological%"@))));
}

proof fn lemma_text_landable()
    ensures
        " AND b.isLandable = 1"@ == " AND "@ + clause::part_text(can_be_landed_on()),
{
    reveal_strlit(" AND b.isLandable = 1");
    reveal_strlit(" AND ");
    reveal_strlit("b.isLandable");
    reveal_strlit(" = ");
    assert(" AND b.isLandable = 1"@ =~= " AND "@ + clause::part_text(can_be_landed_on()));
}

proof fn lemma_text_known()
    ensures
        " AND b.rings IS NOT NULL"@ == " AND "@ + clause::part_text(rings_known()),
{
    reveal_strlit(" AND b.rings IS NOT NULL");
    reveal_strlit(" AND ");
    reveal_strlit("b.rings");
    reveal_strlit(" IS NOT NULL");
    assert(" AND b.rings IS NOT NULL"@ =~= " AND "@ + clause::part_text(rings_known()));
}

proof fn lemma_text_there()
    ensures
        " AND b.rings != '[]'"@ == " AND "@ + clause::part_text(rings_there()),
{
    reveal_strlit(" AND b.rings != '[]'");
    reveal_strlit(" AND ");
    reveal_strlit("b.rings");
    reveal_strlit(" != ");
    reveal_strlit("'");
    reveal_strlit("[]");
    assert(" AND b.rings != '[]'"@ =~= " AND "@ + clause::part_text(rings_there()));
}

proof fn lemma_text_ring(kind: Seq<char>)
    ensures
        " AND b.rings LIKE ?"@ == " AND "@ + clause::part_text(ring_of_kind(kind)),
        " AND b.rings IS NOT NULL AND b.rings != '[]'"@ == " AND b.rings IS NOT NULL"@
            + " AND b.rings != '[]'"@,
{
    reveal_strlit(" AND b.rings LIKE ?");
    reveal_strlit(" AND ");
    reveal_strlit("b.rings");
    reveal_strlit(" LIKE ");
    reveal_strlit("?");
    reveal_strlit(" AND b.rings IS NOT NULL AND b.rings != '[]'");
    reveal_strlit(" AND b.rings IS NOT NULL");
    reveal_strlit(" AND b.rings != '[]'");
    assert(" AND b.rings LIKE ?"@ =~= " AND "@ + clause::part_text(ring_of_kind(kind)));
    assert(" AND b.rings IS NOT NULL AND b.rings != '[]'"@ =~= " AND b.rings IS NOT NULL"@
        + " AND b.rings != '[]'"@);
}

proof fn lemma_text_terraformable()
    ensures
        " AND (b.terraformingState = 'Terraformable' OR b.terraformingState = 'Terraforming completed')"@
            == " AND "@ + clause::part_text(can_be_terraformed()),
{
    let a = is_text("b.terraformingState"@, "Terraformable"@);
    let b = is_text("b.terraformingState"@, "Terraforming completed"@);
    clause::lemma_either(a, b);
    reveal_strlit(" AND (b.terraformingState = 'Terraformable' OR b.terraformingState = 'Terraforming completed')");
    reveal_strlit(" AND ");
    reveal_strlit("b.terraformingState");
    reveal_strlit(" = ");
    reveal_strlit("'");
    reveal_strlit("Terraformable");
    reveal_strlit("Terraforming completed");
    reveal_strlit("(");
    reveal_strlit(" OR ");
    reveal_strlit(")");
    assert(" AND (b.terraformingState = 'Terraformable' OR b.terraformingState = 'Terraforming completed')"@ =~= " AND "@
        + ("("@ + (clause::clause_text(a) + " OR "@ + clause::clause_text(b)) + ")"@));
}

proof fn lemma_marks_join(ts: Seq<Seq<char>>)
    ensures
        text::joined(clause::term_texts(clause::text_marks(ts)), ","@) == marks(ts.len()),
    decreases ts.len(),
{
    let v = clause::term_texts(clause::text_marks(ts));
    if ts.len() > 1 {
        lemma_marks_join(ts.drop_last());
        assert(v.drop_last() =~= clause::term_texts(clause::text_marks(ts.drop_last())));
        reveal_strlit(",?");
        reveal_strlit(",");
        reveal_strlit("?");
        assert(",?"@ =~= ","@ + "?"@);
        let m = marks((ts.len() - 1) as nat);
        assert(m + ","@ + "?"@ =~= m + (","@ + "?"@));
    }
}

proof fn lemma_text_kind_in(ts: Seq<Seq<char>>)
    ensures
        kind_in(ts.len()) == clause::clause_text(clause::one_of_texts("b.subType"@, ts)),
{
    lemma_marks_join(ts);
    reveal_strlit("b.subType IN (");
    reveal_strlit("b.subType");
    reveal_strlit(" IN (");
    assert("b.subType IN ("@ =~= "b.subType"@ + " IN ("@);
}

proof fn lemma_text_any()
    ensures
        "b.subType LIKE 'White Dwarf%'"@ == clause::clause_text(
            is_like_text("b.subType"@, "White Dwarf%"@),
        ),
        "b.subType LIKE 'Wolf-Rayet%'"@ == clause::clause_text(
            is_like_text("b.subType"@, "Wolf-Rayet%"@),
        ),
{
    reveal_strlit("b.subType LIKE 'White Dwarf%'");
    reveal_strlit("b.subType LIKE 'Wolf-Rayet%'");
    reveal_strlit("b.subType");
    reveal_strlit(" LIKE ");
    reveal_strlit("'");
    reveal_strlit("White Dwarf%");
    reveal_strlit("Wolf-Rayet%");
    assert("b.subType LIKE 'White Dwarf%'"@ =~= clause::clause_text(
        is_like_text("b.subType"@, "White Dwarf%"@),
    ));
    assert("b.subType LIKE 'Wolf-Rayet%'"@ =~= clause::clause_text(
        is_like_text("b.subType"@, "Wolf-Rayet%"@),
    ));
}

/// One more condition on the kind of a body, where it is asked for.
proof fn lemma_add_clause(
    ts: Seq<Seq<char>>,
    cs: Seq<Clause>,
    asked: bool,
    t: Seq<char>,
    c: Clause,
)
    requires
        ts == clause::clause_texts(cs),
        asked ==> t == clause::clause_text(c),
    ensures
        push_if(ts, asked, t) == clause::clause_texts(add_clause(cs, asked, c)),
        clause::clauses_values(add_clause(cs, asked, c)) == clause::clauses_values(cs) + (
        if asked {
            clause::clause_values(c)
        } else {
            Seq::empty()
        }),
        forall|w: World| #[trigger]
            clause::any_holds(add_clause(cs, asked, c), w) <==> clause::any_holds(cs, w) || (asked
                && clause::clause_holds(c, w)),
{
    clause::lemma_any_push(cs, c);
    assert(clause::clauses_values(cs) + Seq::<ParamView>::empty() =~= clause::clauses_values(cs));
    assert forall|w: World| #[trigger]
        clause::any_holds(add_clause(cs, asked, c), w) <==> clause::any_holds(cs, w) || (asked
            && clause::clause_holds(c, w)) by {
        assert(clause::part_holds(Part::Any(cs.push(c)), w) <==> clause::any_holds(cs.push(c), w));
        assert(clause::part_holds(Part::Any(cs), w) <==> clause::any_holds(cs, w));
    }
}

proof fn lemma_kind_steps(
    f: FilterView,
    c1: Clause,
    c2: Clause,
    c3: Clause,
    c4: Clause,
    c5: Clause,
    c6: Clause,
    t4: Seq<char>,
    t6: Seq<char>,
)
    requires
        c1 == clause::one_of_texts("b.subType"@, f.subtypes),
        c2 == clause::one_of_texts("b.subType"@, f.classes),
        c3 == clause::one_of_texts("b.subType"@, f.dwarfs),
        c4 == is_like_text("b.subType"@, "White Dwarf%"@),
        c5 == clause::one_of_texts("b.subType"@, f.rayets),
        c6 == is_like_text("b.subType"@, "Wolf-Rayet%"@),
        t4 == "b.subType LIKE 'White Dwarf%'"@,
        t6 == "b.subType LIKE 'Wolf-Rayet%'"@,
        kind_in(f.subtypes.len()) == clause::clause_text(c1),
        kind_in(f.classes.len()) == clause::clause_text(c2),
        kind_in(f.dwarfs.len()) == clause::clause_text(c3),
        t4 == clause::clause_text(c4),
        kind_in(f.rayets.len()) == clause::clause_text(c5),
        t6 == clause::clause_text(c6),
    ensures
        kind_conditions(f) == clause::clause_texts(kind_clauses(f)),
        clause::clauses_values(kind_clauses(f)) == if_asked(f.subtypes.len() > 0, c1) + if_asked(
            f.classes.len() > 0,
            c2,
        ) + if_asked(f.dwarfs.len() > 0, c3) + if_asked(f.any_dwarf, c4) + if_asked(
            f.rayets.len() > 0,
            c5,
        ) + if_asked(f.any_rayet, c6),
        forall|w: World| #[trigger]
            clause::any_holds(kind_clauses(f), w) <==> {
                ||| f.subtypes.len() > 0 && clause::clause_holds(c1, w)
                ||| f.classes.len() > 0 && clause::clause_holds(c2, w)
                ||| f.dwarfs.len() > 0 && clause::clause_holds(c3, w)
                ||| f.any_dwarf && clause::clause_holds(c4, w)
                ||| f.rayets.len() > 0 && clause::clause_holds(c5, w)
                ||| f.any_rayet && clause::clause_holds(c6, w)
            },
{
    let k0 = Seq::<Clause>::empty();
    let s0 = Seq::<Seq<char>>::empty();
    assert(clause::clause_texts(k0) =~= s0);
    let k1 = add_clause(k0, f.subtypes.len() > 0, c1);
    let s1 = push_if(s0, f.subtypes.len() > 0, kind_in(f.subtypes.len()));
    lemma_add_clause(s0, k0, f.subtypes.len() > 0, kind_in(f.subtypes.len()), c1);
    let k2 = add_clause(k1, f.classes.len() > 0, c2);
    let s2 = push_if(s1, f.classes.len() > 0, kind_in(f.classes.len()));
    lemma_add_clause(s1, k1, f.classes.len() > 0, kind_in(f.classes.len()), c2);
    let k3 = add_clause(k2, f.dwarfs.len() > 0, c3);
    let s3 = push_if(s2, f.dwarfs.len() > 0, kind_in(f.dwarfs.len()));
    lemma_add_clause(s2, k2, f.dwarfs.len() > 0, kind_in(f.dwarfs.len()), c3);
    let k4 = add_clause(k3, f.any_dwarf, c4);
    let s4 = push_if(s3, f.any_dwarf, t4);
    lemma_add_clause(s3, k3, f.any_dwarf, t4, c4);
    let k5 = add_clause(k4, f.rayets.len() > 0, c5);
    let s5 = push_if(s4, f.rayets.len() > 0, kind_in(f.rayets.len()));
    lemma_add_clause(s4, k4, f.rayets.len() > 0, kind_in(f.rayets.len()), c5);
    let k6 = add_clause(k5, f.any_rayet, c6);
    let s6 = push_if(s5, f.any_rayet, t6);
    lemma_add_clause(s5, k5, f.any_rayet, t6, c6);
    assert(k6 == kind_clauses(f));
    assert(clause::clauses_values(k1) =~= if_asked(f.subtypes.len() > 0, c1));
    assert forall|w: World| #[trigger]
        clause::any_holds(k6, w) <==> {
            ||| f.subtypes.len() > 0 && clause::clause_holds(c1, w)
            ||| f.classes.len() > 0 && clause::clause_holds(c2, w)
            ||| f.dwarfs.len() > 0 && clause::clause_holds(c3, w)
            ||| f.any_dwarf && clause::clause_holds(c4, w)
            ||| f.rayets.len() > 0 && clause::clause_holds(c5, w)
            ||| f.any_rayet && clause::clause_holds(c6, w)
        } by {
        assert(!clause::any_holds(k0, w));
        assert(clause::any_holds(k1, w) <==> f.subtypes.len() > 0 && clause::clause_holds(c1, w));
        assert(clause::any_holds(k2, w) <==> clause::any_holds(k1, w) || f.classes.len() > 0
            && clause::clause_holds(c2, w));
        assert(clause::any_holds(k3, w) <==> clause::any_holds(k2, w) || f.dwarfs.len() > 0
            && clause::clause_holds(c3, w));
        assert(clause::any_holds(k4, w) <==> clause::any_holds(k3, w) || f.any_dwarf
            && clause::clause_holds(c4, w));
        assert(clause::any_holds(k5, w) <==> clause::any_holds(k4, w) || f.rayets.len() > 0
            && clause::clause_holds(c5, w));
    }
}

/// The values of a condition, where it is asked for.
spec fn if_asked(asked: bool, c: Clause) -> Seq<ParamView> {
    if asked {
        clause::clause_values(c)
    } else {
        Seq::empty()
    }
}

/// What the conditions on the kind of a body say.
proof fn lemma_kinds(f: FilterView)
    ensures
        kind_conditions(f) == clause::clause_texts(kind_clauses(f)),
        clause::clauses_values(kind_clauses(f)) == text_params(f.subtypes) + text_params(f.classes)
            + text_params(f.dwarfs) + text_params(f.rayets),
        forall|w: World| #[trigger]
            clause::any_holds(kind_clauses(f), w) <==> is_of_kind(f, w),
{
    let col = "b.subType"@;
    let c1 = clause::one_of_texts(col, f.subtypes);
    let c2 = clause::one_of_texts(col, f.classes);
    let c3 = clause::one_of_texts(col, f.dwarfs);
    let c4 = is_like_text(col, "White Dwarf%"@);
    let c5 = clause::one_of_texts(col, f.rayets);
    let c6 = is_like_text(col, "Wolf-Rayet%"@);
    lemma_text_kind_in(f.subtypes);
    lemma_text_kind_in(f.classes);
    lemma_text_kind_in(f.dwarfs);
    lemma_text_kind_in(f.rayets);
    lemma_text_any();
    lemma_kind_steps(
        f,
        c1,
        c2,
        c3,
        c4,
        c5,
        c6,
        "b.subType LIKE 'White Dwarf%'"@,
        "b.subType LIKE 'Wolf-Rayet%'"@,
    );
    clause::lemma_one_of_texts(col, f.subtypes);
    clause::lemma_one_of_texts(col, f.classes);
    clause::lemma_one_of_texts(col, f.dwarfs);
    clause::lemma_one_of_texts(col, f.rayets);
    lemma_if_asked(f.subtypes, c1);
    lemma_if_asked(f.classes, c2);
    lemma_if_asked(f.dwarfs, c3);
    lemma_if_asked(f.rayets, c5);
    assert(clause::clause_values(c4) =~= Seq::<ParamView>::empty());
    assert(clause::clause_values(c6) =~= Seq::<ParamView>::empty());
    let four = text_params(f.subtypes) + text_params(f.classes) + text_params(f.dwarfs);
    assert(four + Seq::<ParamView>::empty() =~= four);
    let five = four + text_params(f.rayets);
    assert(five + Seq::<ParamView>::empty() =~= five);
}

proof fn lemma_if_asked(ts: Seq<Seq<char>>, c: Clause)
    requires
        c == clause::one_of_texts("b.subType"@, ts),
    ensures
        if_asked(ts.len() > 0, c) == text_params(ts),
{
    clause::lemma_one_of_texts("b.subType"@, ts);
    assert(if_asked(ts.len() > 0, c) =~= text_params(ts));
}

/// The query for bodies lets through exactly the bodies that the filter asks
/// for: behind the conditions on the system stand conditions that, with the
/// values that go with them, hold of those and of no others.
pub proof fn law_queries_find_what_is_asked_for(f: FilterView, bounds: Seq<ParamView>)
    requires
        wants_bodies(f),
    ensures
        exists|ps: Seq<Part>|
            {
                &&& cube_query(f) == with_reqs(SQL_BODIES@, f.reqs, f.reqs.len() as int)
                    + #[trigger] clause::parts_text(ps) + " LIMIT 5000"@
                &&& cube_values(f, bounds) == bounds + clause::parts_values(ps)
                &&& forall|w: World| #[trigger] clause::parts_hold(ps, w) <==> is_found(f, w)
            },
{
    let head = with_reqs(SQL_BODIES@, f.reqs, f.reqs.len() as int);
    let asked = bodies_asked(f);
    let parts = body_parts(f);
    lemma_body_texts(f);
    lemma_body_values(f);
    clause::lemma_chosen(head, bounds, asked, parts, body_texts(f), body_values(f), 8);
    let ps = clause::chosen(asked, parts, 8);
    lemma_query_bodies(f, head);
    assert(cube_query(f) == head + clause::parts_text(ps) + " LIMIT 5000"@);
    lemma_values_bodies(f, bounds);
    assert forall|w: World| #[trigger] clause::parts_hold(ps, w) <==> is_found(f, w) by {
        lemma_bodies_mean(f, w);
    }
}

/// Which conditions a filter asks for.
spec fn bodies_asked(f: FilterView) -> Seq<bool> {
    seq![
        f.terraformable,
        f.bio,
        f.geo,
        f.landable,
        f.ring == Some("%"@),
        f.ring == Some("%"@),
        f.ring is Some && f.ring != Some("%"@),
        wants_kinds(f),
    ]
}

/// The conditions of a filter.
spec fn body_parts(f: FilterView) -> Seq<Part> {
    seq![
        can_be_terraformed(),
        Part::One(is_like_text("b.signals"@, "%Biological%"@)),
        Part::One(is_like_text("b.signals"@, "%Geological%"@)),
        can_be_landed_on(),
        rings_known(),
        rings_there(),
        ring_of_kind(f.ring->0),
        Part::Any(kind_clauses(f)),
    ]
}

/// The texts of the conditions of a filter.
spec fn body_texts(f: FilterView) -> Seq<Seq<char>> {
    seq![
        " AND (b.terraformingState = 'Terraformable' OR b.terraformingState = 'Terraforming completed')"@,
        " AND b.signals LIKE '%Biological%'"@,
        " AND b.signals LIKE '%Geological%'"@,
        " AND b.isLandable = 1"@,
        " AND b.rings IS NOT NULL"@,
        " AND b.rings != '[]'"@,
        " AND b.rings LIKE ?"@,
        " AND ("@ + text::joined(kind_conditions(f), " OR "@) + ")"@,
    ]
}

/// The values of the conditions of a filter.
spec fn body_values(f: FilterView) -> Seq<Seq<ParamView>> {
    seq![
        Seq::empty(),
        Seq::empty(),
        Seq::empty(),
        Seq::empty(),
        Seq::empty(),
        Seq::empty(),
        seq![ParamView::Text(ring_pattern(f.ring->0))],
        text_params(f.subtypes) + text_params(f.classes) + text_params(f.dwarfs) + text_params(
            f.rayets,
        ),
    ]
}

proof fn lemma_body_texts(f: FilterView)
    ensures
        forall|i: int|
            0 <= i < 8 ==> #[trigger] body_texts(f)[i] == " AND "@ + clause::part_text(
                body_parts(f)[i],
            ),
{
    lemma_text_terraformable();
    lemma_text_bio();
    lemma_text_geo();
    lemma_text_landable();
    lemma_text_known();
    lemma_text_there();
    lemma_text_ring(f.ring->0);
    lemma_kinds(f);
    let j = text::joined(kind_conditions(f), " OR "@);
    assert(" AND ("@ + j + ")"@ =~= " AND "@ + ("("@ + j + ")"@)) by {
        reveal_strlit(" AND (");
        reveal_strlit(" AND ");
        reveal_strlit("(");
        assert(" AND ("@ =~= " AND "@ + "("@);
    }
}

proof fn lemma_body_values(f: FilterView)
    ensures
        forall|i: int|
            0 <= i < 8 ==> #[trigger] body_values(f)[i] == clause::part_values(body_parts(f)[i]),
{
    clause::lemma_either(
        is_text("b.terraformingState"@, "Terraformable"@),
        is_text("b.terraformingState"@, "Terraforming completed"@),
    );
    lemma_kinds(f);
    let p = body_parts(f);
    assert(clause::part_values(p[0]) =~= Seq::<ParamView>::empty());
    assert(clause::part_values(p[1]) =~= Seq::<ParamView>::empty());
    assert(clause::part_values(p[2]) =~= Seq::<ParamView>::empty());
    assert(clause::part_values(p[3]) =~= Seq::<ParamView>::empty());
    assert(clause::part_values(p[5]) =~= Seq::<ParamView>::empty());
    assert(clause::part_values(p[6]) =~= seq![ParamView::Text(ring_pattern(f.ring->0))]);
}

proof fn lemma_query_bodies(f: FilterView, head: Seq<char>)
    requires
        wants_bodies(f),
        head == with_reqs(SQL_BODIES@, f.reqs, f.reqs.len() as int),
    ensures
        cube_query(f) == clause::text_behind(head, bodies_asked(f), body_texts(f), 8)
            + " LIMIT 5000"@,
{
    lemma_text_ring(f.ring->0);
    let a = bodies_asked(f);
    let t = body_texts(f);
    let s = append_if(head, f.terraformable, t[0]);
    let s = append_if(s, f.bio, t[1]);
    let s = append_if(s, f.geo, t[2]);
    let s = append_if(s, f.landable, t[3]);
    assert(s == clause::text_behind(head, a, t, 4)) by {
        reveal_with_fuel(clause::text_behind, 5);
    }
    assert(s + ring_condition(f.ring) == clause::text_behind(head, a, t, 7)) by {
        reveal_with_fuel(clause::text_behind, 4);
        assert(s + Seq::<char>::empty() =~= s);
        assert(s + t[4] + t[5] =~= s + (t[4] + t[5]));
    }
    reveal_with_fuel(clause::text_behind, 2);
}

proof fn lemma_values_bodies(f: FilterView, bounds: Seq<ParamView>)
    requires
        wants_bodies(f),
    ensures
        cube_values(f, bounds) == clause::values_behind(bounds, bodies_asked(f), body_values(f), 8),
{
    let a = bodies_asked(f);
    let v = body_values(f);
    let no = Seq::<ParamView>::empty();
    assert(bounds + no =~= bounds);
    assert(clause::values_behind(bounds, a, v, 6) == bounds) by {
        reveal_with_fuel(clause::values_behind, 7);
    }
    assert(bounds + ring_params(f.ring) == clause::values_behind(bounds, a, v, 7)) by {
        reveal_with_fuel(clause::values_behind, 2);
    }
    let b = bounds + ring_params(f.ring);
    assert(b + text_params(f.subtypes) + text_params(f.classes) + text_params(f.dwarfs)
        + text_params(f.rayets) =~= b + v[7]);
    if !wants_kinds(f) {
        assert(v[7] =~= no);
        assert(b + no =~= b);
    }
    reveal_with_fuel(clause::values_behind, 2);
}

proof fn lemma_bodies_mean(f: FilterView, w: World)
    ensures
        clause::all_hold(bodies_asked(f), body_parts(f), 8, w) <==> is_found(f, w),
{
    clause::lemma_either(
        is_text("b.terraformingState"@, "Terraformable"@),
        is_text("b.terraformingState"@, "Terraforming completed"@),
    );
    lemma_kinds(f);
    let p = body_parts(f);
    let row = w.row;
    assert(clause::part_holds(p[0], w) <==> row("b.terraformingState"@) == ParamView::Text(
        "Terraformable"@,
    ) || row("b.terraformingState"@) == ParamView::Text("Terraforming completed"@)) by {
        assert(p[0] == can_be_terraformed());
    }
    assert(clause::part_holds(p[1], w) <==> clause::like(
        row("b.signals"@),
        ParamView::Text("%Biological%"@),
    ));
    assert(clause::part_holds(p[2], w) <==> clause::like(
        row("b.signals"@),
        ParamView::Text("%Geological%"@),
    ));
    assert(clause::part_holds(p[3], w) <==> row("b.isLandable"@) == ParamView::Int(1));
    assert(clause::part_holds(p[4], w) <==> row("b.rings"@) !is Null);
    assert(clause::part_holds(p[5], w) <==> row("b.rings"@) !is Null && row("b.rings"@)
        != ParamView::Text("[]"@));
    assert(clause::part_holds(p[6], w) <==> clause::like(
        row("b.rings"@),
        ParamView::Text(ring_pattern(f.ring->0)),
    ));
    assert(clause::part_holds(p[7], w) <==> clause::any_holds(kind_clauses(f), w));
    reveal_with_fuel(clause::all_hold, 9);
}

/// The bodies that are looked at are those of the systems in the cube.
pub proof fn law_bodies_are_in_the_cube(v: Seq<ParamView>)
    ensures
        SQL_BODIES@
            == "\n                SELECT s.id64, s.name as systemName, s.population, i.minX, i.minY, i.minZ,\n                       b.bodyId, b.name as bodyName, b.subType, b.distanceToArrival\n                FROM systems_index i JOIN systems s ON i.id = s.id64\n                JOIN bodies b ON s.id64 = b.systemId64\n                WHERE "@
            + clause::clause_text(clause::box_clauses(v)[0]) + " AND "@
            + clause::clause_text(clause::box_clauses(v)[1]) + " AND "@
            + clause::clause_text(clause::box_clauses(v)[2]) + " AND "@
            + clause::clause_text(clause::box_clauses(v)[3]) + " AND "@
            + clause::clause_text(clause::box_clauses(v)[4]) + " AND "@
            + clause::clause_text(clause::box_clauses(v)[5]),
{
    assert(clause::clause_text(clause::box_clauses(v)[0]) =~= "i.minX >= ?"@) by {
    reveal_strlit("i.minX >= ?");
        reveal_strlit("i.minX");
        reveal_strlit(" >= ");
        reveal_strlit("?");
    }
    assert(clause::clause_text(clause::box_clauses(v)[1]) =~= "i.maxX <= ?"@) by {
    reveal_strlit("i.maxX <= ?");
        reveal_strlit("i.maxX");
        reveal_strlit(" <= ");
        reveal_strlit("?");
    }
    assert(clause::clause_text(clause::box_clauses(v)[2]) =~= "i.minY >= ?"@) by {
    reveal_strlit("i.minY >= ?");
        reveal_strlit("i.minY");
        reveal_strlit(" >= ");
        reveal_strlit("?");
    }
    assert(clause::clause_text(clause::box_clauses(v)[3]) =~= "i.maxY <= ?"@) by {
    reveal_strlit("i.maxY <= ?");
        reveal_strlit("i.maxY");
        reveal_strlit(" <= ");
        reveal_strlit("?");
    }
    assert(clause::clause_text(clause::box_clauses(v)[4]) =~= "i.minZ >= ?"@) by {
    reveal_strlit("i.minZ >= ?");
        reveal_strlit("i.minZ");
        reveal_strlit(" >= ");
        reveal_strlit("?");
    }
    assert(clause::clause_text(clause::box_clauses(v)[5]) =~= "i.maxZ <= ?"@) by {
    reveal_strlit("i.maxZ <= ?");
        reveal_strlit("i.maxZ");
        reveal_strlit(" <= ");
        reveal_strlit("?");
    }
    lemma_bodies_are_in_the_cube_cuts();
    let s = SQL_BODIES@;
    text::lemma_cuts_join(s, 0, 322, 333);
    text::lemma_cuts_join(s, 0, 333, 338);
    text::lemma_cuts_join(s, 0, 338, 349);
    text::lemma_cuts_join(s, 0, 349, 354);
    text::lemma_cuts_join(s, 0, 354, 365);
    text::lemma_cuts_join(s, 0, 365, 370);
    text::lemma_cuts_join(s, 0, 370, 381);
    text::lemma_cuts_join(s, 0, 381, 386);
    text::lemma_cuts_join(s, 0, 386, 397);
    text::lemma_cuts_join(s, 0, 397, 402);
    text::lemma_cuts_join(s, 0, 402, 413);
    assert(s.subrange(0, 413) =~= s);
}

proof fn lemma_bodies_are_in_the_cube_cuts()
    ensures
        SQL_BODIES@.len() == 413,
        SQL_BODIES@.subrange(0, 322)
            == "\n                SELECT s.id64, s.name as systemName, s.population, i.minX, i.minY, i.minZ,\n                       b.bodyId, b.name as bodyName, b.subType, b.distanceToArrival\n                FROM systems_index i JOIN systems s ON i.id = s.id64\n                JOIN bodies b ON s.id64 = b.systemId64\n                WHERE "@,
        SQL_BODIES@.subrange(322, 333) == "i.minX >= ?"@,
        SQL_BODIES@.subrange(333, 338) == " AND "@,
        SQL_BODIES@.subrange(338, 349) == "i.maxX <= ?"@,
        SQL_BODIES@.subrange(349, 354) == " AND "@,
        SQL_BODIES@.subrange(354, 365) == "i.minY >= ?"@,
        SQL_BODIES@.subrange(365, 370) == " AND "@,
        SQL_BODIES@.subrange(370, 381) == "i.maxY <= ?"@,
        SQL_BODIES@.subrange(381, 386) == " AND "@,
        SQL_BODIES@.subrange(386, 397) == "i.minZ >= ?"@,
        SQL_BODIES@.subrange(397, 402) == " AND "@,
        SQL_BODIES@.subrange(402, 413) == "i.maxZ <= ?"@,
{
    reveal_strlit("\n                SELECT s.id64, s.name as systemName, s.population, i.minX, i.minY, i.minZ,\n                       b.bodyId, b.name as bodyName, b.subType, b.distanceToArrival\n                FROM systems_index i JOIN systems s ON i.id = s.id64\n                JOIN bodies b ON s.id64 = b.systemId64\n                WHERE i.minX >= ? AND i.maxX <= ? AND i.minY >= ? AND i.maxY <= ? AND i.minZ >= ? AND i.maxZ <= ?");
    assert(SQL_BODIES@.subrange(0,
        322) =~= "\n                SELECT s.id64, s.name as systemName, s.population, i.minX, i.minY, i.minZ,\n                       b.bodyId, b.name as bodyName, b.subType, b.distanceToArrival\n                FROM systems_index i JOIN systems s ON i.id = s.id64\n                JOIN bodies b ON s.id64 = b.systemId64\n                WHERE "@) by {
        reveal_strlit("\n                SELECT s.id64, s.name as systemName, s.population, i.minX, i.minY, i.minZ,\n                       b.bodyId, b.name as bodyName, b.subType, b.distanceToArrival\n                FROM systems_index i JOIN systems s ON i.id = s.id64\n                JOIN bodies b ON s.id64 = b.systemId64\n                WHERE ");
    }
    assert(SQL_BODIES@.subrange(322, 333) =~= "i.minX >= ?"@) by {
        reveal_strlit("i.minX >= ?");
    }
    assert(SQL_BODIES@.subrange(333, 338) =~= " AND "@) by {
        reveal_strlit(" AND ");
    }
    assert(SQL_BODIES@.subrange(338, 349) =~= "i.maxX <= ?"@) by {
        reveal_strlit("i.maxX <= ?");
    }
    assert(SQL_BODIES@.subrange(349, 354) =~= " AND "@) by {
        reveal_strlit(" AND ");
    }
    assert(SQL_BODIES@.subrange(354, 365) =~= "i.minY >= ?"@) by {
        reveal_strlit("i.minY >= ?");
    }
    assert(SQL_BODIES@.subrange(365, 370) =~= " AND "@) by {
        reveal_strlit(" AND ");
    }
    assert(SQL_BODIES@.subrange(370, 381) =~= "i.maxY <= ?"@) by {
        reveal_strlit("i.maxY <= ?");
    }
    assert(SQL_BODIES@.subrange(381, 386) =~= " AND "@) by {
        reveal_strlit(" AND ");
    }
    assert(SQL_BODIES@.subrange(386, 397) =~= "i.minZ >= ?"@) by {
        reveal_strlit("i.minZ >= ?");
    }
    assert(SQL_BODIES@.subrange(397, 402) =~= " AND "@) by {
        reveal_strlit(" AND ");
    }
    assert(SQL_BODIES@.subrange(402, 413) =~= "i.maxZ <= ?"@) by {
        reveal_strlit("i.maxZ <= ?");
    }
}

/// The systems that are looked at are those in the cube.
pub proof fn law_systems_are_in_the_cube(v: Seq<ParamView>)
    ensures
        SQL_SYSTEMS@
            == "\n                SELECT s.id64, s.name, s.population, i.minX, i.minY, i.minZ\n                FROM systems_index i JOIN systems s ON i.id = s.id64\n                WHERE "@
            + clause::clause_text(clause::box_clauses(v)[0]) + " AND "@
            + clause::clause_text(clause::box_clauses(v)[1]) + " AND "@
            + clause::clause_text(clause::box_clauses(v)[2]) + " AND "@
            + clause::clause_text(clause::box_clauses(v)[3]) + " AND "@
            + clause::clause_text(clause::box_clauses(v)[4]) + " AND "@
            + clause::clause_text(clause::box_clauses(v)[5]) + " LIMIT 5000\n            "@,
{
    assert(clause::clause_text(clause::box_clauses(v)[0]) =~= "i.minX >= ?"@) by {
    reveal_strlit("i.minX >= ?");
        reveal_strlit("i.minX");
        reveal_strlit(" >= ");
        reveal_strlit("?");
    }
    assert(clause::clause_text(clause::box_clauses(v)[1]) =~= "i.maxX <= ?"@) by {
    reveal_strlit("i.maxX <= ?");
        reveal_strlit("i.maxX");
        reveal_strlit(" <= ");
        reveal_strlit("?");
    }
    assert(clause::clause_text(clause::box_clauses(v)[2]) =~= "i.minY >= ?"@) by {
    reveal_strlit("i.minY >= ?");
        reveal_strlit("i.minY");
        reveal_strlit(" >= ");
        reveal_strlit("?");
    }
    assert(clause::clause_text(clause::box_clauses(v)[3]) =~= "i.maxY <= ?"@) by {
    reveal_strlit("i.maxY <= ?");
        reveal_strlit("i.maxY");
        reveal_strlit(" <= ");
        reveal_strlit("?");
    }
    assert(clause::clause_text(clause::box_clauses(v)[4]) =~= "i.minZ >= ?"@) by {
    reveal_strlit("i.minZ >= ?");
        reveal_strlit("i.minZ");
        reveal_strlit(" >= ");
        reveal_strlit("?");
    }
    assert(clause::clause_text(clause::box_clauses(v)[5]) =~= "i.maxZ <= ?"@) by {
    reveal_strlit("i.maxZ <= ?");
        reveal_strlit("i.maxZ");
        reveal_strlit(" <= ");
        reveal_strlit("?");
    }
    lemma_systems_are_in_the_cube_cuts();
    let s = SQL_SYSTEMS@;
    text::lemma_cuts_join(s, 0, 168, 179);
    text::lemma_cuts_join(s, 0, 179, 184);
    text::lemma_cuts_join(s, 0, 184, 195);
    text::lemma_cuts_join(s, 0, 195, 200);
    text::lemma_cuts_join(s, 0, 200, 211);
    text::lemma_cuts_join(s, 0, 211, 216);
    text::lemma_cuts_join(s, 0, 216, 227);
    text::lemma_cuts_join(s, 0, 227, 232);
    text::lemma_cuts_join(s, 0, 232, 243);
    text::lemma_cuts_join(s, 0, 243, 248);
    text::lemma_cuts_join(s, 0, 248, 259);
    text::lemma_cuts_join(s, 0, 259, 283);
    assert(s.subrange(0, 283) =~= s);
}

proof fn lemma_systems_are_in_the_cube_cuts()
    ensures
        SQL_SYSTEMS@.len() == 283,
        SQL_SYSTEMS@.subrange(0, 168)
            == "\n                SELECT s.id64, s.name, s.population, i.minX, i.minY, i.minZ\n                FROM systems_index i JOIN systems s ON i.id = s.id64\n                WHERE "@,
        SQL_SYSTEMS@.subrange(168, 179) == "i.minX >= ?"@,
        SQL_SYSTEMS@.subrange(179, 184) == " AND "@,
        SQL_SYSTEMS@.subrange(184, 195) == "i.maxX <= ?"@,
        SQL_SYSTEMS@.subrange(195, 200) == " AND "@,
        SQL_SYSTEMS@.subrange(200, 211) == "i.minY >= ?"@,
        SQL_SYSTEMS@.subrange(211, 216) == " AND "@,
        SQL_SYSTEMS@.subrange(216, 227) == "i.maxY <= ?"@,
        SQL_SYSTEMS@.subrange(227, 232) == " AND "@,
        SQL_SYSTEMS@.subrange(232, 243) == "i.minZ >= ?"@,
        SQL_SYSTEMS@.subrange(243, 248) == " AND "@,
        SQL_SYSTEMS@.subrange(248, 259) == "i.maxZ <= ?"@,
        SQL_SYSTEMS@.subrange(259, 283) == " LIMIT 5000\n            "@,
{
    reveal_strlit("\n                SELECT s.id64, s.name, s.population, i.minX, i.minY, i.minZ\n                FROM systems_index i JOIN systems s ON i.id = s.id64\n                WHERE i.minX >= ? AND i.maxX <= ? AND i.minY >= ? AND i.maxY <= ? AND i.minZ >= ? AND i.maxZ <= ? LIMIT 5000\n            ");
    assert(SQL_SYSTEMS@.subrange(0,
        168) =~= "\n                SELECT s.id64, s.name, s.population, i.minX, i.minY, i.minZ\n                FROM systems_index i JOIN systems s ON i.id = s.id64\n                WHERE "@) by {
        reveal_strlit("\n                SELECT s.id64, s.name, s.population, i.minX, i.minY, i.minZ\n                FROM systems_index i JOIN systems s ON i.id = s.id64\n                WHERE ");
    }
    assert(SQL_SYSTEMS@.subrange(168, 179) =~= "i.minX >= ?"@) by {
        reveal_strlit("i.minX >= ?");
    }
    assert(SQL_SYSTEMS@.subrange(179, 184) =~= " AND "@) by {
        reveal_strlit(" AND ");
    }
    assert(SQL_SYSTEMS@.subrange(184, 195) =~= "i.maxX <= ?"@) by {
        reveal_strlit("i.maxX <= ?");
    }
    assert(SQL_SYSTEMS@.subrange(195, 200) =~= " AND "@) by {
        reveal_strlit(" AND ");
    }
    assert(SQL_SYSTEMS@.subrange(200, 211) =~= "i.minY >= ?"@) by {
        reveal_strlit("i.minY >= ?");
    }
    assert(SQL_SYSTEMS@.subrange(211, 216) =~= " AND "@) by {
        reveal_strlit(" AND ");
    }
    assert(SQL_SYSTEMS@.subrange(216, 227) =~= "i.maxY <= ?"@) by {
        reveal_strlit("i.maxY <= ?");
    }
    assert(SQL_SYSTEMS@.subrange(227, 232) =~= " AND "@) by {
        reveal_strlit(" AND ");
    }
    assert(SQL_SYSTEMS@.subrange(232, 243) =~= "i.minZ >= ?"@) by {
        reveal_strlit("i.minZ >= ?");
    }
    assert(SQL_SYSTEMS@.subrange(243, 248) =~= " AND "@) by {
        reveal_strlit(" AND ");
    }
    assert(SQL_SYSTEMS@.subrange(248, 259) =~= "i.maxZ <= ?"@) by {
        reveal_strlit("i.maxZ <= ?");
    }
    assert(SQL_SYSTEMS@.subrange(259, 283) =~= " LIMIT 5000\n            "@) by {
        reveal_strlit(" LIMIT 5000\n            ");
    }
}

/// Some list of kinds holds a kind.
#[verifier::opaque]
pub open spec fn wants_kind(f: FilterView, kind: Seq<char>) -> bool {
    ||| f.subtypes.contains(kind)
    ||| f.classes.contains(kind)
    ||| f.dwarfs.contains(kind)
    ||| f.rayets.contains(kind)
}

/// A body of the system is of one kind.
pub open spec fn system_with(kind: Seq<char>) -> Part {
    Part::SystemHas(is_text("b2.subType"@, kind))
}

/// A body of the system is of one of several kinds.
pub open spec fn system_with_one(kinds: Seq<Seq<char>>) -> Part {
    Part::SystemHas(Clause::Among("b2.subType"@, kinds))
}

/// A body of the system is of a kind that is like a text.
pub open spec fn system_with_like(kind: Seq<char>) -> Part {
    Part::SystemHas(is_like_text("b2.subType"@, kind))
}

/// A kind is asked for: of a body, and of the bodies of the system.
#[verifier::opaque]
pub open spec fn asks(f: FilterView, kind: Seq<char>) -> bool {
    wants_kind(f, kind) && f.reqs.contains(clause::part_text(system_with(kind)))
}

/// Several kinds are asked for: of a body, and one of them of the system.
#[verifier::opaque]
pub open spec fn asks_one(f: FilterView, kinds: Seq<Seq<char>>) -> bool {
    (forall|i: int| 0 <= i < kinds.len() ==> wants_kind(f, #[trigger] kinds[i]))
        && f.reqs.contains(clause::part_text(system_with_one(kinds)))
}

/// A condition on the system asks for a body of kinds that are asked for.
#[verifier::opaque]
pub open spec fn fits(f: FilterView, req: Seq<char>) -> bool {
    ||| exists|kind: Seq<char>| #[trigger]
        wants_kind(f, kind) && req == clause::part_text(system_with(kind))
    ||| exists|kinds: Seq<Seq<char>>| #[trigger]
        asks_one(f, kinds) && req == clause::part_text(system_with_one(kinds))
    ||| f.any_dwarf && req == clause::part_text(system_with_like("White Dwarf%"@))
    ||| f.any_rayet && req == clause::part_text(system_with_like("Wolf-Rayet%"@))
}

/// Every condition on the system asks for a body of kinds that are asked for.
#[verifier::opaque]
pub open spec fn all_fit(f: FilterView) -> bool {
    forall|i: int| 0 <= i < f.reqs.len() ==> fits(f, #[trigger] f.reqs[i])
}

/// A filter asks for what another asks for, and maybe for more.
#[verifier::opaque]
pub open spec fn asks_no_less(f: FilterView, g: FilterView) -> bool {
    &&& forall|k: Seq<char>| #[trigger] wants_kind(g, k) ==> wants_kind(f, k)
    &&& forall|r: Seq<char>| #[trigger] g.reqs.contains(r) ==> f.reqs.contains(r)
    &&& g.any_dwarf ==> f.any_dwarf
    &&& g.any_rayet ==> f.any_rayet
}

/// What is asked for stays asked for.
proof fn lemma_stays(f: FilterView, g: FilterView)
    requires
        asks_no_less(f, g),
    ensures
        forall|k: Seq<char>| #[trigger] asks(g, k) ==> asks(f, k),
        forall|ks: Seq<Seq<char>>| #[trigger] asks_one(g, ks) ==> asks_one(f, ks),
        forall|r: Seq<char>| #[trigger] fits(g, r) ==> fits(f, r),
{
    reveal(wants_kind);
    reveal(asks);
    reveal(asks_one);
    reveal(fits);
    reveal(all_fit);
    reveal(asks_no_less);
    assert forall|ks: Seq<Seq<char>>| #[trigger] asks_one(g, ks) implies asks_one(f, ks) by {
        assert forall|i: int| 0 <= i < ks.len() implies wants_kind(f, #[trigger] ks[i]) by {
            assert(wants_kind(g, ks[i]));
        }
    }
    assert forall|r: Seq<char>| #[trigger] fits(g, r) implies fits(f, r) by {
        if exists|kind: Seq<char>| #[trigger]
            wants_kind(g, kind) && r == clause::part_text(system_with(kind)) {
            let kind = choose|kind: Seq<char>| #[trigger]
                wants_kind(g, kind) && r == clause::part_text(system_with(kind));
            assert(wants_kind(f, kind));
        } else if exists|kinds: Seq<Seq<char>>| #[trigger]
            asks_one(g, kinds) && r == clause::part_text(system_with_one(kinds)) {
            let kinds = choose|kinds: Seq<Seq<char>>| #[trigger]
                asks_one(g, kinds) && r == clause::part_text(system_with_one(kinds));
            assert(asks_one(f, kinds));
        }
    }
}

/// What goes on asking for no less goes on from the start.
proof fn lemma_goes_on(h: FilterView, g: FilterView, f: FilterView)
    requires
        asks_no_less(h, g),
        asks_no_less(g, f),
    ensures
        asks_no_less(h, f),
{
    reveal(asks_no_less);
}

proof fn lemma_itself(f: FilterView)
    ensures
        asks_no_less(f, f),
{
    reveal(asks_no_less);
}

/// A condition on the system is the text of a part.
proof fn lemma_system_texts(kind: Seq<char>)
    ensures
        system_has_kind(kind) == clause::part_text(system_with(kind)),
{
    lemma_system_start();
    reveal_strlit("= '");
    reveal_strlit("'");
    reveal_strlit(" = ");
    reveal_strlit(" ");
    assert(system_has_kind(kind) =~= clause::part_text(system_with(kind)));
}

proof fn lemma_system_start()
    ensures
        "EXISTS (SELECT 1 FROM bodies b2 WHERE b2.systemId64 = s.id64 AND b2.subType "@
            == "EXISTS (SELECT 1 FROM bodies b2 WHERE b2.systemId64 = s.id64 AND "@
            + ("b2.subType"@ + " "@),
{
    reveal_strlit("EXISTS (SELECT 1 FROM bodies b2 WHERE b2.systemId64 = s.id64 AND b2.subType ");
    reveal_strlit("EXISTS (SELECT 1 FROM bodies b2 WHERE b2.systemId64 = s.id64 AND ");
    reveal_strlit("b2.subType");
    reveal_strlit(" ");
    assert("EXISTS (SELECT 1 FROM bodies b2 WHERE b2.systemId64 = s.id64 AND b2.subType "@
        =~= "EXISTS (SELECT 1 FROM bodies b2 WHERE b2.systemId64 = s.id64 AND "@ + (
    "b2.subType"@ + " "@));
}

/// A condition on the system, behind the start that all have.
proof fn lemma_system_cond(cond: Seq<char>, c: Clause)
    requires
        clause::clause_text(c) == "b2.subType"@ + (" "@ + cond),
    ensures
        system_has(cond) == clause::part_text(Part::SystemHas(c)),
{
    lemma_system_start();
    assert(system_has(cond) =~= clause::part_text(Part::SystemHas(c)));
}

proof fn lemma_system_pair(a: Seq<char>, b: Seq<char>)
    ensures
        system_has("IN ('"@ + a + "', '"@ + b + "')"@) == clause::part_text(
            system_with_one(seq![a, b]),
        ),
{
    let ks = seq![a, b];
    assert(ks.drop_last() =~= seq![a]);
    assert(text::joined(ks.drop_last(), "', '"@) == a);
    assert(text::joined(ks, "', '"@) == a + "', '"@ + b);
    let cond = "IN ('"@ + a + "', '"@ + b + "')"@;
    reveal_strlit(" IN ('");
    reveal_strlit("IN ('");
    reveal_strlit(" ");
    assert(" IN ('"@ =~= " "@ + "IN ('"@);
    assert("b2.subType"@ + (" "@ + "IN ('"@) + (a + "', '"@ + b) + "')"@ =~= "b2.subType"@ + (" "@
        + cond));
    lemma_system_cond(cond, Clause::Among("b2.subType"@, ks));
}

proof fn lemma_system_three()
    ensures
        system_has("IN ('M (Red dwarf) Star', 'M (Red giant) Star', 'M (Red super giant) Star')"@)
            == clause::part_text(
            system_with_one(
                seq!["M (Red dwarf) Star"@, "M (Red giant) Star"@, "M (Red super giant) Star"@],
            ),
        ),
{
    let a = "M (Red dwarf) Star"@;
    let b = "M (Red giant) Star"@;
    let c = "M (Red super giant) Star"@;
    let ks = seq![a, b, c];
    assert(ks.drop_last() =~= seq![a, b]);
    assert(ks.drop_last().drop_last() =~= seq![a]);
    assert(text::joined(ks.drop_last().drop_last(), "', '"@) == a);
    assert(text::joined(ks.drop_last(), "', '"@) == a + "', '"@ + b);
    assert(text::joined(ks, "', '"@) == a + "', '"@ + b + "', '"@ + c);
    let cond = "IN ('M (Red dwarf) Star', 'M (Red giant) Star', 'M (Red super giant) Star')"@;
    reveal_strlit("IN ('M (Red dwarf) Star', 'M (Red giant) Star', 'M (Red super giant) Star')");
    reveal_strlit("M (Red dwarf) Star");
    reveal_strlit("M (Red giant) Star");
    reveal_strlit("M (Red super giant) Star");
    reveal_strlit("', '");
    reveal_strlit("')");
    reveal_strlit(" IN ('");
    reveal_strlit("IN ('");
    reveal_strlit(" ");
    assert(" IN ('"@ =~= " "@ + "IN ('"@);
    assert(cond =~= "IN ('"@ + (a + "', '"@ + b + "', '"@ + c) + "')"@);
    assert("b2.subType"@ + (" "@ + "IN ('"@) + (a + "', '"@ + b + "', '"@ + c) + "')"@
        =~= "b2.subType"@ + (" "@ + cond));
    lemma_system_cond(cond, Clause::Among("b2.subType"@, ks));
}

proof fn lemma_system_like()
    ensures
        system_has("LIKE 'White Dwarf%'"@) == clause::part_text(system_with_like("White Dwarf%"@)),
        system_has("LIKE 'Wolf-Rayet%'"@) == clause::part_text(system_with_like("Wolf-Rayet%"@)),
{
    reveal_strlit("LIKE 'White Dwarf%'");
    reveal_strlit("LIKE 'Wolf-Rayet%'");
    reveal_strlit("White Dwarf%");
    reveal_strlit("Wolf-Rayet%");
    reveal_strlit(" LIKE ");
    reveal_strlit("'");
    reveal_strlit(" ");
    assert(" "@ + "LIKE 'White Dwarf%'"@ =~= " LIKE "@ + ("'"@ + "White Dwarf%"@ + "'"@));
    assert(" "@ + "LIKE 'Wolf-Rayet%'"@ =~= " LIKE "@ + ("'"@ + "Wolf-Rayet%"@ + "'"@));
    let a = is_like_text("b2.subType"@, "White Dwarf%"@);
    let b = is_like_text("b2.subType"@, "Wolf-Rayet%"@);
    assert(clause::clause_text(a) =~= "b2.subType"@ + (" "@ + "LIKE 'White Dwarf%'"@));
    assert(clause::clause_text(b) =~= "b2.subType"@ + (" "@ + "LIKE 'Wolf-Rayet%'"@));
    lemma_system_cond("LIKE 'White Dwarf%'"@, a);
    lemma_system_cond("LIKE 'Wolf-Rayet%'"@, b);
}

/// One more condition on the system that fits.
proof fn lemma_required(f: FilterView, g: FilterView, req: Seq<char>)
    requires
        all_fit(f),
        f.reqs == g.reqs,
        forall|k: Seq<char>| #[trigger] wants_kind(f, k) ==> wants_kind(g, k),
        f.any_dwarf ==> g.any_dwarf,
        f.any_rayet ==> g.any_rayet,
        fits(required(g, req), req),
    ensures
        asks_no_less(required(g, req), f),
        all_fit(required(g, req)),
        required(g, req).reqs.contains(req),
{
    reveal(wants_kind);
    reveal(asks);
    reveal(asks_one);
    reveal(fits);
    reveal(all_fit);
    reveal(asks_no_less);
    let h = required(g, req);
    assert forall|k: Seq<char>| #[trigger] wants_kind(f, k) implies wants_kind(h, k) by {
        assert(wants_kind(g, k));
    }
    assert forall|r: Seq<char>| #[trigger] f.reqs.contains(r) implies h.reqs.contains(r) by {
        let i = choose|i: int| 0 <= i < f.reqs.len() && f.reqs[i] == r;
        assert(h.reqs[i] == r);
    }
    assert(h.reqs[g.reqs.len() as int] == req);
    lemma_stays(h, f);
    assert forall|i: int| 0 <= i < h.reqs.len() implies fits(h, #[trigger] h.reqs[i]) by {
        if i < f.reqs.len() {
            assert(fits(f, f.reqs[i]));
        }
    }
}

proof fn lemma_push_has(s: Seq<Seq<char>>, x: Seq<char>)
    ensures
        s.push(x).contains(x),
        forall|y: Seq<char>| #[trigger] s.contains(y) ==> s.push(x).contains(y),
        forall|y: Seq<char>| #[trigger] s.push(x).contains(y) ==> s.contains(y) || y == x,
{
    assert(s.push(x)[s.len() as int] == x);
    assert forall|y: Seq<char>| #[trigger] s.contains(y) implies s.push(x).contains(y) by {
        let i = choose|i: int| 0 <= i < s.len() && s[i] == y;
        assert(s.push(x)[i] == y);
    }
    assert forall|y: Seq<char>| #[trigger] s.push(x).contains(y) implies s.contains(y) || y
        == x by {
        let i = choose|i: int| 0 <= i < s.push(x).len() && s.push(x)[i] == y;
        if i < s.len() {
            assert(s[i] == y);
        }
    }
}

proof fn lemma_with_subtype(f: FilterView, asked: bool, kind: Seq<char>)
    requires
        all_fit(f),
    ensures
        asked ==> asks(with_subtype(f, asked, kind), kind),
        asks_no_less(with_subtype(f, asked, kind), f),
        all_fit(with_subtype(f, asked, kind)),
        forall|k: Seq<char>| #[trigger]
            wants_kind(with_subtype(f, asked, kind), k) ==> wants_kind(f, k) || (asked && k
                == kind),
        with_subtype(f, asked, kind).any_dwarf == f.any_dwarf,
        with_subtype(f, asked, kind).any_rayet == f.any_rayet,
        with_subtype(f, asked, kind).dwarfs == f.dwarfs,
        with_subtype(f, asked, kind).rayets == f.rayets,
{
    reveal(with_subtype);
    reveal(wants_kind);
    reveal(asks);
    reveal(asks_one);
    reveal(fits);
    reveal(all_fit);
    reveal(asks_no_less);
    if asked {
        let g = FilterView { subtypes: f.subtypes.push(kind), ..f };
        lemma_push_has(f.subtypes, kind);
        lemma_system_texts(kind);
        let h = required(g, system_has_kind(kind));
        assert(wants_kind(h, kind));
        lemma_required(f, g, system_has_kind(kind));
    }
}

proof fn lemma_with_dwarf(f: FilterView, asked: bool, kind: Seq<char>)
    requires
        all_fit(f),
    ensures
        asked ==> asks(with_dwarf(f, asked, kind), kind),
        asks_no_less(with_dwarf(f, asked, kind), f),
        all_fit(with_dwarf(f, asked, kind)),
        forall|k: Seq<char>| #[trigger]
            wants_kind(with_dwarf(f, asked, kind), k) ==> wants_kind(f, k) || (asked && k == kind),
        with_dwarf(f, asked, kind).any_dwarf == f.any_dwarf,
        with_dwarf(f, asked, kind).any_rayet == f.any_rayet,
        with_dwarf(f, asked, kind).dwarfs == (if asked {
            f.dwarfs.push(kind)
        } else {
            f.dwarfs
        }),
        with_dwarf(f, asked, kind).rayets == f.rayets,
{
    reveal(with_dwarf);
    reveal(wants_kind);
    reveal(asks);
    reveal(asks_one);
    reveal(fits);
    reveal(all_fit);
    reveal(asks_no_less);
    if asked {
        let g = FilterView { dwarfs: f.dwarfs.push(kind), ..f };
        lemma_push_has(f.dwarfs, kind);
        lemma_system_texts(kind);
        let h = required(g, system_has_kind(kind));
        assert(wants_kind(h, kind));
        lemma_required(f, g, system_has_kind(kind));
    }
}

proof fn lemma_with_rayet(f: FilterView, asked: bool, kind: Seq<char>)
    requires
        all_fit(f),
    ensures
        asked ==> asks(with_rayet(f, asked, kind), kind),
        asks_no_less(with_rayet(f, asked, kind), f),
        all_fit(with_rayet(f, asked, kind)),
        forall|k: Seq<char>| #[trigger]
            wants_kind(with_rayet(f, asked, kind), k) ==> wants_kind(f, k) || (asked && k == kind),
        with_rayet(f, asked, kind).any_dwarf == f.any_dwarf,
        with_rayet(f, asked, kind).any_rayet == f.any_rayet,
        with_rayet(f, asked, kind).dwarfs == f.dwarfs,
        with_rayet(f, asked, kind).rayets == (if asked {
            f.rayets.push(kind)
        } else {
            f.rayets
        }),
{
    reveal(with_rayet);
    reveal(wants_kind);
    reveal(asks);
    reveal(asks_one);
    reveal(fits);
    reveal(all_fit);
    reveal(asks_no_less);
    if asked {
        let g = FilterView { rayets: f.rayets.push(kind), ..f };
        lemma_push_has(f.rayets, kind);
        lemma_system_texts(kind);
        let h = required(g, system_has_kind(kind));
        assert(wants_kind(h, kind));
        lemma_required(f, g, system_has_kind(kind));
    }
}

proof fn lemma_with_class(f: FilterView, asked: bool, kind: Seq<char>)
    requires
        all_fit(f),
    ensures
        asked ==> asks(with_class(f, asked, kind), kind),
        asks_no_less(with_class(f, asked, kind), f),
        all_fit(with_class(f, asked, kind)),
        forall|k: Seq<char>| #[trigger]
            wants_kind(with_class(f, asked, kind), k) ==> wants_kind(f, k) || (asked && k == kind),
        with_class(f, asked, kind).any_dwarf == f.any_dwarf,
        with_class(f, asked, kind).any_rayet == f.any_rayet,
        with_class(f, asked, kind).dwarfs == f.dwarfs,
        with_class(f, asked, kind).rayets == f.rayets,
{
    reveal(with_class);
    reveal(wants_kind);
    reveal(asks);
    reveal(asks_one);
    reveal(fits);
    reveal(all_fit);
    reveal(asks_no_less);
    if asked {
        let g = FilterView { classes: f.classes.push(kind), ..f };
        lemma_push_has(f.classes, kind);
        lemma_system_texts(kind);
        let h = required(g, system_has_kind(kind));
        assert(wants_kind(h, kind));
        lemma_required(f, g, system_has_kind(kind));
    }
}

proof fn lemma_with_class_pair(f: FilterView, asked: bool, a: Seq<char>, b: Seq<char>)
    requires
        all_fit(f),
    ensures
        asked ==> asks_one(with_class_pair(f, asked, a, b), seq![a, b]),
        asks_no_less(with_class_pair(f, asked, a, b), f),
        all_fit(with_class_pair(f, asked, a, b)),
        forall|k: Seq<char>| #[trigger]
            wants_kind(with_class_pair(f, asked, a, b), k) ==> wants_kind(f, k) || (asked && (k == a
                || k == b)),
        with_class_pair(f, asked, a, b).any_dwarf == f.any_dwarf,
        with_class_pair(f, asked, a, b).any_rayet == f.any_rayet,
        with_class_pair(f, asked, a, b).dwarfs == f.dwarfs,
        with_class_pair(f, asked, a, b).rayets == f.rayets,
{
    reveal(with_class_pair);
    reveal(wants_kind);
    reveal(asks);
    reveal(asks_one);
    reveal(fits);
    reveal(all_fit);
    reveal(asks_no_less);
    if asked {
        let g = FilterView { classes: f.classes.push(a).push(b), ..f };
        lemma_push_has(f.classes, a);
        lemma_push_has(f.classes.push(a), b);
        lemma_system_pair(a, b);
        let req = system_has("IN ('"@ + a + "', '"@ + b + "')"@);
        let h = required(g, req);
        let ks = seq![a, b];
        assert(h.reqs[f.reqs.len() as int] == req);
        assert(wants_kind(h, a) && wants_kind(h, b));
        assert(asks_one(h, ks));
        lemma_required(f, g, req);
    }
}

proof fn lemma_with_three(f: FilterView, a: Seq<char>, b: Seq<char>, c: Seq<char>, req: Seq<char>)
    requires
        all_fit(f),
        req == clause::part_text(system_with_one(seq![a, b, c])),
    ensures
        ({
            let h = required(
                FilterView { classes: f.classes.push(a).push(b).push(c), ..f },
                req,
            );
            &&& asks_one(h, seq![a, b, c])
            &&& asks_no_less(h, f)
            &&& all_fit(h)
            &&& forall|k: Seq<char>| #[trigger]
                wants_kind(h, k) ==> wants_kind(f, k) || k == a || k == b || k == c
        }),
{
    reveal(wants_kind);
    reveal(asks);
    reveal(asks_one);
    reveal(fits);
    reveal(all_fit);
    reveal(asks_no_less);
    let g = FilterView { classes: f.classes.push(a).push(b).push(c), ..f };
    lemma_push_has(f.classes, a);
    lemma_push_has(f.classes.push(a), b);
    lemma_push_has(f.classes.push(a).push(b), c);
    let h = required(g, req);
    let ks = seq![a, b, c];
    assert(h.reqs[f.reqs.len() as int] == req);
    assert(wants_kind(h, a) && wants_kind(h, b) && wants_kind(h, c));
    assert(asks_one(h, ks));
    lemma_required(f, g, req);
}

proof fn lemma_with_any(f: FilterView, g: FilterView, req: Seq<char>)
    requires
        all_fit(f),
        g == (FilterView { any_dwarf: true, ..f }) && req == clause::part_text(
            system_with_like("White Dwarf%"@),
        ) || g == (FilterView { any_rayet: true, ..f }) && req == clause::part_text(
            system_with_like("Wolf-Rayet%"@),
        ),
    ensures
        asks_no_less(required(g, req), f),
        all_fit(required(g, req)),
        required(g, req).reqs.contains(req),
        forall|k: Seq<char>| #[trigger] wants_kind(required(g, req), k) ==> wants_kind(f, k),
{
    reveal(wants_kind);
    reveal(asks);
    reveal(asks_one);
    reveal(fits);
    reveal(all_fit);
    reveal(asks_no_less);
    lemma_required(f, g, req);
}

/// The first `n` kinds are asked for, where they are.
spec fn all_subtypes(f: FilterView, asked: Seq<bool>, kinds: Seq<Seq<char>>, n: nat) -> FilterView
    decreases n,
{
    if n == 0 {
        f
    } else {
        with_subtype(all_subtypes(f, asked, kinds, (n - 1) as nat), asked[n - 1], kinds[n - 1])
    }
}

proof fn lemma_all_subtypes(f: FilterView, asked: Seq<bool>, kinds: Seq<Seq<char>>, n: nat)
    requires
        all_fit(f),
    ensures
        forall|i: int|
            0 <= i < n && asked[i] ==> asks(all_subtypes(f, asked, kinds, n), #[trigger] kinds[i]),
        asks_no_less(all_subtypes(f, asked, kinds, n), f),
        all_fit(all_subtypes(f, asked, kinds, n)),
        forall|k: Seq<char>| #[trigger]
            wants_kind(all_subtypes(f, asked, kinds, n), k) ==> wants_kind(f, k) || exists|i: int|
                0 <= i < n && asked[i] && #[trigger] kinds[i] == k,
        all_subtypes(f, asked, kinds, n).any_dwarf == f.any_dwarf,
        all_subtypes(f, asked, kinds, n).any_rayet == f.any_rayet,
        all_subtypes(f, asked, kinds, n).dwarfs == f.dwarfs,
        all_subtypes(f, asked, kinds, n).rayets == f.rayets,
    decreases n,
{
    if n == 0 {
        lemma_itself(f);
    } else {
        let m = (n - 1) as nat;
        lemma_all_subtypes(f, asked, kinds, m);
        let g = all_subtypes(f, asked, kinds, m);
        let h = all_subtypes(f, asked, kinds, n);
        lemma_with_subtype(g, asked[m as int], kinds[m as int]);
        lemma_stays(h, g);
        lemma_goes_on(h, g, f);
        assert forall|k: Seq<char>| #[trigger] wants_kind(h, k) implies wants_kind(f, k) || exists|
            i: int,
        |
            0 <= i < n && asked[i] && #[trigger] kinds[i] == k by {
            if asked[m as int] && k == kinds[m as int] {
            } else {
                assert(wants_kind(g, k));
            }
        }
    }
}

/// The first `n` kinds are asked for, where they are.
spec fn all_classes(f: FilterView, asked: Seq<bool>, kinds: Seq<Seq<char>>, n: nat) -> FilterView
    decreases n,
{
    if n == 0 {
        f
    } else {
        with_class(all_classes(f, asked, kinds, (n - 1) as nat), asked[n - 1], kinds[n - 1])
    }
}

proof fn lemma_all_classes(f: FilterView, asked: Seq<bool>, kinds: Seq<Seq<char>>, n: nat)
    requires
        all_fit(f),
    ensures
        forall|i: int|
            0 <= i < n && asked[i] ==> asks(all_classes(f, asked, kinds, n), #[trigger] kinds[i]),
        asks_no_less(all_classes(f, asked, kinds, n), f),
        all_fit(all_classes(f, asked, kinds, n)),
        forall|k: Seq<char>| #[trigger]
            wants_kind(all_classes(f, asked, kinds, n), k) ==> wants_kind(f, k) || exists|i: int|
                0 <= i < n && asked[i] && #[trigger] kinds[i] == k,
        all_classes(f, asked, kinds, n).any_dwarf == f.any_dwarf,
        all_classes(f, asked, kinds, n).any_rayet == f.any_rayet,
        all_classes(f, asked, kinds, n).dwarfs == f.dwarfs,
        all_classes(f, asked, kinds, n).rayets == f.rayets,
    decreases n,
{
    if n == 0 {
        lemma_itself(f);
    } else {
        let m = (n - 1) as nat;
        lemma_all_classes(f, asked, kinds, m);
        let g = all_classes(f, asked, kinds, m);
        let h = all_classes(f, asked, kinds, n);
        lemma_with_class(g, asked[m as int], kinds[m as int]);
        lemma_stays(h, g);
        lemma_goes_on(h, g, f);
        assert forall|k: Seq<char>| #[trigger] wants_kind(h, k) implies wants_kind(f, k) || exists|
            i: int,
        |
            0 <= i < n && asked[i] && #[trigger] kinds[i] == k by {
            if asked[m as int] && k == kinds[m as int] {
            } else {
                assert(wants_kind(g, k));
            }
        }
    }
}

/// The first `n` pairs of kinds are asked for, where they are.
spec fn all_pairs(
    f: FilterView,
    asked: Seq<bool>,
    kinds: Seq<(Seq<char>, Seq<char>)>,
    n: nat,
) -> FilterView
    decreases n,
{
    if n == 0 {
        f
    } else {
        with_class_pair(
            all_pairs(f, asked, kinds, (n - 1) as nat),
            asked[n - 1],
            kinds[n - 1].0,
            kinds[n - 1].1,
        )
    }
}

proof fn lemma_all_pairs(
    f: FilterView,
    asked: Seq<bool>,
    kinds: Seq<(Seq<char>, Seq<char>)>,
    n: nat,
)
    requires
        all_fit(f),
    ensures
        forall|i: int|
            0 <= i < n && asked[i] ==> asks_one(
                all_pairs(f, asked, kinds, n),
                seq![(#[trigger] kinds[i]).0, kinds[i].1],
            ),
        asks_no_less(all_pairs(f, asked, kinds, n), f),
        all_fit(all_pairs(f, asked, kinds, n)),
        forall|k: Seq<char>| #[trigger]
            wants_kind(all_pairs(f, asked, kinds, n), k) ==> wants_kind(f, k) || exists|i: int|
                0 <= i < n && asked[i] && ((#[trigger] kinds[i]).0 == k || kinds[i].1 == k),
        all_pairs(f, asked, kinds, n).any_dwarf == f.any_dwarf,
        all_pairs(f, asked, kinds, n).any_rayet == f.any_rayet,
        all_pairs(f, asked, kinds, n).dwarfs == f.dwarfs,
        all_pairs(f, asked, kinds, n).rayets == f.rayets,
    decreases n,
{
    if n == 0 {
        lemma_itself(f);
    } else {
        let m = (n - 1) as nat;
        lemma_all_pairs(f, asked, kinds, m);
        let g = all_pairs(f, asked, kinds, m);
        let h = all_pairs(f, asked, kinds, n);
        let p = kinds[m as int];
        lemma_with_class_pair(g, asked[m as int], p.0, p.1);
        lemma_stays(h, g);
        lemma_goes_on(h, g, f);
        assert forall|k: Seq<char>| #[trigger] wants_kind(h, k) implies wants_kind(f, k) || exists|
            i: int,
        |
            0 <= i < n && asked[i] && ((#[trigger] kinds[i]).0 == k || kinds[i].1 == k) by {
            if asked[m as int] && (k == p.0 || k == p.1) {
            } else {
                assert(wants_kind(g, k));
            }
        }
    }
}

/// A kind of terrestrial planet that the text names.
pub open spec fn named_by_terrestrial(eff: Seq<char>, k: Seq<char>) -> bool {
    ||| text::occurs(eff, "earth-like"@) && k == "Earth-like world"@
    ||| text::occurs(eff, "water world"@) && k == "Water world"@
    ||| text::occurs(eff, "ammonia world"@) && k == "Ammonia world"@
    ||| text::occurs(eff, "high metal content"@) && k == "High metal content world"@
    ||| text::occurs(eff, "metal-rich body"@) && k == "Metal-rich body"@
    ||| text::occurs(eff, "rocky body"@) && k == "Rocky body"@
    ||| text::occurs(eff, "rocky ice world"@) && k == "Rocky Ice world"@
    ||| text::occurs(eff, "icy body"@) && k == "Icy body"@
}

proof fn lemma_terrestrial(f: FilterView, eff: Seq<char>)
    requires
        all_fit(f),
    ensures
        text::occurs(eff, "earth-like"@) ==> asks(terrestrial(f, eff), "Earth-like world"@),
        text::occurs(eff, "water world"@) ==> asks(terrestrial(f, eff), "Water world"@),
        text::occurs(eff, "ammonia world"@) ==> asks(terrestrial(f, eff), "Ammonia world"@),
        text::occurs(eff, "high metal content"@) ==> asks(terrestrial(f, eff),
            "High metal content world"@),
        text::occurs(eff, "metal-rich body"@) ==> asks(terrestrial(f, eff), "Metal-rich body"@),
        text::occurs(eff, "rocky body"@) ==> asks(terrestrial(f, eff), "Rocky body"@),
        text::occurs(eff, "rocky ice world"@) ==> asks(terrestrial(f, eff), "Rocky Ice world"@),
        text::occurs(eff, "icy body"@) ==> asks(terrestrial(f, eff), "Icy body"@),
        asks_no_less(terrestrial(f, eff), f),
        all_fit(terrestrial(f, eff)),
        forall|k: Seq<char>| #[trigger]
            wants_kind(terrestrial(f, eff), k) ==> wants_kind(f, k) || named_by_terrestrial(eff, k),
        terrestrial(f, eff).any_dwarf == f.any_dwarf,
        terrestrial(f, eff).dwarfs == f.dwarfs,
        terrestrial(f, eff).rayets == f.rayets,
        terrestrial(f, eff).any_rayet == f.any_rayet,
{
    let a = seq![
        text::occurs(eff, "earth-like"@),
        text::occurs(eff, "water world"@),
        text::occurs(eff, "ammonia world"@),
        text::occurs(eff, "high metal content"@),
        text::occurs(eff, "metal-rich body"@),
        text::occurs(eff, "rocky body"@),
        text::occurs(eff, "rocky ice world"@),
        text::occurs(eff, "icy body"@),
    ];
    let ks = seq![
        "Earth-like world"@,
        "Water world"@,
        "Ammonia world"@,
        "High metal content world"@,
        "Metal-rich body"@,
        "Rocky body"@,
        "Rocky Ice world"@,
        "Icy body"@,
    ];
    lemma_all_subtypes(f, a, ks, 8);
    let r = all_subtypes(f, a, ks, 8);
    assert(terrestrial(f, eff) == r) by {
        reveal_with_fuel(all_subtypes, 9);
    }
    assert(a[0] ==> asks(r, ks[0]));
    assert(a[1] ==> asks(r, ks[1]));
    assert(a[2] ==> asks(r, ks[2]));
    assert(a[3] ==> asks(r, ks[3]));
    assert(a[4] ==> asks(r, ks[4]));
    assert(a[5] ==> asks(r, ks[5]));
    assert(a[6] ==> asks(r, ks[6]));
    assert(a[7] ==> asks(r, ks[7]));
    assert forall|k: Seq<char>| #[trigger] wants_kind(r, k) implies wants_kind(f, k)
        || named_by_terrestrial(eff, k) by {
        if !wants_kind(f, k) {
            let i = choose|i: int| 0 <= i < 8 && a[i] && #[trigger] ks[i] == k;
            assert(i == 0 || i == 1 || i == 2 || i == 3 || i == 4 || i == 5 || i == 6 || i == 7);
        }
    }
}

/// A kind of gas giant that the text names.
pub open spec fn named_by_gas_giants(eff: Seq<char>, k: Seq<char>) -> bool {
    ||| text::occurs(eff, "class i gas giant"@) && k == "Class I gas giant"@
    ||| text::occurs(eff, "class ii gas giant"@) && k == "Class II gas giant"@
    ||| text::occurs(eff, "class iii gas giant"@) && k == "Class III gas giant"@
    ||| text::occurs(eff, "class iv gas giant"@) && k == "Class IV gas giant"@
    ||| text::occurs(eff, "class v gas giant"@) && k == "Class V gas giant"@
    ||| text::occurs(eff, "water-based life giant"@) && k == "Gas giant with water-based life"@
    ||| text::occurs(eff, "ammonia-based life giant"@) && k == "Gas giant with ammonia-based life"@
    ||| text::occurs(eff, "helium-rich gas giant"@) && k == "Helium-rich gas giant"@
    ||| !text::occurs(eff, "helium-rich gas giant"@) && text::occurs(eff, "helium gas giant"@) && k
        == "Helium gas giant"@
    ||| text::occurs(eff, "water giant"@) && k == "Water giant"@
}

proof fn lemma_gas_giants(f: FilterView, eff: Seq<char>)
    requires
        all_fit(f),
    ensures
        text::occurs(eff, "class i gas giant"@) ==> asks(gas_giants(f, eff), "Class I gas giant"@),
        text::occurs(eff, "class ii gas giant"@) ==> asks(gas_giants(f, eff),
            "Class II gas giant"@),
        text::occurs(eff, "class iii gas giant"@) ==> asks(gas_giants(f, eff),
            "Class III gas giant"@),
        text::occurs(eff, "class iv gas giant"@) ==> asks(gas_giants(f, eff),
            "Class IV gas giant"@),
        text::occurs(eff, "class v gas giant"@) ==> asks(gas_giants(f, eff), "Class V gas giant"@),
        text::occurs(eff, "water-based life giant"@) ==> asks(gas_giants(f, eff),
            "Gas giant with water-based life"@),
        text::occurs(eff, "ammonia-based life giant"@) ==> asks(gas_giants(f, eff),
            "Gas giant with ammonia-based life"@),
        text::occurs(eff, "helium-rich gas giant"@) ==> asks(gas_giants(f, eff),
            "Helium-rich gas giant"@),
        !text::occurs(eff, "helium-rich gas giant"@) && text::occurs(eff, "helium gas giant"@)
            ==> asks(gas_giants(f, eff), "Helium gas giant"@),
        text::occurs(eff, "water giant"@) ==> asks(gas_giants(f, eff), "Water giant"@),
        asks_no_less(gas_giants(f, eff), f),
        all_fit(gas_giants(f, eff)),
        forall|k: Seq<char>| #[trigger]
            wants_kind(gas_giants(f, eff), k) ==> wants_kind(f, k) || named_by_gas_giants(eff, k),
        gas_giants(f, eff).any_dwarf == f.any_dwarf,
        gas_giants(f, eff).dwarfs == f.dwarfs,
        gas_giants(f, eff).rayets == f.rayets,
        gas_giants(f, eff).any_rayet == f.any_rayet,
{
    let a = seq![
        text::occurs(eff, "class i gas giant"@),
        text::occurs(eff, "class ii gas giant"@),
        text::occurs(eff, "class iii gas giant"@),
        text::occurs(eff, "class iv gas giant"@),
        text::occurs(eff, "class v gas giant"@),
        text::occurs(eff, "water-based life giant"@),
        text::occurs(eff, "ammonia-based life giant"@),
        text::occurs(eff, "helium-rich gas giant"@),
        !text::occurs(eff, "helium-rich gas giant"@) && text::occurs(eff, "helium gas giant"@),
        text::occurs(eff, "water giant"@),
    ];
    let ks = seq![
        "Class I gas giant"@,
        "Class II gas giant"@,
        "Class III gas giant"@,
        "Class IV gas giant"@,
        "Class V gas giant"@,
        "Gas giant with water-based life"@,
        "Gas giant with ammonia-based life"@,
        "Helium-rich gas giant"@,
        "Helium gas giant"@,
        "Water giant"@,
    ];
    lemma_all_subtypes(f, a, ks, 10);
    let r = all_subtypes(f, a, ks, 10);
    assert(gas_giants(f, eff) == r) by {
        reveal_with_fuel(all_subtypes, 11);
    }
    assert(a[0] ==> asks(r, ks[0]));
    assert(a[1] ==> asks(r, ks[1]));
    assert(a[2] ==> asks(r, ks[2]));
    assert(a[3] ==> asks(r, ks[3]));
    assert(a[4] ==> asks(r, ks[4]));
    assert(a[5] ==> asks(r, ks[5]));
    assert(a[6] ==> asks(r, ks[6]));
    assert(a[7] ==> asks(r, ks[7]));
    assert(a[8] ==> asks(r, ks[8]));
    assert(a[9] ==> asks(r, ks[9]));
    assert forall|k: Seq<char>| #[trigger] wants_kind(r, k) implies wants_kind(f, k)
        || named_by_gas_giants(eff, k) by {
        if !wants_kind(f, k) {
            let i = choose|i: int| 0 <= i < 10 && a[i] && #[trigger] ks[i] == k;
            assert(i == 0 || i == 1 || i == 2 || i == 3 || i == 4 || i == 5 || i == 6 || i == 7 || i
                == 8 || i == 9);
        }
    }
}

/// A kind of compact object that the text names.
pub open spec fn named_by_compact(eff: Seq<char>, k: Seq<char>) -> bool {
    ||| text::occurs(eff, "neutron star"@) && k == "Neutron Star"@
    ||| text::occurs(eff, "supermassive black hole"@) && k == "Supermassive Black Hole"@
    ||| !text::occurs(eff, "supermassive black hole"@) && text::occurs(eff, "black hole"@) && k
        == "Black Hole"@
}

proof fn lemma_compact(f: FilterView, eff: Seq<char>)
    requires
        all_fit(f),
    ensures
        text::occurs(eff, "neutron star"@) ==> asks(compact(f, eff), "Neutron Star"@),
        text::occurs(eff, "supermassive black hole"@) ==> asks(compact(f, eff),
            "Supermassive Black Hole"@),
        !text::occurs(eff, "supermassive black hole"@) && text::occurs(eff, "black hole"@)
            ==> asks(compact(f, eff), "Black Hole"@),
        asks_no_less(compact(f, eff), f),
        all_fit(compact(f, eff)),
        forall|k: Seq<char>| #[trigger]
            wants_kind(compact(f, eff), k) ==> wants_kind(f, k) || named_by_compact(eff, k),
        compact(f, eff).any_dwarf == f.any_dwarf,
        compact(f, eff).dwarfs == f.dwarfs,
        compact(f, eff).rayets == f.rayets,
        compact(f, eff).any_rayet == f.any_rayet,
{
    let a = seq![
        text::occurs(eff, "neutron star"@),
        text::occurs(eff, "supermassive black hole"@),
        !text::occurs(eff, "supermassive black hole"@) && text::occurs(eff, "black hole"@),
    ];
    let ks = seq![
        "Neutron Star"@,
        "Supermassive Black Hole"@,
        "Black Hole"@,
    ];
    lemma_all_subtypes(f, a, ks, 3);
    let r = all_subtypes(f, a, ks, 3);
    assert(compact(f, eff) == r) by {
        reveal_with_fuel(all_subtypes, 4);
    }
    assert(a[0] ==> asks(r, ks[0]));
    assert(a[1] ==> asks(r, ks[1]));
    assert(a[2] ==> asks(r, ks[2]));
    assert forall|k: Seq<char>| #[trigger] wants_kind(r, k) implies wants_kind(f, k)
        || named_by_compact(eff, k) by {
        if !wants_kind(f, k) {
            let i = choose|i: int| 0 <= i < 3 && a[i] && #[trigger] ks[i] == k;
            assert(i == 0 || i == 1 || i == 2);
        }
    }
}

/// A kind of white dwarf of the group DA that the text names.
pub open spec fn named_by_dwarfs_da(eff: Seq<char>, k: Seq<char>) -> bool {
    ||| text::occurs(eff, "white dwarf dab"@) && k == "White Dwarf (DAB) Star"@
    ||| text::occurs(eff, "white dwarf dav"@) && k == "White Dwarf (DAV) Star"@
    ||| text::occurs(eff, "white dwarf daz"@) && k == "White Dwarf (DAZ) Star"@
    ||| text::occurs(eff, "white dwarf da"@) && !text::occurs(eff, "white dwarf dab"@)
        && !text::occurs(eff, "white dwarf dav"@) && !text::occurs(eff, "white dwarf daz"@) && k
        == "White Dwarf (DA) Star"@
}

proof fn lemma_dwarfs_da(f: FilterView, eff: Seq<char>)
    requires
        all_fit(f),
    ensures
        text::occurs(eff, "white dwarf dab"@) ==> asks(dwarfs_da(f, eff),
            "White Dwarf (DAB) Star"@),
        text::occurs(eff, "white dwarf dav"@) ==> asks(dwarfs_da(f, eff),
            "White Dwarf (DAV) Star"@),
        text::occurs(eff, "white dwarf daz"@) ==> asks(dwarfs_da(f, eff),
            "White Dwarf (DAZ) Star"@),
        text::occurs(eff, "white dwarf da"@) && !text::occurs(eff, "white dwarf dab"@)
            && !text::occurs(eff, "white dwarf dav"@) && !text::occurs(eff, "white dwarf daz"@)
            ==> asks(dwarfs_da(f, eff), "White Dwarf (DA) Star"@),
        asks_no_less(dwarfs_da(f, eff), f),
        all_fit(dwarfs_da(f, eff)),
        forall|k: Seq<char>| #[trigger]
            wants_kind(dwarfs_da(f, eff), k) ==> wants_kind(f, k) || named_by_dwarfs_da(eff, k),
        dwarfs_da(f, eff).any_dwarf == f.any_dwarf,
        dwarfs_da(f, eff).rayets == f.rayets,
        dwarfs_da(f, eff).dwarfs.len() == 0 <==> f.dwarfs.len() == 0 && !((text::occurs(eff,
            "white dwarf dab"@)) || (text::occurs(eff, "white dwarf dav"@)) || (text::occurs(eff,
            "white dwarf daz"@)) || (text::occurs(eff, "white dwarf da"@) && !text::occurs(eff,
            "white dwarf dab"@) && !text::occurs(eff, "white dwarf dav"@) && !text::occurs(eff,
            "white dwarf daz"@))),
        dwarfs_da(f, eff).any_rayet == f.any_rayet,
{
    let f0 = f;
    lemma_itself(f);
    lemma_with_dwarf(f0, text::occurs(eff, "white dwarf dab"@), "White Dwarf (DAB) Star"@);
    let f1 = with_dwarf(f0, text::occurs(eff, "white dwarf dab"@), "White Dwarf (DAB) Star"@);
    lemma_stays(f1, f0);
    lemma_goes_on(f1, f0, f0);
    lemma_with_dwarf(f1, text::occurs(eff, "white dwarf dav"@), "White Dwarf (DAV) Star"@);
    let f2 = with_dwarf(f1, text::occurs(eff, "white dwarf dav"@), "White Dwarf (DAV) Star"@);
    lemma_stays(f2, f1);
    lemma_goes_on(f2, f1, f0);
    lemma_with_dwarf(f2, text::occurs(eff, "white dwarf daz"@), "White Dwarf (DAZ) Star"@);
    let f3 = with_dwarf(f2, text::occurs(eff, "white dwarf daz"@), "White Dwarf (DAZ) Star"@);
    lemma_stays(f3, f2);
    lemma_goes_on(f3, f2, f0);
    lemma_with_dwarf(f3, text::occurs(eff, "white dwarf da"@) && !text::occurs(eff,
        "white dwarf dab"@) && !text::occurs(eff, "white dwarf dav"@) && !text::occurs(eff,
        "white dwarf daz"@), "White Dwarf (DA) Star"@);
    let f4 = with_dwarf(f3, text::occurs(eff, "white dwarf da"@) && !text::occurs(eff,
        "white dwarf dab"@) && !text::occurs(eff, "white dwarf dav"@) && !text::occurs(eff,
        "white dwarf daz"@), "White Dwarf (DA) Star"@);
    lemma_stays(f4, f3);
    lemma_goes_on(f4, f3, f0);
}

/// A kind of white dwarf of the groups DB and DC that the text names.
pub open spec fn named_by_dwarfs_db(eff: Seq<char>, k: Seq<char>) -> bool {
    ||| text::occurs(eff, "white dwarf dbv"@) && k == "White Dwarf (DBV) Star"@
    ||| text::occurs(eff, "white dwarf dbz"@) && k == "White Dwarf (DBZ) Star"@
    ||| text::occurs(eff, "white dwarf db"@) && !text::occurs(eff, "white dwarf dbv"@)
        && !text::occurs(eff, "white dwarf dbz"@) && k == "White Dwarf (DB) Star"@
    ||| text::occurs(eff, "white dwarf dcv"@) && k == "White Dwarf (DCV) Star"@
    ||| text::occurs(eff, "white dwarf dc"@) && !text::occurs(eff, "white dwarf dcv"@) && k
        == "White Dwarf (DC) Star"@
}

proof fn lemma_dwarfs_db(f: FilterView, eff: Seq<char>)
    requires
        all_fit(f),
    ensures
        text::occurs(eff, "white dwarf dbv"@) ==> asks(dwarfs_db(f, eff),
            "White Dwarf (DBV) Star"@),
        text::occurs(eff, "white dwarf dbz"@) ==> asks(dwarfs_db(f, eff),
            "White Dwarf (DBZ) Star"@),
        text::occurs(eff, "white dwarf db"@) && !text::occurs(eff, "white dwarf dbv"@)
            && !text::occurs(eff, "white dwarf dbz"@) ==> asks(dwarfs_db(f, eff),
            "White Dwarf (DB) Star"@),
        text::occurs(eff, "white dwarf dcv"@) ==> asks(dwarfs_db(f, eff),
            "White Dwarf (DCV) Star"@),
        text::occurs(eff, "white dwarf dc"@) && !text::occurs(eff, "white dwarf dcv"@)
            ==> asks(dwarfs_db(f, eff), "White Dwarf (DC) Star"@),
        asks_no_less(dwarfs_db(f, eff), f),
        all_fit(dwarfs_db(f, eff)),
        forall|k: Seq<char>| #[trigger]
            wants_kind(dwarfs_db(f, eff), k) ==> wants_kind(f, k) || named_by_dwarfs_db(eff, k),
        dwarfs_db(f, eff).any_dwarf == f.any_dwarf,
        dwarfs_db(f, eff).rayets == f.rayets,
        dwarfs_db(f, eff).dwarfs.len() == 0 <==> f.dwarfs.len() == 0 && !((text::occurs(eff,
            "white dwarf dbv"@)) || (text::occurs(eff, "white dwarf dbz"@)) || (text::occurs(eff,
            "white dwarf db"@) && !text::occurs(eff, "white dwarf dbv"@) && !text::occurs(eff,
            "white dwarf dbz"@)) || (text::occurs(eff, "white dwarf dcv"@)) || (text::occurs(eff,
            "white dwarf dc"@) && !text::occurs(eff, "white dwarf dcv"@))),
        dwarfs_db(f, eff).any_rayet == f.any_rayet,
{
    let f0 = f;
    lemma_itself(f);
    lemma_with_dwarf(f0, text::occurs(eff, "white dwarf dbv"@), "White Dwarf (DBV) Star"@);
    let f1 = with_dwarf(f0, text::occurs(eff, "white dwarf dbv"@), "White Dwarf (DBV) Star"@);
    lemma_stays(f1, f0);
    lemma_goes_on(f1, f0, f0);
    lemma_with_dwarf(f1, text::occurs(eff, "white dwarf dbz"@), "White Dwarf (DBZ) Star"@);
    let f2 = with_dwarf(f1, text::occurs(eff, "white dwarf dbz"@), "White Dwarf (DBZ) Star"@);
    lemma_stays(f2, f1);
    lemma_goes_on(f2, f1, f0);
    lemma_with_dwarf(f2, text::occurs(eff, "white dwarf db"@) && !text::occurs(eff,
        "white dwarf dbv"@) && !text::occurs(eff, "white dwarf dbz"@), "White Dwarf (DB) Star"@);
    let f3 = with_dwarf(f2, text::occurs(eff, "white dwarf db"@) && !text::occurs(eff,
        "white dwarf dbv"@) && !text::occurs(eff, "white dwarf dbz"@), "White Dwarf (DB) Star"@);
    lemma_stays(f3, f2);
    lemma_goes_on(f3, f2, f0);
    lemma_with_dwarf(f3, text::occurs(eff, "white dwarf dcv"@), "White Dwarf (DCV) Star"@);
    let f4 = with_dwarf(f3, text::occurs(eff, "white dwarf dcv"@), "White Dwarf (DCV) Star"@);
    lemma_stays(f4, f3);
    lemma_goes_on(f4, f3, f0);
    lemma_with_dwarf(f4, text::occurs(eff, "white dwarf dc"@) && !text::occurs(eff,
        "white dwarf dcv"@), "White Dwarf (DC) Star"@);
    let f5 = with_dwarf(f4, text::occurs(eff, "white dwarf dc"@) && !text::occurs(eff,
        "white dwarf dcv"@), "White Dwarf (DC) Star"@);
    lemma_stays(f5, f4);
    lemma_goes_on(f5, f4, f0);
}

/// Another kind of white dwarf that the text names.
pub open spec fn named_by_dwarfs_d(eff: Seq<char>, k: Seq<char>) -> bool {
    ||| text::occurs(eff, "white dwarf dq"@) && k == "White Dwarf (DQ) Star"@
    ||| text::occurs(eff, "white dwarf d"@) && !text::occurs(eff, "white dwarf da"@)
        && !text::occurs(eff, "white dwarf db"@) && !text::occurs(eff, "white dwarf dc"@)
        && !text::occurs(eff, "white dwarf dq"@) && k == "White Dwarf (D) Star"@
}

proof fn lemma_dwarfs_d(f: FilterView, eff: Seq<char>)
    requires
        all_fit(f),
    ensures
        text::occurs(eff, "white dwarf dq"@) ==> asks(dwarfs_d(f, eff), "White Dwarf (DQ) Star"@),
        text::occurs(eff, "white dwarf d"@) && !text::occurs(eff, "white dwarf da"@)
            && !text::occurs(eff, "white dwarf db"@) && !text::occurs(eff, "white dwarf dc"@)
            && !text::occurs(eff, "white dwarf dq"@) ==> asks(dwarfs_d(f, eff),
            "White Dwarf (D) Star"@),
        asks_no_less(dwarfs_d(f, eff), f),
        all_fit(dwarfs_d(f, eff)),
        forall|k: Seq<char>| #[trigger]
            wants_kind(dwarfs_d(f, eff), k) ==> wants_kind(f, k) || named_by_dwarfs_d(eff, k),
        dwarfs_d(f, eff).any_dwarf == f.any_dwarf,
        dwarfs_d(f, eff).rayets == f.rayets,
        dwarfs_d(f, eff).dwarfs.len() == 0 <==> f.dwarfs.len() == 0 && !((text::occurs(eff,
            "white dwarf dq"@)) || (text::occurs(eff, "white dwarf d"@) && !text::occurs(eff,
            "white dwarf da"@) && !text::occurs(eff, "white dwarf db"@) && !text::occurs(eff,
            "white dwarf dc"@) && !text::occurs(eff, "white dwarf dq"@))),
        dwarfs_d(f, eff).any_rayet == f.any_rayet,
{
    let f0 = f;
    lemma_itself(f);
    lemma_with_dwarf(f0, text::occurs(eff, "white dwarf dq"@), "White Dwarf (DQ) Star"@);
    let f1 = with_dwarf(f0, text::occurs(eff, "white dwarf dq"@), "White Dwarf (DQ) Star"@);
    lemma_stays(f1, f0);
    lemma_goes_on(f1, f0, f0);
    lemma_with_dwarf(f1, text::occurs(eff, "white dwarf d"@) && !text::occurs(eff,
        "white dwarf da"@) && !text::occurs(eff, "white dwarf db"@) && !text::occurs(eff,
        "white dwarf dc"@) && !text::occurs(eff, "white dwarf dq"@), "White Dwarf (D) Star"@);
    let f2 = with_dwarf(f1, text::occurs(eff, "white dwarf d"@) && !text::occurs(eff,
        "white dwarf da"@) && !text::occurs(eff, "white dwarf db"@) && !text::occurs(eff,
        "white dwarf dc"@) && !text::occurs(eff, "white dwarf dq"@), "White Dwarf (D) Star"@);
    lemma_stays(f2, f1);
    lemma_goes_on(f2, f1, f0);
}

/// A kind of Wolf-Rayet star that the text names.
pub open spec fn named_by_wolf_rayets(eff: Seq<char>, k: Seq<char>) -> bool {
    ||| text::occurs(eff, "wolf-rayet c"@) && !text::occurs(eff, "wolf-rayet nc"@) && k
        == "Wolf-Rayet C Star"@
    ||| text::occurs(eff, "wolf-rayet n"@) && !text::occurs(eff, "wolf-rayet nc"@) && k
        == "Wolf-Rayet N Star"@
    ||| text::occurs(eff, "wolf-rayet nc"@) && k == "Wolf-Rayet NC Star"@
    ||| text::occurs(eff, "wolf-rayet o"@) && k == "Wolf-Rayet O Star"@
}

proof fn lemma_wolf_rayets(f: FilterView, eff: Seq<char>)
    requires
        all_fit(f),
    ensures
        text::occurs(eff, "wolf-rayet c"@) && !text::occurs(eff, "wolf-rayet nc"@)
            ==> asks(wolf_rayets(f, eff), "Wolf-Rayet C Star"@),
        text::occurs(eff, "wolf-rayet n"@) && !text::occurs(eff, "wolf-rayet nc"@)
            ==> asks(wolf_rayets(f, eff), "Wolf-Rayet N Star"@),
        text::occurs(eff, "wolf-rayet nc"@) ==> asks(wolf_rayets(f, eff), "Wolf-Rayet NC Star"@),
        text::occurs(eff, "wolf-rayet o"@) ==> asks(wolf_rayets(f, eff), "Wolf-Rayet O Star"@),
        f.rayets.len() == 0 && text::occurs(eff, "wolf-rayet"@) && !names_rayets(eff)
            ==> wolf_rayets(f, eff).any_rayet
            && wolf_rayets(f,
                eff).reqs.contains(clause::part_text(system_with_like("Wolf-Rayet%"@))),
        asks_no_less(wolf_rayets(f, eff), f),
        all_fit(wolf_rayets(f, eff)),
        forall|k: Seq<char>| #[trigger]
            wants_kind(wolf_rayets(f, eff), k) ==> wants_kind(f, k) || named_by_wolf_rayets(eff, k),
        wolf_rayets(f, eff).any_dwarf == f.any_dwarf,
        wolf_rayets(f, eff).dwarfs == f.dwarfs,
        f.rayets.len() == 0 && !f.any_rayet ==> (wolf_rayets(f, eff).any_rayet <==> text::occurs(
            eff,
            "wolf-rayet"@,
        ) && !names_rayets(eff)),
{
    let f0 = f;
    lemma_itself(f);
    lemma_with_rayet(f0, text::occurs(eff, "wolf-rayet c"@) && !text::occurs(eff, "wolf-rayet nc"@),
        "Wolf-Rayet C Star"@);
    let f1 = with_rayet(f0, text::occurs(eff, "wolf-rayet c"@) && !text::occurs(eff,
        "wolf-rayet nc"@), "Wolf-Rayet C Star"@);
    lemma_stays(f1, f0);
    lemma_goes_on(f1, f0, f0);
    lemma_with_rayet(f1, text::occurs(eff, "wolf-rayet n"@) && !text::occurs(eff, "wolf-rayet nc"@),
        "Wolf-Rayet N Star"@);
    let f2 = with_rayet(f1, text::occurs(eff, "wolf-rayet n"@) && !text::occurs(eff,
        "wolf-rayet nc"@), "Wolf-Rayet N Star"@);
    lemma_stays(f2, f1);
    lemma_goes_on(f2, f1, f0);
    lemma_with_rayet(f2, text::occurs(eff, "wolf-rayet nc"@), "Wolf-Rayet NC Star"@);
    let f3 = with_rayet(f2, text::occurs(eff, "wolf-rayet nc"@), "Wolf-Rayet NC Star"@);
    lemma_stays(f3, f2);
    lemma_goes_on(f3, f2, f0);
    lemma_with_rayet(f3, text::occurs(eff, "wolf-rayet o"@), "Wolf-Rayet O Star"@);
    let f4 = with_rayet(f3, text::occurs(eff, "wolf-rayet o"@), "Wolf-Rayet O Star"@);
    lemma_stays(f4, f3);
    lemma_goes_on(f4, f3, f0);
    lemma_system_like();
    if text::occurs(eff, "wolf-rayet"@) && f4.rayets.len() == 0 {
        let g = FilterView { any_rayet: true, ..f4 };
        lemma_with_any(f4, g, system_has("LIKE 'Wolf-Rayet%'"@));
        lemma_stays(required(g, system_has("LIKE 'Wolf-Rayet%'"@)), f4);
        lemma_goes_on(required(g, system_has("LIKE 'Wolf-Rayet%'"@)), f4, f0);
    }
}

/// A class of the main sequence that the text names.
pub open spec fn named_by_main_sequence(eff: Seq<char>, any_dwarf: bool, k: Seq<char>) -> bool {
    ||| text::occurs(eff, "o star"@) && k == "O (Blue-White) Star"@
    ||| text::occurs(eff, "b star"@) && k == "B (Blue-White) Star"@
    ||| text::occurs(eff, "b star"@) && k == "B (Blue-White super giant) Star"@
    ||| text::occurs(eff, "a star"@) && k == "A (Blue-White) Star"@
    ||| text::occurs(eff, "a star"@) && k == "A (Blue-White super giant) Star"@
    ||| asks_for_f(eff, any_dwarf) && k == "F (White) Star"@
    ||| asks_for_f(eff, any_dwarf) && k == "F (White super giant) Star"@
    ||| text::occurs(eff, "g star"@) && k == "G (White-Yellow) Star"@
    ||| text::occurs(eff, "g star"@) && k == "G (White-Yellow super giant) Star"@
    ||| text::occurs(eff, "k star"@) && k == "K (Yellow-Orange) Star"@
    ||| text::occurs(eff, "k star"@) && k == "K (Yellow-Orange giant) Star"@
    ||| text::occurs(eff, "m star"@) && k == "M (Red dwarf) Star"@
    ||| text::occurs(eff, "m star"@) && k == "M (Red giant) Star"@
    ||| text::occurs(eff, "m star"@) && k == "M (Red super giant) Star"@
}

proof fn lemma_main_joins(
    f: FilterView,
    eff: Seq<char>,
    f1: FilterView,
    a: Seq<bool>,
    ks: Seq<(Seq<char>, Seq<char>)>,
)
    requires
        f1 == with_class(f, text::occurs(eff, "o star"@), "O (Blue-White) Star"@),
        a == seq![
            text::occurs(eff, "b star"@),
            text::occurs(eff, "a star"@),
            asks_for_f(eff, f.any_dwarf),
            text::occurs(eff, "g star"@),
            text::occurs(eff, "k star"@),
        ],
        ks == seq![
            ("B (Blue-White) Star"@, "B (Blue-White super giant) Star"@),
            ("A (Blue-White) Star"@, "A (Blue-White super giant) Star"@),
            ("F (White) Star"@, "F (White super giant) Star"@),
            ("G (White-Yellow) Star"@, "G (White-Yellow super giant) Star"@),
            ("K (Yellow-Orange) Star"@, "K (Yellow-Orange giant) Star"@),
        ],
    ensures
        text::occurs(eff, "m star"@) ==> main_sequence(f, eff) == required(
            FilterView {
                classes: all_pairs(f1, a, ks, 5).classes.push("M (Red dwarf) Star"@).push(
                    "M (Red giant) Star"@,
                ).push("M (Red super giant) Star"@),
                ..all_pairs(f1, a, ks, 5)
            },
            system_has(
                "IN ('M (Red dwarf) Star', 'M (Red giant) Star', 'M (Red super giant) Star')"@,
            ),
        ),
        !text::occurs(eff, "m star"@) ==> main_sequence(f, eff) == all_pairs(f1, a, ks, 5),
{
    reveal_with_fuel(all_pairs, 6);
    assert(f1.any_dwarf == f.any_dwarf) by {
        reveal(with_class);
    }
    lemma_pair_keeps(f1, a[0], ks[0].0, ks[0].1);
    lemma_pair_keeps(all_pairs(f1, a, ks, 1), a[1], ks[1].0, ks[1].1);
}

proof fn lemma_pair_keeps(f: FilterView, asked: bool, a: Seq<char>, b: Seq<char>)
    ensures
        with_class_pair(f, asked, a, b).any_dwarf == f.any_dwarf,
{
    reveal(with_class_pair);
}

proof fn lemma_main_sequence(f: FilterView, eff: Seq<char>)
    requires
        all_fit(f),
    ensures
        text::occurs(eff, "o star"@) ==> asks(main_sequence(f, eff), "O (Blue-White) Star"@),
        text::occurs(eff, "b star"@) ==> asks_one(main_sequence(f, eff),
            seq!["B (Blue-White) Star"@, "B (Blue-White super giant) Star"@]),
        text::occurs(eff, "a star"@) ==> asks_one(main_sequence(f, eff),
            seq!["A (Blue-White) Star"@, "A (Blue-White super giant) Star"@]),
        asks_for_f(eff, f.any_dwarf) ==> asks_one(main_sequence(f, eff), seq!["F (White) Star"@,
            "F (White super giant) Star"@]),
        text::occurs(eff, "g star"@) ==> asks_one(main_sequence(f, eff),
            seq!["G (White-Yellow) Star"@, "G (White-Yellow super giant) Star"@]),
        text::occurs(eff, "k star"@) ==> asks_one(main_sequence(f, eff),
            seq!["K (Yellow-Orange) Star"@, "K (Yellow-Orange giant) Star"@]),
        text::occurs(eff, "m star"@) ==> asks_one(
            main_sequence(f, eff),
            seq!["M (Red dwarf) Star"@, "M (Red giant) Star"@, "M (Red super giant) Star"@],
        ),
        asks_no_less(main_sequence(f, eff), f),
        all_fit(main_sequence(f, eff)),
        forall|k: Seq<char>| #[trigger]
            wants_kind(main_sequence(f, eff), k) ==> wants_kind(f, k) || named_by_main_sequence(eff,
                f.any_dwarf, k),
        main_sequence(f, eff).any_dwarf == f.any_dwarf,
        main_sequence(f, eff).dwarfs == f.dwarfs,
        main_sequence(f, eff).rayets == f.rayets,
        main_sequence(f, eff).any_rayet == f.any_rayet,
{
    lemma_with_class(f, text::occurs(eff, "o star"@), "O (Blue-White) Star"@);
    let f1 = with_class(f, text::occurs(eff, "o star"@), "O (Blue-White) Star"@);
    let a = seq![
        text::occurs(eff, "b star"@),
        text::occurs(eff, "a star"@),
        asks_for_f(eff, f.any_dwarf),
        text::occurs(eff, "g star"@),
        text::occurs(eff, "k star"@),
    ];
    let ks = seq![
        ("B (Blue-White) Star"@, "B (Blue-White super giant) Star"@),
        ("A (Blue-White) Star"@, "A (Blue-White super giant) Star"@),
        ("F (White) Star"@, "F (White super giant) Star"@),
        ("G (White-Yellow) Star"@, "G (White-Yellow super giant) Star"@),
        ("K (Yellow-Orange) Star"@, "K (Yellow-Orange giant) Star"@),
    ];
    lemma_all_pairs(f1, a, ks, 5);
    let f2 = all_pairs(f1, a, ks, 5);
    lemma_stays(f2, f1);
    lemma_goes_on(f2, f1, f);
    assert(a[0] ==> asks_one(f2, seq![ks[0].0, ks[0].1]));
    assert(a[1] ==> asks_one(f2, seq![ks[1].0, ks[1].1]));
    assert(a[2] ==> asks_one(f2, seq![ks[2].0, ks[2].1]));
    assert(a[3] ==> asks_one(f2, seq![ks[3].0, ks[3].1]));
    assert(a[4] ==> asks_one(f2, seq![ks[4].0, ks[4].1]));
    lemma_main_joins(f, eff, f1, a, ks);
    lemma_system_three();
    let req = system_has(
        "IN ('M (Red dwarf) Star', 'M (Red giant) Star', 'M (Red super giant) Star')"@,
    );
    let r = main_sequence(f, eff);
    if text::occurs(eff, "m star"@) {
        lemma_with_three(
            f2,
            "M (Red dwarf) Star"@,
            "M (Red giant) Star"@,
            "M (Red super giant) Star"@,
            req,
        );
        lemma_stays(r, f2);
        lemma_goes_on(r, f2, f);
    }
    assert forall|k: Seq<char>| #[trigger] wants_kind(r, k) implies wants_kind(f, k)
        || named_by_main_sequence(eff, f.any_dwarf, k) by {
        if !(text::occurs(eff, "m star"@) && (k == "M (Red dwarf) Star"@ || k
            == "M (Red giant) Star"@ || k == "M (Red super giant) Star"@)) {
            assert(wants_kind(f2, k));
            if !wants_kind(f1, k) {
                let i = choose|i: int|
                    0 <= i < 5 && a[i] && ((#[trigger] ks[i]).0 == k || ks[i].1 == k);
                assert(i == 0 || i == 1 || i == 2 || i == 3 || i == 4);
            }
        }
    }
}

/// Another class of stars that the text names.
pub open spec fn named_by_other_stars(eff: Seq<char>, k: Seq<char>) -> bool {
    ||| text::occurs(eff, "l dwarf"@) && k == "L (Brown dwarf) Star"@
    ||| text::occurs(eff, "t dwarf"@) && k == "T (Brown dwarf) Star"@
    ||| text::occurs(eff, "y dwarf"@) && k == "Y (Brown dwarf) Star"@
    ||| text::occurs(eff, "t tauri"@) && k == "T Tauri Star"@
    ||| text::occurs(eff, "herbig"@) && k == "Herbig Ae/Be Star"@
    ||| text::occurs(eff, "c star type"@) && k == "C Star"@
    ||| text::occurs(eff, "cj star type"@) && k == "CJ Star"@
    ||| text::occurs(eff, "cn star type"@) && k == "CN Star"@
    ||| text::occurs(eff, "ms star type"@) && k == "MS-type Star"@
    ||| text::occurs(eff, "s star type"@) && k == "S-type Star"@
}

proof fn lemma_other_stars(f: FilterView, eff: Seq<char>)
    requires
        all_fit(f),
    ensures
        text::occurs(eff, "l dwarf"@) ==> asks(other_stars(f, eff), "L (Brown dwarf) Star"@),
        text::occurs(eff, "t dwarf"@) ==> asks(other_stars(f, eff), "T (Brown dwarf) Star"@),
        text::occurs(eff, "y dwarf"@) ==> asks(other_stars(f, eff), "Y (Brown dwarf) Star"@),
        text::occurs(eff, "t tauri"@) ==> asks(other_stars(f, eff), "T Tauri Star"@),
        text::occurs(eff, "herbig"@) ==> asks(other_stars(f, eff), "Herbig Ae/Be Star"@),
        text::occurs(eff, "c star type"@) ==> asks(other_stars(f, eff), "C Star"@),
        text::occurs(eff, "cj star type"@) ==> asks(other_stars(f, eff), "CJ Star"@),
        text::occurs(eff, "cn star type"@) ==> asks(other_stars(f, eff), "CN Star"@),
        text::occurs(eff, "ms star type"@) ==> asks(other_stars(f, eff), "MS-type Star"@),
        text::occurs(eff, "s star type"@) ==> asks(other_stars(f, eff), "S-type Star"@),
        asks_no_less(other_stars(f, eff), f),
        all_fit(other_stars(f, eff)),
        forall|k: Seq<char>| #[trigger]
            wants_kind(other_stars(f, eff), k) ==> wants_kind(f, k) || named_by_other_stars(eff, k),
        other_stars(f, eff).any_dwarf == f.any_dwarf,
        other_stars(f, eff).dwarfs == f.dwarfs,
        other_stars(f, eff).rayets == f.rayets,
        other_stars(f, eff).any_rayet == f.any_rayet,
{
    let a = seq![
        text::occurs(eff, "l dwarf"@),
        text::occurs(eff, "t dwarf"@),
        text::occurs(eff, "y dwarf"@),
        text::occurs(eff, "t tauri"@),
        text::occurs(eff, "herbig"@),
        text::occurs(eff, "c star type"@),
        text::occurs(eff, "cj star type"@),
        text::occurs(eff, "cn star type"@),
        text::occurs(eff, "ms star type"@),
        text::occurs(eff, "s star type"@),
    ];
    let ks = seq![
        "L (Brown dwarf) Star"@,
        "T (Brown dwarf) Star"@,
        "Y (Brown dwarf) Star"@,
        "T Tauri Star"@,
        "Herbig Ae/Be Star"@,
        "C Star"@,
        "CJ Star"@,
        "CN Star"@,
        "MS-type Star"@,
        "S-type Star"@,
    ];
    lemma_all_classes(f, a, ks, 10);
    let r = all_classes(f, a, ks, 10);
    assert(other_stars(f, eff) == r) by {
        reveal_with_fuel(all_classes, 11);
    }
    assert(a[0] ==> asks(r, ks[0]));
    assert(a[1] ==> asks(r, ks[1]));
    assert(a[2] ==> asks(r, ks[2]));
    assert(a[3] ==> asks(r, ks[3]));
    assert(a[4] ==> asks(r, ks[4]));
    assert(a[5] ==> asks(r, ks[5]));
    assert(a[6] ==> asks(r, ks[6]));
    assert(a[7] ==> asks(r, ks[7]));
    assert(a[8] ==> asks(r, ks[8]));
    assert(a[9] ==> asks(r, ks[9]));
    assert forall|k: Seq<char>| #[trigger] wants_kind(r, k) implies wants_kind(f, k)
        || named_by_other_stars(eff, k) by {
        if !wants_kind(f, k) {
            let i = choose|i: int| 0 <= i < 10 && a[i] && #[trigger] ks[i] == k;
            assert(i == 0 || i == 1 || i == 2 || i == 3 || i == 4 || i == 5 || i == 6 || i == 7 || i
                == 8 || i == 9);
        }
    }
}

/// The text names a kind of Wolf-Rayet stars.
pub open spec fn names_rayets(eff: Seq<char>) -> bool {
    ||| text::occurs(eff, "wolf-rayet c"@) && !text::occurs(eff, "wolf-rayet nc"@)
    ||| text::occurs(eff, "wolf-rayet n"@) && !text::occurs(eff, "wolf-rayet nc"@)
    ||| text::occurs(eff, "wolf-rayet nc"@)
    ||| text::occurs(eff, "wolf-rayet o"@)
}

/// The text names a kind of white dwarfs.
pub open spec fn names_dwarfs(eff: Seq<char>) -> bool {
    ||| text::occurs(eff, "white dwarf dab"@)
    ||| text::occurs(eff, "white dwarf dav"@)
    ||| text::occurs(eff, "white dwarf daz"@)
    ||| text::occurs(eff, "white dwarf da"@) && !text::occurs(eff, "white dwarf dab"@)
        && !text::occurs(eff, "white dwarf dav"@) && !text::occurs(eff, "white dwarf daz"@)
    ||| text::occurs(eff, "white dwarf dbv"@)
    ||| text::occurs(eff, "white dwarf dbz"@)
    ||| text::occurs(eff, "white dwarf db"@) && !text::occurs(eff, "white dwarf dbv"@)
        && !text::occurs(eff, "white dwarf dbz"@)
    ||| text::occurs(eff, "white dwarf dcv"@)
    ||| text::occurs(eff, "white dwarf dc"@) && !text::occurs(eff, "white dwarf dcv"@)
    ||| text::occurs(eff, "white dwarf dq"@)
    ||| text::occurs(eff, "white dwarf d"@) && !text::occurs(eff, "white dwarf da"@)
        && !text::occurs(eff, "white dwarf db"@) && !text::occurs(eff, "white dwarf dc"@)
        && !text::occurs(eff, "white dwarf dq"@)
}

proof fn lemma_white_dwarfs(f: FilterView, eff: Seq<char>)
    requires
        all_fit(f),
        f.dwarfs.len() == 0,
        !f.any_dwarf,
    ensures
        text::occurs(eff, "white dwarf dab"@) ==> asks(white_dwarfs(f, eff),
            "White Dwarf (DAB) Star"@),
        text::occurs(eff, "white dwarf dav"@) ==> asks(white_dwarfs(f, eff),
            "White Dwarf (DAV) Star"@),
        text::occurs(eff, "white dwarf daz"@) ==> asks(white_dwarfs(f, eff),
            "White Dwarf (DAZ) Star"@),
        text::occurs(eff, "white dwarf da"@) && !text::occurs(eff, "white dwarf dab"@)
            && !text::occurs(eff, "white dwarf dav"@) && !text::occurs(eff, "white dwarf daz"@)
            ==> asks(white_dwarfs(f, eff), "White Dwarf (DA) Star"@),
        text::occurs(eff, "white dwarf dbv"@) ==> asks(white_dwarfs(f, eff),
            "White Dwarf (DBV) Star"@),
        text::occurs(eff, "white dwarf dbz"@) ==> asks(white_dwarfs(f, eff),
            "White Dwarf (DBZ) Star"@),
        text::occurs(eff, "white dwarf db"@) && !text::occurs(eff, "white dwarf dbv"@)
            && !text::occurs(eff, "white dwarf dbz"@) ==> asks(white_dwarfs(f, eff),
            "White Dwarf (DB) Star"@),
        text::occurs(eff, "white dwarf dcv"@) ==> asks(white_dwarfs(f, eff),
            "White Dwarf (DCV) Star"@),
        text::occurs(eff, "white dwarf dc"@) && !text::occurs(eff, "white dwarf dcv"@)
            ==> asks(white_dwarfs(f, eff), "White Dwarf (DC) Star"@),
        text::occurs(eff, "white dwarf dq"@) ==> asks(white_dwarfs(f, eff),
            "White Dwarf (DQ) Star"@),
        text::occurs(eff, "white dwarf d"@) && !text::occurs(eff, "white dwarf da"@)
            && !text::occurs(eff, "white dwarf db"@) && !text::occurs(eff, "white dwarf dc"@)
            && !text::occurs(eff, "white dwarf dq"@) ==> asks(white_dwarfs(f, eff),
            "White Dwarf (D) Star"@),
        white_dwarfs(f, eff).any_dwarf <==> text::occurs(eff, "white dwarf"@) && !names_dwarfs(eff),
        white_dwarfs(f, eff).any_dwarf ==> white_dwarfs(f, eff).reqs.contains(
            clause::part_text(system_with_like("White Dwarf%"@)),
        ),
        asks_no_less(white_dwarfs(f, eff), f),
        all_fit(white_dwarfs(f, eff)),
        forall|k: Seq<char>| #[trigger]
            wants_kind(white_dwarfs(f, eff), k) ==> wants_kind(f, k) || named_by_dwarfs_da(eff, k)
                || named_by_dwarfs_db(eff, k) || named_by_dwarfs_d(eff, k),
        white_dwarfs(f, eff).any_rayet == f.any_rayet,
        white_dwarfs(f, eff).rayets == f.rayets,
{
    lemma_dwarfs_da(f, eff);
    let f1 = dwarfs_da(f, eff);
    lemma_dwarfs_db(f1, eff);
    let f2 = dwarfs_db(f1, eff);
    lemma_stays(f2, f1);
    lemma_goes_on(f2, f1, f);
    lemma_dwarfs_d(f2, eff);
    let f3 = dwarfs_d(f2, eff);
    lemma_stays(f3, f2);
    lemma_goes_on(f3, f2, f);
    lemma_system_like();
    if text::occurs(eff, "white dwarf"@) && f3.dwarfs.len() == 0 {
        let g = FilterView { any_dwarf: true, ..f3 };
        lemma_with_any(f3, g, system_has("LIKE 'White Dwarf%'"@));
        lemma_stays(required(g, system_has("LIKE 'White Dwarf%'"@)), f3);
        lemma_goes_on(required(g, system_has("LIKE 'White Dwarf%'"@)), f3, f);
    }
}

/// Each kind of terrestrial planet is asked for by its own words, of the body
/// and of the bodies of its system.
pub proof fn law_words_name_terrestrial_planets(eff: Seq<char>)
    ensures
        text::occurs(eff, "earth-like"@) ==> asks(asked_for(eff), "Earth-like world"@),
        text::occurs(eff, "water world"@) ==> asks(asked_for(eff), "Water world"@),
        text::occurs(eff, "ammonia world"@) ==> asks(asked_for(eff), "Ammonia world"@),
        text::occurs(eff, "high metal content"@) ==> asks(asked_for(eff),
            "High metal content world"@),
        text::occurs(eff, "metal-rich body"@) ==> asks(asked_for(eff), "Metal-rich body"@),
        text::occurs(eff, "rocky body"@) ==> asks(asked_for(eff), "Rocky body"@),
        text::occurs(eff, "rocky ice world"@) ==> asks(asked_for(eff), "Rocky Ice world"@),
        text::occurs(eff, "icy body"@) ==> asks(asked_for(eff), "Icy body"@),
{
    let f0 = no_filter();
    assert(all_fit(f0)) by {
        reveal(all_fit);
    }
    lemma_terrestrial(f0, eff);
    let f1 = terrestrial(f0, eff);
    lemma_stays(f1, f0);
    lemma_gas_giants(f1, eff);
    let f2 = gas_giants(f1, eff);
    lemma_stays(f2, f1);
    lemma_compact(f2, eff);
    let f3 = compact(f2, eff);
    lemma_stays(f3, f2);
    lemma_white_dwarfs(f3, eff);
    let f4 = white_dwarfs(f3, eff);
    lemma_stays(f4, f3);
    lemma_wolf_rayets(f4, eff);
    let f5 = wolf_rayets(f4, eff);
    lemma_stays(f5, f4);
    lemma_main_sequence(f5, eff);
    let f6 = main_sequence(f5, eff);
    lemma_stays(f6, f5);
    lemma_other_stars(f6, eff);
    let f7 = other_stars(f6, eff);
    lemma_stays(f7, f6);
    let r = asked_for(eff);
    assert(forall|q: Seq<char>| #[trigger] f4.reqs.contains(q) ==> r.reqs.contains(q)) by {
        reveal(asks_no_less);
    }
    assert(forall|q: Seq<char>| #[trigger] f5.reqs.contains(q) ==> r.reqs.contains(q)) by {
        reveal(asks_no_less);
    }
    assert(r == properties(f7, eff));
    assert(asks_no_less(r, f7)) by {
        reveal(asks_no_less);
        reveal(wants_kind);
    }
    lemma_stays(r, f7);
}

/// Each kind of gas giant is asked for by its own words; a helium-rich one is
/// no helium one.
pub proof fn law_words_name_gas_giants(eff: Seq<char>)
    ensures
        text::occurs(eff, "class i gas giant"@) ==> asks(asked_for(eff), "Class I gas giant"@),
        text::occurs(eff, "class ii gas giant"@) ==> asks(asked_for(eff), "Class II gas giant"@),
        text::occurs(eff, "class iii gas giant"@) ==> asks(asked_for(eff), "Class III gas giant"@),
        text::occurs(eff, "class iv gas giant"@) ==> asks(asked_for(eff), "Class IV gas giant"@),
        text::occurs(eff, "class v gas giant"@) ==> asks(asked_for(eff), "Class V gas giant"@),
        text::occurs(eff, "water-based life giant"@) ==> asks(asked_for(eff),
            "Gas giant with water-based life"@),
        text::occurs(eff, "ammonia-based life giant"@) ==> asks(asked_for(eff),
            "Gas giant with ammonia-based life"@),
        text::occurs(eff, "helium-rich gas giant"@) ==> asks(asked_for(eff),
            "Helium-rich gas giant"@),
        !text::occurs(eff, "helium-rich gas giant"@) && text::occurs(eff, "helium gas giant"@)
            ==> asks(asked_for(eff), "Helium gas giant"@),
        text::occurs(eff, "water giant"@) ==> asks(asked_for(eff), "Water giant"@),
{
    let f0 = no_filter();
    assert(all_fit(f0)) by {
        reveal(all_fit);
    }
    lemma_terrestrial(f0, eff);
    let f1 = terrestrial(f0, eff);
    lemma_stays(f1, f0);
    lemma_gas_giants(f1, eff);
    let f2 = gas_giants(f1, eff);
    lemma_stays(f2, f1);
    lemma_compact(f2, eff);
    let f3 = compact(f2, eff);
    lemma_stays(f3, f2);
    lemma_white_dwarfs(f3, eff);
    let f4 = white_dwarfs(f3, eff);
    lemma_stays(f4, f3);
    lemma_wolf_rayets(f4, eff);
    let f5 = wolf_rayets(f4, eff);
    lemma_stays(f5, f4);
    lemma_main_sequence(f5, eff);
    let f6 = main_sequence(f5, eff);
    lemma_stays(f6, f5);
    lemma_other_stars(f6, eff);
    let f7 = other_stars(f6, eff);
    lemma_stays(f7, f6);
    let r = asked_for(eff);
    assert(forall|q: Seq<char>| #[trigger] f4.reqs.contains(q) ==> r.reqs.contains(q)) by {
        reveal(asks_no_less);
    }
    assert(forall|q: Seq<char>| #[trigger] f5.reqs.contains(q) ==> r.reqs.contains(q)) by {
        reveal(asks_no_less);
    }
    assert(r == properties(f7, eff));
    assert(asks_no_less(r, f7)) by {
        reveal(asks_no_less);
        reveal(wants_kind);
    }
    lemma_stays(r, f7);
}

/// Each kind of compact object is asked for by its own words; a supermassive
/// black hole is no other.
pub proof fn law_words_name_compact_objects(eff: Seq<char>)
    ensures
        text::occurs(eff, "neutron star"@) ==> asks(asked_for(eff), "Neutron Star"@),
        text::occurs(eff, "supermassive black hole"@) ==> asks(asked_for(eff),
            "Supermassive Black Hole"@),
        !text::occurs(eff, "supermassive black hole"@) && text::occurs(eff, "black hole"@)
            ==> asks(asked_for(eff), "Black Hole"@),
{
    let f0 = no_filter();
    assert(all_fit(f0)) by {
        reveal(all_fit);
    }
    lemma_terrestrial(f0, eff);
    let f1 = terrestrial(f0, eff);
    lemma_stays(f1, f0);
    lemma_gas_giants(f1, eff);
    let f2 = gas_giants(f1, eff);
    lemma_stays(f2, f1);
    lemma_compact(f2, eff);
    let f3 = compact(f2, eff);
    lemma_stays(f3, f2);
    lemma_white_dwarfs(f3, eff);
    let f4 = white_dwarfs(f3, eff);
    lemma_stays(f4, f3);
    lemma_wolf_rayets(f4, eff);
    let f5 = wolf_rayets(f4, eff);
    lemma_stays(f5, f4);
    lemma_main_sequence(f5, eff);
    let f6 = main_sequence(f5, eff);
    lemma_stays(f6, f5);
    lemma_other_stars(f6, eff);
    let f7 = other_stars(f6, eff);
    lemma_stays(f7, f6);
    let r = asked_for(eff);
    assert(forall|q: Seq<char>| #[trigger] f4.reqs.contains(q) ==> r.reqs.contains(q)) by {
        reveal(asks_no_less);
    }
    assert(forall|q: Seq<char>| #[trigger] f5.reqs.contains(q) ==> r.reqs.contains(q)) by {
        reveal(asks_no_less);
    }
    assert(r == properties(f7, eff));
    assert(asks_no_less(r, f7)) by {
        reveal(asks_no_less);
        reveal(wants_kind);
    }
    lemma_stays(r, f7);
}

/// Each kind of white dwarf is asked for by its own words; where no kind is
/// named, all are asked for.
pub proof fn law_words_name_white_dwarfs(eff: Seq<char>)
    ensures
        text::occurs(eff, "white dwarf dab"@) ==> asks(asked_for(eff), "White Dwarf (DAB) Star"@),
        text::occurs(eff, "white dwarf dav"@) ==> asks(asked_for(eff), "White Dwarf (DAV) Star"@),
        text::occurs(eff, "white dwarf daz"@) ==> asks(asked_for(eff), "White Dwarf (DAZ) Star"@),
        text::occurs(eff, "white dwarf da"@) && !text::occurs(eff, "white dwarf dab"@)
            && !text::occurs(eff, "white dwarf dav"@) && !text::occurs(eff, "white dwarf daz"@)
            ==> asks(asked_for(eff), "White Dwarf (DA) Star"@),
        text::occurs(eff, "white dwarf dbv"@) ==> asks(asked_for(eff), "White Dwarf (DBV) Star"@),
        text::occurs(eff, "white dwarf dbz"@) ==> asks(asked_for(eff), "White Dwarf (DBZ) Star"@),
        text::occurs(eff, "white dwarf db"@) && !text::occurs(eff, "white dwarf dbv"@)
            && !text::occurs(eff, "white dwarf dbz"@) ==> asks(asked_for(eff),
            "White Dwarf (DB) Star"@),
        text::occurs(eff, "white dwarf dcv"@) ==> asks(asked_for(eff), "White Dwarf (DCV) Star"@),
        text::occurs(eff, "white dwarf dc"@) && !text::occurs(eff, "white dwarf dcv"@)
            ==> asks(asked_for(eff), "White Dwarf (DC) Star"@),
        text::occurs(eff, "white dwarf dq"@) ==> asks(asked_for(eff), "White Dwarf (DQ) Star"@),
        text::occurs(eff, "white dwarf d"@) && !text::occurs(eff, "white dwarf da"@)
            && !text::occurs(eff, "white dwarf db"@) && !text::occurs(eff, "white dwarf dc"@)
            && !text::occurs(eff, "white dwarf dq"@) ==> asks(asked_for(eff),
            "White Dwarf (D) Star"@),
        asked_for(eff).any_dwarf <==> text::occurs(eff, "white dwarf"@) && !names_dwarfs(eff),
        asked_for(eff).any_dwarf ==> asked_for(eff).reqs.contains(
            clause::part_text(system_with_like("White Dwarf%"@)),
        ),
{
    let f0 = no_filter();
    assert(all_fit(f0)) by {
        reveal(all_fit);
    }
    lemma_terrestrial(f0, eff);
    let f1 = terrestrial(f0, eff);
    lemma_stays(f1, f0);
    lemma_gas_giants(f1, eff);
    let f2 = gas_giants(f1, eff);
    lemma_stays(f2, f1);
    lemma_compact(f2, eff);
    let f3 = compact(f2, eff);
    lemma_stays(f3, f2);
    lemma_white_dwarfs(f3, eff);
    let f4 = white_dwarfs(f3, eff);
    lemma_stays(f4, f3);
    lemma_wolf_rayets(f4, eff);
    let f5 = wolf_rayets(f4, eff);
    lemma_stays(f5, f4);
    lemma_main_sequence(f5, eff);
    let f6 = main_sequence(f5, eff);
    lemma_stays(f6, f5);
    lemma_other_stars(f6, eff);
    let f7 = other_stars(f6, eff);
    lemma_stays(f7, f6);
    let r = asked_for(eff);
    assert(forall|q: Seq<char>| #[trigger] f4.reqs.contains(q) ==> r.reqs.contains(q)) by {
        reveal(asks_no_less);
    }
    assert(forall|q: Seq<char>| #[trigger] f5.reqs.contains(q) ==> r.reqs.contains(q)) by {
        reveal(asks_no_less);
    }
    assert(r == properties(f7, eff));
    assert(asks_no_less(r, f7)) by {
        reveal(asks_no_less);
        reveal(wants_kind);
    }
    lemma_stays(r, f7);
}

/// Each kind of Wolf-Rayet star is asked for by its own words; where no kind is
/// named, all are asked for.
pub proof fn law_words_name_wolf_rayets(eff: Seq<char>)
    ensures
        text::occurs(eff, "wolf-rayet c"@) && !text::occurs(eff, "wolf-rayet nc"@)
            ==> asks(asked_for(eff), "Wolf-Rayet C Star"@),
        text::occurs(eff, "wolf-rayet n"@) && !text::occurs(eff, "wolf-rayet nc"@)
            ==> asks(asked_for(eff), "Wolf-Rayet N Star"@),
        text::occurs(eff, "wolf-rayet nc"@) ==> asks(asked_for(eff), "Wolf-Rayet NC Star"@),
        text::occurs(eff, "wolf-rayet o"@) ==> asks(asked_for(eff), "Wolf-Rayet O Star"@),
        asked_for(eff).any_rayet <==> text::occurs(eff, "wolf-rayet"@) && !names_rayets(eff),
        asked_for(eff).any_rayet ==> asked_for(eff).reqs.contains(
            clause::part_text(system_with_like("Wolf-Rayet%"@)),
        ),
{
    let f0 = no_filter();
    assert(all_fit(f0)) by {
        reveal(all_fit);
    }
    lemma_terrestrial(f0, eff);
    let f1 = terrestrial(f0, eff);
    lemma_stays(f1, f0);
    lemma_gas_giants(f1, eff);
    let f2 = gas_giants(f1, eff);
    lemma_stays(f2, f1);
    lemma_compact(f2, eff);
    let f3 = compact(f2, eff);
    lemma_stays(f3, f2);
    lemma_white_dwarfs(f3, eff);
    let f4 = white_dwarfs(f3, eff);
    lemma_stays(f4, f3);
    lemma_wolf_rayets(f4, eff);
    let f5 = wolf_rayets(f4, eff);
    lemma_stays(f5, f4);
    lemma_main_sequence(f5, eff);
    let f6 = main_sequence(f5, eff);
    lemma_stays(f6, f5);
    lemma_other_stars(f6, eff);
    let f7 = other_stars(f6, eff);
    lemma_stays(f7, f6);
    let r = asked_for(eff);
    assert(forall|q: Seq<char>| #[trigger] f4.reqs.contains(q) ==> r.reqs.contains(q)) by {
        reveal(asks_no_less);
    }
    assert(forall|q: Seq<char>| #[trigger] f5.reqs.contains(q) ==> r.reqs.contains(q)) by {
        reveal(asks_no_less);
    }
    assert(r == properties(f7, eff));
    assert(asks_no_less(r, f7)) by {
        reveal(asks_no_less);
        reveal(wants_kind);
    }
    lemma_stays(r, f7);
}

/// Each class of the main sequence is asked for by its letter, with its giants.
pub proof fn law_words_name_the_main_sequence(eff: Seq<char>)
    ensures
        text::occurs(eff, "o star"@) ==> asks(asked_for(eff), "O (Blue-White) Star"@),
        text::occurs(eff, "b star"@) ==> asks_one(asked_for(eff), seq!["B (Blue-White) Star"@,
            "B (Blue-White super giant) Star"@]),
        text::occurs(eff, "a star"@) ==> asks_one(asked_for(eff), seq!["A (Blue-White) Star"@,
            "A (Blue-White super giant) Star"@]),
        asks_for_f(eff, asked_for(eff).any_dwarf) ==> asks_one(asked_for(eff),
            seq!["F (White) Star"@, "F (White super giant) Star"@]),
        text::occurs(eff, "g star"@) ==> asks_one(asked_for(eff), seq!["G (White-Yellow) Star"@,
            "G (White-Yellow super giant) Star"@]),
        text::occurs(eff, "k star"@) ==> asks_one(asked_for(eff), seq!["K (Yellow-Orange) Star"@,
            "K (Yellow-Orange giant) Star"@]),
        text::occurs(eff, "m star"@) ==> asks_one(
            asked_for(eff),
            seq!["M (Red dwarf) Star"@, "M (Red giant) Star"@, "M (Red super giant) Star"@],
        ),
{
    let f0 = no_filter();
    assert(all_fit(f0)) by {
        reveal(all_fit);
    }
    lemma_terrestrial(f0, eff);
    let f1 = terrestrial(f0, eff);
    lemma_stays(f1, f0);
    lemma_gas_giants(f1, eff);
    let f2 = gas_giants(f1, eff);
    lemma_stays(f2, f1);
    lemma_compact(f2, eff);
    let f3 = compact(f2, eff);
    lemma_stays(f3, f2);
    lemma_white_dwarfs(f3, eff);
    let f4 = white_dwarfs(f3, eff);
    lemma_stays(f4, f3);
    lemma_wolf_rayets(f4, eff);
    let f5 = wolf_rayets(f4, eff);
    lemma_stays(f5, f4);
    lemma_main_sequence(f5, eff);
    let f6 = main_sequence(f5, eff);
    lemma_stays(f6, f5);
    lemma_other_stars(f6, eff);
    let f7 = other_stars(f6, eff);
    lemma_stays(f7, f6);
    let r = asked_for(eff);
    assert(forall|q: Seq<char>| #[trigger] f4.reqs.contains(q) ==> r.reqs.contains(q)) by {
        reveal(asks_no_less);
    }
    assert(forall|q: Seq<char>| #[trigger] f5.reqs.contains(q) ==> r.reqs.contains(q)) by {
        reveal(asks_no_less);
    }
    assert(r == properties(f7, eff));
    assert(asks_no_less(r, f7)) by {
        reveal(asks_no_less);
        reveal(wants_kind);
    }
    lemma_stays(r, f7);
}

/// Each other class of stars is asked for by its own words.
pub proof fn law_words_name_other_stars(eff: Seq<char>)
    ensures
        text::occurs(eff, "l dwarf"@) ==> asks(asked_for(eff), "L (Brown dwarf) Star"@),
        text::occurs(eff, "t dwarf"@) ==> asks(asked_for(eff), "T (Brown dwarf) Star"@),
        text::occurs(eff, "y dwarf"@) ==> asks(asked_for(eff), "Y (Brown dwarf) Star"@),
        text::occurs(eff, "t tauri"@) ==> asks(asked_for(eff), "T Tauri Star"@),
        text::occurs(eff, "herbig"@) ==> asks(asked_for(eff), "Herbig Ae/Be Star"@),
        text::occurs(eff, "c star type"@) ==> asks(asked_for(eff), "C Star"@),
        text::occurs(eff, "cj star type"@) ==> asks(asked_for(eff), "CJ Star"@),
        text::occurs(eff, "cn star type"@) ==> asks(asked_for(eff), "CN Star"@),
        text::occurs(eff, "ms star type"@) ==> asks(asked_for(eff), "MS-type Star"@),
        text::occurs(eff, "s star type"@) ==> asks(asked_for(eff), "S-type Star"@),
{
    let f0 = no_filter();
    assert(all_fit(f0)) by {
        reveal(all_fit);
    }
    lemma_terrestrial(f0, eff);
    let f1 = terrestrial(f0, eff);
    lemma_stays(f1, f0);
    lemma_gas_giants(f1, eff);
    let f2 = gas_giants(f1, eff);
    lemma_stays(f2, f1);
    lemma_compact(f2, eff);
    let f3 = compact(f2, eff);
    lemma_stays(f3, f2);
    lemma_white_dwarfs(f3, eff);
    let f4 = white_dwarfs(f3, eff);
    lemma_stays(f4, f3);
    lemma_wolf_rayets(f4, eff);
    let f5 = wolf_rayets(f4, eff);
    lemma_stays(f5, f4);
    lemma_main_sequence(f5, eff);
    let f6 = main_sequence(f5, eff);
    lemma_stays(f6, f5);
    lemma_other_stars(f6, eff);
    let f7 = other_stars(f6, eff);
    lemma_stays(f7, f6);
    let r = asked_for(eff);
    assert(forall|q: Seq<char>| #[trigger] f4.reqs.contains(q) ==> r.reqs.contains(q)) by {
        reveal(asks_no_less);
    }
    assert(forall|q: Seq<char>| #[trigger] f5.reqs.contains(q) ==> r.reqs.contains(q)) by {
        reveal(asks_no_less);
    }
    assert(r == properties(f7, eff));
    assert(asks_no_less(r, f7)) by {
        reveal(asks_no_less);
        reveal(wants_kind);
    }
    lemma_stays(r, f7);
}

/// A kind that the text names.
pub open spec fn is_named(eff: Seq<char>, k: Seq<char>) -> bool {
    ||| named_by_terrestrial(eff, k)
    ||| named_by_gas_giants(eff, k)
    ||| named_by_compact(eff, k)
    ||| named_by_dwarfs_da(eff, k)
    ||| named_by_dwarfs_db(eff, k)
    ||| named_by_dwarfs_d(eff, k)
    ||| named_by_wolf_rayets(eff, k)
    ||| named_by_main_sequence(eff, asked_for(eff).any_dwarf, k)
    ||| named_by_other_stars(eff, k)
}

/// No kind is asked for that the text does not name, and every condition on
/// the system asks for a body of kinds that are asked for.
pub proof fn law_nothing_else_is_asked_for(eff: Seq<char>)
    ensures
        forall|k: Seq<char>| #[trigger] wants_kind(asked_for(eff), k) ==> is_named(eff, k),
        all_fit(asked_for(eff)),
{
    let f0 = no_filter();
    assert(all_fit(f0)) by {
        reveal(all_fit);
    }
    lemma_terrestrial(f0, eff);
    let f1 = terrestrial(f0, eff);
    lemma_stays(f1, f0);
    lemma_gas_giants(f1, eff);
    let f2 = gas_giants(f1, eff);
    lemma_stays(f2, f1);
    lemma_compact(f2, eff);
    let f3 = compact(f2, eff);
    lemma_stays(f3, f2);
    lemma_white_dwarfs(f3, eff);
    let f4 = white_dwarfs(f3, eff);
    lemma_stays(f4, f3);
    lemma_wolf_rayets(f4, eff);
    let f5 = wolf_rayets(f4, eff);
    lemma_stays(f5, f4);
    lemma_main_sequence(f5, eff);
    let f6 = main_sequence(f5, eff);
    lemma_stays(f6, f5);
    lemma_other_stars(f6, eff);
    let f7 = other_stars(f6, eff);
    lemma_stays(f7, f6);
    let r = asked_for(eff);
    assert(forall|q: Seq<char>| #[trigger] f4.reqs.contains(q) ==> r.reqs.contains(q)) by {
        reveal(asks_no_less);
    }
    assert(forall|q: Seq<char>| #[trigger] f5.reqs.contains(q) ==> r.reqs.contains(q)) by {
        reveal(asks_no_less);
    }
    assert(r == properties(f7, eff));
    assert(asks_no_less(r, f7)) by {
        reveal(asks_no_less);
        reveal(wants_kind);
    }
    lemma_stays(r, f7);
    reveal(all_fit);
    assert forall|k: Seq<char>| #[trigger] wants_kind(r, k) implies is_named(eff, k) by {
        reveal(wants_kind);
        assert(wants_kind(f7, k));
        assert(!wants_kind(f0, k));
    }
    assert forall|i: int| 0 <= i < r.reqs.len() implies fits(r, #[trigger] r.reqs[i]) by {
        assert(fits(f7, f7.reqs[i]));
    }
}

/// Each property is asked for by its own words; of the kinds of rings the
/// first that is named is asked for, and any rings where none is.
pub proof fn law_words_name_properties(eff: Seq<char>)
    ensures
        asked_for(eff).terraformable <==> text::occurs(eff, "terraformable"@),
        asked_for(eff).bio <==> text::occurs(eff, "bio"@) || text::occurs(eff, "biological"@),
        asked_for(eff).geo <==> text::occurs(eff, "geo"@) || text::occurs(eff, "geological"@),
        asked_for(eff).landable <==> text::occurs(eff, "landable"@),
        text::occurs(eff, "icy ring"@) ==> asked_for(eff).ring == Some("Icy"@),
        !text::occurs(eff, "icy ring"@) && text::occurs(eff, "metallic ring"@) ==> asked_for(
            eff,
        ).ring == Some("Metallic"@),
        !text::occurs(eff, "icy ring"@) && !text::occurs(eff, "metallic ring"@) && text::occurs(
            eff,
            "metal rich ring"@,
        ) ==> asked_for(eff).ring == Some("Metal Rich"@),
        !text::occurs(eff, "icy ring"@) && !text::occurs(eff, "metallic ring"@) && !text::occurs(
            eff,
            "metal rich ring"@,
        ) && text::occurs(eff, "rocky ring"@) ==> asked_for(eff).ring == Some("Rocky"@),
        !text::occurs(eff, "icy ring"@) && !text::occurs(eff, "metallic ring"@) && !text::occurs(
            eff,
            "metal rich ring"@,
        ) && !text::occurs(eff, "rocky ring"@) && text::occurs(eff, "ring"@) ==> asked_for(eff).ring
            == Some("%"@),
        asked_for(eff).ring is None ==> !text::occurs(eff, "ring"@),
{
}

/// A body that a search found. Doubles are given by their bits; `distance` is
/// the distance from the centre, rounded to hundredths of a light year.
pub struct BodyHit {
    pub id64: i64,
    pub system: String,
    pub population: i64,
    pub x: u64,
    pub y: u64,
    pub z: u64,
    pub body_id: i64,
    pub body: String,
    pub sub_type: String,
    pub arrival: u64,
    pub distance: u64,
}

/// A system that a search found.
pub struct SystemHit {
    pub id64: i64,
    pub system: String,
    pub population: i64,
    pub x: u64,
    pub y: u64,
    pub z: u64,
    pub distance: u64,
}

/// The bits of a double that is neither negative nor infinite: such doubles
/// are ordered as their bits.
pub open spec fn is_distance(bits: u64) -> bool {
    bits <= 0x7fef_ffff_ffff_ffff
}

/// Whether somebody lives in a system.
pub open spec fn inhabited(population: i64) -> Seq<char> {
    if population > 0 {
        "Yes"@
    } else {
        "No"@
    }
}

fn inhabited_text(population: i64) -> (r: Json)
    ensures
        r@ == JsonView::Str(inhabited(population)),
{
    if population > 0 {
        string("Yes")
    } else {
        string("No")
    }
}

/// How a body is called within its system: the main star has no name of its
/// own and is called `A`.
pub open spec fn label_or_a(short: Seq<char>) -> Seq<char> {
    if short.len() == 0 {
        "A"@
    } else {
        short
    }
}

/// How a body is called within its system.
pub fn body_label(short: String) -> (r: String)
    ensures
        r@ == label_or_a(short@),
{
    if short.as_str().is_empty() {
        "A".to_owned()
    } else {
        short
    }
}

/// The answer for a body.
pub open spec fn body_answer(h: &BodyHit) -> JsonView {
    JsonView::Obj(
        Map::empty().insert("systemId64"@, JsonView::Str(text::signed_numeral(h.id64 as int)))
            .insert("bodyId"@, JsonView::Num(Num::Int(h.body_id))).insert(
            "uniqueId"@,
            JsonView::Str(
                text::signed_numeral(h.id64 as int) + "-"@ + text::signed_numeral(
                    h.body_id as int,
                ),
            ),
        ).insert("system"@, JsonView::Str(h.system@)).insert(
            "body"@,
            JsonView::Str(
                label_or_a(text::trimmed(text::without_spec(h.body@, h.system@))),
            ),
        ).insert("fullBodyName"@, JsonView::Str(h.body@)).insert(
            "type"@,
            JsonView::Str(h.sub_type@),
        ).insert("systemDistLy"@, JsonView::Num(Num::Real(h.distance))).insert(
            "arrivalDistLs"@,
            JsonView::Num(Num::Real(h.arrival)),
        ).insert("inhabited"@, JsonView::Str(inhabited(h.population))).insert(
            "coords"@,
            json::point(Num::Real(h.x), Num::Real(h.y), Num::Real(h.z)),
        ),
    )
}

/// The answer for a body.
pub fn body_json(h: &BodyHit) -> (r: Json)
    ensures
        r@ == body_answer(h),
{
    let mut unique = decimal_i64(h.id64);
    unique.append("-");
    unique.append(decimal_i64(h.body_id).as_str());
    let short = without(h.body.as_str(), h.system.as_str());
    let mut o = Object::new();
    o.put("systemId64", Json::Str(decimal_i64(h.id64)));
    o.put("bodyId", integer(h.body_id));
    o.put("uniqueId", Json::Str(unique));
    o.put("system", Json::Str(h.system.clone()));
    o.put("body", Json::Str(body_label(trim(short.as_str()))));
    o.put("fullBodyName", Json::Str(h.body.clone()));
    o.put("type", Json::Str(h.sub_type.clone()));
    o.put("systemDistLy", Json::Num(Num::Real(h.distance)));
    o.put("arrivalDistLs", Json::Num(Num::Real(h.arrival)));
    o.put("inhabited", inhabited_text(h.population));
    o.put("coords", json::point_json(Num::Real(h.x), Num::Real(h.y), Num::Real(h.z)));
    o.done()
}

/// The answer for a system.
pub open spec fn system_answer(h: &SystemHit) -> JsonView {
    JsonView::Obj(
        Map::empty().insert("systemId64"@, JsonView::Str(text::signed_numeral(h.id64 as int)))
            .insert("uniqueId"@, JsonView::Str(text::signed_numeral(h.id64 as int))).insert(
            "system"@,
            JsonView::Str(h.system@),
        ).insert("body"@, JsonView::Str("-"@)).insert(
            "systemDistLy"@,
            JsonView::Num(Num::Real(h.distance)),
        ).insert("arrivalDistLs"@, JsonView::Num(Num::Int(0))).insert(
            "inhabited"@,
            JsonView::Str(inhabited(h.population)),
        ).insert("coords"@, json::point(Num::Real(h.x), Num::Real(h.y), Num::Real(h.z))),
    )
}

/// The answer for a system.
pub fn system_json(h: &SystemHit) -> (r: Json)
    ensures
        r@ == system_answer(h),
{
    let mut o = Object::new();
    o.put("systemId64", Json::Str(decimal_i64(h.id64)));
    o.put("uniqueId", Json::Str(decimal_i64(h.id64)));
    o.put("system", Json::Str(h.system.clone()));
    o.put("body", string("-"));
    o.put("systemDistLy", Json::Num(Num::Real(h.distance)));
    o.put("arrivalDistLs", integer(0));
    o.put("inhabited", inhabited_text(h.population));
    o.put("coords", json::point_json(Num::Real(h.x), Num::Real(h.y), Num::Real(h.z)));
    o.done()
}

/// The answer to a search: the hits by rising distance.
pub open spec fn cube_answer(size: u64, results: Seq<JsonView>) -> JsonView {
    JsonView::Obj(
        Map::empty().insert("cubeSize"@, JsonView::Num(Num::Real(size))).insert(
            "count"@,
            JsonView::Num(json::count_num(results.len() as int)),
        ).insert("results"@, JsonView::Arr(results)),
    )
}

fn answer(size: u64, results: Vec<Json>) -> (r: Json)
    ensures
        r@ == cube_answer(size, json::views(results@)),
{
    proof {
        json::lemma_views(results@);
    }
    let mut o = Object::new();
    o.put("cubeSize", Json::Num(Num::Real(size)));
    o.put("count", json::count(results.len()));
    o.put("results", Json::Arr(results));
    o.done()
}

/// The answer to a search for bodies, by rising distance; hits at one distance
/// stay in the order in which they were found.
pub fn bodies_found(size: u64, hits: &Vec<BodyHit>) -> (r: Json)
    requires
        forall|i: int| 0 <= i < hits.len() ==> is_distance((#[trigger] hits@[i]).distance),
    ensures
        exists|p: Seq<usize>| #[trigger]
            order::is_order(body_distances(hits@), p) && r@ == cube_answer(
                size,
                p.map_values(|i: usize| body_answer(&hits@[i as int])),
            ),
{
    let mut keys: Vec<u64> = Vec::new();
    for i in 0..hits.len()
        invariant
            keys.len() == i,
            forall|j: int| 0 <= j < i ==> #[trigger] keys@[j] == hits@[j].distance,
    {
        keys.push(hits[i].distance);
    }
    assert(keys@ =~= body_distances(hits@));
    let p = order(&keys);
    let mut results: Vec<Json> = Vec::new();
    for i in 0..p.len()
        invariant
            order::is_order(keys@, p@),
            keys.len() == hits.len(),
            results.len() == i,
            forall|j: int| 0 <= j < i ==> (#[trigger] results@[j])@ == body_answer(
                &hits@[p@[j] as int],
            ),
    {
        assert(0 <= p@[i as int] < keys.len());
        results.push(body_json(&hits[p[i]]));
    }
    proof {
        json::lemma_views(results@);
        assert(json::views(results@) =~= p@.map_values(
            |i: usize| body_answer(&hits@[i as int]),
        ));
    }
    answer(size, results)
}

/// The distances of hits.
pub open spec fn body_distances(hits: Seq<BodyHit>) -> Seq<u64> {
    hits.map_values(|h: BodyHit| h.distance)
}

/// The distances of hits.
pub open spec fn system_distances(hits: Seq<SystemHit>) -> Seq<u64> {
    hits.map_values(|h: SystemHit| h.distance)
}

/// The answer to a search for systems, by rising distance; hits at one
/// distance stay in the order in which they were found.
pub fn systems_found(size: u64, hits: &Vec<SystemHit>) -> (r: Json)
    requires
        forall|i: int| 0 <= i < hits.len() ==> is_distance((#[trigger] hits@[i]).distance),
    ensures
        exists|p: Seq<usize>| #[trigger]
            order::is_order(system_distances(hits@), p) && r@ == cube_answer(
                size,
                p.map_values(|i: usize| system_answer(&hits@[i as int])),
            ),
{
    let mut keys: Vec<u64> = Vec::new();
    for i in 0..hits.len()
        invariant
            keys.len() == i,
            forall|j: int| 0 <= j < i ==> #[trigger] keys@[j] == hits@[j].distance,
    {
        keys.push(hits[i].distance);
    }
    assert(keys@ =~= system_distances(hits@));
    let p = order(&keys);
    let mut results: Vec<Json> = Vec::new();
    for i in 0..p.len()
        invariant
            order::is_order(keys@, p@),
            keys.len() == hits.len(),
            results.len() == i,
            forall|j: int| 0 <= j < i ==> (#[trigger] results@[j])@ == system_answer(
                &hits@[p@[j] as int],
            ),
    {
        assert(0 <= p@[i as int] < keys.len());
        results.push(system_json(&hits[p[i]]));
    }
    proof {
        json::lemma_views(results@);
        assert(json::views(results@) =~= p@.map_values(
            |i: usize| system_answer(&hits@[i as int]),
        ));
    }
    answer(size, results)
}

/// The system that a cube is centred on: the one that is named as reference,
/// else the one that is named as centre.
pub fn cube_reference(q: &CubeSearchQuery) -> (r: Option<String>)
    ensures
        json::text_view(r) == match q.ref_system {
            Some(s) => Some(s@),
            None => json::text_view(q.center),
        },
{
    match &q.ref_system {
        Some(s) => Some(s.clone()),
        None => match &q.center {
            Some(s) => Some(s.clone()),
            None => None,
        },
    }
}

/// A number of a query; where it is missing, the double with the bits `bits`.
pub open spec fn num_or(n: Option<Num>, bits: u64) -> Num {
    match n {
        Some(n) => n,
        None => Num::Real(bits),
    }
}

fn number_or(n: &Option<Num>, bits: u64) -> (r: Num)
    ensures
        r == num_or(*n, bits),
{
    match n {
        Some(n) => n.copy(),
        None => Num::Real(bits),
    }
}

/// The centre of a cube: where the system lies that it is centred on, if that
/// was found, else the point that the query gives, with zero for what it
/// leaves out.
pub fn cube_centre(q: &CubeSearchQuery, found: Option<SpanshCoords>) -> (r: SpanshCoords)
    ensures
        r == match found {
            Some(c) => c,
            None => (SpanshCoords { x: num_or(q.x, 0), y: num_or(q.y, 0), z: num_or(q.z, 0) }),
        },
{
    match found {
        Some(c) => c,
        None => SpanshCoords {
            x: number_or(&q.x, 0),
            y: number_or(&q.y, 0),
            z: number_or(&q.z, 0),
        },
    }
}

/// The length of the edges of a cube where a query does not give one, 20 light
/// years by the bits of the double.
pub const CUBE_SIZE: u64 = 0x4034_0000_0000_0000;

/// The length of the edges of a cube, before it is cut to the largest that is
/// searched.
pub fn cube_size(q: &CubeSearchQuery) -> (r: Num)
    ensures
        r == num_or(q.size, CUBE_SIZE),
{
    number_or(&q.size, CUBE_SIZE)
}

/// Each member of a body that is found holds its own part of it.
pub proof fn law_bodies_found_are_told(h: &BodyHit)
    ensures
        ({
            let a = body_answer(h);
            &&& json::field(a, "systemId64"@)
                == Some(JsonView::Str(text::signed_numeral(h.id64 as int)))
            &&& json::field(a, "bodyId"@) == Some(JsonView::Num(Num::Int(h.body_id)))
            &&& json::field(a, "uniqueId"@)
                == Some(JsonView::Str( text::signed_numeral(h.id64 as int) + "-"@
                + text::signed_numeral( h.body_id as int, ), ))
            &&& json::field(a, "system"@) == Some(JsonView::Str(h.system@))
            &&& json::field(a, "body"@)
                == Some(JsonView::Str( label_or_a(text::trimmed(text::without_spec(h.body@,
                h.system@))), ))
            &&& json::field(a, "fullBodyName"@) == Some(JsonView::Str(h.body@))
            &&& json::field(a, "type"@) == Some(JsonView::Str(h.sub_type@))
            &&& json::field(a, "systemDistLy"@) == Some(JsonView::Num(Num::Real(h.distance)))
            &&& json::field(a, "arrivalDistLs"@) == Some(JsonView::Num(Num::Real(h.arrival)))
            &&& json::field(a, "inhabited"@) == Some(JsonView::Str(inhabited(h.population)))
            &&& json::field(a, "coords"@) == Some(json::point(Num::Real(h.x), Num::Real(h.y),
                Num::Real(h.z)))
        }),
{
    broadcast use {json::lemma_found_set, json::lemma_found_none};

    reveal_strlit("systemId64");
    reveal_strlit("bodyId");
    reveal_strlit("uniqueId");
    reveal_strlit("system");
    reveal_strlit("body");
    reveal_strlit("fullBodyName");
    reveal_strlit("type");
    reveal_strlit("systemDistLy");
    reveal_strlit("arrivalDistLs");
    reveal_strlit("inhabited");
    reveal_strlit("coords");
    assert(json::mark_of("systemId64"@) == (10int, 's', 'm', '4'));
    assert(json::mark_of("bodyId"@) == (6int, 'b', 'y', 'd'));
    assert(json::mark_of("uniqueId"@) == (8int, 'u', 'u', 'd'));
    assert(json::mark_of("system"@) == (6int, 's', 't', 'm'));
    assert(json::mark_of("body"@) == (4int, 'b', 'd', 'y'));
    assert(json::mark_of("fullBodyName"@) == (12int, 'f', 'd', 'e'));
    assert(json::mark_of("type"@) == (4int, 't', 'p', 'e'));
    assert(json::mark_of("systemDistLy"@) == (12int, 's', 'D', 'y'));
    assert(json::mark_of("arrivalDistLs"@) == (13int, 'a', 'l', 's'));
    assert(json::mark_of("inhabited"@) == (9int, 'i', 'b', 'd'));
    assert(json::mark_of("coords"@) == (6int, 'c', 'r', 's'));
    json::lemma_found(body_answer(h));
}

/// Each member of a system that is found holds its own part of it.
pub proof fn law_systems_found_are_told(h: &SystemHit)
    ensures
        ({
            let a = system_answer(h);
            &&& json::field(a, "systemId64"@)
                == Some(JsonView::Str(text::signed_numeral(h.id64 as int)))
            &&& json::field(a, "uniqueId"@)
                == Some(JsonView::Str(text::signed_numeral(h.id64 as int)))
            &&& json::field(a, "system"@) == Some(JsonView::Str(h.system@))
            &&& json::field(a, "body"@) == Some(JsonView::Str("-"@))
            &&& json::field(a, "systemDistLy"@) == Some(JsonView::Num(Num::Real(h.distance)))
            &&& json::field(a, "arrivalDistLs"@) == Some(JsonView::Num(Num::Int(0)))
            &&& json::field(a, "inhabited"@) == Some(JsonView::Str(inhabited(h.population)))
            &&& json::field(a, "coords"@) == Some(json::point(Num::Real(h.x), Num::Real(h.y),
                Num::Real(h.z)))
        }),
{
    broadcast use {json::lemma_found_set, json::lemma_found_none};

    reveal_strlit("systemId64");
    reveal_strlit("uniqueId");
    reveal_strlit("system");
    reveal_strlit("body");
    reveal_strlit("systemDistLy");
    reveal_strlit("arrivalDistLs");
    reveal_strlit("inhabited");
    reveal_strlit("coords");
    assert(json::mark_of("systemId64"@) == (10int, 's', 'm', '4'));
    assert(json::mark_of("uniqueId"@) == (8int, 'u', 'u', 'd'));
    assert(json::mark_of("system"@) == (6int, 's', 't', 'm'));
    assert(json::mark_of("body"@) == (4int, 'b', 'd', 'y'));
    assert(json::mark_of("systemDistLy"@) == (12int, 's', 'D', 'y'));
    assert(json::mark_of("arrivalDistLs"@) == (13int, 'a', 'l', 's'));
    assert(json::mark_of("inhabited"@) == (9int, 'i', 'b', 'd'));
    assert(json::mark_of("coords"@) == (6int, 'c', 'r', 's'));
    json::lemma_found(system_answer(h));
}

/// The answer to a search in a cube tells its size, and counts what it lists.
pub proof fn law_cubes_are_told(size: u64, results: Seq<JsonView>)
    ensures
        ({
            let a = cube_answer(size, results);
            &&& json::field(a, "cubeSize"@) == Some(JsonView::Num(Num::Real(size)))
            &&& json::field(a, "count"@)
                == Some(JsonView::Num(json::count_num(results.len() as int)))
            &&& json::field(a, "results"@) == Some(JsonView::Arr(results))
        }),
{
    broadcast use {json::lemma_found_set, json::lemma_found_none};

    reveal_strlit("cubeSize");
    reveal_strlit("count");
    reveal_strlit("results");
    assert(json::mark_of("cubeSize"@) == (8int, 'c', 'S', 'e'));
    assert(json::mark_of("count"@) == (5int, 'c', 'u', 't'));
    assert(json::mark_of("results"@) == (7int, 'r', 'u', 's'));
    json::lemma_found(cube_answer(size, results));
}

/// A system is inhabited where people live there; the name of a body is cut
/// to what its system's name does not say, and a lone star is called A; a
/// custom filter goes before a kind of body, unless it is empty.
pub proof fn law_small_things_are_told(population: i64, short: Seq<char>, c: Seq<char>,
    b: Seq<char>)
    ensures
        population > 0 <==> inhabited(population) == "Yes"@,
        population <= 0 <==> inhabited(population) == "No"@,
        short.len() > 0 ==> label_or_a(short) == short,
        short.len() == 0 ==> label_or_a(short) == "A"@,
        c.len() > 0 ==> deciding_text(Some(c), Some(b)) == c,
        c.len() > 0 ==> deciding_text(Some(c), None) == c,
        c.len() == 0 ==> deciding_text(Some(c), Some(b)) == b,
        deciding_text(None, Some(b)) == b,
        deciding_text(None, None) == Seq::<char>::empty(),
{
    reveal_strlit("Yes");
    reveal_strlit("No");
    assert("Yes"@.len() == 3 && "No"@.len() == 2);
}

} // verus!

//! JSON values.
//!
//! Numbers are kept as they stand: no arithmetic is done on them here. A
//! conversion of units, a rounding or a text that still has to be read as
//! JSON is kept as such, to be carried out where the value is written.

use crate::text::same;
use vstd::prelude::*;

verus! {

/// What a number is divided by to change its unit.
#[derive(Clone, Copy)]
pub enum Unit {
    /// Pascals in an atmosphere: 101325.
    Atmosphere,
    /// Seconds in a day: 86400.
    Day,
    /// Metres in an astronomical unit: 149597870700.
    AstronomicalUnit,
    /// Metres in a solar radius: 695700000.
    SolarRadius,
    /// Standard gravity in metres per second squared: 9.80665.
    Gravity,
    /// Metres in a kilometre: 1000.
    Kilometre,
}

/// A number.
pub enum Num {
    /// An integer of 64 bits with sign.
    Int(i64),
    /// An integer beyond those, without sign.
    Big(u64),
    /// A double, by its bits.
    Real(u64),
    /// An integer as a double.
    Float(i64),
    /// A number as a double, divided by a unit.
    Per(Box<Num>, Unit),
    /// A double, by its bits, rounded to hundredths.
    Hundredths(u64),
}

impl Num {
    /// Another copy of the number.
    pub fn copy(&self) -> (r: Num)
        ensures
            r == *self,
        decreases self,
    {
        match self {
            Num::Int(i) => Num::Int(*i),
            Num::Big(u) => Num::Big(*u),
            Num::Real(b) => Num::Real(*b),
            Num::Float(i) => Num::Float(*i),
            Num::Per(n, unit) => Num::Per(Box::new(n.copy()), *unit),
            Num::Hundredths(b) => Num::Hundredths(*b),
        }
    }
}

/// A JSON value.
pub enum Json {
    Null,
    Bool(bool),
    Num(Num),
    Str(String),
    Arr(Vec<Json>),
    /// The members of an object. Of members with one name, the last counts.
    Obj(Vec<(String, Json)>),
    /// The JSON value that a text holds, or null where it holds none.
    Embedded(String),
}

/// A JSON value, as mathematics.
pub enum JsonView {
    Null,
    Bool(bool),
    Num(Num),
    Str(Seq<char>),
    Arr(Seq<JsonView>),
    Obj(Map<Seq<char>, JsonView>),
    Embedded(Seq<char>),
}

impl Json {
    pub open spec fn view(&self) -> JsonView
        decreases self,
    {
        match self {
            Json::Null => JsonView::Null,
            Json::Bool(b) => JsonView::Bool(*b),
            Json::Num(n) => JsonView::Num(*n),
            Json::Str(s) => JsonView::Str(s@),
            Json::Arr(v) => JsonView::Arr(views(v@)),
            Json::Obj(v) => JsonView::Obj(members(v@)),
            Json::Embedded(s) => JsonView::Embedded(s@),
        }
    }
}

/// The views of the values of an array.
pub open spec fn views(s: Seq<Json>) -> Seq<JsonView>
    decreases s,
{
    if s.len() == 0 {
        Seq::empty()
    } else {
        views(s.drop_last()).push(s.last().view())
    }
}

/// The members of an object by name.
pub open spec fn members(s: Seq<(String, Json)>) -> Map<Seq<char>, JsonView>
    decreases s,
{
    if s.len() == 0 {
        Map::empty()
    } else {
        members(s.drop_last()).insert(s.last().0@, s.last().1.view())
    }
}

pub proof fn lemma_views(s: Seq<Json>)
    ensures
        views(s).len() == s.len(),
        forall|i: int| 0 <= i < s.len() ==> #[trigger] views(s)[i] == s[i].view(),
    decreases s,
{
    if s.len() > 0 {
        lemma_views(s.drop_last());
        assert forall|i: int| 0 <= i < s.len() implies #[trigger] views(s)[i] == s[i].view() by {
            if i < s.len() - 1 {
                assert(views(s.drop_last())[i] == s.drop_last()[i].view());
            }
        }
    }
}

/// The member of an object with the name `key`.
pub open spec fn field(v: JsonView, key: Seq<char>) -> Option<JsonView> {
    match v {
        JsonView::Obj(m) if m.contains_key(key) => Some(m[key]),
        _ => None,
    }
}

/// What tells one name from another: its length and three of its letters.
pub open spec fn mark_of(s: Seq<char>) -> (int, char, char, char) {
    (s.len() as int, s[0], s[s.len() as int / 2], s.last())
}

/// The member of a table of members with the name `key`.
#[verifier::opaque]
pub open spec fn found(m: Map<Seq<char>, JsonView>, key: Seq<char>) -> Option<JsonView> {
    field(JsonView::Obj(m), key)
}

/// The members of an object are those of its table.
pub proof fn lemma_found(v: JsonView)
    requires
        v is Obj,
    ensures
        forall|key: Seq<char>| #[trigger] field(v, key) == found(v->Obj_0, key),
{
    reveal(found);
}

/// A member that is set is found, and the others stay.
pub broadcast proof fn lemma_found_set(
    m: Map<Seq<char>, JsonView>,
    key: Seq<char>,
    value: JsonView,
    other: Seq<char>,
)
    ensures
        #[trigger] found(m.insert(key, value), other) == (if other == key {
            Some(value)
        } else {
            found(m, other)
        }),
{
    reveal(found);
}

/// Where no member is set, none is found.
pub broadcast proof fn lemma_found_none(key: Seq<char>)
    ensures
        #[trigger] found(Map::empty(), key) is None,
{
    reveal(found);
}

/// A member that is set is found, and the others stay.
pub broadcast proof fn lemma_field_set(
    m: Map<Seq<char>, JsonView>,
    key: Seq<char>,
    value: JsonView,
    other: Seq<char>,
)
    ensures
        #[trigger] field(JsonView::Obj(m.insert(key, value)), other) == (if other == key {
            Some(value)
        } else {
            field(JsonView::Obj(m), other)
        }),
{
}

/// The text of a string.
pub open spec fn str_in(v: Option<JsonView>) -> Option<Seq<char>> {
    match v {
        Some(JsonView::Str(s)) => Some(s),
        _ => None,
    }
}

/// The number of an integer of 64 bits with sign.
pub open spec fn i64_in(v: Option<JsonView>) -> Option<i64> {
    match v {
        Some(JsonView::Num(Num::Int(i))) => Some(i),
        _ => None,
    }
}

/// The number, to be taken as a double.
pub open spec fn num_in(v: Option<JsonView>) -> Option<Num> {
    match v {
        Some(JsonView::Num(n)) => Some(n),
        _ => None,
    }
}

/// The truth value.
pub open spec fn bool_in(v: Option<JsonView>) -> Option<bool> {
    match v {
        Some(JsonView::Bool(b)) => Some(b),
        _ => None,
    }
}

/// The value, unless it is null.
pub open spec fn unless_null(v: Option<JsonView>) -> Option<JsonView> {
    match v {
        Some(JsonView::Null) => None,
        other => other,
    }
}

/// The text, unless it is empty.
pub open spec fn unless_empty(s: Option<Seq<char>>) -> Option<Seq<char>> {
    match s {
        Some(t) if t.len() == 0 => None,
        other => other,
    }
}

/// The text of an optional string.
pub open spec fn text_view(s: Option<String>) -> Option<Seq<char>> {
    match s {
        Some(t) => Some(t@),
        None => None,
    }
}

/// The text of an optional string slice.
pub open spec fn slice_view(s: Option<&str>) -> Option<Seq<char>> {
    match s {
        Some(t) => Some(t@),
        None => None,
    }
}

/// The view of an optional value.
pub open spec fn json_view(v: Option<Json>) -> Option<JsonView> {
    match v {
        Some(j) => Some(j@),
        None => None,
    }
}

/// The view of an optional value behind a reference.
pub open spec fn ref_view(v: Option<&Json>) -> Option<JsonView> {
    match v {
        Some(j) => Some(j@),
        None => None,
    }
}

/// The views of an optional array of values.
pub open spec fn array_view(v: Option<Vec<Json>>) -> Option<Seq<JsonView>> {
    match v {
        Some(a) => Some(views(a@)),
        None => None,
    }
}

/// An optional text as JSON: null where there is none.
pub open spec fn str_or_null(s: Option<Seq<char>>) -> JsonView {
    match s {
        Some(t) => JsonView::Str(t),
        None => JsonView::Null,
    }
}

/// An optional number as JSON: null where there is none.
pub open spec fn num_or_null(n: Option<Num>) -> JsonView {
    match n {
        Some(n) => JsonView::Num(n),
        None => JsonView::Null,
    }
}

impl Json {
    /// The member of an object with the name `key`.
    pub fn get(&self, key: &str) -> (r: Option<&Json>)
        ensures
            ref_view(r) == field(self@, key@),
    {
        match self {
            Json::Obj(v) => {
                let mut k: usize = v.len();
                assert(v@.take(k as int) =~= v@);
                while k > 0
                    invariant
                        k <= v.len(),
                        *self == Json::Obj(*v),
                        members(v@.take(k as int)).contains_key(key@) <==> members(v@).contains_key(
                            key@,
                        ),
                        members(v@).contains_key(key@) ==> members(v@.take(k as int))[key@]
                            == members(v@)[key@],
                    decreases k,
                {
                    k = k - 1;
                    proof {
                        assert(v@.take(k + 1).drop_last() =~= v@.take(k as int));
                    }
                    if same(v[k].0.as_str(), key) {
                        return Some(&v[k].1);
                    }
                }
                assert(v@.take(0) =~= Seq::<(String, Json)>::empty());
                None
            },
            _ => None,
        }
    }

    /// Another copy of the value.
    pub fn copy(&self) -> (r: Json)
        ensures
            r@ == self@,
        decreases self,
    {
        match self {
            Json::Null => Json::Null,
            Json::Bool(b) => Json::Bool(*b),
            Json::Num(n) => Json::Num(n.copy()),
            Json::Str(s) => Json::Str(s.clone()),
            Json::Arr(v) => {
                let mut out: Vec<Json> = Vec::new();
                for i in 0..v.len()
                    invariant
                        *self == Json::Arr(*v),
                        views(out@) == views(v@.take(i as int)),
                {
                    proof {
                        assert(decreases_to!(*self => self->Arr_0));
                        assert(decreases_to!(self->Arr_0 => v@));
                        assert(decreases_to!(v@ => v@[i as int]));
                    }
                    let item = v[i].copy();
                    let ghost before = out@;
                    out.push(item);
                    proof {
                        assert(out@.drop_last() =~= before);
                        assert(v@.take(i + 1).drop_last() =~= v@.take(i as int));
                    }
                }
                assert(v@.take(v.len() as int) =~= v@);
                Json::Arr(out)
            },
            Json::Obj(v) => {
                let mut out: Vec<(String, Json)> = Vec::new();
                for i in 0..v.len()
                    invariant
                        *self == Json::Obj(*v),
                        members(out@) == members(v@.take(i as int)),
                {
                    proof {
                        assert(decreases_to!(*self => self->Obj_0));
                        assert(decreases_to!(self->Obj_0 => v@));
                        assert(decreases_to!(v@ => v@[i as int]));
                        assert(decreases_to!(v@[i as int] => v@[i as int].1));
                    }
                    let name = v[i].0.clone();
                    let item = v[i].1.copy();
                    let ghost before = out@;
                    out.push((name, item));
                    proof {
                        assert(out@.drop_last() =~= before);
                        assert(v@.take(i + 1).drop_last() =~= v@.take(i as int));
                    }
                }
                assert(v@.take(v.len() as int) =~= v@);
                Json::Obj(out)
            },
            Json::Embedded(s) => Json::Embedded(s.clone()),
        }
    }

    pub fn is_null(&self) -> (r: bool)
        ensures
            r == (self@ is Null),
    {
        matches!(self, Json::Null)
    }

    pub fn as_str(&self) -> (r: Option<&str>)
        ensures
            slice_view(r) == str_in(Some(self@)),
    {
        match self {
            Json::Str(s) => Some(s.as_str()),
            _ => None,
        }
    }

    pub fn as_i64(&self) -> (r: Option<i64>)
        ensures
            r == i64_in(Some(self@)),
    {
        match self {
            Json::Num(Num::Int(i)) => Some(*i),
            _ => None,
        }
    }

    pub fn as_num(&self) -> (r: Option<Num>)
        ensures
            r == num_in(Some(self@)),
    {
        match self {
            Json::Num(n) => Some(n.copy()),
            _ => None,
        }
    }

    pub fn as_bool(&self) -> (r: Option<bool>)
        ensures
            r == bool_in(Some(self@)),
    {
        match self {
            Json::Bool(b) => Some(*b),
            _ => None,
        }
    }
}

/// A string value.
pub fn string(s: &str) -> (r: Json)
    ensures
        r@ == JsonView::Str(s@),
{
    Json::Str(s.to_owned())
}

/// An integer value.
pub fn integer(i: i64) -> (r: Json)
    ensures
        r@ == JsonView::Num(Num::Int(i)),
{
    Json::Num(Num::Int(i))
}

/// A count as a number.
pub open spec fn count_num(n: int) -> Num {
    if n <= i64::MAX {
        Num::Int(n as i64)
    } else {
        Num::Big(n as u64)
    }
}

/// A count.
pub fn count(n: usize) -> (r: Json)
    ensures
        r@ == JsonView::Num(count_num(n as int)),
{
    if n as u64 <= 0x7fff_ffff_ffff_ffff {
        Json::Num(Num::Int(n as i64))
    } else {
        Json::Num(Num::Big(n as u64))
    }
}

/// A counter as a number.
pub fn counter(n: u64) -> (r: Json)
    ensures
        r@ == JsonView::Num(count_num(n as int)),
{
    if n <= 0x7fff_ffff_ffff_ffff {
        Json::Num(Num::Int(n as i64))
    } else {
        Json::Num(Num::Big(n))
    }
}

/// A point in space.
pub open spec fn point(x: Num, y: Num, z: Num) -> JsonView {
    JsonView::Obj(
        Map::empty().insert("x"@, JsonView::Num(x)).insert("y"@, JsonView::Num(y)).insert(
            "z"@,
            JsonView::Num(z),
        ),
    )
}

/// A point in space.
pub fn point_json(x: Num, y: Num, z: Num) -> (r: Json)
    ensures
        r@ == point(x, y, z),
{
    let mut o = Object::new();
    o.put("x", Json::Num(x));
    o.put("y", Json::Num(y));
    o.put("z", Json::Num(z));
    o.done()
}

/// A number, or null.
pub fn number_or_null(n: Option<Num>) -> (r: Json)
    ensures
        r@ == num_or_null(n),
{
    match n {
        Some(n) => Json::Num(n),
        None => Json::Null,
    }
}

/// An object that is being built.
pub struct Object {
    members: Vec<(String, Json)>,
}

impl Object {
    pub closed spec fn view(&self) -> Map<Seq<char>, JsonView> {
        members(self.members@)
    }

    /// The object without members.
    pub fn new() -> (r: Object)
        ensures
            r@ == Map::<Seq<char>, JsonView>::empty(),
    {
        Object { members: Vec::new() }
    }

    /// Sets the member `key`.
    pub fn put(&mut self, key: &str, value: Json)
        ensures
            final(self)@ == old(self)@.insert(key@, value@),
    {
        let ghost before = self.members@;
        self.members.push((key.to_owned(), value));
        assert(self.members@.drop_last() =~= before);
    }

    /// The finished object.
    pub fn done(self) -> (r: Json)
        ensures
            r@ == JsonView::Obj(self@),
    {
        Json::Obj(self.members)
    }
}

/// A place is told axis by axis.
pub proof fn law_points_are_told_by_axis(x: Num, y: Num, z: Num)
    ensures
        field(point(x, y, z), "x"@) == Some(JsonView::Num(x)),
        field(point(x, y, z), "y"@) == Some(JsonView::Num(y)),
        field(point(x, y, z), "z"@) == Some(JsonView::Num(z)),
{
    reveal_strlit("x");
    reveal_strlit("y");
    reveal_strlit("z");
    assert("x"@[0] == 'x' && "y"@[0] == 'y' && "z"@[0] == 'z');
}

/// A value is read as what it is and as nothing else: a null is no value, and an
/// empty text is none.
pub proof fn law_values_are_read_as_they_are(v: JsonView, s: Seq<char>, n: Num, b: bool)
    ensures
        unless_null(Some(JsonView::Null)) is None,
        unless_null(None) is None,
        v !is Null ==> unless_null(Some(v)) == Some(v),
        s.len() == 0 ==> unless_empty(Some(s)) is None,
        s.len() > 0 ==> unless_empty(Some(s)) == Some(s),
        str_in(Some(JsonView::Str(s))) == Some(s),
        num_in(Some(JsonView::Num(n))) == Some(n),
        bool_in(Some(JsonView::Bool(b))) == Some(b),
        v !is Str ==> str_in(Some(v)) is None,
        v !is Num ==> num_in(Some(v)) is None && i64_in(Some(v)) is None,
        v !is Bool ==> bool_in(Some(v)) is None,
        v !is Obj ==> field(v, s) is None,
{
}

} // verus!

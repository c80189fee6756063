//! Rows that come out of the database.

use crate::json;
use crate::json::{Json, JsonView, Num};
use crate::text;
use crate::text::same_ignoring_case;
use vstd::prelude::*;

verus! {

/// A value that came out of the database.
pub enum SqlValue {
    Null,
    Integer(i64),
    /// A double, by its bits.
    Real(u64),
    Text(String),
    Blob,
}

/// A row that came out of the database: the names of its columns and their
/// values.
pub struct DbRow {
    pub names: Vec<String>,
    pub cells: Vec<SqlValue>,
}

/// A value as mathematics.
pub enum SqlView {
    Null,
    Integer(i64),
    Real(u64),
    Text(Seq<char>),
    Blob,
}

impl SqlValue {
    pub open spec fn view(&self) -> SqlView {
        match self {
            SqlValue::Null => SqlView::Null,
            SqlValue::Integer(i) => SqlView::Integer(*i),
            SqlValue::Real(b) => SqlView::Real(*b),
            SqlValue::Text(s) => SqlView::Text(s@),
            SqlValue::Blob => SqlView::Blob,
        }
    }
}

/// The position of the first of the columns from `i` on with the name `name`,
/// whatever the case of ASCII letters.
pub open spec fn column_at(names: Seq<String>, name: Seq<char>, i: int) -> Option<int>
    decreases names.len() - i,
{
    if i >= names.len() {
        None
    } else if text::ascii_lower_all(names[i]@) == text::ascii_lower_all(name) {
        Some(i)
    } else {
        column_at(names, name, i + 1)
    }
}

impl DbRow {
    /// Each column has a value.
    pub open spec fn wf(&self) -> bool {
        self.names.len() == self.cells.len()
    }

    /// The value of the column `name`, where there is such a column.
    pub open spec fn value(&self, name: Seq<char>) -> Option<SqlView> {
        match column_at(self.names@, name, 0) {
            Some(i) => Some(self.cells@[i]@),
            None => None,
        }
    }

    /// The value of the column `name`.
    fn cell(&self, name: &str) -> (r: Option<&SqlValue>)
        requires
            self.wf(),
        ensures
            match r {
                Some(v) => self.value(name@) == Some(v@),
                None => self.value(name@) is None,
            },
    {
        for i in 0..self.names.len()
            invariant
                self.wf(),
                column_at(self.names@, name@, 0) == column_at(self.names@, name@, i as int),
        {
            if same_ignoring_case(self.names[i].as_str(), name) {
                return Some(&self.cells[i]);
            }
        }
        None
    }

    /// The integer of a column; `None` where it holds none.
    pub fn int_of(&self, name: &str) -> (r: Option<i64>)
        requires
            self.wf(),
        ensures
            r == int_in(self.value(name@)),
    {
        match self.cell(name) {
            Some(SqlValue::Integer(i)) => Some(*i),
            _ => None,
        }
    }

    /// The text of a column; `None` where it holds none.
    pub fn text_in(&self, name: &str) -> (r: Option<String>)
        requires
            self.wf(),
        ensures
            json::text_view(r) == text_of(self.value(name@)),
    {
        match self.cell(name) {
            Some(SqlValue::Text(s)) => Some(s.clone()),
            _ => None,
        }
    }

    /// The number of a column, as a double; `None` where it holds none.
    pub fn num_of(&self, name: &str) -> (r: Option<Num>)
        requires
            self.wf(),
        ensures
            r == num_in(self.value(name@)),
    {
        match self.cell(name) {
            Some(SqlValue::Integer(i)) => Some(Num::Float(*i)),
            Some(SqlValue::Real(b)) => Some(Num::Real(*b)),
            _ => None,
        }
    }

    /// Whether a column is null.
    pub fn is_null(&self, name: &str) -> (r: bool)
        requires
            self.wf(),
        ensures
            r == (self.value(name@) == Some(SqlView::Null)),
    {
        match self.cell(name) {
            Some(SqlValue::Null) => true,
            _ => false,
        }
    }
}

/// The integer of a value.
pub open spec fn int_in(v: Option<SqlView>) -> Option<i64> {
    match v {
        Some(SqlView::Integer(i)) => Some(i),
        _ => None,
    }
}

/// The text of a value.
pub open spec fn text_of(v: Option<SqlView>) -> Option<Seq<char>> {
    match v {
        Some(SqlView::Text(s)) => Some(s),
        _ => None,
    }
}

/// The number of a value, as a double.
pub open spec fn num_in(v: Option<SqlView>) -> Option<Num> {
    match v {
        Some(SqlView::Integer(i)) => Some(Num::Float(i)),
        Some(SqlView::Real(b)) => Some(Num::Real(b)),
        _ => None,
    }
}

/// A text as JSON; a value of another kind is null.
pub open spec fn text_json(v: Option<SqlView>) -> JsonView {
    json::str_or_null(text_of(v))
}

/// A number as JSON; a value of another kind is null.
pub open spec fn num_json(v: Option<SqlView>) -> JsonView {
    json::num_or_null(num_in(v))
}

/// An integer as JSON; a value of another kind is null.
pub open spec fn int_json(v: Option<SqlView>) -> JsonView {
    match int_in(v) {
        Some(i) => JsonView::Num(Num::Int(i)),
        None => JsonView::Null,
    }
}

/// The JSON that a text holds; a value of another kind is null.
pub open spec fn held_json(v: Option<SqlView>) -> JsonView {
    match text_of(v) {
        Some(s) => JsonView::Embedded(s),
        None => JsonView::Null,
    }
}

/// Whether a value is the integer 1.
pub open spec fn is_one(v: Option<SqlView>) -> bool {
    int_in(v) == Some(1i64)
}

/// An integer as a truth value as JSON; a value of another kind is null.
pub open spec fn truth_json(v: Option<SqlView>) -> JsonView {
    match int_in(v) {
        Some(i) => JsonView::Bool(i == 1),
        None => JsonView::Null,
    }
}

impl DbRow {
    pub fn text_json(&self, name: &str) -> (r: Json)
        requires
            self.wf(),
        ensures
            r@ == text_json(self.value(name@)),
    {
        match self.text_in(name) {
            Some(s) => Json::Str(s),
            None => Json::Null,
        }
    }

    pub fn num_json(&self, name: &str) -> (r: Json)
        requires
            self.wf(),
        ensures
            r@ == num_json(self.value(name@)),
    {
        json::number_or_null(self.num_of(name))
    }

    pub fn int_json(&self, name: &str) -> (r: Json)
        requires
            self.wf(),
        ensures
            r@ == int_json(self.value(name@)),
    {
        match self.int_of(name) {
            Some(i) => Json::Num(Num::Int(i)),
            None => Json::Null,
        }
    }

    pub fn held_json(&self, name: &str) -> (r: Json)
        requires
            self.wf(),
        ensures
            r@ == held_json(self.value(name@)),
    {
        match self.text_in(name) {
            Some(s) => Json::Embedded(s),
            None => Json::Null,
        }
    }

    pub fn truth_json(&self, name: &str) -> (r: Json)
        requires
            self.wf(),
        ensures
            r@ == truth_json(self.value(name@)),
    {
        match self.int_of(name) {
            Some(i) => Json::Bool(i == 1),
            None => Json::Null,
        }
    }

    pub fn is_one(&self, name: &str) -> (r: bool)
        requires
            self.wf(),
        ensures
            r == is_one(self.value(name@)),
    {
        match self.int_of(name) {
            Some(i) => i == 1,
            None => false,
        }
    }
}

/// A value is told as what it is: a text as the text, an integer and a double
/// as the number, a truth value as whether it is 1; anything else as null.
pub proof fn law_values_are_told_as_they_are(s: Seq<char>, i: i64, b: u64)
    ensures
        text_json(Some(SqlView::Text(s))) == JsonView::Str(s),
        text_json(Some(SqlView::Integer(i))) == JsonView::Null,
        text_json(Some(SqlView::Real(b))) == JsonView::Null,
        text_json(None) == JsonView::Null,
        num_json(Some(SqlView::Real(b))) == JsonView::Num(Num::Real(b)),
        num_json(Some(SqlView::Integer(i))) == JsonView::Num(Num::Float(i)),
        num_json(Some(SqlView::Text(s))) == JsonView::Null,
        num_json(None) == JsonView::Null,
        int_json(Some(SqlView::Integer(i))) == JsonView::Num(Num::Int(i)),
        int_json(Some(SqlView::Real(b))) == JsonView::Null,
        int_json(Some(SqlView::Text(s))) == JsonView::Null,
        int_json(None) == JsonView::Null,
        held_json(Some(SqlView::Text(s))) == JsonView::Embedded(s),
        held_json(Some(SqlView::Integer(i))) == JsonView::Null,
        held_json(None) == JsonView::Null,
        truth_json(Some(SqlView::Integer(i))) == JsonView::Bool(i == 1),
        truth_json(Some(SqlView::Text(s))) == JsonView::Null,
        truth_json(None) == JsonView::Null,
        is_one(Some(SqlView::Integer(i))) == (i == 1),
        !is_one(Some(SqlView::Text(s))) && !is_one(None),
{
}

} // verus!

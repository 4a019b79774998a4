//! The parameters of a statement: tagged values, given by position or by
//! name.

use crate::text::{append, append_str, chars_of, hex, hex_of, signed_decimal, signed_decimal_of,
    string_of, views};
use vstd::prelude::*;

verus! {

/// One value bound to a statement. A real number is held as the 64 bits of
/// its IEEE 754 double-precision form.
#[derive(Debug, Clone, PartialEq)]
pub enum QueryValue {
    Integer(i64),
    Real(u64),
    Text(String),
    Blob(Vec<u8>),
    Null,
}

/// What a `QueryValue` stands for.
pub enum QueryValueView {
    Integer(i64),
    Real(u64),
    Text(Seq<char>),
    Blob(Seq<u8>),
    Null,
}

impl View for QueryValue {
    type V = QueryValueView;

    open spec fn view(&self) -> QueryValueView {
        match *self {
            QueryValue::Integer(i) => QueryValueView::Integer(i),
            QueryValue::Real(bits) => QueryValueView::Real(bits),
            QueryValue::Text(s) => QueryValueView::Text(s@),
            QueryValue::Blob(b) => QueryValueView::Blob(b@),
            QueryValue::Null => QueryValueView::Null,
        }
    }
}

/// The text that shows a value: the numeral of an integer, a text as it is,
/// `NULL`, a blob as `X'..'` with two capital hexadecimal digits a byte. The
/// text of a real number is not the library's to give.
pub open spec fn shown(v: QueryValueView) -> Option<Seq<char>> {
    match v {
        QueryValueView::Integer(i) => Some(signed_decimal(i as int)),
        QueryValueView::Real(_) => None,
        QueryValueView::Text(t) => Some(t),
        QueryValueView::Blob(b) => Some("X'"@ + hex(b) + "'"@),
        QueryValueView::Null => Some("NULL"@),
    }
}

/// A copy of the bytes of `b`.
pub fn copy_bytes(b: &Vec<u8>) -> (r: Vec<u8>)
    ensures
        r@ == b@,
{
    let mut r: Vec<u8> = Vec::new();
    let mut i: usize = 0;
    while i < b.len()
        invariant
            i <= b.len(),
            r@ == b@.take(i as int),
        decreases b.len() - i,
    {
        r.push(b[i]);
        assert(b@.take(i + 1) =~= b@.take(i as int).push(b@[i as int]));
        i += 1;
    }
    assert(b@.take(b.len() as int) == b@);
    r
}

impl QueryValue {
    /// A value that stands for the same as this one.
    pub fn copy(&self) -> (r: QueryValue)
        ensures
            r@ == self@,
    {
        match self {
            QueryValue::Integer(i) => QueryValue::Integer(*i),
            QueryValue::Real(bits) => QueryValue::Real(*bits),
            QueryValue::Text(s) => QueryValue::Text(s.clone()),
            QueryValue::Blob(b) => QueryValue::Blob(copy_bytes(b)),
            QueryValue::Null => QueryValue::Null,
        }
    }

    /// The text that shows this value; none for a real number.
    pub fn to_string(&self) -> (r: Option<String>)
        ensures
            match r {
                Some(s) => shown(self@) == Some(s@),
                None => shown(self@) is None,
            },
    {
        match self {
            QueryValue::Integer(i) => Some(string_of(&signed_decimal_of(*i))),
            QueryValue::Real(_) => None,
            QueryValue::Text(t) => Some(t.clone()),
            QueryValue::Blob(b) => {
                let mut out: Vec<char> = Vec::new();
                append_str(&mut out, "X'");
                append(&mut out, &hex_of(b));
                append_str(&mut out, "'");
                assert(out@ =~= "X'"@ + hex(b@) + "'"@);
                Some(string_of(&out))
            },
            QueryValue::Null => Some(string_of(&chars_of("NULL"))),
        }
    }
}

/// Copies of the values of `v`, in order.
pub fn copy_values(v: &Vec<QueryValue>) -> (r: Vec<QueryValue>)
    ensures
        views(r@) == views(v@),
{
    let mut r: Vec<QueryValue> = Vec::new();
    let mut i: usize = 0;
    while i < v.len()
        invariant
            i <= v.len(),
            r@.len() == i,
            forall|j: int| 0 <= j < i ==> r@[j]@ == v@[j]@,
        decreases v.len() - i,
    {
        r.push(v[i].copy());
        i += 1;
    }
    assert(views(r@) =~= views(v@));
    r
}

/// Copies of the named values of `v`, in order.
pub fn copy_named(v: &Vec<(String, QueryValue)>) -> (r: Vec<(String, QueryValue)>)
    ensures
        views(r@) == views(v@),
{
    let mut r: Vec<(String, QueryValue)> = Vec::new();
    let mut i: usize = 0;
    while i < v.len()
        invariant
            i <= v.len(),
            r@.len() == i,
            forall|j: int| 0 <= j < i ==> r@[j]@ == v@[j]@,
        decreases v.len() - i,
    {
        r.push((v[i].0.clone(), v[i].1.copy()));
        i += 1;
    }
    assert(views(r@) =~= views(v@));
    r
}

/// The parameters as a store takes them: none, by position, or by name.
#[derive(Debug, Clone, PartialEq)]
pub enum ParameterSet {
    Absent,
    Positional(Vec<QueryValue>),
    Named(Vec<(String, QueryValue)>),
}

/// What a `ParameterSet` stands for.
pub enum ParameterSetView {
    Absent,
    Positional(Seq<QueryValueView>),
    Named(Seq<(Seq<char>, QueryValueView)>),
}

impl View for ParameterSet {
    type V = ParameterSetView;

    open spec fn view(&self) -> ParameterSetView {
        match *self {
            ParameterSet::Absent => ParameterSetView::Absent,
            ParameterSet::Positional(v) => ParameterSetView::Positional(views(v@)),
            ParameterSet::Named(v) => ParameterSetView::Named(views(v@)),
        }
    }
}

impl ParameterSet {
    /// A parameter set that stands for the same as this one.
    pub fn copy(&self) -> (r: ParameterSet)
        ensures
            r@ == self@,
    {
        match self {
            ParameterSet::Absent => ParameterSet::Absent,
            ParameterSet::Positional(v) => ParameterSet::Positional(copy_values(v)),
            ParameterSet::Named(v) => ParameterSet::Named(copy_named(v)),
        }
    }
}

/// The parameters as a caller gives them: values by position, values by
/// name, both or neither.
#[derive(Debug, Clone, PartialEq)]
pub struct QueryParameters {
    pub positional: Option<Vec<QueryValue>>,
    pub named: Option<Vec<(String, QueryValue)>>,
}

/// What `QueryParameters` stand for.
pub struct QueryParametersView {
    pub positional: Option<Seq<QueryValueView>>,
    pub named: Option<Seq<(Seq<char>, QueryValueView)>>,
}

impl View for QueryParameters {
    type V = QueryParametersView;

    open spec fn view(&self) -> QueryParametersView {
        QueryParametersView {
            positional: match self.positional {
                Some(v) => Some(views(v@)),
                None => None,
            },
            named: match self.named {
                Some(v) => Some(views(v@)),
                None => None,
            },
        }
    }
}

/// The parameter set that a caller's parameters come to: the positional
/// values where there are some and no named ones, the named values where
/// there are some and no positional ones, and none in every other case, so
/// also where both are given.
pub open spec fn params_of(p: QueryParametersView) -> ParameterSetView {
    let has_positional = p.positional is Some && p.positional->0.len() > 0;
    let has_named = p.named is Some && p.named->0.len() > 0;
    if has_positional && !has_named {
        ParameterSetView::Positional(p.positional->0)
    } else if !has_positional && has_named {
        ParameterSetView::Named(p.named->0)
    } else {
        ParameterSetView::Absent
    }
}

/// The parameter set of optional parameters: none where none are given.
pub open spec fn params_of_optional(p: Option<QueryParametersView>) -> ParameterSetView {
    match p {
        Some(q) => params_of(q),
        None => ParameterSetView::Absent,
    }
}

/// The view of optional parameters.
pub open spec fn optional_view(p: Option<QueryParameters>) -> Option<QueryParametersView> {
    match p {
        Some(q) => Some(q@),
        None => None,
    }
}

impl QueryParameters {
    /// The parameter set that these parameters come to.
    pub fn to_params(&self) -> (r: ParameterSet)
        ensures
            r@ == params_of(self@),
    {
        let has_positional = match &self.positional {
            Some(v) => v.len() > 0,
            None => false,
        };
        let has_named = match &self.named {
            Some(v) => v.len() > 0,
            None => false,
        };
        if has_positional && !has_named {
            match &self.positional {
                Some(v) => ParameterSet::Positional(copy_values(v)),
                None => ParameterSet::Absent,
            }
        } else if !has_positional && has_named {
            match &self.named {
                Some(v) => ParameterSet::Named(copy_named(v)),
                None => ParameterSet::Absent,
            }
        } else {
            ParameterSet::Absent
        }
    }

    /// The values given by name, if any are.
    pub fn get_named(&self) -> (r: Option<&Vec<(String, QueryValue)>>)
        ensures
            match self.named {
                Some(v) => r == Some(&v),
                None => r is None,
            },
    {
        self.named.as_ref()
    }

    /// The values given by position, if any are.
    pub fn get_positional(&self) -> (r: Option<&Vec<QueryValue>>)
        ensures
            match self.positional {
                Some(v) => r == Some(&v),
                None => r is None,
            },
    {
        self.positional.as_ref()
    }
}

/// The parameter set of optional parameters.
pub fn optional_params(parameters: &Option<QueryParameters>) -> (r: ParameterSet)
    ensures
        r@ == params_of_optional(optional_view(*parameters)),
{
    match parameters {
        Some(p) => p.to_params(),
        None => ParameterSet::Absent,
    }
}

} // verus!

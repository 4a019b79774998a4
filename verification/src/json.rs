//! The form in which a parameter set is written to the operation log: a
//! document of the kind that JSON text describes, as far down as the log
//! reads it. Turning a document into text and back is the host's part.

use crate::query_params::{ParameterSet, ParameterSetView, QueryValue, QueryValueView};
use crate::text::views;
use vstd::prelude::*;

verus! {

/// One value inside a document. In `Array` an item is the whole number that
/// stands there, where one not below zero does, and nothing else. `Other`
/// is every value that the log has no use for: a truth value, an object, a
/// whole number above the largest `i64`.
#[derive(Debug, Clone, PartialEq)]
pub enum JsonEntry {
    Null,
    Integer(i64),
    Real(u64),
    Text(String),
    Array(Vec<Option<u64>>),
    Other,
}

/// What a `JsonEntry` stands for.
pub enum JsonEntryView {
    Null,
    Integer(i64),
    Real(u64),
    Text(Seq<char>),
    Array(Seq<Option<u64>>),
    Other,
}

impl View for JsonEntry {
    type V = JsonEntryView;

    open spec fn view(&self) -> JsonEntryView {
        match *self {
            JsonEntry::Null => JsonEntryView::Null,
            JsonEntry::Integer(i) => JsonEntryView::Integer(i),
            JsonEntry::Real(bits) => JsonEntryView::Real(bits),
            JsonEntry::Text(s) => JsonEntryView::Text(s@),
            JsonEntry::Array(items) => JsonEntryView::Array(items@),
            JsonEntry::Other => JsonEntryView::Other,
        }
    }
}

/// A document: an array of entries, an object of named entries, the null
/// value, or anything else. In `Object` a name that occurs twice stands for
/// its last entry.
#[derive(Debug, Clone, PartialEq)]
pub enum JsonDocument {
    Null,
    Array(Vec<JsonEntry>),
    Object(Vec<(String, JsonEntry)>),
    Other,
}

/// What a `JsonDocument` stands for.
pub enum JsonDocumentView {
    Null,
    Array(Seq<JsonEntryView>),
    Object(Seq<(Seq<char>, JsonEntryView)>),
    Other,
}

impl View for JsonDocument {
    type V = JsonDocumentView;

    open spec fn view(&self) -> JsonDocumentView {
        match *self {
            JsonDocument::Null => JsonDocumentView::Null,
            JsonDocument::Array(items) => JsonDocumentView::Array(views(items@)),
            JsonDocument::Object(entries) => JsonDocumentView::Object(views(entries@)),
            JsonDocument::Other => JsonDocumentView::Other,
        }
    }
}

/// The bits stand for a finite number: the eleven exponent bits are not all
/// set.
pub open spec fn is_finite(bits: u64) -> bool {
    (bits as int / 0x10_0000_0000_0000) % 0x800 != 0x7ff
}

/// Whether the bits stand for a finite number.
pub fn real_is_finite(bits: u64) -> (r: bool)
    ensures
        r == is_finite(bits),
{
    (bits / 0x10_0000_0000_0000) % 0x800 != 0x7ff
}

/// The numbers that stand for the bytes of a blob.
pub open spec fn numbers_of(b: Seq<u8>) -> Seq<Option<u64>> {
    Seq::new(b.len(), |i: int| Some(b[i] as u64))
}

/// The bytes that the items of an array give: every number, cut to its
/// lowest eight bits; what is no number is passed over.
pub open spec fn bytes_of(items: Seq<Option<u64>>) -> Seq<u8>
    decreases items.len(),
{
    if items.len() == 0 {
        Seq::empty()
    } else {
        match items.last() {
            Some(n) => bytes_of(items.drop_last()).push((n % 256) as u8),
            None => bytes_of(items.drop_last()),
        }
    }
}

/// The entry that a value is written as. A real number that is not finite
/// is written as null.
pub open spec fn entry_of(v: QueryValueView) -> JsonEntryView {
    match v {
        QueryValueView::Null => JsonEntryView::Null,
        QueryValueView::Integer(i) => JsonEntryView::Integer(i),
        QueryValueView::Real(bits) => if is_finite(bits) {
            JsonEntryView::Real(bits)
        } else {
            JsonEntryView::Null
        },
        QueryValueView::Text(s) => JsonEntryView::Text(s),
        QueryValueView::Blob(b) => JsonEntryView::Array(numbers_of(b)),
    }
}

/// The value that an entry is read as.
pub open spec fn value_of(e: JsonEntryView) -> QueryValueView {
    match e {
        JsonEntryView::Null => QueryValueView::Null,
        JsonEntryView::Integer(i) => QueryValueView::Integer(i),
        JsonEntryView::Real(bits) => QueryValueView::Real(bits),
        JsonEntryView::Text(s) => QueryValueView::Text(s),
        JsonEntryView::Array(items) => QueryValueView::Blob(bytes_of(items)),
        JsonEntryView::Other => QueryValueView::Null,
    }
}

/// Reading the numbers of a blob gives its bytes back.
pub proof fn lemma_bytes_of_numbers(b: Seq<u8>)
    ensures
        bytes_of(numbers_of(b)) == b,
    decreases b.len(),
{
    if b.len() > 0 {
        lemma_bytes_of_numbers(b.drop_last());
        assert(numbers_of(b).drop_last() =~= numbers_of(b.drop_last()));
        assert(bytes_of(numbers_of(b)) =~= b);
    } else {
        assert(bytes_of(numbers_of(b)) =~= b);
    }
}

/// A value can be written and read back unchanged: it is no real number
/// that is not finite.
pub open spec fn value_storable(v: QueryValueView) -> bool {
    v matches QueryValueView::Real(bits) ==> is_finite(bits)
}

/// Reading what a storable value was written as gives the value back.
pub proof fn lemma_value_round_trip(v: QueryValueView)
    requires
        value_storable(v),
    ensures
        value_of(entry_of(v)) == v,
{
    if let QueryValueView::Blob(b) = v {
        lemma_bytes_of_numbers(b);
    }
}

/// The entry that a value is written as.
pub fn libsql_value_to_json(value: &QueryValue) -> (r: JsonEntry)
    ensures
        r@ == entry_of(value@),
{
    match value {
        QueryValue::Null => JsonEntry::Null,
        QueryValue::Integer(i) => JsonEntry::Integer(*i),
        QueryValue::Real(bits) => if real_is_finite(*bits) {
            JsonEntry::Real(*bits)
        } else {
            JsonEntry::Null
        },
        QueryValue::Text(s) => JsonEntry::Text(s.clone()),
        QueryValue::Blob(b) => {
            let mut items: Vec<Option<u64>> = Vec::new();
            let mut i: usize = 0;
            while i < b.len()
                invariant
                    i <= b.len(),
                    items@.len() == i,
                    forall|j: int| 0 <= j < i ==> items@[j] == Some(b@[j] as u64),
                decreases b.len() - i,
            {
                items.push(Some(b[i] as u64));
                i += 1;
            }
            assert(items@ =~= numbers_of(b@));
            JsonEntry::Array(items)
        },
    }
}

/// The value that an entry is read as.
pub fn json_to_libsql_value(json: &JsonEntry) -> (r: QueryValue)
    ensures
        r@ == value_of(json@),
{
    match json {
        JsonEntry::Null => QueryValue::Null,
        JsonEntry::Integer(i) => QueryValue::Integer(*i),
        JsonEntry::Real(bits) => QueryValue::Real(*bits),
        JsonEntry::Text(s) => QueryValue::Text(s.clone()),
        JsonEntry::Array(items) => {
            let mut bytes: Vec<u8> = Vec::new();
            let mut i: usize = 0;
            while i < items.len()
                invariant
                    i <= items.len(),
                    bytes@ == bytes_of(items@.take(i as int)),
                decreases items.len() - i,
            {
                proof {
                    let upto = items@.take(i + 1);
                    assert(upto.drop_last() =~= items@.take(i as int));
                    assert(upto.last() == items@[i as int]);
                }
                match items[i] {
                    Some(n) => {
                        bytes.push((n % 256) as u8);
                    },
                    None => {},
                }
                i += 1;
            }
            assert(items@.take(items.len() as int) == items@);
            QueryValue::Blob(bytes)
        },
        JsonEntry::Other => QueryValue::Null,
    }
}

/// The entries that values are written as, in order.
pub open spec fn entries_of(v: Seq<QueryValueView>) -> Seq<JsonEntryView> {
    Seq::new(v.len(), |i: int| entry_of(v[i]))
}

/// The named entries that named values are written as, in order.
pub open spec fn named_entries_of(v: Seq<(Seq<char>, QueryValueView)>) -> Seq<
    (Seq<char>, JsonEntryView),
> {
    Seq::new(v.len(), |i: int| (v[i].0, entry_of(v[i].1)))
}

/// The values that entries are read as, in order.
pub open spec fn values_of(e: Seq<JsonEntryView>) -> Seq<QueryValueView> {
    Seq::new(e.len(), |i: int| value_of(e[i]))
}

/// The named values that named entries are read as, in order.
pub open spec fn named_values_of(e: Seq<(Seq<char>, JsonEntryView)>) -> Seq<
    (Seq<char>, QueryValueView),
> {
    Seq::new(e.len(), |i: int| (e[i].0, value_of(e[i].1)))
}

/// The document that a parameter set is written as: null for none, an array
/// for positional values, an object for named ones.
pub open spec fn document_of(p: ParameterSetView) -> JsonDocumentView {
    match p {
        ParameterSetView::Absent => JsonDocumentView::Null,
        ParameterSetView::Positional(v) => JsonDocumentView::Array(entries_of(v)),
        ParameterSetView::Named(v) => JsonDocumentView::Object(named_entries_of(v)),
    }
}

/// The parameter set that a document is read as: positional values for an
/// array, named values for an object, none for anything else.
pub open spec fn params_from(d: JsonDocumentView) -> ParameterSetView {
    match d {
        JsonDocumentView::Array(items) => ParameterSetView::Positional(values_of(items)),
        JsonDocumentView::Object(entries) => ParameterSetView::Named(named_values_of(entries)),
        _ => ParameterSetView::Absent,
    }
}

/// Every value of the set can be written and read back unchanged.
pub open spec fn storable(p: ParameterSetView) -> bool {
    match p {
        ParameterSetView::Absent => true,
        ParameterSetView::Positional(v) => forall|i: int|
            0 <= i < v.len() ==> value_storable(#[trigger] v[i]),
        ParameterSetView::Named(v) => forall|i: int|
            0 <= i < v.len() ==> value_storable(#[trigger] v[i].1),
    }
}

/// Reading is the inverse of writing: the document that a storable
/// parameter set is written as is read as that parameter set.
pub proof fn lemma_params_round_trip(p: ParameterSetView)
    requires
        storable(p),
    ensures
        params_from(document_of(p)) == p,
{
    match p {
        ParameterSetView::Absent => {},
        ParameterSetView::Positional(v) => {
            assert forall|i: int| 0 <= i < v.len() implies value_of(entry_of(v[i])) == v[i] by {
                lemma_value_round_trip(v[i]);
            }
            assert(values_of(entries_of(v)) =~= v);
        },
        ParameterSetView::Named(v) => {
            assert forall|i: int| 0 <= i < v.len() implies value_of(entry_of(v[i].1))
                == v[i].1 by {
                lemma_value_round_trip(v[i].1);
            }
            assert(named_values_of(named_entries_of(v)) =~= v);
        },
    }
}

/// The document that `params` is written to the log as.
pub fn params_to_json(params: &ParameterSet) -> (r: JsonDocument)
    ensures
        r@ == document_of(params@),
{
    match params {
        ParameterSet::Absent => JsonDocument::Null,
        ParameterSet::Positional(v) => {
            let mut items: Vec<JsonEntry> = Vec::new();
            let mut i: usize = 0;
            while i < v.len()
                invariant
                    i <= v.len(),
                    items@.len() == i,
                    forall|j: int| 0 <= j < i ==> items@[j]@ == entry_of(v@[j]@),
                decreases v.len() - i,
            {
                items.push(libsql_value_to_json(&v[i]));
                i += 1;
            }
            assert(views(items@) =~= entries_of(views(v@)));
            JsonDocument::Array(items)
        },
        ParameterSet::Named(v) => {
            let mut entries: Vec<(String, JsonEntry)> = Vec::new();
            let mut i: usize = 0;
            while i < v.len()
                invariant
                    i <= v.len(),
                    entries@.len() == i,
                    forall|j: int|
                        0 <= j < i ==> entries@[j]@ == (v@[j].0@, entry_of(v@[j].1@)),
                decreases v.len() - i,
            {
                entries.push((v[i].0.clone(), libsql_value_to_json(&v[i].1)));
                i += 1;
            }
            assert(views(entries@) =~= named_entries_of(views(v@)));
            JsonDocument::Object(entries)
        },
    }
}

/// The parameter set that `document` is read from the log as.
pub fn params_from_json(document: &JsonDocument) -> (r: ParameterSet)
    ensures
        r@ == params_from(document@),
{
    match document {
        JsonDocument::Array(items) => {
            let mut values: Vec<QueryValue> = Vec::new();
            let mut i: usize = 0;
            while i < items.len()
                invariant
                    i <= items.len(),
                    values@.len() == i,
                    forall|j: int| 0 <= j < i ==> values@[j]@ == value_of(items@[j]@),
                decreases items.len() - i,
            {
                values.push(json_to_libsql_value(&items[i]));
                i += 1;
            }
            assert(views(values@) =~= values_of(views(items@)));
            ParameterSet::Positional(values)
        },
        JsonDocument::Object(entries) => {
            let mut values: Vec<(String, QueryValue)> = Vec::new();
            let mut i: usize = 0;
            while i < entries.len()
                invariant
                    i <= entries.len(),
                    values@.len() == i,
                    forall|j: int|
                        0 <= j < i ==> values@[j]@ == (entries@[j].0@, value_of(entries@[j].1@)),
                decreases entries.len() - i,
            {
                values.push((entries[i].0.clone(), json_to_libsql_value(&entries[i].1)));
                i += 1;
            }
            assert(views(values@) =~= named_values_of(views(entries@)));
            ParameterSet::Named(values)
        },
        _ => ParameterSet::Absent,
    }
}

} // verus!

//! Binding values to a prepared statement: the parameters that a host
//! array holds, and the placeholders that positional values are bound to.

use crate::query_params::{QueryParameters, QueryParametersView, QueryValue, QueryValueView};
use crate::text::{
    append, chars_of, contains, decimal, decimal_of, has_text, same_text, string_of, views,
};
use vstd::prelude::*;

verus! {

/// The key of an entry of a host array: a position or a name.
#[derive(Debug, Clone, PartialEq)]
pub enum ParamKey {
    Index(i64),
    Name(String),
}

/// What a `ParamKey` stands for.
pub enum ParamKeyView {
    Index(i64),
    Name(Seq<char>),
}

impl View for ParamKey {
    type V = ParamKeyView;

    open spec fn view(&self) -> ParamKeyView {
        match *self {
            ParamKey::Index(i) => ParamKeyView::Index(i),
            ParamKey::Name(n) => ParamKeyView::Name(n@),
        }
    }
}

/// Positional values with `value` at `index`; the positions that had no
/// value before it are null.
pub open spec fn placed(positional: Seq<QueryValueView>, index: int, value: QueryValueView) -> Seq<
    QueryValueView,
> {
    if index < positional.len() {
        positional.update(index, value)
    } else {
        positional + Seq::new((index - positional.len()) as nat, |i: int| QueryValueView::Null)
            + seq![value]
    }
}

/// The position of the value named `name`, if there is one.
pub open spec fn named_position(named: Seq<(Seq<char>, QueryValueView)>, name: Seq<char>) -> Option<
    int,
>
    decreases named.len(),
{
    if named.len() == 0 {
        None
    } else if named_position(named.drop_last(), name) is Some {
        named_position(named.drop_last(), name)
    } else if named.last().0 == name {
        Some(named.len() - 1)
    } else {
        None
    }
}

/// Named values with `value` under `name`, in place of the value that the
/// name had, or behind the others where it had none.
pub open spec fn bound(
    named: Seq<(Seq<char>, QueryValueView)>,
    name: Seq<char>,
    value: QueryValueView,
) -> Seq<(Seq<char>, QueryValueView)> {
    match named_position(named, name) {
        Some(j) => named.update(j, (name, value)),
        None => named.push((name, value)),
    }
}

/// The positional and the named values that the entries of a host array
/// come to, taken in order.
pub open spec fn collected(entries: Seq<(ParamKeyView, QueryValueView)>) -> (
    Seq<QueryValueView>,
    Seq<(Seq<char>, QueryValueView)>,
)
    decreases entries.len(),
{
    if entries.len() == 0 {
        (Seq::empty(), Seq::empty())
    } else {
        let before = collected(entries.drop_last());
        match entries.last().0 {
            ParamKeyView::Index(i) => (placed(before.0, i as int, entries.last().1), before.1),
            ParamKeyView::Name(n) => (before.0, bound(before.1, n, entries.last().1)),
        }
    }
}

/// The parameters that the entries of a host array stand for: the values
/// at positions, the values under names, and neither where there are none.
pub open spec fn parameters_of(entries: Seq<(ParamKeyView, QueryValueView)>) -> QueryParametersView {
    let both = collected(entries);
    QueryParametersView {
        positional: if both.0.len() == 0 {
            None
        } else {
            Some(both.0)
        },
        named: if both.1.len() == 0 {
            None
        } else {
            Some(both.1)
        },
    }
}

/// Every position among the keys can be one in a vector.
pub open spec fn positions_fit(entries: Seq<(ParamKeyView, QueryValueView)>) -> bool {
    forall|i: int|
        0 <= i < entries.len() ==> ((#[trigger] entries[i]).0 matches ParamKeyView::Index(k) ==> 0
            <= k < usize::MAX)
}

fn place(positional: &mut Vec<QueryValue>, index: usize, value: QueryValue)
    requires
        index < usize::MAX,
    ensures
        views(final(positional)@) == placed(views(old(positional)@), index as int, value@),
{
    if index < positional.len() {
        positional[index] = value;
        assert(views(positional@) =~= placed(views(old(positional)@), index as int, value@));
    } else {
        while positional.len() < index
            invariant
                old(positional)@.len() <= positional@.len() <= index,
                views(positional@) == views(old(positional)@) + Seq::new(
                    (positional@.len() - old(positional)@.len()) as nat,
                    |i: int| QueryValueView::Null,
                ),
            decreases index - positional.len(),
        {
            let ghost before = positional@;
            let ghost nulls = Seq::new(
                (before.len() - old(positional)@.len()) as nat,
                |i: int| QueryValueView::Null,
            );
            positional.push(QueryValue::Null);
            assert(views(positional@) =~= views(before).push(QueryValueView::Null));
            assert(nulls.push(QueryValueView::Null) =~= Seq::new(
                (positional@.len() - old(positional)@.len()) as nat,
                |i: int| QueryValueView::Null,
            ));
            assert((views(old(positional)@) + nulls).push(QueryValueView::Null) =~= views(
                old(positional)@,
            ) + nulls.push(QueryValueView::Null));
            assert(views(positional@) =~= views(old(positional)@) + Seq::new(
                (positional@.len() - old(positional)@.len()) as nat,
                |i: int| QueryValueView::Null,
            ));
        }
        positional.push(value);
        assert(views(positional@) =~= placed(views(old(positional)@), index as int, value@));
    }
}

fn position_of(named: &Vec<(String, QueryValue)>, name: &str) -> (r: Option<usize>)
    ensures
        match r {
            Some(j) => named_position(views(named@), name@) == Some(j as int) && j < named.len(),
            None => named_position(views(named@), name@) is None,
        },
{
    let mut i: usize = 0;
    while i < named.len()
        invariant
            i <= named.len(),
            named_position(views(named@).take(i as int), name@) is None,
        decreases named.len() - i,
    {
        let ghost upto = views(named@).take(i + 1);
        assert(upto.drop_last() =~= views(named@).take(i as int));
        assert(upto.last() == named@[i as int]@);
        if same_text(named[i].0.as_str(), name) {
            proof {
                lemma_position_stays(views(named@), name@, i + 1);
            }
            return Some(i);
        }
        i += 1;
    }
    assert(views(named@).take(named.len() as int) =~= views(named@));
    None
}

proof fn lemma_position_stays(named: Seq<(Seq<char>, QueryValueView)>, name: Seq<char>, n: int)
    requires
        0 <= n <= named.len(),
        named_position(named.take(n), name) is Some,
    ensures
        named_position(named, name) == named_position(named.take(n), name),
    decreases named.len() - n,
{
    if n < named.len() {
        assert(named.take(n + 1).drop_last() =~= named.take(n));
        lemma_position_stays(named, name, n + 1);
    } else {
        assert(named.take(n) =~= named);
    }
}

/// Puts `value` under `name`.
pub fn bind(named: &mut Vec<(String, QueryValue)>, name: String, value: QueryValue)
    ensures
        views(final(named)@) == bound(views(old(named)@), name@, value@),
{
    match position_of(named, name.as_str()) {
        Some(j) => {
            named[j] = (name, value);
            assert(views(named@) =~= views(old(named)@).update(j as int, (name@, value@)));
        },
        None => {
            named.push((name, value));
            assert(views(named@) =~= views(old(named)@).push((name@, value@)));
        },
    }
}

impl QueryParameters {
    /// The parameters that the entries of a host array stand for.
    pub fn from_entries(entries: Vec<(ParamKey, QueryValue)>) -> (r: QueryParameters)
        requires
            positions_fit(views(entries@)),
        ensures
            r@ == parameters_of(views(entries@)),
    {
        let mut positional: Vec<QueryValue> = Vec::new();
        let mut named: Vec<(String, QueryValue)> = Vec::new();
        let mut i: usize = 0;
        assert(views(entries@).take(0) =~= Seq::empty());
        while i < entries.len()
            invariant
                i <= entries.len(),
                positions_fit(views(entries@)),
                (views(positional@), views(named@)) == collected(views(entries@).take(i as int)),
            decreases entries.len() - i,
        {
            let ghost upto = views(entries@).take(i + 1);
            assert(upto.drop_last() =~= views(entries@).take(i as int));
            assert(upto.last() == entries@[i as int]@);
            assert(views(entries@)[i as int] == entries@[i as int]@);
            let value = entries[i].1.copy();
            match &entries[i].0 {
                ParamKey::Index(k) => {
                    place(&mut positional, *k as usize, value);
                },
                ParamKey::Name(n) => {
                    bind(&mut named, n.clone(), value);
                },
            }
            i += 1;
        }
        assert(views(entries@).take(entries.len() as int) =~= views(entries@));
        QueryParameters {
            positional: if positional.len() == 0 {
                None
            } else {
                Some(positional)
            },
            named: if named.len() == 0 {
                None
            } else {
                Some(named)
            },
        }
    }
}

/// The sign that the placeholders of a statement begin with: `$` where the
/// statement holds `$1`, else `?` where it holds one, else `@` where it
/// holds `@1`, and `$` where it holds none of them.
pub open spec fn placeholder_sign(stmt: Seq<char>) -> Seq<char> {
    if contains(stmt, "$1"@) {
        "$"@
    } else if contains(stmt, "?"@) {
        "?"@
    } else if contains(stmt, "@1"@) {
        "@"@
    } else {
        "$"@
    }
}

/// The placeholder of the positional value at `index`, counted from zero:
/// the sign and the number of the value, counted from one.
pub open spec fn placeholder(stmt: Seq<char>, index: nat) -> Seq<char> {
    placeholder_sign(stmt) + decimal(index + 1)
}

/// The placeholders of `count` positional values of a statement, in order.
pub fn positional_keys(stmt: &str, count: usize) -> (r: Vec<String>)
    ensures
        views(r@) == Seq::new(count as nat, |i: int| placeholder(stmt@, i as nat)),
{
    let text = chars_of(stmt);
    let sign = if has_text(&text, &chars_of("$1")) {
        chars_of("$")
    } else if has_text(&text, &chars_of("?")) {
        chars_of("?")
    } else if has_text(&text, &chars_of("@1")) {
        chars_of("@")
    } else {
        chars_of("$")
    };
    let mut keys: Vec<String> = Vec::new();
    let mut i: usize = 0;
    while i < count
        invariant
            i <= count,
            sign@ == placeholder_sign(stmt@),
            keys@.len() == i,
            forall|j: int| 0 <= j < i ==> keys@[j]@ == placeholder(stmt@, j as nat),
        decreases count - i,
    {
        let mut key: Vec<char> = Vec::new();
        append(&mut key, &sign);
        append(&mut key, &decimal_of((i + 1) as u64));
        assert(key@ =~= placeholder(stmt@, i as nat));
        keys.push(string_of(&key));
        i += 1;
    }
    assert(views(keys@) =~= Seq::new(count as nat, |i: int| placeholder(stmt@, i as nat)));
    keys
}

} // verus!

//! The rows of a query as they are handed to the host: by the names of the
//! columns, by their positions, or by both.

use crate::config::{remove_duplicates, without_duplicates};
use crate::query_params::{QueryValue, QueryValueView};
use crate::statement::{bind, bound};
use crate::text::{decimal, decimal_of, string_of, views};
use vstd::prelude::*;

verus! {

/// Rows are keyed by the names of the columns.
pub const LIBSQL_ASSOC: i32 = 1;

/// Rows are keyed by the positions of the columns.
pub const LIBSQL_NUM: i32 = 2;

/// Rows are keyed by both.
pub const LIBSQL_BOTH: i32 = 3;

/// The whole result is handed over at once, with what is known about it.
pub const LIBSQL_ALL: i32 = 4;

/// Rows are keyed by both and handed over one by one.
pub const LIBSQL_LAZY: i32 = 5;

/// The keys under which the value of the column at `index` is handed over
/// in a mode: its name, its position in decimal, or the name and then the
/// position.
pub open spec fn keys_of_column(mode: i32, names: Seq<Seq<char>>, index: int) -> Seq<
    (Seq<char>, int),
> {
    if mode == LIBSQL_ASSOC {
        seq![(names[index], index)]
    } else if mode == LIBSQL_NUM {
        seq![(decimal(index as nat), index)]
    } else {
        seq![(names[index], index), (decimal(index as nat), index)]
    }
}

/// The keys of a row in a mode, each with the position of the column whose
/// value it stands for, column by column.
pub open spec fn keys_of_row(mode: i32, names: Seq<Seq<char>>) -> Seq<(Seq<char>, int)>
    decreases names.len(),
{
    if names.len() == 0 {
        Seq::empty()
    } else {
        keys_of_row(mode, names.drop_last()) + keys_of_column(mode, names, names.len() - 1)
    }
}

/// The key of an exec pair, with its position as a number of the model.
pub open spec fn key_views(keys: Seq<(String, usize)>) -> Seq<(Seq<char>, int)> {
    Seq::new(keys.len(), |i: int| (keys[i].0@, keys[i].1 as int))
}

proof fn lemma_keys_of_column_ignore_later(mode: i32, names: Seq<Seq<char>>, n: int, index: int)
    requires
        0 <= index < n <= names.len(),
    ensures
        keys_of_column(mode, names.take(n), index) == keys_of_column(mode, names, index),
{
}

/// The keys of a row in a mode, each with the position of its column.
pub fn row_keys(mode: i32, columns: &Vec<String>) -> (r: Vec<(String, usize)>)
    ensures
        key_views(r@) == keys_of_row(mode, views(columns@)),
{
    let mut keys: Vec<(String, usize)> = Vec::new();
    let mut i: usize = 0;
    assert(views(columns@).take(0) =~= Seq::<Seq<char>>::empty());
    assert(key_views(keys@) =~= Seq::<(Seq<char>, int)>::empty());
    while i < columns.len()
        invariant
            i <= columns.len(),
            key_views(keys@) == keys_of_row(mode, views(columns@).take(i as int)),
        decreases columns.len() - i,
    {
        let ghost names = views(columns@);
        let ghost upto = names.take(i + 1);
        let ghost before = key_views(keys@);
        proof {
            assert(upto.drop_last() =~= names.take(i as int));
            assert(upto[i as int] == columns@[i as int]@);
            lemma_keys_of_column_ignore_later(mode, names, i + 1, i as int);
        }
        if mode == LIBSQL_ASSOC {
            keys.push((columns[i].clone(), i));
            assert(key_views(keys@) =~= before + keys_of_column(mode, names, i as int));
        } else if mode == LIBSQL_NUM {
            keys.push((string_of(&decimal_of(i as u64)), i));
            assert(key_views(keys@) =~= before + keys_of_column(mode, names, i as int));
        } else {
            keys.push((columns[i].clone(), i));
            keys.push((string_of(&decimal_of(i as u64)), i));
            assert(key_views(keys@) =~= before + keys_of_column(mode, names, i as int));
        }
        i += 1;
    }
    assert(views(columns@).take(columns.len() as int) =~= views(columns@));
    keys
}

/// The values of a row under the names of their columns. Where two columns
/// have one name, the name stands where the first of them stood, for the
/// value of the last.
pub open spec fn named_row(names: Seq<Seq<char>>, values: Seq<QueryValueView>) -> Seq<
    (Seq<char>, QueryValueView),
>
    decreases names.len(),
{
    if names.len() == 0 || values.len() == 0 {
        Seq::empty()
    } else {
        bound(named_row(names.drop_last(), values.drop_last()), names.last(), values.last())
    }
}

/// Every row of `rows` under the names of the columns.
pub open spec fn named_rows(names: Seq<Seq<char>>, rows: Seq<Seq<QueryValueView>>) -> Seq<
    Seq<(Seq<char>, QueryValueView)>,
> {
    Seq::new(rows.len(), |i: int| named_row(names, rows[i]))
}

/// All that a query gave.
#[derive(Debug, Clone, PartialEq)]
pub struct ResultSet {
    pub columns: Vec<String>,
    pub rows: Vec<Vec<(String, QueryValue)>>,
    pub rows_affected: u64,
    pub last_insert_rowid: Option<i64>,
}

/// The rows of a result set, each the views of its named values.
pub open spec fn named_rows_view(rows: Seq<Vec<(String, QueryValue)>>) -> Seq<
    Seq<(Seq<char>, QueryValueView)>,
> {
    Seq::new(rows.len(), |i: int| views(rows[i]@))
}

/// Every row has a value for every column.
pub open spec fn rows_fit(names: Seq<Seq<char>>, rows: Seq<Vec<QueryValue>>) -> bool {
    forall|i: int| 0 <= i < rows.len() ==> (#[trigger] rows[i])@.len() == names.len()
}

fn name_row(names: &Vec<String>, values: &Vec<QueryValue>) -> (r: Vec<(String, QueryValue)>)
    requires
        values@.len() == names@.len(),
    ensures
        views(r@) == named_row(views(names@), views(values@)),
{
    let mut row: Vec<(String, QueryValue)> = Vec::new();
    let mut i: usize = 0;
    assert(views(row@) =~= named_row(views(names@).take(0), views(values@).take(0)));
    while i < names.len()
        invariant
            i <= names.len(),
            values@.len() == names@.len(),
            views(row@) == named_row(views(names@).take(i as int), views(values@).take(i as int)),
        decreases names.len() - i,
    {
        proof {
            let n = views(names@).take(i + 1);
            let v = views(values@).take(i + 1);
            assert(n.drop_last() =~= views(names@).take(i as int));
            assert(v.drop_last() =~= views(values@).take(i as int));
            assert(n.last() == names@[i as int]@);
            assert(v.last() == values@[i as int]@);
        }
        bind(&mut row, names[i].clone(), values[i].copy());
        i += 1;
    }
    assert(views(names@).take(names.len() as int) =~= views(names@));
    assert(views(values@).take(names.len() as int) =~= views(values@));
    row
}

impl ResultSet {
    /// The result set of a query: its rows under the names of the columns,
    /// and the names of the columns, each once; no names where there are no
    /// rows.
    pub fn collect(
        names: &Vec<String>,
        rows: &Vec<Vec<QueryValue>>,
        rows_affected: u64,
        last_insert_rowid: Option<i64>,
    ) -> (r: ResultSet)
        requires
            rows_fit(views(names@), rows@),
        ensures
            views(r.columns@) == if rows@.len() == 0 {
                Seq::<Seq<char>>::empty()
            } else {
                without_duplicates(views(names@))
            },
            named_rows_view(r.rows@) == named_rows(
                views(names@),
                crate::protocol::rows_view(rows@),
            ),
            r.rows_affected == rows_affected,
            r.last_insert_rowid == last_insert_rowid,
    {
        let mut columns: Vec<String> = Vec::new();
        if rows.len() > 0 {
            let mut i: usize = 0;
            while i < names.len()
                invariant
                    i <= names.len(),
                    columns@.len() == i,
                    forall|j: int| 0 <= j < i ==> columns@[j]@ == names@[j]@,
                decreases names.len() - i,
            {
                columns.push(names[i].clone());
                i += 1;
            }
            assert(views(columns@) =~= views(names@));
            remove_duplicates(&mut columns);
        } else {
            assert(views(columns@) =~= Seq::<Seq<char>>::empty());
        }
        let mut named: Vec<Vec<(String, QueryValue)>> = Vec::new();
        let mut k: usize = 0;
        while k < rows.len()
            invariant
                k <= rows.len(),
                rows_fit(views(names@), rows@),
                named@.len() == k,
                forall|j: int|
                    0 <= j < k ==> views(named@[j]@) == named_row(views(names@), views(rows@[j]@)),
            decreases rows.len() - k,
        {
            assert(rows@[k as int]@.len() == names@.len());
            named.push(name_row(names, &rows[k]));
            k += 1;
        }
        assert(named_rows_view(named@) =~= named_rows(
            views(names@),
            crate::protocol::rows_view(rows@),
        ));
        ResultSet { columns, rows: named, rows_affected, last_insert_rowid }
    }
}

} // verus!

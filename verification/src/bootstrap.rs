//! The statements by which the local store is made a copy of the remote
//! one, once in its lifetime.

use crate::text::{
    append, append_str, chars_of, contains, has_text, join, join_with, lower, matches_at,
    occurs_at, same_text, slice, string_of, to_lower, views,
};
use vstd::prelude::*;

verus! {

/// Reads the note that the copy has been made.
pub const FLAG_QUERY: &'static str =
    "SELECT value FROM libsql_metadata WHERE key = 'initial_sync_done'";

/// Reads the statements that made the tables, indexes and views of the
/// remote store, but for the library's own.
pub const SCHEMA_QUERY: &'static str =
    "SELECT sql FROM sqlite_master WHERE type IN ('table', 'index', 'view') AND name NOT LIKE 'libsql_%'";

/// Reads the names of the tables of the remote store, but for the library's
/// own.
pub const TABLES_QUERY: &'static str =
    "SELECT name FROM sqlite_master WHERE type = 'table' AND name NOT LIKE 'libsql_%'";

/// Notes that the copy has been made.
pub const MARK_DONE: &'static str =
    "INSERT OR REPLACE INTO libsql_metadata (key, value) VALUES ('initial_sync_done', 'true')";

/// The value of the note once the copy has been made.
pub const DONE_VALUE: &'static str = "true";

/// What is put behind the keyword of a statement that creates something.
pub const GUARD: &'static str = " IF NOT EXISTS";

/// `sql` with the guard put in after its first `at` characters.
pub open spec fn with_guard(sql: Seq<char>, at: int) -> Seq<char> {
    sql.take(at) + GUARD@ + sql.skip(at)
}

/// A character that a word of a statement is made of: an ASCII letter in
/// lower case, a digit or an underscore.
pub open spec fn is_word_char(c: char) -> bool {
    ('a' <= c && c <= 'z') || ('0' <= c && c <= '9') || c == '_'
}

/// `word` stands in `low` at position `i` as a word of its own: no
/// character of a word stands right before it or right behind it.
pub open spec fn is_word_at(low: Seq<char>, word: Seq<char>, i: int) -> bool {
    &&& occurs_at(low, word, i)
    &&& i > 0 ==> !is_word_char(low[i - 1])
    &&& i + word.len() < low.len() ==> !is_word_char(low[i + word.len()])
}

/// Where the keyword ends that stands at position `i` of a statement in
/// lower case: `table`, `index` or `view`, as a word of its own.
pub open spec fn keyword_end_at(low: Seq<char>, i: int) -> Option<int> {
    if is_word_at(low, "table"@, i) {
        Some(i + 5)
    } else if is_word_at(low, "index"@, i) {
        Some(i + 5)
    } else if is_word_at(low, "view"@, i) {
        Some(i + 4)
    } else {
        None
    }
}

/// Where the first keyword ends that stands at position `from` of a
/// statement in lower case or behind it.
pub open spec fn first_keyword_end(low: Seq<char>, from: int) -> Option<int>
    decreases low.len() - from,
{
    if from < 0 || from >= low.len() {
        None
    } else {
        match keyword_end_at(low, from) {
            Some(end) => Some(end),
            None => first_keyword_end(low, from + 1),
        }
    }
}

/// The statement that creates what `sql` creates unless it is there
/// already: the guard is put behind the first of the keywords `TABLE`,
/// `INDEX` and `VIEW` that stands in it as a word of its own. A statement
/// that holds `IF NOT EXISTS` anywhere stays as it is, and so does one
/// without any of the keywords. The case of ASCII letters does not count.
pub open spec fn guarded(sql: Seq<char>) -> Seq<char> {
    let low = lower(sql);
    if contains(low, "if not exists"@) {
        sql
    } else {
        match first_keyword_end(low, 0) {
            Some(end) => with_guard(sql, end),
            None => sql,
        }
    }
}

/// A keyword ends inside the statement.
pub proof fn lemma_keyword_ends_inside(low: Seq<char>, from: int)
    ensures
        first_keyword_end(low, from) matches Some(end) ==> 0 <= from < end <= low.len(),
    decreases low.len() - from,
{
    reveal_strlit("table");
    reveal_strlit("index");
    reveal_strlit("view");
    if 0 <= from < low.len() && keyword_end_at(low, from) is None {
        lemma_keyword_ends_inside(low, from + 1);
    }
}

fn insert_guard(sql: &Vec<char>, at: usize) -> (r: String)
    requires
        at <= sql.len(),
    ensures
        r@ == with_guard(sql@, at as int),
{
    let mut out = slice(sql, 0, at);
    append_str(&mut out, GUARD);
    append(&mut out, &slice(sql, at, sql.len()));
    assert(out@ =~= with_guard(sql@, at as int));
    string_of(&out)
}

fn word_char(c: char) -> (r: bool)
    ensures
        r == is_word_char(c),
{
    ('a' <= c && c <= 'z') || ('0' <= c && c <= '9') || c == '_'
}

fn word_at(low: &Vec<char>, word: &Vec<char>, i: usize) -> (r: bool)
    requires
        i < low.len(),
    ensures
        r == is_word_at(low@, word@, i as int),
{
    if !matches_at(low, word, i) {
        return false;
    }
    if i > 0 && word_char(low[i - 1]) {
        return false;
    }
    let end = i + word.len();
    !(end < low.len() && word_char(low[end]))
}

/// The statement that creates what `sql` creates unless it is there already.
pub fn add_if_not_exists(sql: &str) -> (r: String)
    ensures
        r@ == guarded(sql@),
{
    proof {
        reveal_strlit("table");
        reveal_strlit("index");
        reveal_strlit("view");
    }
    let v = chars_of(sql);
    let low = to_lower(&v);
    if has_text(&low, &chars_of("if not exists")) {
        return string_of(&v);
    }
    let table = chars_of("table");
    let index = chars_of("index");
    let view = chars_of("view");
    let mut i: usize = 0;
    while i < low.len()
        invariant
            i <= low.len(),
            v@ == sql@,
            low@ == lower(v@),
            low@.len() == v@.len(),
            !contains(low@, "if not exists"@),
            table@ == "table"@,
            index@ == "index"@,
            view@ == "view"@,
            "table"@.len() == 5,
            "index"@.len() == 5,
            "view"@.len() == 4,
            first_keyword_end(low@, 0) == first_keyword_end(low@, i as int),
        decreases low.len() - i,
    {
        if word_at(&low, &table, i) || word_at(&low, &index, i) {
            assert(first_keyword_end(low@, i as int) == Some(i + 5));
            return insert_guard(&v, i + 5);
        }
        if word_at(&low, &view, i) {
            assert(first_keyword_end(low@, i as int) == Some(i + 4));
            return insert_guard(&v, i + 4);
        }
        i += 1;
    }
    string_of(&v)
}

/// A statement with the guard put in holds `if not exists`.
proof fn lemma_guard_is_seen(sql: Seq<char>, at: int)
    requires
        0 <= at <= sql.len(),
    ensures
        contains(lower(with_guard(sql, at)), "if not exists"@),
{
    reveal_strlit(" IF NOT EXISTS");
    reveal_strlit("if not exists");
    let guarded = with_guard(sql, at);
    let low = lower(guarded);
    let wanted = "if not exists"@;
    assert forall|k: int| 0 <= k < wanted.len() implies low.subrange(at + 1, at + 1 + wanted.len())[k]
        == wanted[k] by {
        assert(guarded[at + 1 + k] == GUARD@[1 + k]);
    }
    assert(low.subrange(at + 1, at + 1 + wanted.len()) =~= wanted);
    assert(occurs_at(low, wanted, at + 1));
}

/// Guarding is idempotent: a guarded statement is guarded by itself, so
/// that a bootstrap that runs again asks for the same statements.
pub proof fn lemma_guarded_twice(sql: Seq<char>)
    ensures
        guarded(guarded(sql)) == guarded(sql),
{
    let low = lower(sql);
    if !contains(low, "if not exists"@) {
        lemma_keyword_ends_inside(low, 0);
        match first_keyword_end(low, 0) {
            Some(end) => {
                lemma_guard_is_seen(sql, end);
            },
            None => {},
        }
    }
}

/// Every statement of `sqls` guarded, in order.
pub open spec fn all_guarded(sqls: Seq<Seq<char>>) -> Seq<Seq<char>> {
    Seq::new(sqls.len(), |i: int| guarded(sqls[i]))
}

/// Every statement of `sqls` guarded, in order.
pub fn guard_all(sqls: &Vec<String>) -> (r: Vec<String>)
    ensures
        views(r@) == all_guarded(views(sqls@)),
{
    let mut r: Vec<String> = Vec::new();
    let mut i: usize = 0;
    while i < sqls.len()
        invariant
            i <= sqls.len(),
            r@.len() == i,
            forall|j: int| 0 <= j < i ==> r@[j]@ == guarded(sqls@[j]@),
        decreases sqls.len() - i,
    {
        r.push(add_if_not_exists(sqls[i].as_str()));
        i += 1;
    }
    assert(views(r@) =~= all_guarded(views(sqls@)));
    r
}

/// Whether the rows of the note say that the copy has been made: the first
/// of them is `true`.
pub open spec fn says_done(values: Seq<Seq<char>>) -> bool {
    values.len() > 0 && values[0] == DONE_VALUE@
}

/// Whether the rows of the note say that the copy has been made.
pub fn sync_done(values: &Vec<String>) -> (r: bool)
    ensures
        r == says_done(views(values@)),
{
    if values.len() > 0 {
        assert(views(values@)[0] == values@[0]@);
        same_text(values[0].as_str(), DONE_VALUE)
    } else {
        false
    }
}

/// The statement that reads every row of `table`.
pub open spec fn select_all(table: Seq<char>) -> Seq<char> {
    "SELECT * FROM \""@ + table + "\""@
}

/// The statement that reads every row of `table`.
pub fn select_all_statement(table: &str) -> (r: String)
    ensures
        r@ == select_all(table@),
{
    let mut out: Vec<char> = Vec::new();
    append_str(&mut out, "SELECT * FROM \"");
    append_str(&mut out, table);
    append_str(&mut out, "\"");
    assert(out@ =~= select_all(table@));
    string_of(&out)
}

/// The statement that lists the columns of `table`, a row for each with the
/// name second.
pub open spec fn table_info(table: Seq<char>) -> Seq<char> {
    "PRAGMA table_info(\""@ + table + "\")"@
}

/// The statement that lists the columns of `table`.
pub fn table_info_statement(table: &str) -> (r: String)
    ensures
        r@ == table_info(table@),
{
    let mut out: Vec<char> = Vec::new();
    append_str(&mut out, "PRAGMA table_info(\"");
    append_str(&mut out, table);
    append_str(&mut out, "\")");
    assert(out@ =~= table_info(table@));
    string_of(&out)
}

/// `n` question marks.
pub open spec fn marks(n: nat) -> Seq<Seq<char>> {
    Seq::new(n, |i: int| "?"@)
}

/// The statement that writes one row of `table` unless a row with its key
/// is there already; it has a parameter for each of `columns`.
pub open spec fn insert_or_ignore(table: Seq<char>, columns: Seq<Seq<char>>) -> Seq<char> {
    "INSERT OR IGNORE INTO \""@ + table + "\" ("@ + join(columns, ","@) + ") VALUES ("@ + join(
        marks(columns.len()),
        ","@,
    ) + ")"@
}

fn chars_of_all(texts: &Vec<String>) -> (r: Vec<Vec<char>>)
    ensures
        views(r@) == views(texts@),
{
    let mut r: Vec<Vec<char>> = Vec::new();
    let mut i: usize = 0;
    while i < texts.len()
        invariant
            i <= texts.len(),
            r@.len() == i,
            forall|j: int| 0 <= j < i ==> r@[j]@ == texts@[j]@,
        decreases texts.len() - i,
    {
        r.push(chars_of(texts[i].as_str()));
        i += 1;
    }
    assert(views(r@) =~= views(texts@));
    r
}

fn question_marks(n: usize) -> (r: Vec<Vec<char>>)
    ensures
        views(r@) == marks(n as nat),
{
    let mut r: Vec<Vec<char>> = Vec::new();
    let mut i: usize = 0;
    while i < n
        invariant
            i <= n,
            r@.len() == i,
            forall|j: int| 0 <= j < i ==> r@[j]@ == "?"@,
        decreases n - i,
    {
        r.push(chars_of("?"));
        i += 1;
    }
    assert(views(r@) =~= marks(n as nat));
    r
}

/// The statement that writes one row of `table` unless it is there already.
pub fn insert_statement(table: &str, columns: &Vec<String>) -> (r: String)
    ensures
        r@ == insert_or_ignore(table@, views(columns@)),
{
    let comma = chars_of(",");
    let names = chars_of_all(columns);
    let mut out: Vec<char> = Vec::new();
    append_str(&mut out, "INSERT OR IGNORE INTO \"");
    append_str(&mut out, table);
    append_str(&mut out, "\" (");
    append(&mut out, &join_with(&names, &comma));
    append_str(&mut out, ") VALUES (");
    append(&mut out, &join_with(&question_marks(columns.len()), &comma));
    append_str(&mut out, ")");
    assert(out@ =~= insert_or_ignore(table@, views(columns@)));
    string_of(&out)
}

} // verus!

//! Configuration: the values a connection is described by, the data source
//! name, and the choice of the connection mode.

use crate::text::{
    ascii_lower, chars_of, contains, copy_str, ends_with, find_char, has_prefix, has_suffix,
    has_text, index_of, lemma_index_of, same_chars, same_text, slice, split, split_on,
    starts_with, string_of, to_ascii_lower, trim, trimmed, views,
};
use vstd::prelude::*;

verus! {

/// A configuration value: one text, or named values. In `Array` a name that
/// occurs twice stands for its last value.
#[derive(Debug)]
pub enum ConfigValue {
    String(String),
    Array(Vec<(String, ConfigValue)>),
}

impl ConfigValue {
    /// The text of a `String` value; an `Array` has none.
    pub fn to_string(&self) -> (r: Option<String>)
        ensures
            match *self {
                ConfigValue::String(s) => r matches Some(t) && t@ == s@,
                ConfigValue::Array(_) => r is None,
            },
    {
        match self {
            ConfigValue::String(s) => Some(s.clone()),
            _ => None,
        }
    }

    /// No configuration value is read as a number.
    pub fn to_long(&self) -> (r: Option<u64>)
        ensures
            r is None,
    {
        None
    }

    /// No configuration value is read as a truth value.
    pub fn to_bool(&self) -> (r: Option<bool>)
        ensures
            r is None,
    {
        None
    }

    /// The position of the last entry of an `Array` that is named `key`.
    pub open spec fn position(entries: Seq<(String, ConfigValue)>, key: Seq<char>) -> Option<int>
        decreases entries.len(),
    {
        if entries.len() == 0 {
            None
        } else if entries.last().0@ == key {
            Some(entries.len() - 1)
        } else {
            Self::position(entries.drop_last(), key)
        }
    }

    /// The value that `key` names: in an `Array` the last entry of that
    /// name; a `String` names nothing.
    pub fn get(&self, key: &str) -> (r: Option<&ConfigValue>)
        ensures
            match *self {
                ConfigValue::String(_) => r is None,
                ConfigValue::Array(entries) => match Self::position(entries@, key@) {
                    Some(i) => 0 <= i < entries@.len() && r == Some(&entries@[i].1),
                    None => r is None,
                },
            },
    {
        match self {
            ConfigValue::String(_) => None,
            ConfigValue::Array(entries) => {
                let mut i: usize = entries.len();
                assert(entries@.take(i as int) =~= entries@);
                while i > 0
                    invariant
                        i <= entries.len(),
                        *self matches ConfigValue::Array(e) && e == *entries,
                        Self::position(entries@, key@) == Self::position(
                            entries@.take(i as int),
                            key@,
                        ),
                    decreases i,
                {
                    let ghost head = entries@.take(i as int);
                    assert(head.last() == entries@[i - 1]);
                    assert(head.drop_last() =~= entries@.take(i - 1));
                    if same_text(entries[i - 1].0.as_str(), key) {
                        assert(Self::position(head, key@) == Some(i - 1));
                        return Some(&entries[i - 1].1);
                    }
                    i -= 1;
                }
                assert(entries@.take(0).len() == 0);
                None
            },
        }
    }

    /// The text that `key` names, or the empty text where `key` names no
    /// text.
    pub open spec fn text_at(self, key: Seq<char>) -> Seq<char> {
        match self {
            ConfigValue::String(_) => Seq::empty(),
            ConfigValue::Array(entries) => match Self::position(entries@, key) {
                Some(i) => match entries@[i].1 {
                    ConfigValue::String(s) => s@,
                    ConfigValue::Array(_) => Seq::empty(),
                },
                None => Seq::empty(),
            },
        }
    }

    /// The text that `key` names, or the empty text.
    pub fn text_or_empty(&self, key: &str) -> (r: String)
        ensures
            r@ == self.text_at(key@),
    {
        match self.get(key) {
            Some(v) => match v.to_string() {
                Some(s) => s,
                None => String::new(),
            },
            None => String::new(),
        }
    }
}

/// The paths of the extensions to load: one, or several.
#[derive(Debug, Clone, PartialEq)]
pub enum ExtensionParams {
    String(String),
    Array(Vec<String>),
}

/// What is reported to a webhook.
#[derive(Debug, Clone, PartialEq)]
pub struct WebhookPayload {
    pub event_type: String,
    pub query: Option<String>,
    pub message: Option<String>,
}

/// A data source name, taken apart.
#[derive(Debug, Clone, PartialEq)]
pub struct Dsn {
    pub dbname: String,
    pub auth_token: String,
}

/// What one character becomes in a slug.
pub open spec fn slug_char(c: char) -> char {
    if ('a' <= c && c <= 'z') || ('0' <= c && c <= '9') {
        c
    } else if 'A' <= c && c <= 'Z' {
        ascii_lower(c)
    } else {
        '_'
    }
}

/// The slug of `s`: ASCII letters in lower case, digits as they are, an
/// underscore for every other character.
pub open spec fn slug(s: Seq<char>) -> Seq<char> {
    Seq::new(s.len(), |i: int| slug_char(s[i]))
}

/// The slug of `s`.
pub fn slugify(s: &str) -> (r: String)
    ensures
        r@ == slug(s@),
{
    let v = chars_of(s);
    let mut out: Vec<char> = Vec::new();
    let mut i: usize = 0;
    while i < v.len()
        invariant
            i <= v.len(),
            out@.len() == i,
            forall|j: int| 0 <= j < i ==> out@[j] == slug_char(v@[j]),
        decreases v.len() - i,
    {
        let c = v[i];
        if ('a' <= c && c <= 'z') || ('0' <= c && c <= '9') {
            out.push(c);
        } else if 'A' <= c && c <= 'Z' {
            out.push(to_ascii_lower(c));
        } else {
            out.push('_');
        }
        i += 1;
    }
    assert(out@ =~= slug(v@));
    string_of(&out)
}

/// `s` with every text left out that stands earlier in it already.
pub open spec fn without_duplicates(s: Seq<Seq<char>>) -> Seq<Seq<char>>
    decreases s.len(),
{
    if s.len() == 0 {
        Seq::empty()
    } else {
        let head = without_duplicates(s.drop_last());
        if head.contains(s.last()) {
            head
        } else {
            head.push(s.last())
        }
    }
}

/// What `without_duplicates` keeps are the texts of `s`, each once.
pub proof fn lemma_without_duplicates(s: Seq<Seq<char>>)
    ensures
        without_duplicates(s).no_duplicates(),
        forall|x: Seq<char>| without_duplicates(s).contains(x) <==> s.contains(x),
    decreases s.len(),
{
    if s.len() > 0 {
        let init = s.drop_last();
        lemma_without_duplicates(init);
        let head = without_duplicates(init);
        let r = without_duplicates(s);
        assert forall|x: Seq<char>| r.contains(x) <==> s.contains(x) by {
            if s.contains(x) {
                let k = choose|k: int| 0 <= k < s.len() && s[k] == x;
                if k < s.len() - 1 {
                    assert(init[k] == x);
                    assert(init.contains(x));
                    assert(head.contains(x));
                    let m = choose|m: int| 0 <= m < head.len() && head[m] == x;
                    assert(r[m] == x);
                } else if !head.contains(s.last()) {
                    assert(r[r.len() - 1] == x);
                } else {
                    let m = choose|m: int| 0 <= m < head.len() && head[m] == x;
                    assert(r[m] == x);
                }
            }
            if r.contains(x) {
                let m = choose|m: int| 0 <= m < r.len() && r[m] == x;
                if m < head.len() {
                    assert(head[m] == x);
                    assert(head.contains(x));
                    assert(init.contains(x));
                    let k = choose|k: int| 0 <= k < init.len() && init[k] == x;
                    assert(s[k] == x);
                } else {
                    assert(s[s.len() - 1] == x);
                }
            }
        }
    }
}

fn holds(v: &Vec<String>, x: &String) -> (r: bool)
    ensures
        r == views(v@).contains(x@),
{
    let mut i: usize = 0;
    while i < v.len()
        invariant
            i <= v.len(),
            forall|j: int| 0 <= j < i ==> views(v@)[j] != x@,
        decreases v.len() - i,
    {
        if same_text(v[i].as_str(), x.as_str()) {
            assert(views(v@)[i as int] == x@);
            return true;
        }
        i += 1;
    }
    false
}

/// Leaves of every text in `vec` its first occurrence, in the order they had.
pub fn remove_duplicates(vec: &mut Vec<String>)
    ensures
        views(final(vec)@) == without_duplicates(views(old(vec)@)),
{
    let mut out: Vec<String> = Vec::new();
    let mut i: usize = 0;
    while i < vec.len()
        invariant
            i <= vec.len(),
            vec@ == old(vec)@,
            views(out@) == without_duplicates(views(vec@).take(i as int)),
        decreases vec.len() - i,
    {
        let ghost before = views(out@);
        let ghost upto = views(vec@).take(i + 1);
        assert(upto.drop_last() =~= views(vec@).take(i as int));
        assert(upto.last() == vec@[i as int]@);
        if !holds(&out, &vec[i]) {
            out.push(vec[i].clone());
            assert(views(out@) =~= before.push(vec@[i as int]@));
        }
        i += 1;
    }
    assert(views(vec@).take(vec.len() as int) =~= views(vec@));
    *vec = out;
}

/// The fields of a data source name with one more `key=value` part read.
pub open spec fn dsn_with(acc: (Seq<char>, Seq<char>), key: Seq<char>, value: Seq<char>) -> (
    Seq<char>,
    Seq<char>,
) {
    if key == "dbname"@ {
        (value, acc.1)
    } else if key == "authToken"@ {
        (acc.0, value)
    } else {
        acc
    }
}

/// The fields after reading `parts` in order, each of the form `key=value`;
/// nothing where a part has no `=`.
pub open spec fn dsn_fields(parts: Seq<Seq<char>>, acc: (Seq<char>, Seq<char>)) -> Option<
    (Seq<char>, Seq<char>),
>
    decreases parts.len(),
{
    if parts.len() == 0 {
        Some(acc)
    } else {
        match index_of(parts[0], '=') {
            Some(i) => if 0 <= i < parts[0].len() {
                dsn_fields(
                    parts.skip(1),
                    dsn_with(acc, trim(parts[0].take(i)), trim(parts[0].skip(i + 1))),
                )
            } else {
                None
            },
            None => None,
        }
    }
}

/// The database name and the token of a data source name. A text that does
/// not begin with `libsql:` is a database name as it stands; after that
/// prefix come `key=value` parts separated by `;`.
pub open spec fn dsn_of(dsn: Seq<char>) -> Option<(Seq<char>, Seq<char>)> {
    if has_prefix(dsn, "libsql:"@) {
        dsn_fields(split(dsn.skip(7), ';'), (Seq::empty(), Seq::empty()))
    } else {
        Some((dsn, Seq::empty()))
    }
}

/// The database name and the token of a data source name.
pub fn parse_dsn(dsn: &str) -> (r: Option<Dsn>)
    ensures
        match r {
            Some(d) => dsn_of(dsn@) == Some((d.dbname@, d.auth_token@)),
            None => dsn_of(dsn@) is None,
        },
{
    proof {
        reveal_strlit("libsql:");
    }
    let v = chars_of(dsn);
    let prefix = chars_of("libsql:");
    if !starts_with(&v, &prefix) {
        return Some(Dsn { dbname: copy_str(dsn), auth_token: String::new() });
    }
    let rest = slice(&v, 7, v.len());
    assert(rest@ =~= dsn@.skip(7));
    let parts = split_on(&rest, ';');
    let key_dbname = chars_of("dbname");
    let key_token = chars_of("authToken");
    let mut dbname: Vec<char> = Vec::new();
    let mut token: Vec<char> = Vec::new();
    let mut i: usize = 0;
    assert(views(parts@).skip(0) =~= views(parts@));
    while i < parts.len()
        invariant
            i <= parts.len(),
            dsn_of(dsn@) == dsn_fields(views(parts@), (Seq::empty(), Seq::empty())),
            key_dbname@ == "dbname"@,
            key_token@ == "authToken"@,
            dsn_fields(views(parts@), (Seq::empty(), Seq::empty())) == dsn_fields(
                views(parts@).skip(i as int),
                (dbname@, token@),
            ),
        decreases parts.len() - i,
    {
        let ghost todo = views(parts@).skip(i as int);
        assert(todo[0] == parts@[i as int]@);
        assert(todo.skip(1) =~= views(parts@).skip(i + 1));
        let part = &parts[i];
        proof {
            lemma_index_of(part@, '=');
            assert(part@.skip(0) =~= part@);
        }
        match find_char(part, 0, '=') {
            Some(at) => {
                let key = trimmed(&slice(part, 0, at));
                let value = trimmed(&slice(part, at + 1, part.len()));
                if same_chars(&key, &key_dbname) {
                    dbname = value;
                } else if same_chars(&key, &key_token) {
                    token = value;
                }
            },
            None => {
                assert(dsn_fields(todo, (dbname@, token@)) is None);
                return None;
            },
        }
        i += 1;
    }
    assert(views(parts@).skip(parts.len() as int).len() == 0);
    Some(Dsn { dbname: string_of(&dbname), auth_token: string_of(&token) })
}

/// The text has the form of a local database: a `file:` or `libsql:` prefix,
/// or a name that ends in `.db`.
pub open spec fn names_local_file(url: Seq<char>) -> bool {
    has_prefix(url, "file:"@) || has_suffix(url, ".db"@) || has_prefix(url, "libsql:"@)
}

/// The text begins as the address of a remote store does.
pub open spec fn names_remote(url: Seq<char>) -> bool {
    has_prefix(url, "libsql://"@) || has_prefix(url, "http://"@) || has_prefix(url, "https://"@)
}

/// The mode that a database address, a token and a sync address call for.
pub open spec fn mode_of(
    url: Option<Seq<char>>,
    auth_token: Option<Seq<char>>,
    sync_url: Option<Seq<char>>,
) -> Seq<char> {
    if url is Some && auth_token is Some && sync_url is Some && names_local_file(url->0)
        && auth_token->0.len() > 0 && names_remote(sync_url->0) {
        "remote_replica"@
    } else if url is Some && auth_token is Some && ((auth_token->0.len() > 0 && has_prefix(
        url->0,
        "libsql://"@,
    )) || has_prefix(url->0, "http://"@) || has_prefix(url->0, "https://"@)) {
        "remote"@
    } else if url is Some && (names_local_file(url->0) || contains(url->0, ":memory:"@)) {
        "local"@
    } else {
        "Mode is not available!"@
    }
}

/// The characters of an optional text.
pub open spec fn opt_text(o: Option<String>) -> Option<Seq<char>> {
    match o {
        Some(s) => Some(s@),
        None => None,
    }
}

fn is_local_file(url: &Vec<char>) -> (r: bool)
    ensures
        r == names_local_file(url@),
{
    starts_with(url, &chars_of("file:")) || ends_with(url, &chars_of(".db")) || starts_with(
        url,
        &chars_of("libsql:"),
    )
}

fn is_remote(url: &Vec<char>) -> (r: bool)
    ensures
        r == names_remote(url@),
{
    starts_with(url, &chars_of("libsql://")) || starts_with(url, &chars_of("http://"))
        || starts_with(url, &chars_of("https://"))
}

/// The mode that a database address, a token and a sync address call for.
pub fn get_mode(url: Option<String>, auth_token: Option<String>, sync_url: Option<String>) -> (r:
    String)
    ensures
        r@ == mode_of(opt_text(url), opt_text(auth_token), opt_text(sync_url)),
{
    let url_chars: Vec<char> = match &url {
        Some(u) => chars_of(u.as_str()),
        None => Vec::new(),
    };
    let token_chars: Vec<char> = match &auth_token {
        Some(t) => chars_of(t.as_str()),
        None => Vec::new(),
    };
    let sync_chars: Vec<char> = match &sync_url {
        Some(s) => chars_of(s.as_str()),
        None => Vec::new(),
    };
    if url.is_some() && auth_token.is_some() && sync_url.is_some() && is_local_file(&url_chars)
        && token_chars.len() > 0 && is_remote(&sync_chars) {
        copy_str("remote_replica")
    } else if url.is_some() && auth_token.is_some() && ((token_chars.len() > 0 && starts_with(
        &url_chars,
        &chars_of("libsql://"),
    )) || starts_with(&url_chars, &chars_of("http://")) || starts_with(
        &url_chars,
        &chars_of("https://"),
    )) {
        copy_str("remote")
    } else if url.is_some() && (is_local_file(&url_chars) || has_text(
        &url_chars,
        &chars_of(":memory:"),
    )) {
        copy_str("local")
    } else {
        copy_str("Mode is not available!")
    }
}

} // verus!

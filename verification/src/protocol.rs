//! What passes between the library and its host. The library decides; the
//! host holds the two stores and the network. A call into the library
//! gives a `Request`; the host does what it says and hands the `Reply`
//! back, until the request is to return an `Outcome` to the caller.

use crate::pending::{LogRow, LogRowView, NewLogRow, NewLogRowView};
use crate::query_params::{ParameterSet, ParameterSetView, QueryValue, QueryValueView};
use crate::text::views;
use vstd::prelude::*;

verus! {

/// One of the two stores of a connection.
#[derive(Debug, Clone, Copy, PartialEq, Eq, Structural)]
pub enum Store {
    Local,
    Remote,
}

/// The time of a step: milliseconds on a clock that never runs backwards,
/// and the seconds since 1970.
#[derive(Debug, Clone, Copy, PartialEq, Eq)]
pub struct Clock {
    pub monotonic_ms: u64,
    pub unix_secs: u64,
}

/// What a call came to.
#[derive(Debug, Clone, PartialEq)]
pub enum Outcome {
    /// The connection is set up. Where the local store was to be made a
    /// copy of the remote one and that failed, `bootstrap_error` says why;
    /// the connection can be used all the same, and the copy is made again
    /// when it is next asked for.
    Ready { bootstrap_error: Option<String> },
    /// The statement was executed and changed this many rows.
    Affected(u64),
    /// The batch was executed.
    Executed(bool),
    /// This many operations were replayed on the remote store.
    Synced(usize),
    /// The report of a sync made by hand.
    Message(String),
    /// Whether the remote store can be reached.
    Online(bool),
    /// The host is to run this query on this store and hand its rows to
    /// the caller.
    Query { store: Store, sql: String, params: ParameterSet },
    /// The host is to make the caller's call on this store and hand on what
    /// it gives.
    Route(Store),
    /// The host is to reset the local store, and before it the remote one
    /// where `remote` holds.
    Reset { remote: bool },
    /// The local store is a copy of the remote one.
    Bootstrapped,
    /// The call failed; the message says why.
    Error(String),
    /// The connection cannot be set up; the message says why.
    Fatal(String),
}

/// What an `Outcome` stands for.
pub enum OutcomeView {
    Ready { bootstrap_error: Option<Seq<char>> },
    Affected(u64),
    Executed(bool),
    Synced(nat),
    Message(Seq<char>),
    Online(bool),
    Query { store: Store, sql: Seq<char>, params: ParameterSetView },
    Route(Store),
    Reset { remote: bool },
    Bootstrapped,
    Error(Seq<char>),
    Fatal(Seq<char>),
}

impl View for Outcome {
    type V = OutcomeView;

    open spec fn view(&self) -> OutcomeView {
        match *self {
            Outcome::Ready { bootstrap_error } => OutcomeView::Ready {
                bootstrap_error: match bootstrap_error {
                    Some(m) => Some(m@),
                    None => None,
                },
            },
            Outcome::Affected(n) => OutcomeView::Affected(n),
            Outcome::Executed(b) => OutcomeView::Executed(b),
            Outcome::Synced(n) => OutcomeView::Synced(n as nat),
            Outcome::Message(m) => OutcomeView::Message(m@),
            Outcome::Online(b) => OutcomeView::Online(b),
            Outcome::Query { store, sql, params } => OutcomeView::Query {
                store,
                sql: sql@,
                params: params@,
            },
            Outcome::Route(s) => OutcomeView::Route(s),
            Outcome::Reset { remote } => OutcomeView::Reset { remote },
            Outcome::Bootstrapped => OutcomeView::Bootstrapped,
            Outcome::Error(m) => OutcomeView::Error(m@),
            Outcome::Fatal(m) => OutcomeView::Fatal(m@),
        }
    }
}

impl Outcome {
    /// An outcome that stands for the same as this one.
    pub fn copy(&self) -> (r: Outcome)
        ensures
            r@ == self@,
    {
        match self {
            Outcome::Ready { bootstrap_error } => Outcome::Ready {
                bootstrap_error: match bootstrap_error {
                    Some(m) => Some(m.clone()),
                    None => None,
                },
            },
            Outcome::Affected(n) => Outcome::Affected(*n),
            Outcome::Executed(b) => Outcome::Executed(*b),
            Outcome::Synced(n) => Outcome::Synced(*n),
            Outcome::Message(m) => Outcome::Message(m.clone()),
            Outcome::Online(b) => Outcome::Online(*b),
            Outcome::Query { store, sql, params } => Outcome::Query {
                store: *store,
                sql: sql.clone(),
                params: params.copy(),
            },
            Outcome::Route(s) => Outcome::Route(*s),
            Outcome::Reset { remote } => Outcome::Reset { remote: *remote },
            Outcome::Bootstrapped => Outcome::Bootstrapped,
            Outcome::Error(m) => Outcome::Error(m.clone()),
            Outcome::Fatal(m) => Outcome::Fatal(m.clone()),
        }
    }
}

/// What the host is to do next.
#[derive(Debug, Clone, PartialEq)]
pub enum Request {
    /// Open the local store. Answered by `Done`.
    OpenLocal { path: String, flags: i32, encryption_key: String },
    /// Open the remote store. Answered by `Done`.
    OpenRemote { url: String, auth_token: String },
    /// Execute one statement. Answered by `Affected`.
    Execute { store: Store, sql: String, params: ParameterSet },
    /// Execute a batch of statements. Answered by `Done`.
    ExecuteBatch { store: Store, sql: String },
    /// Run a query without parameters and read one column of every row as
    /// text. Answered by `Texts`.
    QueryTexts { store: Store, sql: String, column: u32 },
    /// Run a query without parameters and read every row. Answered by
    /// `Rows`.
    QueryRows { store: Store, sql: String },
    /// Write a row of the log to the local store. Answered by `RowId`, the
    /// id that the store gave the row.
    Persist { row: NewLogRow },
    /// Take the row with this id out of the log. Answered by `Done`, and by
    /// `Failed` just as well.
    Remove { id: i64 },
    /// Read the log. Answered by `Pending`.
    LoadPending,
    /// Ask the address for any response at all. Answered by `Reachable`.
    Probe { target: String },
    /// Give the caller the outcome: the call is over.
    Return(Outcome),
}

/// What a `Request` stands for.
pub enum RequestView {
    OpenLocal { path: Seq<char>, flags: i32, encryption_key: Seq<char> },
    OpenRemote { url: Seq<char>, auth_token: Seq<char> },
    Execute { store: Store, sql: Seq<char>, params: ParameterSetView },
    ExecuteBatch { store: Store, sql: Seq<char> },
    QueryTexts { store: Store, sql: Seq<char>, column: u32 },
    QueryRows { store: Store, sql: Seq<char> },
    Persist { row: NewLogRowView },
    Remove { id: i64 },
    LoadPending,
    Probe { target: Seq<char> },
    Return(OutcomeView),
}

impl View for Request {
    type V = RequestView;

    open spec fn view(&self) -> RequestView {
        match *self {
            Request::OpenLocal { path, flags, encryption_key } => RequestView::OpenLocal {
                path: path@,
                flags,
                encryption_key: encryption_key@,
            },
            Request::OpenRemote { url, auth_token } => RequestView::OpenRemote {
                url: url@,
                auth_token: auth_token@,
            },
            Request::Execute { store, sql, params } => RequestView::Execute {
                store,
                sql: sql@,
                params: params@,
            },
            Request::ExecuteBatch { store, sql } => RequestView::ExecuteBatch { store, sql: sql@ },
            Request::QueryTexts { store, sql, column } => RequestView::QueryTexts {
                store,
                sql: sql@,
                column,
            },
            Request::QueryRows { store, sql } => RequestView::QueryRows { store, sql: sql@ },
            Request::Persist { row } => RequestView::Persist { row: row@ },
            Request::Remove { id } => RequestView::Remove { id },
            Request::LoadPending => RequestView::LoadPending,
            Request::Probe { target } => RequestView::Probe { target: target@ },
            Request::Return(outcome) => RequestView::Return(outcome@),
        }
    }
}

/// The rows of a query, each the views of its values.
pub open spec fn rows_view(rows: Seq<Vec<QueryValue>>) -> Seq<Seq<QueryValueView>> {
    Seq::new(rows.len(), |i: int| views(rows[i]@))
}

/// What the host did.
#[derive(Debug, Clone, PartialEq)]
pub enum Reply {
    /// It is done.
    Done,
    /// The statement changed this many rows.
    Affected(u64),
    /// The column of every row, in the order of the rows.
    Texts(Vec<String>),
    /// The rows, in their order.
    Rows(Vec<Vec<QueryValue>>),
    /// The id of the row that was written.
    RowId(i64),
    /// The rows of the log, in their order.
    Pending(Vec<LogRow>),
    /// Whether any response came.
    Reachable(bool),
    /// It could not be done; the message says why.
    Failed(String),
}

/// What a `Reply` stands for.
pub enum ReplyView {
    Done,
    Affected(u64),
    Texts(Seq<Seq<char>>),
    Rows(Seq<Seq<QueryValueView>>),
    RowId(i64),
    Pending(Seq<LogRowView>),
    Reachable(bool),
    Failed(Seq<char>),
}

impl View for Reply {
    type V = ReplyView;

    open spec fn view(&self) -> ReplyView {
        match *self {
            Reply::Done => ReplyView::Done,
            Reply::Affected(n) => ReplyView::Affected(n),
            Reply::Texts(t) => ReplyView::Texts(views(t@)),
            Reply::Rows(r) => ReplyView::Rows(rows_view(r@)),
            Reply::RowId(id) => ReplyView::RowId(id),
            Reply::Pending(rows) => ReplyView::Pending(views(rows@)),
            Reply::Reachable(b) => ReplyView::Reachable(b),
            Reply::Failed(m) => ReplyView::Failed(m@),
        }
    }
}

/// What is said of a reply that does not answer the request.
pub const UNEXPECTED_REPLY: &'static str = "unexpected reply";

/// Why the host could not do what a reply was expected for: the message of
/// a failure, and `UNEXPECTED_REPLY` for a reply of another kind.
pub open spec fn failure_of(reply: ReplyView) -> Seq<char> {
    match reply {
        ReplyView::Failed(m) => m,
        _ => UNEXPECTED_REPLY@,
    }
}

/// Why the host could not do what a reply was expected for.
pub fn failure_text(reply: &Reply) -> (r: String)
    ensures
        r@ == failure_of(reply@),
{
    match reply {
        Reply::Failed(m) => m.clone(),
        _ => crate::text::copy_str(UNEXPECTED_REPLY),
    }
}

} // verus!

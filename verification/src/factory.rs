//! Which connection a configuration calls for, and how its parts are
//! opened.

use crate::config::{dsn_of, get_mode, mode_of, parse_dsn, ConfigValue};
use crate::model::DEFAULT_FLAGS;
use crate::text::{chars_of, copy_str, has_prefix, same_text, slice, starts_with, string_of};
use vstd::prelude::*;

verus! {

/// Said of a data source name that names no database.
pub const BAD_DSN: &'static str = "Failed to parse DSN";

/// Said of a configuration without an address.
pub const NO_URL: &'static str = "URL is not defined!";

/// Said of a configuration that fits no mode.
pub const NO_MODE: &'static str = "Mode is not available!";

/// The seconds between two syncs of a replica where none are given.
pub const DEFAULT_SYNC_INTERVAL_SECS: u64 = 5;

/// What a configuration says of a connection.
#[derive(Debug, Clone, PartialEq)]
pub struct ConnectionSettings {
    pub url: String,
    pub auth_token: String,
    pub sync_url: String,
    pub sync_interval_secs: u64,
    pub read_your_writes: bool,
}

/// What `ConnectionSettings` stand for.
pub struct ConnectionSettingsView {
    pub url: Seq<char>,
    pub auth_token: Seq<char>,
    pub sync_url: Seq<char>,
    pub sync_interval_secs: u64,
    pub read_your_writes: bool,
}

impl View for ConnectionSettings {
    type V = ConnectionSettingsView;

    open spec fn view(&self) -> ConnectionSettingsView {
        ConnectionSettingsView {
            url: self.url@,
            auth_token: self.auth_token@,
            sync_url: self.sync_url@,
            sync_interval_secs: self.sync_interval_secs,
            read_your_writes: self.read_your_writes,
        }
    }
}

/// The settings that a configuration holds. A text is a data source name
/// and has to name a database; named values give the address under `url`,
/// the token under `authToken` and the sync address under `syncUrl`, each
/// empty where it is not given as a text. The interval and the reading of
/// own writes are never taken from the configuration.
pub open spec fn settings_of(config: ConfigValue) -> Result<ConnectionSettingsView, Seq<char>> {
    match config {
        ConfigValue::String(dsn) => match dsn_of(dsn@) {
            Some(fields) => if fields.0.len() > 0 {
                Ok(
                    ConnectionSettingsView {
                        url: fields.0,
                        auth_token: fields.1,
                        sync_url: Seq::empty(),
                        sync_interval_secs: DEFAULT_SYNC_INTERVAL_SECS,
                        read_your_writes: true,
                    },
                )
            } else {
                Err(BAD_DSN@)
            },
            None => Err(BAD_DSN@),
        },
        ConfigValue::Array(_) => Ok(
            ConnectionSettingsView {
                url: config.text_at("url"@),
                auth_token: config.text_at("authToken"@),
                sync_url: config.text_at("syncUrl"@),
                sync_interval_secs: DEFAULT_SYNC_INTERVAL_SECS,
                read_your_writes: true,
            },
        ),
    }
}

/// The settings that a configuration holds.
pub fn resolve_settings(config: &ConfigValue) -> (r: Result<ConnectionSettings, String>)
    ensures
        match r {
            Ok(s) => settings_of(*config) == Ok::<ConnectionSettingsView, Seq<char>>(s@),
            Err(e) => settings_of(*config) == Err::<ConnectionSettingsView, Seq<char>>(e@),
        },
{
    match config {
        ConfigValue::String(dsn) => match parse_dsn(dsn.as_str()) {
            Some(d) => {
                if d.dbname.as_str().unicode_len() > 0 {
                    Ok(
                        ConnectionSettings {
                            url: d.dbname,
                            auth_token: d.auth_token,
                            sync_url: String::new(),
                            sync_interval_secs: DEFAULT_SYNC_INTERVAL_SECS,
                            read_your_writes: true,
                        },
                    )
                } else {
                    Err(copy_str(BAD_DSN))
                }
            },
            None => Err(copy_str(BAD_DSN)),
        },
        ConfigValue::Array(_) => {
            let sync_interval_secs = match config.get("syncInterval") {
                Some(v) => match v.to_long() {
                    Some(n) => n,
                    None => DEFAULT_SYNC_INTERVAL_SECS,
                },
                None => DEFAULT_SYNC_INTERVAL_SECS,
            };
            let read_your_writes = match config.get("read_your_writes") {
                Some(v) => match v.to_bool() {
                    Some(b) => b,
                    None => true,
                },
                None => true,
            };
            Ok(
                ConnectionSettings {
                    url: config.text_or_empty("url"),
                    auth_token: config.text_or_empty("authToken"),
                    sync_url: config.text_or_empty("syncUrl"),
                    sync_interval_secs,
                    read_your_writes,
                },
            )
        },
    }
}

/// The connection to make.
#[derive(Debug, Clone, PartialEq)]
pub enum ConnectionPlan {
    /// Write locally, replay remotely.
    OfflineWrite {
        db_path: String,
        auth_token: String,
        sync_url: String,
        flags: i32,
        encryption_key: String,
    },
    /// A local store alone.
    Local { url: String, flags: i32, encryption_key: String },
    /// A remote store alone.
    Remote { url: String, auth_token: String },
    /// A local replica that the store keeps in step with a remote one.
    RemoteReplica {
        db_path: String,
        auth_token: String,
        sync_url: String,
        sync_interval_secs: u64,
        read_your_writes: bool,
        encryption_key: String,
    },
    /// A local store that takes writes and is synced with a remote one by
    /// the store itself.
    SyncedDatabase { db_path: String, auth_token: String, sync_url: String },
}

/// What a `ConnectionPlan` stands for.
pub enum ConnectionPlanView {
    OfflineWrite {
        db_path: Seq<char>,
        auth_token: Seq<char>,
        sync_url: Seq<char>,
        flags: i32,
        encryption_key: Seq<char>,
    },
    Local { url: Seq<char>, flags: i32, encryption_key: Seq<char> },
    Remote { url: Seq<char>, auth_token: Seq<char> },
    RemoteReplica {
        db_path: Seq<char>,
        auth_token: Seq<char>,
        sync_url: Seq<char>,
        sync_interval_secs: u64,
        read_your_writes: bool,
        encryption_key: Seq<char>,
    },
    SyncedDatabase { db_path: Seq<char>, auth_token: Seq<char>, sync_url: Seq<char> },
}

impl View for ConnectionPlan {
    type V = ConnectionPlanView;

    open spec fn view(&self) -> ConnectionPlanView {
        match *self {
            ConnectionPlan::OfflineWrite {
                db_path,
                auth_token,
                sync_url,
                flags,
                encryption_key,
            } => ConnectionPlanView::OfflineWrite {
                db_path: db_path@,
                auth_token: auth_token@,
                sync_url: sync_url@,
                flags,
                encryption_key: encryption_key@,
            },
            ConnectionPlan::Local { url, flags, encryption_key } => ConnectionPlanView::Local {
                url: url@,
                flags,
                encryption_key: encryption_key@,
            },
            ConnectionPlan::Remote { url, auth_token } => ConnectionPlanView::Remote {
                url: url@,
                auth_token: auth_token@,
            },
            ConnectionPlan::RemoteReplica {
                db_path,
                auth_token,
                sync_url,
                sync_interval_secs,
                read_your_writes,
                encryption_key,
            } => ConnectionPlanView::RemoteReplica {
                db_path: db_path@,
                auth_token: auth_token@,
                sync_url: sync_url@,
                sync_interval_secs,
                read_your_writes,
                encryption_key: encryption_key@,
            },
            ConnectionPlan::SyncedDatabase {
                db_path,
                auth_token,
                sync_url,
            } => ConnectionPlanView::SyncedDatabase {
                db_path: db_path@,
                auth_token: auth_token@,
                sync_url: sync_url@,
            },
        }
    }
}

/// What the caller of the constructor chose beside the configuration; each
/// counts as not chosen where it is not given.
#[derive(Debug, Clone, PartialEq)]
pub struct ConnectionOptions {
    pub sqld_offline_mode: Option<bool>,
    pub flags: Option<i32>,
    pub encryption_key: Option<String>,
    pub offline_writes: Option<bool>,
}

/// An address without the `file:` it begins with, if it does.
pub open spec fn path_of(url: Seq<char>) -> Seq<char> {
    if has_prefix(url, "file:"@) {
        url.skip(5)
    } else {
        url
    }
}

/// The truth value that was chosen, `false` where none was.
pub open spec fn chosen(b: Option<bool>) -> bool {
    b == Some(true)
}

/// The flags that were chosen, `DEFAULT_FLAGS` where none were.
pub open spec fn chosen_flags(flags: Option<i32>) -> i32 {
    match flags {
        Some(x) => x,
        None => DEFAULT_FLAGS,
    }
}

/// The key that was chosen, the empty one where none was.
pub open spec fn chosen_key(key: Option<String>) -> Seq<char> {
    match key {
        Some(k) => k@,
        None => Seq::empty(),
    }
}

/// The connection that settings and options call for. The offline-write
/// connection is chosen by its option, where a token and a sync address
/// are given; else the mode of the addresses decides, and a replica takes
/// writes offline where that option is chosen.
pub open spec fn plan_of(s: ConnectionSettingsView, o: ConnectionOptions) -> Result<
    ConnectionPlanView,
    Seq<char>,
> {
    let mode = mode_of(Some(s.url), Some(s.auth_token), Some(s.sync_url));
    if s.url.len() == 0 {
        Err(NO_URL@)
    } else if chosen(o.sqld_offline_mode) && s.auth_token.len() > 0 && s.sync_url.len() > 0 {
        Ok(
            ConnectionPlanView::OfflineWrite {
                db_path: path_of(s.url),
                auth_token: s.auth_token,
                sync_url: s.sync_url,
                flags: chosen_flags(o.flags),
                encryption_key: chosen_key(o.encryption_key),
            },
        )
    } else if mode == "local"@ {
        Ok(
            ConnectionPlanView::Local {
                url: s.url,
                flags: chosen_flags(o.flags),
                encryption_key: chosen_key(o.encryption_key),
            },
        )
    } else if mode == "remote"@ {
        Ok(ConnectionPlanView::Remote { url: s.url, auth_token: s.auth_token })
    } else if mode == "remote_replica"@ {
        if chosen(o.offline_writes) {
            Ok(
                ConnectionPlanView::SyncedDatabase {
                    db_path: path_of(s.url),
                    auth_token: s.auth_token,
                    sync_url: s.sync_url,
                },
            )
        } else {
            Ok(
                ConnectionPlanView::RemoteReplica {
                    db_path: path_of(s.url),
                    auth_token: s.auth_token,
                    sync_url: s.sync_url,
                    sync_interval_secs: s.sync_interval_secs,
                    read_your_writes: s.read_your_writes,
                    encryption_key: chosen_key(o.encryption_key),
                },
            )
        }
    } else {
        Err(NO_MODE@)
    }
}

fn strip_file_prefix(url: &str) -> (r: String)
    ensures
        r@ == path_of(url@),
{
    proof {
        reveal_strlit("file:");
    }
    let v = chars_of(url);
    if starts_with(&v, &chars_of("file:")) {
        let rest = slice(&v, 5, v.len());
        assert(rest@ =~= url@.skip(5));
        string_of(&rest)
    } else {
        copy_str(url)
    }
}

/// The connection that settings and options call for.
pub fn plan_connection(settings: ConnectionSettings, options: ConnectionOptions) -> (r: Result<
    ConnectionPlan,
    String,
>)
    ensures
        match r {
            Ok(p) => plan_of(settings@, options) == Ok::<ConnectionPlanView, Seq<char>>(p@),
            Err(e) => plan_of(settings@, options) == Err::<ConnectionPlanView, Seq<char>>(e@),
        },
{
    let sqld_offline_mode = match options.sqld_offline_mode {
        Some(b) => b,
        None => false,
    };
    let offline_writes = match options.offline_writes {
        Some(b) => b,
        None => false,
    };
    let flags = match options.flags {
        Some(x) => x,
        None => DEFAULT_FLAGS,
    };
    let encryption_key = match options.encryption_key {
        Some(k) => k,
        None => String::new(),
    };
    if settings.url.as_str().unicode_len() == 0 {
        return Err(copy_str(NO_URL));
    }
    if sqld_offline_mode && settings.auth_token.as_str().unicode_len() > 0
        && settings.sync_url.as_str().unicode_len() > 0 {
        return Ok(
            ConnectionPlan::OfflineWrite {
                db_path: strip_file_prefix(settings.url.as_str()),
                auth_token: settings.auth_token,
                sync_url: settings.sync_url,
                flags,
                encryption_key,
            },
        );
    }
    let mode = get_mode(
        Some(settings.url.clone()),
        Some(settings.auth_token.clone()),
        Some(settings.sync_url.clone()),
    );
    if same_text(mode.as_str(), "local") {
        Ok(ConnectionPlan::Local { url: settings.url, flags, encryption_key })
    } else if same_text(mode.as_str(), "remote") {
        Ok(ConnectionPlan::Remote { url: settings.url, auth_token: settings.auth_token })
    } else if same_text(mode.as_str(), "remote_replica") {
        let db_path = strip_file_prefix(settings.url.as_str());
        if offline_writes {
            Ok(
                ConnectionPlan::SyncedDatabase {
                    db_path,
                    auth_token: settings.auth_token,
                    sync_url: settings.sync_url,
                },
            )
        } else {
            Ok(
                ConnectionPlan::RemoteReplica {
                    db_path,
                    auth_token: settings.auth_token,
                    sync_url: settings.sync_url,
                    sync_interval_secs: settings.sync_interval_secs,
                    read_your_writes: settings.read_your_writes,
                    encryption_key,
                },
            )
        }
    } else {
        Err(copy_str(NO_MODE))
    }
}

/// The name of the mode that a plan is carried out in.
pub open spec fn mode_name(plan: ConnectionPlanView) -> Seq<char> {
    match plan {
        ConnectionPlanView::OfflineWrite { .. } => "offline_write"@,
        ConnectionPlanView::Local { .. } => "local"@,
        ConnectionPlanView::Remote { .. } => "remote"@,
        _ => "remote_replica"@,
    }
}

impl ConnectionPlan {
    /// The name of the mode that this plan is carried out in.
    pub fn mode(&self) -> (r: String)
        ensures
            r@ == mode_name(self@),
    {
        match self {
            ConnectionPlan::OfflineWrite { .. } => copy_str("offline_write"),
            ConnectionPlan::Local { .. } => copy_str("local"),
            ConnectionPlan::Remote { .. } => copy_str("remote"),
            _ => copy_str("remote_replica"),
        }
    }
}

/// How a local store is opened.
#[derive(Debug, Clone, Copy, PartialEq, Eq, Structural)]
pub enum OpenMode {
    ReadOnly,
    ReadWrite,
    Create,
    ReadOnlyCreate,
    /// As the store opens a database where it is told nothing.
    Default,
}

/// The way of opening that flags ask for: 1 reads only, 2 reads and writes,
/// 4 creates, 5 reads only and creates; everything else, and no flags, ask
/// for the store's default.
pub open spec fn open_mode_of(flags: Option<i32>) -> OpenMode {
    match flags {
        Some(1) => OpenMode::ReadOnly,
        Some(2) => OpenMode::ReadWrite,
        Some(4) => OpenMode::Create,
        Some(5) => OpenMode::ReadOnlyCreate,
        _ => OpenMode::Default,
    }
}

/// The way of opening that flags ask for.
pub fn open_mode(flags: Option<i32>) -> (r: OpenMode)
    ensures
        r == open_mode_of(flags),
{
    match flags {
        Some(1) => OpenMode::ReadOnly,
        Some(2) => OpenMode::ReadWrite,
        Some(4) => OpenMode::Create,
        Some(5) => OpenMode::ReadOnlyCreate,
        _ => OpenMode::Default,
    }
}

/// How a transaction begins.
#[derive(Debug, Clone, Copy, PartialEq, Eq, Structural)]
pub enum TransactionBehavior {
    Deferred,
    Immediate,
    ReadOnly,
}

/// The behavior that a mode names: `WRITE` begins at once, `READ` only
/// reads, every other text defers.
pub open spec fn behavior_of(mode: Seq<char>) -> TransactionBehavior {
    if mode == "WRITE"@ {
        TransactionBehavior::Immediate
    } else if mode == "READ"@ {
        TransactionBehavior::ReadOnly
    } else {
        TransactionBehavior::Deferred
    }
}

/// The behavior that a mode names.
pub fn transaction_behavior(mode: &str) -> (r: TransactionBehavior)
    ensures
        r == behavior_of(mode@),
{
    if same_text(mode, "WRITE") {
        TransactionBehavior::Immediate
    } else if same_text(mode, "READ") {
        TransactionBehavior::ReadOnly
    } else {
        TransactionBehavior::Deferred
    }
}

/// The text that `str::to_uppercase` gives.
pub uninterp spec fn uppercase(s: Seq<char>) -> Seq<char>;

/// `str::to_uppercase`: the text in upper case, as Unicode defines it.
#[verifier::external_body]
fn to_uppercase(s: &str) -> (r: String)
    ensures
        r@ == uppercase(s@),
{
    s.to_uppercase()
}

/// The mode of a transaction that is not told one.
pub const DEFAULT_TRANSACTION_MODE: &'static str = "DEFERRED";

/// The mode that a transaction is asked for in: the caller's in upper case,
/// `DEFAULT_TRANSACTION_MODE` where the caller gives none.
pub open spec fn transaction_mode_of(behavior: Option<String>) -> Seq<char> {
    match behavior {
        Some(b) => uppercase(b@),
        None => DEFAULT_TRANSACTION_MODE@,
    }
}

/// The mode that a transaction is asked for in.
pub fn transaction_mode(behavior: &Option<String>) -> (r: String)
    ensures
        r@ == transaction_mode_of(*behavior),
{
    match behavior {
        Some(b) => to_uppercase(b.as_str()),
        None => copy_str(DEFAULT_TRANSACTION_MODE),
    }
}

/// What a call to sync is to do.
#[derive(Debug, Clone, Copy, PartialEq, Eq, Structural)]
pub enum SyncPlan {
    /// Sync the replica with the remote store.
    Replica,
    /// Make the bootstrap if it is due, then replay the queue.
    OfflineWrite,
}

/// Said where a replica is to be synced and there is no database.
pub const NO_DATABASE: &'static str = "Database connection is not available for sync";

/// What is said of a mode that cannot sync, after the name of the mode.
pub const NO_SYNC: &'static str = " mode does not support sync";

/// What a call to sync does in a mode: a replica is synced where its
/// database is at hand, an offline-write connection syncs by hand, no other
/// mode syncs.
pub open spec fn sync_plan_of(mode: Seq<char>, has_database: bool) -> Result<SyncPlan, Seq<char>> {
    if mode == "remote_replica"@ {
        if has_database {
            Ok(SyncPlan::Replica)
        } else {
            Err(NO_DATABASE@)
        }
    } else if mode == "offline_write"@ {
        Ok(SyncPlan::OfflineWrite)
    } else {
        Err(mode + NO_SYNC@)
    }
}

/// What a call to sync does in a mode.
pub fn sync_plan(mode: &str, has_database: bool) -> (r: Result<SyncPlan, String>)
    ensures
        match r {
            Ok(p) => sync_plan_of(mode@, has_database) == Ok::<SyncPlan, Seq<char>>(p),
            Err(e) => sync_plan_of(mode@, has_database) == Err::<SyncPlan, Seq<char>>(e@),
        },
{
    if same_text(mode, "remote_replica") {
        if has_database {
            Ok(SyncPlan::Replica)
        } else {
            Err(copy_str(NO_DATABASE))
        }
    } else if same_text(mode, "offline_write") {
        Ok(SyncPlan::OfflineWrite)
    } else {
        let mut out = chars_of(mode);
        crate::text::append_str(&mut out, NO_SYNC);
        Err(string_of(&out))
    }
}

} // verus!

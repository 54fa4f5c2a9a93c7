use vstd::prelude::*;
use crate::config::{Config, GameConfig, lookup};
use crate::error::Error;
use crate::hashsum::{HashSum, hex_of, groups_are_hex, bytes_of_hex, zero_digest, HASH_SIZE};

verus! {

/// A path made of `base` followed by `part`, as std's `Path::join` makes it.
pub uninterp spec fn joined(base: Seq<char>, part: Seq<char>) -> Seq<char>;

/// Relies on std::path::Path::join: the result depends on the two paths
/// alone. Both are UTF-8, so the lossless conversion back is exact.
#[verifier::external_body]
pub(crate) fn path_join(base: &str, part: &str) -> (r: String)
    ensures
        r@ == joined(base@, part@),
{
    std::path::Path::new(base).join(part).to_string_lossy().into_owned()
}

/// Relies on std::time::SystemTime::now, chrono's From<SystemTime> for
/// DateTime<Local> and DateTime::to_rfc3339: the local time now as RFC 3339
/// text. A clock before the epoch gives a negative time, not a panic.
/// Nothing is known of its value.
#[verifier::external_body]
fn now_rfc3339() -> (r: String) {
    chrono::DateTime::<chrono::Local>::from(std::time::SystemTime::now()).to_rfc3339()
}

/// Which side a pass propagates: none, the remote head, or the local content.
#[derive(Clone, Copy, Debug, PartialEq, Eq, Structural)]
pub enum ToSync {
    NoSync,
    Cloud,
    Local,
}

/// Whether a pass went on or was cancelled by the resolver.
#[derive(Clone, Copy, Debug, PartialEq, Eq, Structural)]
pub enum SyncResult {
    Continue,
    Abort,
}

/// Where a target's data lies.
#[derive(Debug)]
pub struct TargetPaths {
    /// The local content directory.
    pub content: String,
    /// The remote mirror of the last synced content.
    pub head: String,
    /// Where displaced copies of the head go.
    pub remote_backup: String,
    /// The target's local bookkeeping directory.
    pub local_root: String,
    /// The file that holds the last agreed digest.
    pub lastsync: String,
    /// Where displaced copies of the local content go.
    pub local_backup: String,
}

/// A replacement of `to` by a copy of `from`, the old `to` moved under
/// `backup`, after which `new_lastsync` is written to `record`.
#[derive(Debug)]
pub struct Transfer {
    pub from: String,
    pub to: String,
    pub backup: String,
    pub record: String,
    pub new_lastsync: String,
}

/// What a pass does once it has decided.
#[derive(Debug)]
pub enum Action {
    /// Stop the pass and touch nothing.
    Abort,
    /// Nothing to transfer or to record.
    Keep,
    /// Both sides agree on a state the record does not hold yet: write
    /// `new_lastsync` to `record`.
    Record { record: String, new_lastsync: String },
    /// Replace one side by the other.
    Replace(Transfer),
}

/// The three-way decision, or `None` where both sides changed differently
/// since the last sync and the resolver must choose.
pub open spec fn disposition(local: Seq<u8>, remote: Seq<u8>, lastsync: Seq<u8>) -> Option<ToSync> {
    if local == remote {
        Some(ToSync::NoSync)
    } else if local != lastsync && remote != lastsync {
        None
    } else if local != lastsync {
        Some(ToSync::Local)
    } else {
        Some(ToSync::Cloud)
    }
}

/// What a resolver's answer comes to: where abort is not offered, no answer
/// means the conflict is ignored.
pub open spec fn settle(answer: Option<ToSync>, abort_allowed: bool) -> Option<ToSync> {
    if answer is None && !abort_allowed {
        Some(ToSync::NoSync)
    } else {
        answer
    }
}

/// The layout of target `name` under the configured roots.
pub open spec fn paths_of(config: Config, name: Seq<char>, g: GameConfig, p: TargetPaths) -> bool {
    let remote_root = joined(config.remote@, name);
    let local_root = joined(config.local_dir@, name);
    &&& p.content@ == g.dir_view()
    &&& p.head@ == joined(remote_root, "head"@)
    &&& p.remote_backup@ == joined(remote_root, "backup"@)
    &&& p.local_root@ == local_root
    &&& p.lastsync@ == joined(local_root, "lastsync"@)
    &&& p.local_backup@ == joined(local_root, "backup"@)
}

/// The action that decision `d` calls for.
pub open spec fn action_for(
    a: Action,
    d: Option<ToSync>,
    paths: TargetPaths,
    local: Seq<u8>,
    remote: Seq<u8>,
    lastsync: Seq<u8>,
) -> bool {
    match d {
        None => a is Abort,
        Some(ToSync::NoSync) => if local == remote && local != lastsync {
            a matches Action::Record { record, new_lastsync } && record@ == paths.lastsync@
                && new_lastsync@ == hex_of(local)
        } else {
            a is Keep
        },
        Some(ToSync::Local) => a matches Action::Replace(t) && t.from@ == paths.content@ && t.to@
            == paths.head@ && t.backup@ == paths.remote_backup@ && t.record@ == paths.lastsync@
            && t.new_lastsync@ == hex_of(local),
        Some(ToSync::Cloud) => a matches Action::Replace(t) && t.from@ == paths.head@ && t.to@
            == paths.content@ && t.backup@ == paths.local_backup@ && t.record@ == paths.lastsync@
            && t.new_lastsync@ == hex_of(remote),
    }
}

/// The paths of target `game`, which must exist and be enabled for sync.
pub fn target_paths(config: &Config, game: &str) -> (r: Result<TargetPaths, Error>)
    ensures
        lookup(*config, game@) is None ==> (r matches Err(Error::InvalidGame(g)) && g@ == game@),
        lookup(*config, game@) is Some && !lookup(*config, game@)->Some_0.sync_enabled() ==> (
        r matches Err(Error::NotSyncable(n)) && n@ == game@),
        lookup(*config, game@) is Some && lookup(*config, game@)->Some_0.sync_enabled() ==> (
        r matches Ok(p) && paths_of(*config, game@, lookup(*config, game@)->Some_0, p)),
{
    let game_config = match config.game(game) {
        Some(g) => g,
        None => {
            return Err(Error::InvalidGame(String::from_str(game)));
        },
    };
    if !game_config.sync() {
        return Err(Error::NotSyncable(String::from_str(game)));
    }
    let remote_path = path_join(config.remote.as_str(), game);
    let local_path = path_join(config.local_dir.as_str(), game);
    let head = path_join(remote_path.as_str(), "head");
    let remote_backup = path_join(remote_path.as_str(), "backup");
    let lastsync = path_join(local_path.as_str(), "lastsync");
    let local_backup = path_join(local_path.as_str(), "backup");
    Ok(
        TargetPaths {
            content: String::from_str(game_config.directory()),
            head,
            remote_backup,
            local_root: local_path,
            lastsync,
            local_backup,
        },
    )
}

/// The last agreed digest, from the text of the record if it could be read:
/// the zero digest when there is none or it is not a digest's text.
pub fn lastsync_from_text(text: Option<&str>) -> (r: HashSum)
    ensures
        (text matches Some(t) && groups_are_hex(t@) && t@.len() == 2 * HASH_SIZE) ==> r@
            == bytes_of_hex(text->Some_0@),
        !(text matches Some(t) && groups_are_hex(t@) && t@.len() == 2 * HASH_SIZE) ==> r@
            == zero_digest(),
{
    match text {
        Some(t) => match HashSum::from_str(t) {
            Ok(h) => h,
            Err(_) => HashSum::default(),
        },
        None => HashSum::default(),
    }
}

/// The three-way decision between the local and remote digests against the
/// last agreed one; `None` where the two sides diverged.
pub fn classify(local: &HashSum, remote: &HashSum, lastsync: &HashSum) -> (r: Option<ToSync>)
    ensures
        r == disposition(local@, remote@, lastsync@),
{
    let local_ahead = *local != *lastsync;
    let remote_ahead = *remote != *lastsync;
    let remote_differs = *local != *remote;
    if !remote_differs {
        Some(ToSync::NoSync)
    } else if local_ahead && remote_ahead {
        None
    } else if local_ahead {
        Some(ToSync::Local)
    } else {
        Some(ToSync::Cloud)
    }
}

/// Decides one pass over target `game` from the digests of its two sides
/// and the text of its lastsync record, if that could be read. The target
/// must exist and be enabled for sync; a record that is not a digest's text
/// counts as no sync recorded. The resolver is called, once, only where both
/// sides diverged from the record: it is handed the time the record was
/// written and whether it may abort, and where it may not, no answer means
/// the conflict is ignored. Where both sides agree on a state that the
/// record does not hold, that state is recorded.
pub fn sync_conflict_resolver<T, F: FnOnce(T, bool) -> Option<ToSync>>(
    config: &Config,
    game: &str,
    local: &HashSum,
    remote: &HashSum,
    record_text: Option<&str>,
    lastsync_time: T,
    abort_allowed: bool,
    resolver: F,
) -> (r: Result<Action, Error>)
    requires
        local@ != remote@ ==> resolver.requires((lastsync_time, abort_allowed)),
    ensures
        lookup(*config, game@) is None ==> (r matches Err(Error::InvalidGame(g)) && g@ == game@),
        lookup(*config, game@) is Some && !lookup(*config, game@)->Some_0.sync_enabled() ==> (
        r matches Err(Error::NotSyncable(n)) && n@ == game@),
        lookup(*config, game@) is Some && lookup(*config, game@)->Some_0.sync_enabled() ==> (
        r is Ok && exists|p: TargetPaths, last: Seq<u8>|
            #![trigger pass_outcome(r->Ok_0, p, local@, remote@, last, lastsync_time, abort_allowed, resolver)]
            paths_of(*config, game@, lookup(*config, game@)->Some_0, p) && record_digest(
                record_text,
                last,
            ) && pass_outcome(r->Ok_0, p, local@, remote@, last, lastsync_time, abort_allowed, resolver)),
{
    let paths = match target_paths(config, game) {
        Ok(p) => p,
        Err(e) => {
            return Err(e);
        },
    };
    let lastsync = lastsync_from_text(record_text);
    let action = decide_pass(&paths, local, remote, &lastsync, lastsync_time, abort_allowed, resolver);
    proof {
        let g = lookup(*config, game@)->Some_0;
        assert(paths_of(*config, game@, g, paths));
        assert(record_digest(record_text, lastsync@));
        assert(pass_outcome(action, paths, local@, remote@, lastsync@, lastsync_time, abort_allowed, resolver));
    }
    let r = Ok(action);
    proof {
        assert(pass_outcome(r->Ok_0, paths, local@, remote@, lastsync@, lastsync_time, abort_allowed, resolver));
    }
    r
}

/// The last agreed digest that a record's text stands for: the digest it
/// spells, or the zero digest where there is no text or it spells none.
pub open spec fn record_digest(text: Option<&str>, last: Seq<u8>) -> bool {
    if text matches Some(t) && groups_are_hex(t@) && t@.len() == 2 * HASH_SIZE {
        last == bytes_of_hex(text->Some_0@)
    } else {
        last == zero_digest()
    }
}

/// What a pass over `paths` does with its three digests, its resolver being
/// consulted only on a conflict.
pub open spec fn pass_outcome<T, F: FnOnce(T, bool) -> Option<ToSync>>(
    a: Action,
    paths: TargetPaths,
    local: Seq<u8>,
    remote: Seq<u8>,
    lastsync: Seq<u8>,
    lastsync_time: T,
    abort_allowed: bool,
    resolver: F,
) -> bool {
    &&& disposition(local, remote, lastsync) is Some ==> action_for(
        a,
        disposition(local, remote, lastsync),
        paths,
        local,
        remote,
        lastsync,
    )
    &&& disposition(local, remote, lastsync) is None ==> exists|answer: Option<ToSync>|
        resolver.ensures((lastsync_time, abort_allowed), answer) && action_for(
            a,
            settle(answer, abort_allowed),
            paths,
            local,
            remote,
            lastsync,
        )
}

fn decide_pass<T, F: FnOnce(T, bool) -> Option<ToSync>>(
    paths: &TargetPaths,
    local: &HashSum,
    remote: &HashSum,
    lastsync: &HashSum,
    lastsync_time: T,
    abort_allowed: bool,
    resolver: F,
) -> (r: Action)
    requires
        disposition(local@, remote@, lastsync@) is None ==> resolver.requires(
            (lastsync_time, abort_allowed),
        ),
    ensures
        pass_outcome(r, *paths, local@, remote@, lastsync@, lastsync_time, abort_allowed, resolver),
{
    let ghost mut asked: Option<ToSync> = None;
    let to_sync = match classify(local, remote, lastsync) {
        Some(d) => d,
        None => {
            let answer = resolver(lastsync_time, abort_allowed);
            proof {
                asked = answer;
            }
            match answer {
                Some(d) => d,
                None => {
                    if abort_allowed {
                        let r = Action::Abort;
                        assert(action_for(r, settle(asked, abort_allowed), *paths, local@, remote@, lastsync@));
                        return r;
                    }
                    ToSync::NoSync
                },
            }
        },
    };
    let r = match to_sync {
        ToSync::Local => Action::Replace(
            Transfer {
                from: paths.content.clone(),
                to: paths.head.clone(),
                backup: paths.remote_backup.clone(),
                record: paths.lastsync.clone(),
                new_lastsync: local.to_hex(),
            },
        ),
        ToSync::Cloud => Action::Replace(
            Transfer {
                from: paths.head.clone(),
                to: paths.content.clone(),
                backup: paths.local_backup.clone(),
                record: paths.lastsync.clone(),
                new_lastsync: remote.to_hex(),
            },
        ),
        ToSync::NoSync => {
            if *local == *remote && *local != *lastsync {
                Action::Record { record: paths.lastsync.clone(), new_lastsync: local.to_hex() }
            } else {
                Action::Keep
            }
        },
    };
    proof {
        if disposition(local@, remote@, lastsync@) is None {
            assert(action_for(r, settle(asked, abort_allowed), *paths, local@, remote@, lastsync@));
        }
    }
    r
}

/// Prefix of the backups that a pass makes on its own.
pub const BACKUP_PREFIX: &'static str = "implicit_";

/// The path under `backup_dir` named `prefix` followed by `timestamp`.
pub fn backup_entry(backup_dir: &str, prefix: &str, timestamp: &str) -> (r: String)
    ensures
        r@ == joined(backup_dir@, prefix@ + timestamp@),
{
    let name = String::from_str(prefix).concat(timestamp);
    path_join(backup_dir, name.as_str())
}

/// A fresh backup path under `backup_dir`: `prefix` followed by the local
/// time now.
pub fn backup_filename(backup_dir: &str, prefix: &str) -> (r: String)
    ensures
        exists|t: Seq<char>| r@ == joined(backup_dir@, prefix@ + t),
{
    let now = now_rfc3339();
    backup_entry(backup_dir, prefix, now.as_str())
}

/// An explicit backup of target `game`: the target must exist, and explicit
/// backups are not supported yet.
pub fn backup(config: &Config, game: &str) -> (r: Result<(), Error>)
    ensures
        lookup(*config, game@) is None ==> (r matches Err(Error::InvalidGame(g)) && g@ == game@),
        lookup(*config, game@) is Some ==> (r matches Err(Error::BackupUnsupported(g)) && g@
            == game@),
{
    match config.game(game) {
        None => Err(Error::InvalidGame(String::from_str(game))),
        Some(_) => Err(Error::BackupUnsupported(String::from_str(game))),
    }
}

/// The classifier's table: a side that alone changed since the last sync
/// wins, equal sides need nothing, and two sides that changed differently
/// are a conflict for the resolver.
pub proof fn lemma_classifier_table(local: Seq<u8>, remote: Seq<u8>, lastsync: Seq<u8>)
    ensures
        local != lastsync && remote == lastsync ==> disposition(local, remote, lastsync) == Some(
            ToSync::Local,
        ),
        remote != lastsync && local == lastsync ==> disposition(local, remote, lastsync) == Some(
            ToSync::Cloud,
        ),
        local == remote ==> disposition(local, remote, lastsync) == Some(ToSync::NoSync),
        local != lastsync && remote != lastsync && local != remote ==> disposition(
            local,
            remote,
            lastsync,
        ) is None,
{
}

/// A fresh target whose two sides agree (both empty, say) while no sync is
/// recorded needs no transfer, and its pass records their common digest.
pub proof fn lemma_fresh_target_records(
    a: Action,
    paths: TargetPaths,
    both: Seq<u8>,
    lastsync: Seq<u8>,
)
    requires
        both != lastsync,
        action_for(a, disposition(both, both, lastsync), paths, both, both, lastsync),
    ensures
        disposition(both, both, lastsync) == Some(ToSync::NoSync),
        a matches Action::Record { record, new_lastsync } && record@ == paths.lastsync@
            && new_lastsync@ == hex_of(both),
{
}

/// Where only the local side changed since the last sync, the pass copies
/// the content over the head, keeping the old head under the remote backups,
/// and records the local digest.
pub proof fn lemma_local_change_takes_local(
    a: Action,
    paths: TargetPaths,
    local: Seq<u8>,
    lastsync: Seq<u8>,
)
    requires
        local != lastsync,
        action_for(a, disposition(local, lastsync, lastsync), paths, local, lastsync, lastsync),
    ensures
        a matches Action::Replace(t) && t.from@ == paths.content@ && t.to@ == paths.head@
            && t.backup@ == paths.remote_backup@ && t.record@ == paths.lastsync@
            && t.new_lastsync@ == hex_of(local),
{
}

} // verus!

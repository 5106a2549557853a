//! What the directory watcher does with each path an event carries.
use crate::config::{AppConfig, Config, SelectError, chosen_at_some_time};
use crate::database::{
    Database,
    QueueItem,
    enqueued,
    lemma_enqueue_idempotent,
    queue_has,
    queue_unique,
};
use crate::text::joined;
use crate::utils::{is_temp_name, matches_temp_pattern};
use vstd::prelude::*;

verus! {

/// The hyphenated text of the version-3 (name-based) UUID of `name` in the
/// OID namespace.
pub uninterp spec fn oid_v3_uuid(name: Seq<char>) -> Seq<char>;

/// Relies on uuid::Uuid::new_v3 over the path's bytes in NAMESPACE_OID, and
/// on Uuid's `Display` for its text.
#[verifier::external_body]
fn name_based_uuid(name: &str) -> (r: String)
    ensures
        r@ == oid_v3_uuid(name@),
{
    uuid::Uuid::new_v3(&uuid::Uuid::NAMESPACE_OID, name.as_bytes()).to_string()
}

/// The identity of a local file: a name-based UUID of its path.
pub fn file_identity(path: &str) -> (r: String)
    ensures
        r@ == oid_v3_uuid(path@),
{
    name_based_uuid(path)
}

/// The queue item for `path`: its identity, and the remote target made of
/// `remote_path`, a `/` and the identity.
pub open spec fn item_for(item: QueueItem, path: Seq<char>, remote_path: Seq<char>) -> bool {
    &&& item.local_file@ == path
    &&& item.uuid@ == oid_v3_uuid(path)
    &&& item.remote_file@ == remote_path + seq!['/'] + oid_v3_uuid(path)
}

/// Builds the queue item for `path` under the remote directory `remote_path`.
pub fn queue_item_for(path: &str, remote_path: &str) -> (r: QueueItem)
    ensures
        item_for(r, path@, remote_path@),
{
    let id = file_identity(path);
    proof {
        reveal_strlit("/");
    }
    let dir = joined(remote_path, "/");
    let remote_file = joined(dir.as_str(), id.as_str());
    assert(remote_file@ =~= remote_path@ + seq!['/'] + id@);
    let mut local_file = String::new();
    local_file.append(path);
    assert(local_file@ =~= path@);
    QueueItem { local_file, remote_file, uuid: id }
}

/// Enqueues `path`, found on disk when `on_disk`, under `profile`'s remote
/// directory, unless it is gone or named like a temporary file. Gives the
/// item when the path was admitted.
pub fn admit_path(db: &mut Database, profile: &Config, path: &str, on_disk: bool) -> (r: Option<
    QueueItem,
>)
    requires
        old(db).wf(),
    ensures
        final(db).wf(),
        r is Some == (on_disk && !is_temp_name(path@)),
        final(db).history() == old(db).history(),
        match r {
            Some(item) => item_for(item, path@, profile.remote_path@) && final(db).queue()
                == enqueued(old(db).queue(), item),
            None => final(db).queue() == old(db).queue(),
        },
{
    if !on_disk || matches_temp_pattern(path) {
        return None;
    }
    let item = queue_item_for(path, profile.remote_path.as_str());
    db.add_to_queue(&item);
    Some(item)
}

/// Handles one path of a file event with the profile active now: skipped
/// when gone or temporary, else enqueued; gives the item when admitted.
pub fn process_event(config: &AppConfig, db: &mut Database, path: &str, on_disk: bool) -> (r:
    Result<Option<QueueItem>, SelectError>)
    requires
        old(db).wf(),
    ensures
        final(db).wf(),
        final(db).history() == old(db).history(),
        match r {
            Ok(Some(item)) => on_disk && !is_temp_name(path@) && exists|p: Config|
                chosen_at_some_time(config.configs@, Ok::<Config, SelectError>(p)) && item_for(
                    item,
                    path@,
                    p.remote_path@,
                ) && final(db).queue() == enqueued(old(db).queue(), item),
            Ok(None) => !(on_disk && !is_temp_name(path@)) && final(db).queue() == old(
                db,
            ).queue(),
            Err(e) => chosen_at_some_time(config.configs@, Err::<Config, SelectError>(e))
                && final(db).queue() == old(db).queue(),
        },
        !(on_disk && !is_temp_name(path@)) ==> r == Ok::<Option<QueueItem>, SelectError>(None),
{
    if !on_disk || matches_temp_pattern(path) {
        return Ok(None);
    }
    let chosen = config.select_config();
    let profile = match chosen {
        Ok(p) => p,
        Err(e) => {
            return Err(e);
        },
    };
    Ok(admit_path(db, &profile, path, on_disk))
}

/// A path's identity depends on the path alone, so a second event for a path
/// whose item is still queued is absorbed: the queue stays as the first
/// event left it, with one row of that identity.
pub proof fn lemma_repeated_event_absorbed(
    q: Seq<QueueItem>,
    path: Seq<char>,
    first: QueueItem,
    second: QueueItem,
    remote_first: Seq<char>,
    remote_second: Seq<char>,
)
    requires
        queue_unique(q),
        item_for(first, path, remote_first),
        item_for(second, path, remote_second),
    ensures
        first.uuid@ == second.uuid@,
        enqueued(enqueued(q, first), second) == enqueued(q, first),
        queue_unique(enqueued(q, first)),
        queue_has(enqueued(q, first), first.uuid@),
{
    lemma_enqueue_idempotent(q, first, second);
}

} // verus!

//! The decisions of the transfer processor.
//!
//! Each queue item goes through `Check`, `Connect`, `Compare` and `Upload`;
//! the caller performs the outside work of each step and reports what came of
//! it as an `ItemEvent`. A `Settle` step ends the item: history is recorded
//! where the remote holds the file, and the item leaves the queue. A `Retry`
//! step leaves the item queued for the next tick.
use crate::config::{AppConfig, Config, SelectError, chosen_at_some_time, local_clock};
use crate::database::{
    Database,
    History,
    QueueItem,
    content_recorded,
    dequeued,
    history_has,
    lemma_dequeued,
    lemma_newer_prefix_bound,
    newer_prefix,
    queue_has,
    with_entry,
};
use crate::text::{is_substring, joined, occurs_at};
use crate::utils::{dotted, file_extension, is_temp_name, matches_temp_pattern, path_extension};
use vstd::prelude::*;

verus! {

/// How an item's processing ended.
#[derive(Clone, Copy, Debug, PartialEq, Eq, Structural)]
pub enum ItemOutcome {
    /// The local file is gone or is not a regular file.
    Missing,
    /// The local file is named like a temporary file.
    TempName,
    /// The remote target already holds a file of the local file's size.
    AlreadyThere,
    /// The file was transferred.
    Uploaded,
}

/// Where an item's processing stands.
#[derive(Clone, Copy, Debug, PartialEq, Eq, Structural)]
pub enum ItemStep {
    /// Look at the local file.
    Check,
    /// Open an authenticated session with the active profile.
    Connect,
    /// Read the local size and the remote target's size.
    Compare,
    /// Stream the file to the remote target.
    Upload,
    /// Record history as needed and remove the item from the queue.
    Settle { outcome: ItemOutcome },
    /// Leave the item queued for the next tick.
    Retry,
}

/// What the outside work of a step came to.
#[derive(Clone, Copy, Debug, PartialEq, Eq, Structural)]
pub enum ItemEvent {
    /// Whether the local file exists and is a regular file.
    LocalFile { regular: bool },
    /// Whether the session was opened and authenticated.
    Session { established: bool },
    /// The sizes in bytes; a remote target that is not found has size 0.
    Sizes { local: u64, remote: u64 },
    /// Whether every byte was written.
    Transfer { completed: bool },
    /// The outside work failed.
    Failed,
}

/// The remote target holds a file of the local size already.
pub open spec fn already_uploaded(local: u64, remote: u64) -> bool {
    remote > 0 && remote == local
}

/// The step that follows `step` for an item of local path `local_file` when
/// `event` comes.
pub open spec fn step_after(local_file: Seq<char>, step: ItemStep, event: ItemEvent) -> ItemStep {
    match (step, event) {
        (ItemStep::Check, ItemEvent::LocalFile { regular }) => if !regular {
            ItemStep::Settle { outcome: ItemOutcome::Missing }
        } else if is_temp_name(local_file) {
            ItemStep::Settle { outcome: ItemOutcome::TempName }
        } else {
            ItemStep::Connect
        },
        (ItemStep::Connect, ItemEvent::Session { established }) => if established {
            ItemStep::Compare
        } else {
            ItemStep::Retry
        },
        (ItemStep::Compare, ItemEvent::Sizes { local, remote }) => if already_uploaded(
            local,
            remote,
        ) {
            ItemStep::Settle { outcome: ItemOutcome::AlreadyThere }
        } else {
            ItemStep::Upload
        },
        (ItemStep::Upload, ItemEvent::Transfer { completed }) => if completed {
            ItemStep::Settle { outcome: ItemOutcome::Uploaded }
        } else {
            ItemStep::Retry
        },
        _ => ItemStep::Retry,
    }
}

/// The step that follows `step` for `item` when `event` comes.
pub fn next_step(item: &QueueItem, step: ItemStep, event: ItemEvent) -> (r: ItemStep)
    ensures
        r == step_after(item.local_file@, step, event),
{
    match (step, event) {
        (ItemStep::Check, ItemEvent::LocalFile { regular }) => {
            if !regular {
                ItemStep::Settle { outcome: ItemOutcome::Missing }
            } else if matches_temp_pattern(item.local_file.as_str()) {
                ItemStep::Settle { outcome: ItemOutcome::TempName }
            } else {
                ItemStep::Connect
            }
        },
        (ItemStep::Connect, ItemEvent::Session { established }) => {
            if established {
                ItemStep::Compare
            } else {
                ItemStep::Retry
            }
        },
        (ItemStep::Compare, ItemEvent::Sizes { local, remote }) => {
            if remote > 0 && remote == local {
                ItemStep::Settle { outcome: ItemOutcome::AlreadyThere }
            } else {
                ItemStep::Upload
            }
        },
        (ItemStep::Upload, ItemEvent::Transfer { completed }) => {
            if completed {
                ItemStep::Settle { outcome: ItemOutcome::Uploaded }
            } else {
                ItemStep::Retry
            }
        },
        _ => ItemStep::Retry,
    }
}

/// The outcome leaves the file on the remote, so history is recorded.
pub open spec fn records_history(outcome: ItemOutcome) -> bool {
    outcome == ItemOutcome::AlreadyThere || outcome == ItemOutcome::Uploaded
}

/// The rendered link of an item: the address prefix, the identity and the
/// local file's extension.
pub open spec fn link_text(address: Seq<char>, identity: Seq<char>, local_file: Seq<char>) -> Seq<
    char,
> {
    address + identity + dotted(path_extension(local_file))
}

/// Renders the link of the file `local_file` of identity `identity`.
pub fn render_link(address: &str, identity: &str, local_file: &str) -> (r: String)
    ensures
        r@ == link_text(address@, identity@, local_file@),
{
    let ext = file_extension(local_file);
    let head = joined(address, identity);
    let r = joined(head.as_str(), ext.as_str());
    assert(r@ =~= address@ + identity@ + ext@);
    r
}

/// The remote path `item` is written to: its target with the local file's
/// extension.
pub fn remote_target(item: &QueueItem) -> (r: String)
    ensures
        r@ == item.remote_file@ + dotted(path_extension(item.local_file@)),
{
    let ext = file_extension(item.local_file.as_str());
    joined(item.remote_file.as_str(), ext.as_str())
}

/// The history after recording `entry`: unchanged when some entry already
/// holds its content.
pub open spec fn recorded(h: Seq<History>, entry: History) -> Seq<History> {
    if content_recorded(h, entry.content@) {
        h
    } else {
        with_entry(h, entry)
    }
}

/// Records `entry` unless some entry already holds its content; tells whether
/// it was added.
pub fn record_history(db: &mut Database, entry: History) -> (added: bool)
    requires
        old(db).wf(),
    ensures
        final(db).wf(),
        final(db).history() == recorded(old(db).history(), entry),
        final(db).queue() == old(db).queue(),
        added == (!content_recorded(old(db).history(), entry.content@) && !history_has(
            old(db).history(),
            entry.uuid@,
        )),
{
    if db.has_content(entry.content.as_str()) {
        return false;
    }
    db.add_history(&entry)
}

/// The store after settling `item` with `outcome`, where `entry` is the
/// history entry that a transfer leaves.
pub open spec fn settled_history(h: Seq<History>, outcome: ItemOutcome, entry: History) -> Seq<
    History,
> {
    if records_history(outcome) {
        recorded(h, entry)
    } else {
        h
    }
}

/// Ends the processing of `item` with `outcome`: records `entry` where the
/// file is on the remote, then removes the item from the queue. Tells
/// whether the entry was added.
pub fn settle_item(db: &mut Database, item: &QueueItem, outcome: ItemOutcome, entry: History) -> (added:
    bool)
    requires
        old(db).wf(),
    ensures
        final(db).wf(),
        final(db).history() == settled_history(old(db).history(), outcome, entry),
        final(db).queue() == dequeued(old(db).queue(), item.uuid@),
        added == (records_history(outcome) && !content_recorded(old(db).history(), entry.content@)
            && !history_has(old(db).history(), entry.uuid@)),
{
    let mut added = false;
    if outcome == ItemOutcome::AlreadyThere || outcome == ItemOutcome::Uploaded {
        added = record_history(db, entry);
    }
    db.remove_from_queue(item.uuid.as_str());
    added
}

/// The key file used to authenticate, relative to the home directory: the
/// profile's own, or `.ssh/id_ed25519` when it names none.
pub fn ssh_key_file(profile: &Config) -> (r: String)
    ensures
        r@ == if profile.ssh_key@.len() == 0 {
            ".ssh/id_ed25519"@
        } else {
            profile.ssh_key@
        },
{
    if profile.ssh_key.as_str().is_empty() {
        let mut r = String::new();
        r.append(".ssh/id_ed25519");
        assert(r@ =~= ".ssh/id_ed25519"@);
        r
    } else {
        profile.ssh_key.clone()
    }
}

/// The key's passphrase, supplied only when the profile sets one.
pub fn ssh_passphrase(profile: &Config) -> (r: Option<String>)
    ensures
        match r {
            Some(p) => profile.ssh_key_pass@.len() > 0 && p@ == profile.ssh_key_pass@,
            None => profile.ssh_key_pass@.len() == 0,
        },
{
    if profile.ssh_key_pass.as_str().is_empty() {
        None
    } else {
        Some(profile.ssh_key_pass.clone())
    }
}

/// Relies on uuid::Uuid::new_v4 and Uuid's `Display`: a fresh random
/// identity; any value may come back.
#[verifier::external_body]
fn random_identity() -> (r: String) {
    uuid::Uuid::new_v4().to_string()
}

/// Ends the processing of `item` with `outcome`. A missing or temporary file
/// just leaves the queue. Otherwise the entry is built with the profile
/// active now for the link, the time now by the local clock, and a fresh
/// random identity. Gives the entry when it was added to the history.
pub fn finish_item(config: &AppConfig, db: &mut Database, item: &QueueItem, outcome: ItemOutcome) -> (r:
    Result<Option<History>, SelectError>)
    requires
        old(db).wf(),
    ensures
        final(db).wf(),
        !records_history(outcome) ==> r == Ok::<Option<History>, SelectError>(None),
        match r {
            Ok(added) => final(db).queue() == dequeued(old(db).queue(), item.uuid@) && (
            !records_history(outcome) ==> final(db).history() == old(db).history()) && (
            records_history(outcome) ==> exists|p: Config, entry: History|
                chosen_at_some_time(config.configs@, Ok::<Config, SelectError>(p))
                    && entry.content@ == link_text(p.address@, item.uuid@, item.local_file@)
                    && entry.file@ == item.local_file@ && final(db).history() == settled_history(
                    old(db).history(),
                    outcome,
                    entry,
                ) && match added {
                    Some(e) => e == entry && final(db).history() != old(db).history(),
                    None => final(db).history() == old(db).history(),
                }),
            Err(e) => records_history(outcome) && chosen_at_some_time(
                config.configs@,
                Err::<Config, SelectError>(e),
            ) && final(db).queue() == old(db).queue() && final(db).history() == old(
                db,
            ).history(),
        },
{
    if outcome == ItemOutcome::Missing || outcome == ItemOutcome::TempName {
        db.remove_from_queue(item.uuid.as_str());
        return Ok(None);
    }
    let chosen = config.select_config();
    let profile = match chosen {
        Ok(p) => p,
        Err(e) => {
            return Err(e);
        },
    };
    let content = render_link(
        profile.address.as_str(),
        item.uuid.as_str(),
        item.local_file.as_str(),
    );
    let entry = History {
        content,
        timestamp: local_clock().timestamp,
        file: item.local_file.clone(),
        uuid: random_identity(),
    };
    let kept = entry.clone();
    let ghost before = db.history();
    if settle_item(db, item, outcome, entry) {
        proof {
            lemma_newer_prefix_bound(before, kept.timestamp);
            assert(db.history().len() == before.len() + 1);
        }
        Ok(Some(kept))
    } else {
        Ok(None)
    }
}

/// The links of `items`, item `i` rendered with the address of profile
/// `profiles[i]`, joined by `", "`.
pub open spec fn clipboard_text(profiles: Seq<Config>, items: Seq<QueueItem>) -> Seq<char>
    decreases items.len(),
{
    if items.len() == 0 {
        Seq::empty()
    } else {
        let n = (items.len() - 1) as int;
        let link = link_text(profiles[n].address@, items[n].uuid@, items[n].local_file@);
        if n == 0 {
            link
        } else {
            clipboard_text(profiles, items.take(n)) + ", "@ + link
        }
    }
}

/// Joins the links of `items`, item `i` rendered with `profiles[i]`.
pub fn clipboard_links(profiles: &Vec<Config>, items: &Vec<QueueItem>) -> (r: String)
    requires
        profiles.len() == items.len(),
    ensures
        r@ == clipboard_text(profiles@, items@),
{
    let mut r = String::new();
    let mut i: usize = 0;
    while i < items.len()
        invariant
            profiles.len() == items.len(),
            i <= items.len(),
            r@ == clipboard_text(profiles@, items@.take(i as int)),
        decreases items.len() - i,
    {
        let link = render_link(
            profiles[i].address.as_str(),
            items[i].uuid.as_str(),
            items[i].local_file.as_str(),
        );
        assert(items@.take(i + 1).take(i as int) =~= items@.take(i as int));
        if i == 0 {
            r = link;
        } else {
            let head = joined(r.as_str(), ", ");
            r = joined(head.as_str(), link.as_str());
        }
        i = i + 1;
    }
    assert(items@.take(items.len() as int) =~= items@);
    r
}

/// The clipboard text for a batch: one link per item, each with the profile
/// active when it is rendered.
pub fn build_clipboard(config: &AppConfig, items: &Vec<QueueItem>) -> (r: Result<
    String,
    SelectError,
>)
    ensures
        items.len() == 0 ==> (r matches Ok(s) && s@.len() == 0),
        r matches Err(e) ==> chosen_at_some_time(config.configs@, Err::<Config, SelectError>(e)),
        r matches Ok(s) ==> exists|ps: Seq<Config>|
            ps.len() == items.len() && (forall|i: int|
                0 <= i < ps.len() ==> chosen_at_some_time(config.configs@, Ok::<Config, SelectError>(#[trigger] ps[i])))
                && s@ == clipboard_text(ps, items@),
{
    let mut profiles: Vec<Config> = Vec::new();
    let mut i: usize = 0;
    while i < items.len()
        invariant
            i <= items.len(),
            profiles.len() == i,
            forall|k: int|
                0 <= k < i ==> chosen_at_some_time(config.configs@, Ok::<Config, SelectError>(#[trigger] profiles@[k])),
        decreases items.len() - i,
    {
        let chosen = config.select_config();
        match chosen {
            Ok(p) => {
                let ghost before = profiles@;
                let ghost gp = p;
                profiles.push(p);
                assert forall|k: int| 0 <= k < i + 1 implies chosen_at_some_time(config.configs@, Ok::<Config, SelectError>(#[trigger] profiles@[k])) by {
                    if k < i {
                        assert(profiles@[k] == before[k]);
                    } else {
                        assert(profiles@[k] == gp);
                    }
                }
            },
            Err(e) => {
                assert(chosen_at_some_time(config.configs@, Err::<Config, SelectError>(e)));
                return Err(e);
            },
        }
        i = i + 1;
    }
    let text = clipboard_links(&profiles, items);
    assert(items.len() == 0 ==> text@ == clipboard_text(profiles@, items@));
    assert(profiles@.len() == items.len() && (forall|k: int|
        0 <= k < profiles@.len() ==> chosen_at_some_time(config.configs@, Ok::<Config, SelectError>(#[trigger] profiles@[k])))
        && text@ == clipboard_text(profiles@, items@));
    Ok(text)
}

/// How many writes a transfer of `total_size` bytes takes with a buffer of
/// `buffer_size` bytes: the size divided by the buffer rounded up, and one
/// for an empty file.
pub open spec fn chunk_count(total_size: u64, buffer_size: usize) -> int {
    if total_size == 0 {
        1
    } else {
        (total_size + buffer_size - 1) / (buffer_size as int)
    }
}

/// The number of writes progress is reported against.
pub fn transfer_chunks(total_size: u64, buffer_size: usize) -> (r: u64)
    requires
        buffer_size > 0,
    ensures
        r == chunk_count(total_size, buffer_size),
{
    if total_size == 0 {
        return 1;
    }
    let b = buffer_size as u64;
    let q = (total_size - 1) / b;
    proof {
        vstd::arithmetic::div_mod::lemma_div_plus_one(total_size - 1, b as int);
        vstd::arithmetic::div_mod::lemma_div_is_ordered_by_denominator(total_size - 1, 1, b as int);
    }
    q + 1
}

/// An item whose local file is missing settles without a transfer: it
/// leaves the queue and the history stays as it was.
pub proof fn lemma_missing_file_dropped(
    item: QueueItem,
    q: Seq<QueueItem>,
    h: Seq<History>,
    entry: History,
)
    ensures
        step_after(item.local_file@, ItemStep::Check, ItemEvent::LocalFile { regular: false })
            == (ItemStep::Settle { outcome: ItemOutcome::Missing }),
        settled_history(h, ItemOutcome::Missing, entry) == h,
        !queue_has(dequeued(q, item.uuid@), item.uuid@),
{
    lemma_dequeued(q, item.uuid@);
}

/// When the remote target already has the local file's size, the item
/// settles without an upload step; it leaves the queue, and the history gains
/// exactly the one entry when no entry held its content and its identity is
/// fresh.
pub proof fn lemma_same_size_skips_upload(
    item: QueueItem,
    local: u64,
    remote: u64,
    q: Seq<QueueItem>,
    h: Seq<History>,
    entry: History,
)
    requires
        remote > 0,
        remote == local,
    ensures
        step_after(item.local_file@, ItemStep::Compare, ItemEvent::Sizes { local, remote }) == (
        ItemStep::Settle { outcome: ItemOutcome::AlreadyThere }),
        !queue_has(dequeued(q, item.uuid@), item.uuid@),
        content_recorded(h, entry.content@) ==> settled_history(
            h,
            ItemOutcome::AlreadyThere,
            entry,
        ) == h,
        !content_recorded(h, entry.content@) && !history_has(h, entry.uuid@) ==> settled_history(
            h,
            ItemOutcome::AlreadyThere,
            entry,
        ) == h.insert(newer_prefix(h, entry.timestamp) as int, entry),
{
    lemma_dequeued(q, item.uuid@);
}

/// Content holds itself, so a recorded entry is found by its own content.
proof fn lemma_content_holds_itself(c: Seq<char>)
    ensures
        is_substring(c, c),
{
    assert(c.subrange(0, c.len() as int) =~= c);
    assert(occurs_at(c, c, 0));
}

/// Two items that render the same content leave one history entry: once the
/// first is recorded with a fresh identity, recording the second changes
/// nothing, and an entry holding that content is there.
pub proof fn lemma_same_content_recorded_once(h: Seq<History>, first: History, second: History)
    requires
        first.content@ == second.content@,
        !history_has(h, first.uuid@),
    ensures
        recorded(recorded(h, first), second) == recorded(h, first),
        content_recorded(recorded(h, first), first.content@),
        !content_recorded(h, first.content@) ==> recorded(h, first).len() == h.len() + 1,
{
    let h1 = recorded(h, first);
    if !content_recorded(h, first.content@) {
        let p = newer_prefix(h, first.timestamp) as int;
        lemma_newer_prefix_bound(h, first.timestamp);
        assert(h1[p] == first);
        lemma_content_holds_itself(first.content@);
        assert(content_recorded(h1, first.content@));
    }
}

} // verus!

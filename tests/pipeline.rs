use small_bin::config::{AppConfig, Config, SelectError};
use small_bin::database::{Database, History, QueueItem};
use small_bin::notification::{notification, notification_script};
use small_bin::text::{occurs_in, same_text};
use small_bin::transfer::{
    build_clipboard, clipboard_links, finish_item, next_step, record_history, remote_target, render_link, settle_item,
    transfer_chunks, ItemEvent, ItemOutcome, ItemStep,
};
use small_bin::utils::{join_path, matches_temp_pattern};
use small_bin::watcher::{admit_path, file_identity, process_event, queue_item_for};
use small_bin::config::{NotificationSettings, SoundSettings};

fn item(local: &str, remote: &str, id: &str) -> QueueItem {
    QueueItem {
        local_file: String::from(local),
        remote_file: String::from(remote),
        uuid: String::from(id),
    }
}

fn entry(content: &str, ts: i64, file: &str, id: &str) -> History {
    History {
        content: String::from(content),
        timestamp: ts,
        file: String::from(file),
        uuid: String::from(id),
    }
}

fn profile(address: &str, remote_path: &str) -> Config {
    Config {
        address: String::from(address),
        remote_path: String::from(remote_path),
        ..Config::default()
    }
}

#[test]
fn identity_is_stable_per_path() {
    let a = file_identity("/tmp/shot.png");
    assert_eq!(a, file_identity("/tmp/shot.png"));
    assert_ne!(a, file_identity("/tmp/other.png"));
    assert_ne!(a, "/tmp/shot.png");
    assert_eq!(a.len(), 36);
}

#[test]
fn queue_item_joins_remote_dir_and_identity() {
    let it = queue_item_for("/tmp/shot.png", "/srv/shots");
    let id = file_identity("/tmp/shot.png");
    assert_eq!(it.uuid, id);
    assert_eq!(it.local_file, "/tmp/shot.png");
    assert_eq!(it.remote_file, format!("/srv/shots/{id}"));
}

#[test]
fn enqueue_twice_leaves_one_row() {
    let mut db = Database::new();
    let it = item("/tmp/a.png", "/srv/x", "id-a");
    assert!(db.add_to_queue(&it));
    assert!(!db.add_to_queue(&item("/tmp/other.png", "/srv/y", "id-a")));
    let q = db.get_queue();
    assert_eq!(q.len(), 1);
    assert_eq!(q[0].local_file, "/tmp/a.png");
}

#[test]
fn repeated_watch_event_is_absorbed() {
    let mut db = Database::new();
    let p = profile("https://host/", "/srv/shots");
    assert!(admit_path(&mut db, &p, "/tmp/shot.png", true).is_some());
    assert!(admit_path(&mut db, &p, "/tmp/shot.png", true).is_some());
    assert_eq!(db.get_queue().len(), 1);
}

#[test]
fn remove_is_idempotent() {
    let mut db = Database::new();
    db.add_to_queue(&item("/a", "/r/a", "a"));
    db.add_to_queue(&item("/b", "/r/b", "b"));
    assert!(db.remove_from_queue("a"));
    assert!(!db.remove_from_queue("a"));
    let q = db.get_queue();
    assert_eq!(q.len(), 1);
    assert_eq!(q[0].uuid, "b");
}

#[test]
fn history_identity_is_unique() {
    let mut db = Database::new();
    assert!(db.add_history(&entry("x", 1, "/a", "same")));
    assert!(!db.add_history(&entry("y", 2, "/b", "same")));
    assert_eq!(db.get_history(None).len(), 1);
}

#[test]
fn history_request_returns_most_recent_first() {
    let mut db = Database::new();
    let order = [3i64, 9, 1, 7, 5, 10, 2, 8, 4, 6];
    for ts in order {
        db.add_history(&entry(&format!("link{ts}"), ts, "/f", &format!("id{ts}")));
    }
    let five = db.get_history(Some(5));
    let stamps: Vec<i64> = five.iter().map(|h| h.timestamp).collect();
    assert_eq!(stamps, vec![10, 9, 8, 7, 6]);
    assert_eq!(db.get_history(Some(50)).len(), 10);
    assert_eq!(db.get_history(Some(0)).len(), 0);
}

#[test]
fn equal_timestamps_put_the_later_entry_first() {
    let mut db = Database::new();
    db.add_history(&entry("a", 5, "/f", "a"));
    db.add_history(&entry("b", 5, "/f", "b"));
    let h = db.get_history(None);
    assert_eq!(h[0].uuid, "b");
    assert_eq!(h[1].uuid, "a");
}

#[test]
fn missing_local_file_is_dropped_without_history() {
    let mut db = Database::new();
    let it = item("/tmp/gone.png", "/srv/x", "gone");
    db.add_to_queue(&it);
    let step = next_step(&it, ItemStep::Check, ItemEvent::LocalFile { regular: false });
    assert_eq!(step, ItemStep::Settle { outcome: ItemOutcome::Missing });
    let added = settle_item(&mut db, &it, ItemOutcome::Missing, entry("https://h/gone.png", 1, "/tmp/gone.png", "e1"));
    assert!(!added);
    assert!(db.get_queue().is_empty());
    assert!(db.get_history(None).is_empty());
}

#[test]
fn temp_named_item_is_dropped() {
    let it = item("/tmp/draft-Xk2p9Z", "/srv/x", "t");
    let step = next_step(&it, ItemStep::Check, ItemEvent::LocalFile { regular: true });
    assert_eq!(step, ItemStep::Settle { outcome: ItemOutcome::TempName });
}

#[test]
fn same_size_remote_skips_upload_and_records_once() {
    let mut db = Database::new();
    let it = item("/tmp/a.png", "/srv/x", "a");
    db.add_to_queue(&it);
    let step = next_step(&it, ItemStep::Compare, ItemEvent::Sizes { local: 2048, remote: 2048 });
    assert_eq!(step, ItemStep::Settle { outcome: ItemOutcome::AlreadyThere });
    let added = settle_item(&mut db, &it, ItemOutcome::AlreadyThere, entry("https://h/a.png", 1, "/tmp/a.png", "e1"));
    assert!(added);
    assert!(db.get_queue().is_empty());
    assert_eq!(db.get_history(None).len(), 1);
}

#[test]
fn empty_remote_or_other_size_uploads() {
    let it = item("/tmp/a.png", "/srv/x", "a");
    let s = next_step(&it, ItemStep::Compare, ItemEvent::Sizes { local: 0, remote: 0 });
    assert_eq!(s, ItemStep::Upload);
    let s = next_step(&it, ItemStep::Compare, ItemEvent::Sizes { local: 10, remote: 7 });
    assert_eq!(s, ItemStep::Upload);
}

#[test]
fn failures_leave_item_for_retry() {
    let it = item("/tmp/a.png", "/srv/x", "a");
    assert_eq!(next_step(&it, ItemStep::Connect, ItemEvent::Session { established: false }), ItemStep::Retry);
    assert_eq!(next_step(&it, ItemStep::Upload, ItemEvent::Transfer { completed: false }), ItemStep::Retry);
    assert_eq!(next_step(&it, ItemStep::Compare, ItemEvent::Failed), ItemStep::Retry);
    assert_eq!(next_step(&it, ItemStep::Connect, ItemEvent::Session { established: true }), ItemStep::Compare);
}

#[test]
fn identical_content_is_recorded_once() {
    let mut db = Database::new();
    assert!(record_history(&mut db, entry("https://h/abc.png", 1, "/tmp/a.png", "r1")));
    assert!(!record_history(&mut db, entry("https://h/abc.png", 2, "/tmp/b.png", "r2")));
    assert_eq!(db.get_history(None).len(), 1);
}

#[test]
fn content_inside_a_batch_entry_counts_as_recorded() {
    let mut db = Database::new();
    db.add_history(&entry("https://h/a.png, https://h/b.png", 1, "/f", "batch"));
    assert!(db.has_content("https://h/b.png"));
    assert!(!record_history(&mut db, entry("https://h/b.png", 2, "/b", "single")));
    assert!(!db.has_content("https://h/c.png"));
}

#[test]
fn end_to_end_upload_of_fresh_item() {
    let mut db = Database::new();
    let it = item("/tmp/shot.png", "https://host/abc123", "abc123");
    db.add_to_queue(&it);
    let mut step = ItemStep::Check;
    let events = [
        ItemEvent::LocalFile { regular: true },
        ItemEvent::Session { established: true },
        ItemEvent::Sizes { local: 4096, remote: 0 },
        ItemEvent::Transfer { completed: true },
    ];
    for ev in events {
        step = next_step(&it, step, ev);
    }
    assert_eq!(step, ItemStep::Settle { outcome: ItemOutcome::Uploaded });
    assert_eq!(remote_target(&it), "https://host/abc123.png");
    let link = render_link("https://host/", &it.uuid, &it.local_file);
    let _ = settle_item(&mut db, &it, ItemOutcome::Uploaded, History {
        content: link,
        timestamp: 100,
        file: it.local_file.clone(),
        uuid: String::from("fresh"),
    });
    assert!(db.get_queue().is_empty());
    let h = db.get_history(None);
    assert_eq!(h.len(), 1);
    assert_eq!(h[0].file, "/tmp/shot.png");
    assert!(h[0].content.contains("abc123.png"));
}

#[test]
fn temp_named_file_is_never_enqueued() {
    assert!(matches_temp_pattern("draft-Xk2p9Z"));
    let mut db = Database::new();
    let p = profile("https://host/", "/srv/shots");
    assert!(admit_path(&mut db, &p, "draft-Xk2p9Z", true).is_none());
    assert!(db.get_queue().is_empty());
    assert!(admit_path(&mut db, &p, "/tmp/shot.png", false).is_none());
    assert!(db.get_queue().is_empty());
}

#[test]
fn temp_pattern_edges() {
    assert!(matches_temp_pattern("/tmp/x-abcd"));
    assert!(!matches_temp_pattern("/tmp/x-abc"));
    assert!(!matches_temp_pattern("/tmp/shot-2024.png"));
    assert!(!matches_temp_pattern("/tmp/plain"));
    assert!(!matches_temp_pattern(""));
    assert!(matches_temp_pattern("-1234"));
}

#[test]
fn clipboard_joins_links_with_commas() {
    let items = vec![item("/tmp/a.png", "/r/a", "a1"), item("/tmp/b", "/r/b", "b2")];
    let profiles = vec![profile("https://one/", "/r"), profile("https://two/", "/r")];
    assert_eq!(clipboard_links(&profiles, &items), "https://one/a1.png, https://two/b2");
    assert_eq!(clipboard_links(&vec![], &vec![]), "");
}

#[test]
fn chunk_counts() {
    assert_eq!(transfer_chunks(0, 1024), 1);
    assert_eq!(transfer_chunks(1, 1024), 1);
    assert_eq!(transfer_chunks(1024, 1024), 1);
    assert_eq!(transfer_chunks(1025, 1024), 2);
    assert_eq!(transfer_chunks(u64::MAX, 1), u64::MAX);
}

#[test]
fn notifications_follow_settings() {
    let n = NotificationSettings { start: true, clipboard: false, upload: true, error: true };
    let s = SoundSettings {
        start: true,
        start_sound: String::from("Ping"),
        upload: false,
        upload_sound: String::from("Glass"),
        error: true,
        error_sound: String::from("Basso"),
        ..SoundSettings::default()
    };
    let r = notification("hello", "start", &n, &s).unwrap();
    assert_eq!(r.message, "hello");
    assert_eq!(r.sound.as_deref(), Some("Ping"));
    assert!(!r.is_error);
    assert!(notification("copied", "clipboard", &n, &s).is_none());
    assert!(notification("x", "other", &n, &s).is_none());
    let up = notification("done", "upload", &n, &s).unwrap();
    assert_eq!(up.sound, None);
    let err = notification("bad", "error", &n, &s).unwrap();
    assert!(err.is_error);
    assert_eq!(err.sound.as_deref(), Some("Basso"));
}

#[test]
fn notification_script_text() {
    assert_eq!(
        notification_script("hi", Some("Ping")),
        "display notification \"hi\" sound name \"Ping\" with title \"Small\""
    );
    assert_eq!(notification_script("hi", None), "display notification \"hi\"  with title \"Small\"");
}

#[test]
fn text_helpers() {
    assert!(same_text("abc", "abc"));
    assert!(!same_text("abc", "abd"));
    let hay: Vec<char> = "a, bc".chars().collect();
    assert!(occurs_in(&"bc".chars().collect(), &hay));
    assert!(!occurs_in(&"cb".chars().collect(), &hay));
    assert!(occurs_in(&vec![], &hay));
}

#[test]
fn path_joining() {
    assert_eq!(join_path("/home/me", "x"), "/home/me/x");
    assert_eq!(join_path("/home/me/", "x"), "/home/me/x");
    assert_eq!(join_path("", "x"), "x");
    assert_eq!(join_path("/home/me", "/abs"), "/abs");
}

#[test]
fn missing_or_temp_items_settle_without_profiles() {
    let config = AppConfig::default();
    let mut db = Database::new();
    let gone = item("/tmp/gone.png", "/srv/x", "gone");
    let temp = item("/tmp/draft-Xk2p9Z", "/srv/x", "temp");
    db.add_to_queue(&gone);
    db.add_to_queue(&temp);
    assert_eq!(finish_item(&config, &mut db, &gone, ItemOutcome::Missing).unwrap().is_none(), true);
    assert_eq!(finish_item(&config, &mut db, &temp, ItemOutcome::TempName).unwrap().is_none(), true);
    assert!(db.get_queue().is_empty());
    assert!(db.get_history(None).is_empty());
}

#[test]
fn upload_without_any_profile_stays_queued() {
    let config = AppConfig::default();
    let mut db = Database::new();
    let it = item("/tmp/a.png", "/srv/x", "a");
    db.add_to_queue(&it);
    assert_eq!(
        finish_item(&config, &mut db, &it, ItemOutcome::Uploaded).unwrap_err(),
        SelectError::NoDefault
    );
    assert_eq!(db.get_queue().len(), 1);
}

#[test]
fn skipped_paths_need_no_profile() {
    let config = AppConfig::default();
    let mut db = Database::new();
    assert!(process_event(&config, &mut db, "draft-Xk2p9Z", true).unwrap().is_none());
    assert!(process_event(&config, &mut db, "/tmp/shot.png", false).unwrap().is_none());
    assert!(db.get_queue().is_empty());
}

#[test]
fn empty_batch_gives_empty_clipboard() {
    assert_eq!(build_clipboard(&AppConfig::default(), &vec![]).unwrap(), "");
}

//! Which desktop notifications go out, with which sound, and their script.
use crate::config::{NotificationSettings, SoundSettings};
use crate::text::{joined, same_text};
use vstd::prelude::*;

verus! {

/// A notification to deliver.
#[derive(Debug)]
pub struct NotificationRequest {
    pub message: String,
    /// The sound to play with it, if any.
    pub sound: Option<String>,
    /// The notification reports an error, which the caller passes on as one.
    pub is_error: bool,
}

/// Notifications of kind `kind` are switched on.
pub open spec fn kind_enabled(kind: Seq<char>, n: NotificationSettings) -> bool {
    if kind == "start"@ {
        n.start
    } else if kind == "clipboard"@ {
        n.clipboard
    } else if kind == "upload"@ {
        n.upload
    } else if kind == "error"@ {
        n.error
    } else {
        false
    }
}

/// The sound that goes with notifications of kind `kind`, if any.
pub open spec fn kind_sound(kind: Seq<char>, s: SoundSettings) -> Option<Seq<char>> {
    if kind == "start"@ && s.start {
        Some(s.start_sound@)
    } else if kind == "clipboard"@ && s.clipboard {
        Some(s.clipboard_sound@)
    } else if kind == "upload"@ && s.upload {
        Some(s.upload_sound@)
    } else if kind == "error"@ && s.error {
        Some(s.error_sound@)
    } else {
        None
    }
}

fn copy_text(s: &str) -> (r: String)
    ensures
        r@ == s@,
{
    let mut r = String::new();
    r.append(s);
    assert(r@ =~= s@);
    r
}

/// The notification to deliver for `message` of kind `notification_type`
/// (`start`, `clipboard`, `upload` or `error`): none when that kind is
/// switched off or unknown.
pub fn notification(
    message: &str,
    notification_type: &str,
    notifications: &NotificationSettings,
    sounds: &SoundSettings,
) -> (r: Option<NotificationRequest>)
    ensures
        match r {
            None => !kind_enabled(notification_type@, *notifications),
            Some(req) => {
                &&& kind_enabled(notification_type@, *notifications)
                &&& req.message@ == message@
                &&& req.is_error == (notification_type@ == "error"@)
                &&& match kind_sound(notification_type@, *sounds) {
                    Some(s) => req.sound matches Some(x) && x@ == s,
                    None => req.sound is None,
                }
            },
        },
{
    let is_start = same_text(notification_type, "start");
    let is_clipboard = same_text(notification_type, "clipboard");
    let is_upload = same_text(notification_type, "upload");
    let is_error = same_text(notification_type, "error");
    let enabled = if is_start {
        notifications.start
    } else if is_clipboard {
        notifications.clipboard
    } else if is_upload {
        notifications.upload
    } else if is_error {
        notifications.error
    } else {
        false
    };
    if !enabled {
        return None;
    }
    let sound = if is_start && sounds.start {
        Some(sounds.start_sound.clone())
    } else if is_clipboard && sounds.clipboard {
        Some(sounds.clipboard_sound.clone())
    } else if is_upload && sounds.upload {
        Some(sounds.upload_sound.clone())
    } else if is_error && sounds.error {
        Some(sounds.error_sound.clone())
    } else {
        None
    };
    Some(NotificationRequest { message: copy_text(message), sound, is_error })
}

/// The AppleScript line that shows `message`, with `sound_name` if given.
pub open spec fn script_text(message: Seq<char>, sound_name: Option<Seq<char>>) -> Seq<char> {
    let sound_command = match sound_name {
        Some(s) => "sound name \""@ + s + "\""@,
        None => Seq::empty(),
    };
    "display notification \""@ + message + "\" "@ + sound_command + " with title \"Small\""@
}

/// The characters of the sound name, if given.
pub open spec fn sound_view(sound_name: Option<&str>) -> Option<Seq<char>> {
    match sound_name {
        Some(s) => Some(s@),
        None => None,
    }
}

/// Builds the AppleScript line that shows `message`.
pub fn notification_script(message: &str, sound_name: Option<&str>) -> (r: String)
    ensures
        r@ == script_text(message@, sound_view(sound_name)),
{
    let sound_command = match sound_name {
        Some(s) => {
            let head = joined("sound name \"", s);
            joined(head.as_str(), "\"")
        },
        None => String::new(),
    };
    let a = joined("display notification \"", message);
    let b = joined(a.as_str(), "\" ");
    let c = joined(b.as_str(), sound_command.as_str());
    let r = joined(c.as_str(), " with title \"Small\"");
    assert(r@ =~= script_text(message@, sound_view(sound_name)));
    r
}

} // verus!

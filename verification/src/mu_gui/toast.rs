//! Short notices shown in a corner of the window for a few seconds, and the
//! ones the front end shows when tracks are queued or a scan is asked for.
use vstd::prelude::*;
use crate::text::{decimal, push_decimal};

verus! {

/// How long a notice stays, in milliseconds.
pub const DEFAULT_TTL_MS: u64 = 4000;

/// A notice: its message, a detail line, when it was shown and how long it
/// stays (both in milliseconds).
#[derive(Debug)]
pub struct Toast {
    pub message: String,
    pub detail: String,
    pub shown_at: u64,
    pub ttl: u64,
}

impl Toast {
    /// A notice shown at `now` for the usual time.
    pub fn new(message: String, detail: String, now: u64) -> (r: Self)
        ensures
            r.message@ == message@,
            r.detail@ == detail@,
            r.shown_at == now,
            r.ttl == DEFAULT_TTL_MS,
    {
        Toast { message, detail, shown_at: now, ttl: DEFAULT_TTL_MS }
    }

    /// Whether the notice's time is up at `now` (time before it was shown
    /// counts as none elapsed).
    pub fn expired(&self, now: u64) -> (r: bool)
        ensures
            r == ((if now >= self.shown_at { now - self.shown_at } else { 0 }) >= self.ttl),
    {
        let elapsed = if now >= self.shown_at { now - self.shown_at } else { 0 };
        elapsed >= self.ttl
    }
}

/// The message for `n` newly queued tracks.
pub open spec fn queued_message(n: nat) -> Seq<char> {
    if n == 1 {
        "Added to queue"@
    } else {
        "Added "@ + decimal(n) + " tracks"@
    }
}

/// Tell that `n` tracks were queued (nothing when there were none).
pub fn append_toast(toast: &mut Option<Toast>, n: usize, now: u64)
    ensures
        n == 0 ==> *final(toast) == *old(toast),
        n > 0 ==> (*final(toast) matches Some(t) && t.message@ == queued_message(n as nat) && t.detail@
            == "Queue only — playback unchanged"@ && t.shown_at == now && t.ttl == DEFAULT_TTL_MS),
{
    if n == 0 {
        return;
    }
    let message = if n == 1 {
        "Added to queue".to_string()
    } else {
        let mut m = "Added ".to_string();
        push_decimal(&mut m, n as u64);
        m.append(" tracks");
        m
    };
    *toast = Some(Toast::new(message, "Queue only — playback unchanged".to_string(), now));
}

/// Ask for a library scan at `now`: refused with a notice while one runs
/// or when no music folder is set; otherwise the scan clock restarts, the
/// progress dots go back to one, and the caller is to start the scan.
pub fn start_scan(
    scan_running: bool,
    music_folder: &str,
    toast: &mut Option<Toast>,
    scan_timer: &mut u64,
    dots: &mut usize,
    now: u64,
) -> (start: bool)
    ensures
        start == (!scan_running && music_folder@.len() > 0),
        scan_running ==> (*final(toast) matches Some(t) && t.message@ == "Scan already running"@ && t.detail@
            == "Please wait…"@ && t.shown_at == now),
        !scan_running && music_folder@.len() == 0 ==> (*final(toast) matches Some(t) && t.message@
            == "No music folder"@ && t.detail@ == "Use: mu_gui add <path>"@ && t.shown_at == now),
        !start ==> *final(scan_timer) == *old(scan_timer) && *final(dots) == *old(dots),
        start ==> *final(scan_timer) == now && *final(dots) == 1 && *final(toast) == *old(toast),
{
    if scan_running {
        *toast = Some(Toast::new("Scan already running".to_string(), "Please wait…".to_string(), now));
        return false;
    }
    if music_folder.unicode_len() == 0 {
        *toast = Some(Toast::new("No music folder".to_string(), "Use: mu_gui add <path>".to_string(), now));
        return false;
    }
    *scan_timer = now;
    *dots = 1;
    true
}

} // verus!

//! Desktop notifications: what is reported, with which title and for how long.
//! Showing them is left to the caller.

use vstd::prelude::*;

verus! {

/// How long a notification stays on screen.
#[derive(PartialEq, Eq, Structural, Clone, Copy, Debug)]
pub enum Timeout {
    /// Until the user dismisses it.
    Never,
    /// For this many milliseconds.
    Milliseconds(u32),
}

/// How long a transient notification stays on screen, in milliseconds.
pub const TRANSIENT_MS: u32 = 3000;

/// A notification ready to be shown.
pub struct Notification {
    pub app_name: String,
    pub summary: String,
    pub body: String,
    pub timeout: Timeout,
}

/// Builds the notifications that the daemon sends under its application name.
pub struct NotificationManager {
    app_name: String,
}

impl NotificationManager {
    pub closed spec fn spec_app_name(&self) -> Seq<char> {
        self.app_name@
    }

    /// A manager for the application's notifications.
    pub fn new() -> (r: NotificationManager)
        ensures
            r.spec_app_name() == "Karabiner-Pkl"@,
    {
        NotificationManager { app_name: "Karabiner-Pkl".to_string() }
    }

    fn notification(&self, title: &str, message: &str, is_error: bool) -> (r: Notification)
        ensures
            r.app_name@ == self.spec_app_name(),
            r.summary@ == title@,
            r.body@ == message@,
            r.timeout == (if is_error {
                Timeout::Never
            } else {
                Timeout::Milliseconds(TRANSIENT_MS)
            }),
    {
        Notification {
            app_name: self.app_name.clone(),
            summary: title.to_string(),
            body: message.to_string(),
            timeout: if is_error {
                Timeout::Never
            } else {
                Timeout::Milliseconds(TRANSIENT_MS)
            },
        }
    }

    /// A success report, shown for a short while.
    pub fn send_success(&self, message: &str) -> (r: Notification)
        ensures
            r.app_name@ == self.spec_app_name(),
            r.summary@ == "✅ Success"@,
            r.body@ == message@,
            r.timeout == Timeout::Milliseconds(TRANSIENT_MS),
    {
        self.notification("✅ Success", message, false)
    }

    /// An error report, shown until dismissed.
    pub fn send_error(&self, message: &str) -> (r: Notification)
        ensures
            r.app_name@ == self.spec_app_name(),
            r.summary@ == "❌ Error"@,
            r.body@ == message@,
            r.timeout == Timeout::Never,
    {
        self.notification("❌ Error", message, true)
    }

    /// An informational report, shown for a short while.
    pub fn send_info(&self, message: &str) -> (r: Notification)
        ensures
            r.app_name@ == self.spec_app_name(),
            r.summary@ == "ℹ️ Info"@,
            r.body@ == message@,
            r.timeout == Timeout::Milliseconds(TRANSIENT_MS),
    {
        self.notification("ℹ️ Info", message, false)
    }
}

impl Default for NotificationManager {
    fn default() -> (r: NotificationManager)
        ensures
            r.spec_app_name() == "Karabiner-Pkl"@,
    {
        NotificationManager::new()
    }
}

} // verus!

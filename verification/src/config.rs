//! Configuration resolution: a selector string (from an environment
//! variable) is mapped to one of a closed set of built-in browser profiles.
//! An unrecognized selector falls back to the default profile and reports
//! that a warning is owed; resolution itself can never fail.

use vstd::prelude::*;

verus! {

use crate::text::str_eq;
use vstd::string::StringExecFns;

/// The closed set of supported browsers.
#[derive(Clone, Copy, PartialEq, Eq, Structural, Debug)]
pub enum BrowserKind {
    BraveBeta,
    Brave,
    Zen,
    Chromium,
}

/// The immutable per-invocation bundle of browser-specific settings.
#[derive(Debug, Clone)]
pub struct BrowserConfig {
    pub name: String,
    pub executable: String,
    pub history_path: String,
    pub window_class: String,
    pub cdp_port: u16,
}

/// The browser kind a selector string denotes, if any.
pub open spec fn kind_for(sel: Seq<char>) -> Option<BrowserKind> {
    if sel == "brave-beta"@ {
        Some(BrowserKind::BraveBeta)
    } else if sel == "brave"@ {
        Some(BrowserKind::Brave)
    } else if sel == "zen"@ {
        Some(BrowserKind::Zen)
    } else if sel == "chromium"@ {
        Some(BrowserKind::Chromium)
    } else {
        None
    }
}

/// The display name of each profile.
pub open spec fn spec_display_name(kind: BrowserKind) -> Seq<char> {
    match kind {
        BrowserKind::BraveBeta => "Brave Beta"@,
        BrowserKind::Brave => "Brave"@,
        BrowserKind::Zen => "Zen Browser"@,
        BrowserKind::Chromium => "Chromium"@,
    }
}

/// The launch executable of each profile.
pub open spec fn spec_executable(kind: BrowserKind) -> Seq<char> {
    match kind {
        BrowserKind::BraveBeta => "brave-browser-beta"@,
        BrowserKind::Brave => "brave-browser"@,
        BrowserKind::Zen => "zen-browser"@,
        BrowserKind::Chromium => "chromium"@,
    }
}

/// The history-database path of each profile, relative to the home directory.
pub open spec fn spec_history_suffix(kind: BrowserKind) -> Seq<char> {
    match kind {
        BrowserKind::BraveBeta => "/.config/BraveSoftware/Brave-Browser-Beta/Default/History"@,
        BrowserKind::Brave => "/.config/BraveSoftware/Brave-Browser/Default/History"@,
        BrowserKind::Zen => "/.zen/default/places.sqlite"@,
        BrowserKind::Chromium => "/.config/chromium/Default/History"@,
    }
}

/// The window-manager class of each profile.
pub open spec fn spec_window_class(kind: BrowserKind) -> Seq<char> {
    match kind {
        BrowserKind::BraveBeta => "Brave-browser"@,
        BrowserKind::Brave => "Brave-browser"@,
        BrowserKind::Zen => "zen"@,
        BrowserKind::Chromium => "Chromium"@,
    }
}

/// The profile `c` is the built-in profile for `kind` with history path
/// rooted at `home`.
pub open spec fn is_profile_for(c: BrowserConfig, kind: BrowserKind, home: Seq<char>) -> bool {
    &&& c.name@ == spec_display_name(kind)
    &&& c.executable@ == spec_executable(kind)
    &&& c.history_path@ == home + spec_history_suffix(kind)
    &&& c.window_class@ == spec_window_class(kind)
    &&& c.cdp_port == 9222
}

/// The home directory substituted in profile construction when the
/// environment names none; a deliberate soft fallback, in contrast to
/// the bookmark launcher, where a missing home directory is fatal.
pub fn default_home() -> (r: &'static str)
    ensures
        r@ == "/home/user"@,
{
    "/home/user"
}

impl BrowserConfig {
    /// The built-in profile for `kind`, its history path rooted at `home`.
    pub fn profile(kind: BrowserKind, home: &str) -> (c: BrowserConfig)
        ensures
            is_profile_for(c, kind, home@),
    {
        match kind {
            BrowserKind::BraveBeta => {
                let mut history_path = home.to_owned();
                history_path.append("/.config/BraveSoftware/Brave-Browser-Beta/Default/History");
                BrowserConfig {
                    name: "Brave Beta".to_owned(),
                    executable: "brave-browser-beta".to_owned(),
                    history_path,
                    window_class: "Brave-browser".to_owned(),
                    cdp_port: 9222,
                }
            },
            BrowserKind::Brave => {
                let mut history_path = home.to_owned();
                history_path.append("/.config/BraveSoftware/Brave-Browser/Default/History");
                BrowserConfig {
                    name: "Brave".to_owned(),
                    executable: "brave-browser".to_owned(),
                    history_path,
                    window_class: "Brave-browser".to_owned(),
                    cdp_port: 9222,
                }
            },
            BrowserKind::Zen => {
                let mut history_path = home.to_owned();
                history_path.append("/.zen/default/places.sqlite");
                BrowserConfig {
                    name: "Zen Browser".to_owned(),
                    executable: "zen-browser".to_owned(),
                    history_path,
                    window_class: "zen".to_owned(),
                    cdp_port: 9222,
                }
            },
            BrowserKind::Chromium => {
                let mut history_path = home.to_owned();
                history_path.append("/.config/chromium/Default/History");
                BrowserConfig {
                    name: "Chromium".to_owned(),
                    executable: "chromium".to_owned(),
                    history_path,
                    window_class: "Chromium".to_owned(),
                    cdp_port: 9222,
                }
            },
        }
    }

    /// The browser kind a selector denotes; an absent selector means the
    /// default, and an unrecognized one falls back to the default with a
    /// warning owed (the second component). This cannot fail: every
    /// selector yields a kind.
    pub fn resolve_kind(selector: Option<&String>) -> (r: (BrowserKind, bool))
        ensures
            match selector {
                None => r == (BrowserKind::BraveBeta, false),
                Some(sel) => match kind_for(sel@) {
                    Some(kind) => r == (kind, false),
                    None => r == (BrowserKind::BraveBeta, true),
                },
            },
    {
        match selector {
            None => (BrowserKind::BraveBeta, false),
            Some(sel) => {
                if str_eq(sel.as_str(), "brave-beta") {
                    (BrowserKind::BraveBeta, false)
                } else if str_eq(sel.as_str(), "brave") {
                    (BrowserKind::Brave, false)
                } else if str_eq(sel.as_str(), "zen") {
                    (BrowserKind::Zen, false)
                } else if str_eq(sel.as_str(), "chromium") {
                    (BrowserKind::Chromium, false)
                } else {
                    (BrowserKind::BraveBeta, true)
                }
            },
        }
    }

    /// Resolve a selector and home directory to a full profile. The second
    /// component says whether the selector was unrecognized, in which case
    /// the caller owes exactly one warning and the default profile is used.
    pub fn resolve(selector: Option<&String>, home: &str) -> (r: (BrowserConfig, bool))
        ensures
            match selector {
                None => is_profile_for(r.0, BrowserKind::BraveBeta, home@) && !r.1,
                Some(sel) => match kind_for(sel@) {
                    Some(kind) => is_profile_for(r.0, kind, home@) && !r.1,
                    None => is_profile_for(r.0, BrowserKind::BraveBeta, home@) && r.1,
                },
            },
    {
        let (kind, warn) = Self::resolve_kind(selector);
        (Self::profile(kind, home), warn)
    }
}

} // verus!

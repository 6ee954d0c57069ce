//! The command-line surface, and the paths the commands work with.

use vstd::prelude::*;

use crate::text::{has_prefix, join, join_path, starts_with};

verus! {

/// The configuration file used when none is named.
pub const DEFAULT_CONFIG: &'static str = "~/.config/ankura.pkl";

/// The directory of the daemon's log.
pub const LOG_DIR: &'static str = "/opt/homebrew/var/log/ankura";

/// The daemon's log file, in `LOG_DIR`.
pub const LOG_FILE_NAME: &'static str = "ankura.log";

/// The parsed command line.
pub struct Cli {
    pub command: Commands,
    /// The configuration file.
    pub config: String,
    /// Whether debug logging is on.
    pub debug: bool,
}

/// The commands.
pub enum Commands {
    /// Starts the daemon; in daemon mode this process is the daemon.
    Start { daemon_mode: bool },
    /// Stops the daemon.
    Stop,
    /// Compiles once, optionally renaming the profile and choosing the output.
    Compile { profile_name: Option<String>, output: Option<String> },
    /// Checks the configuration without writing anything.
    Check,
    /// Shows the last lines of the log, optionally following it.
    Logs { lines: usize, follow: bool },
    /// Reports whether the daemon runs.
    Status,
    /// Writes an initial configuration.
    Init { force: bool },
    /// Imports a module from a file or URL.
    Add { source: String, name: Option<String> },
}

/// A path with a leading `~/` taken relative to the home directory, when known.
pub open spec fn expand_tilde_of(path: Seq<char>, home: Option<Seq<char>>) -> Seq<char> {
    match home {
        Some(h) => if starts_with(path, "~/"@) {
            join_path(h, path.subrange(2, path.len() as int))
        } else {
            path
        },
        None => path,
    }
}

/// Expands a leading `~/` to the home directory.
pub fn expand_tilde(path: &str, home: Option<&str>) -> (r: String)
    ensures
        r@ == expand_tilde_of(
            path@,
            match home {
                Some(h) => Some(h@),
                None => None,
            },
        ),
{
    match home {
        Some(h) => {
            if has_prefix(path, "~/") {
                proof {
                    reveal_strlit("~/");
                }
                let rest = path.substring_char(2, path.unicode_len());
                join(h, rest)
            } else {
                path.to_string()
            }
        },
        None => path.to_string(),
    }
}

/// The document that the remapping daemon reads, under the home directory.
pub fn default_output_path(home: &str) -> (r: String)
    ensures
        r@ == join_path(home@, ".config/karabiner/karabiner.json"@),
{
    join(home, ".config/karabiner/karabiner.json")
}

/// The package manager's `var` directory: under `HOMEBREW_PREFIX` when it is set,
/// else the first of `/opt/homebrew/var` and `/usr/local/var` that exists, else
/// `/opt/homebrew/var`.
pub fn homebrew_var_dir(prefix: Option<&str>, opt_homebrew_var_exists: bool, usr_local_var_exists: bool) -> (r: String)
    ensures
        r@ == match prefix {
            Some(p) => join_path(p@, "var"@),
            None => if opt_homebrew_var_exists {
                "/opt/homebrew/var"@
            } else if usr_local_var_exists {
                "/usr/local/var"@
            } else {
                "/opt/homebrew/var"@
            },
        },
{
    match prefix {
        Some(p) => join(p, "var"),
        None => if opt_homebrew_var_exists {
            "/opt/homebrew/var".to_string()
        } else if usr_local_var_exists {
            "/usr/local/var".to_string()
        } else {
            "/opt/homebrew/var".to_string()
        },
    }
}

/// The directory that holds the PID file.
pub fn runtime_dir(var_dir: &str) -> (r: String)
    ensures
        r@ == join_path(var_dir@, "run"@),
{
    join(var_dir, "run")
}

/// The PID file in the runtime directory.
pub fn daemon_pid_file(runtime_dir: &str) -> (r: String)
    ensures
        r@ == join_path(runtime_dir@, "ankura.pid"@),
{
    join(runtime_dir, "ankura.pid")
}

/// The directory of the daemon's log.
pub fn log_dir() -> (r: String)
    ensures
        r@ == LOG_DIR@,
{
    LOG_DIR.to_string()
}

/// The daemon's log file.
pub fn log_file_path() -> (r: String)
    ensures
        r@ == join_path(LOG_DIR@, LOG_FILE_NAME@),
{
    join(LOG_DIR, LOG_FILE_NAME)
}

} // verus!

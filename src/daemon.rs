//! The watch-compile loop: which file changes trigger a compile cycle, the
//! daemon's running state, and what each cycle reports.

use vstd::prelude::*;

use crate::error::{summary_of, KarabinerPklError};
use crate::notifications::{Notification, NotificationManager, Timeout, TRANSIENT_MS};
use crate::text::{component_start, last_component};

verus! {

/// The final component of a path, when it names something: not empty and not `..`.
pub open spec fn file_name_of(p: Seq<char>) -> Option<Seq<char>> {
    let c = last_component(p);
    if c.len() == 0 || c == ".."@ {
        None
    } else {
        Some(c)
    }
}

/// The final component of a path.
pub fn file_name(path: &str) -> (r: Option<String>)
    ensures
        match r {
            Some(n) => file_name_of(path@) == Some(n@),
            None => file_name_of(path@) is None,
        },
{
    let k = component_start(path);
    let c = path.substring_char(k, path.unicode_len());
    let n = c.unicode_len();
    let dotdot = n == 2 && c.get_char(0) == '.' && c.get_char(1) == '.';
    proof {
        reveal_strlit("..");
        if n == 2 {
            assert(dotdot == (c@ =~= ".."@));
        } else {
            assert(c@.len() != ".."@.len());
        }
    }
    if n == 0 || dotdot {
        None
    } else {
        Some(c.to_string())
    }
}

/// A settled change that the file watcher reported.
pub struct WatchEvent {
    pub path: String,
    /// Whether the change has settled (no further writes within the debounce window).
    pub settled: bool,
}

/// Whether a settled change at `ev_path` concerns the configuration file: its file
/// name is the configuration's (which tolerates saves by rename), or, for a
/// configuration path without a file name, it is that path.
pub open spec fn concerns_config(ev_path: Seq<char>, settled: bool, config_path: Seq<char>) -> bool {
    settled && match file_name_of(config_path) {
        Some(n) => file_name_of(ev_path) == Some(n),
        None => ev_path == config_path,
    }
}

/// Whether a batch holds a change to the configuration file.
pub open spec fn batch_concerns_config(events: Seq<WatchEvent>, config_path: Seq<char>) -> bool {
    exists|i: int|
        0 <= i < events.len() && concerns_config(
            #[trigger] events[i].path@,
            events[i].settled,
            config_path,
        )
}

/// The running state of the daemon.
#[derive(PartialEq, Eq, Structural, Clone, Copy, Debug)]
pub enum DaemonState {
    /// Not started.
    Idle,
    /// Waiting for file changes.
    Watching,
    /// Running a compile cycle.
    Compiling,
    /// Asked to stop; the loop ends after the current iteration.
    Stopping,
    /// The loop has ended.
    Stopped,
}

/// The daemon's watch loop state, for one configuration file.
pub struct Daemon {
    config_path: String,
    config_name: Option<String>,
    state: DaemonState,
}

impl Daemon {
    pub closed spec fn spec_config_path(&self) -> Seq<char> {
        self.config_path@
    }

    pub closed spec fn spec_state(&self) -> DaemonState {
        self.state
    }

    pub closed spec fn wf(&self) -> bool {
        match self.config_name {
            Some(n) => file_name_of(self.config_path@) == Some(n@),
            None => file_name_of(self.config_path@) is None,
        }
    }

    /// A daemon for the configuration at `config_path`, not yet started.
    pub fn new(config_path: String) -> (r: Daemon)
        ensures
            r.wf(),
            r.spec_config_path() == config_path@,
            r.spec_state() == DaemonState::Idle,
    {
        let config_name = file_name(config_path.as_str());
        Daemon { config_path, config_name, state: DaemonState::Idle }
    }

    /// The configuration file that the daemon watches.
    pub fn config_path(&self) -> (r: &str)
        ensures
            r@ == self.spec_config_path(),
    {
        self.config_path.as_str()
    }

    /// The state of the loop.
    pub fn state(&self) -> (r: DaemonState)
        ensures
            r == self.spec_state(),
    {
        self.state
    }

    /// Whether the daemon has been started and not yet asked to stop.
    pub fn is_running(&self) -> (r: bool)
        ensures
            r == (self.spec_state() == DaemonState::Watching || self.spec_state()
                == DaemonState::Compiling),
    {
        self.state == DaemonState::Watching || self.state == DaemonState::Compiling
    }

    /// Starts the daemon. The first compile cycle runs at once, whether or not
    /// the file changed; a daemon that runs already is not started again.
    pub fn start(&mut self) -> (r: Result<(), KarabinerPklError>)
        requires
            old(self).wf(),
        ensures
            final(self).wf(),
            final(self).spec_config_path() == old(self).spec_config_path(),
            old(self).spec_state() == DaemonState::Idle || old(self).spec_state()
                == DaemonState::Stopped ==> r is Ok && final(self).spec_state()
                == DaemonState::Compiling,
            !(old(self).spec_state() == DaemonState::Idle || old(self).spec_state()
                == DaemonState::Stopped) ==> (r matches Err(KarabinerPklError::DaemonError { message }) && message@
                == "Daemon is already running"@) && final(self).spec_state() == old(self).spec_state(),
    {
        if self.state == DaemonState::Idle || self.state == DaemonState::Stopped {
            self.state = DaemonState::Compiling;
            Ok(())
        } else {
            Err(KarabinerPklError::DaemonError { message: "Daemon is already running".to_string() })
        }
    }

    /// Takes a batch of coalesced changes: a batch that holds at least one change
    /// to the configuration file starts exactly one compile cycle, however many
    /// such changes it holds; other batches are ignored.
    pub fn on_batch(&mut self, events: &Vec<WatchEvent>) -> (r: bool)
        requires
            old(self).wf(),
        ensures
            final(self).wf(),
            final(self).spec_config_path() == old(self).spec_config_path(),
            r == (old(self).spec_state() == DaemonState::Watching && batch_concerns_config(
                events@,
                old(self).spec_config_path(),
            )),
            final(self).spec_state() == (if r {
                DaemonState::Compiling
            } else {
                old(self).spec_state()
            }),
    {
        if self.state != DaemonState::Watching {
            return false;
        }
        let mut i: usize = 0;
        while i < events.len()
            invariant
                self.wf(),
                self.config_path@ == old(self).config_path@,
                old(self).state == DaemonState::Watching,
                self.state == DaemonState::Watching,
                0 <= i <= events.len(),
                forall|j: int|
                    0 <= j < i ==> !concerns_config(
                        #[trigger] events@[j].path@,
                        events@[j].settled,
                        self.config_path@,
                    ),
            decreases events.len() - i,
        {
            let ev = &events[i];
            let hit = if ev.settled {
                match &self.config_name {
                    Some(n) => match file_name(ev.path.as_str()) {
                        Some(m) => m == *n,
                        None => false,
                    },
                    None => ev.path == self.config_path,
                }
            } else {
                false
            };
            if hit {
                assert(concerns_config(events@[i as int].path@, events@[i as int].settled, self.config_path@));
                self.state = DaemonState::Compiling;
                return true;
            }
            i = i + 1;
        }
        false
    }

    /// Ends a compile cycle: the daemon watches again, unless it was asked to stop.
    pub fn end_cycle(&mut self)
        requires
            old(self).wf(),
        ensures
            final(self).wf(),
            final(self).spec_config_path() == old(self).spec_config_path(),
            final(self).spec_state() == (if old(self).spec_state() == DaemonState::Compiling {
                DaemonState::Watching
            } else {
                old(self).spec_state()
            }),
    {
        if self.state == DaemonState::Compiling {
            self.state = DaemonState::Watching;
        }
    }

    /// Asks a running daemon to stop; the loop ends after its current iteration.
    pub fn stop(&mut self)
        requires
            old(self).wf(),
        ensures
            final(self).wf(),
            final(self).spec_config_path() == old(self).spec_config_path(),
            final(self).spec_state() == (if old(self).spec_state() == DaemonState::Watching
                || old(self).spec_state() == DaemonState::Compiling {
                DaemonState::Stopping
            } else {
                old(self).spec_state()
            }),
    {
        if self.state == DaemonState::Watching || self.state == DaemonState::Compiling {
            self.state = DaemonState::Stopping;
        }
    }

    /// Records that the loop has ended.
    pub fn finish(&mut self)
        requires
            old(self).wf(),
        ensures
            final(self).wf(),
            final(self).spec_config_path() == old(self).spec_config_path(),
            final(self).spec_state() == DaemonState::Stopped,
    {
        self.state = DaemonState::Stopped;
    }
}

/// Where a compile cycle failed.
pub enum CycleFailure {
    /// The evaluator or the shape of its output.
    Compile(KarabinerPklError),
    /// Reading or parsing the existing document.
    Merge(KarabinerPklError),
    /// Writing the merged document.
    Write(KarabinerPklError),
}

/// The report of a compile cycle: a transient success, or an error that stays
/// until dismissed.
pub fn cycle_report(nm: &NotificationManager, outcome: &Result<(), CycleFailure>) -> (r: Notification)
    ensures
        r.app_name@ == nm.spec_app_name(),
        outcome is Ok ==> r.summary@ == "✅ Success"@ && r.body@
            == "Karabiner configuration updated"@ && r.timeout == Timeout::Milliseconds(TRANSIENT_MS),
        outcome is Err ==> r.summary@ == "❌ Error"@ && r.timeout == Timeout::Never,
        outcome matches Err(CycleFailure::Compile(e)) ==> r.body@ == "Compilation failed: "@ + summary_of(&e),
        outcome matches Err(CycleFailure::Merge(e)) ==> r.body@ == "Merge failed: "@ + summary_of(&e),
        outcome matches Err(CycleFailure::Write(e)) ==> r.body@ == "Write failed: "@ + summary_of(&e),
{
    match outcome {
        Ok(()) => nm.send_success("Karabiner configuration updated"),
        Err(failure) => {
            let (stage, e) = match failure {
                CycleFailure::Compile(e) => ("Compilation failed: ", e),
                CycleFailure::Merge(e) => ("Merge failed: ", e),
                CycleFailure::Write(e) => ("Write failed: ", e),
            };
            let mut body = stage.to_string();
            body.append(e.summary());
            nm.send_error(body.as_str())
        },
    }
}

} // verus!

//! The playback controller: what it remembers of each scope, and how a
//! command to the renderer is put together.
//!
//! A scope is either the renderer as a whole (`None`) or one monitor, given
//! by its index (`Some(index)`). The renderer cannot be asked whether it
//! plays, so the controller remembers the last command of each scope instead:
//! a scope counts as playing after `play` and as paused after `pause`,
//! whether or not the command succeeded, and as playing before any command.

use crate::sample::index_listed;
use crate::text::{decimal_of, decimal_string};
use std::collections::HashMap;
use vstd::prelude::*;
use vstd::string::*;

verus! {

/// Seconds that a command to the renderer may take before it is given up.
pub const COMMAND_TIMEOUT_SECS: u64 = 5;

/// The two commands that the renderer takes.
#[derive(Clone, Copy, Debug, PartialEq, Eq, Structural)]
pub enum PlaybackCommand {
    Play,
    Pause,
}

/// A command for a scope.
#[derive(Clone, Copy, Debug, PartialEq, Eq, Structural)]
pub struct PlaybackRequest {
    pub command: PlaybackCommand,
    pub monitor_index: Option<i64>,
}

/// A call of the renderer's program: `binary`, found in `directory`, with
/// `args`.
#[derive(Clone, Debug, PartialEq, Eq)]
pub struct Invocation {
    pub directory: String,
    pub binary: String,
    pub args: Vec<String>,
}

/// An [`Invocation`] as a mathematical value.
pub struct InvocationView {
    pub directory: Seq<char>,
    pub binary: Seq<char>,
    pub args: Seq<Seq<char>>,
}

impl View for Invocation {
    type V = InvocationView;

    open spec fn view(&self) -> InvocationView {
        InvocationView {
            directory: self.directory@,
            binary: self.binary@,
            args: self.args.deep_view(),
        }
    }
}

/// How a call of the renderer's program ended.
#[derive(Clone, Copy, Debug, PartialEq, Eq, Structural)]
pub enum CommandOutcome {
    /// The program could not be started.
    SpawnFailed,
    /// The program ran to its end; `success` is its own exit status.
    Exited { success: bool },
    /// Waiting for the program failed.
    WaitFailed,
    /// The program was still running after [`COMMAND_TIMEOUT_SECS`].
    TimedOut,
}

/// What follows from the end of a call.
#[derive(Clone, Copy, Debug, PartialEq, Eq, Structural)]
pub struct Conclusion {
    /// Whether the command counts as carried out.
    pub success: bool,
    /// Whether the program is still running and has to be killed.
    pub kill: bool,
}

/// The word that selects `command` on the renderer's command line.
pub open spec fn verb_of(command: PlaybackCommand) -> Seq<char> {
    match command {
        PlaybackCommand::Play => "play"@,
        PlaybackCommand::Pause => "pause"@,
    }
}

/// The name of the renderer's program for the chosen width.
pub open spec fn binary_of(use_64bit: bool) -> Seq<char> {
    if use_64bit {
        "wallpaper64.exe"@
    } else {
        "wallpaper32.exe"@
    }
}

/// The arguments of `command` for a scope: `-control <verb>`, followed by
/// `-monitor <index>` where the scope is one monitor.
pub open spec fn arguments_of(command: PlaybackCommand, monitor_index: Option<i64>) -> Seq<
    Seq<char>,
> {
    match monitor_index {
        Some(index) => seq![
            "-control"@,
            verb_of(command),
            "-monitor"@,
            decimal_of(index as int),
        ],
        None => seq!["-control"@, verb_of(command)],
    }
}

/// The call that carries `command` for a scope to the renderer installed in
/// `directory`.
pub open spec fn invocation_of(
    directory: Seq<char>,
    use_64bit: bool,
    command: PlaybackCommand,
    monitor_index: Option<i64>,
) -> InvocationView {
    InvocationView {
        directory,
        binary: binary_of(use_64bit),
        args: arguments_of(command, monitor_index),
    }
}

/// What follows from `outcome`: a call succeeds only if the program ended
/// by itself with success, and only a call that timed out leaves a program
/// to kill.
pub open spec fn conclusion_of(outcome: CommandOutcome) -> Conclusion {
    Conclusion {
        success: outcome == (CommandOutcome::Exited { success: true }),
        kill: outcome == CommandOutcome::TimedOut,
    }
}

/// See [`conclusion_of`].
pub fn conclude(outcome: CommandOutcome) -> (c: Conclusion)
    ensures
        c == conclusion_of(outcome),
{
    match outcome {
        CommandOutcome::SpawnFailed => Conclusion { success: false, kill: false },
        CommandOutcome::Exited { success } => Conclusion { success, kill: false },
        CommandOutcome::WaitFailed => Conclusion { success: false, kill: false },
        CommandOutcome::TimedOut => Conclusion { success: false, kill: true },
    }
}

/// The controller's state as a mathematical value.
pub struct ControllerView {
    /// The directory in which the renderer is installed.
    pub executable_path: Seq<char>,
    /// Whether the 64-bit program is called.
    pub use_64bit: bool,
    /// Whether the renderer as a whole counts as playing.
    pub global_playing: bool,
    /// The monitors that took a command, each with whether it counts as
    /// playing.
    pub monitor_playing: Map<i64, bool>,
    /// The monitors that were seen or took a command, in the order of their
    /// first appearance.
    pub observed: Seq<i64>,
}

impl ControllerView {
    /// Whether the scope counts as playing; a monitor that took no command
    /// does.
    pub open spec fn is_playing(self, monitor_index: Option<i64>) -> bool {
        match monitor_index {
            Some(index) => if self.monitor_playing.contains_key(index) {
                self.monitor_playing[index]
            } else {
                true
            },
            None => self.global_playing,
        }
    }

    /// The state after the monitor `index` was seen.
    pub open spec fn observe(self, index: i64) -> ControllerView {
        if self.observed.contains(index) {
            self
        } else {
            ControllerView { observed: self.observed.push(index), ..self }
        }
    }

    /// The state after `command` was issued for a scope.
    pub open spec fn record(self, command: PlaybackCommand, monitor_index: Option<i64>)
        -> ControllerView {
        let playing = command == PlaybackCommand::Play;
        match monitor_index {
            Some(index) => ControllerView {
                monitor_playing: self.monitor_playing.insert(index, playing),
                ..self.observe(index)
            },
            None => ControllerView { global_playing: playing, ..self },
        }
    }

    /// No monitor is listed twice, and every monitor that took a command is
    /// observed.
    pub open spec fn wf(self) -> bool {
        &&& self.observed.no_duplicates()
        &&& forall|index: i64| #[trigger]
            self.monitor_playing.contains_key(index) ==> self.observed.contains(index)
    }
}

/// Seeing a monitor keeps the state well formed and changes nothing of what
/// counts as playing.
pub proof fn lemma_observe_keeps_wf(state: ControllerView, index: i64)
    requires
        state.wf(),
    ensures
        state.observe(index).wf(),
        state.observe(index).observed.contains(index),
        forall|scope: Option<i64>| state.observe(index).is_playing(scope) == state.is_playing(scope),
{
    let after = state.observe(index);
    if !state.observed.contains(index) {
        assert(after.observed.last() == index);
        assert forall|i: int, j: int|
            0 <= i < after.observed.len() && 0 <= j < after.observed.len() && i
                != j implies after.observed[i] != after.observed[j] by {
            if i < state.observed.len() {
                assert(state.observed.contains(state.observed[i]));
            }
            if j < state.observed.len() {
                assert(state.observed.contains(state.observed[j]));
            }
        }
        assert forall|k: i64| #[trigger]
            after.monitor_playing.contains_key(k) implies after.observed.contains(k) by {
            let at = choose|i: int| 0 <= i < state.observed.len() && state.observed[i] == k;
            assert(after.observed[at] == k);
        }
    }
}

/// A command keeps the state well formed, sets its own scope to what it
/// says, and leaves every other scope as it was.
pub proof fn lemma_record_keeps_wf(
    state: ControllerView,
    command: PlaybackCommand,
    monitor_index: Option<i64>,
)
    requires
        state.wf(),
    ensures
        state.record(command, monitor_index).wf(),
        state.record(command, monitor_index).is_playing(monitor_index) == (command
            == PlaybackCommand::Play),
        forall|scope: Option<i64>|
            scope != monitor_index ==> state.record(command, monitor_index).is_playing(scope)
                == state.is_playing(scope),
{
    match monitor_index {
        Some(index) => {
            lemma_observe_keeps_wf(state, index);
            let seen = state.observe(index);
            let after = state.record(command, monitor_index);
            assert forall|k: i64| #[trigger]
                after.monitor_playing.contains_key(k) implies after.observed.contains(k) by {
                if k != index {
                    assert(seen.monitor_playing.contains_key(k));
                }
            }
        },
        None => {},
    }
}

/// Remembers, for the renderer as a whole and for each monitor, whether it
/// counts as playing.
#[derive(Clone)]
pub struct WallpaperController {
    executable_path: String,
    use_64bit: bool,
    global_state: bool,
    monitor_states: HashMap<i64, bool>,
    observed: Vec<i64>,
}

impl View for WallpaperController {
    type V = ControllerView;

    closed spec fn view(&self) -> ControllerView {
        ControllerView {
            executable_path: self.executable_path@,
            use_64bit: self.use_64bit,
            global_playing: self.global_state,
            monitor_playing: self.monitor_states@,
            observed: self.observed@,
        }
    }
}

impl WallpaperController {
    /// A controller for the renderer installed in `base_path`. Every scope
    /// counts as playing, and no monitor is observed yet.
    pub fn new(base_path: String, use_64bit: bool) -> (controller: Self)
        ensures
            controller@ == (ControllerView {
                executable_path: base_path@,
                use_64bit,
                global_playing: true,
                monitor_playing: Map::empty(),
                observed: Seq::empty(),
            }),
    {
        Self {
            executable_path: base_path,
            use_64bit,
            global_state: true,
            monitor_states: HashMap::new(),
            observed: Vec::new(),
        }
    }

    /// Whether the scope counts as playing.
    pub fn is_playing(&self, monitor_index: Option<i64>) -> (playing: bool)
        ensures
            playing == self@.is_playing(monitor_index),
    {
        match monitor_index {
            Some(index) => match self.monitor_states.get(&index) {
                Some(state) => *state,
                None => true,
            },
            None => self.global_state,
        }
    }

    /// The monitors that were seen or took a command, in the order of their
    /// first appearance.
    pub fn observed_monitors(&self) -> (observed: Vec<i64>)
        ensures
            observed@ == self@.observed,
    {
        self.observed.clone()
    }

    /// Notes that the monitor `index` was seen. What counts as playing does
    /// not change.
    pub fn observe(&mut self, index: i64)
        ensures
            final(self)@ == old(self)@.observe(index),
    {
        if !index_listed(&self.observed, index) {
            self.observed.push(index);
        }
    }

    /// Remembers that `command` was issued for a scope.
    pub(crate) fn record(&mut self, command: PlaybackCommand, monitor_index: Option<i64>)
        ensures
            final(self)@ == old(self)@.record(command, monitor_index),
    {
        let playing = match command {
            PlaybackCommand::Play => true,
            PlaybackCommand::Pause => false,
        };
        match monitor_index {
            Some(index) => {
                self.observe(index);
                self.monitor_states.insert(index, playing);
            },
            None => {
                self.global_state = playing;
            },
        }
    }

    /// The call that carries `command` for a scope to the renderer.
    pub fn invocation(&self, command: PlaybackCommand, monitor_index: Option<i64>) -> (call:
        Invocation)
        ensures
            call@ == invocation_of(
                self@.executable_path,
                self@.use_64bit,
                command,
                monitor_index,
            ),
    {
        let verb = match command {
            PlaybackCommand::Play => "play",
            PlaybackCommand::Pause => "pause",
        };
        let mut args: Vec<String> = Vec::new();
        args.push(String::from_str("-control"));
        args.push(String::from_str(verb));
        match monitor_index {
            Some(index) => {
                args.push(String::from_str("-monitor"));
                args.push(decimal_string(index));
            },
            None => {},
        }
        let binary = if self.use_64bit {
            "wallpaper64.exe"
        } else {
            "wallpaper32.exe"
        };
        let call = Invocation {
            directory: self.executable_path.clone(),
            binary: String::from_str(binary),
            args,
        };
        assert(call@.args =~= arguments_of(command, monitor_index));
        call
    }

    /// Issues `command` for a scope: the scope counts as playing or paused
    /// from now on, whatever becomes of the call that is returned.
    fn execute_command(&mut self, command: PlaybackCommand, monitor_index: Option<i64>) -> (call:
        Invocation)
        ensures
            final(self)@ == old(self)@.record(command, monitor_index),
            call@ == invocation_of(
                old(self)@.executable_path,
                old(self)@.use_64bit,
                command,
                monitor_index,
            ),
    {
        let call = self.invocation(command, monitor_index);
        self.record(command, monitor_index);
        call
    }

    /// Pauses a scope: it counts as paused from now on, and the call that is
    /// returned tells the renderer.
    pub fn pause(&mut self, monitor_index: Option<i64>) -> (call: Invocation)
        ensures
            final(self)@ == old(self)@.record(PlaybackCommand::Pause, monitor_index),
            call@ == invocation_of(
                old(self)@.executable_path,
                old(self)@.use_64bit,
                PlaybackCommand::Pause,
                monitor_index,
            ),
    {
        self.execute_command(PlaybackCommand::Pause, monitor_index)
    }

    /// Resumes a scope: it counts as playing from now on, and the call that
    /// is returned tells the renderer.
    pub fn play(&mut self, monitor_index: Option<i64>) -> (call: Invocation)
        ensures
            final(self)@ == old(self)@.record(PlaybackCommand::Play, monitor_index),
            call@ == invocation_of(
                old(self)@.executable_path,
                old(self)@.use_64bit,
                PlaybackCommand::Play,
                monitor_index,
            ),
    {
        self.execute_command(PlaybackCommand::Play, monitor_index)
    }
}

} // verus!

//! The monitoring session: it turns visibility samples into commands for the
//! renderer, and it knows whether it runs.
//!
//! A scope is paused when its visibility falls below the threshold and
//! resumed when it is back at or above it. Only a crossing of the threshold
//! counts: the session remembers the last percentage of each scope, and a
//! sample on the same side as the one before it gives no command. The first
//! sample of a scope counts as a crossing from either side.
//!
//! Without the per-monitor mode there is one scope, the renderer as a whole,
//! judged by all samples of an update taken together. In the per-monitor mode
//! every monitor is a scope of its own.

use crate::percent::{percent_of, visibility_percent};
use crate::sample::{
    aggregate_percent, aggregate_percent_of, allow_list, MonitorMessage, VisibilitySample,
};
use crate::wallpaper::{ControllerView, PlaybackCommand, PlaybackRequest, WallpaperController};
use std::collections::HashMap;
use vstd::prelude::*;

verus! {

/// Updates that may wait between the visibility callback and the decision
/// loop; a further one is dropped.
pub const UPDATE_QUEUE_CAPACITY: usize = 100;

/// Where a session stands between start and stop.
#[derive(Clone, Copy, Debug, PartialEq, Eq, Structural)]
pub enum Lifecycle {
    /// Not monitoring.
    Idle,
    /// A start was asked for; the visibility source has not answered yet.
    Starting,
    /// Monitoring.
    Running,
    /// A stop was asked for and the scopes were resumed; the visibility
    /// source has not answered yet.
    Stopping,
}

/// What the caller of [`VisibilityMonitor::start_monitoring`] has to set up.
#[derive(Clone, Copy, Debug, PartialEq, Eq, Structural)]
pub struct WatchRequest {
    /// The least time between two updates, in milliseconds.
    pub min_interval_ms: u64,
    /// The capacity of the queue between callback and decision loop.
    pub queue_capacity: usize,
}

/// What the decision loop does after a message.
#[derive(Clone, Debug, PartialEq, Eq)]
pub enum LoopStep {
    /// Carry out these commands in order, then wait for the next message.
    Issue(Vec<PlaybackRequest>),
    /// End the loop.
    Finished,
}

/// The visibility fell below the threshold: it is below now and was not
/// before, or nothing was seen before.
pub open spec fn crossed_down(previous: Option<u8>, percent: u8, threshold: u8) -> bool {
    percent < threshold && (previous is None || previous->0 >= threshold)
}

/// The visibility rose to the threshold: it is at or above it now and was
/// not before, or nothing was seen before.
pub open spec fn crossed_up(previous: Option<u8>, percent: u8, threshold: u8) -> bool {
    percent >= threshold && (previous is None || previous->0 < threshold)
}

/// The command that a sample gives rise to: a pause on a crossing downwards
/// of a scope that plays, a resume on a crossing upwards of a scope that is
/// paused, and none otherwise.
pub open spec fn decision_of(previous: Option<u8>, percent: u8, threshold: u8, playing: bool)
    -> Option<PlaybackCommand> {
    if crossed_down(previous, percent, threshold) && playing {
        Some(PlaybackCommand::Pause)
    } else if crossed_up(previous, percent, threshold) && !playing {
        Some(PlaybackCommand::Play)
    } else {
        None
    }
}

/// See [`decision_of`].
pub fn decide(previous: Option<u8>, percent: u8, threshold: u8, playing: bool) -> (command:
    Option<PlaybackCommand>)
    ensures
        command == decision_of(previous, percent, threshold, playing),
{
    let unseen_or_above = match previous {
        None => true,
        Some(before) => before >= threshold,
    };
    let unseen_or_below = match previous {
        None => true,
        Some(before) => before < threshold,
    };
    if percent < threshold && unseen_or_above && playing {
        Some(PlaybackCommand::Pause)
    } else if percent >= threshold && unseen_or_below && !playing {
        Some(PlaybackCommand::Play)
    } else {
        None
    }
}

/// The percentage of one sample.
pub open spec fn sample_percent(sample: VisibilitySample) -> u8 {
    percent_of(sample.current_visible as int, sample.max_visible as int) as u8
}

/// The commands that resume `scopes`, one each, in their order.
pub open spec fn resume_requests(scopes: Seq<Option<i64>>) -> Seq<PlaybackRequest> {
    scopes.map_values(
        |scope: Option<i64>| PlaybackRequest { command: PlaybackCommand::Play, monitor_index: scope },
    )
}

/// The controller after each of `scopes` was resumed.
pub open spec fn resumed(controller: ControllerView, scopes: Seq<Option<i64>>) -> ControllerView
    decreases scopes.len(),
{
    if scopes.len() == 0 {
        controller
    } else {
        resumed(controller, scopes.drop_last()).record(PlaybackCommand::Play, scopes.last())
    }
}

/// A session as a mathematical value.
pub struct MonitorView {
    pub controller: ControllerView,
    pub per_monitor: bool,
    pub threshold: u8,
    pub allow: Option<Seq<i64>>,
    /// The last percentage of the renderer as a whole, if there was one.
    pub previous_global: Option<u8>,
    /// The last percentage of each monitor that was seen.
    pub previous_monitors: Map<i64, u8>,
    pub lifecycle: Lifecycle,
}

impl MonitorView {
    /// The percentage that is remembered of a scope.
    pub open spec fn previous(self, monitor_index: Option<i64>) -> Option<u8> {
        match monitor_index {
            Some(index) => if self.previous_monitors.contains_key(index) {
                Some(self.previous_monitors[index])
            } else {
                None
            },
            None => self.previous_global,
        }
    }

    /// The session after a sample of `percent` was judged for a scope, and
    /// the commands that this gave rise to: at most one.
    ///
    /// The percentage is remembered whether or not a command is issued, and
    /// a monitor counts as seen from its first sample on.
    pub open spec fn judge(self, monitor_index: Option<i64>, percent: u8) -> (
        MonitorView,
        Seq<PlaybackRequest>,
    ) {
        let command = decision_of(
            self.previous(monitor_index),
            percent,
            self.threshold,
            self.controller.is_playing(monitor_index),
        );
        let seen = match monitor_index {
            Some(index) => MonitorView {
                controller: self.controller.observe(index),
                previous_monitors: self.previous_monitors.insert(index, percent),
                ..self
            },
            None => MonitorView { previous_global: Some(percent), ..self },
        };
        match command {
            Some(command) => (
                MonitorView { controller: seen.controller.record(command, monitor_index), ..seen },
                seq![PlaybackRequest { command, monitor_index }],
            ),
            None => (seen, Seq::empty()),
        }
    }

    /// The session after each sample was judged for its own monitor, one
    /// after the other, and the commands in the order in which they arose.
    pub open spec fn judge_each(self, samples: Seq<VisibilitySample>) -> (
        MonitorView,
        Seq<PlaybackRequest>,
    )
        decreases samples.len(),
    {
        if samples.len() == 0 {
            (self, Seq::empty())
        } else {
            let (before, earlier) = self.judge_each(samples.drop_last());
            let (after, last) = before.judge(
                Some(samples.last().monitor_index),
                sample_percent(samples.last()),
            );
            (after, earlier + last)
        }
    }

    /// The session after an update, and the commands that it gave rise to.
    pub open spec fn update(self, samples: Seq<VisibilitySample>) -> (
        MonitorView,
        Seq<PlaybackRequest>,
    ) {
        if self.per_monitor {
            self.judge_each(samples)
        } else {
            self.judge(None, aggregate_percent_of(samples) as u8)
        }
    }

    /// The scopes that a stop resumes: every monitor that was seen, if the
    /// session judges monitors one by one and saw any, and else the renderer
    /// as a whole.
    pub open spec fn scopes_to_resume(self) -> Seq<Option<i64>> {
        if self.per_monitor && self.controller.observed.len() > 0 {
            self.controller.observed.map_values(|index: i64| Some(index))
        } else {
            seq![None]
        }
    }

    /// Whether the session monitors: from the moment the visibility source
    /// confirmed the start until it confirmed the stop.
    pub open spec fn running(self) -> bool {
        self.lifecycle == Lifecycle::Running || self.lifecycle == Lifecycle::Stopping
    }
}

/// A monitoring session.
pub struct VisibilityMonitor {
    controller: WallpaperController,
    per_monitor: bool,
    threshold: u8,
    monitor_indices: Option<Vec<i64>>,
    previous_global_visibility: Option<u8>,
    previous_monitor_visibilities: HashMap<i64, u8>,
    lifecycle: Lifecycle,
}

impl View for VisibilityMonitor {
    type V = MonitorView;

    closed spec fn view(&self) -> MonitorView {
        MonitorView {
            controller: self.controller@,
            per_monitor: self.per_monitor,
            threshold: self.threshold,
            allow: allow_list(self.monitor_indices),
            previous_global: self.previous_global_visibility,
            previous_monitors: self.previous_monitor_visibilities@,
            lifecycle: self.lifecycle,
        }
    }
}

impl VisibilityMonitor {
    /// A session that does not run yet and has seen nothing.
    ///
    /// `threshold` is the percentage below which a scope is paused;
    /// `monitor_indices` lists the monitors to watch, `None` for all.
    pub fn new(
        controller: WallpaperController,
        per_monitor: bool,
        threshold: u8,
        monitor_indices: Option<Vec<i64>>,
    ) -> (monitor: Self)
        ensures
            monitor@ == (MonitorView {
                controller: controller@,
                per_monitor,
                threshold,
                allow: allow_list(monitor_indices),
                previous_global: None,
                previous_monitors: Map::empty(),
                lifecycle: Lifecycle::Idle,
            }),
    {
        Self {
            controller,
            per_monitor,
            threshold,
            monitor_indices,
            previous_global_visibility: None,
            previous_monitor_visibilities: HashMap::new(),
            lifecycle: Lifecycle::Idle,
        }
    }

    /// The controller of this session.
    pub fn get_controller(&self) -> (controller: &WallpaperController)
        ensures
            controller@ == self@.controller,
    {
        &self.controller
    }

    /// The monitors to watch, `None` for all.
    pub fn monitor_indices(&self) -> (indices: &Option<Vec<i64>>)
        ensures
            allow_list(*indices) == self@.allow,
    {
        &self.monitor_indices
    }

    /// Where the session stands.
    pub fn lifecycle(&self) -> (lifecycle: Lifecycle)
        ensures
            lifecycle == self@.lifecycle,
    {
        self.lifecycle
    }

    /// Whether the session monitors.
    pub fn is_running(&self) -> (running: bool)
        ensures
            running == self@.running(),
    {
        match self.lifecycle {
            Lifecycle::Running => true,
            Lifecycle::Stopping => true,
            _ => false,
        }
    }

    /// Judges a sample of `percent` for a scope.
    fn judge(&mut self, monitor_index: Option<i64>, percent: u8) -> (command: Option<
        PlaybackRequest,
    >)
        ensures
            final(self)@ == old(self)@.judge(monitor_index, percent).0,
            match command {
                Some(request) => old(self)@.judge(monitor_index, percent).1 == seq![request],
                None => old(self)@.judge(monitor_index, percent).1 == Seq::<
                    PlaybackRequest,
                >::empty(),
            },
    {
        let playing = self.controller.is_playing(monitor_index);
        let previous = match monitor_index {
            Some(index) => match self.previous_monitor_visibilities.get(&index) {
                Some(before) => Some(*before),
                None => None,
            },
            None => self.previous_global_visibility,
        };
        match monitor_index {
            Some(index) => {
                self.controller.observe(index);
                self.previous_monitor_visibilities.insert(index, percent);
            },
            None => {
                self.previous_global_visibility = Some(percent);
            },
        }
        match decide(previous, percent, self.threshold, playing) {
            Some(command) => {
                self.controller.record(command, monitor_index);
                Some(PlaybackRequest { command, monitor_index })
            },
            None => None,
        }
    }

    /// Takes an update into account and returns the commands that it gives
    /// rise to, in the order in which they are to be carried out.
    pub fn apply_update(&mut self, samples: &Vec<VisibilitySample>) -> (requests: Vec<
        PlaybackRequest,
    >)
        ensures
            final(self)@ == old(self)@.update(samples@).0,
            requests@ == old(self)@.update(samples@).1,
    {
        let mut requests: Vec<PlaybackRequest> = Vec::new();
        if !self.per_monitor {
            let percent = aggregate_percent(samples);
            match self.judge(None, percent) {
                Some(request) => {
                    requests.push(request);
                },
                None => {},
            }
            assert(requests@ =~= old(self)@.update(samples@).1);
        } else {
            let mut i: usize = 0;
            proof {
                assert(samples@.take(0) =~= Seq::empty());
            }
            while i < samples.len()
                invariant
                    i <= samples.len(),
                    old(self)@.per_monitor,
                    self@ == old(self)@.judge_each(samples@.take(i as int)).0,
                    requests@ == old(self)@.judge_each(samples@.take(i as int)).1,
                decreases samples.len() - i,
            {
                let sample = samples[i];
                let percent = visibility_percent(sample.current_visible, sample.max_visible);
                proof {
                    let next = samples@.take(i + 1);
                    assert(next.drop_last() =~= samples@.take(i as int));
                    assert(next.last() == sample);
                }
                let ghost earlier = requests@;
                match self.judge(Some(sample.monitor_index), percent) {
                    Some(request) => {
                        requests.push(request);
                        assert(requests@ =~= earlier + seq![request]);
                    },
                    None => {
                        assert(requests@ =~= earlier + Seq::<PlaybackRequest>::empty());
                    },
                }
                i += 1;
            }
            proof {
                assert(samples@.take(samples.len() as int) =~= samples@);
            }
        }
        requests
    }

    /// One turn of the decision loop. The loop ends on the request to shut
    /// down and when the queue is closed (`None`); an update is taken into
    /// account as by [`Self::apply_update`].
    pub fn process_visibility_updates(&mut self, message: Option<MonitorMessage>) -> (step:
        LoopStep)
        ensures
            match message {
                Some(MonitorMessage::VisibilityUpdate(samples)) => {
                    &&& final(self)@ == old(self)@.update(samples@).0
                    &&& step matches LoopStep::Issue(requests)
                    &&& requests@ == old(self)@.update(samples@).1
                },
                _ => final(self)@ == old(self)@ && step == LoopStep::Finished,
            },
    {
        match message {
            Some(MonitorMessage::VisibilityUpdate(samples)) => LoopStep::Issue(
                self.apply_update(&samples),
            ),
            Some(MonitorMessage::Shutdown) => LoopStep::Finished,
            None => LoopStep::Finished,
        }
    }

    /// Asks for the start of monitoring. A session that stands idle forgets
    /// the percentages it remembers, goes on to `Starting`, and tells what to
    /// set up: the queue, the decision loop, and the callback at the
    /// visibility source. What the controller holds is kept. Any other
    /// session stays as it is, and the result is `None`.
    pub fn start_monitoring(&mut self, throttle_ms: u64) -> (request: Option<WatchRequest>)
        ensures
            old(self)@.lifecycle == Lifecycle::Idle ==> {
                &&& request == Some(
                    WatchRequest {
                        min_interval_ms: throttle_ms,
                        queue_capacity: UPDATE_QUEUE_CAPACITY,
                    },
                )
                &&& final(self)@ == (MonitorView {
                    previous_global: None,
                    previous_monitors: Map::empty(),
                    lifecycle: Lifecycle::Starting,
                    ..old(self)@
                })
            },
            old(self)@.lifecycle != Lifecycle::Idle ==> request is None && final(self)@ == old(
                self,
            )@,
    {
        match self.lifecycle {
            Lifecycle::Idle => {
                self.previous_global_visibility = None;
                self.previous_monitor_visibilities = HashMap::new();
                self.lifecycle = Lifecycle::Starting;
                Some(
                    WatchRequest {
                        min_interval_ms: throttle_ms,
                        queue_capacity: UPDATE_QUEUE_CAPACITY,
                    },
                )
            },
            _ => None,
        }
    }

    /// Takes the answer of the visibility source to the start. A session
    /// that is `Starting` runs from now on if the source watches, and stands
    /// idle again if it does not: the queue and the loop are then to be torn
    /// down. The result says whether the session has just begun to run.
    pub fn confirm_start(&mut self, watching: bool) -> (started: bool)
        ensures
            started == (old(self)@.lifecycle == Lifecycle::Starting && watching),
            final(self)@ == (MonitorView {
                lifecycle: if old(self)@.lifecycle == Lifecycle::Starting {
                    if watching {
                        Lifecycle::Running
                    } else {
                        Lifecycle::Idle
                    }
                } else {
                    old(self)@.lifecycle
                },
                ..old(self)@
            }),
    {
        match self.lifecycle {
            Lifecycle::Starting => {
                if watching {
                    self.lifecycle = Lifecycle::Running;
                    true
                } else {
                    self.lifecycle = Lifecycle::Idle;
                    false
                }
            },
            _ => false,
        }
    }

    /// Asks for the end of monitoring. A session that runs resumes every
    /// scope it is responsible for (see [`MonitorView::scopes_to_resume`]),
    /// whether or not the scope counts as paused, goes on to `Stopping`, and
    /// returns the commands: they are to be carried out in order, after the
    /// decision loop was told to shut down and before the visibility source
    /// is told to stop. Any other session stays as it is, and the result is
    /// `None`.
    pub fn stop_monitoring(&mut self) -> (requests: Option<Vec<PlaybackRequest>>)
        ensures
            old(self)@.lifecycle == Lifecycle::Running ==> {
                &&& requests matches Some(requests)
                &&& requests@ == resume_requests(old(self)@.scopes_to_resume())
                &&& final(self)@ == (MonitorView {
                    controller: resumed(old(self)@.controller, old(self)@.scopes_to_resume()),
                    lifecycle: Lifecycle::Stopping,
                    ..old(self)@
                })
            },
            old(self)@.lifecycle != Lifecycle::Running ==> requests is None && final(self)@
                == old(self)@,
    {
        match self.lifecycle {
            Lifecycle::Running => {},
            _ => {
                return None;
            },
        }
        let ghost scopes = self@.scopes_to_resume();
        let mut requests: Vec<PlaybackRequest> = Vec::new();
        let observed = self.controller.observed_monitors();
        if self.per_monitor && observed.len() > 0 {
            let mut i: usize = 0;
            proof {
                assert(scopes.take(0) =~= Seq::empty());
                assert(requests@ =~= resume_requests(scopes.take(0)));
            }
            while i < observed.len()
                invariant
                    i <= observed.len(),
                    scopes == observed@.map_values(|index: i64| Some(index)),
                    self@ == (MonitorView {
                        controller: resumed(old(self)@.controller, scopes.take(i as int)),
                        ..old(self)@
                    }),
                    requests@ == resume_requests(scopes.take(i as int)),
                decreases observed.len() - i,
            {
                let scope = Some(observed[i]);
                proof {
                    let next = scopes.take(i + 1);
                    assert(next.drop_last() =~= scopes.take(i as int));
                    assert(next.last() == scope);
                    assert(resume_requests(next) =~= resume_requests(scopes.take(i as int)).push(
                        PlaybackRequest { command: PlaybackCommand::Play, monitor_index: scope },
                    ));
                }
                self.controller.record(PlaybackCommand::Play, scope);
                requests.push(PlaybackRequest { command: PlaybackCommand::Play, monitor_index: scope });
                i += 1;
            }
            proof {
                assert(scopes.take(observed.len() as int) =~= scopes);
            }
        } else {
            self.controller.record(PlaybackCommand::Play, None);
            requests.push(PlaybackRequest { command: PlaybackCommand::Play, monitor_index: None });
            proof {
                assert(scopes =~= seq![None]);
                assert(scopes.drop_last() =~= Seq::empty());
                assert(resumed(old(self)@.controller, scopes) == old(self)@.controller.record(
                    PlaybackCommand::Play,
                    None,
                )) by {
                    reveal_with_fuel(resumed, 2);
                }
                assert(requests@ =~= resume_requests(scopes));
            }
        }
        self.lifecycle = Lifecycle::Stopping;
        Some(requests)
    }

    /// Takes the answer of the visibility source to the stop. A session that
    /// is `Stopping` stands idle from now on if the source stopped, and runs
    /// on if it did not; the scopes stay resumed either way. The result says
    /// whether the session has just come to rest.
    pub fn confirm_stop(&mut self, stopped: bool) -> (done: bool)
        ensures
            done == (old(self)@.lifecycle == Lifecycle::Stopping && stopped),
            final(self)@ == (MonitorView {
                lifecycle: if old(self)@.lifecycle == Lifecycle::Stopping {
                    if stopped {
                        Lifecycle::Idle
                    } else {
                        Lifecycle::Running
                    }
                } else {
                    old(self)@.lifecycle
                },
                ..old(self)@
            }),
    {
        match self.lifecycle {
            Lifecycle::Stopping => {
                if stopped {
                    self.lifecycle = Lifecycle::Idle;
                    true
                } else {
                    self.lifecycle = Lifecycle::Running;
                    false
                }
            },
            _ => false,
        }
    }
}

} // verus!

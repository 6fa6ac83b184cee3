//! What holds of every monitoring session, proved from the definitions in
//! [`crate::monitor`] and [`crate::wallpaper`].

use crate::monitor::{resume_requests, resumed, sample_percent, MonitorView};
use crate::sample::{aggregate_percent_of, VisibilitySample};
use crate::wallpaper::{
    lemma_observe_keeps_wf, lemma_record_keeps_wf, ControllerView, PlaybackCommand,
    PlaybackRequest,
};
use vstd::prelude::*;

verus! {

/// The request that pauses a scope.
pub open spec fn pause_of(monitor_index: Option<i64>) -> PlaybackRequest {
    PlaybackRequest { command: PlaybackCommand::Pause, monitor_index }
}

/// The request that resumes a scope.
pub open spec fn play_of(monitor_index: Option<i64>) -> PlaybackRequest {
    PlaybackRequest { command: PlaybackCommand::Play, monitor_index }
}

/// Whether a scope counts as playing after `requests` were carried out in
/// order, given whether it did before: the last request for the scope
/// decides.
pub open spec fn playing_after(playing: bool, requests: Seq<PlaybackRequest>, scope: Option<i64>)
    -> bool
    decreases requests.len(),
{
    if requests.len() == 0 {
        playing
    } else if requests.last().monitor_index == scope {
        requests.last().command == PlaybackCommand::Play
    } else {
        playing_after(playing, requests.drop_last(), scope)
    }
}

/// Every request for `scope` changes what the scope counts as: a pause comes
/// only while it plays, a resume only while it is paused.
pub open spec fn alternates(playing: bool, requests: Seq<PlaybackRequest>, scope: Option<i64>)
    -> bool {
    forall|k: int|
        0 <= k < requests.len() && (#[trigger] requests[k]).monitor_index == scope ==> (
        requests[k].command == PlaybackCommand::Pause) == playing_after(
            playing,
            requests.take(k),
            scope,
        )
}

/// A sample is remembered: after a sample of a scope was judged, the
/// percentage that the session remembers of the scope is that of the sample.
pub proof fn lemma_judge_remembers(session: MonitorView, scope: Option<i64>, percent: u8)
    ensures
        session.judge(scope, percent).0.previous(scope) == Some(percent),
{
}

/// A sample of one scope leaves every other scope alone: what is remembered
/// of it and whether it counts as playing stay as they were, and no command
/// is issued for it.
pub proof fn lemma_judge_is_local(
    session: MonitorView,
    scope: Option<i64>,
    percent: u8,
    other: Option<i64>,
)
    requires
        other != scope,
    ensures
        session.judge(scope, percent).0.previous(other) == session.previous(other),
        session.judge(scope, percent).0.controller.is_playing(other)
            == session.controller.is_playing(other),
        forall|k: int|
            0 <= k < session.judge(scope, percent).1.len() ==> (#[trigger] session.judge(
                scope,
                percent,
            ).1[k]).monitor_index == scope,
{
}

/// A sample gives at most one command, and only one that changes what the
/// scope counts as: a pause while it plays, a resume while it is paused.
/// Afterwards the scope counts as what the command says.
pub proof fn lemma_judge_changes_state(session: MonitorView, scope: Option<i64>, percent: u8)
    ensures
        session.judge(scope, percent).1.len() <= 1,
        session.judge(scope, percent).1.len() == 0 ==> session.judge(
            scope,
            percent,
        ).0.controller.is_playing(scope) == session.controller.is_playing(scope),
        session.judge(scope, percent).1.len() == 1 ==> {
            let request = session.judge(scope, percent).1[0];
            &&& request.monitor_index == scope
            &&& (request.command == PlaybackCommand::Pause) == session.controller.is_playing(scope)
            &&& session.judge(scope, percent).0.controller.is_playing(scope)
                != session.controller.is_playing(scope)
        },
{
}

/// A sample that repeats the one before it gives no command.
pub proof fn lemma_repeated_sample_is_silent(
    session: MonitorView,
    scope: Option<i64>,
    percent: u8,
)
    ensures
        session.judge(scope, percent).0.judge(scope, percent).1 == Seq::<PlaybackRequest>::empty(),
        session.judge(scope, percent).0.judge(scope, percent).0 == session.judge(scope, percent).0,
{
    let once = session.judge(scope, percent).0;
    lemma_judge_remembers(session, scope, percent);
    let twice = once.judge(scope, percent).0;
    match scope {
        Some(index) => {
            assert(once.previous_monitors.insert(index, percent) =~= once.previous_monitors);
            assert(once.controller.observed.contains(index)) by {
                let seen = session.controller.observe(index);
                if !session.controller.observed.contains(index) {
                    assert(seen.observed.last() == index);
                }
            }
        },
        None => {},
    }
}

/// The first sample of a scope that counts as playing pauses it if it lies
/// below the threshold, and gives no command otherwise.
pub proof fn lemma_first_sample(session: MonitorView, scope: Option<i64>, percent: u8)
    requires
        session.previous(scope) is None,
        session.controller.is_playing(scope),
    ensures
        percent < session.threshold ==> session.judge(scope, percent).1 == seq![pause_of(scope)],
        percent >= session.threshold ==> session.judge(scope, percent).1 == Seq::<
            PlaybackRequest,
        >::empty(),
{
}

/// The first sample of a scope that counts as paused resumes it if it lies
/// at or above the threshold, and gives no command otherwise.
pub proof fn lemma_first_sample_while_paused(
    session: MonitorView,
    scope: Option<i64>,
    percent: u8,
)
    requires
        session.previous(scope) is None,
        !session.controller.is_playing(scope),
    ensures
        percent >= session.threshold ==> session.judge(scope, percent).1 == seq![play_of(scope)],
        percent < session.threshold ==> session.judge(scope, percent).1 == Seq::<
            PlaybackRequest,
        >::empty(),
{
}

/// A sample keeps the controller well formed, and what it has seen it keeps;
/// the monitor of the sample counts as seen afterwards.
pub proof fn lemma_judge_keeps_wf(session: MonitorView, scope: Option<i64>, percent: u8)
    requires
        session.controller.wf(),
    ensures
        session.judge(scope, percent).0.controller.wf(),
        forall|index: i64|
            session.controller.observed.contains(index) ==> session.judge(
                scope,
                percent,
            ).0.controller.observed.contains(index),
        scope matches Some(index) ==> session.judge(
            scope,
            percent,
        ).0.controller.observed.contains(index),
{
    lemma_judge_observes(session, scope, percent);
    let seen = match scope {
        Some(index) => session.controller.observe(index),
        None => session.controller,
    };
    match scope {
        Some(index) => {
            lemma_observe_keeps_wf(session.controller, index);
        },
        None => {},
    }
    lemma_record_keeps_wf(seen, PlaybackCommand::Play, scope);
    lemma_record_keeps_wf(seen, PlaybackCommand::Pause, scope);
}

/// The part of [`lemma_judge_keeps_wf`] that holds of every controller.
proof fn lemma_judge_observes(session: MonitorView, scope: Option<i64>, percent: u8)
    ensures
        forall|index: i64|
            session.controller.observed.contains(index) ==> session.judge(
                scope,
                percent,
            ).0.controller.observed.contains(index),
        scope matches Some(index) ==> session.judge(
            scope,
            percent,
        ).0.controller.observed.contains(index),
{
    match scope {
        Some(own) => {
            let seen = session.controller.observe(own);
            let after = session.judge(scope, percent).0.controller;
            if !session.controller.observed.contains(own) {
                assert(seen.observed.last() == own);
            }
            assert(seen.observed.contains(own));
            assert(after.observed == seen.observed);
            if !session.controller.observed.contains(own) {
                assert forall|index: i64|
                    session.controller.observed.contains(index) implies seen.observed.contains(
                    index,
                ) by {
                    let at = choose|i: int|
                        0 <= i < session.controller.observed.len()
                            && session.controller.observed[i] == index;
                    assert(seen.observed[at] == index);
                }
            }
        },
        None => {},
    }
}

/// Appending the commands of one more sample keeps the commands of every
/// scope alternating.
proof fn lemma_alternates_step(
    playing: bool,
    earlier: Seq<PlaybackRequest>,
    before: MonitorView,
    own: Option<i64>,
    percent: u8,
    scope: Option<i64>,
)
    requires
        alternates(playing, earlier, scope),
        before.controller.is_playing(scope) == playing_after(playing, earlier, scope),
    ensures
        alternates(playing, earlier + before.judge(own, percent).1, scope),
        before.judge(own, percent).0.controller.is_playing(scope) == playing_after(
            playing,
            earlier + before.judge(own, percent).1,
            scope,
        ),
{
    let (after, last) = before.judge(own, percent);
    let requests = earlier + last;
    lemma_judge_changes_state(before, own, percent);
    if own != scope {
        lemma_judge_is_local(before, own, percent, scope);
    }
    if last.len() == 0 {
        assert(requests =~= earlier);
    } else {
        assert(requests.drop_last() =~= earlier);
        assert(requests.last() == last[0]);
        assert forall|k: int|
            0 <= k < requests.len() && (#[trigger] requests[k]).monitor_index == scope implies (
        requests[k].command == PlaybackCommand::Pause) == playing_after(
            playing,
            requests.take(k),
            scope,
        ) by {
            if k < earlier.len() {
                assert(requests[k] == earlier[k]);
                assert(requests.take(k) =~= earlier.take(k));
            } else {
                assert(requests.take(k) =~= earlier);
            }
        }
    }
}

/// The commands of an update alternate for every scope: a pause is issued
/// only for a scope that plays at that moment, a resume only for one that is
/// paused, so that the same command never comes twice in a row. What a
/// scope counts as after the update is what its last command says.
pub proof fn lemma_update_alternates(
    session: MonitorView,
    samples: Seq<VisibilitySample>,
    scope: Option<i64>,
)
    ensures
        alternates(session.controller.is_playing(scope), session.update(samples).1, scope),
        session.update(samples).0.controller.is_playing(scope) == playing_after(
            session.controller.is_playing(scope),
            session.update(samples).1,
            scope,
        ),
{
    let playing = session.controller.is_playing(scope);
    let none = Seq::<PlaybackRequest>::empty();
    if session.per_monitor {
        lemma_judge_each_alternates(session, samples, scope);
    } else {
        let percent = aggregate_percent_of(samples) as u8;
        lemma_alternates_step(playing, none, session, None, percent, scope);
        assert(none + session.judge(None, percent).1 =~= session.judge(None, percent).1);
    }
}

/// [`lemma_update_alternates`] for the samples of the per-monitor mode.
proof fn lemma_judge_each_alternates(
    session: MonitorView,
    samples: Seq<VisibilitySample>,
    scope: Option<i64>,
)
    ensures
        alternates(session.controller.is_playing(scope), session.judge_each(samples).1, scope),
        session.judge_each(samples).0.controller.is_playing(scope) == playing_after(
            session.controller.is_playing(scope),
            session.judge_each(samples).1,
            scope,
        ),
    decreases samples.len(),
{
    if samples.len() > 0 {
        lemma_judge_each_alternates(session, samples.drop_last(), scope);
        let (before, earlier) = session.judge_each(samples.drop_last());
        lemma_alternates_step(
            session.controller.is_playing(scope),
            earlier,
            before,
            Some(samples.last().monitor_index),
            sample_percent(samples.last()),
            scope,
        );
    }
}

/// Between a command for a scope and the next command for it that is not of
/// the other kind, nothing lies: where commands alternate, they do so one by
/// one.
proof fn lemma_alternation_holds_state(
    playing: bool,
    requests: Seq<PlaybackRequest>,
    scope: Option<i64>,
    i: int,
    j: int,
)
    requires
        alternates(playing, requests, scope),
        0 <= i < j <= requests.len(),
        requests[i].monitor_index == scope,
        forall|k: int|
            i < k < j && (#[trigger] requests[k]).monitor_index == scope ==> requests[k].command
                == requests[i].command,
    ensures
        playing_after(playing, requests.take(j), scope) == (requests[i].command
            == PlaybackCommand::Play),
    decreases j - i,
{
    let upto = requests.take(j);
    assert(upto.last() == requests[j - 1]);
    assert(upto.drop_last() =~= requests.take(j - 1));
    if j > i + 1 {
        lemma_alternation_holds_state(playing, requests, scope, i, j - 1);
        let between = requests[j - 1];
        if between.monitor_index == scope {
            assert(between.command == requests[i].command);
            assert((between.command == PlaybackCommand::Pause) == playing_after(
                playing,
                requests.take(j - 1),
                scope,
            ));
        }
    }
}

/// Where the commands for a scope alternate (see [`lemma_update_alternates`]),
/// two equal commands for the scope have one of the other kind between them:
/// no second pause comes while the scope is paused, no second resume while
/// it plays.
pub proof fn lemma_no_command_twice(
    playing: bool,
    requests: Seq<PlaybackRequest>,
    scope: Option<i64>,
    i: int,
    j: int,
)
    requires
        alternates(playing, requests, scope),
        0 <= i < j < requests.len(),
        requests[i].monitor_index == scope,
        requests[j].monitor_index == scope,
        requests[i].command == requests[j].command,
    ensures
        exists|k: int|
            i < k < j && (#[trigger] requests[k]).monitor_index == scope && requests[k].command
                != requests[i].command,
{
    if forall|k: int|
        i < k < j && (#[trigger] requests[k]).monitor_index == scope ==> requests[k].command
            == requests[i].command {
        lemma_alternation_holds_state(playing, requests, scope, i, j);
        assert((requests[j].command == PlaybackCommand::Pause) == playing_after(
            playing,
            requests.take(j),
            scope,
        ));
    }
}

/// Without the per-monitor mode, the percentage that is remembered after an
/// update is that of all its samples taken together.
pub proof fn lemma_update_remembers_aggregate(session: MonitorView, samples: Seq<VisibilitySample>)
    requires
        !session.per_monitor,
    ensures
        session.update(samples).0.previous(None) == Some(aggregate_percent_of(samples) as u8),
{
}

/// In the per-monitor mode, the percentage that is remembered of a monitor
/// after an update is that of the monitor's last sample in the update.
pub proof fn lemma_update_remembers_latest(
    session: MonitorView,
    samples: Seq<VisibilitySample>,
    k: int,
)
    requires
        session.per_monitor,
        0 <= k < samples.len(),
        forall|later: int|
            k < later < samples.len() ==> (#[trigger] samples[later]).monitor_index
                != samples[k].monitor_index,
    ensures
        session.update(samples).0.previous(Some(samples[k].monitor_index)) == Some(
            sample_percent(samples[k]),
        ),
    decreases samples.len(),
{
    let rest = samples.drop_last();
    let (before, _) = session.judge_each(rest);
    let own = Some(samples.last().monitor_index);
    let percent = sample_percent(samples.last());
    lemma_judge_each_keeps_mode(session, rest);
    if k == samples.len() - 1 {
        lemma_judge_remembers(before, own, percent);
    } else {
        assert(rest[k] == samples[k]);
        assert forall|later: int| k < later < rest.len() implies (#[trigger] rest[later]).monitor_index
            != rest[k].monitor_index by {
            assert(rest[later] == samples[later]);
        }
        lemma_update_remembers_latest(session, rest, k);
        lemma_judge_is_local(before, own, percent, Some(samples[k].monitor_index));
    }
}

/// The samples of an update change neither the mode nor the threshold, the
/// allow-list or the lifecycle of the session.
pub proof fn lemma_update_keeps_settings(session: MonitorView, samples: Seq<VisibilitySample>)
    ensures
        session.update(samples).0.per_monitor == session.per_monitor,
        session.update(samples).0.threshold == session.threshold,
        session.update(samples).0.allow == session.allow,
        session.update(samples).0.lifecycle == session.lifecycle,
{
    lemma_judge_each_keeps_mode(session, samples);
}

/// [`lemma_update_keeps_settings`] for the samples of the per-monitor mode.
proof fn lemma_judge_each_keeps_mode(session: MonitorView, samples: Seq<VisibilitySample>)
    ensures
        session.judge_each(samples).0.per_monitor == session.per_monitor,
        session.judge_each(samples).0.threshold == session.threshold,
        session.judge_each(samples).0.allow == session.allow,
        session.judge_each(samples).0.lifecycle == session.lifecycle,
        session.judge_each(samples).0.previous_global == session.previous_global,
        session.judge_each(samples).0.controller.global_playing
            == session.controller.global_playing,
    decreases samples.len(),
{
    if samples.len() > 0 {
        lemma_judge_each_keeps_mode(session, samples.drop_last());
    }
}

/// In the per-monitor mode, an update leaves alone every monitor of which it
/// holds no sample, and the renderer as a whole: what is remembered of the
/// scope and whether it counts as playing stay as they were, and no command
/// is issued for it.
pub proof fn lemma_update_is_local(
    session: MonitorView,
    samples: Seq<VisibilitySample>,
    other: Option<i64>,
)
    requires
        session.per_monitor,
        forall|k: int|
            0 <= k < samples.len() ==> Some((#[trigger] samples[k]).monitor_index) != other,
    ensures
        session.update(samples).0.previous(other) == session.previous(other),
        session.update(samples).0.controller.is_playing(other) == session.controller.is_playing(
            other,
        ),
        forall|k: int|
            0 <= k < session.update(samples).1.len() ==> (#[trigger] session.update(
                samples,
            ).1[k]).monitor_index != other,
    decreases samples.len(),
{
    if samples.len() > 0 {
        let rest = samples.drop_last();
        let (before, earlier) = session.judge_each(rest);
        let own = Some(samples.last().monitor_index);
        let percent = sample_percent(samples.last());
        lemma_judge_each_keeps_mode(session, rest);
        assert forall|k: int| 0 <= k < rest.len() implies Some((#[trigger] rest[k]).monitor_index)
            != other by {
            assert(rest[k] == samples[k]);
        }
        lemma_update_is_local(session, rest, other);
        lemma_judge_is_local(before, own, percent, other);
    }
}

/// Without the per-monitor mode, an update leaves every monitor alone:
/// nothing is remembered of it, it counts as what it counted as before, and
/// every command is for the renderer as a whole.
pub proof fn lemma_aggregate_update_is_global(
    session: MonitorView,
    samples: Seq<VisibilitySample>,
    index: i64,
)
    requires
        !session.per_monitor,
    ensures
        session.update(samples).0.previous(Some(index)) == session.previous(Some(index)),
        session.update(samples).0.controller.is_playing(Some(index))
            == session.controller.is_playing(Some(index)),
        forall|k: int|
            0 <= k < session.update(samples).1.len() ==> (#[trigger] session.update(
                samples,
            ).1[k]).monitor_index is None,
{
    lemma_judge_is_local(session, None, aggregate_percent_of(samples) as u8, Some(index));
}

/// An update keeps the controller well formed. The monitors that the
/// controller has seen it keeps, and in the per-monitor mode every monitor
/// with a sample in the update counts as seen afterwards.
pub proof fn lemma_update_observes(session: MonitorView, samples: Seq<VisibilitySample>)
    requires
        session.controller.wf(),
    ensures
        session.update(samples).0.controller.wf(),
        forall|index: i64|
            session.controller.observed.contains(index) ==> session.update(
                samples,
            ).0.controller.observed.contains(index),
        session.per_monitor ==> forall|k: int|
            0 <= k < samples.len() ==> session.update(samples).0.controller.observed.contains(
                (#[trigger] samples[k]).monitor_index,
            ),
    decreases samples.len(),
{
    if session.per_monitor {
        if samples.len() > 0 {
            let rest = samples.drop_last();
            let (before, _) = session.judge_each(rest);
            let own = Some(samples.last().monitor_index);
            let percent = sample_percent(samples.last());
            lemma_judge_each_keeps_mode(session, rest);
            lemma_update_observes(session, rest);
            lemma_judge_keeps_wf(before, own, percent);
            assert forall|k: int| 0 <= k < samples.len() implies session.update(
                samples,
            ).0.controller.observed.contains((#[trigger] samples[k]).monitor_index) by {
                if k < rest.len() {
                    assert(rest[k] == samples[k]);
                }
            }
        }
    } else {
        lemma_judge_keeps_wf(session, None, aggregate_percent_of(samples) as u8);
    }
}

/// Resuming scopes keeps the controller well formed; afterwards each of them
/// counts as playing, and every other scope counts as what it counted as
/// before.
pub proof fn lemma_resumed_plays(controller: ControllerView, scopes: Seq<Option<i64>>)
    requires
        controller.wf(),
    ensures
        resumed(controller, scopes).wf(),
        forall|scope: Option<i64>|
            resumed(controller, scopes).is_playing(scope) == (scopes.contains(scope)
                || controller.is_playing(scope)),
    decreases scopes.len(),
{
    if scopes.len() > 0 {
        let rest = scopes.drop_last();
        lemma_resumed_plays(controller, rest);
        lemma_record_keeps_wf(resumed(controller, rest), PlaybackCommand::Play, scopes.last());
        assert forall|scope: Option<i64>|
            resumed(controller, scopes).is_playing(scope) == (scopes.contains(scope)
                || controller.is_playing(scope)) by {
            if scope == scopes.last() {
                assert(scopes[scopes.len() - 1] == scope);
            } else if rest.contains(scope) {
                let at = choose|i: int| 0 <= i < rest.len() && rest[i] == scope;
                assert(scopes[at] == scope);
            } else if scopes.contains(scope) {
                let at = choose|i: int| 0 <= i < scopes.len() && scopes[i] == scope;
                assert(rest[at] == scope);
            }
        }
    }
}

/// A stop resumes every scope that the session is responsible for: at least
/// one command is issued; in the per-monitor mode every monitor that was
/// seen gets its resume, whether or not it was ever paused; in any other
/// case the renderer as a whole gets it. Every command of a stop is a
/// resume.
pub proof fn lemma_stop_resumes_every_scope(session: MonitorView)
    ensures
        resume_requests(session.scopes_to_resume()).len() >= 1,
        forall|k: int|
            0 <= k < resume_requests(session.scopes_to_resume()).len() ==> (
            #[trigger] resume_requests(session.scopes_to_resume())[k]).command
                == PlaybackCommand::Play,
        session.per_monitor ==> forall|index: i64|
            session.controller.observed.contains(index) ==> resume_requests(
                session.scopes_to_resume(),
            ).contains(#[trigger] play_of(Some(index))),
        !session.per_monitor || session.controller.observed.len() == 0 ==> resume_requests(
            session.scopes_to_resume(),
        ) == seq![play_of(None)],
{
    let scopes = session.scopes_to_resume();
    let requests = resume_requests(scopes);
    if session.per_monitor && session.controller.observed.len() > 0 {
        assert forall|index: i64| session.controller.observed.contains(index) implies requests.contains(
            #[trigger] play_of(Some(index)),
        ) by {
            let at = choose|i: int|
                0 <= i < session.controller.observed.len() && session.controller.observed[i]
                    == index;
            assert(requests[at] == play_of(Some(index)));
        }
    } else {
        assert(requests =~= seq![play_of(None)]);
    }
}

/// In the per-monitor mode a stop resumes each monitor once: no two of its
/// commands are for the same scope.
pub proof fn lemma_stop_resumes_once(session: MonitorView, i: int, j: int)
    requires
        session.controller.wf(),
        0 <= i < j < resume_requests(session.scopes_to_resume()).len(),
    ensures
        resume_requests(session.scopes_to_resume())[i].monitor_index != resume_requests(
            session.scopes_to_resume(),
        )[j].monitor_index,
{
}

/// The commands among `requests` that are for `scope`, in their order.
pub open spec fn commands_for(requests: Seq<PlaybackRequest>, scope: Option<i64>) -> Seq<
    PlaybackRequest,
> {
    requests.filter(|request: PlaybackRequest| request.monitor_index == scope)
}

/// The samples among `samples` that are of the monitor `index`, in their
/// order.
pub open spec fn samples_of(samples: Seq<VisibilitySample>, index: i64) -> Seq<VisibilitySample> {
    samples.filter(|sample: VisibilitySample| sample.monitor_index == index)
}

/// Two sessions treat a scope alike: they have the same threshold, remember
/// the same of the scope, and count it as the same.
pub open spec fn agree_on(one: MonitorView, two: MonitorView, scope: Option<i64>) -> bool {
    &&& one.threshold == two.threshold
    &&& one.previous(scope) == two.previous(scope)
    &&& one.controller.is_playing(scope) == two.controller.is_playing(scope)
}

/// Two sessions that treat a scope alike answer a sample of the scope alike,
/// and treat the scope alike afterwards.
proof fn lemma_judge_agrees(one: MonitorView, two: MonitorView, scope: Option<i64>, percent: u8)
    requires
        agree_on(one, two, scope),
    ensures
        one.judge(scope, percent).1 == two.judge(scope, percent).1,
        agree_on(one.judge(scope, percent).0, two.judge(scope, percent).0, scope),
{
}

/// In the per-monitor mode the monitors do not touch each other: the
/// commands that an update gives for a monitor, and what the session
/// remembers and counts of the monitor afterwards, are those that the
/// monitor's own samples would have given alone.
pub proof fn lemma_monitors_are_independent(
    session: MonitorView,
    samples: Seq<VisibilitySample>,
    index: i64,
)
    requires
        session.per_monitor,
    ensures
        commands_for(session.update(samples).1, Some(index)) == session.update(
            samples_of(samples, index),
        ).1,
        agree_on(
            session.update(samples).0,
            session.update(samples_of(samples, index)).0,
            Some(index),
        ),
    decreases samples.len(),
{
    reveal(Seq::filter);
    let scope = Some(index);
    let wanted = |request: PlaybackRequest| request.monitor_index == scope;
    let own = |sample: VisibilitySample| sample.monitor_index == index;
    if samples.len() == 0 {
        assert(samples_of(samples, index) =~= Seq::empty());
        assert(commands_for(Seq::empty(), scope) =~= Seq::empty());
    } else {
        let rest = samples.drop_last();
        let last = samples.last();
        let percent = sample_percent(last);
        lemma_monitors_are_independent(session, rest, index);
        lemma_judge_each_keeps_mode(session, rest);
        lemma_judge_each_keeps_mode(session, samples_of(rest, index));
        let (before, earlier) = session.judge_each(rest);
        let (alone_before, alone_earlier) = session.judge_each(samples_of(rest, index));
        let (after, step) = before.judge(Some(last.monitor_index), percent);
        lemma_judge_changes_state(before, Some(last.monitor_index), percent);
        Seq::filter_distributes_over_add(earlier, step, wanted);
        if last.monitor_index == index {
            let alone = samples_of(rest, index).push(last);
            assert(samples_of(samples, index) == alone);
            assert(alone.drop_last() =~= samples_of(rest, index));
            assert(alone.last() == last);
            lemma_judge_agrees(before, alone_before, scope, percent);
            if step.len() == 1 {
                assert(step.drop_last() =~= Seq::empty());
                assert(step.drop_last().filter(wanted) =~= Seq::empty());
                assert(step.filter(wanted) =~= step);
            } else {
                assert(step.filter(wanted) =~= step);
            }
        } else {
            assert(samples_of(samples, index) == samples_of(rest, index));
            lemma_judge_is_local(before, Some(last.monitor_index), percent, scope);
            if step.len() == 1 {
                assert(step.drop_last() =~= Seq::empty());
                assert(step.drop_last().filter(wanted) =~= Seq::empty());
            }
            assert(step.filter(wanted) =~= Seq::empty());
            assert(earlier.filter(wanted) + step.filter(wanted) =~= earlier.filter(wanted));
        }
    }
}

/// Samples of other monitors only: none of them is of the monitor `index`.
proof fn lemma_no_sample_of(samples: Seq<VisibilitySample>, index: i64)
    requires
        forall|j: int| 0 <= j < samples.len() ==> (#[trigger] samples[j]).monitor_index != index,
    ensures
        samples_of(samples, index) == Seq::<VisibilitySample>::empty(),
    decreases samples.len(),
{
    reveal(Seq::filter);
    if samples.len() > 0 {
        let rest = samples.drop_last();
        assert forall|j: int| 0 <= j < rest.len() implies (#[trigger] rest[j]).monitor_index
            != index by {
            assert(rest[j] == samples[j]);
        }
        lemma_no_sample_of(rest, index);
        assert(samples.last() == samples[samples.len() - 1]);
    }
}

/// A monitor with one sample among `samples` has that sample as its own.
proof fn lemma_one_sample_of(samples: Seq<VisibilitySample>, k: int)
    requires
        0 <= k < samples.len(),
        forall|j: int|
            0 <= j < samples.len() && j != k ==> (#[trigger] samples[j]).monitor_index
                != samples[k].monitor_index,
    ensures
        samples_of(samples, samples[k].monitor_index) == seq![samples[k]],
    decreases samples.len(),
{
    reveal(Seq::filter);
    let index = samples[k].monitor_index;
    let rest = samples.drop_last();
    assert forall|j: int| 0 <= j < rest.len() && j != k implies (#[trigger] rest[j]).monitor_index
        != index by {
        assert(rest[j] == samples[j]);
    }
    if k == samples.len() - 1 {
        lemma_no_sample_of(rest, index);
        assert(samples_of(samples, index) =~= seq![samples[k]]);
    } else {
        assert(rest[k] == samples[k]);
        assert(samples.last() == samples[samples.len() - 1]);
        lemma_one_sample_of(rest, k);
    }
}

/// Without the per-monitor mode, the first update of a renderer that counts
/// as playing pauses it if the update lies below the threshold, and gives no
/// command otherwise.
pub proof fn lemma_first_update(session: MonitorView, samples: Seq<VisibilitySample>)
    requires
        !session.per_monitor,
        session.previous(None) is None,
        session.controller.is_playing(None),
    ensures
        aggregate_percent_of(samples) < session.threshold ==> session.update(samples).1 == seq![
            pause_of(None),
        ],
        aggregate_percent_of(samples) >= session.threshold ==> session.update(samples).1 == Seq::<
            PlaybackRequest,
        >::empty(),
{
    lemma_first_sample(session, None, aggregate_percent_of(samples) as u8);
}

/// In the per-monitor mode, a monitor that counts as playing and was not
/// seen before is paused by its sample in an update if the sample lies below
/// the threshold, and gets no command otherwise, whatever the update holds
/// of other monitors.
pub proof fn lemma_first_update_of_monitor(
    session: MonitorView,
    samples: Seq<VisibilitySample>,
    k: int,
)
    requires
        session.per_monitor,
        0 <= k < samples.len(),
        forall|j: int|
            0 <= j < samples.len() && j != k ==> (#[trigger] samples[j]).monitor_index
                != samples[k].monitor_index,
        session.previous(Some(samples[k].monitor_index)) is None,
        session.controller.is_playing(Some(samples[k].monitor_index)),
    ensures
        sample_percent(samples[k]) < session.threshold ==> commands_for(
            session.update(samples).1,
            Some(samples[k].monitor_index),
        ) == seq![pause_of(Some(samples[k].monitor_index))],
        sample_percent(samples[k]) >= session.threshold ==> commands_for(
            session.update(samples).1,
            Some(samples[k].monitor_index),
        ) == Seq::<PlaybackRequest>::empty(),
{
    let index = samples[k].monitor_index;
    let own = seq![samples[k]];
    lemma_monitors_are_independent(session, samples, index);
    lemma_one_sample_of(samples, k);
    lemma_first_sample(session, Some(index), sample_percent(samples[k]));
    assert(own.drop_last() =~= Seq::empty());
    assert(own.last() == samples[k]);
    assert(session.judge_each(own.drop_last()) == (session, Seq::<PlaybackRequest>::empty()));
    assert(session.judge_each(own).1 =~= session.judge(
        Some(index),
        sample_percent(samples[k]),
    ).1);
}

} // verus!

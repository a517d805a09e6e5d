//! The course of the daemon: what it does in which order, from its start to an
//! orderly stop or a failure.

use vstd::prelude::*;

use crate::external::duration_nanos;
use crate::model::{EventKind, SampleView, SystemSample};
use crate::monitor::{
    config_refusal, event_line, heartbeat_reports, next_step, startup_line, startup_report, stop_line, stop_report,
    ConfigError, DaemonConfig, HeartbeatLimits, Report, ReportView, Schedule, Step, DAY_NANOS, MILLI_NANOS,
    SECOND_NANOS,
};
use crate::numeric::clamp_i64;
use crate::storage::plan::{
    heartbeat_changes, is_current, startup_changes, startup_outcome, stop_changes, stopped_gracefully,
};
use crate::storage::rows::{commit, TablesView};
use crate::storage::{StartupDisposition, StartupOutcome};

verus! {

/// How far the daemon has come.
#[derive(Clone, Copy, Debug, PartialEq, Eq, Structural)]
pub enum Phase {
    /// The start is not recorded yet.
    NotBegun,
    /// A start or a heartbeat was recorded, and the next one is yet to be
    /// timed.
    Arming,
    /// The next heartbeat is timed.
    Running,
    /// A heartbeat is due and is being recorded.
    Beating,
    /// A signal arrived and the stop is being recorded.
    Stopping,
    /// The stop is recorded.
    Stopped,
    /// Something failed.
    Failed,
}

/// What happened to the daemon.
#[derive(Clone, Debug)]
pub enum DaemonEvent {
    /// The start was recorded, with this sample and this outcome.
    Began { sample: SystemSample, outcome: StartupOutcome },
    /// The signal flag and the clock were read.
    Woken { stopping: bool, now_nanos: u64 },
    /// A heartbeat was recorded, with this sample, and noticed these events.
    Beaten { sample: SystemSample, emitted: Vec<EventKind> },
    /// The stop was recorded, with this sample.
    StopRecorded { sample: SystemSample },
    /// What was to be done failed: no sample, or nothing recorded.
    Failed,
}

/// What happened to the daemon, with its texts as characters.
#[verifier::ext_equal]
pub enum DaemonEventView {
    Began { sample: SampleView, outcome: StartupOutcome },
    Woken { stopping: bool, now_nanos: u64 },
    Beaten { sample: SampleView, emitted: Seq<EventKind> },
    StopRecorded { sample: SampleView },
    Failed,
}

impl View for DaemonEvent {
    type V = DaemonEventView;

    open spec fn view(&self) -> DaemonEventView {
        match *self {
            DaemonEvent::Began { sample, outcome } => DaemonEventView::Began { sample: sample@, outcome },
            DaemonEvent::Woken { stopping, now_nanos } => DaemonEventView::Woken { stopping, now_nanos },
            DaemonEvent::Beaten { sample, emitted } => DaemonEventView::Beaten {
                sample: sample@,
                emitted: emitted@,
            },
            DaemonEvent::StopRecorded { sample } => DaemonEventView::StopRecorded { sample: sample@ },
            DaemonEvent::Failed => DaemonEventView::Failed,
        }
    }
}

/// What the daemon is to do.
#[derive(Clone, Copy, Debug, PartialEq, Eq, Structural)]
pub enum Action {
    /// Sample the system and record the start.
    Begin,
    /// Read the signal flag and the clock.
    Poll,
    /// Sleep, then read the signal flag and the clock.
    Sleep { nanos: u64 },
    /// Sample the system and record a heartbeat, measured by these limits.
    Heartbeat { limits: HeartbeatLimits },
    /// Sample the system and record the stop.
    RecordStop,
    /// Leave.
    Exit,
}

/// The course of the daemon: its phase, when its next heartbeat is due, and
/// what its configuration says.
pub struct CourseView {
    pub phase: Phase,
    pub interval: int,
    pub due: int,
    pub limits: HeartbeatLimits,
}

/// How the daemon goes on: its course from here, what it is to do, and what it
/// reports.
pub struct ReactionView {
    pub course: CourseView,
    pub action: Action,
    pub reports: Seq<ReportView>,
}

/// The end of the daemon in a phase, without a word.
pub open spec fn leave(course: CourseView, phase: Phase) -> ReactionView {
    ReactionView { course: CourseView { phase, ..course }, action: Action::Exit, reports: seq![] }
}

/// How the daemon goes on after an event. An event that does not belong to its
/// phase ends it as a failure does, and once it has ended nothing changes.
pub open spec fn react(course: CourseView, event: DaemonEventView) -> ReactionView {
    match (course.phase, event) {
        (Phase::Stopped, _) => leave(course, Phase::Stopped),
        (Phase::NotBegun, DaemonEventView::Began { sample, outcome }) => ReactionView {
            course: CourseView { phase: Phase::Arming, ..course },
            action: Action::Poll,
            reports: seq![startup_line(outcome, sample.boot_id)],
        },
        (Phase::Arming, DaemonEventView::Woken { stopping, now_nanos }) => wake(
            CourseView { due: now_nanos + course.interval, ..course },
            stopping,
            now_nanos,
        ),
        (Phase::Running, DaemonEventView::Woken { stopping, now_nanos }) => wake(course, stopping, now_nanos),
        (Phase::Beating, DaemonEventView::Beaten { sample, emitted }) => ReactionView {
            course: CourseView { phase: Phase::Arming, ..course },
            action: Action::Poll,
            reports: emitted.map_values(|kind: EventKind| event_line(kind, sample.boot_id)),
        },
        (Phase::Stopping, DaemonEventView::StopRecorded { sample }) => ReactionView {
            course: CourseView { phase: Phase::Stopped, ..course },
            action: Action::Exit,
            reports: seq![stop_line(sample.boot_id)],
        },
        _ => leave(course, Phase::Failed),
    }
}

/// How the daemon goes on once it has read the signal flag and the clock.
pub open spec fn wake(course: CourseView, stopping: bool, now_nanos: u64) -> ReactionView {
    match next_step(stopping, now_nanos as int, course.due, course.limits) {
        Step::Stop => ReactionView {
            course: CourseView { phase: Phase::Stopping, ..course },
            action: Action::RecordStop,
            reports: seq![],
        },
        Step::Sleep { nanos } => ReactionView {
            course: CourseView { phase: Phase::Running, ..course },
            action: Action::Sleep { nanos },
            reports: seq![],
        },
        Step::Heartbeat { limits } => ReactionView {
            course: CourseView { phase: Phase::Beating, ..course },
            action: Action::Heartbeat { limits },
            reports: seq![],
        },
    }
}

/// The daemon. It is told what happened, and says what to do next.
#[derive(Clone, Copy, Debug, PartialEq, Eq, Structural)]
pub struct Daemon {
    phase: Phase,
    schedule: Schedule,
}

impl View for Daemon {
    type V = CourseView;

    closed spec fn view(&self) -> CourseView {
        CourseView {
            phase: self.phase,
            interval: self.schedule.interval(),
            due: self.schedule.due(),
            limits: self.schedule.measure(),
        }
    }
}

impl Daemon {
    /// The interval is one that a configuration may have.
    pub open spec fn wf(&self) -> bool {
        SECOND_NANOS <= self@.interval <= DAY_NANOS
    }

    /// A daemon with an interval and a gap factor, if they are accepted. The
    /// first thing that it is to do is to begin.
    pub fn every(interval_nanos: u128, gap_factor: u64) -> (daemon: Result<Self, ConfigError>)
        ensures
            match config_refusal(interval_nanos, gap_factor) {
                Some(error) => daemon matches Err(refusal) && refusal == error,
                None => daemon matches Ok(daemon) && {
                    &&& daemon.wf()
                    &&& daemon@.phase is NotBegun
                    &&& daemon@.interval == interval_nanos
                    &&& daemon@.due == interval_nanos
                    &&& daemon@.limits.interval_ms == interval_nanos / MILLI_NANOS
                    &&& daemon@.limits.gap_factor == clamp_i64(gap_factor as int)
                },
            },
    {
        match Schedule::every(interval_nanos, gap_factor, 0) {
            Ok(schedule) => Ok(Daemon { phase: Phase::NotBegun, schedule }),
            Err(error) => Err(error),
        }
    }

    /// A daemon with a configuration, if it is accepted. The first thing that
    /// it is to do is to begin.
    pub fn new(config: &DaemonConfig) -> (daemon: Result<Self, ConfigError>)
        ensures
            match config_refusal(duration_nanos(config.interval), config.gap_factor) {
                Some(error) => daemon matches Err(refusal) && refusal == error,
                None => daemon matches Ok(daemon) && {
                    &&& daemon.wf()
                    &&& daemon@.phase is NotBegun
                    &&& daemon@.interval == duration_nanos(config.interval)
                    &&& daemon@.due == duration_nanos(config.interval)
                    &&& daemon@.limits.interval_ms == duration_nanos(config.interval) / MILLI_NANOS
                    &&& daemon@.limits.gap_factor == clamp_i64(config.gap_factor as int)
                },
            },
    {
        match Schedule::start(config, 0) {
            Ok(schedule) => Ok(Daemon { phase: Phase::NotBegun, schedule }),
            Err(error) => Err(error),
        }
    }

    /// How far the daemon has come.
    pub fn phase(&self) -> (phase: Phase)
        ensures
            phase == self@.phase,
    {
        self.phase
    }

    /// Takes in what happened, and says what to do next and what to report.
    pub fn handle(&mut self, event: &DaemonEvent) -> (reaction: (Action, Vec<Report>))
        requires
            old(self).wf(),
        ensures
            final(self).wf(),
            ({
                let expected = react(old(self)@, event@);
                &&& final(self)@ == expected.course
                &&& reaction.0 == expected.action
                &&& reaction.1@.map_values(|report: Report| report@) == expected.reports
            }),
    {
        let mut reports: Vec<Report> = Vec::new();
        let action: Action = match (self.phase, event) {
            (Phase::Stopped, _) => Action::Exit,
            (Phase::NotBegun, DaemonEvent::Began { sample, outcome }) => {
                self.phase = Phase::Arming;
                reports.push(startup_report(outcome, sample.boot_id.as_str()));
                Action::Poll
            },
            (Phase::Arming, DaemonEvent::Woken { stopping, now_nanos }) => {
                self.schedule.rearm(*now_nanos);
                self.after_waking(*stopping, *now_nanos)
            },
            (Phase::Running, DaemonEvent::Woken { stopping, now_nanos }) => {
                self.after_waking(*stopping, *now_nanos)
            },
            (Phase::Beating, DaemonEvent::Beaten { sample, emitted }) => {
                self.phase = Phase::Arming;
                reports = heartbeat_reports(emitted, sample.boot_id.as_str());
                Action::Poll
            },
            (Phase::Stopping, DaemonEvent::StopRecorded { sample }) => {
                self.phase = Phase::Stopped;
                reports.push(stop_report(sample.boot_id.as_str()));
                Action::Exit
            },
            _ => {
                self.phase = Phase::Failed;
                Action::Exit
            },
        };
        assert(reports@.map_values(|report: Report| report@) =~= react(old(self)@, event@).reports);
        (action, reports)
    }

    /// Goes on from the signal flag and the clock.
    fn after_waking(&mut self, stopping: bool, now_nanos: u64) -> (action: Action)
        requires
            old(self).wf(),
        ensures
            final(self)@ == wake(old(self)@, stopping, now_nanos).course,
            action == wake(old(self)@, stopping, now_nanos).action,
    {
        match self.schedule.poll(stopping, now_nanos) {
            Step::Stop => {
                self.phase = Phase::Stopping;
                Action::RecordStop
            },
            Step::Sleep { nanos } => {
                self.phase = Phase::Running;
                Action::Sleep { nanos }
            },
            Step::Heartbeat { limits } => {
                self.phase = Phase::Beating;
                Action::Heartbeat { limits }
            },
        }
    }
}

// ---------------------------------------------------------------------------
// Whole courses
// ---------------------------------------------------------------------------

/// The course after several events.
pub open spec fn after(course: CourseView, events: Seq<DaemonEventView>) -> CourseView
    decreases events.len(),
{
    if events.len() == 0 {
        course
    } else {
        react(after(course, events.drop_last()), events.last()).course
    }
}

/// What the daemon is to do after the event at `i`.
pub open spec fn action_at(course: CourseView, events: Seq<DaemonEventView>, i: int) -> Action {
    react(after(course, events.take(i)), events[i]).action
}

/// Whether the daemon has ended.
pub open spec fn has_ended(phase: Phase) -> bool {
    phase is Stopped || phase is Failed
}

proof fn lemma_after_one_more(course: CourseView, events: Seq<DaemonEventView>, i: int)
    requires
        0 <= i < events.len(),
    ensures
        after(course, events.take(i + 1)) == react(after(course, events.take(i)), events[i]).course,
{
    assert(events.take(i + 1).drop_last() =~= events.take(i));
    assert(events.take(i + 1).last() == events[i]);
}

/// Once it has ended, the daemon stays as it is.
proof fn lemma_end_is_final(course: CourseView, events: Seq<DaemonEventView>, i: int, j: int)
    requires
        0 <= i <= j <= events.len(),
        has_ended(after(course, events.take(i)).phase),
    ensures
        after(course, events.take(j)).phase == after(course, events.take(i)).phase,
        j < events.len() ==> action_at(course, events, j) is Exit,
    decreases j - i,
{
    if i < j {
        lemma_end_is_final(course, events, i, j - 1);
        lemma_after_one_more(course, events, j - 1);
    }
}

/// The interval and the limits stay those of the configuration, and each
/// heartbeat is measured by them.
pub proof fn law_course_keeps_the_configuration(course: CourseView, events: Seq<DaemonEventView>)
    ensures
        after(course, events).interval == course.interval,
        after(course, events).limits == course.limits,
        forall|i: int|
            0 <= i < events.len() ==> (#[trigger] action_at(course, events, i) matches Action::Heartbeat {
                limits,
            } ==> limits == course.limits),
    decreases events.len(),
{
    if events.len() > 0 {
        let earlier = events.drop_last();
        law_course_keeps_the_configuration(course, earlier);
        assert forall|i: int| 0 <= i < events.len() implies (#[trigger] action_at(
            course,
            events,
            i,
        ) matches Action::Heartbeat { limits } ==> limits == course.limits) by {
            if i < earlier.len() {
                assert(events.take(i) =~= earlier.take(i));
                assert(action_at(course, earlier, i) == action_at(course, events, i));
            } else {
                assert(events.take(i) =~= earlier);
            }
        }
    }
}

/// A stop is recorded only by a running daemon and only on a signal, and a
/// signal that a running daemon reads always leads to one.
pub proof fn law_stop_needs_a_signal(course: CourseView, event: DaemonEventView)
    ensures
        react(course, event).action is RecordStop <==> {
            &&& course.phase is Arming || course.phase is Running
            &&& event matches DaemonEventView::Woken { stopping, .. } && stopping
        },
{
}

/// The daemon begins once: unless its start is recorded first of all, it does
/// nothing but leave, and it does not begin a second time.
pub proof fn law_daemon_begins_once(course: CourseView, events: Seq<DaemonEventView>, i: int)
    requires
        course.phase is NotBegun,
        0 <= i < events.len(),
    ensures
        !(events[0] is Began) ==> action_at(course, events, i) is Exit,
        i > 0 && events[i] is Began ==> action_at(course, events, i) is Exit,
        !(action_at(course, events, i) is Begin),
{
    assert(events.take(0) =~= Seq::empty());
    lemma_after_one_more(course, events, 0);
    if !(events[0] is Began) && i > 0 {
        lemma_end_is_final(course, events, 1, i);
    }
    if i > 0 {
        lemma_begun_for_good(course, events, i);
    }
}

/// After an event the daemon is never again at its beginning.
proof fn lemma_begun_for_good(course: CourseView, events: Seq<DaemonEventView>, i: int)
    requires
        0 < i <= events.len(),
    ensures
        !(after(course, events.take(i)).phase is NotBegun),
{
    lemma_after_one_more(course, events, i - 1);
}

/// Once a stop is to be recorded, nothing else is left to do: no heartbeat
/// comes after it, and no second stop.
pub proof fn law_stop_comes_last(course: CourseView, events: Seq<DaemonEventView>, i: int, j: int)
    requires
        0 <= i < j < events.len(),
        action_at(course, events, i) is RecordStop,
    ensures
        action_at(course, events, j) is Exit,
{
    lemma_after_one_more(course, events, i);
    assert(after(course, events.take(i + 1)).phase is Stopping);
    lemma_after_one_more(course, events, i + 1);
    if i + 1 < j {
        lemma_end_is_final(course, events, i + 2, j);
    }
}

/// A failure ends the daemon: it does nothing more, and in particular records
/// no stop. Only a daemon that had recorded its stop before counts as stopped.
pub proof fn law_failure_records_no_stop(course: CourseView, events: Seq<DaemonEventView>, i: int, j: int)
    requires
        0 <= i <= j < events.len(),
        events[i] is Failed,
    ensures
        action_at(course, events, j) is Exit,
        after(course, events).phase is Stopped ==> after(course, events.take(i)).phase is Stopped,
{
    lemma_after_one_more(course, events, i);
    if i < j {
        lemma_end_is_final(course, events, i + 1, j);
    }
    lemma_end_is_final(course, events, i + 1, events.len() as int);
    assert(events.take(events.len() as int) =~= events);
}

/// A daemon that has stopped read a signal, was told to record the stop, and
/// was then told that it is recorded.
pub proof fn law_stopped_means_recorded(course: CourseView, events: Seq<DaemonEventView>)
    requires
        course.phase is NotBegun,
        after(course, events).phase is Stopped,
    ensures
        exists|i: int|
            {
                &&& 0 <= i < events.len() - 1
                &&& #[trigger] action_at(course, events, i) is RecordStop
                &&& events[i] matches DaemonEventView::Woken { stopping, .. } && stopping
                &&& events[i + 1] is StopRecorded
            },
    decreases events.len(),
{
    let earlier = events.drop_last();
    if after(course, earlier).phase is Stopped {
        law_stopped_means_recorded(course, earlier);
        let i = choose|i: int|
            {
                &&& 0 <= i < earlier.len() - 1
                &&& #[trigger] action_at(course, earlier, i) is RecordStop
                &&& earlier[i] matches DaemonEventView::Woken { stopping, .. } && stopping
                &&& earlier[i + 1] is StopRecorded
            };
        assert(events.take(i) =~= earlier.take(i));
        assert(action_at(course, events, i) is RecordStop);
    } else {
        assert(after(course, earlier).phase is Stopping);
        assert(events.last() is StopRecorded);
        let i = earlier.len() - 1;
        assert(earlier.drop_last() =~= events.take(i));
        assert(earlier.last() == events[i]);
        assert(action_at(course, events, i) is RecordStop);
    }
}

/// The tables once an event has happened in a phase, or `None` where the
/// storage would have refused what the event says was recorded. A write is
/// carried out only where the phase asks for it.
pub open spec fn written_by(
    tables: TablesView,
    course: CourseView,
    event: DaemonEventView,
    reason: Seq<char>,
) -> Option<TablesView> {
    match (course.phase, event) {
        (Phase::NotBegun, DaemonEventView::Began { sample, .. }) => commit(
            tables,
            startup_changes(tables.state, sample),
        ),
        (Phase::Beating, DaemonEventView::Beaten { sample, .. }) => if is_current(tables.state, sample) {
            commit(
                tables,
                heartbeat_changes(
                    tables.state->0,
                    sample,
                    course.limits.interval_ms,
                    course.limits.gap_factor,
                ),
            )
        } else {
            None
        },
        (Phase::Stopping, DaemonEventView::StopRecorded { sample }) => if is_current(tables.state, sample) {
            commit(tables, stop_changes(tables.state->0, sample, reason))
        } else {
            None
        },
        _ => Some(tables),
    }
}

/// The tables once several events have happened.
pub open spec fn written(
    tables: TablesView,
    course: CourseView,
    events: Seq<DaemonEventView>,
    reason: Seq<char>,
) -> Option<TablesView>
    decreases events.len(),
{
    if events.len() == 0 {
        Some(tables)
    } else {
        match written(tables, course, events.drop_last(), reason) {
            Some(before) => written_by(before, after(course, events.drop_last()), events.last(), reason),
            None => None,
        }
    }
}

/// A daemon that never recorded its start leaves the tables alone. Any other
/// leaves a state row, and the next start finds it graceful exactly when the
/// daemon stopped on a signal: not while it runs, and not if it failed or was
/// killed.
pub proof fn law_graceful_means_stopped(
    tables: TablesView,
    course: CourseView,
    events: Seq<DaemonEventView>,
    reason: Seq<char>,
    next: SampleView,
)
    requires
        course.phase is NotBegun,
        events.len() > 0,
        written(tables, course, events, reason) is Some,
    ensures
        ({
            let left = written(tables, course, events, reason)->0;
            let stopped = after(course, events).phase is Stopped;
            if events[0] is Began {
                &&& left.state is Some
                &&& stopped_gracefully(left.state->0) == stopped
                &&& startup_outcome(left.state, next).disposition == if next.boot_id
                    == left.state->0.boot_id {
                    StartupDisposition::MonitorRestarted { graceful: stopped }
                } else {
                    StartupDisposition::BootChanged { graceful: stopped }
                }
            } else {
                left == tables && !stopped
            }
        }),
    decreases events.len(),
{
    let earlier = events.drop_last();
    if earlier.len() > 0 {
        assert(earlier[0] == events[0]);
        law_graceful_means_stopped(tables, course, earlier, reason, next);
        lemma_begun_for_good(course, events, earlier.len() as int);
        assert(events.take(earlier.len() as int) =~= earlier);
        if !(events[0] is Began) {
            assert(events.take(0) =~= Seq::empty());
            lemma_after_one_more(course, events, 0);
            lemma_end_is_final(course, events, 1, earlier.len() as int);
        }
    } else {
        assert(earlier =~= Seq::empty());
        assert(events.last() == events[0]);
        assert(written(tables, course, earlier, reason) == Some(tables));
        assert(after(course, earlier) == course);
    }
}

// ---------------------------------------------------------------------------
// Timing and reports over whole courses
// ---------------------------------------------------------------------------

/// When the next heartbeat is due is set by the first look at the clock after
/// a recorded start or heartbeat, to one interval later. Nothing else moves
/// it: in particular not a further look at the clock.
pub proof fn law_due_time_is_set_once(course: CourseView, event: DaemonEventView)
    ensures
        react(course, event).course.due == match event {
            DaemonEventView::Woken { now_nanos, .. } => if course.phase is Arming {
                now_nanos + course.interval
            } else {
                course.due
            },
            _ => course.due,
        },
{
}

/// The course from a look at the clock on, as long as only further looks
/// follow, without a signal and before the heartbeat is due.
proof fn lemma_still_waiting(
    course: CourseView,
    events: Seq<DaemonEventView>,
    armed: int,
    armed_nanos: u64,
    upto: int,
)
    requires
        0 <= armed < upto <= events.len(),
        course.interval > 0,
        after(course, events.take(armed)).phase is Arming,
        events[armed] == (DaemonEventView::Woken { stopping: false, now_nanos: armed_nanos }),
        forall|k: int|
            armed < k < upto ==> (#[trigger] events[k] matches DaemonEventView::Woken { stopping, now_nanos }
                && !stopping && now_nanos < armed_nanos + course.interval),
    ensures
        ({
            let now = after(course, events.take(upto));
            &&& now.phase is Running
            &&& now.due == armed_nanos + course.interval
            &&& now.limits == course.limits
        }),
    decreases upto,
{
    lemma_after_one_more(course, events, upto - 1);
    law_course_keeps_the_configuration(course, events.take(upto - 1));
    if armed + 1 < upto {
        lemma_still_waiting(course, events, armed, armed_nanos, upto - 1);
    }
}

/// A heartbeat is recorded one interval after the look at the clock that
/// followed the last recorded start or heartbeat, and not before: as long as
/// the daemon only looks at the clock, and no signal arrives, the first look
/// that finds the interval over asks for a heartbeat, and every look before it
/// asks for sleep.
pub proof fn law_heartbeat_comes_after_an_interval(
    course: CourseView,
    events: Seq<DaemonEventView>,
    armed: int,
    armed_nanos: u64,
    woken: int,
    now_nanos: u64,
)
    requires
        0 <= armed < woken < events.len(),
        course.interval > 0,
        after(course, events.take(armed)).phase is Arming,
        events[armed] == (DaemonEventView::Woken { stopping: false, now_nanos: armed_nanos }),
        forall|k: int|
            armed < k < woken ==> (#[trigger] events[k] matches DaemonEventView::Woken { stopping, now_nanos: at }
                && !stopping && at < armed_nanos + course.interval),
        events[woken] == (DaemonEventView::Woken { stopping: false, now_nanos }),
    ensures
        now_nanos >= armed_nanos + course.interval ==> action_at(course, events, woken) == (Action::Heartbeat {
            limits: course.limits,
        }),
        now_nanos < armed_nanos + course.interval ==> action_at(course, events, woken) is Sleep,
{
    lemma_still_waiting(course, events, armed, armed_nanos, woken);
}

/// The clock is first looked at, and so the next heartbeat timed, after a
/// recorded start and after every recorded heartbeat, and at no other time.
pub proof fn law_timing_follows_a_record(course: CourseView, event: DaemonEventView)
    ensures
        react(course, event).course.phase is Arming <==> {
            ||| course.phase is NotBegun && event is Began
            ||| course.phase is Beating && event is Beaten
        },
        react(course, event).action is Poll <==> react(course, event).course.phase is Arming,
        react(course, event).action is Heartbeat <==> react(course, event).course.phase is Beating,
        react(course, event).action is Sleep <==> react(course, event).course.phase is Running,
        react(course, event).action is Exit <==> has_ended(react(course, event).course.phase),
        !(react(course, event).action is Begin),
{
}

/// The daemon counts as stopped exactly from when the stop that it was to
/// record is recorded. It counts as failed from any other event that does not
/// belong to what it was doing.
pub proof fn law_how_the_daemon_ends(course: CourseView, event: DaemonEventView)
    ensures
        react(course, event).course.phase is Stopped <==> {
            ||| course.phase is Stopped
            ||| course.phase is Stopping && event is StopRecorded
        },
        react(course, event).course.phase is Failed <==> {
            ||| course.phase is Failed
            ||| course.phase is NotBegun && !(event is Began)
            ||| (course.phase is Arming || course.phase is Running) && !(event is Woken)
            ||| course.phase is Beating && !(event is Beaten)
            ||| course.phase is Stopping && !(event is StopRecorded)
        },
{
}

/// A sleep ends when the heartbeat is due, or after a quarter of a second if
/// that comes first.
pub proof fn law_daemon_sleeps_up_to_the_heartbeat(course: CourseView, event: DaemonEventView)
    requires
        react(course, event).action is Sleep,
    ensures
        event is Woken,
        ({
            let now = event->Woken_now_nanos;
            let nanos = react(course, event).action->Sleep_nanos;
            let due = react(course, event).course.due;
            &&& 0 < nanos <= 250_000_000
            &&& now + nanos <= due
            &&& nanos == 250_000_000 || now + nanos == due
        }),
{
}

/// A recorded start and a recorded stop are reported in one line each, and a
/// recorded heartbeat in one line for every event that it noticed, in their
/// order; each names the boot that was sampled. Nothing else is reported.
pub proof fn law_daemon_reports_what_was_recorded(course: CourseView, event: DaemonEventView)
    ensures
        ({
            let reports = react(course, event).reports;
            match (course.phase, event) {
                (Phase::NotBegun, DaemonEventView::Began { sample, outcome }) => {
                    &&& reports.len() == 1
                    &&& reports[0] == startup_line(outcome, sample.boot_id)
                },
                (Phase::Beating, DaemonEventView::Beaten { sample, emitted }) => {
                    &&& reports.len() == emitted.len()
                    &&& forall|i: int|
                        0 <= i < emitted.len() ==> #[trigger] reports[i] == event_line(emitted[i], sample.boot_id)
                },
                (Phase::Stopping, DaemonEventView::StopRecorded { sample }) => {
                    &&& reports.len() == 1
                    &&& reports[0] == stop_line(sample.boot_id)
                },
                _ => reports.len() == 0,
            }
        }),
{
}

} // verus!

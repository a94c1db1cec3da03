//! The decisions of the watch pipeline.
//!
//! A [`WatchPipeline`] never acts on the world. Its driver does: it registers
//! the watch, walks the tree, hands updates to the consumer and waits for
//! notifications. After each piece of work the driver reports what happened
//! as an [`Event`], and [`WatchPipeline::step`] answers with a [`Directive`]:
//! the next piece of work, and anything worth logging.
//!
//! A driver begins with [`Action::Register`] and stops at [`Action::Stop`].

use vstd::prelude::*;

use crate::scanner::{scan, scan_outcome, walk_view, ScanError, ScanErrorView, WalkItem, WalkItemView};
use crate::update::{Update, UpdateView};
use crate::watcher::{wake, ChangeWatcher, Patience, Verdict, WatcherView};

verus! {

/// The three states of the pipeline.
#[derive(Clone, Copy, Debug, PartialEq, Eq, Structural)]
pub enum PipelineState {
    /// Registering the watch, or busy with the first scan and its delivery.
    Initializing,
    /// In the steady loop: waiting for changes, rescanning, delivering.
    Watching,
    /// Stopped for good.
    Terminated,
}

/// The piece of outside work that the pipeline is waiting on, or why it
/// waits on none.
#[derive(Clone, Copy, Debug, PartialEq, Eq, Structural)]
pub enum Phase {
    /// The watch is being registered.
    Registering,
    /// The tree is being walked.
    Scanning,
    /// An update is being handed to the consumer.
    Sending,
    /// The driver is blocked until something changes.
    Waiting,
    /// The watch could not be registered. The pipeline has stopped.
    Failed,
    /// The consumer is gone. The pipeline has stopped.
    Closed,
}

/// What the driver reports back.
#[derive(Clone, Debug, PartialEq, Eq)]
pub enum Event {
    /// The watch on the root is in place.
    Registered,
    /// The watch could not be put in place.
    SetupFailed { reason: String },
    /// The walk of the root is over; this is what it reported, in order.
    Scanned { walk: Vec<WalkItem> },
    /// The consumer's channel took the update.
    Delivered,
    /// The consumer's channel is closed.
    SinkClosed,
    /// A raw change notification arrived, at this time.
    Notified { at: u64 },
    /// The wait ran out at this time with nothing to report.
    Lapsed { at: u64 },
    /// The watch reported an error of its own at this time.
    Faulted { at: u64, reason: String },
}

/// An [`Event`] as contracts see it.
pub enum EventView {
    Registered,
    SetupFailed { reason: Seq<char> },
    Scanned { walk: Seq<WalkItemView> },
    Delivered,
    SinkClosed,
    Notified { at: nat },
    Lapsed { at: nat },
    Faulted { at: nat, reason: Seq<char> },
}

impl View for Event {
    type V = EventView;

    open spec fn view(&self) -> EventView {
        match *self {
            Event::Registered => EventView::Registered,
            Event::SetupFailed { reason } => EventView::SetupFailed { reason: reason@ },
            Event::Scanned { walk } => EventView::Scanned { walk: walk_view(walk@) },
            Event::Delivered => EventView::Delivered,
            Event::SinkClosed => EventView::SinkClosed,
            Event::Notified { at } => EventView::Notified { at: at as nat },
            Event::Lapsed { at } => EventView::Lapsed { at: at as nat },
            Event::Faulted { at, reason } => EventView::Faulted { at: at as nat, reason: reason@ },
        }
    }
}

/// The next piece of work for the driver.
#[derive(Clone, Debug, PartialEq, Eq)]
pub enum Action {
    /// Subscribe to changes anywhere under the root.
    Register,
    /// Walk the root and report everything the walk yields.
    Scan,
    /// Hand this update to the consumer. It is the consumer's from now on.
    Emit(Update),
    /// Block until a raw notification arrives or the patience runs out.
    Await(Patience),
    /// Leave the loop.
    Stop,
}

/// An [`Action`] as contracts see it.
pub enum ActionView {
    Register,
    Scan,
    Emit(UpdateView),
    Await(Patience),
    Stop,
}

impl View for Action {
    type V = ActionView;

    open spec fn view(&self) -> ActionView {
        match *self {
            Action::Register => ActionView::Register,
            Action::Scan => ActionView::Scan,
            Action::Emit(update) => ActionView::Emit(update@),
            Action::Await(patience) => ActionView::Await(patience),
            Action::Stop => ActionView::Stop,
        }
    }
}

/// Something that went wrong, for the driver to log or surface.
#[derive(Clone, Debug, PartialEq, Eq)]
pub enum Report {
    /// The watch could not be registered. Fatal.
    SetupFailed { reason: String },
    /// A walk could not be completed. No update was made from it.
    ScanFailed(ScanError),
    /// The watch reported an error of its own. Watching goes on.
    WatchFault { reason: String },
    /// The consumer is gone. Fatal.
    SinkClosed,
}

/// A [`Report`] as contracts see it.
pub enum ReportView {
    SetupFailed { reason: Seq<char> },
    ScanFailed(ScanErrorView),
    WatchFault { reason: Seq<char> },
    SinkClosed,
}

impl View for Report {
    type V = ReportView;

    open spec fn view(&self) -> ReportView {
        match *self {
            Report::SetupFailed { reason } => ReportView::SetupFailed { reason: reason@ },
            Report::ScanFailed(error) => ReportView::ScanFailed(error@),
            Report::WatchFault { reason } => ReportView::WatchFault { reason: reason@ },
            Report::SinkClosed => ReportView::SinkClosed,
        }
    }
}

/// The pipeline's answer to an event.
#[derive(Clone, Debug, PartialEq, Eq)]
pub struct Directive {
    /// What the driver is to do next.
    pub action: Action,
    /// What went wrong on the way, if anything did.
    pub report: Option<Report>,
}

/// A [`Directive`] as contracts see it.
pub struct DirectiveView {
    pub action: ActionView,
    pub report: Option<ReportView>,
}

impl View for Directive {
    type V = DirectiveView;

    open spec fn view(&self) -> DirectiveView {
        DirectiveView {
            action: self.action@,
            report: match self.report {
                Some(report) => Some(report@),
                None => None,
            },
        }
    }
}

/// The state machine that keeps one consumer's listing in step with one
/// root.
#[derive(Debug)]
pub struct WatchPipeline {
    root: String,
    watcher: ChangeWatcher,
    phase: Phase,
    watching: bool,
}

/// A [`WatchPipeline`] as contracts see it.
pub struct PipelineView {
    /// The root that is watched and listed.
    pub root: Seq<char>,
    /// The debouncer.
    pub watcher: WatcherView,
    /// The outstanding work.
    pub phase: Phase,
    /// Whether the first scan is over, however it ended.
    pub watching: bool,
}

impl View for WatchPipeline {
    type V = PipelineView;

    closed spec fn view(&self) -> PipelineView {
        PipelineView {
            root: self.root@,
            watcher: self.watcher@,
            phase: self.phase,
            watching: self.watching,
        }
    }
}

impl PipelineView {
    /// A pipeline that no step has touched: about to register its watch.
    pub open spec fn initial(root: Seq<char>, window: nat) -> PipelineView {
        PipelineView {
            root,
            watcher: WatcherView { window, opened: None },
            phase: Phase::Registering,
            watching: false,
        }
    }

    /// Which of the three states this is.
    pub open spec fn state(self) -> PipelineState {
        match self.phase {
            Phase::Failed | Phase::Closed => PipelineState::Terminated,
            Phase::Registering => PipelineState::Initializing,
            _ => if self.watching {
                PipelineState::Watching
            } else {
                PipelineState::Initializing
            },
        }
    }

    /// What holds of every pipeline that steps can reach: a window is open
    /// only while waiting, waiting happens only after the first scan, and
    /// registration comes before it.
    pub open spec fn wf(self) -> bool {
        &&& self.phase != Phase::Waiting ==> self.watcher.opened is None
        &&& self.phase == Phase::Waiting ==> self.watching
        &&& self.phase == Phase::Registering ==> !self.watching
    }

    /// The pipeline in another phase.
    pub open spec fn at_phase(self, phase: Phase) -> PipelineView {
        PipelineView { phase, ..self }
    }

    /// The pipeline blocked on its watcher, the first scan behind it.
    pub open spec fn waiting(self) -> PipelineView {
        PipelineView { phase: Phase::Waiting, watching: true, ..self }
    }
}

/// A directive that reports nothing.
pub open spec fn plainly(action: ActionView) -> DirectiveView {
    DirectiveView { action, report: None }
}

/// The answer to a wake-up while waiting: the watcher decides whether the
/// wait goes on or a scan is due.
pub open spec fn woken(
    pipeline: PipelineView,
    notified: bool,
    at: nat,
    report: Option<ReportView>,
) -> (PipelineView, DirectiveView) {
    let (watcher, verdict) = wake(pipeline.watcher, notified, at);
    match verdict {
        Verdict::Signal => (
            PipelineView { watcher, phase: Phase::Scanning, ..pipeline },
            DirectiveView { action: ActionView::Scan, report },
        ),
        Verdict::Wait(patience) => (
            PipelineView { watcher, ..pipeline },
            DirectiveView { action: ActionView::Await(patience), report },
        ),
    }
}

/// The pipeline's answer to an event, and the pipeline afterwards; `None`
/// where the event does not report the work that was outstanding.
///
/// - Registering: success leads to the first scan; failure is fatal.
/// - Scanning: a complete walk becomes an update to send; a failed one is
///   reported, makes no update, and leads back to waiting.
/// - Sending: once delivered, wait for changes; a closed channel is fatal.
/// - Waiting: the watcher debounces; a fault of the watch is reported and
///   otherwise counts as a wake-up without a notification.
pub open spec fn react(pipeline: PipelineView, event: EventView) -> Option<
    (PipelineView, DirectiveView),
> {
    match (pipeline.phase, event) {
        (Phase::Registering, EventView::Registered) => Some(
            (pipeline.at_phase(Phase::Scanning), plainly(ActionView::Scan)),
        ),
        (Phase::Registering, EventView::SetupFailed { reason }) => Some(
            (
                pipeline.at_phase(Phase::Failed),
                DirectiveView {
                    action: ActionView::Stop,
                    report: Some(ReportView::SetupFailed { reason }),
                },
            ),
        ),
        (Phase::Scanning, EventView::Scanned { walk }) => match scan_outcome(walk) {
            Ok(paths) => Some(
                (
                    pipeline.at_phase(Phase::Sending),
                    plainly(ActionView::Emit(UpdateView::Replace(paths))),
                ),
            ),
            Err(error) => Some(
                (
                    pipeline.waiting(),
                    DirectiveView {
                        action: ActionView::Await(Patience::Indefinitely),
                        report: Some(ReportView::ScanFailed(error)),
                    },
                ),
            ),
        },
        (Phase::Sending, EventView::Delivered) => Some(
            (pipeline.waiting(), plainly(ActionView::Await(Patience::Indefinitely))),
        ),
        (Phase::Sending, EventView::SinkClosed) => Some(
            (
                pipeline.at_phase(Phase::Closed),
                DirectiveView { action: ActionView::Stop, report: Some(ReportView::SinkClosed) },
            ),
        ),
        (Phase::Waiting, EventView::Notified { at }) => Some(woken(pipeline, true, at, None)),
        (Phase::Waiting, EventView::Lapsed { at }) => Some(woken(pipeline, false, at, None)),
        (Phase::Waiting, EventView::Faulted { at, reason }) => Some(
            woken(pipeline, false, at, Some(ReportView::WatchFault { reason })),
        ),
        _ => None,
    }
}

/// A step's result as contracts see it.
pub open spec fn step_view(after: PipelineView, directive: Option<Directive>) -> Option<
    (PipelineView, DirectiveView),
> {
    match directive {
        Some(directive) => Some((after, directive@)),
        None => None,
    }
}

impl WatchPipeline {
    /// A pipeline for `root` that debounces over `window_ms` milliseconds.
    /// Nothing has happened yet: the driver's first work is to register.
    pub fn new(root: String, window_ms: u64) -> (pipeline: WatchPipeline)
        ensures
            pipeline@ == PipelineView::initial(root@, window_ms as nat),
            pipeline@.wf(),
    {
        WatchPipeline {
            root,
            watcher: ChangeWatcher::new(window_ms),
            phase: Phase::Registering,
            watching: false,
        }
    }

    /// Takes in what the driver reports and says what to do next.
    ///
    /// Returns `None`, and changes nothing, exactly when the event is not a
    /// report of the work that was outstanding; a stopped pipeline expects
    /// no event at all.
    pub fn step(&mut self, event: Event) -> (directive: Option<Directive>)
        ensures
            step_view(final(self)@, directive) == react(old(self)@, event@),
            directive is None ==> final(self)@ == old(self)@,
            old(self)@.wf() ==> final(self)@.wf(),
    {
        match self.phase {
            Phase::Registering => match event {
                Event::Registered => {
                    self.phase = Phase::Scanning;
                    Some(Directive { action: Action::Scan, report: None })
                },
                Event::SetupFailed { reason } => {
                    self.phase = Phase::Failed;
                    Some(
                        Directive {
                            action: Action::Stop,
                            report: Some(Report::SetupFailed { reason }),
                        },
                    )
                },
                _ => None,
            },
            Phase::Scanning => match event {
                Event::Scanned { walk } => match scan(walk) {
                    Ok(entries) => {
                        self.phase = Phase::Sending;
                        Some(
                            Directive { action: Action::Emit(Update::Replace(entries)), report: None },
                        )
                    },
                    Err(error) => {
                        self.phase = Phase::Waiting;
                        self.watching = true;
                        Some(
                            Directive {
                                action: Action::Await(Patience::Indefinitely),
                                report: Some(Report::ScanFailed(error)),
                            },
                        )
                    },
                },
                _ => None,
            },
            Phase::Sending => match event {
                Event::Delivered => {
                    self.phase = Phase::Waiting;
                    self.watching = true;
                    Some(Directive { action: Action::Await(Patience::Indefinitely), report: None })
                },
                Event::SinkClosed => {
                    self.phase = Phase::Closed;
                    Some(Directive { action: Action::Stop, report: Some(Report::SinkClosed) })
                },
                _ => None,
            },
            Phase::Waiting => match event {
                Event::Notified { at } => Some(self.after_wake(true, at, None)),
                Event::Lapsed { at } => Some(self.after_wake(false, at, None)),
                Event::Faulted { at, reason } => Some(
                    self.after_wake(false, at, Some(Report::WatchFault { reason })),
                ),
                _ => None,
            },
            Phase::Failed => None,
            Phase::Closed => None,
        }
    }

    /// Lets the watcher judge a wake-up and turns its verdict into work.
    fn after_wake(&mut self, notified: bool, at: u64, report: Option<Report>) -> (directive:
        Directive)
        ensures
            (final(self)@, directive@) == woken(
                old(self)@,
                notified,
                at as nat,
                match report {
                    Some(report) => Some(report@),
                    None => None,
                },
            ),
    {
        match self.watcher.woke(notified, at) {
            Verdict::Signal => {
                self.phase = Phase::Scanning;
                Directive { action: Action::Scan, report }
            },
            Verdict::Wait(patience) => Directive { action: Action::Await(patience), report },
        }
    }

    /// The root that is watched and listed.
    pub fn root(&self) -> (root: &String)
        ensures
            root@ == self@.root,
    {
        &self.root
    }

    /// The length of the debounce window, in milliseconds.
    pub fn window_ms(&self) -> (window: u64)
        ensures
            window == self@.watcher.window,
    {
        self.watcher.window_ms()
    }

    /// The outstanding work, or why there is none.
    pub fn phase(&self) -> (phase: Phase)
        ensures
            phase == self@.phase,
    {
        self.phase
    }

    /// Which of the three states the pipeline is in.
    pub fn state(&self) -> (state: PipelineState)
        ensures
            state == self@.state(),
    {
        match self.phase {
            Phase::Failed | Phase::Closed => PipelineState::Terminated,
            Phase::Registering => PipelineState::Initializing,
            _ => if self.watching {
                PipelineState::Watching
            } else {
                PipelineState::Initializing
            },
        }
    }
}

} // verus!

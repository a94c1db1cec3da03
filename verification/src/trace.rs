//! Whole runs of the pipeline, and what holds of all of them.
//!
//! A run feeds a sequence of events to a pipeline, one [`react`] at a time,
//! and collects the directives. The theorems below speak of the updates
//! that a run hands to the consumer.

use vstd::prelude::*;

use crate::pipeline::{
    plainly, react, ActionView, Directive, DirectiveView, Event, EventView, Phase, PipelineState,
    PipelineView, WatchPipeline,
};
use crate::scanner::{all_read, listing, WalkItemView};
use crate::update::UpdateView;
use crate::watcher::{elapsed, Patience, WatcherView};

verus! {

/// The pipeline after a sequence of events, and the directives it gave on
/// the way. An event that the pipeline does not expect changes nothing and
/// gives no directive.
pub open spec fn run(pipeline: PipelineView, events: Seq<EventView>) -> (
    PipelineView,
    Seq<DirectiveView>,
)
    decreases events.len(),
{
    if events.len() == 0 {
        (pipeline, Seq::empty())
    } else {
        let (before, directives) = run(pipeline, events.drop_last());
        match react(before, events.last()) {
            Some((after, directive)) => (after, directives.push(directive)),
            None => (before, directives),
        }
    }
}

/// The updates that a sequence of directives hands to the consumer, in the
/// order in which they are handed over.
pub open spec fn emitted(directives: Seq<DirectiveView>) -> Seq<UpdateView>
    decreases directives.len(),
{
    if directives.len() == 0 {
        Seq::empty()
    } else {
        let earlier = emitted(directives.drop_last());
        match directives.last().action {
            ActionView::Emit(update) => earlier.push(update),
            _ => earlier,
        }
    }
}

/// A series of events as contracts see it.
pub open spec fn events_view(events: Seq<Event>) -> Seq<EventView> {
    events.map_values(|event: Event| event@)
}

/// A series of directives as contracts see it.
pub open spec fn directives_view(directives: Seq<Directive>) -> Seq<DirectiveView> {
    directives.map_values(|directive: Directive| directive@)
}

impl WatchPipeline {
    /// Feeds a recorded series of events to the pipeline, one step each,
    /// and returns the directives it gave, in order. Events that the
    /// pipeline did not expect are passed over.
    pub fn replay(&mut self, events: Vec<Event>) -> (directives: Vec<Directive>)
        ensures
            (final(self)@, directives_view(directives@)) == run(old(self)@, events_view(events@)),
            old(self)@.wf() ==> final(self)@.wf(),
    {
        let ghost start = self@;
        let ghost all = events_view(events@);
        let mut directives: Vec<Directive> = Vec::new();
        let mut index: usize = 0;
        let count: usize = events.len();
        for event in it: events
            invariant
                all == events_view(events@),
                count == events@.len(),
                index == it.index(),
                it.seq() == events@,
                (self@, directives_view(directives@)) == run(start, all.take(index as int)),
                start.wf() ==> self@.wf(),
        {
            proof {
                assert(all.take(index + 1) =~= all.take(index as int).push(event@));
                lemma_run_push(start, all.take(index as int), event@);
            }
            let ghost before = directives@;
            match self.step(event) {
                Some(directive) => {
                    directives.push(directive);
                    proof {
                        assert(directives_view(directives@) =~= directives_view(before).push(
                            directive@,
                        ));
                    }
                },
                None => {},
            }
            index = index + 1;
        }
        proof {
            assert(all.take(index as int) =~= all);
        }
        directives
    }
}

/// One change as the pipeline lives through it: a burst of raw
/// notifications, the wake-up that finds the window closed, and the walk
/// that follows.
pub struct Round {
    /// When each notification of the burst arrived, first to last.
    pub burst: Seq<nat>,
    /// When the wait ran out after the burst.
    pub closed_at: nat,
    /// What the walk after the signal reported.
    pub walk: Seq<WalkItemView>,
}

impl Round {
    /// The burst is not empty and lies within one window, opened by its
    /// first notification, and the wait runs out no earlier than the end
    /// of that window.
    pub open spec fn fits(self, window: nat) -> bool {
        &&& self.burst.len() > 0
        &&& forall|i: int|
            0 <= i < self.burst.len() ==> elapsed(self.burst[0], #[trigger] self.burst[i]) < window
        &&& elapsed(self.burst[0], self.closed_at) >= window
    }

    /// The notifications of the burst, as events.
    pub open spec fn notifications(self) -> Seq<EventView> {
        self.burst.map_values(|at: nat| EventView::Notified { at })
    }

    /// What the driver reports in this round: each notification, the end
    /// of the wait, the walk, and the delivery if there was an update to
    /// deliver.
    pub open spec fn events(self) -> Seq<EventView> {
        self.notifications() + seq![
            EventView::Lapsed { at: self.closed_at },
            EventView::Scanned { walk: self.walk },
        ] + if all_read(self.walk) {
            seq![EventView::Delivered]
        } else {
            Seq::empty()
        }
    }

    /// The updates that the round owes the consumer: the listing of its
    /// walk if the walk was complete, nothing if it was not.
    pub open spec fn updates(self) -> Seq<UpdateView> {
        if all_read(self.walk) {
            seq![UpdateView::Replace(listing(self.walk))]
        } else {
            Seq::empty()
        }
    }
}

/// The events of several rounds, one round after the other.
pub open spec fn events_of(rounds: Seq<Round>) -> Seq<EventView>
    decreases rounds.len(),
{
    if rounds.len() == 0 {
        Seq::empty()
    } else {
        events_of(rounds.drop_last()) + rounds.last().events()
    }
}

/// The updates that several rounds owe the consumer, in the order of the
/// rounds.
pub open spec fn updates_of(rounds: Seq<Round>) -> Seq<UpdateView>
    decreases rounds.len(),
{
    if rounds.len() == 0 {
        Seq::empty()
    } else {
        updates_of(rounds.drop_last()) + rounds.last().updates()
    }
}

/// A pipeline that is blocked on its watcher with no window open.
pub open spec fn at_rest(pipeline: PipelineView) -> bool {
    &&& pipeline.wf()
    &&& pipeline.phase == Phase::Waiting
    &&& pipeline.watcher.opened is None
}

/// A run over two stretches of events is the run over the first, continued
/// over the second.
pub proof fn lemma_run_append(pipeline: PipelineView, first: Seq<EventView>, second: Seq<EventView>)
    ensures
        run(pipeline, first + second) == ({
            let (middle, head) = run(pipeline, first);
            let (end, tail) = run(middle, second);
            (end, head + tail)
        }),
    decreases second.len(),
{
    if second.len() > 0 {
        lemma_run_append(pipeline, first, second.drop_last());
        assert((first + second).drop_last() =~= first + second.drop_last());
    }
}

/// The updates of two stretches of directives are those of the first, then
/// those of the second.
pub proof fn lemma_emitted_append(first: Seq<DirectiveView>, second: Seq<DirectiveView>)
    ensures
        emitted(first + second) == emitted(first) + emitted(second),
    decreases second.len(),
{
    if second.len() > 0 {
        lemma_emitted_append(first, second.drop_last());
        assert((first + second).drop_last() =~= first + second.drop_last());
        if let ActionView::Emit(update) = second.last().action {
            assert((emitted(first) + emitted(second.drop_last())).push(update) =~= emitted(first)
                + emitted(second.drop_last()).push(update));
        }
    }
}

/// A run over one more event is the run so far, then one [`react`].
pub proof fn lemma_run_push(pipeline: PipelineView, events: Seq<EventView>, event: EventView)
    ensures
        run(pipeline, events.push(event)) == ({
            let (before, directives) = run(pipeline, events);
            match react(before, event) {
                Some((after, directive)) => (after, directives.push(directive)),
                None => (before, directives),
            }
        }),
{
    assert(events.push(event).drop_last() =~= events);
}

/// One more directive adds its update, if it hands one over.
pub proof fn lemma_emitted_push(directives: Seq<DirectiveView>, directive: DirectiveView)
    ensures
        emitted(directives.push(directive)) == match directive.action {
            ActionView::Emit(update) => emitted(directives).push(update),
            _ => emitted(directives),
        },
{
    assert(directives.push(directive).drop_last() =~= directives);
}

/// While a burst lasts, the pipeline only waits: it stays blocked on its
/// watcher, the window that the first notification opened stays open, and
/// nothing is handed to the consumer.
pub proof fn lemma_burst_is_absorbed(pipeline: PipelineView, burst: Seq<nat>)
    requires
        at_rest(pipeline),
        burst.len() > 0,
        forall|i: int|
            0 <= i < burst.len() ==> elapsed(burst[0], #[trigger] burst[i]) < pipeline.watcher.window,
    ensures
        run(pipeline, burst.map_values(|at: nat| EventView::Notified { at })).0 == (PipelineView {
            watcher: WatcherView { opened: Some(burst[0]), ..pipeline.watcher },
            ..pipeline
        }),
        emitted(run(pipeline, burst.map_values(|at: nat| EventView::Notified { at })).1)
            == Seq::<UpdateView>::empty(),
    decreases burst.len(),
{
    let events = burst.map_values(|at: nat| EventView::Notified { at });
    let earlier = burst.drop_last();
    let before = earlier.map_values(|at: nat| EventView::Notified { at });
    let last = EventView::Notified { at: burst.last() };
    assert(events =~= before.push(last));
    lemma_run_push(pipeline, before, last);
    lemma_emitted_push(run(pipeline, before).1, run(pipeline, events).1.last());
    if earlier.len() > 0 {
        lemma_burst_is_absorbed(pipeline, earlier);
    }
}

/// One round takes a pipeline at rest back to rest, and hands the consumer
/// exactly what the round owes: one update if the walk was complete,
/// whatever the size of the burst, and none if it was not.
pub proof fn lemma_round(pipeline: PipelineView, round: Round)
    requires
        at_rest(pipeline),
        round.fits(pipeline.watcher.window),
    ensures
        run(pipeline, round.events()).0 == pipeline,
        emitted(run(pipeline, round.events()).1) == round.updates(),
{
    let notes = round.notifications();
    let lapse = EventView::Lapsed { at: round.closed_at };
    let scanned = EventView::Scanned { walk: round.walk };
    lemma_burst_is_absorbed(pipeline, round.burst);
    let waits = run(pipeline, notes).1;
    lemma_run_push(pipeline, notes, lapse);
    let asked = run(pipeline, notes.push(lapse)).1;
    lemma_emitted_push(waits, plainly(ActionView::Scan));
    lemma_run_push(pipeline, notes.push(lapse), scanned);
    let answered = run(pipeline, notes.push(lapse).push(scanned)).1;
    lemma_emitted_push(asked, answered.last());
    if all_read(round.walk) {
        assert(round.events() =~= notes.push(lapse).push(scanned).push(EventView::Delivered));
        lemma_run_push(pipeline, notes.push(lapse).push(scanned), EventView::Delivered);
        let all = run(pipeline, round.events()).1;
        lemma_emitted_push(answered, all.last());
    } else {
        assert(round.events() =~= notes.push(lapse).push(scanned));
    }
}

/// Any number of rounds take a pipeline at rest back to rest, and hand the
/// consumer what the rounds owe, round by round, in the order of the
/// rounds.
pub proof fn lemma_rounds(pipeline: PipelineView, rounds: Seq<Round>)
    requires
        at_rest(pipeline),
        forall|i: int| 0 <= i < rounds.len() ==> (#[trigger] rounds[i]).fits(pipeline.watcher.window),
    ensures
        run(pipeline, events_of(rounds)).0 == pipeline,
        emitted(run(pipeline, events_of(rounds)).1) == updates_of(rounds),
    decreases rounds.len(),
{
    if rounds.len() > 0 {
        let earlier = rounds.drop_last();
        lemma_rounds(pipeline, earlier);
        lemma_round(pipeline, rounds.last());
        lemma_run_append(pipeline, events_of(earlier), rounds.last().events());
        lemma_emitted_append(
            run(pipeline, events_of(earlier)).1,
            run(pipeline, rounds.last().events()).1,
        );
    }
}

/// Where every walk was complete, the rounds owe one update each.
pub proof fn lemma_updates_of_complete_rounds(rounds: Seq<Round>)
    requires
        forall|i: int| 0 <= i < rounds.len() ==> all_read((#[trigger] rounds[i]).walk),
    ensures
        updates_of(rounds) == rounds.map_values(
            |round: Round| UpdateView::Replace(listing(round.walk)),
        ),
    decreases rounds.len(),
{
    if rounds.len() > 0 {
        lemma_updates_of_complete_rounds(rounds.drop_last());
    }
}

/// The first update is the listing taken at the start.
///
/// Once the watch is registered and the first walk is complete, the
/// pipeline's first two directives are to scan and to hand over the listing
/// of that walk, whatever is reported afterwards. So the consumer's first
/// update is that listing, and it is handed over before the pipeline ever
/// waits for a change.
pub proof fn theorem_first_update_is_first_listing(
    root: Seq<char>,
    window: nat,
    walk: Seq<WalkItemView>,
    later: Seq<EventView>,
)
    requires
        all_read(walk),
    ensures
        ({
            let events = seq![EventView::Registered, EventView::Scanned { walk }] + later;
            let directives = run(PipelineView::initial(root, window), events).1;
            &&& directives.len() >= 2
            &&& directives[0] == plainly(ActionView::Scan)
            &&& directives[1] == plainly(ActionView::Emit(UpdateView::Replace(listing(walk))))
            &&& emitted(directives).len() >= 1
            &&& emitted(directives)[0] == UpdateView::Replace(listing(walk))
        }),
{
    let start = PipelineView::initial(root, window);
    let scanned = EventView::Scanned { walk };
    let none = Seq::<EventView>::empty();
    let first_events = none.push(EventView::Registered).push(scanned);
    assert(first_events =~= seq![EventView::Registered, scanned]);
    lemma_run_push(start, none, EventView::Registered);
    lemma_run_push(start, none.push(EventView::Registered), scanned);
    let (sending, first_two) = run(start, first_events);
    let ask = plainly(ActionView::Scan);
    let hand = plainly(ActionView::Emit(UpdateView::Replace(listing(walk))));
    lemma_emitted_push(Seq::empty(), ask);
    lemma_emitted_push(Seq::<DirectiveView>::empty().push(ask), hand);
    lemma_run_append(start, first_events, later);
    lemma_emitted_append(first_two, run(sending, later).1);
}

/// A burst gives one update.
///
/// However many raw notifications arrive within one window, the pipeline
/// scans once when the window has closed, and a complete walk then gives
/// the consumer exactly one update: the listing of that walk.
pub proof fn theorem_burst_gives_one_update(pipeline: PipelineView, round: Round)
    requires
        at_rest(pipeline),
        round.fits(pipeline.watcher.window),
        all_read(round.walk),
    ensures
        emitted(run(pipeline, round.events()).1) == seq![UpdateView::Replace(listing(round.walk))],
        run(pipeline, round.events()).0 == pipeline,
{
    lemma_round(pipeline, round);
}

/// Updates come in the order of the changes.
///
/// Changes that lie further apart than the window fall into rounds of
/// their own. Where every walk is complete, the consumer is handed one
/// update for each round, each the listing of that round's walk, in the
/// order of the rounds.
pub proof fn theorem_updates_come_in_order(pipeline: PipelineView, rounds: Seq<Round>)
    requires
        at_rest(pipeline),
        forall|i: int| 0 <= i < rounds.len() ==> (#[trigger] rounds[i]).fits(pipeline.watcher.window),
        forall|i: int| 0 <= i < rounds.len() ==> all_read((#[trigger] rounds[i]).walk),
    ensures
        emitted(run(pipeline, events_of(rounds)).1) == rounds.map_values(
            |round: Round| UpdateView::Replace(listing(round.walk)),
        ),
{
    lemma_rounds(pipeline, rounds);
    lemma_updates_of_complete_rounds(rounds);
}

/// A failed scan is felt by nobody.
///
/// A round whose walk could not be completed hands the consumer nothing
/// and leaves the pipeline watching as before. A later round with a
/// complete walk gives the update that it would have given anyway.
pub proof fn theorem_failed_scan_is_isolated(pipeline: PipelineView, failed: Round, next: Round)
    requires
        at_rest(pipeline),
        failed.fits(pipeline.watcher.window),
        next.fits(pipeline.watcher.window),
        !all_read(failed.walk),
        all_read(next.walk),
    ensures
        emitted(run(pipeline, failed.events()).1) == Seq::<UpdateView>::empty(),
        run(pipeline, failed.events()).0 == pipeline,
        pipeline.state() == PipelineState::Watching,
        emitted(run(pipeline, failed.events() + next.events()).1) == seq![
            UpdateView::Replace(listing(next.walk)),
        ],
{
    lemma_round(pipeline, failed);
    lemma_round(pipeline, next);
    lemma_run_append(pipeline, failed.events(), next.events());
    lemma_emitted_append(run(pipeline, failed.events()).1, run(pipeline, next.events()).1);
}

/// What the driver reports while a pipeline starts up without trouble: the
/// watch is registered, the first walk is over, its listing is delivered.
pub open spec fn opening(walk: Seq<WalkItemView>) -> Seq<EventView> {
    seq![EventView::Registered, EventView::Scanned { walk }, EventView::Delivered]
}

/// A pipeline that has started up without trouble is at rest, and has
/// handed over the listing of its first walk and nothing else.
pub proof fn lemma_opening_comes_to_rest(root: Seq<char>, window: nat, walk: Seq<WalkItemView>)
    requires
        all_read(walk),
    ensures
        at_rest(run(PipelineView::initial(root, window), opening(walk)).0),
        run(PipelineView::initial(root, window), opening(walk)).0.watcher.window == window,
        emitted(run(PipelineView::initial(root, window), opening(walk)).1) == seq![
            UpdateView::Replace(listing(walk)),
        ],
{
    let start = PipelineView::initial(root, window);
    let none = Seq::<EventView>::empty();
    let scanned = EventView::Scanned { walk };
    assert(opening(walk) =~= none.push(EventView::Registered).push(scanned).push(
        EventView::Delivered,
    ));
    lemma_run_push(start, none, EventView::Registered);
    lemma_run_push(start, none.push(EventView::Registered), scanned);
    lemma_run_push(start, none.push(EventView::Registered).push(scanned), EventView::Delivered);
    let ask = plainly(ActionView::Scan);
    let hand = plainly(ActionView::Emit(UpdateView::Replace(listing(walk))));
    let rest = plainly(ActionView::Await(Patience::Indefinitely));
    let quiet = Seq::<DirectiveView>::empty();
    lemma_emitted_push(quiet, ask);
    lemma_emitted_push(quiet.push(ask), hand);
    lemma_emitted_push(quiet.push(ask).push(hand), rest);
    assert(emitted(quiet.push(ask).push(hand).push(rest)) =~= seq![
        UpdateView::Replace(listing(walk)),
    ]);
}

/// From start to any number of changes.
///
/// A pipeline that starts up without trouble and then lives through any
/// number of rounds hands the consumer the listing of the first walk, and
/// after it what each round owes, in the order of the rounds: one update
/// for each round whose walk was complete, none for the others.
pub proof fn theorem_whole_run(
    root: Seq<char>,
    window: nat,
    first_walk: Seq<WalkItemView>,
    rounds: Seq<Round>,
)
    requires
        all_read(first_walk),
        forall|i: int| 0 <= i < rounds.len() ==> (#[trigger] rounds[i]).fits(window),
    ensures
        emitted(
            run(PipelineView::initial(root, window), opening(first_walk) + events_of(rounds)).1,
        ) == seq![UpdateView::Replace(listing(first_walk))] + updates_of(rounds),
        run(
            PipelineView::initial(root, window),
            opening(first_walk) + events_of(rounds),
        ).0.state() == PipelineState::Watching,
{
    let start = PipelineView::initial(root, window);
    lemma_opening_comes_to_rest(root, window, first_walk);
    let (rested, first) = run(start, opening(first_walk));
    lemma_rounds(rested, rounds);
    lemma_run_append(start, opening(first_walk), events_of(rounds));
    lemma_emitted_append(first, run(rested, events_of(rounds)).1);
}

/// The updates that the complete walks of a run call for: one for each
/// walk that the pipeline was waiting for and that read every entry, in the
/// order in which the walks were reported.
pub open spec fn completed_scans(pipeline: PipelineView, events: Seq<EventView>) -> Seq<UpdateView>
    decreases events.len(),
{
    if events.len() == 0 {
        Seq::empty()
    } else {
        let earlier = completed_scans(pipeline, events.drop_last());
        let before = run(pipeline, events.drop_last()).0;
        match events.last() {
            EventView::Scanned { walk } => if before.phase == Phase::Scanning && all_read(walk) {
                earlier.push(UpdateView::Replace(listing(walk)))
            } else {
                earlier
            },
            _ => earlier,
        }
    }
}

/// Every complete scan is handed over, once, in the order of the scans.
///
/// Whatever the driver reports, the updates that the consumer is handed
/// are exactly the listings of the complete walks that the pipeline had
/// asked for, in the order in which those walks ended. Nothing else is
/// ever handed over, and nothing is handed over twice or out of turn.
pub proof fn theorem_updates_follow_scans(pipeline: PipelineView, events: Seq<EventView>)
    ensures
        emitted(run(pipeline, events).1) == completed_scans(pipeline, events),
    decreases events.len(),
{
    if events.len() > 0 {
        theorem_updates_follow_scans(pipeline, events.drop_last());
        let (before, directives) = run(pipeline, events.drop_last());
        match react(before, events.last()) {
            Some((_, directive)) => {
                lemma_emitted_push(directives, directive);
            },
            None => {},
        }
    }
}

/// A step never breaks what holds of every pipeline.
pub proof fn lemma_react_keeps_wf(pipeline: PipelineView, event: EventView)
    requires
        pipeline.wf(),
    ensures
        react(pipeline, event) matches Some((after, _)) ==> after.wf(),
{
}

/// The states are passed through in one direction only: from initializing
/// to watching to terminated, never back.
pub open spec fn rank(state: PipelineState) -> nat {
    match state {
        PipelineState::Initializing => 0,
        PipelineState::Watching => 1,
        PipelineState::Terminated => 2,
    }
}

/// No step takes the pipeline back to an earlier state.
pub proof fn theorem_states_only_advance(pipeline: PipelineView, event: EventView)
    requires
        pipeline.wf(),
    ensures
        react(pipeline, event) matches Some((after, _)) ==> rank(pipeline.state()) <= rank(
            after.state(),
        ),
{
}

/// Only two things stop the pipeline: a watch that cannot be registered,
/// and a consumer that is gone. A failed scan or a fault of the watch
/// never does.
pub proof fn theorem_stops_only_when_fatal(pipeline: PipelineView, event: EventView)
    requires
        pipeline.state() != PipelineState::Terminated,
    ensures
        react(pipeline, event) matches Some((after, directive)) ==> (after.state()
            == PipelineState::Terminated <==> event is SetupFailed || event is SinkClosed),
        react(pipeline, event) matches Some((after, directive)) ==> (directive.action
            == ActionView::Stop <==> after.state() == PipelineState::Terminated),
{
}

/// A stopped pipeline stays stopped: it takes no event and gives no
/// directive.
pub proof fn theorem_stopped_for_good(pipeline: PipelineView, events: Seq<EventView>)
    requires
        pipeline.state() == PipelineState::Terminated,
    ensures
        run(pipeline, events) == (pipeline, Seq::<DirectiveView>::empty()),
    decreases events.len(),
{
    if events.len() > 0 {
        theorem_stopped_for_good(pipeline, events.drop_last());
    }
}

} // verus!

//! Coalescing bursts of change notifications into single signals.
//!
//! A [`ChangeWatcher`] is told each time its driver wakes from waiting on
//! the operating system: whether a raw notification arrived, and when. The
//! first notification opens a window of fixed length. Whatever arrives
//! inside the window is absorbed; the first wake-up at or after its end
//! closes it and yields one signal, which says only that something changed.
//!
//! Times are milliseconds on any clock that does not run backwards. A time
//! earlier than the opening of the window counts as the opening itself.

use vstd::prelude::*;

verus! {

/// The reference length of the window, in milliseconds.
pub const DEFAULT_WINDOW_MS: u64 = 200;

/// How long the driver may block before it reports back.
#[derive(Clone, Copy, Debug, PartialEq, Eq, Structural)]
pub enum Patience {
    /// Until the next raw notification, however long that takes.
    Indefinitely,
    /// Until the next raw notification, but this many milliseconds at most.
    AtMost(u64),
}

/// What the watcher makes of a wake-up.
#[derive(Clone, Copy, Debug, PartialEq, Eq, Structural)]
pub enum Verdict {
    /// Nothing to pass on yet: wait again.
    Wait(Patience),
    /// The window has closed: something changed, look again.
    Signal,
}

/// Debounces raw change notifications over a fixed window.
#[derive(Debug)]
pub struct ChangeWatcher {
    window: u64,
    opened: Option<u64>,
}

/// A [`ChangeWatcher`] as contracts see it.
pub struct WatcherView {
    /// The length of the window, in milliseconds.
    pub window: nat,
    /// When the open window was opened, if one is open.
    pub opened: Option<nat>,
}

impl View for ChangeWatcher {
    type V = WatcherView;

    closed spec fn view(&self) -> WatcherView {
        WatcherView {
            window: self.window as nat,
            opened: match self.opened {
                Some(at) => Some(at as nat),
                None => None,
            },
        }
    }
}

/// The time that has passed at `at` since a window was opened at `opened`.
pub open spec fn elapsed(opened: nat, at: nat) -> nat {
    if at >= opened {
        (at - opened) as nat
    } else {
        0
    }
}

/// The watcher after a wake-up at time `at`, and what it makes of it.
///
/// A notification opens a window if none is open. An open window closes,
/// with a signal, as soon as a wake-up finds its length elapsed; until then
/// the driver is to wait for the rest of it.
pub open spec fn wake(watcher: WatcherView, notified: bool, at: nat) -> (WatcherView, Verdict) {
    let opened = if watcher.opened is None && notified {
        Some(at)
    } else {
        watcher.opened
    };
    match opened {
        None => (watcher, Verdict::Wait(Patience::Indefinitely)),
        Some(since) => if elapsed(since, at) >= watcher.window {
            (WatcherView { opened: None, ..watcher }, Verdict::Signal)
        } else {
            (
                WatcherView { opened: Some(since), ..watcher },
                Verdict::Wait(Patience::AtMost((watcher.window - elapsed(since, at)) as u64)),
            )
        },
    }
}

/// One wake-up of the driver: whether a raw notification came with it,
/// and when it happened.
pub struct WakeUp {
    pub notified: bool,
    pub at: nat,
}

/// The watcher after a series of wake-ups.
pub open spec fn after_wakes(watcher: WatcherView, wakes: Seq<WakeUp>) -> WatcherView
    decreases wakes.len(),
{
    if wakes.len() == 0 {
        watcher
    } else {
        wake(after_wakes(watcher, wakes.drop_last()), wakes.last().notified, wakes.last().at).0
    }
}

/// What the watcher makes of wake-up `i` of a series.
pub open spec fn verdict_at(watcher: WatcherView, wakes: Seq<WakeUp>, i: int) -> Verdict {
    wake(after_wakes(watcher, wakes.take(i)), wakes[i].notified, wakes[i].at).1
}

/// The clock of the wake-ups never runs backwards.
pub open spec fn in_time_order(wakes: Seq<WakeUp>) -> bool {
    forall|i: int, j: int| 0 <= i <= j < wakes.len() ==> wakes[i].at <= wakes[j].at
}

/// Wake-ups leave the length of the window alone.
pub proof fn lemma_window_never_changes(watcher: WatcherView, wakes: Seq<WakeUp>)
    ensures
        after_wakes(watcher, wakes).window == watcher.window,
    decreases wakes.len(),
{
    if wakes.len() > 0 {
        lemma_window_never_changes(watcher, wakes.drop_last());
    }
}

/// After a signal at wake-up `i`, whatever window is open at a later point
/// was opened no earlier than that signal.
proof fn lemma_windows_open_after_signals(
    watcher: WatcherView,
    wakes: Seq<WakeUp>,
    i: int,
    k: int,
)
    requires
        in_time_order(wakes),
        0 <= i < k <= wakes.len(),
        verdict_at(watcher, wakes, i) == Verdict::Signal,
    ensures
        after_wakes(watcher, wakes.take(k)).opened matches Some(since) ==> since >= wakes[i].at,
    decreases k,
{
    let upto = wakes.take(k);
    assert(upto.drop_last() =~= wakes.take(k - 1));
    if k - 1 > i {
        lemma_windows_open_after_signals(watcher, wakes, i, k - 1);
    }
}

/// Signals are never closer together than the window is long.
///
/// On a clock that does not run backwards, any two signals of one watcher
/// lie at least one window apart, whatever notifications arrive and
/// however often the driver wakes. So a burst of any size and length
/// causes at most one rescan in each window.
pub proof fn theorem_signals_keep_their_distance(
    watcher: WatcherView,
    wakes: Seq<WakeUp>,
    i: int,
    j: int,
)
    requires
        in_time_order(wakes),
        0 <= i < j < wakes.len(),
        verdict_at(watcher, wakes, i) == Verdict::Signal,
        verdict_at(watcher, wakes, j) == Verdict::Signal,
    ensures
        wakes[j].at - wakes[i].at >= watcher.window,
{
    lemma_windows_open_after_signals(watcher, wakes, i, j);
    lemma_window_never_changes(watcher, wakes.take(j));
}

impl ChangeWatcher {
    /// A watcher with no window open.
    pub fn new(window_ms: u64) -> (watcher: ChangeWatcher)
        ensures
            watcher@ == (WatcherView { window: window_ms as nat, opened: None }),
    {
        ChangeWatcher { window: window_ms, opened: None }
    }

    /// The length of the window, in milliseconds.
    pub fn window_ms(&self) -> (window: u64)
        ensures
            window == self@.window,
    {
        self.window
    }

    /// Whether a window is open, that is, whether a signal is owed.
    pub fn is_collecting(&self) -> (collecting: bool)
        ensures
            collecting == self@.opened is Some,
    {
        self.opened.is_some()
    }

    /// A raw notification arrived at time `at`.
    pub fn notified(&mut self, at: u64) -> (verdict: Verdict)
        ensures
            (final(self)@, verdict) == wake(old(self)@, true, at as nat),
    {
        self.woke(true, at)
    }

    /// The wait ended at time `at` without a notification.
    pub fn lapsed(&mut self, at: u64) -> (verdict: Verdict)
        ensures
            (final(self)@, verdict) == wake(old(self)@, false, at as nat),
    {
        self.woke(false, at)
    }

    /// The driver woke at time `at`, with or without a notification.
    pub fn woke(&mut self, notified: bool, at: u64) -> (verdict: Verdict)
        ensures
            (final(self)@, verdict) == wake(old(self)@, notified, at as nat),
    {
        let opened = match self.opened {
            Some(since) => Some(since),
            None => if notified {
                Some(at)
            } else {
                None
            },
        };
        match opened {
            None => Verdict::Wait(Patience::Indefinitely),
            Some(since) => {
                let passed: u64 = if at >= since {
                    at - since
                } else {
                    0
                };
                if passed >= self.window {
                    self.opened = None;
                    Verdict::Signal
                } else {
                    self.opened = Some(since);
                    Verdict::Wait(Patience::AtMost(self.window - passed))
                }
            },
        }
    }
}

} // verus!

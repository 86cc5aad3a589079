//! The decisions of the standalone configuration watcher: when to reload the configuration,
//! when to watch the file again, when to stop, and which state survives a failed reload.
//!
//! The runtime performs each step (reading and applying the configuration, watching the
//! file, following resource changes) and reports what happened as a `WatchEvent`.
use vstd::prelude::*;

verus! {

/// Where the standalone configuration is read from.
#[derive(Debug, Clone, Copy, PartialEq, Eq, Structural)]
pub enum ConfigSourceKind {
    /// A file, watched for changes.
    File,
    /// A source that is read once; only resource changes trigger reloads.
    Static,
}

/// What the runtime reports to the watcher.
#[derive(Debug, Clone, Copy, PartialEq, Eq, Structural)]
pub enum WatchEvent {
    /// The watched file changed; `invalidated` when the watch itself no longer holds (the
    /// file was replaced or removed).
    FileChanged { invalidated: bool },
    /// The file watch ended.
    FileWatchClosed,
    /// Watching the file again failed.
    RewatchFailed,
    /// A resource the configuration refers to changed.
    ResourceChanged,
    /// The feed of resource changes ended.
    ResourceFeedClosed,
}

/// What the watcher asks the runtime to do next.
#[derive(Debug, Clone, Copy, PartialEq, Eq, Structural)]
pub enum WatchAction {
    /// Reload the configuration, then wait for the next event.
    Reload,
    /// Reload the configuration, then watch the file again.
    ReloadAndRewatch,
    /// Stop watching.
    Stop,
}

/// Whether the watcher follows file changes for a source: only for a file.
pub fn watches_file(source: ConfigSourceKind) -> (r: bool)
    ensures
        r == (source == ConfigSourceKind::File),
{
    match source {
        ConfigSourceKind::File => true,
        ConfigSourceKind::Static => false,
    }
}

/// The action the watcher takes on an event.
pub open spec fn watch_action(event: WatchEvent) -> WatchAction {
    match event {
        WatchEvent::FileChanged { invalidated } => if invalidated {
            WatchAction::ReloadAndRewatch
        } else {
            WatchAction::Reload
        },
        WatchEvent::ResourceChanged => WatchAction::Reload,
        WatchEvent::FileWatchClosed => WatchAction::Stop,
        WatchEvent::RewatchFailed => WatchAction::Stop,
        WatchEvent::ResourceFeedClosed => WatchAction::Stop,
    }
}

/// Decides what to do on an event: every change reloads the configuration, an invalidated
/// file watch is renewed after the reload, and the watcher stops when a feed ends or the
/// file cannot be watched again.
pub fn next_action(event: WatchEvent) -> (a: WatchAction)
    ensures
        a == watch_action(event),
{
    match event {
        WatchEvent::FileChanged { invalidated } => if invalidated {
            WatchAction::ReloadAndRewatch
        } else {
            WatchAction::Reload
        },
        WatchEvent::ResourceChanged => WatchAction::Reload,
        WatchEvent::FileWatchClosed => WatchAction::Stop,
        WatchEvent::RewatchFailed => WatchAction::Stop,
        WatchEvent::ResourceFeedClosed => WatchAction::Stop,
    }
}

/// The state after a reload attempt: the reloaded state when the reload succeeded, else the
/// previous state, so that a bad configuration never replaces a good one.
pub fn state_after_reload<S, E>(previous: S, reloaded: Result<S, E>) -> (s: S)
    ensures
        s == match reloaded {
            Ok(next) => next,
            Err(_) => previous,
        },
{
    match reloaded {
        Ok(next) => next,
        Err(_) => previous,
    }
}

/// The state after a run of reload attempts: each success replaces the state, each failure
/// keeps it.
pub open spec fn state_after_reloads<S, E>(initial: S, attempts: Seq<Result<S, E>>) -> S
    decreases attempts.len(),
{
    if attempts.len() == 0 {
        initial
    } else {
        match attempts.last() {
            Ok(next) => next,
            Err(_) => state_after_reloads(initial, attempts.drop_last()),
        }
    }
}

/// After any run of reloads the state is the last one that succeeded, or the initial state
/// when none did.
pub proof fn lemma_last_good_state_survives<S, E>(initial: S, attempts: Seq<Result<S, E>>)
    ensures
        (forall|i: int| 0 <= i < attempts.len() ==> #[trigger] attempts[i] is Err) ==> state_after_reloads(
            initial,
            attempts,
        ) == initial,
        forall|i: int|
            0 <= i < attempts.len() && #[trigger] attempts[i] is Ok && (forall|j: int|
                i < j < attempts.len() ==> attempts[j] is Err) ==> state_after_reloads(initial, attempts)
                == attempts[i]->Ok_0,
    decreases attempts.len(),
{
    if attempts.len() > 0 {
        let init = attempts.drop_last();
        lemma_last_good_state_survives(initial, init);
        assert forall|i: int|
            0 <= i < attempts.len() && #[trigger] attempts[i] is Ok && (forall|j: int|
                i < j < attempts.len() ==> attempts[j] is Err) implies state_after_reloads(initial, attempts)
            == attempts[i]->Ok_0 by {
            if i < attempts.len() - 1 {
                assert(attempts[attempts.len() - 1] is Err);
                assert(init[i] == attempts[i]);
                assert forall|j: int| i < j < init.len() implies init[j] is Err by {
                    assert(init[j] == attempts[j]);
                }
            }
        }
        if forall|i: int| 0 <= i < attempts.len() ==> #[trigger] attempts[i] is Err {
            assert(attempts[attempts.len() - 1] is Err);
            assert forall|i: int| 0 <= i < init.len() implies #[trigger] init[i] is Err by {
                assert(init[i] == attempts[i]);
            }
        }
    }
}

} // verus!

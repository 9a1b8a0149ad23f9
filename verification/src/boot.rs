//! Bootstrap sequencing.
//!
//! Level instantiation must never run before its data has finished loading
//! asynchronously.  The ordering is enforced by a small linear state machine,
//! `Initial -> Loading -> Kickstarted -> Level`, stepped once per scheduler
//! tick with whatever load-completion signal the asset collaborator has
//! observed.  The step function decides only; the surrounding engine performs
//! the returned action and feeds the next event back in.

use vstd::prelude::*;
use vstd::string::StringExecFns;

verus! {

/// The bootstrap states, in progression order.  Input handling is only
/// active in `Level`.
#[derive(Clone, Copy, PartialEq, Eq, Structural, Debug)]
pub enum AppState {
    Initial,
    Loading,
    Kickstarted,
    Level,
}

/// What the scheduler observed since the last step.  `Tick` is a frame with
/// nothing loaded; the other two report an asynchronous load completion.
#[derive(Debug)]
pub enum BootEvent {
    Tick,
    /// The startup manifest finished loading; carries its `first_level` id.
    ManifestLoaded(String),
    /// The requested level finished loading.
    LevelLoaded,
}

/// What the engine must do after a step.
#[derive(Debug)]
pub enum BootAction {
    /// Nothing this frame.
    Idle,
    /// Start the asynchronous load of the level asset at this path.
    LoadLevel(String),
    /// The level data is ready: run instantiation now.
    SpawnLevel,
}

/// The state the machine moves to on one event.
pub open spec fn spec_boot_next(s: AppState, e: BootEvent) -> AppState {
    match (s, e) {
        (AppState::Initial, BootEvent::Tick) => AppState::Loading,
        (AppState::Loading, BootEvent::ManifestLoaded(_)) => AppState::Kickstarted,
        (AppState::Kickstarted, BootEvent::LevelLoaded) => AppState::Level,
        _ => s,
    }
}

/// The asset path of a level id, by the loader's naming convention.
pub fn level_asset_path(first_level: &str) -> (r: String)
    ensures
        r@ == "levels/"@ + first_level@ + ".level.yaml"@,
{
    let mut s = "levels/".to_owned();
    s.append(first_level);
    s.append(".level.yaml");
    s
}

/// Advances the bootstrap machine by one observed event and says what the
/// engine must do: entering `Kickstarted` requests the first level's asset,
/// entering `Level` triggers instantiation, and everything else idles.  Any
/// event that the current state does not wait for leaves the state unchanged.
pub fn boot_step(state: AppState, event: BootEvent) -> (r: (AppState, BootAction))
    ensures
        r.0 == spec_boot_next(state, event),
        match (state, event) {
            (AppState::Loading, BootEvent::ManifestLoaded(first)) => r.1 matches
                BootAction::LoadLevel(p) && p@ == "levels/"@ + first@ + ".level.yaml"@,
            (AppState::Kickstarted, BootEvent::LevelLoaded) => r.1 is SpawnLevel,
            _ => r.1 is Idle,
        },
{
    match (state, event) {
        (AppState::Initial, BootEvent::Tick) => (AppState::Loading, BootAction::Idle),
        (AppState::Loading, BootEvent::ManifestLoaded(first)) => {
            let path = level_asset_path(first.as_str());
            (AppState::Kickstarted, BootAction::LoadLevel(path))
        },
        (AppState::Kickstarted, BootEvent::LevelLoaded) => (AppState::Level, BootAction::SpawnLevel),
        (s, _) => (s, BootAction::Idle),
    }
}

/// The state after running a whole event history from `s`.
pub open spec fn spec_boot_run(s: AppState, events: Seq<BootEvent>) -> AppState
    decreases events.len(),
{
    if events.len() == 0 {
        s
    } else {
        spec_boot_next(spec_boot_run(s, events.drop_last()), events.last())
    }
}

/// From `Initial`, reaching `Kickstarted` takes a manifest signal, and
/// reaching `Level` takes a manifest signal strictly before a level signal.
proof fn lemma_boot_run_signals(events: Seq<BootEvent>)
    ensures
        spec_boot_run(AppState::Initial, events) is Kickstarted ==> exists|i: int|
            0 <= i < events.len() && events[i] is ManifestLoaded,
        spec_boot_run(AppState::Initial, events) is Level ==> exists|i: int, j: int|
            0 <= i < j < events.len() && events[i] is ManifestLoaded && events[j] is LevelLoaded,
    decreases events.len(),
{
    if events.len() == 0 {
    } else {
        let front = events.drop_last();
        let e = events.last();
        lemma_boot_run_signals(front);
        let prev = spec_boot_run(AppState::Initial, front);
        let cur = spec_boot_run(AppState::Initial, events);
        assert(forall|i: int| 0 <= i < front.len() ==> front[i] == events[i]);
        if cur is Kickstarted {
            if prev is Kickstarted {
                let i = choose|i: int| 0 <= i < front.len() && front[i] is ManifestLoaded;
                assert(events[i] is ManifestLoaded);
            } else {
                assert(prev is Loading && e is ManifestLoaded);
                assert(events[events.len() - 1] is ManifestLoaded);
            }
        }
        if cur is Level {
            if prev is Level {
                let (i, j) = choose|i: int, j: int|
                    0 <= i < j < front.len() && front[i] is ManifestLoaded
                        && front[j] is LevelLoaded;
                assert(events[i] is ManifestLoaded && events[j] is LevelLoaded);
            } else {
                assert(prev is Kickstarted && e is LevelLoaded);
                let i = choose|i: int| 0 <= i < front.len() && front[i] is ManifestLoaded;
                assert(events[i] is ManifestLoaded);
                assert(events[events.len() - 1] is LevelLoaded);
            }
        }
    }
}

/// The gating law of bootstrap sequencing: whatever order the asynchronous
/// completions arrive in, the machine cannot be in `Level` unless its event
/// history contains the manifest load-completion strictly before a level
/// load-completion.  Instantiation is only triggered on the step that enters
/// `Level`, so it never runs before its data dependency has loaded.
pub proof fn lemma_level_needs_both_signals(events: Seq<BootEvent>)
    requires
        spec_boot_run(AppState::Initial, events) is Level,
    ensures
        exists|i: int, j: int|
            0 <= i < j < events.len() && events[i] is ManifestLoaded && events[j] is LevelLoaded,
{
    lemma_boot_run_signals(events);
}

} // verus!

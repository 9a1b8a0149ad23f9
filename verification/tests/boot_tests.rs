use sprite_stack::boot::{boot_step, level_asset_path, AppState, BootAction, BootEvent};
use sprite_stack::motion::{camera_pan_delta, sprite_movement_step, Direction, CAMERA_PAN_STEP};
use sprite_stack::player::create_player;

fn run(events: Vec<BootEvent>) -> AppState {
    let mut state = AppState::Initial;
    for e in events {
        state = boot_step(state, e).0;
    }
    state
}

#[test]
fn level_asset_path_follows_the_naming_convention() {
    assert_eq!(level_asset_path("start"), "levels/start.level.yaml");
    assert_eq!(level_asset_path(""), "levels/.level.yaml");
}

#[test]
fn happy_path_reaches_level_in_order() {
    let mut state = AppState::Initial;
    let r = boot_step(state, BootEvent::Tick);
    state = r.0;
    assert_eq!(state, AppState::Loading);
    assert!(matches!(r.1, BootAction::Idle));

    let r = boot_step(state, BootEvent::ManifestLoaded("start".to_string()));
    state = r.0;
    assert_eq!(state, AppState::Kickstarted);
    match r.1 {
        BootAction::LoadLevel(path) => assert_eq!(path, "levels/start.level.yaml"),
        other => panic!("expected a level load request, got {other:?}"),
    }

    let r = boot_step(state, BootEvent::LevelLoaded);
    state = r.0;
    assert_eq!(state, AppState::Level);
    assert!(matches!(r.1, BootAction::SpawnLevel));
}

#[test]
fn level_signal_before_manifest_does_not_advance() {
    let state = run(vec![BootEvent::Tick, BootEvent::LevelLoaded, BootEvent::LevelLoaded]);
    assert_eq!(state, AppState::Loading);
}

#[test]
fn level_is_unreachable_without_both_signals() {
    assert_ne!(run(vec![BootEvent::Tick, BootEvent::Tick, BootEvent::Tick]), AppState::Level);
    assert_ne!(
        run(vec![BootEvent::Tick, BootEvent::ManifestLoaded("start".to_string())]),
        AppState::Level
    );
    assert_ne!(
        run(vec![BootEvent::LevelLoaded, BootEvent::Tick, BootEvent::LevelLoaded]),
        AppState::Level
    );
}

#[test]
fn out_of_order_completions_are_held_until_their_state() {
    // The level completion arriving "early" is simply re-observed later by
    // the poll; the machine still needs the manifest first.
    let state = run(vec![
        BootEvent::Tick,
        BootEvent::LevelLoaded,
        BootEvent::ManifestLoaded("start".to_string()),
        BootEvent::LevelLoaded,
    ]);
    assert_eq!(state, AppState::Level);
}

#[test]
fn manifest_signal_is_ignored_before_loading_state() {
    let r = boot_step(AppState::Initial, BootEvent::ManifestLoaded("start".to_string()));
    assert_eq!(r.0, AppState::Initial);
    assert!(matches!(r.1, BootAction::Idle));
}

#[test]
fn camera_pan_combines_held_keys() {
    assert_eq!(camera_pan_delta(false, false, false, false), (0, 0));
    assert_eq!(camera_pan_delta(true, false, false, false), (-CAMERA_PAN_STEP, 0));
    assert_eq!(camera_pan_delta(false, true, true, false), (CAMERA_PAN_STEP, CAMERA_PAN_STEP));
    assert_eq!(camera_pan_delta(true, true, true, true), (0, 0));
}

#[test]
fn sprite_bounces_at_the_band_edges() {
    assert_eq!(sprite_movement_step(0, Direction::Up, 150), (150, Direction::Up));
    assert_eq!(sprite_movement_step(150, Direction::Up, 150), (300, Direction::Down));
    assert_eq!(sprite_movement_step(-150, Direction::Down, 100), (-250, Direction::Up));
    assert_eq!(sprite_movement_step(200, Direction::Up, 0), (200, Direction::Up));
}

#[test]
fn player_description() {
    let p = create_player();
    assert_eq!(p.texture, "blep.png");
    assert_eq!((p.x, p.y), (100, 0));
}

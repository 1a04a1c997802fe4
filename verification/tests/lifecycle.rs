use heightmap::height_map::PixelFormat;
use heightmap::lifecycle::GameState;
use heightmap::lifecycle::HostEvent;
use heightmap::lifecycle::Key;
use heightmap::lifecycle::KeyState;
use heightmap::lifecycle::Phase;
use heightmap::lifecycle::Transition;
use heightmap::lifecycle::MAP_CHANNELS;
use heightmap::lifecycle::MAP_HEIGHT;
use heightmap::lifecycle::MAP_WIDTH;

fn pressed(key: Key) -> HostEvent {
    HostEvent::KeyboardInput(key, KeyState::Pressed)
}

fn released(key: Key) -> HostEvent {
    HostEvent::KeyboardInput(key, KeyState::Released)
}

#[test]
fn new_state_runs() {
    assert_eq!(GameState::new().phase, Phase::Running);
}

#[test]
fn map_dimensions() {
    assert_eq!(MAP_WIDTH, 20);
    assert_eq!(MAP_HEIGHT, 10);
    assert_eq!(MAP_CHANNELS, 3);
}

#[test]
fn on_start_builds_the_height_map() {
    let mut state = GameState::new();
    let map = state.on_start();
    assert_eq!(map.width, 20);
    assert_eq!(map.height, 10);
    assert_eq!(map.format, PixelFormat { channels: 3, bits_per_channel: 8 });
    assert_eq!(map.bytes.len(), 600);
    assert_eq!(map.bytes, vec![0u8; 600]);
    assert_eq!(state.phase, Phase::Running);
}

#[test]
fn on_start_gives_the_same_map_each_time() {
    let mut state = GameState::new();
    let first = state.on_start();
    let second = state.on_start();
    assert_eq!(first.bytes, second.bytes);
}

#[test]
fn on_start_leaves_a_terminating_state_as_it_is() {
    let mut state = GameState { phase: Phase::Terminating };
    let map = state.on_start();
    assert_eq!(map.bytes.len(), 600);
    assert_eq!(state.phase, Phase::Terminating);
}

#[test]
fn window_close_quits() {
    let mut state = GameState::new();
    let transition = state.handle_event(&HostEvent::CloseRequested);
    assert_eq!(transition, Transition::Quit);
    assert_eq!(state.phase, Phase::Terminating);
}

#[test]
fn key_a_continues() {
    let mut state = GameState::new();
    let transition = state.handle_event(&pressed(Key::Character('A')));
    assert_eq!(transition, Transition::Continue);
    assert_eq!(state.phase, Phase::Running);
}

#[test]
fn escape_press_quits() {
    let mut state = GameState::new();
    let transition = state.handle_event(&pressed(Key::Escape));
    assert_eq!(transition, Transition::Quit);
    assert_eq!(state.phase, Phase::Terminating);
}

#[test]
fn escape_release_continues() {
    let mut state = GameState::new();
    let transition = state.handle_event(&released(Key::Escape));
    assert_eq!(transition, Transition::Continue);
    assert_eq!(state.phase, Phase::Running);
}

#[test]
fn escape_release_after_press_changes_nothing() {
    let mut state = GameState::new();
    assert_eq!(state.handle_event(&pressed(Key::Escape)), Transition::Quit);
    assert_eq!(state.handle_event(&released(Key::Escape)), Transition::Continue);
    assert_eq!(state.phase, Phase::Terminating);
}

#[test]
fn other_events_continue() {
    let mut state = GameState::new();
    assert_eq!(state.handle_event(&HostEvent::Other), Transition::Continue);
    assert_eq!(state.handle_event(&pressed(Key::Other)), Transition::Continue);
    assert_eq!(state.handle_event(&released(Key::Other)), Transition::Continue);
    assert_eq!(state.handle_event(&released(Key::Character('A'))), Transition::Continue);
    assert_eq!(state.handle_event(&pressed(Key::Character('\u{1b}'))), Transition::Continue);
    assert_eq!(state.phase, Phase::Running);
}

#[test]
fn termination_requests_are_recognised() {
    assert!(HostEvent::CloseRequested.is_termination_request());
    assert!(pressed(Key::Escape).is_termination_request());
    assert!(!released(Key::Escape).is_termination_request());
    assert!(!pressed(Key::Character('q')).is_termination_request());
    assert!(!pressed(Key::Other).is_termination_request());
    assert!(!released(Key::Other).is_termination_request());
    assert!(!HostEvent::Other.is_termination_request());
}

#[test]
fn terminating_is_final() {
    let mut state = GameState::new();
    assert_eq!(state.handle_event(&HostEvent::Other), Transition::Continue);
    assert_eq!(state.handle_event(&HostEvent::CloseRequested), Transition::Quit);
    assert_eq!(state.phase, Phase::Terminating);
    assert_eq!(state.handle_event(&HostEvent::Other), Transition::Continue);
    assert_eq!(state.phase, Phase::Terminating);
    assert_eq!(state.handle_event(&pressed(Key::Character('A'))), Transition::Continue);
    assert_eq!(state.phase, Phase::Terminating);
    assert_eq!(state.handle_event(&pressed(Key::Escape)), Transition::Quit);
    assert_eq!(state.phase, Phase::Terminating);
}

#[test]
fn a_run_of_events_ends_at_the_first_request() {
    let events = [
        HostEvent::Other,
        pressed(Key::Character('A')),
        released(Key::Escape),
        pressed(Key::Other),
        HostEvent::CloseRequested,
        HostEvent::Other,
    ];
    let mut state = GameState::new();
    let mut handled = 0;
    for event in events.iter() {
        handled += 1;
        if state.handle_event(event) == Transition::Quit {
            break;
        }
    }
    assert_eq!(handled, 5);
    assert_eq!(state.phase, Phase::Terminating);
}

use windowcast::agent::{capture_window, AppState, CaptureError, ToplevelEvent};
use windowcast::protocol::WindowId;

const ACTIVATED: u32 = 2;

#[test]
fn capture_is_not_implemented() {
    assert!(matches!(capture_window(WindowId(1)), Err(CaptureError::NotImplemented)));
}

#[test]
fn toplevel_events_build_the_window_list() {
    let mut state = AppState::new();
    state.on_toplevel(7);
    state.on_handle_event(7, ToplevelEvent::Title("Terminal".to_string()));
    state.on_handle_event(7, ToplevelEvent::AppId("org.example.term".to_string()));
    let mut states = Vec::new();
    states.extend_from_slice(&1u32.to_ne_bytes());
    states.extend_from_slice(&ACTIVATED.to_ne_bytes());
    state.on_handle_event(7, ToplevelEvent::State(states));
    state.on_toplevel(9);
    state.on_handle_event(9, ToplevelEvent::Title("Editor".to_string()));
    state.on_handle_event(9, ToplevelEvent::State(1u32.to_ne_bytes().to_vec()));
    state.on_toplevel(11);
    state.on_handle_event(11, ToplevelEvent::Closed);

    let mut windows = state.into_windows();
    windows.sort_by_key(|w| w.id.0);
    assert_eq!(windows.len(), 2);
    assert_eq!(windows[0].id, WindowId(7));
    assert_eq!(windows[0].title, "Terminal");
    assert_eq!(windows[0].app_id, "org.example.term");
    assert!(windows[0].focused);
    assert_eq!((windows[0].width, windows[0].height), (0, 0));
    assert_eq!(windows[1].id, WindowId(9));
    assert!(!windows[1].focused);
    assert_eq!(windows[1].app_id, "");
}

#[test]
fn an_event_for_an_unannounced_handle_adds_it() {
    let mut state = AppState::new();
    state.on_handle_event(3, ToplevelEvent::Other);
    state.on_handle_event(4, ToplevelEvent::AppId("x".to_string()));
    let windows = state.into_windows();
    assert_eq!(windows.len(), 2);
}

#[test]
fn a_repeated_announcement_resets_the_toplevel() {
    let mut state = AppState::new();
    state.on_toplevel(5);
    state.on_handle_event(5, ToplevelEvent::Title("old".to_string()));
    state.on_toplevel(5);
    let windows = state.into_windows();
    assert_eq!(windows.len(), 1);
    assert_eq!(windows[0].title, "");
}

#[test]
fn the_wlr_tracker_looks_for_the_native_activated_bytes() {
    let mut state = AppState::new();
    assert_eq!(state.activated_bytes(), ACTIVATED.to_ne_bytes());
    state.on_toplevel(1);
    state.on_handle_event(1, ToplevelEvent::State(ACTIVATED.to_ne_bytes().to_vec()));
    let windows = state.into_windows();
    assert!(windows[0].focused);
}

use argon::inject::last_target_window;
use argon::inject::is_target_title;
use argon::inject::{InjectStep, SearchStep, WindowSearch};
use argon::inject::{
    event_fits_window, InputEvent, Injector, WindowState, XEvent, XEventKind, BUTTON_PRESS,
    KEY_PRESS, MOTION_NOTIFY,
};
use argon::keymap::build_keysym_map;

fn injector() -> Injector {
    // keycode 38 produces a/A, keycode 39 produces s/S
    let map = build_keysym_map(38, 2, &vec![0x61, 0x41, 0x73, 0x53]);
    Injector::new(0x100, map)
}

const WINDOW: WindowState = WindowState { xid: 0x500, x: 10, y: 20 };

#[test]
fn key_down_presses_layout_keycode() {
    let inj = injector();
    let plan = inj.plan(WINDOW, &InputEvent::Keydown { key: "KeyS".to_string() });
    assert!(plan.flush);
    assert_eq!(
        plan.events,
        vec![XEvent {
            kind: XEventKind::KeyPress,
            detail: 39,
            root: 0x100,
            window: 0x500,
            root_x: 0,
            root_y: 0,
            event_x: 0,
            event_y: 0,
        }]
    );
    let up = inj.plan(WINDOW, &InputEvent::Keyup { key: "KeyS".to_string() });
    assert_eq!(up.events.len(), 1);
    assert_eq!(up.events[0].kind, XEventKind::KeyRelease);
    assert_eq!(up.events[0].detail, 39);
}

#[test]
fn unmapped_keys_send_nothing_but_flush() {
    let inj = injector();
    let unknown = inj.plan(WINDOW, &InputEvent::Keydown { key: "Numpad5".to_string() });
    assert!(unknown.events.is_empty());
    assert!(unknown.flush);
    let not_in_layout = inj.plan(WINDOW, &InputEvent::Keydown { key: "KeyZ".to_string() });
    assert!(not_in_layout.events.is_empty());
    assert!(not_in_layout.flush);
}

#[test]
fn mouse_down_moves_then_presses_next_button() {
    let inj = injector();
    let plan = inj.plan(WINDOW, &InputEvent::Mousedown { button: 0, x: 5, y: 6 });
    assert!(plan.flush);
    assert_eq!(plan.events.len(), 2);
    let (m, b) = (plan.events[0], plan.events[1]);
    assert_eq!(m.kind, XEventKind::MotionNotify);
    assert_eq!((m.event_x, m.event_y, m.root_x, m.root_y), (5, 6, 15, 26));
    assert_eq!(b.kind, XEventKind::ButtonPress);
    assert_eq!(b.detail, 1);
    assert_eq!((b.event_x, b.event_y, b.root_x, b.root_y), (5, 6, 15, 26));
}

#[test]
fn mouse_up_releases_next_button() {
    let inj = injector();
    let plan = inj.plan(WINDOW, &InputEvent::Mouseup { button: 2, x: -3, y: 0 });
    assert_eq!(plan.events.len(), 1);
    assert_eq!(plan.events[0].kind, XEventKind::ButtonRelease);
    assert_eq!(plan.events[0].detail, 3);
    assert_eq!((plan.events[0].root_x, plan.events[0].root_y), (7, 20));
}

#[test]
fn mouse_move_is_motion() {
    let inj = injector();
    let plan = inj.plan(WINDOW, &InputEvent::Mousemove { x: 100, y: 200 });
    assert_eq!(plan.events.len(), 1);
    assert_eq!(plan.events[0].kind, XEventKind::MotionNotify);
    assert_eq!(plan.events[0].detail, 0);
    assert_eq!((plan.events[0].root_x, plan.events[0].root_y), (110, 220));
}

#[test]
fn deltas_and_lock_changes_inject_nothing() {
    let inj = injector();
    for ev in [InputEvent::Mousedelta { dx: 3, dy: 4 }, InputEvent::Lock, InputEvent::Unlock] {
        let plan = inj.plan(WINDOW, &ev);
        assert!(plan.events.is_empty());
        assert!(!plan.flush);
    }
}

#[test]
fn overflowing_positions_do_not_fit() {
    let far = WindowState { xid: 1, x: 32000, y: 0 };
    assert!(!event_fits_window(&far, &InputEvent::Mousemove { x: 1000, y: 0 }));
    assert!(event_fits_window(&far, &InputEvent::Mousemove { x: 767, y: 0 }));
    assert!(!event_fits_window(&WINDOW, &InputEvent::Mousedown { button: 255, x: 0, y: 0 }));
    assert!(event_fits_window(&far, &InputEvent::Keydown { key: "KeyA".to_string() }));
}

#[test]
fn injection_uses_cache_then_lookup() {
    let mut inj = injector();
    let ev = InputEvent::Mousemove { x: 1, y: 2 };
    assert_eq!(inj.cached_window(), None);
    assert!(matches!(inj.start_injection(&ev), InjectStep::LocateWindow));
    assert!(matches!(inj.window_located(None, &ev), InjectStep::Skip));
    assert_eq!(inj.cached_window(), None);
    match inj.window_located(Some(WINDOW), &ev) {
        InjectStep::Send(plan) => {
            assert_eq!(plan.events.len(), 1);
            assert_eq!((plan.events[0].root_x, plan.events[0].root_y), (11, 22));
        }
        _ => panic!("expected a plan"),
    }
    assert_eq!(inj.cached_window(), Some(WINDOW));
    match inj.start_injection(&InputEvent::Lock) {
        InjectStep::Send(plan) => assert!(plan.events.is_empty() && !plan.flush),
        _ => panic!("expected a plan"),
    }
    inj.injection_failed();
    assert_eq!(inj.cached_window(), None);
    assert!(matches!(inj.start_injection(&ev), InjectStep::LocateWindow));
}

#[test]
fn event_masks() {
    assert_eq!(XEventKind::KeyPress.event_mask(), 1);
    assert_eq!(XEventKind::KeyRelease.event_mask(), 2);
    assert_eq!(XEventKind::ButtonPress.event_mask(), 4);
    assert_eq!(XEventKind::ButtonRelease.event_mask(), 8);
    assert_eq!(XEventKind::MotionNotify.event_mask(), 64);
}

#[test]
fn window_search_takes_first_match() {
    let mut s = WindowSearch::new(vec![10, 20, 30, 40]);
    assert_eq!(s.step(), SearchStep::ReadNetName(10));
    s.on_title("Terminal");
    assert_eq!(s.step(), SearchStep::ReadNetName(20));
    s.on_title("");
    assert_eq!(s.step(), SearchStep::ReadWmName(20));
    s.on_title("Roblox Studio");
    assert_eq!(s.step(), SearchStep::Found(20));
}

#[test]
fn window_search_uses_wm_name_only_when_net_name_empty() {
    let mut s = WindowSearch::new(vec![1, 2]);
    s.on_title("");
    assert_eq!(s.step(), SearchStep::ReadWmName(1));
    s.on_title("");
    assert_eq!(s.step(), SearchStep::ReadNetName(2));
    s.on_title("Editor");
    assert_eq!(s.step(), SearchStep::NotFound);
    let empty = WindowSearch::new(vec![]);
    assert_eq!(empty.step(), SearchStep::NotFound);
}

#[test]
fn wire_bytes_follow_core_layout() {
    let inj = injector();
    let plan = inj.plan(WINDOW, &InputEvent::Mousedown { button: 0, x: 5, y: -6 });
    let motion = plan.events[0].wire_bytes();
    assert_eq!(motion[0], MOTION_NOTIFY);
    assert_eq!(motion[1], 0);
    assert_eq!(u32::from_ne_bytes([motion[8], motion[9], motion[10], motion[11]]), 0x100);
    assert_eq!(u32::from_ne_bytes([motion[12], motion[13], motion[14], motion[15]]), 0x500);
    assert_eq!(i16::from_ne_bytes([motion[20], motion[21]]), 15);
    assert_eq!(i16::from_ne_bytes([motion[22], motion[23]]), 14);
    assert_eq!(i16::from_ne_bytes([motion[24], motion[25]]), 5);
    assert_eq!(i16::from_ne_bytes([motion[26], motion[27]]), -6);
    assert_eq!(&motion[30..32], &[1, 0]);
    let press = plan.events[1].wire_bytes();
    assert_eq!(press[0], BUTTON_PRESS);
    assert_eq!(press[1], 1);
    let key = inj.plan(WINDOW, &InputEvent::Keydown { key: "KeyA".to_string() });
    let bytes = key.events[0].wire_bytes();
    assert_eq!(bytes[0], KEY_PRESS);
    assert_eq!(bytes[1], 38);
    assert!(bytes[2..8].iter().all(|b| *b == 0));
    assert!(bytes[16..20].iter().all(|b| *b == 0));
}

#[test]
fn target_title_contains_marker() {
    assert!(is_target_title("Roblox"));
    assert!(is_target_title("Place1 - Roblox Studio"));
    assert!(is_target_title("ééRobloxéé"));
    assert!(!is_target_title("roblox studio"));
    assert!(!is_target_title("Robl"));
    assert!(!is_target_title(""));
    assert!(!is_target_title("Robloz Studio"));
}

#[test]
fn probe_takes_last_matching_window() {
    let windows = vec![1, 2, 3, 4];
    let titles: Vec<String> =
        ["Roblox Studio", "Terminal", "Place - Roblox", "Files"].iter().map(|s| s.to_string()).collect();
    assert_eq!(last_target_window(&windows, &titles), Some(3));
    let none: Vec<String> = ["a", "b", "c", "d"].iter().map(|s| s.to_string()).collect();
    assert_eq!(last_target_window(&windows, &none), None);
    assert_eq!(last_target_window(&vec![], &vec![]), None);
}

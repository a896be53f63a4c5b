//! Planning of the synthetic X11 events that carry browser input into the
//! captured window, and their wire encoding.
use std::collections::HashMap;
use vstd::prelude::*;
use x11rb::protocol::xproto::{ButtonPressEvent, KeyPressEvent, Motion, MotionNotifyEvent};
use x11rb::x11_utils::Serialize;

use crate::frame::{be_u16, be_u32};
use crate::keys::{browser_code_to_keysym, spec_keysym};

verus! {

broadcast use vstd::std_specs::hash::group_hash_axioms;

/// X11 event code of a key press.
pub const KEY_PRESS: u8 = 2;

/// X11 event code of a key release.
pub const KEY_RELEASE: u8 = 3;

/// X11 event code of a button press.
pub const BUTTON_PRESS: u8 = 4;

/// X11 event code of a button release.
pub const BUTTON_RELEASE: u8 = 5;

/// X11 event code of pointer motion.
pub const MOTION_NOTIFY: u8 = 6;

/// A browser input event, with pointer positions in whole pixels of the window.
pub enum InputEvent {
    Keydown { key: String },
    Keyup { key: String },
    Mousemove { x: i16, y: i16 },
    Mousedelta { dx: i16, dy: i16 },
    Mousedown { button: u8, x: i16, y: i16 },
    Mouseup { button: u8, x: i16, y: i16 },
    /// The viewer acquired pointer lock.
    Lock,
    /// The viewer released pointer lock.
    Unlock,
}

/// The kinds of X11 event that injection sends.
#[derive(PartialEq, Eq, Structural, Clone, Copy, Debug)]
pub enum XEventKind {
    KeyPress,
    KeyRelease,
    ButtonPress,
    ButtonRelease,
    MotionNotify,
}

/// A synthetic X11 input event addressed to `window`: `detail` is the keycode,
/// the button or the motion detail; time, child window, modifier state and
/// sequence number are zero, and the event is on the same screen.
#[derive(PartialEq, Eq, Structural, Clone, Copy, Debug)]
pub struct XEvent {
    pub kind: XEventKind,
    pub detail: u8,
    pub root: u32,
    pub window: u32,
    pub root_x: i16,
    pub root_y: i16,
    pub event_x: i16,
    pub event_y: i16,
}

/// The target window and the root-window position of its origin.
#[derive(PartialEq, Eq, Structural, Clone, Copy, Debug)]
pub struct WindowState {
    pub xid: u32,
    pub x: i16,
    pub y: i16,
}

/// The events to send for one input event, and whether the connection is
/// flushed afterwards.
pub struct InjectionPlan {
    pub events: Vec<XEvent>,
    pub flush: bool,
}

/// What injecting one input event needs next.
pub enum InjectStep {
    /// No target window is cached: look it up, then call `window_located`.
    LocateWindow,
    /// Send these events, then flush when the plan says so.
    Send(InjectionPlan),
    /// No target window exists: nothing is sent.
    Skip,
}

/// Injection state: the root window, the cached target window (dropped when an
/// injection fails) and the keysym-to-keycode map of the keyboard layout.
pub struct Injector {
    pub root: u32,
    pub cached: Option<WindowState>,
    pub keysym_to_keycode: HashMap<u32, u8>,
}

/// The event code of each kind.
pub open spec fn response_code(kind: XEventKind) -> u8 {
    match kind {
        XEventKind::KeyPress => KEY_PRESS,
        XEventKind::KeyRelease => KEY_RELEASE,
        XEventKind::ButtonPress => BUTTON_PRESS,
        XEventKind::ButtonRelease => BUTTON_RELEASE,
        XEventKind::MotionNotify => MOTION_NOTIFY,
    }
}

/// The two's-complement bit pattern of `v`.
pub open spec fn i16_bits(v: i16) -> u16 {
    ((v + 0x1_0000) % 0x1_0000) as u16
}

/// The two bytes of `v`, least significant first.
pub open spec fn le_u16(v: u16) -> Seq<u8> {
    seq![(v % 256) as u8, (v / 256) as u8]
}

/// The four bytes of `v`, least significant first.
pub open spec fn le_u32(v: u32) -> Seq<u8> {
    seq![
        (v % 256) as u8,
        ((v / 256) % 256) as u8,
        ((v / 0x1_0000) % 256) as u8,
        (v / 0x100_0000) as u8,
    ]
}

/// A 16-bit field in the given byte order.
pub open spec fn u16_field(big_endian: bool, v: u16) -> Seq<u8> {
    if big_endian {
        be_u16(v)
    } else {
        le_u16(v)
    }
}

/// A 32-bit field in the given byte order.
pub open spec fn u32_field(big_endian: bool, v: u32) -> Seq<u8> {
    if big_endian {
        be_u32(v)
    } else {
        le_u32(v)
    }
}

/// The 32 bytes of a core input event (key, button or motion) with multi-byte
/// fields in the given byte order.
pub open spec fn event_wire(
    big_endian: bool,
    response_type: u8,
    detail: u8,
    sequence: u16,
    time: u32,
    root: u32,
    event: u32,
    child: u32,
    root_x: i16,
    root_y: i16,
    event_x: i16,
    event_y: i16,
    state: u16,
    same_screen: bool,
) -> Seq<u8> {
    seq![response_type, detail] + u16_field(big_endian, sequence) + u32_field(big_endian, time)
        + u32_field(big_endian, root) + u32_field(big_endian, event) + u32_field(big_endian, child)
        + u16_field(big_endian, i16_bits(root_x)) + u16_field(big_endian, i16_bits(root_y))
        + u16_field(big_endian, i16_bits(event_x)) + u16_field(big_endian, i16_bits(event_y))
        + u16_field(big_endian, state) + seq![
        if same_screen {
            1u8
        } else {
            0u8
        },
        0u8,
    ]
}

/// The wire form of `ev` in the given byte order.
pub open spec fn x_event_wire(big_endian: bool, ev: XEvent) -> Seq<u8> {
    event_wire(
        big_endian,
        response_code(ev.kind),
        ev.detail,
        0,
        0,
        ev.root,
        ev.window,
        0,
        ev.root_x,
        ev.root_y,
        ev.event_x,
        ev.event_y,
        0,
        true,
    )
}

/// Serialises a key event with x11rb (`KeyPressEvent`, also the type of key
/// releases, and its `Serialize::serialize`). The contract claims the field
/// layout of the X11 core protocol, with the multi-byte fields in the byte order
/// of the machine, which it does not fix.
#[verifier::external_body]
fn key_event_bytes(
    response_type: u8,
    detail: u8,
    sequence: u16,
    time: u32,
    root: u32,
    event: u32,
    child: u32,
    root_x: i16,
    root_y: i16,
    event_x: i16,
    event_y: i16,
    state: u16,
    same_screen: bool,
) -> (bytes: [u8; 32])
    ensures
        bytes@ == event_wire(true, response_type, detail, sequence, time, root, event, child, root_x, root_y, event_x, event_y, state, same_screen)
            || bytes@ == event_wire(false, response_type, detail, sequence, time, root, event, child, root_x, root_y, event_x, event_y, state, same_screen),
{
    let state = state.into();
    KeyPressEvent {
        response_type, detail, sequence, time, root, event, child,
        root_x, root_y, event_x, event_y, state, same_screen,
    }.serialize()
}

/// Serialises a button event with x11rb (`ButtonPressEvent`, also the type of
/// button releases, and its `Serialize::serialize`). The contract claims the field
/// layout of the X11 core protocol, with the multi-byte fields in the byte order
/// of the machine, which it does not fix.
#[verifier::external_body]
fn button_event_bytes(
    response_type: u8,
    detail: u8,
    sequence: u16,
    time: u32,
    root: u32,
    event: u32,
    child: u32,
    root_x: i16,
    root_y: i16,
    event_x: i16,
    event_y: i16,
    state: u16,
    same_screen: bool,
) -> (bytes: [u8; 32])
    ensures
        bytes@ == event_wire(true, response_type, detail, sequence, time, root, event, child, root_x, root_y, event_x, event_y, state, same_screen)
            || bytes@ == event_wire(false, response_type, detail, sequence, time, root, event, child, root_x, root_y, event_x, event_y, state, same_screen),
{
    let state = state.into();
    ButtonPressEvent {
        response_type, detail, sequence, time, root, event, child,
        root_x, root_y, event_x, event_y, state, same_screen,
    }.serialize()
}

/// Serialises a pointer-motion event with x11rb (`MotionNotifyEvent` and its
/// `Serialize::serialize`; the detail byte is the `Motion` value). The contract
/// claims the field layout of the X11 core protocol, with the multi-byte fields
/// in the byte order of the machine, which it does not fix.
#[verifier::external_body]
fn motion_event_bytes(
    response_type: u8,
    detail: u8,
    sequence: u16,
    time: u32,
    root: u32,
    event: u32,
    child: u32,
    root_x: i16,
    root_y: i16,
    event_x: i16,
    event_y: i16,
    state: u16,
    same_screen: bool,
) -> (bytes: [u8; 32])
    ensures
        bytes@ == event_wire(true, response_type, detail, sequence, time, root, event, child, root_x, root_y, event_x, event_y, state, same_screen)
            || bytes@ == event_wire(false, response_type, detail, sequence, time, root, event, child, root_x, root_y, event_x, event_y, state, same_screen),
{
    let (detail, state) = (Motion::from(detail), state.into());
    MotionNotifyEvent {
        response_type, detail, sequence, time, root, event, child,
        root_x, root_y, event_x, event_y, state, same_screen,
    }.serialize()
}

impl XEvent {
    /// The 32-byte wire form of the event, as `send_event` carries it.
    pub fn wire_bytes(&self) -> (bytes: [u8; 32])
        ensures
            bytes@ == x_event_wire(true, *self) || bytes@ == x_event_wire(false, *self),
            decodes_to(bytes@, true, *self) || decodes_to(bytes@, false, *self),
    {
        let e = *self;
        proof {
            lemma_wire_decodes(true, e);
            lemma_wire_decodes(false, e);
        }
        match e.kind {
            XEventKind::KeyPress => key_event_bytes(
                KEY_PRESS, e.detail, 0, 0, e.root, e.window, 0,
                e.root_x, e.root_y, e.event_x, e.event_y, 0, true,
            ),
            XEventKind::KeyRelease => key_event_bytes(
                KEY_RELEASE, e.detail, 0, 0, e.root, e.window, 0,
                e.root_x, e.root_y, e.event_x, e.event_y, 0, true,
            ),
            XEventKind::ButtonPress => button_event_bytes(
                BUTTON_PRESS, e.detail, 0, 0, e.root, e.window, 0,
                e.root_x, e.root_y, e.event_x, e.event_y, 0, true,
            ),
            XEventKind::ButtonRelease => button_event_bytes(
                BUTTON_RELEASE, e.detail, 0, 0, e.root, e.window, 0,
                e.root_x, e.root_y, e.event_x, e.event_y, 0, true,
            ),
            XEventKind::MotionNotify => motion_event_bytes(
                MOTION_NOTIFY, e.detail, 0, 0, e.root, e.window, 0,
                e.root_x, e.root_y, e.event_x, e.event_y, 0, true,
            ),
        }
    }
}


/// `v` is a 16-bit signed value.
pub open spec fn in_i16(v: int) -> bool {
    i16::MIN <= v <= i16::MAX
}

/// The key event for the browser code `code`: `None` when the code is not in the
/// key table or the layout has no keycode for its keysym.
pub open spec fn spec_key_event(
    root: u32,
    keymap: Map<u32, u8>,
    xid: u32,
    code: Seq<char>,
    press: bool,
) -> Option<XEvent> {
    match spec_keysym(code) {
        Some(sym) => if keymap.contains_key(sym) {
            Some(
                XEvent {
                    kind: if press {
                        XEventKind::KeyPress
                    } else {
                        XEventKind::KeyRelease
                    },
                    detail: keymap[sym],
                    root,
                    window: xid,
                    root_x: 0,
                    root_y: 0,
                    event_x: 0,
                    event_y: 0,
                },
            )
        } else {
            None
        },
        None => None,
    }
}

/// A pointer-motion event at window position (`ex`, `ey`), root position (`rx`, `ry`).
pub open spec fn motion_event(root: u32, xid: u32, ex: i16, ey: i16, rx: i16, ry: i16) -> XEvent {
    XEvent {
        kind: XEventKind::MotionNotify,
        detail: 0,
        root,
        window: xid,
        root_x: rx,
        root_y: ry,
        event_x: ex,
        event_y: ey,
    }
}

/// A press or release of the X11 button `button` at the given positions.
pub open spec fn button_event(
    root: u32,
    xid: u32,
    button: u8,
    ex: i16,
    ey: i16,
    rx: i16,
    ry: i16,
    press: bool,
) -> XEvent {
    XEvent {
        kind: if press {
            XEventKind::ButtonPress
        } else {
            XEventKind::ButtonRelease
        },
        detail: button,
        root,
        window: xid,
        root_x: rx,
        root_y: ry,
        event_x: ex,
        event_y: ey,
    }
}

/// The event's pointer position, moved by the window's origin, is a 16-bit root
/// position, and its browser button number has an X11 button number one above it.
pub open spec fn event_fits(window: WindowState, event: InputEvent) -> bool {
    match event {
        InputEvent::Mousemove { x, y } => in_i16(window.x + x) && in_i16(window.y + y),
        InputEvent::Mousedown { button, x, y } => button < 255 && in_i16(window.x + x) && in_i16(
            window.y + y,
        ),
        InputEvent::Mouseup { button, x, y } => button < 255 && in_i16(window.x + x) && in_i16(
            window.y + y,
        ),
        _ => true,
    }
}

/// The optional event as a sequence of zero or one events.
pub open spec fn optional_event(e: Option<XEvent>) -> Seq<XEvent> {
    match e {
        Some(ev) => seq![ev],
        None => Seq::empty(),
    }
}

/// The events injected for `event` into the window `window`, and whether the
/// connection is flushed: keys become a key press or release of the layout's
/// keycode; pointer positions are window positions, with root positions moved by
/// the window's origin; a button press is preceded by motion to the click site,
/// and browser button `b` is X11 button `b + 1`. Pointer deltas and pointer
/// lock changes inject nothing and flush nothing.
pub open spec fn spec_plan(
    root: u32,
    keymap: Map<u32, u8>,
    window: WindowState,
    event: InputEvent,
) -> (Seq<XEvent>, bool) {
    let xid = window.xid;
    match event {
        InputEvent::Keydown { key } => (
            optional_event(spec_key_event(root, keymap, xid, key@, true)),
            true,
        ),
        InputEvent::Keyup { key } => (
            optional_event(spec_key_event(root, keymap, xid, key@, false)),
            true,
        ),
        InputEvent::Mousemove { x, y } => (
            seq![motion_event(root, xid, x, y, (window.x + x) as i16, (window.y + y) as i16)],
            true,
        ),
        InputEvent::Mousedown { button, x, y } => (
            seq![
                motion_event(root, xid, x, y, (window.x + x) as i16, (window.y + y) as i16),
                button_event(
                    root,
                    xid,
                    (button + 1) as u8,
                    x,
                    y,
                    (window.x + x) as i16,
                    (window.y + y) as i16,
                    true,
                ),
            ],
            true,
        ),
        InputEvent::Mouseup { button, x, y } => (
            seq![
                button_event(
                    root,
                    xid,
                    (button + 1) as u8,
                    x,
                    y,
                    (window.x + x) as i16,
                    (window.y + y) as i16,
                    false,
                ),
            ],
            true,
        ),
        _ => (Seq::empty(), false),
    }
}

/// Whether `event` can be injected into `window` without overflowing a
/// coordinate or button number.
pub fn event_fits_window(window: &WindowState, event: &InputEvent) -> (fits: bool)
    ensures
        fits == event_fits(*window, *event),
{
    let wx = window.x as i32;
    let wy = window.y as i32;
    match event {
        InputEvent::Mousemove { x, y } => fits_i16(wx + *x as i32) && fits_i16(wy + *y as i32),
        InputEvent::Mousedown { button, x, y } => *button < 255 && fits_i16(wx + *x as i32)
            && fits_i16(wy + *y as i32),
        InputEvent::Mouseup { button, x, y } => *button < 255 && fits_i16(wx + *x as i32)
            && fits_i16(wy + *y as i32),
        _ => true,
    }
}

fn fits_i16(v: i32) -> (fits: bool)
    ensures
        fits == in_i16(v as int),
{
    -32768 <= v && v <= 32767
}

impl Injector {
    /// An injector for the screen with root window `root` and the given keyboard
    /// map, with no target window found yet.
    pub fn new(root: u32, keysym_to_keycode: HashMap<u32, u8>) -> (inj: Self)
        ensures
            inj.root == root,
            inj.cached is None,
            inj.keysym_to_keycode@ == keysym_to_keycode@,
    {
        Injector { root, cached: None, keysym_to_keycode }
    }

    /// The cached target window, if any.
    pub fn cached_window(&self) -> (w: Option<WindowState>)
        ensures
            w == self.cached,
    {
        self.cached
    }

    /// Starts injecting `event`: with a cached target window its events are
    /// planned at once; without one, the window must be located first.
    pub fn start_injection(&self, event: &InputEvent) -> (step: InjectStep)
        requires
            self.cached matches Some(w) ==> event_fits(w, *event),
        ensures
            match self.cached {
                Some(w) => step matches InjectStep::Send(p) && (p.events@, p.flush) == spec_plan(
                    self.root,
                    self.keysym_to_keycode@,
                    w,
                    *event,
                ),
                None => step is LocateWindow,
            },
    {
        match self.cached {
            Some(w) => InjectStep::Send(self.plan(w, event)),
            None => InjectStep::LocateWindow,
        }
    }

    /// Continues an injection after the window lookup: a window that was found
    /// is cached and the event's events are planned for it; when none was found
    /// the event is dropped and nothing is sent.
    pub fn window_located(&mut self, found: Option<WindowState>, event: &InputEvent) -> (step:
        InjectStep)
        requires
            found matches Some(w) ==> event_fits(w, *event),
        ensures
            final(self).root == old(self).root,
            final(self).keysym_to_keycode@ == old(self).keysym_to_keycode@,
            match found {
                Some(w) => {
                    &&& final(self).cached == Some(w)
                    &&& step matches InjectStep::Send(p) && (p.events@, p.flush) == spec_plan(
                        old(self).root,
                        old(self).keysym_to_keycode@,
                        w,
                        *event,
                    )
                },
                None => final(self).cached == old(self).cached && step is Skip,
            },
    {
        match found {
            Some(w) => {
                self.cached = Some(w);
                InjectStep::Send(self.plan(w, event))
            },
            None => InjectStep::Skip,
        }
    }

    /// Records that locating the window or sending an event failed: the cached
    /// target window is dropped, so that the next event looks it up again.
    pub fn injection_failed(&mut self)
        ensures
            final(self).cached is None,
            final(self).root == old(self).root,
            final(self).keysym_to_keycode@ == old(self).keysym_to_keycode@,
    {
        self.cached = None;
    }

    /// The key event for the browser code `code` sent to window `xid`.
    pub fn key_event(&self, xid: u32, code: &str, press: bool) -> (ev: Option<XEvent>)
        ensures
            ev == spec_key_event(self.root, self.keysym_to_keycode@, xid, code@, press),
    {
        let keysym = match browser_code_to_keysym(code) {
            Some(k) => k,
            None => return None,
        };
        let keycode = match self.keysym_to_keycode.get(&keysym) {
            Some(k) => *k,
            None => return None,
        };
        let kind = if press {
            XEventKind::KeyPress
        } else {
            XEventKind::KeyRelease
        };
        Some(
            XEvent {
                kind,
                detail: keycode,
                root: self.root,
                window: xid,
                root_x: 0,
                root_y: 0,
                event_x: 0,
                event_y: 0,
            },
        )
    }

    /// Plans the events that inject `event` into the target window `window`.
    pub fn plan(&self, window: WindowState, event: &InputEvent) -> (plan: InjectionPlan)
        requires
            event_fits(window, *event),
        ensures
            (plan.events@, plan.flush) == spec_plan(
                self.root,
                self.keysym_to_keycode@,
                window,
                *event,
            ),
    {
        let xid = window.xid;
        let root = self.root;
        let mut events: Vec<XEvent> = Vec::new();
        match event {
            InputEvent::Keydown { key } => {
                if let Some(ev) = self.key_event(xid, key.as_str(), true) {
                    events.push(ev);
                }
                proof {
                    assert(events@ =~= optional_event(
                        spec_key_event(root, self.keysym_to_keycode@, xid, key@, true),
                    ));
                }
                InjectionPlan { events, flush: true }
            },
            InputEvent::Keyup { key } => {
                if let Some(ev) = self.key_event(xid, key.as_str(), false) {
                    events.push(ev);
                }
                proof {
                    assert(events@ =~= optional_event(
                        spec_key_event(root, self.keysym_to_keycode@, xid, key@, false),
                    ));
                }
                InjectionPlan { events, flush: true }
            },
            InputEvent::Mousemove { x, y } => {
                let (ex, ey) = (*x, *y);
                let (rx, ry) = (window.x + ex, window.y + ey);
                events.push(
                    XEvent {
                        kind: XEventKind::MotionNotify,
                        detail: 0,
                        root,
                        window: xid,
                        root_x: rx,
                        root_y: ry,
                        event_x: ex,
                        event_y: ey,
                    },
                );
                proof {
                    assert(events@ =~= seq![motion_event(root, xid, ex, ey, rx, ry)]);
                }
                InjectionPlan { events, flush: true }
            },
            InputEvent::Mousedown { button, x, y } => {
                let (ex, ey) = (*x, *y);
                let (rx, ry) = (window.x + ex, window.y + ey);
                events.push(
                    XEvent {
                        kind: XEventKind::MotionNotify,
                        detail: 0,
                        root,
                        window: xid,
                        root_x: rx,
                        root_y: ry,
                        event_x: ex,
                        event_y: ey,
                    },
                );
                events.push(
                    XEvent {
                        kind: XEventKind::ButtonPress,
                        detail: *button + 1,
                        root,
                        window: xid,
                        root_x: rx,
                        root_y: ry,
                        event_x: ex,
                        event_y: ey,
                    },
                );
                proof {
                    assert(events@ =~= seq![
                        motion_event(root, xid, ex, ey, rx, ry),
                        button_event(root, xid, (*button + 1) as u8, ex, ey, rx, ry, true),
                    ]);
                }
                InjectionPlan { events, flush: true }
            },
            InputEvent::Mouseup { button, x, y } => {
                let (ex, ey) = (*x, *y);
                let (rx, ry) = (window.x + ex, window.y + ey);
                events.push(
                    XEvent {
                        kind: XEventKind::ButtonRelease,
                        detail: *button + 1,
                        root,
                        window: xid,
                        root_x: rx,
                        root_y: ry,
                        event_x: ex,
                        event_y: ey,
                    },
                );
                proof {
                    assert(events@ =~= seq![
                        button_event(root, xid, (*button + 1) as u8, ex, ey, rx, ry, false),
                    ]);
                }
                InjectionPlan { events, flush: true }
            },
            _ => {
                proof {
                    assert(events@ =~= Seq::<XEvent>::empty());
                }
                InjectionPlan { events, flush: false }
            },
        }
    }
}


/// In either byte order an event's wire form is 32 bytes that begin with its
/// event code and its detail and end with the same-screen flag and a pad byte.
pub proof fn lemma_wire_layout(big_endian: bool, ev: XEvent)
    ensures
        x_event_wire(big_endian, ev).len() == 32,
        x_event_wire(big_endian, ev)[0] == response_code(ev.kind),
        x_event_wire(big_endian, ev)[1] == ev.detail,
        x_event_wire(big_endian, ev)[30] == 1,
        x_event_wire(big_endian, ev)[31] == 0,
{
}

/// A button press is injected as motion to the click site followed by the press
/// of X11 button `b + 1` at the same window and root positions, both addressed
/// to the target window.
pub proof fn lemma_press_moves_first(
    root: u32,
    keymap: Map<u32, u8>,
    window: WindowState,
    button: u8,
    x: i16,
    y: i16,
)
    requires
        event_fits(window, InputEvent::Mousedown { button, x, y }),
    ensures
        ({
            let (events, flush) = spec_plan(
                root,
                keymap,
                window,
                InputEvent::Mousedown { button, x, y },
            );
            &&& flush
            &&& events.len() == 2
            &&& events[0].kind == XEventKind::MotionNotify
            &&& events[1].kind == XEventKind::ButtonPress
            &&& events[1].detail == button + 1
            &&& events[0].event_x == events[1].event_x == x
            &&& events[0].event_y == events[1].event_y == y
            &&& events[0].root_x == events[1].root_x == window.x + x
            &&& events[0].root_y == events[1].root_y == window.y + y
            &&& events[0].window == events[1].window == window.xid
        }),
{
}

/// A key's release is addressed exactly like its press: the same keycode, root
/// and window, or no event for either.
pub proof fn lemma_key_release_mirrors_press(
    root: u32,
    keymap: Map<u32, u8>,
    xid: u32,
    code: Seq<char>,
)
    ensures
        spec_key_event(root, keymap, xid, code, true) is Some <==> spec_key_event(
            root,
            keymap,
            xid,
            code,
            false,
        ) is Some,
        spec_key_event(root, keymap, xid, code, true) is Some ==> ({
            let p = spec_key_event(root, keymap, xid, code, true).unwrap();
            let r = spec_key_event(root, keymap, xid, code, false).unwrap();
            &&& p.kind == XEventKind::KeyPress
            &&& r.kind == XEventKind::KeyRelease
            &&& p.detail == r.detail
            &&& p.root == r.root == root
            &&& p.window == r.window == xid
        }),
{
}

/// Every event planned for an input event is addressed to the target window on
/// the injector's root window.
pub proof fn lemma_plan_targets_window(
    root: u32,
    keymap: Map<u32, u8>,
    window: WindowState,
    event: InputEvent,
)
    ensures
        forall|i: int|
            0 <= i < spec_plan(root, keymap, window, event).0.len() ==> {
                &&& #[trigger] spec_plan(root, keymap, window, event).0[i].window == window.xid
                &&& spec_plan(root, keymap, window, event).0[i].root == root
            },
{
}


/// Title text that marks the window that receives input.
pub open spec fn target_marker() -> Seq<char> {
    "Roblox"@
}

/// `title` contains `needle` as a contiguous run of characters.
pub open spec fn contains_run(title: Seq<char>, needle: Seq<char>) -> bool {
    exists|i: int| 0 <= i && i + needle.len() <= title.len() && #[trigger] title.subrange(i, i + needle.len()) == needle
}

/// Whether a window title names the window that receives input: it contains
/// `Roblox`.
pub fn is_target_title(title: &str) -> (found: bool)
    ensures
        found == contains_run(title@, target_marker()),
{
    let mut chars: Vec<char> = Vec::new();
    for c in it: title.chars()
        invariant
            chars@ == it.seq().take(it.index() as int),
    {
        chars.push(c);
    }
    proof {
        assert(chars@ =~= title@);
    }
    let needle = ['R', 'o', 'b', 'l', 'o', 'x'];
    proof {
        reveal_strlit("Roblox");
        assert(needle@ =~= target_marker());
    }
    let n = chars.len();
    if n < 6 {
        return false;
    }
    let mut i: usize = 0;
    while i <= n - 6
        invariant
            n == chars@.len(),
            n >= 6,
            i <= n - 5,
            needle@ == target_marker(),
            chars@ == title@,
            forall|j: int| 0 <= j < i ==> #[trigger] chars@.subrange(j, j + 6) != needle@,
        decreases n - i,
    {
        let mut k: usize = 0;
        while k < 6 && chars[i + k] == needle[k]
            invariant
                i + 6 <= n,
                n == chars@.len(),
                k <= 6,
                forall|m: int| 0 <= m < k ==> chars@[i + m] == needle@[m],
            decreases 6 - k,
        {
            k = k + 1;
        }
        if k == 6 {
            proof {
                assert(chars@.subrange(i as int, i + 6) =~= needle@);
            }
            return true;
        }
        proof {
            assert(chars@[i + k] != needle@[k as int]);
            assert(chars@.subrange(i as int, i + 6)[k as int] == chars@[i + k]);
        }
        i = i + 1;
    }
    proof {
        assert forall|j: int| 0 <= j && j + 6 <= title@.len() implies #[trigger] title@.subrange(j, j + 6) != target_marker() by {
            assert(j < i);
        }
    }
    false
}


/// Pointer deltas and pointer-lock changes are left to the plugin (camera
/// rotation): they inject no event and flush nothing.
pub proof fn lemma_camera_events_inject_nothing(
    root: u32,
    keymap: Map<u32, u8>,
    window: WindowState,
    event: InputEvent,
)
    requires
        event is Mousedelta || event is Lock || event is Unlock,
    ensures
        spec_plan(root, keymap, window, event).0.len() == 0,
        !spec_plan(root, keymap, window, event).1,
{
}


/// The X11 event mask bit that selects each kind of event for delivery.
pub open spec fn spec_event_mask(kind: XEventKind) -> u32 {
    match kind {
        XEventKind::KeyPress => 1,
        XEventKind::KeyRelease => 2,
        XEventKind::ButtonPress => 4,
        XEventKind::ButtonRelease => 8,
        XEventKind::MotionNotify => 64,
    }
}

impl XEventKind {
    /// The event mask `send_event` delivers this kind of event with: key press,
    /// key release, button press, button release or pointer motion.
    pub fn event_mask(&self) -> (mask: u32)
        ensures
            mask == spec_event_mask(*self),
    {
        match self {
            XEventKind::KeyPress => 1,
            XEventKind::KeyRelease => 2,
            XEventKind::ButtonPress => 4,
            XEventKind::ButtonRelease => 8,
            XEventKind::MotionNotify => 64,
        }
    }
}

/// The title a window is known by: its `_NET_WM_NAME`, or its `WM_NAME` when
/// that is empty.
pub open spec fn chosen_title(net_name: Seq<char>, wm_name: Seq<char>) -> Seq<char> {
    if net_name.len() > 0 {
        net_name
    } else {
        wm_name
    }
}

/// The first window from position `i` on whose title names the target window.
pub open spec fn first_target(
    windows: Seq<u32>,
    net_names: Seq<Seq<char>>,
    wm_names: Seq<Seq<char>>,
    i: int,
) -> Option<u32>
    decreases windows.len() - i,
{
    if i < 0 || i >= windows.len() {
        None
    } else if contains_run(chosen_title(net_names[i], wm_names[i]), target_marker()) {
        Some(windows[i])
    } else {
        first_target(windows, net_names, wm_names, i + 1)
    }
}

/// The first target is first: from position `i` on, none is found exactly when
/// no window's title (its `_NET_WM_NAME`, or its `WM_NAME` when that is empty)
/// contains `Roblox`, and the window found is one whose title does, with no
/// earlier window from `i` on whose title does.
pub proof fn lemma_first_target_is_first(
    windows: Seq<u32>,
    net_names: Seq<Seq<char>>,
    wm_names: Seq<Seq<char>>,
    i: int,
)
    requires
        0 <= i,
        net_names.len() == windows.len(),
        wm_names.len() == windows.len(),
    ensures
        first_target(windows, net_names, wm_names, i) is None <==> forall|j: int|
            i <= j < windows.len() ==> !contains_run(
                #[trigger] chosen_title(net_names[j], wm_names[j]),
                target_marker(),
            ),
        first_target(windows, net_names, wm_names, i) matches Some(x) ==> exists|j: int|
            i <= j < windows.len() && windows[j] == x && contains_run(
                #[trigger] chosen_title(net_names[j], wm_names[j]),
                target_marker(),
            ) && forall|k: int|
                i <= k < j ==> !contains_run(
                    #[trigger] chosen_title(net_names[k], wm_names[k]),
                    target_marker(),
                ),
    decreases windows.len() - i,
{
    if i < windows.len() {
        lemma_first_target_is_first(windows, net_names, wm_names, i + 1);
        if contains_run(chosen_title(net_names[i], wm_names[i]), target_marker()) {
            assert(!(forall|j: int|
                i <= j < windows.len() ==> !contains_run(
                    #[trigger] chosen_title(net_names[j], wm_names[j]),
                    target_marker(),
                )));
        } else if first_target(windows, net_names, wm_names, i + 1) is Some {
            let j = choose|j: int|
                i + 1 <= j < windows.len() && windows[j] == first_target(
                    windows,
                    net_names,
                    wm_names,
                    i + 1,
                ).unwrap() && contains_run(
                    #[trigger] chosen_title(net_names[j], wm_names[j]),
                    target_marker(),
                ) && forall|k: int|
                    i + 1 <= k < j ==> !contains_run(
                        #[trigger] chosen_title(net_names[k], wm_names[k]),
                        target_marker(),
                    );
            assert(!(forall|j: int|
                i <= j < windows.len() ==> !contains_run(
                    #[trigger] chosen_title(net_names[j], wm_names[j]),
                    target_marker(),
                )));
        }
    }
}

/// Where a search of the client windows stands: the next window to examine,
/// whether its `WM_NAME` is still to be read, and the window found.
#[derive(Clone, Copy, Debug)]
pub struct SearchState {
    pub next: usize,
    pub need_wm_name: bool,
    pub found: Option<u32>,
}

/// A search of the client windows for the target window, in list order.
pub struct WindowSearch {
    pub windows: Vec<u32>,
    pub state: SearchState,
}

/// What the search needs next.
#[derive(PartialEq, Eq, Structural, Clone, Copy, Debug)]
pub enum SearchStep {
    /// Read the `_NET_WM_NAME` of this window.
    ReadNetName(u32),
    /// Its `_NET_WM_NAME` is empty: read the `WM_NAME` of this window.
    ReadWmName(u32),
    /// The target window.
    Found(u32),
    /// No window is the target.
    NotFound,
}

/// The step that belongs to each state.
pub open spec fn spec_search_step(windows: Seq<u32>, st: SearchState) -> SearchStep {
    match st.found {
        Some(x) => SearchStep::Found(x),
        None => if st.next >= windows.len() {
            SearchStep::NotFound
        } else if st.need_wm_name {
            SearchStep::ReadWmName(windows[st.next as int])
        } else {
            SearchStep::ReadNetName(windows[st.next as int])
        },
    }
}

/// The state after reading the title asked for: an empty `_NET_WM_NAME` asks for
/// the `WM_NAME`; a title that names the target ends the search with this
/// window; any other title moves on to the next window.
pub open spec fn spec_after_title(windows: Seq<u32>, st: SearchState, title: Seq<char>) -> SearchState {
    if !st.need_wm_name && title.len() == 0 {
        SearchState { next: st.next, need_wm_name: true, found: None }
    } else if contains_run(title, target_marker()) {
        SearchState { next: st.next, need_wm_name: st.need_wm_name, found: Some(windows[st.next as int]) }
    } else {
        SearchState { next: (st.next + 1) as usize, need_wm_name: false, found: None }
    }
}

/// The window the search will end with, given the titles still to be read.
pub open spec fn pending_target(
    windows: Seq<u32>,
    net_names: Seq<Seq<char>>,
    wm_names: Seq<Seq<char>>,
    st: SearchState,
) -> Option<u32> {
    match st.found {
        Some(x) => Some(x),
        None => if st.need_wm_name && st.next < windows.len() {
            if contains_run(wm_names[st.next as int], target_marker()) {
                Some(windows[st.next as int])
            } else {
                first_target(windows, net_names, wm_names, st.next + 1)
            }
        } else {
            first_target(windows, net_names, wm_names, st.next as int)
        },
    }
}

impl WindowSearch {
    /// A search of `windows`, starting with the first.
    pub fn new(windows: Vec<u32>) -> (s: Self)
        ensures
            s.windows@ == windows@,
            s.state.next == 0,
            !s.state.need_wm_name,
            s.state.found is None,
    {
        WindowSearch { windows, state: SearchState { next: 0, need_wm_name: false, found: None } }
    }

    /// What the search needs next.
    pub fn step(&self) -> (step: SearchStep)
        ensures
            step == spec_search_step(self.windows@, self.state),
    {
        match self.state.found {
            Some(x) => SearchStep::Found(x),
            None => if self.state.next >= self.windows.len() {
                SearchStep::NotFound
            } else if self.state.need_wm_name {
                SearchStep::ReadWmName(self.windows[self.state.next])
            } else {
                SearchStep::ReadNetName(self.windows[self.state.next])
            },
        }
    }

    /// Records the title read for the current window.
    pub fn on_title(&mut self, title: &str)
        requires
            old(self).state.found is None,
            old(self).state.next < old(self).windows@.len(),
        ensures
            final(self).windows@ == old(self).windows@,
            final(self).state == spec_after_title(old(self).windows@, old(self).state, title@),
    {
        let st = self.state;
        let n = self.windows.len();
        if !st.need_wm_name && title.is_empty() {
            self.state = SearchState { next: st.next, need_wm_name: true, found: None };
        } else if is_target_title(title) {
            let x = self.windows[st.next];
            self.state = SearchState { next: st.next, need_wm_name: st.need_wm_name, found: Some(x) };
        } else {
            self.state = SearchState { next: st.next + 1, need_wm_name: false, found: None };
        }
    }
}

/// The search finds the first listed window whose title (its `_NET_WM_NAME`, or
/// its `WM_NAME` when that is empty) contains `Roblox`: at the start the
/// outcome is that window; reading the title each step asks for keeps the
/// outcome; and once the search stops, the window it reports is the outcome.
pub proof fn lemma_search_finds_first_target(
    windows: Seq<u32>,
    net_names: Seq<Seq<char>>,
    wm_names: Seq<Seq<char>>,
    st: SearchState,
    title: Seq<char>,
)
    requires
        windows.len() <= usize::MAX,
        net_names.len() == windows.len(),
        wm_names.len() == windows.len(),
    ensures
        pending_target(
            windows,
            net_names,
            wm_names,
            SearchState { next: 0, need_wm_name: false, found: None },
        ) == first_target(windows, net_names, wm_names, 0),
        st.found is None && st.next < windows.len() && (st.need_wm_name ==> net_names[st.next as int].len() == 0)
            && title == (if st.need_wm_name {
            wm_names[st.next as int]
        } else {
            net_names[st.next as int]
        }) ==> {
            let after = spec_after_title(windows, st, title);
            &&& pending_target(windows, net_names, wm_names, after) == pending_target(
                windows,
                net_names,
                wm_names,
                st,
            )
            &&& after.need_wm_name ==> net_names[after.next as int].len() == 0
        },
        spec_search_step(windows, st) matches SearchStep::Found(x) ==> pending_target(
            windows,
            net_names,
            wm_names,
            st,
        ) == Some(x),
        spec_search_step(windows, st) is NotFound ==> pending_target(
            windows,
            net_names,
            wm_names,
            st,
        ) is None,
{
    if st.found is None && st.next < windows.len() {
        let i = st.next as int;
        assert(first_target(windows, net_names, wm_names, i) == if contains_run(
            chosen_title(net_names[i], wm_names[i]),
            target_marker(),
        ) {
            Some(windows[i])
        } else {
            first_target(windows, net_names, wm_names, i + 1)
        });
        let after = spec_after_title(windows, st, title);
        if !st.need_wm_name && title.len() == 0 {
            assert(after.need_wm_name && after.next == st.next);
        } else if contains_run(title, target_marker()) {
            assert(after.found == Some(windows[i]));
        } else {
            assert(after.next == i + 1);
            assert(after.found is None && !after.need_wm_name);
        }
    }
}


/// The last listed window whose title contains `Roblox`.
pub open spec fn last_target(windows: Seq<u32>, titles: Seq<Seq<char>>) -> Option<u32>
    decreases windows.len(),
{
    if windows.len() == 0 || titles.len() == 0 {
        None
    } else if contains_run(titles.last(), target_marker()) {
        Some(windows.last())
    } else {
        last_target(windows.drop_last(), titles.drop_last())
    }
}

/// The window picked is the last that is a target: none is picked exactly when
/// no title contains `Roblox`, and the window picked is one whose title does,
/// with no later title that does.
pub proof fn lemma_last_target_is_last(windows: Seq<u32>, titles: Seq<Seq<char>>)
    requires
        windows.len() == titles.len(),
    ensures
        last_target(windows, titles) is None <==> forall|j: int|
            0 <= j < titles.len() ==> !contains_run(#[trigger] titles[j], target_marker()),
        last_target(windows, titles) matches Some(x) ==> exists|j: int|
            0 <= j < titles.len() && windows[j] == x && contains_run(
                #[trigger] titles[j],
                target_marker(),
            ) && forall|k: int|
                j < k < titles.len() ==> !contains_run(#[trigger] titles[k], target_marker()),
    decreases windows.len(),
{
    if windows.len() > 0 {
        let n = windows.len() - 1;
        let ws = windows.drop_last();
        let ts = titles.drop_last();
        lemma_last_target_is_last(ws, ts);
        assert forall|j: int| 0 <= j < ts.len() implies #[trigger] ts[j] == titles[j] by {}
        if contains_run(titles.last(), target_marker()) {
            assert(titles[n] == titles.last());
            assert(windows[n] == windows.last());
        } else {
            assert(titles[n] == titles.last());
            if last_target(ws, ts) is None {
                assert forall|j: int| 0 <= j < titles.len() implies !contains_run(
                    #[trigger] titles[j],
                    target_marker(),
                ) by {
                    if j < n {
                        assert(ts[j] == titles[j]);
                    }
                }
            } else {
                let j = choose|j: int|
                    0 <= j < ts.len() && ws[j] == last_target(ws, ts).unwrap() && contains_run(
                        #[trigger] ts[j],
                        target_marker(),
                    ) && forall|k: int|
                        j < k < ts.len() ==> !contains_run(#[trigger] ts[k], target_marker());
                assert(windows[j] == ws[j]);
                assert(titles[j] == ts[j]);
                assert forall|k: int| j < k < titles.len() implies !contains_run(
                    #[trigger] titles[k],
                    target_marker(),
                ) by {
                    if k < n {
                        assert(ts[k] == titles[k]);
                    }
                }
                assert(!(forall|j: int|
                    0 <= j < titles.len() ==> !contains_run(#[trigger] titles[j], target_marker())));
            }
        }
    }
}

/// Picks, among windows with the given titles, the last whose title contains
/// `Roblox`, as the capture probe does.
pub fn last_target_window(windows: &Vec<u32>, titles: &Vec<String>) -> (found: Option<u32>)
    requires
        windows@.len() == titles@.len(),
    ensures
        found == last_target(windows@, titles@.map_values(|t: String| t@)),
{
    let ghost views = titles@.map_values(|t: String| t@);
    let n = windows.len();
    let mut found: Option<u32> = None;
    let mut i: usize = 0;
    proof {
        assert(windows@.take(0) =~= Seq::<u32>::empty());
    }
    while i < n
        invariant
            n == windows@.len(),
            n == titles@.len(),
            views == titles@.map_values(|t: String| t@),
            i <= n,
            found == last_target(windows@.take(i as int), views.take(i as int)),
        decreases n - i,
    {
        let hit = is_target_title(titles[i].as_str());
        proof {
            let w = windows@.take(i + 1);
            let t = views.take(i + 1);
            assert(w.drop_last() =~= windows@.take(i as int));
            assert(t.drop_last() =~= views.take(i as int));
            assert(t.last() == titles@[i as int]@);
        }
        if hit {
            found = Some(windows[i]);
        }
        i = i + 1;
    }
    proof {
        assert(windows@.take(n as int) =~= windows@);
        assert(views.take(n as int) =~= views);
    }
    found
}


/// A 16-bit two's-complement value read from `bytes` at `at` in the given byte
/// order.
pub open spec fn read_i16(bytes: Seq<u8>, at: int, big_endian: bool) -> int {
    let u: int = if big_endian {
        bytes[at] * 256 + bytes[at + 1]
    } else {
        bytes[at + 1] * 256 + bytes[at]
    };
    if u >= 0x8000 {
        u - 0x1_0000
    } else {
        u
    }
}

/// A 32-bit unsigned value read from `bytes` at `at` in the given byte order.
pub open spec fn read_u32(bytes: Seq<u8>, at: int, big_endian: bool) -> int {
    if big_endian {
        ((bytes[at] * 256 + bytes[at + 1]) * 256 + bytes[at + 2]) * 256 + bytes[at + 3]
    } else {
        ((bytes[at + 3] * 256 + bytes[at + 2]) * 256 + bytes[at + 1]) * 256 + bytes[at]
    }
}

/// What an X server reads back from the 32 bytes of a core input event, with
/// multi-byte fields in the given byte order: the event code, the detail, the
/// root and event windows at bytes 8 and 12, the root position at bytes 20 and
/// 22 and the position in the window at bytes 24 and 26; the sequence number,
/// the time (`CurrentTime`), the child window and the modifier state are zero and
/// the same-screen flag is set.
pub open spec fn decodes_to(bytes: Seq<u8>, big_endian: bool, ev: XEvent) -> bool {
    &&& bytes.len() == 32
    &&& bytes[0] == response_code(ev.kind)
    &&& bytes[1] == ev.detail
    &&& read_u32(bytes, 8, big_endian) == ev.root
    &&& read_u32(bytes, 12, big_endian) == ev.window
    &&& read_i16(bytes, 20, big_endian) == ev.root_x
    &&& read_i16(bytes, 22, big_endian) == ev.root_y
    &&& read_i16(bytes, 24, big_endian) == ev.event_x
    &&& read_i16(bytes, 26, big_endian) == ev.event_y
    &&& read_i16(bytes, 2, big_endian) == 0
    &&& read_u32(bytes, 4, big_endian) == 0
    &&& read_u32(bytes, 16, big_endian) == 0
    &&& read_i16(bytes, 28, big_endian) == 0
    &&& bytes[30] == 1
}

proof fn lemma_i16_field(big_endian: bool, v: i16)
    ensures
        read_i16(u16_field(big_endian, i16_bits(v)), 0, big_endian) == v,
        u16_field(big_endian, i16_bits(v)).len() == 2,
{
    let u = i16_bits(v);
    assert(u as int == (v + 0x1_0000) % 0x1_0000);
    assert((u / 256) * 256 + u % 256 == u);
}

proof fn lemma_u32_field(big_endian: bool, v: u32)
    ensures
        read_u32(u32_field(big_endian, v), 0, big_endian) == v,
        u32_field(big_endian, v).len() == 4,
{
    let a = v / 0x100_0000;
    let b = (v / 0x1_0000) % 256;
    let c = (v / 256) % 256;
    let d = v % 256;
    assert(((a * 256 + b) * 256 + c) * 256 + d == v);
}

/// Whatever the byte order, an event's wire form decodes to the event: its
/// code, detail, root and target windows, root position and window position
/// each come back from the bytes the X11 core protocol assigns them.
pub proof fn lemma_wire_decodes(big_endian: bool, ev: XEvent)
    ensures
        decodes_to(x_event_wire(big_endian, ev), big_endian, ev),
{
    let w = x_event_wire(big_endian, ev);
    let head = seq![response_code(ev.kind), ev.detail];
    let seqf = u16_field(big_endian, 0);
    let time = u32_field(big_endian, 0);
    let root = u32_field(big_endian, ev.root);
    let win = u32_field(big_endian, ev.window);
    let child = u32_field(big_endian, 0);
    let rx = u16_field(big_endian, i16_bits(ev.root_x));
    let ry = u16_field(big_endian, i16_bits(ev.root_y));
    let ex = u16_field(big_endian, i16_bits(ev.event_x));
    let ey = u16_field(big_endian, i16_bits(ev.event_y));
    let st = u16_field(big_endian, 0);
    let tail = seq![1u8, 0u8];
    lemma_u32_field(big_endian, ev.root);
    lemma_u32_field(big_endian, ev.window);
    lemma_u32_field(big_endian, 0);
    lemma_i16_field(big_endian, ev.root_x);
    lemma_i16_field(big_endian, ev.root_y);
    lemma_i16_field(big_endian, ev.event_x);
    lemma_i16_field(big_endian, ev.event_y);
    assert(seqf.len() == 2 && st.len() == 2);
    assert(w =~= head + seqf + time + root + win + child + rx + ry + ex + ey + st + tail);
    assert(w.subrange(8, 12) =~= root);
    assert(w.subrange(12, 16) =~= win);
    assert(w.subrange(20, 22) =~= rx);
    assert(w.subrange(22, 24) =~= ry);
    assert(w.subrange(24, 26) =~= ex);
    assert(w.subrange(26, 28) =~= ey);
    assert(read_u32(w, 8, big_endian) == read_u32(root, 0, big_endian));
    assert(read_u32(w, 12, big_endian) == read_u32(win, 0, big_endian));
    assert(read_i16(w, 20, big_endian) == read_i16(rx, 0, big_endian));
    assert(read_i16(w, 22, big_endian) == read_i16(ry, 0, big_endian));
    assert(read_i16(w, 24, big_endian) == read_i16(ex, 0, big_endian));
    assert(read_i16(w, 26, big_endian) == read_i16(ey, 0, big_endian));
    assert(w.subrange(2, 4) =~= seqf);
    assert(w.subrange(4, 8) =~= time);
    assert(w.subrange(16, 20) =~= child);
    assert(w.subrange(28, 30) =~= st);
    assert(read_i16(w, 2, big_endian) == read_i16(seqf, 0, big_endian));
    assert(read_u32(w, 4, big_endian) == read_u32(time, 0, big_endian));
    assert(read_u32(w, 16, big_endian) == read_u32(child, 0, big_endian));
    assert(read_i16(w, 28, big_endian) == read_i16(st, 0, big_endian));
}


/// Pointer events land where the pointer is: a move is one motion event and a
/// release one button-release event of X11 button `b + 1`, each at the input's
/// position in the window and at that position moved by the window's origin on
/// the root window; every pointer event planned lies at its window position
/// moved by the window's origin.
pub proof fn lemma_pointer_positions(
    root: u32,
    keymap: Map<u32, u8>,
    window: WindowState,
    event: InputEvent,
)
    requires
        event_fits(window, event),
    ensures
        ({
            let (events, flush) = spec_plan(root, keymap, window, event);
            &&& event matches InputEvent::Mousemove { x, y } ==> {
                &&& flush
                &&& events.len() == 1
                &&& events[0].kind == XEventKind::MotionNotify
                &&& events[0].event_x == x && events[0].event_y == y
                &&& events[0].root_x == window.x + x && events[0].root_y == window.y + y
            }
            &&& event matches InputEvent::Mouseup { button, x, y } ==> {
                &&& flush
                &&& events.len() == 1
                &&& events[0].kind == XEventKind::ButtonRelease
                &&& events[0].detail == button + 1
                &&& events[0].event_x == x && events[0].event_y == y
                &&& events[0].root_x == window.x + x && events[0].root_y == window.y + y
            }
            &&& forall|i: int|
                0 <= i < events.len() && (#[trigger] events[i]).kind != XEventKind::KeyPress
                    && events[i].kind != XEventKind::KeyRelease ==> events[i].root_x == window.x
                    + events[i].event_x && events[i].root_y == window.y + events[i].event_y
        }),
{
}


/// Keys are pressed and released by the keycode that produces their keysym: a
/// key-down or key-up is one key press or release, at the origin, of the layout's
/// keycode for the keysym its browser code stands for, and nothing when the code
/// is outside the key table or the layout cannot produce the keysym; either way
/// the connection is flushed.
pub proof fn lemma_key_events(
    root: u32,
    keymap: Map<u32, u8>,
    window: WindowState,
    key: String,
    press: bool,
)
    ensures
        ({
            let event = if press {
                InputEvent::Keydown { key }
            } else {
                InputEvent::Keyup { key }
            };
            let (events, flush) = spec_plan(root, keymap, window, event);
            let mapped = spec_keysym(key@) matches Some(sym) && keymap.contains_key(sym);
            &&& flush
            &&& events.len() == if mapped {
                1int
            } else {
                0int
            }
            &&& mapped ==> {
                &&& events[0].kind == (if press {
                    XEventKind::KeyPress
                } else {
                    XEventKind::KeyRelease
                })
                &&& events[0].detail == keymap[spec_keysym(key@).unwrap()]
                &&& events[0].window == window.xid
                &&& events[0].root == root
                &&& events[0].root_x == 0 && events[0].root_y == 0
                &&& events[0].event_x == 0 && events[0].event_y == 0
            }
        }),
{
}

} // verus!

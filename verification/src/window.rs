use crate::input::{InteractionMode, KeyState, MouseButton, WindowEvent};
use std::collections::VecDeque;
use vstd::prelude::*;

verus! {

// Window message identifiers of the Win32 API.
pub const WM_DESTROY: u32 = 0x0002;
pub const WM_SETFOCUS: u32 = 0x0007;
pub const WM_KILLFOCUS: u32 = 0x0008;
pub const WM_CLOSE: u32 = 0x0010;
pub const WM_CANCELMODE: u32 = 0x001F;
pub const WM_NCDESTROY: u32 = 0x0082;
pub const WM_KEYDOWN: u32 = 0x0100;
pub const WM_KEYUP: u32 = 0x0101;
pub const WM_CHAR: u32 = 0x0102;
pub const WM_SYSKEYDOWN: u32 = 0x0104;
pub const WM_SYSKEYUP: u32 = 0x0105;
pub const WM_MOUSEMOVE: u32 = 0x0200;
pub const WM_LBUTTONDOWN: u32 = 0x0201;
pub const WM_LBUTTONUP: u32 = 0x0202;
pub const WM_RBUTTONDOWN: u32 = 0x0204;
pub const WM_RBUTTONUP: u32 = 0x0205;
pub const WM_MBUTTONDOWN: u32 = 0x0207;
pub const WM_MBUTTONUP: u32 = 0x0208;
pub const WM_MOUSEWHEEL: u32 = 0x020A;
pub const WM_XBUTTONDOWN: u32 = 0x020B;
pub const WM_XBUTTONUP: u32 = 0x020C;
pub const WM_CAPTURECHANGED: u32 = 0x0215;

// Extended window styles of the Win32 API that make the overlay ignore input.
pub const WS_EX_TRANSPARENT: u32 = 0x0000_0020;
pub const WS_EX_NOACTIVATE: u32 = 0x0800_0000;

/// Most input events held between two drains; the oldest give way to newer ones.
pub const MAX_PENDING_EVENTS: usize = 4096;

/// What the window procedure still has to do with the system after the state has taken
/// a message in.
#[derive(Clone, Copy, Debug, Eq, PartialEq, Structural)]
pub enum MessageAction {
    /// Nothing more; the message is answered with zero.
    Handled,
    /// Capture the mouse, then answer with zero.
    SetCapture,
    /// Release the mouse capture, then answer with zero.
    ReleaseCapture,
    /// Convert the screen point to client coordinates and hand it back through
    /// `push_wheel` with the delta, then answer with zero.
    ConvertWheel { delta: i16, x: i32, y: i32 },
    /// The window is being destroyed: detach the state from it, then answer with zero.
    Detach,
    /// Not an input message: leave it to the default window procedure.
    Default,
}

/// What is left to do with the system once the window has taken a new interaction mode.
#[derive(Clone, Copy, Debug, Eq, PartialEq, Structural)]
pub struct ModeSwitch {
    /// Give up the mouse capture: input goes back to the target.
    pub release_capture: bool,
    /// Activate the overlay itself rather than the target window.
    pub focus_overlay: bool,
}

/// The abstract content of the window state.
pub struct WindowModel {
    pub events: Seq<WindowEvent>,
    pub dropped_events: usize,
    pub pressed_mouse_buttons: u8,
    pub pending_high_surrogate: Option<u16>,
    pub last_mouse_position: (i16, i16),
    pub closed: bool,
}

/// Input collected by the overlay window between two drains.
pub struct WindowState {
    pub events: VecDeque<WindowEvent>,
    pub dropped_events: usize,
    pub pressed_mouse_buttons: u8,
    pub pending_high_surrogate: Option<u16>,
    pub last_mouse_position: (i16, i16),
    pub closed: bool,
}

impl View for WindowState {
    type V = WindowModel;

    open spec fn view(&self) -> WindowModel {
        WindowModel {
            events: self.events@,
            dropped_events: self.dropped_events,
            pressed_mouse_buttons: self.pressed_mouse_buttons,
            pending_high_surrogate: self.pending_high_surrogate,
            last_mouse_position: self.last_mouse_position,
            closed: self.closed,
        }
    }
}

pub open spec fn saturating_inc(n: usize) -> usize {
    if n == usize::MAX {
        n
    } else {
        (n + 1) as usize
    }
}

/// The bit of a button in the pressed-buttons mask.
pub open spec fn button_bit(button: MouseButton) -> u8 {
    match button {
        MouseButton::Left => 1,
        MouseButton::Right => 2,
        MouseButton::Middle => 4,
        MouseButton::X1 => 8,
        MouseButton::X2 => 16,
    }
}

/// The buttons in the order their releases are reported.
pub open spec fn button_at(k: int) -> MouseButton {
    if k == 0 {
        MouseButton::Left
    } else if k == 1 {
        MouseButton::Right
    } else if k == 2 {
        MouseButton::Middle
    } else if k == 3 {
        MouseButton::X1
    } else {
        MouseButton::X2
    }
}

pub open spec fn is_button_down(msg: u32) -> bool {
    msg == WM_LBUTTONDOWN || msg == WM_RBUTTONDOWN || msg == WM_MBUTTONDOWN || msg
        == WM_XBUTTONDOWN
}

pub open spec fn is_button_up(msg: u32) -> bool {
    msg == WM_LBUTTONUP || msg == WM_RBUTTONUP || msg == WM_MBUTTONUP || msg == WM_XBUTTONUP
}

/// The button a mouse-button message is about. For the extra buttons the high word of
/// `wparam` tells the first (1) from the second.
pub open spec fn button_of(msg: u32, wparam: usize) -> MouseButton {
    if msg == WM_LBUTTONDOWN || msg == WM_LBUTTONUP {
        MouseButton::Left
    } else if msg == WM_RBUTTONDOWN || msg == WM_RBUTTONUP {
        MouseButton::Right
    } else if msg == WM_MBUTTONDOWN || msg == WM_MBUTTONUP {
        MouseButton::Middle
    } else if (wparam >> 16usize) & 0xffff == 1 {
        MouseButton::X1
    } else {
        MouseButton::X2
    }
}

/// Low and high signed 16-bit words of a message parameter: a point.
pub open spec fn point_of(lparam: isize) -> (i16, i16) {
    (lparam as i16, (lparam >> 16isize) as i16)
}

pub open spec fn is_high_surrogate(unit: u16) -> bool {
    0xd800 <= unit <= 0xdbff
}

pub open spec fn is_low_surrogate(unit: u16) -> bool {
    0xdc00 <= unit <= 0xdfff
}

/// A Unicode scalar value: a code point that is not a surrogate.
pub open spec fn is_scalar(code: u32) -> bool {
    code <= 0x10ffff && !(0xd800 <= code <= 0xdfff)
}

/// The code point that a UTF-16 surrogate pair encodes.
pub open spec fn pair_code(high: u16, low: u16) -> u32 {
    (0x10000 + (high - 0xd800) * 0x400 + (low - 0xdc00)) as u32
}

/// The character, if any, that a UTF-16 code unit completes, given the high surrogate
/// that came before it.
pub open spec fn decoded(pending: Option<u16>, unit: u16) -> Option<char> {
    match pending {
        Some(high) if is_low_surrogate(unit) => Some(pair_code(high, unit) as char),
        _ => if is_scalar(unit as u32) {
            Some(unit as char)
        } else {
            None
        },
    }
}

/// The extended window style for an interaction mode: pass-through sets both
/// input-ignoring bits, interactive clears them; every other bit is kept.
pub open spec fn style_for(mode: InteractionMode, current: u32) -> u32 {
    match mode {
        InteractionMode::PassThrough => current | WS_EX_TRANSPARENT | WS_EX_NOACTIVATE,
        InteractionMode::Interactive => current & !(WS_EX_TRANSPARENT | WS_EX_NOACTIVATE),
    }
}

impl WindowModel {
    /// No two queued events in a row are mouse moves, the queue is bounded, and a pending
    /// surrogate is a high one.
    pub open spec fn wf(self) -> bool {
        &&& self.events.len() <= MAX_PENDING_EVENTS
        &&& forall|i: int|
            0 <= i < self.events.len() - 1 ==> !(#[trigger] self.events[i].is_mouse_move()
                && self.events[i + 1].is_mouse_move())
        &&& match self.pending_high_surrogate {
            Some(high) => is_high_surrogate(high),
            None => true,
        }
    }

    /// Queue an event. A mouse move replaces a mouse move at the back of the queue; when
    /// the queue is full the oldest event is dropped and counted.
    pub open spec fn push(self, event: WindowEvent) -> WindowModel {
        let kept = if event.is_mouse_move() && self.events.len() > 0
            && self.events.last().is_mouse_move() {
            self.events.drop_last()
        } else {
            self.events
        };
        let full = kept.len() == MAX_PENDING_EVENTS;
        WindowModel {
            events: (if full {
                kept.drop_first()
            } else {
                kept
            }).push(event),
            dropped_events: if full {
                saturating_inc(self.dropped_events)
            } else {
                self.dropped_events
            },
            ..self
        }
    }

    /// Report the release of each button of `pressed` whose index is `k` or more, at the
    /// last mouse position.
    pub open spec fn release_from(self, pressed: u8, k: int) -> WindowModel
        decreases 5 - k,
    {
        if k >= 5 || k < 0 {
            self
        } else {
            let next = if pressed & button_bit(button_at(k)) != 0 {
                self.push(
                    WindowEvent::MouseButton {
                        button: button_at(k),
                        pressed: false,
                        x: self.last_mouse_position.0,
                        y: self.last_mouse_position.1,
                    },
                )
            } else {
                self
            };
            next.release_from(pressed, k + 1)
        }
    }

    /// Forget every pressed button, reporting each as released.
    pub open spec fn release_pressed(self) -> WindowModel {
        WindowModel { pressed_mouse_buttons: 0, ..self }.release_from(self.pressed_mouse_buttons, 0)
    }

    /// Take in one UTF-16 code unit of typed text.
    pub open spec fn take_code_unit(self, unit: u16) -> WindowModel {
        if is_high_surrogate(unit) {
            WindowModel { pending_high_surrogate: Some(unit), ..self }
        } else {
            let cleared = WindowModel { pending_high_surrogate: None, ..self };
            match decoded(self.pending_high_surrogate, unit) {
                Some(c) => cleared.push(WindowEvent::Text(c)),
                None => cleared,
            }
        }
    }

    /// The state after a window message, and what is left to do with the system.
    pub open spec fn handle(self, msg: u32, wparam: usize, lparam: isize) -> (
        WindowModel,
        MessageAction,
    ) {
        let (x, y) = point_of(lparam);
        let moved = WindowModel { last_mouse_position: (x, y), ..self };
        if msg == WM_MOUSEMOVE {
            (moved.push(WindowEvent::MouseMoved { x, y }), MessageAction::Handled)
        } else if is_button_down(msg) {
            let button = button_of(msg, wparam);
            let pressed = WindowModel {
                pressed_mouse_buttons: self.pressed_mouse_buttons | button_bit(button),
                ..moved
            };
            (
                pressed.push(WindowEvent::MouseButton { button, pressed: true, x, y }),
                MessageAction::SetCapture,
            )
        } else if is_button_up(msg) {
            let button = button_of(msg, wparam);
            let still = self.pressed_mouse_buttons & !button_bit(button);
            let released = WindowModel { pressed_mouse_buttons: still, ..moved };
            (
                released.push(WindowEvent::MouseButton { button, pressed: false, x, y }),
                if still == 0 {
                    MessageAction::ReleaseCapture
                } else {
                    MessageAction::Handled
                },
            )
        } else if msg == WM_CAPTURECHANGED || msg == WM_CANCELMODE {
            (self.release_pressed(), MessageAction::ReleaseCapture)
        } else if msg == WM_MOUSEWHEEL {
            (
                self,
                MessageAction::ConvertWheel {
                    delta: (wparam >> 16usize) as i16,
                    x: x as i32,
                    y: y as i32,
                },
            )
        } else if msg == WM_KEYDOWN || msg == WM_SYSKEYDOWN {
            (
                self.push(WindowEvent::Key { virtual_key: wparam as u16, state: KeyState::Pressed }),
                MessageAction::Handled,
            )
        } else if msg == WM_KEYUP || msg == WM_SYSKEYUP {
            (
                self.push(
                    WindowEvent::Key { virtual_key: wparam as u16, state: KeyState::Released },
                ),
                MessageAction::Handled,
            )
        } else if msg == WM_CHAR {
            (self.take_code_unit(wparam as u16), MessageAction::Handled)
        } else if msg == WM_SETFOCUS {
            (self.push(WindowEvent::Focused(true)), MessageAction::Handled)
        } else if msg == WM_KILLFOCUS {
            (
                self.release_pressed().push(WindowEvent::Focused(false)),
                MessageAction::ReleaseCapture,
            )
        } else if msg == WM_CLOSE {
            (self.push(WindowEvent::CloseRequested), MessageAction::Handled)
        } else if msg == WM_DESTROY {
            (WindowModel { closed: true, ..self }, MessageAction::Handled)
        } else if msg == WM_NCDESTROY {
            (WindowModel { closed: true, ..self }, MessageAction::Detach)
        } else {
            (self, MessageAction::Default)
        }
    }
}

/// The release events for the buttons of `pressed` whose index is `k` or more, in order.
pub open spec fn releases(pressed: u8, k: int, at: (i16, i16)) -> Seq<WindowEvent>
    decreases 5 - k,
{
    if k >= 5 || k < 0 {
        Seq::empty()
    } else {
        let rest = releases(pressed, k + 1, at);
        if pressed & button_bit(button_at(k)) != 0 {
            seq![
                WindowEvent::MouseButton {
                    button: button_at(k),
                    pressed: false,
                    x: at.0,
                    y: at.1,
                },
            ] + rest
        } else {
            rest
        }
    }
}

/// Releasing buttons keeps the position and the pressed mask, and, when the queue has
/// room, appends one release per pressed button from index `k` on.
proof fn lemma_release_from(m: WindowModel, pressed: u8, k: int)
    requires
        m.wf(),
        0 <= k <= 5,
        m.events.len() + 5 - k <= MAX_PENDING_EVENTS,
    ensures
        m.release_from(pressed, k).wf(),
        m.release_from(pressed, k).pressed_mouse_buttons == m.pressed_mouse_buttons,
        m.release_from(pressed, k).last_mouse_position == m.last_mouse_position,
        m.release_from(pressed, k).pending_high_surrogate == m.pending_high_surrogate,
        m.release_from(pressed, k).closed == m.closed,
        m.release_from(pressed, k).dropped_events == m.dropped_events,
        m.release_from(pressed, k).events == m.events + releases(pressed, k, m.last_mouse_position),
    decreases 5 - k,
{
    if k < 5 {
        let at = m.last_mouse_position;
        let next = if pressed & button_bit(button_at(k)) != 0 {
            m.push(
                WindowEvent::MouseButton { button: button_at(k), pressed: false, x: at.0, y: at.1 },
            )
        } else {
            m
        };
        if pressed & button_bit(button_at(k)) != 0 {
            let e = WindowEvent::MouseButton {
                button: button_at(k),
                pressed: false,
                x: at.0,
                y: at.1,
            };
            assert(next.events == m.events.push(e));
            assert forall|i: int| 0 <= i < next.events.len() - 1 implies !(
            #[trigger] next.events[i].is_mouse_move() && next.events[i + 1].is_mouse_move()) by {
                if i + 1 < m.events.len() {
                    assert(next.events[i] == m.events[i]);
                    assert(next.events[i + 1] == m.events[i + 1]);
                }
            }
        }
        lemma_release_from(next, pressed, k + 1);
        assert(m.events + releases(pressed, k, at) =~= next.events + releases(pressed, k + 1, at));
    } else {
        assert(m.events + releases(pressed, k, m.last_mouse_position) =~= m.events);
    }
}

/// Law: releasing the pressed buttons empties the mask and, when the queue has room for
/// them, appends one release event per pressed button, left to the second extra button, at
/// the last mouse position, after the events already queued.
pub proof fn lemma_release_pressed(m: WindowModel)
    requires
        m.wf(),
        m.events.len() + 5 <= MAX_PENDING_EVENTS,
    ensures
        m.release_pressed().wf(),
        m.release_pressed().pressed_mouse_buttons == 0,
        m.release_pressed().last_mouse_position == m.last_mouse_position,
        m.release_pressed().events == m.events + releases(
            m.pressed_mouse_buttons,
            0,
            m.last_mouse_position,
        ),
{
    lemma_release_from(WindowModel { pressed_mouse_buttons: 0, ..m }, m.pressed_mouse_buttons, 0);
}

/// Law: a UTF-16 surrogate pair encodes a Unicode scalar value above the basic plane, so a
/// high surrogate followed by a low one queues exactly one character.
pub proof fn lemma_surrogate_pair(m: WindowModel, high: u16, low: u16)
    requires
        m.wf(),
        is_high_surrogate(high),
        is_low_surrogate(low),
    ensures
        is_scalar(pair_code(high, low)),
        0x10000 <= pair_code(high, low) <= 0x10ffff,
        m.take_code_unit(high).take_code_unit(low) == (WindowModel {
            pending_high_surrogate: None,
            ..m
        }).push(WindowEvent::Text(pair_code(high, low) as char)),
{
    assert((high - 0xd800) * 0x400 <= 0x3ff * 0x400) by (nonlinear_arith)
        requires
            0 <= high - 0xd800 <= 0x3ff,
    ;
}

/// Law: a mouse move pushed right after another replaces it, so the queue never holds two
/// moves in a row and its length does not change.
pub proof fn lemma_moves_coalesce(m: WindowModel, x: i16, y: i16)
    requires
        m.wf(),
        m.events.len() > 0,
        m.events.last().is_mouse_move(),
    ensures
        m.push(WindowEvent::MouseMoved { x, y }).events == m.events.drop_last().push(
            WindowEvent::MouseMoved { x, y },
        ),
        m.push(WindowEvent::MouseMoved { x, y }).dropped_events == m.dropped_events,
{
}

/// Law: a full queue makes room by dropping its oldest event, and counts the drop.
pub proof fn lemma_full_queue_drops_oldest(m: WindowModel, event: WindowEvent)
    requires
        m.wf(),
        m.events.len() == MAX_PENDING_EVENTS,
        !(event.is_mouse_move() && m.events.last().is_mouse_move()),
    ensures
        m.push(event).events == m.events.drop_first().push(event),
        m.push(event).events.len() == MAX_PENDING_EVENTS,
        m.push(event).dropped_events == saturating_inc(m.dropped_events),
        m.dropped_events < usize::MAX ==> m.push(event).dropped_events == m.dropped_events + 1,
        m.dropped_events == usize::MAX ==> m.push(event).dropped_events == usize::MAX,
{
}

/// Law: an event that is not a mouse move following a mouse move is appended to a queue
/// with room, and every event already queued stays, in order; nothing is counted as
/// dropped and nothing else changes.
pub proof fn lemma_push_appends(m: WindowModel, event: WindowEvent)
    requires
        m.wf(),
        m.events.len() < MAX_PENDING_EVENTS,
        !(event is MouseMoved && m.events.len() > 0 && m.events.last() is MouseMoved),
    ensures
        m.push(event) == (WindowModel { events: m.events.push(event), ..m }),
        m.push(event).events.len() == m.events.len() + 1,
        forall|i: int| 0 <= i < m.events.len() ==> #[trigger] m.push(event).events[i] == m.events[i],
        m.push(event).events.last() == event,
{
}

/// Law: releasing the pressed buttons reports, after the events already queued, exactly
/// one release per button whose bit is set in the mask (left 1, right 2, middle 4, first
/// extra 8, second extra 16), in that order, each at the last mouse position, and leaves no
/// button pressed.
pub proof fn lemma_release_reports_each_pressed_button(m: WindowModel)
    requires
        m.wf(),
        m.events.len() + 5 <= MAX_PENDING_EVENTS,
    ensures
        m.release_pressed().pressed_mouse_buttons == 0,
        m.release_pressed().dropped_events == m.dropped_events,
        m.release_pressed().events == m.events + (if m.pressed_mouse_buttons & 1 != 0 {
            seq![
                WindowEvent::MouseButton {
                    button: MouseButton::Left,
                    pressed: false,
                    x: m.last_mouse_position.0,
                    y: m.last_mouse_position.1,
                },
            ]
        } else {
            Seq::empty()
        }) + (if m.pressed_mouse_buttons & 2 != 0 {
            seq![
                WindowEvent::MouseButton {
                    button: MouseButton::Right,
                    pressed: false,
                    x: m.last_mouse_position.0,
                    y: m.last_mouse_position.1,
                },
            ]
        } else {
            Seq::empty()
        }) + (if m.pressed_mouse_buttons & 4 != 0 {
            seq![
                WindowEvent::MouseButton {
                    button: MouseButton::Middle,
                    pressed: false,
                    x: m.last_mouse_position.0,
                    y: m.last_mouse_position.1,
                },
            ]
        } else {
            Seq::empty()
        }) + (if m.pressed_mouse_buttons & 8 != 0 {
            seq![
                WindowEvent::MouseButton {
                    button: MouseButton::X1,
                    pressed: false,
                    x: m.last_mouse_position.0,
                    y: m.last_mouse_position.1,
                },
            ]
        } else {
            Seq::empty()
        }) + (if m.pressed_mouse_buttons & 16 != 0 {
            seq![
                WindowEvent::MouseButton {
                    button: MouseButton::X2,
                    pressed: false,
                    x: m.last_mouse_position.0,
                    y: m.last_mouse_position.1,
                },
            ]
        } else {
            Seq::empty()
        }),
{
    lemma_release_from(WindowModel { pressed_mouse_buttons: 0, ..m }, m.pressed_mouse_buttons, 0);
    let p = m.pressed_mouse_buttons;
    let at = m.last_mouse_position;
    let r4 = release_if(p, 16, MouseButton::X2, at);
    let r3 = release_if(p, 8, MouseButton::X1, at);
    let r2 = release_if(p, 4, MouseButton::Middle, at);
    let r1 = release_if(p, 2, MouseButton::Right, at);
    let r0 = release_if(p, 1, MouseButton::Left, at);
    assert(releases(p, 5, at) =~= Seq::<WindowEvent>::empty());
    assert(releases(p, 4, at) =~= r4);
    assert(releases(p, 3, at) =~= r3 + r4);
    assert(releases(p, 2, at) =~= r2 + (r3 + r4));
    assert(releases(p, 1, at) =~= r1 + (r2 + (r3 + r4)));
    assert(releases(p, 0, at) =~= r0 + (r1 + (r2 + (r3 + r4))));
    assert(m.events + releases(p, 0, at) =~= m.events + r0 + r1 + r2 + r3 + r4);
}

/// The release of button `b` at `at` when `bit` is set in `pressed`, as a sequence of at
/// most one event.
spec fn release_if(pressed: u8, bit: u8, b: MouseButton, at: (i16, i16)) -> Seq<WindowEvent> {
    if pressed & bit != 0 {
        seq![WindowEvent::MouseButton { button: b, pressed: false, x: at.0, y: at.1 }]
    } else {
        Seq::empty()
    }
}

/// Law: a character typed as one UTF-16 unit outside the surrogate range is queued as that
/// very character, whatever was pending; a half-typed pair before it is forgotten.
pub proof fn lemma_plain_unit_is_its_character(m: WindowModel, unit: u16)
    requires
        m.wf(),
        unit < 0xd800 || unit > 0xdfff,
    ensures
        m.take_code_unit(unit).pending_high_surrogate == None::<u16>,
        m.events.len() < MAX_PENDING_EVENTS ==> m.take_code_unit(unit) == (WindowModel {
            events: m.events.push(WindowEvent::Text(unit as char)),
            pending_high_surrogate: None,
            ..m
        }),
        m.events.len() == MAX_PENDING_EVENTS ==> m.take_code_unit(unit).events
            == m.events.drop_first().push(WindowEvent::Text(unit as char)),
{
}

/// Law: a high surrogate only waits for its partner; a low surrogate with nothing pending
/// is dropped; a high surrogate followed by a low one queues the character
/// `0x10000 + (high - 0xD800) * 0x400 + (low - 0xDC00)`.
pub proof fn lemma_surrogate_units(m: WindowModel, high: u16, low: u16)
    requires
        m.wf(),
        0xd800 <= high <= 0xdbff,
        0xdc00 <= low <= 0xdfff,
    ensures
        m.take_code_unit(high) == (WindowModel { pending_high_surrogate: Some(high), ..m }),
        m.pending_high_surrogate is None ==> m.take_code_unit(low) == m,
        m.events.len() < MAX_PENDING_EVENTS ==> m.take_code_unit(high).take_code_unit(low) == (
        WindowModel {
            events: m.events.push(
                WindowEvent::Text(
                    (0x10000 + (high - 0xd800) * 0x400 + (low - 0xdc00)) as u32 as char,
                ),
            ),
            pending_high_surrogate: None,
            ..m
        }),
{
    lemma_surrogate_pair(m, high, low);
}

/// Law: a button-down message sets that button's bit, queues its press at the message's
/// point and asks for the mouse capture. The extra-button messages name the first extra
/// button when the high word of `wparam` is 1 and the second otherwise.
pub proof fn lemma_button_down(m: WindowModel, msg: u32, wparam: usize, lparam: isize)
    requires
        m.wf(),
        m.events.len() < MAX_PENDING_EVENTS,
        msg == WM_LBUTTONDOWN || msg == WM_RBUTTONDOWN || msg == WM_MBUTTONDOWN || msg
            == WM_XBUTTONDOWN,
    ensures
        m.handle(msg, wparam, lparam).1 == MessageAction::SetCapture,
        m.handle(msg, wparam, lparam).0 == (WindowModel {
            events: m.events.push(
                WindowEvent::MouseButton {
                    button: if msg == WM_LBUTTONDOWN {
                        MouseButton::Left
                    } else if msg == WM_RBUTTONDOWN {
                        MouseButton::Right
                    } else if msg == WM_MBUTTONDOWN {
                        MouseButton::Middle
                    } else if (wparam >> 16usize) & 0xffff == 1 {
                        MouseButton::X1
                    } else {
                        MouseButton::X2
                    },
                    pressed: true,
                    x: lparam as i16,
                    y: (lparam >> 16isize) as i16,
                },
            ),
            pressed_mouse_buttons: m.pressed_mouse_buttons | if msg == WM_LBUTTONDOWN {
                1u8
            } else if msg == WM_RBUTTONDOWN {
                2u8
            } else if msg == WM_MBUTTONDOWN {
                4u8
            } else if (wparam >> 16usize) & 0xffff == 1 {
                8u8
            } else {
                16u8
            },
            last_mouse_position: (lparam as i16, (lparam >> 16isize) as i16),
            ..m
        }),
{
}

/// Law: a button-up message clears that button's bit, queues its release at the message's
/// point, and releases the mouse capture exactly when no button stays pressed; it is never
/// left to the default window procedure.
pub proof fn lemma_button_up(m: WindowModel, msg: u32, wparam: usize, lparam: isize)
    requires
        m.wf(),
        m.events.len() < MAX_PENDING_EVENTS,
        msg == WM_LBUTTONUP || msg == WM_RBUTTONUP || msg == WM_MBUTTONUP || msg == WM_XBUTTONUP,
    ensures
        m.handle(msg, wparam, lparam).0 == (WindowModel {
            events: m.events.push(
                WindowEvent::MouseButton {
                    button: if msg == WM_LBUTTONUP {
                        MouseButton::Left
                    } else if msg == WM_RBUTTONUP {
                        MouseButton::Right
                    } else if msg == WM_MBUTTONUP {
                        MouseButton::Middle
                    } else if (wparam >> 16usize) & 0xffff == 1 {
                        MouseButton::X1
                    } else {
                        MouseButton::X2
                    },
                    pressed: false,
                    x: lparam as i16,
                    y: (lparam >> 16isize) as i16,
                },
            ),
            pressed_mouse_buttons: m.pressed_mouse_buttons & !if msg == WM_LBUTTONUP {
                1u8
            } else if msg == WM_RBUTTONUP {
                2u8
            } else if msg == WM_MBUTTONUP {
                4u8
            } else if (wparam >> 16usize) & 0xffff == 1 {
                8u8
            } else {
                16u8
            },
            last_mouse_position: (lparam as i16, (lparam >> 16isize) as i16),
            ..m
        }),
        m.handle(msg, wparam, lparam).1 == if m.handle(msg, wparam, lparam).0.pressed_mouse_buttons
            == 0 {
            MessageAction::ReleaseCapture
        } else {
            MessageAction::Handled
        },
        m.handle(msg, wparam, lparam).1 != MessageAction::Default,
{
}

/// Law: losing the focus or the capture reports every pressed button released and releases
/// the capture; a typed unit goes through the text decoder; a wheel turn is handed back
/// for conversion with its delta and screen point and queues nothing yet.
pub proof fn lemma_other_messages(m: WindowModel, wparam: usize, lparam: isize)
    requires
        m.wf(),
    ensures
        m.handle(WM_KILLFOCUS, wparam, lparam) == (
            m.release_pressed().push(WindowEvent::Focused(false)),
            MessageAction::ReleaseCapture,
        ),
        m.handle(WM_CAPTURECHANGED, wparam, lparam) == (
            m.release_pressed(),
            MessageAction::ReleaseCapture,
        ),
        m.handle(WM_CANCELMODE, wparam, lparam) == (
            m.release_pressed(),
            MessageAction::ReleaseCapture,
        ),
        m.handle(WM_CHAR, wparam, lparam) == (
            m.take_code_unit(wparam as u16),
            MessageAction::Handled,
        ),
        m.handle(WM_MOUSEWHEEL, wparam, lparam) == (
            m,
            MessageAction::ConvertWheel {
                delta: (wparam >> 16usize) as i16,
                x: lparam as i16 as i32,
                y: (lparam >> 16isize) as i16 as i32,
            },
        ),
{
}

/// Law: a mouse move notes the point and queues it; a key transition queues the key with
/// its virtual-key code; focus gain and a close request are queued; destruction marks the
/// state closed, and the final destruction detaches it. Every other message is left to the
/// default window procedure with the state untouched.
pub proof fn lemma_plain_messages(m: WindowModel, msg: u32, wparam: usize, lparam: isize)
    requires
        m.wf(),
    ensures
        m.handle(WM_MOUSEMOVE, wparam, lparam) == (
            WindowModel {
                last_mouse_position: (lparam as i16, (lparam >> 16isize) as i16),
                ..m
            }.push(WindowEvent::MouseMoved { x: lparam as i16, y: (lparam >> 16isize) as i16 }),
            MessageAction::Handled,
        ),
        msg == WM_KEYDOWN || msg == WM_SYSKEYDOWN ==> m.handle(msg, wparam, lparam) == (
            m.push(WindowEvent::Key { virtual_key: wparam as u16, state: KeyState::Pressed }),
            MessageAction::Handled,
        ),
        msg == WM_KEYUP || msg == WM_SYSKEYUP ==> m.handle(msg, wparam, lparam) == (
            m.push(WindowEvent::Key { virtual_key: wparam as u16, state: KeyState::Released }),
            MessageAction::Handled,
        ),
        m.handle(WM_SETFOCUS, wparam, lparam) == (
            m.push(WindowEvent::Focused(true)),
            MessageAction::Handled,
        ),
        m.handle(WM_CLOSE, wparam, lparam) == (
            m.push(WindowEvent::CloseRequested),
            MessageAction::Handled,
        ),
        m.handle(WM_DESTROY, wparam, lparam) == (
            WindowModel { closed: true, ..m },
            MessageAction::Handled,
        ),
        m.handle(WM_NCDESTROY, wparam, lparam) == (
            WindowModel { closed: true, ..m },
            MessageAction::Detach,
        ),
        !(msg == WM_MOUSEMOVE || msg == WM_LBUTTONDOWN || msg == WM_RBUTTONDOWN || msg
            == WM_MBUTTONDOWN || msg == WM_XBUTTONDOWN || msg == WM_LBUTTONUP || msg
            == WM_RBUTTONUP || msg == WM_MBUTTONUP || msg == WM_XBUTTONUP || msg
            == WM_CAPTURECHANGED || msg == WM_CANCELMODE || msg == WM_MOUSEWHEEL || msg
            == WM_KEYDOWN || msg == WM_SYSKEYDOWN || msg == WM_KEYUP || msg == WM_SYSKEYUP || msg
            == WM_CHAR || msg == WM_SETFOCUS || msg == WM_KILLFOCUS || msg == WM_CLOSE || msg
            == WM_DESTROY || msg == WM_NCDESTROY) ==> m.handle(msg, wparam, lparam) == (
            m,
            MessageAction::Default,
        ),
{
}

/// Law: the buttons have distinct bits, so pressing one and releasing another leaves the
/// first pressed, and releasing a button undoes pressing it.
pub proof fn lemma_button_bits(pressed: u8, a: MouseButton, b: MouseButton)
    ensures
        a != b ==> button_bit(a) & button_bit(b) == 0,
        ((pressed | button_bit(a)) & !button_bit(a)) == pressed & !button_bit(a),
        a != b ==> ((pressed | button_bit(a)) & !button_bit(b)) & button_bit(a) != 0,
{
    let ba = button_bit(a);
    let bb = button_bit(b);
    assert(((pressed | ba) & !ba) == pressed & !ba) by (bit_vector);
    if a != b {
        assert(ba & bb == 0 && ((pressed | ba) & !bb) & ba != 0) by (bit_vector)
            requires
                (ba == 1u8 || ba == 2u8 || ba == 4u8 || ba == 8u8 || ba == 16u8),
                (bb == 1u8 || bb == 2u8 || bb == 4u8 || bb == 8u8 || bb == 16u8),
                ba != bb,
        ;
    }
}

/// Law: switching the interaction mode touches only the two input-ignoring style bits, and
/// switching back and forth lands on the style of the last mode.
pub proof fn lemma_style_round_trip(mode: InteractionMode, other: InteractionMode, style: u32)
    ensures
        style_for(mode, style) & !(WS_EX_TRANSPARENT | WS_EX_NOACTIVATE) == style & !(
        WS_EX_TRANSPARENT | WS_EX_NOACTIVATE),
        style_for(mode, style_for(other, style)) == style_for(mode, style),
        mode == InteractionMode::PassThrough ==> style_for(mode, style) & WS_EX_TRANSPARENT != 0
            && style_for(mode, style) & WS_EX_NOACTIVATE != 0,
        mode == InteractionMode::Interactive ==> style_for(mode, style) & WS_EX_TRANSPARENT == 0
            && style_for(mode, style) & WS_EX_NOACTIVATE == 0,
{
    let t = WS_EX_TRANSPARENT;
    let n = WS_EX_NOACTIVATE;
    assert(((style | t | n) & !(t | n)) == style & !(t | n) && ((style & !(t | n)) & !(t | n))
        == style & !(t | n) && (((style | t | n) | t | n) == (style | t | n)) && (((style & !(t
        | n)) | t | n) == (style | t | n)) && (((style | t | n) & !(t | n)) == (style & !(t | n)))
        && (((style & !(t | n)) & !(t | n)) == (style & !(t | n))) && ((style | t | n) & t != 0)
        && ((style | t | n) & n != 0) && ((style & !(t | n)) & t == 0) && ((style & !(t | n)) & n
        == 0)) by (bit_vector)
        requires
            t == 0x20u32,
            n == 0x0800_0000u32,
    ;
}

/// The bit of a button in the pressed-buttons mask.
pub fn mouse_button_mask(button: MouseButton) -> (mask: u8)
    ensures
        mask == button_bit(button),
{
    let shift: u8 = match button {
        MouseButton::Left => 0,
        MouseButton::Right => 1,
        MouseButton::Middle => 2,
        MouseButton::X1 => 3,
        MouseButton::X2 => 4,
    };
    let mask = 1u8 << shift;
    assert(shift < 5 ==> (1u8 << shift == 1u8 && shift == 0) || (1u8 << shift == 2u8 && shift == 1)
        || (1u8 << shift == 4u8 && shift == 2) || (1u8 << shift == 8u8 && shift == 3) || (1u8
        << shift == 16u8 && shift == 4)) by (bit_vector);
    mask
}

/// A button press or release at a point.
pub fn mouse_button_event(button: MouseButton, pressed: bool, position: (i16, i16)) -> (event:
    WindowEvent)
    ensures
        event == (WindowEvent::MouseButton { button, pressed, x: position.0, y: position.1 }),
{
    WindowEvent::MouseButton { button, pressed, x: position.0, y: position.1 }
}

/// The button a mouse-button message is about.
pub fn mouse_button(msg: u32, wparam: usize) -> (button: MouseButton)
    ensures
        button == button_of(msg, wparam),
{
    if msg == WM_LBUTTONDOWN || msg == WM_LBUTTONUP {
        MouseButton::Left
    } else if msg == WM_RBUTTONDOWN || msg == WM_RBUTTONUP {
        MouseButton::Right
    } else if msg == WM_MBUTTONDOWN || msg == WM_MBUTTONUP {
        MouseButton::Middle
    } else if (wparam >> 16usize) & 0xffff == 1 {
        MouseButton::X1
    } else {
        MouseButton::X2
    }
}

/// A requested interaction mode calls for work only when it differs from the current one.
pub fn needs_mode_change(current: InteractionMode, requested: InteractionMode) -> (needed: bool)
    ensures
        needed == (current != requested),
{
    current != requested
}

/// The extended window style that gives the overlay an interaction mode.
pub fn style_for_mode(mode: InteractionMode, current: u32) -> (style: u32)
    ensures
        style == style_for(mode, current),
{
    match mode {
        InteractionMode::PassThrough => current | WS_EX_TRANSPARENT | WS_EX_NOACTIVATE,
        InteractionMode::Interactive => current & !(WS_EX_TRANSPARENT | WS_EX_NOACTIVATE),
    }
}

/// `char::from_u32`: the character with the given code, when the code is a Unicode scalar
/// value (at most 0x10FFFF and not a surrogate), as its documentation states.
#[verifier::external_body]
fn char_from_code(code: u32) -> (c: Option<char>)
    ensures
        c == (if is_scalar(code) {
            Some(code as char)
        } else {
            None::<char>
        }),
{
    char::from_u32(code)
}

impl WindowState {
    pub fn new() -> (state: Self)
        ensures
            state@.wf(),
            state@.events.len() == 0,
            state@.dropped_events == 0,
            state@.pressed_mouse_buttons == 0,
            state@.pending_high_surrogate == None::<u16>,
            state@.last_mouse_position == (0i16, 0i16),
            !state@.closed,
    {
        WindowState {
            events: VecDeque::new(),
            dropped_events: 0,
            pressed_mouse_buttons: 0,
            pending_high_surrogate: None,
            last_mouse_position: (0, 0),
            closed: false,
        }
    }

    pub fn push_event(&mut self, event: WindowEvent)
        requires
            old(self)@.wf(),
        ensures
            final(self)@ == old(self)@.push(event),
            final(self)@.wf(),
    {
        let n = self.events.len();
        if n > 0 && matches!(event, WindowEvent::MouseMoved { .. }) && matches!(
            self.events[n - 1],
            WindowEvent::MouseMoved { .. }
        ) {
            self.events.pop_back();
        }
        if self.events.len() == MAX_PENDING_EVENTS {
            self.events.pop_front();
            self.dropped_events = self.dropped_events.saturating_add(1);
        }
        self.events.push_back(event);
        proof {
            let o = old(self)@;
            let e = self.events@;
            assert(o.push(event).events =~= e);
            assert forall|i: int| 0 <= i < e.len() - 1 implies !(#[trigger] e[i].is_mouse_move()
                && e[i + 1].is_mouse_move()) by {
                let kept = if event.is_mouse_move() && o.events.len() > 0
                    && o.events.last().is_mouse_move() {
                    o.events.drop_last()
                } else {
                    o.events
                };
                if kept.len() == MAX_PENDING_EVENTS {
                    assert(e[i] == o.events[i + 1]);
                    if i + 1 < e.len() - 1 {
                        assert(e[i + 1] == o.events[i + 2]);
                        assert(!(o.events[i + 1].is_mouse_move() && o.events[i + 2].is_mouse_move()));
                    }
                } else {
                    assert(e[i] == o.events[i]);
                    if i + 1 < e.len() - 1 {
                        assert(e[i + 1] == o.events[i + 1]);
                        assert(!(o.events[i].is_mouse_move() && o.events[i + 1].is_mouse_move()));
                    }
                }
            }
        }
    }

    /// Forget the pressed buttons and a half-typed surrogate pair.
    pub fn clear_input_state(&mut self)
        ensures
            final(self)@ == (WindowModel {
                pressed_mouse_buttons: 0,
                pending_high_surrogate: None,
                ..old(self)@
            }),
    {
        self.pressed_mouse_buttons = 0;
        self.pending_high_surrogate = None;
    }

    /// Report every pressed button as released, at the last mouse position, and forget
    /// them. The caller releases the mouse capture.
    pub fn release_pressed_mouse_buttons(&mut self)
        requires
            old(self)@.wf(),
        ensures
            final(self)@ == old(self)@.release_pressed(),
            final(self)@.wf(),
    {
        let pressed = self.pressed_mouse_buttons;
        self.pressed_mouse_buttons = 0;
        let buttons = [
            MouseButton::Left,
            MouseButton::Right,
            MouseButton::Middle,
            MouseButton::X1,
            MouseButton::X2,
        ];
        let ghost start = self@;
        let mut k: usize = 0;
        while k < 5
            invariant
                k <= 5,
                buttons@ == seq![
                    MouseButton::Left,
                    MouseButton::Right,
                    MouseButton::Middle,
                    MouseButton::X1,
                    MouseButton::X2,
                ],
                self@.wf(),
                start == (WindowModel { pressed_mouse_buttons: 0, ..old(self)@ }),
                pressed == old(self)@.pressed_mouse_buttons,
                self@.release_from(pressed, k as int) == start.release_from(pressed, 0),
            decreases 5 - k,
        {
            let button = buttons[k];
            assert(button == button_at(k as int));
            if pressed & mouse_button_mask(button) != 0 {
                self.push_event(mouse_button_event(button, false, self.last_mouse_position));
            }
            k = k + 1;
        }
    }

    /// Take in one UTF-16 code unit of typed text, pairing surrogates into one character.
    pub fn push_utf16_code_unit(&mut self, code_unit: u16)
        requires
            old(self)@.wf(),
        ensures
            final(self)@ == old(self)@.take_code_unit(code_unit),
            final(self)@.wf(),
    {
        if 0xd800 <= code_unit && code_unit <= 0xdbff {
            self.pending_high_surrogate = Some(code_unit);
            return;
        }
        let pending = self.pending_high_surrogate;
        self.pending_high_surrogate = None;
        let decoded = match pending {
            Some(high) => {
                if 0xdc00 <= code_unit && code_unit <= 0xdfff {
                    let code = 0x10000 + (high as u32 - 0xd800) * 0x400 + (code_unit as u32
                        - 0xdc00);
                    char_from_code(code)
                } else {
                    char_from_code(code_unit as u32)
                }
            },
            None => char_from_code(code_unit as u32),
        };
        if let Some(character) = decoded {
            self.push_event(WindowEvent::Text(character));
        }
    }

    /// Take in a window message: update the state and say what the window procedure still
    /// has to do.
    pub fn handle_message(&mut self, msg: u32, wparam: usize, lparam: isize) -> (action:
        MessageAction)
        requires
            old(self)@.wf(),
        ensures
            (final(self)@, action) == old(self)@.handle(msg, wparam, lparam),
            final(self)@.wf(),
    {
        let x = lparam as i16;
        let y = (lparam >> 16isize) as i16;
        if msg == WM_MOUSEMOVE {
            self.last_mouse_position = (x, y);
            self.push_event(WindowEvent::MouseMoved { x, y });
            MessageAction::Handled
        } else if msg == WM_LBUTTONDOWN || msg == WM_RBUTTONDOWN || msg == WM_MBUTTONDOWN || msg
            == WM_XBUTTONDOWN {
            let button = mouse_button(msg, wparam);
            self.last_mouse_position = (x, y);
            self.pressed_mouse_buttons = self.pressed_mouse_buttons | mouse_button_mask(button);
            self.push_event(mouse_button_event(button, true, (x, y)));
            MessageAction::SetCapture
        } else if msg == WM_LBUTTONUP || msg == WM_RBUTTONUP || msg == WM_MBUTTONUP || msg
            == WM_XBUTTONUP {
            let button = mouse_button(msg, wparam);
            self.last_mouse_position = (x, y);
            self.pressed_mouse_buttons = self.pressed_mouse_buttons & !mouse_button_mask(button);
            let released_all = self.pressed_mouse_buttons == 0;
            self.push_event(mouse_button_event(button, false, (x, y)));
            if released_all {
                MessageAction::ReleaseCapture
            } else {
                MessageAction::Handled
            }
        } else if msg == WM_CAPTURECHANGED || msg == WM_CANCELMODE {
            self.release_pressed_mouse_buttons();
            MessageAction::ReleaseCapture
        } else if msg == WM_MOUSEWHEEL {
            MessageAction::ConvertWheel { delta: (wparam >> 16usize) as i16, x: x as i32, y: y as i32 }
        } else if msg == WM_KEYDOWN || msg == WM_SYSKEYDOWN {
            self.push_event(WindowEvent::Key { virtual_key: wparam as u16, state: KeyState::Pressed });
            MessageAction::Handled
        } else if msg == WM_KEYUP || msg == WM_SYSKEYUP {
            self.push_event(
                WindowEvent::Key { virtual_key: wparam as u16, state: KeyState::Released },
            );
            MessageAction::Handled
        } else if msg == WM_CHAR {
            self.push_utf16_code_unit(wparam as u16);
            MessageAction::Handled
        } else if msg == WM_SETFOCUS {
            self.push_event(WindowEvent::Focused(true));
            MessageAction::Handled
        } else if msg == WM_KILLFOCUS {
            self.release_pressed_mouse_buttons();
            self.push_event(WindowEvent::Focused(false));
            MessageAction::ReleaseCapture
        } else if msg == WM_CLOSE {
            self.push_event(WindowEvent::CloseRequested);
            MessageAction::Handled
        } else if msg == WM_DESTROY {
            self.closed = true;
            MessageAction::Handled
        } else if msg == WM_NCDESTROY {
            self.closed = true;
            MessageAction::Detach
        } else {
            MessageAction::Default
        }
    }

    /// Queue a wheel turn at a point already converted to client coordinates.
    pub fn push_wheel(&mut self, delta: i16, x: i32, y: i32)
        requires
            old(self)@.wf(),
        ensures
            final(self)@ == old(self)@.push(WindowEvent::MouseWheel { delta, x, y }),
            final(self)@.wf(),
    {
        self.push_event(WindowEvent::MouseWheel { delta, x, y });
    }

    /// Hand out the queued events, oldest first, and empty the queue.
    pub fn drain_events(&mut self) -> (drained: Vec<WindowEvent>)
        requires
            old(self)@.wf(),
        ensures
            drained@ == old(self)@.events,
            final(self)@ == (WindowModel { events: Seq::empty(), ..old(self)@ }),
            final(self)@.wf(),
    {
        let mut drained: Vec<WindowEvent> = Vec::new();
        while self.events.len() > 0
            invariant
                drained@ + self.events@ == old(self)@.events,
                self@ == (WindowModel { events: self.events@, ..old(self)@ }),
            decreases self.events@.len(),
        {
            let ghost before = self.events@;
            if let Some(event) = self.events.pop_front() {
                drained.push(event);
                proof {
                    assert(before =~= seq![event] + self.events@);
                    assert(drained@ + self.events@ =~= old(self)@.events);
                }
            }
        }
        proof {
            assert(drained@ + self.events@ =~= drained@);
            assert(self.events@ =~= Seq::<WindowEvent>::empty());
        }
        drained
    }

    /// How many events were dropped since the last call; the count starts over.
    pub fn take_dropped_event_count(&mut self) -> (count: usize)
        ensures
            count == old(self)@.dropped_events,
            final(self)@ == (WindowModel { dropped_events: 0, ..old(self)@ }),
    {
        let count = self.dropped_events;
        self.dropped_events = 0;
        count
    }

    /// Take a new interaction mode once the window style has been changed to it: the
    /// queued events and the input in progress are discarded, and the caller releases the
    /// mouse capture when input goes back to the target and activates the window that now
    /// takes the input.
    pub fn complete_mode_change(&mut self, mode: &mut InteractionMode, requested: InteractionMode) -> (
        switch: ModeSwitch)
        ensures
            *final(mode) == requested,
            switch == (ModeSwitch {
                release_capture: requested == InteractionMode::PassThrough,
                focus_overlay: requested == InteractionMode::Interactive,
            }),
            final(self)@ == (WindowModel {
                events: Seq::empty(),
                pressed_mouse_buttons: 0,
                pending_high_surrogate: None,
                ..old(self)@
            }),
            final(self)@.wf(),
    {
        self.reset_for_mode_change();
        *mode = requested;
        ModeSwitch {
            release_capture: requested == InteractionMode::PassThrough,
            focus_overlay: requested == InteractionMode::Interactive,
        }
    }

    /// Switching interaction mode discards the queued events and the input in progress.
    pub fn reset_for_mode_change(&mut self)
        ensures
            final(self)@ == (WindowModel {
                events: Seq::empty(),
                pressed_mouse_buttons: 0,
                pending_high_surrogate: None,
                ..old(self)@
            }),
            final(self)@.wf(),
    {
        self.events.clear();
        self.clear_input_state();
        assert(self@.events =~= Seq::<WindowEvent>::empty());
    }
}

} // verus!

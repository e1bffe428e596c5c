//! The window's input bookkeeping: which keys and mouse buttons are held,
//! whether the cursor is over the window, and what each window event asks
//! the event loop to do.
//!
//! Keys and mouse buttons are identified by `u32` codes chosen by the
//! caller; the event loop maps its platform key and button values to codes
//! and hands each window event over as a [`WindowInput`].

use std::collections::HashSet;
use vstd::prelude::*;

verus! {

broadcast use vstd::std_specs::hash::group_hash_axioms;

/// A window event, as far as the input bookkeeping needs to know it.
#[derive(Clone, Copy, Debug)]
pub enum WindowInput {
    /// A keyboard key went down or up: `code` is the physical key's code,
    /// `None` when the platform could not identify the key; `escape` tells
    /// whether the key's logical meaning is Escape.
    Key { code: Option<u32>, pressed: bool, escape: bool },
    /// The cursor moved over the window.
    CursorMoved,
    /// A mouse button went down or up.
    MouseButton { button: u32, pressed: bool },
    /// The cursor left the window.
    CursorLeft,
    /// The window lost the keyboard focus.
    FocusLost,
    /// The user asked to close the window.
    CloseRequested,
    /// The window's client area was resized to `width` by `height`
    /// physical pixels.
    Resized { width: u32, height: u32 },
    /// The window's scale factor changed.
    ScaleChanged,
    /// The window asked to be redrawn.
    RedrawRequested,
    /// Any other event.
    Other,
}

/// What the event loop must do after a window event.
#[derive(Clone, Copy, Debug, PartialEq, Eq)]
pub enum WindowAction {
    /// Nothing beyond the input bookkeeping.
    Nothing,
    /// Leave the event loop: the window is closing.
    Exit,
    /// Recompute the surface size and reconfigure the surface.
    Resize,
    /// Render a frame and request the next one.
    Render,
}

/// The abstract input state: the held key codes, the held mouse button
/// codes, and whether the cursor is over the window.
pub struct InputView {
    pub keys: Set<u32>,
    pub buttons: Set<u32>,
    pub cursor_inside: bool,
}

/// The input state and the action after event `e` in state `s`.
///
/// A key press or release adds or removes its code (an unidentified key
/// changes nothing), and a pressed Escape closes the window. A mouse
/// button does the same for the held buttons. When the cursor leaves the
/// window, the held buttons are dropped, since their releases may never
/// arrive; when the window loses the focus, every held key and button is
/// dropped and the cursor is forgotten. A resize to a non-empty size, or a
/// scale change, reconfigures the surface; a resize to an empty size (a
/// minimized window) is ignored.
pub open spec fn input_step(s: InputView, e: WindowInput) -> (InputView, WindowAction) {
    match e {
        WindowInput::Key { code, pressed, escape } => {
            let keys = match code {
                Some(c) => if pressed { s.keys.insert(c) } else { s.keys.remove(c) },
                None => s.keys,
            };
            (
                InputView { keys, buttons: s.buttons, cursor_inside: s.cursor_inside },
                if pressed && escape { WindowAction::Exit } else { WindowAction::Nothing },
            )
        },
        WindowInput::CursorMoved => (
            InputView { keys: s.keys, buttons: s.buttons, cursor_inside: true },
            WindowAction::Nothing,
        ),
        WindowInput::MouseButton { button, pressed } => (
            InputView {
                keys: s.keys,
                buttons: if pressed { s.buttons.insert(button) } else { s.buttons.remove(button) },
                cursor_inside: s.cursor_inside,
            },
            WindowAction::Nothing,
        ),
        WindowInput::CursorLeft => (
            InputView { keys: s.keys, buttons: Set::empty(), cursor_inside: false },
            WindowAction::Nothing,
        ),
        WindowInput::FocusLost => (
            InputView { keys: Set::empty(), buttons: Set::empty(), cursor_inside: false },
            WindowAction::Nothing,
        ),
        WindowInput::CloseRequested => (s, WindowAction::Exit),
        WindowInput::Resized { width, height } => (
            s,
            if width > 0 && height > 0 { WindowAction::Resize } else { WindowAction::Nothing },
        ),
        WindowInput::ScaleChanged => (s, WindowAction::Resize),
        WindowInput::RedrawRequested => (s, WindowAction::Render),
        WindowInput::Other => (s, WindowAction::Nothing),
    }
}

/// The window's held keys and mouse buttons, and whether the cursor is
/// over the window.
pub struct InputState {
    keys: HashSet<u32>,
    buttons: HashSet<u32>,
    cursor_inside: bool,
}

impl View for InputState {
    type V = InputView;

    closed spec fn view(&self) -> InputView {
        InputView {
            keys: self.keys@,
            buttons: self.buttons@,
            cursor_inside: self.cursor_inside,
        }
    }
}

impl InputState {
    /// No key or button held, the cursor not over the window.
    pub fn new() -> (state: Self)
        ensures
            state@.keys == Set::<u32>::empty(),
            state@.buttons == Set::<u32>::empty(),
            !state@.cursor_inside,
    {
        InputState { keys: HashSet::new(), buttons: HashSet::new(), cursor_inside: false }
    }

    /// Whether the key with `code` is currently held down.
    pub fn key_down(&self, code: u32) -> (held: bool)
        ensures
            held == self@.keys.contains(code),
    {
        self.keys.contains(&code)
    }

    /// Whether the mouse button with `code` is currently held down.
    pub fn button_down(&self, code: u32) -> (held: bool)
        ensures
            held == self@.buttons.contains(code),
    {
        self.buttons.contains(&code)
    }

    /// Whether the cursor is over the window, so its last position is
    /// current.
    pub fn cursor_inside(&self) -> (inside: bool)
        ensures
            inside == self@.cursor_inside,
    {
        self.cursor_inside
    }

    /// Updates the input state with the window event `event` and tells
    /// what the event loop must do, as [`input_step`] states.
    pub fn handle(&mut self, event: WindowInput) -> (action: WindowAction)
        ensures
            (final(self)@, action) == input_step(old(self)@, event),
    {
        match event {
            WindowInput::Key { code, pressed, escape } => {
                if let Some(c) = code {
                    if pressed {
                        self.keys.insert(c);
                    } else {
                        self.keys.remove(&c);
                    }
                }
                if pressed && escape {
                    WindowAction::Exit
                } else {
                    WindowAction::Nothing
                }
            },
            WindowInput::CursorMoved => {
                self.cursor_inside = true;
                WindowAction::Nothing
            },
            WindowInput::MouseButton { button, pressed } => {
                if pressed {
                    self.buttons.insert(button);
                } else {
                    self.buttons.remove(&button);
                }
                WindowAction::Nothing
            },
            WindowInput::CursorLeft => {
                self.cursor_inside = false;
                self.buttons.clear();
                WindowAction::Nothing
            },
            WindowInput::FocusLost => {
                self.keys.clear();
                self.buttons.clear();
                self.cursor_inside = false;
                WindowAction::Nothing
            },
            WindowInput::CloseRequested => WindowAction::Exit,
            WindowInput::Resized { width, height } => {
                if width > 0 && height > 0 {
                    WindowAction::Resize
                } else {
                    WindowAction::Nothing
                }
            },
            WindowInput::ScaleChanged => WindowAction::Resize,
            WindowInput::RedrawRequested => WindowAction::Render,
            WindowInput::Other => WindowAction::Nothing,
        }
    }
}

/// Releasing a key undoes pressing it: a key pressed and then released is
/// not held, and every other key is held exactly as before.
pub proof fn lemma_press_then_release(s: InputView, code: u32, escape: bool)
    ensures
        ({
            let pressed = input_step(s, WindowInput::Key { code: Some(code), pressed: true, escape }).0;
            let released = input_step(pressed, WindowInput::Key { code: Some(code), pressed: false, escape }).0;
            &&& !released.keys.contains(code)
            &&& released.keys == s.keys.remove(code)
            &&& released.buttons == s.buttons
        }),
{
    let pressed = input_step(s, WindowInput::Key { code: Some(code), pressed: true, escape }).0;
    let released = input_step(pressed, WindowInput::Key { code: Some(code), pressed: false, escape }).0;
    assert(released.keys =~= s.keys.remove(code));
}

/// Nothing can stay stuck down: once the window loses the focus, no key or
/// button is held, whatever was held before; once the cursor leaves the
/// window, no button is held.
pub proof fn lemma_nothing_stays_stuck(s: InputView)
    ensures
        input_step(s, WindowInput::FocusLost).0.keys.is_empty(),
        input_step(s, WindowInput::FocusLost).0.buttons.is_empty(),
        input_step(s, WindowInput::CursorLeft).0.buttons.is_empty(),
{
}

/// Only Escape presses and close requests close the window.
pub proof fn lemma_exit_only_on_escape_or_close(s: InputView, e: WindowInput)
    ensures
        input_step(s, e).1 == WindowAction::Exit <==> (e is CloseRequested || (e matches WindowInput::Key {
            pressed,
            escape,
            ..
        } && pressed && escape)),
{
}

/// What each window event changes, over every input state: held mouse
/// buttons change only on a mouse button event, when the cursor leaves or
/// when the focus is lost (so a drag keeps its button held while the
/// cursor moves); held keys change only on a key event or a focus loss;
/// the cursor's presence changes only when it moves (it is then over the
/// window), leaves, or the focus is lost. A press holds exactly its own
/// key or button, a release frees exactly its own, and every other key or
/// button stays as it was.
pub proof fn lemma_what_each_event_changes(s: InputView, e: WindowInput)
    ensures
        !(e is MouseButton || e is CursorLeft || e is FocusLost) ==> input_step(s, e).0.buttons == s.buttons,
        !(e is Key || e is FocusLost) ==> input_step(s, e).0.keys == s.keys,
        !(e is CursorMoved || e is CursorLeft || e is FocusLost) ==> input_step(s, e).0.cursor_inside
            == s.cursor_inside,
        e is CursorMoved ==> input_step(s, e).0.cursor_inside,
        e is CursorLeft ==> !input_step(s, e).0.cursor_inside && input_step(s, e).0.buttons.is_empty(),
        e matches WindowInput::MouseButton { button, pressed } ==> input_step(s, e).0.buttons.contains(
            button,
        ) == pressed && forall|c: u32|
            c != button ==> #[trigger] input_step(s, e).0.buttons.contains(c) == s.buttons.contains(c),
        e matches WindowInput::Key { code: Some(k), pressed, .. } ==> input_step(s, e).0.keys.contains(k)
            == pressed && forall|c: u32| c != k ==> #[trigger] input_step(s, e).0.keys.contains(c) == s.keys.contains(c),
        e matches WindowInput::Key { code: None, .. } ==> input_step(s, e).0.keys == s.keys,
{
}

/// What the event loop is told to do, over every input state and event:
/// render exactly on a redraw request; reconfigure the surface exactly on
/// a scale change or a resize to a non-empty size; otherwise, beyond the
/// exits, nothing.
pub proof fn lemma_what_each_event_asks(s: InputView, e: WindowInput)
    ensures
        input_step(s, e).1 == WindowAction::Render <==> e is RedrawRequested,
        input_step(s, e).1 == WindowAction::Resize <==> (e is ScaleChanged || (e matches WindowInput::Resized {
            width,
            height,
        } && width > 0 && height > 0)),
        input_step(s, e).1 == WindowAction::Nothing <==> !(e is RedrawRequested || e is ScaleChanged
            || e is CloseRequested || (e matches WindowInput::Resized { width, height } && width > 0 && height > 0)
            || (e matches WindowInput::Key { pressed, escape, .. } && pressed && escape)),
{
}

} // verus!

//! Windows, their builder, and the input events a window receives.

use vstd::prelude::*;
use crate::text::to_owned_string;

verus! {

/// A window: its size and title.
#[derive(Debug)]
pub struct Window {
    width: u32,
    height: u32,
    title: String,
}

impl Window {
    pub closed spec fn spec_width(&self) -> u32 {
        self.width
    }

    pub closed spec fn spec_height(&self) -> u32 {
        self.height
    }

    pub closed spec fn spec_title(&self) -> Seq<char> {
        self.title@
    }

    /// A window with the given title and size.
    pub fn new(title: &str, width: u32, height: u32) -> (r: Self)
        ensures
            r.spec_title() == title@,
            r.spec_width() == width,
            r.spec_height() == height,
    {
        Window { width, height, title: to_owned_string(title) }
    }

    pub fn width(&self) -> (r: u32)
        ensures
            r == self.spec_width(),
    {
        self.width
    }

    pub fn height(&self) -> (r: u32)
        ensures
            r == self.spec_height(),
    {
        self.height
    }

    /// Width and height.
    pub fn size(&self) -> (r: (u32, u32))
        ensures
            r == (self.spec_width(), self.spec_height()),
    {
        (self.width, self.height)
    }

    pub fn title(&self) -> (r: &str)
        ensures
            r@ == self.spec_title(),
    {
        self.title.as_str()
    }

    /// Changes the size; the title stays.
    pub fn resize(&mut self, width: u32, height: u32)
        ensures
            final(self).spec_width() == width,
            final(self).spec_height() == height,
            final(self).spec_title() == old(self).spec_title(),
    {
        self.width = width;
        self.height = height;
    }
}

/// Key state.
#[derive(Debug, Clone, Copy, PartialEq, Eq, Structural)]
pub enum KeyState {
    Pressed,
    Released,
}

/// Virtual key codes: letters, digits, function keys, special and arrow
/// keys, modifiers, and unknown keys.
#[derive(Debug, Clone, Copy, PartialEq, Eq, Structural)]
pub enum Key {
    A,
    B,
    C,
    D,
    E,
    F,
    G,
    H,
    I,
    J,
    K,
    L,
    M,
    N,
    O,
    P,
    Q,
    R,
    S,
    T,
    U,
    V,
    W,
    X,
    Y,
    Z,
    Digit0,
    Digit1,
    Digit2,
    Digit3,
    Digit4,
    Digit5,
    Digit6,
    Digit7,
    Digit8,
    Digit9,
    F1,
    F2,
    F3,
    F4,
    F5,
    F6,
    F7,
    F8,
    F9,
    F10,
    F11,
    F12,
    Escape,
    Enter,
    Tab,
    Space,
    Backspace,
    Delete,
    Insert,
    Home,
    End,
    PageUp,
    PageDown,
    ArrowUp,
    ArrowDown,
    ArrowLeft,
    ArrowRight,
    Shift,
    Control,
    Alt,
    Meta,
    Unknown,
}

/// Mouse buttons.
#[derive(Debug, Clone, Copy, PartialEq, Eq, Structural)]
pub enum MouseButton {
    Left,
    Right,
    Middle,
    Other(u8),
}

/// Modifier keys held down.
#[derive(Debug, Clone, Copy, PartialEq, Eq, Structural)]
pub struct Modifiers {
    pub shift: bool,
    pub ctrl: bool,
    pub alt: bool,
    pub meta: bool,
}

impl Default for Modifiers {
    /// No modifier held.
    fn default() -> (r: Self)
        ensures
            r == (Modifiers { shift: false, ctrl: false, alt: false, meta: false }),
    {
        Modifiers { shift: false, ctrl: false, alt: false, meta: false }
    }
}

/// A keyboard input event.
#[derive(Debug, Clone, Copy, PartialEq, Eq, Structural)]
pub struct KeyboardInput {
    pub key: Key,
    pub state: KeyState,
    pub modifiers: Modifiers,
}

/// A mouse button event.
#[derive(Debug, Clone, Copy, PartialEq, Eq, Structural)]
pub struct MouseInput {
    pub button: MouseButton,
    pub state: KeyState,
}

/// The source of windows: the size and title they get.
#[derive(Debug)]
pub struct EventLoop {
    width: u32,
    height: u32,
    title: String,
}

impl EventLoop {
    pub closed spec fn spec_width(&self) -> u32 {
        self.width
    }

    pub closed spec fn spec_height(&self) -> u32 {
        self.height
    }

    pub closed spec fn spec_title(&self) -> Seq<char> {
        self.title@
    }

    pub fn new(title: &str, width: u32, height: u32) -> (r: Self)
        ensures
            r.spec_title() == title@,
            r.spec_width() == width,
            r.spec_height() == height,
    {
        EventLoop { width, height, title: to_owned_string(title) }
    }

    /// A window with the loop's title and size.
    pub fn create_window(&self) -> (r: Window)
        ensures
            r.spec_title() == self.spec_title(),
            r.spec_width() == self.spec_width(),
            r.spec_height() == self.spec_height(),
    {
        Window::new(self.title.as_str(), self.width, self.height)
    }
}

/// Builds windows: 800 by 600, titled `MathCore`, resizable and decorated
/// unless set otherwise.
#[derive(Debug)]
pub struct WindowBuilder {
    width: u32,
    height: u32,
    title: String,
    resizable: bool,
    decorated: bool,
}

impl WindowBuilder {
    pub closed spec fn spec_width(&self) -> u32 {
        self.width
    }

    pub closed spec fn spec_height(&self) -> u32 {
        self.height
    }

    pub closed spec fn spec_title(&self) -> Seq<char> {
        self.title@
    }

    pub closed spec fn spec_resizable(&self) -> bool {
        self.resizable
    }

    pub closed spec fn spec_decorated(&self) -> bool {
        self.decorated
    }

    pub fn new() -> (r: Self)
        ensures
            r.spec_width() == 800,
            r.spec_height() == 600,
            r.spec_title() == "MathCore"@,
            r.spec_resizable(),
            r.spec_decorated(),
    {
        WindowBuilder { width: 800, height: 600, title: to_owned_string("MathCore"), resizable: true, decorated: true }
    }

    /// Sets the title.
    pub fn with_title(self, title: &str) -> (r: Self)
        ensures
            r.spec_title() == title@,
            r.spec_width() == self.spec_width(),
            r.spec_height() == self.spec_height(),
            r.spec_resizable() == self.spec_resizable(),
            r.spec_decorated() == self.spec_decorated(),
    {
        WindowBuilder { title: to_owned_string(title), ..self }
    }

    /// Sets the size.
    pub fn with_size(self, width: u32, height: u32) -> (r: Self)
        ensures
            r.spec_title() == self.spec_title(),
            r.spec_width() == width,
            r.spec_height() == height,
            r.spec_resizable() == self.spec_resizable(),
            r.spec_decorated() == self.spec_decorated(),
    {
        WindowBuilder { width, height, ..self }
    }

    /// Sets whether the window can be resized.
    pub fn resizable(self, resizable: bool) -> (r: Self)
        ensures
            r.spec_title() == self.spec_title(),
            r.spec_width() == self.spec_width(),
            r.spec_height() == self.spec_height(),
            r.spec_resizable() == resizable,
            r.spec_decorated() == self.spec_decorated(),
    {
        WindowBuilder { resizable, ..self }
    }

    /// Sets whether the window has a title bar.
    pub fn decorated(self, decorated: bool) -> (r: Self)
        ensures
            r.spec_title() == self.spec_title(),
            r.spec_width() == self.spec_width(),
            r.spec_height() == self.spec_height(),
            r.spec_resizable() == self.spec_resizable(),
            r.spec_decorated() == decorated,
    {
        WindowBuilder { decorated, ..self }
    }

    /// The window.
    pub fn build(self) -> (r: Window)
        ensures
            r.spec_title() == self.spec_title(),
            r.spec_width() == self.spec_width(),
            r.spec_height() == self.spec_height(),
    {
        Window { width: self.width, height: self.height, title: self.title }
    }

    /// An event loop that creates such windows.
    pub fn build_event_loop(self) -> (r: EventLoop)
        ensures
            r.spec_title() == self.spec_title(),
            r.spec_width() == self.spec_width(),
            r.spec_height() == self.spec_height(),
    {
        EventLoop { width: self.width, height: self.height, title: self.title }
    }
}

impl Default for WindowBuilder {
    fn default() -> (r: Self)
        ensures
            r.spec_width() == 800,
            r.spec_height() == 600,
            r.spec_title() == "MathCore"@,
            r.spec_resizable(),
            r.spec_decorated(),
    {
        WindowBuilder::new()
    }
}

} // verus!

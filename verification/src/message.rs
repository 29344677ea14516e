//! Window messages: which of them the tray window acts on, and how.

use vstd::prelude::*;

verus! {

/// First message number that applications may use among themselves.
pub const WM_APP: u32 = 0x8000;

pub const WM_CLOSE: u32 = 0x0010;

pub const WM_COMMAND: u32 = 0x0111;

pub const WM_DESTROY: u32 = 0x0002;

pub const WM_QUIT: u32 = 0x0012;

pub const WM_RBUTTONUP: u32 = 0x0205;

/// The user picked the tray icon with the left mouse button or the keyboard.
pub const NIN_SELECT: u32 = 0x0400;

/// The message that the tray icon sends to the window.
pub const TASKBAR_CB_ID: u32 = WM_APP + 0x42;

/// What the window does about a message.
#[derive(Clone, Copy, Debug, PartialEq, Eq, Structural)]
pub enum WindowAction {
    /// Show the popup menu at the cursor.
    ShowPopupMenu,
    /// Switch to the next device of the rotation.
    NextDevice,
    /// Carry out the menu item with this id.
    MenuSelection { id: u32 },
    /// Save the device states and leave the message loop.
    Shutdown,
    /// Leave the message to the system.
    Default,
}

/// What the message loop does after it asked for a message.
#[derive(Clone, Copy, Debug, PartialEq, Eq, Structural)]
pub enum LoopAction {
    /// Leave the loop.
    Quit,
    /// Report the system's last error and go on.
    ReportError,
    /// Hand the message to the window.
    Dispatch,
}

/// The low 16 bits of a message parameter.
pub open spec fn low_word(l: int) -> int {
    l % 0x10000
}

/// The 16 bits above the low ones.
pub open spec fn high_word(l: int) -> int {
    (l / 0x10000) % 0x10000
}

/// The action that a window message asks for.
///
/// The tray icon says in the low word of `lparam` what happened to it; a menu command carries
/// the id of the item in the low word of `wparam`.
pub open spec fn window_action(msg: u32, wparam: usize, lparam: isize) -> WindowAction {
    if msg == TASKBAR_CB_ID && low_word(lparam as int) == WM_RBUTTONUP {
        WindowAction::ShowPopupMenu
    } else if msg == TASKBAR_CB_ID && low_word(lparam as int) == NIN_SELECT {
        WindowAction::NextDevice
    } else if msg == WM_COMMAND {
        WindowAction::MenuSelection { id: low_word(wparam as int) as u32 }
    } else if msg == WM_DESTROY {
        WindowAction::Shutdown
    } else {
        WindowAction::Default
    }
}

proof fn lemma_words(l: isize)
    ensures
        l & 0xffff == low_word(l as int),
        l >> 16 == l as int / 0x10000,
{
    assert(l == (l >> 16) * 0x10000 + (l & 0xffff) && 0 <= (l & 0xffff) < 0x10000) by (bit_vector);
}

/// The low word of a message parameter.
#[allow(non_snake_case)]
pub fn LOWORD(l: isize) -> (word: isize)
    ensures
        word == low_word(l as int),
        0 <= word < 0x10000,
        (l - word) % 0x10000 == 0,
{
    proof {
        lemma_words(l);
    }
    l & 0xffff
}

/// The high word of a message parameter.
#[allow(non_snake_case)]
pub fn HIWORD(l: isize) -> (word: isize)
    ensures
        word == high_word(l as int),
        0 <= word < 0x10000,
        word * 0x10000 <= l as int % 0x1_0000_0000 < word * 0x10000 + 0x10000,
{
    proof {
        lemma_words(l);
        lemma_words(l >> 16);
    }
    (l >> 16) & 0xffff
}

/// Decides what the window does about a message.
pub fn window_callback(msg: u32, wparam: usize, lparam: isize) -> (action: WindowAction)
    ensures
        action == window_action(msg, wparam, lparam),
        action is ShowPopupMenu <==> msg == 0x8042 && lparam as int % 0x10000 == 0x0205,
        action is NextDevice <==> msg == 0x8042 && lparam as int % 0x10000 == 0x0400,
        action is MenuSelection <==> msg == 0x0111,
        msg == 0x0111 ==> action->id as int == wparam as int % 0x10000,
        action is Shutdown <==> msg == 0x0002,
{
    match msg {
        TASKBAR_CB_ID => match LOWORD(lparam) as u32 {
            WM_RBUTTONUP => WindowAction::ShowPopupMenu,
            NIN_SELECT => WindowAction::NextDevice,
            _ => WindowAction::Default,
        },
        WM_COMMAND => {
            proof {
                lemma_words(wparam as isize);
                assert(((wparam as isize) & 0xffff) == wparam % 0x10000) by (bit_vector);
            }
            let chosen: u32 = LOWORD(wparam as isize) as u32;
            WindowAction::MenuSelection { id: chosen }
        },
        WM_DESTROY => WindowAction::Shutdown,
        _ => WindowAction::Default,
    }
}

impl WindowAction {
    /// What the window answers to a message on which it acts; `None` where the system is to
    /// answer.
    pub fn answer(self) -> (lresult: Option<isize>)
        ensures
            lresult == (if self == WindowAction::Default {
                None
            } else {
                Some(0isize)
            }),
    {
        match self {
            WindowAction::Default => None,
            _ => Some(0),
        }
    }
}

/// Decides what the message loop does, from what the system answered when asked for a message
/// and the message it handed over. Only a quit message comes with the answer 0.
pub fn message_loop_step(answer: i32, message: u32) -> (action: LoopAction)
    requires
        answer == 0 ==> message == WM_QUIT,
    ensures
        action == LoopAction::Quit <==> answer == 0,
        action == LoopAction::ReportError <==> answer == -1,
        action == LoopAction::Dispatch <==> answer != 0 && answer != -1,
        action == LoopAction::Quit ==> message == 0x0012,
{
    if answer == 0 {
        LoopAction::Quit
    } else if answer == -1 {
        LoopAction::ReportError
    } else {
        LoopAction::Dispatch
    }
}

/// The two words together are the low 32 bits of a parameter.
pub proof fn law_words_cover_low_bits(l: int)
    ensures
        high_word(l) * 0x10000 + low_word(l) == l % 0x1_0000_0000,
        0 <= low_word(l) < 0x10000,
        0 <= high_word(l) < 0x10000,
{
}

/// The tray icon's message, a menu command and the destruction of the window are the only
/// messages that the window acts on.
pub proof fn law_other_messages_left_alone(msg: u32, wparam: usize, lparam: isize)
    requires
        msg != TASKBAR_CB_ID,
        msg != WM_COMMAND,
        msg != WM_DESTROY,
    ensures
        window_action(msg, wparam, lparam) == WindowAction::Default,
{
}

/// What the system puts above the low word of a parameter makes no difference.
pub proof fn law_high_words_ignored(
    msg: u32,
    wparam: usize,
    lparam: isize,
    other_wparam: usize,
    other_lparam: isize,
)
    requires
        low_word(wparam as int) == low_word(other_wparam as int),
        low_word(lparam as int) == low_word(other_lparam as int),
    ensures
        window_action(msg, wparam, lparam) == window_action(msg, other_wparam, other_lparam),
{
}

/// Which message brings which action, and no other does. The menu opens on a right click on the
/// icon, the next device comes with its selection, a command carries out the item in the low
/// word, and destruction of the window shuts down.
pub proof fn law_message_brings_action(msg: u32, wparam: usize, lparam: isize)
    ensures
        window_action(msg, wparam, lparam) is ShowPopupMenu <==> msg == 0x8042 && lparam as int
            % 0x10000 == 0x0205,
        window_action(msg, wparam, lparam) is NextDevice <==> msg == 0x8042 && lparam as int
            % 0x10000 == 0x0400,
        window_action(msg, wparam, lparam) is MenuSelection <==> msg == 0x0111,
        msg == 0x0111 ==> window_action(msg, wparam, lparam)->id as int == wparam as int % 0x10000,
        window_action(msg, wparam, lparam) is Shutdown <==> msg == 0x0002,
{
}

} // verus!

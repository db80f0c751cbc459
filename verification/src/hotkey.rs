//! The keystrokes that copy the selection when the hotkey fires.
use vstd::prelude::*;

verus! {

/// Virtual-key codes.
pub const VK_SHIFT: u8 = 0x10;

pub const VK_CONTROL: u8 = 0x11;

pub const VK_MENU: u8 = 0x12;

pub const VK_LWIN: u8 = 0x5B;

pub const VK_RWIN: u8 = 0x5C;

pub const VK_C: u8 = 0x43;

/// The pause between keystrokes, in milliseconds.
pub const KEY_PAUSE_MS: u64 = 15;

/// One step of simulated typing.
#[derive(Clone, Copy, Debug, PartialEq, Eq)]
pub enum KeyStep {
    Press(u8),
    Release(u8),
    Pause(u64),
}

/// A clean Ctrl+C: when the hotkey fires Ctrl+Shift are still held, so
/// every modifier is released first (or the keys would make Ctrl+Shift+C);
/// then Ctrl and C go down and up again.
pub open spec fn ctrl_c_steps() -> Seq<KeyStep> {
    seq![
        KeyStep::Release(VK_SHIFT),
        KeyStep::Release(VK_MENU),
        KeyStep::Release(VK_LWIN),
        KeyStep::Release(VK_RWIN),
        KeyStep::Release(VK_CONTROL),
        KeyStep::Pause(KEY_PAUSE_MS),
        KeyStep::Press(VK_CONTROL),
        KeyStep::Press(VK_C),
        KeyStep::Pause(KEY_PAUSE_MS),
        KeyStep::Release(VK_C),
        KeyStep::Release(VK_CONTROL),
    ]
}

/// The keystrokes of a clean Ctrl+C, which the application types.
pub fn send_ctrl_c() -> (r: Vec<KeyStep>)
    ensures
        r@ == ctrl_c_steps(),
{
    let mut r: Vec<KeyStep> = Vec::new();
    r.push(KeyStep::Release(VK_SHIFT));
    r.push(KeyStep::Release(VK_MENU));
    r.push(KeyStep::Release(VK_LWIN));
    r.push(KeyStep::Release(VK_RWIN));
    r.push(KeyStep::Release(VK_CONTROL));
    r.push(KeyStep::Pause(KEY_PAUSE_MS));
    r.push(KeyStep::Press(VK_CONTROL));
    r.push(KeyStep::Press(VK_C));
    r.push(KeyStep::Pause(KEY_PAUSE_MS));
    r.push(KeyStep::Release(VK_C));
    r.push(KeyStep::Release(VK_CONTROL));
    assert(r@ =~= ctrl_c_steps());
    r
}

/// In the keystrokes, every key that goes down comes up again later.
pub proof fn lemma_ctrl_c_releases_what_it_presses()
    ensures
        forall|i: int|
            0 <= i < ctrl_c_steps().len() && (#[trigger] ctrl_c_steps()[i]) is Press ==> exists|j: int|
                i < j < ctrl_c_steps().len() && ctrl_c_steps()[j] == KeyStep::Release(
                    ctrl_c_steps()[i]->Press_0,
                ),
{
    let s = ctrl_c_steps();
    assert(s[10] == KeyStep::Release(VK_CONTROL));
    assert(s[9] == KeyStep::Release(VK_C));
}

} // verus!

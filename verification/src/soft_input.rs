//! Requests to the on-screen keyboard.
//!
//! The books never touch the keyboard; the shell around them asks for it
//! when a text field takes the focus. A host without an on-screen keyboard
//! answers every request here: each succeeds and does nothing. A host with
//! one makes the request itself and takes from here only the flags to pass.

use vstd::prelude::*;

verus! {

/// Reads `ndk_sys::ANATIVEACTIVITY_SHOW_SOFT_INPUT_IMPLICIT`, the flag that
/// marks a request to show the keyboard as implicit: made because a field
/// took the focus, not because the user asked. That the flag is 1 is taken
/// on trust from the bindings of ndk-sys 0.6.0, which give it so for every
/// architecture.
#[verifier::external_body]
fn implicit_flag() -> (flag: i32)
    ensures
        flag == 1,
{
    ndk_sys::ANATIVEACTIVITY_SHOW_SOFT_INPUT_IMPLICIT as i32
}

/// Why a request to the keyboard failed.
#[derive(Clone, Debug)]
pub struct SoftInputError {
    pub message: String,
}

/// The flags of a request to show the keyboard.
pub fn show_flags(show_implicit: bool) -> (flags: i32)
    ensures
        flags == (if show_implicit {
            1i32
        } else {
            0i32
        }),
{
    if show_implicit {
        implicit_flag()
    } else {
        0
    }
}

/// Takes the host's application handle. A host without an on-screen
/// keyboard has none to give.
pub fn set_android_app(_app: ()) {
}

/// Looks for the host's application handle in the window framework. A host
/// without an on-screen keyboard has none to find.
pub fn try_init_from_eframe() {
}

/// Asks for the keyboard to be shown. Without an on-screen keyboard there is
/// nothing to show and nothing to fail.
pub fn show_soft_input(_show_implicit: bool) -> (r: Result<(), SoftInputError>)
    ensures
        r is Ok,
{
    Ok(())
}

/// Asks for the keyboard to be hidden. Without an on-screen keyboard there
/// is nothing to hide and nothing to fail.
pub fn hide_soft_input() -> (r: Result<(), SoftInputError>)
    ensures
        r is Ok,
{
    Ok(())
}

} // verus!

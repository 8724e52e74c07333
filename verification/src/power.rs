//! The flag set handed to `SetThreadExecutionState`.
//!
//! The call itself is made by the program, from its main thread: the API's
//! state is bound to the calling thread, and that thread must stay alive for
//! the request to hold.

use vstd::prelude::*;

use windows_sys::Win32::System::Power::{ES_CONTINUOUS, ES_DISPLAY_REQUIRED, ES_SYSTEM_REQUIRED};

verus! {

/// `ES_CONTINUOUS`: the request holds until it is replaced.
pub open spec fn continuous() -> u32 {
    0x8000_0000
}

/// `ES_SYSTEM_REQUIRED`: the system must not sleep.
pub open spec fn system_required() -> u32 {
    0x0000_0001
}

/// `ES_DISPLAY_REQUIRED`: the display must stay on.
pub open spec fn display_required() -> u32 {
    0x0000_0002
}

/// windows-sys's `ES_CONTINUOUS`, which the Win32 documentation of
/// `SetThreadExecutionState` gives as 0x80000000.
#[verifier::external_body]
fn es_continuous() -> (f: u32)
    ensures
        f == continuous(),
{
    ES_CONTINUOUS
}

/// windows-sys's `ES_SYSTEM_REQUIRED`, documented as 0x00000001.
#[verifier::external_body]
fn es_system_required() -> (f: u32)
    ensures
        f == system_required(),
{
    ES_SYSTEM_REQUIRED
}

/// windows-sys's `ES_DISPLAY_REQUIRED`, documented as 0x00000002.
#[verifier::external_body]
fn es_display_required() -> (f: u32)
    ensures
        f == display_required(),
{
    ES_DISPLAY_REQUIRED
}

/// The flag set for the given switches.
pub open spec fn flag_set(system: bool, display: bool) -> u32 {
    continuous() | (if system { system_required() } else { 0 }) | (if display {
        display_required()
    } else {
        0
    })
}

/// Build the flag set for the given switches.
///
/// **`ES_CONTINUOUS` is always included.** It means "keep this state until
/// told otherwise"; without it the call merely resets the idle timer once, and
/// the machine still sleeps a few minutes later. That failure looks like the
/// program is working, which is what makes it dangerous.
pub fn flags(system: bool, display: bool) -> (f: u32)
    ensures
        f == flag_set(system, display),
        f & continuous() == continuous(),
        (f & system_required() != 0) == system,
        (f & display_required() != 0) == display,
{
    let f = es_continuous() | (if system { es_system_required() } else { 0 }) | (if display {
        es_display_required()
    } else {
        0
    });
    proof {
        let fs = flag_set(system, display);
        assert(fs == 0x8000_0000u32 | (if system { 1u32 } else { 0u32 }) | (if display { 2u32 } else { 0u32 }));
        assert(fs & 0x8000_0000u32 == 0x8000_0000u32) by (bit_vector)
            requires
                fs == 0x8000_0000u32 | (if system { 1u32 } else { 0u32 }) | (if display { 2u32 } else { 0u32 }),
        ;
        assert((fs & 1u32 != 0) == system) by (bit_vector)
            requires
                fs == 0x8000_0000u32 | (if system { 1u32 } else { 0u32 }) | (if display { 2u32 } else { 0u32 }),
        ;
        assert((fs & 2u32 != 0) == display) by (bit_vector)
            requires
                fs == 0x8000_0000u32 | (if system { 1u32 } else { 0u32 }) | (if display { 2u32 } else { 0u32 }),
        ;
    }
    f
}

} // verus!

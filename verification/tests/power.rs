use caffeinate::power::flags;
use windows_sys::Win32::System::Power::{ES_CONTINUOUS, ES_DISPLAY_REQUIRED, ES_SYSTEM_REQUIRED};

#[test]
fn flags_always_include_es_continuous() {
    // The easiest mistake in this project: without ES_CONTINUOUS the API
    // resets the idle timer once instead of holding the state.
    for (sys, disp) in [(false, false), (true, false), (false, true), (true, true)] {
        assert_ne!(
            flags(sys, disp) & ES_CONTINUOUS,
            0,
            "flags({sys}, {disp}) is missing ES_CONTINUOUS"
        );
    }
}

#[test]
fn all_off_is_es_continuous_alone() {
    assert_eq!(flags(false, false), ES_CONTINUOUS);
}

#[test]
fn flags_map_to_the_right_bits() {
    assert_eq!(flags(true, false), ES_CONTINUOUS | ES_SYSTEM_REQUIRED);
    assert_eq!(flags(false, true), ES_CONTINUOUS | ES_DISPLAY_REQUIRED);
    assert_eq!(flags(true, true), ES_CONTINUOUS | ES_SYSTEM_REQUIRED | ES_DISPLAY_REQUIRED);
}

#[test]
fn both_switches_read_back_as_documented() {
    // The README's read-back values for SetThreadExecutionState.
    assert_eq!(flags(true, true), 0x8000_0003);
    assert_eq!(flags(false, false), 0x8000_0000);
}

use caffeinate::ipc::{Wire, KIND_ACQUIRE, KIND_RELEASE, LABEL_CAP, WIRE_SIZE, WIRE_VERSION};

#[test]
fn round_trips_a_label() {
    let w = Wire::new(KIND_ACQUIRE, 42, "cargo build --release");
    assert!(w.is_valid());
    assert_eq!(w.label_string(), "cargo build --release");
    assert_eq!(w.pid, 42);
}

#[test]
fn truncates_an_over_long_label() {
    let long = "x".repeat(LABEL_CAP + 40);
    let w = Wire::new(KIND_ACQUIRE, 1, &long);
    assert_eq!(w.label_len as usize, LABEL_CAP);
    assert_eq!(w.label_string().chars().count(), LABEL_CAP);
    assert!(w.is_valid(), "truncation must not produce an invalid message");
}

#[test]
fn never_splits_a_surrogate_pair() {
    // Each emoji is two UTF-16 units, so 33 of them straddle the 64 unit
    // cap. Cutting mid pair would leave a lone surrogate, which decodes to
    // a replacement character.
    let long = "\u{1F600}".repeat(33);
    let w = Wire::new(KIND_ACQUIRE, 1, &long);
    assert!(w.label_len as usize <= LABEL_CAP);
    assert_eq!(w.label_string(), "\u{1F600}".repeat(32));
    assert!(
        !w.label_string().contains('\u{FFFD}'),
        "truncation must not manufacture a replacement character"
    );
}

#[test]
fn folds_control_characters_out_of_a_label() {
    // The sender is not authenticated, so a label reaches a menu row only
    // after anything that could break the row is neutralised.
    let w = Wire::new(KIND_ACQUIRE, 1, "build\r\nrm -rf");
    assert_eq!(w.label_string(), "build  rm -rf");
}

#[test]
fn handles_non_ascii_labels() {
    let w = Wire::new(KIND_ACQUIRE, 7, "建置 專案");
    assert_eq!(w.label_string(), "建置 專案");
}

#[test]
fn rejects_a_wrong_version() {
    let mut w = Wire::new(KIND_ACQUIRE, 1, "x");
    w.version = WIRE_VERSION + 1;
    assert!(!w.is_valid());
}

#[test]
fn rejects_an_unknown_kind() {
    let mut w = Wire::new(KIND_ACQUIRE, 1, "x");
    w.kind = 99;
    assert!(!w.is_valid());
}

#[test]
fn rejects_a_zero_pid() {
    // pid 0 is the system idle process and can never own a lease.
    let w = Wire::new(KIND_ACQUIRE, 0, "x");
    assert!(!w.is_valid());
}

#[test]
fn rejects_a_label_length_past_the_buffer() {
    let mut w = Wire::new(KIND_ACQUIRE, 1, "x");
    w.label_len = (LABEL_CAP + 1) as u32;
    assert!(!w.is_valid());
}

// ---------------------------------------------------------------- further cases

#[test]
fn the_label_buffer_holds_utf16_and_zeros_after_it() {
    let w = Wire::new(KIND_RELEASE, 3, "a\u{1F600}");
    assert_eq!(w.label_len, 3);
    assert_eq!(&w.label[..4], &[0x61, 0xD83D, 0xDE00, 0]);
    assert!(w.label[3..].iter().all(|&u| u == 0));
    assert_eq!(w.version, WIRE_VERSION);
    assert_eq!(w.kind, KIND_RELEASE);
}

#[test]
fn a_pair_that_would_straddle_the_cap_is_left_out_whole() {
    let label = format!("{}\u{1F600}", "y".repeat(LABEL_CAP - 1));
    let w = Wire::new(KIND_ACQUIRE, 1, &label);
    assert_eq!(w.label_len as usize, LABEL_CAP - 1);
    assert_eq!(w.label_string(), "y".repeat(LABEL_CAP - 1));
}

#[test]
fn lone_surrogates_and_c1_controls_are_shown_safely() {
    let mut w = Wire::new(KIND_ACQUIRE, 1, "");
    w.label[0] = 0xD800;
    w.label[1] = 0x41;
    w.label[2] = 0xDC00;
    w.label[3] = 0x85;
    w.label[4] = 0x7F;
    w.label_len = 5;
    assert_eq!(w.label_string(), "\u{FFFD}A\u{FFFD}  ");
}

#[test]
fn an_oversized_length_reads_only_the_buffer() {
    let mut w = Wire::new(KIND_ACQUIRE, 1, "abc");
    w.label_len = 1000;
    assert_eq!(w.label_string().chars().count(), LABEL_CAP);
    assert!(w.label_string().starts_with("abc"));
}

#[test]
fn framing_round_trips_every_field() {
    let w = Wire::new(KIND_ACQUIRE, 0x0102_0304, "mañana \u{1F600}");
    let bytes = w.to_bytes();
    assert_eq!(bytes.len(), WIRE_SIZE);
    assert_eq!(&bytes[..8], &[2, 0, 0, 0, 1, 0, 0, 0]);
    assert_eq!(&bytes[8..12], &[4, 3, 2, 1]);
    let back = Wire::from_bytes(&bytes).unwrap();
    assert_eq!(back.version, w.version);
    assert_eq!(back.kind, w.kind);
    assert_eq!(back.pid, w.pid);
    assert_eq!(back.label_len, w.label_len);
    assert_eq!(back.label, w.label);
    assert_eq!(back.label_string(), "mañana \u{1F600}");
}

#[test]
fn framing_refuses_the_wrong_size() {
    let bytes = Wire::new(KIND_ACQUIRE, 1, "x").to_bytes();
    assert!(Wire::from_bytes(&bytes[..WIRE_SIZE - 1]).is_none());
    let mut longer = bytes.clone();
    longer.push(0);
    assert!(Wire::from_bytes(&longer).is_none());
    assert!(Wire::from_bytes(&[]).is_none());
}

#[test]
fn folds_bidi_overrides_out_of_a_label() {
    let w = Wire::new(KIND_ACQUIRE, 1, "a\u{202E}b\u{202D}c");
    assert_eq!(w.label_string(), "a b c");
    // Embeddings, isolates and other formatting characters pass through.
    let w = Wire::new(KIND_ACQUIRE, 1, "a\u{202A}b\u{2066}c\u{2069}d\u{200F}");
    assert_eq!(w.label_string(), "a\u{202A}b\u{2066}c\u{2069}d\u{200F}");
}

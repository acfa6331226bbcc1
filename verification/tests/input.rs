//! Key encoding, key decoding and mouse sequences.

use tuilab::input::decode::{decode_key, Key};
use tuilab::input::encoding::{encode_key, encode_text};
use tuilab::input::mouse::{
    mouse_drag, mouse_press, mouse_release, mouse_scroll_down, mouse_scroll_up, MouseButton,
};
use tuilab::input::utils::normalize_key;

#[test]
fn lowercases_become_canonical() {
    assert_eq!(normalize_key("down"), "DOWN");
}

#[test]
fn canonical_names_are_stable() {
    assert_eq!(normalize_key("ENTER"), "ENTER");
}

#[test]
fn arrows_home_end_backtab() {
    let cases = [
        (b"\x1b[A".as_slice(), "UP"),
        (b"\x1b[B".as_slice(), "DOWN"),
        (b"\x1b[C".as_slice(), "RIGHT"),
        (b"\x1b[D".as_slice(), "LEFT"),
        (b"\x1b[H".as_slice(), "HOME"),
        (b"\x1b[F".as_slice(), "END"),
        (b"\x1b[Z".as_slice(), "BACKTAB"),
    ];
    for (bytes, name) in cases {
        assert_eq!(decode_key(bytes), Some((Key::Named(name), 3)), "{name}");
    }
}

#[test]
fn tilde_and_ss3_function_keys() {
    let cases = [
        (b"\x1b[2~".as_slice(), "INSERT", 4),
        (b"\x1b[3~".as_slice(), "DELETE", 4),
        (b"\x1b[5~".as_slice(), "PGUP", 4),
        (b"\x1bOP".as_slice(), "F1", 3),
        (b"\x1b[15~".as_slice(), "F5", 5),
        (b"\x1b[24~".as_slice(), "F12", 5),
    ];
    for (bytes, name, len) in cases {
        assert_eq!(decode_key(bytes), Some((Key::Named(name), len)), "{name}");
    }
}

#[test]
fn singles_modifiers_and_text() {
    assert_eq!(decode_key(b"\r"), Some((Key::Named("ENTER"), 1)));
    assert_eq!(decode_key(b"\t"), Some((Key::Named("TAB"), 1)));
    assert_eq!(decode_key(b"q"), Some((Key::Char('q'), 1)));
    assert_eq!(decode_key(b"/"), Some((Key::Char('/'), 1)));
    assert_eq!(decode_key(b"\x03"), Some((Key::Ctrl('C'), 1)));
    assert_eq!(decode_key(b"\x1bx"), Some((Key::Alt('x'), 2)));
    assert_eq!(decode_key("é".as_bytes()), Some((Key::Char('é'), 2)));
}

#[test]
fn incomplete_sequences_wait_for_more() {
    assert_eq!(decode_key(b""), None);
    assert_eq!(decode_key(b"\x1b"), None);
    assert_eq!(decode_key(b"\x1b["), None);
    assert_eq!(decode_key(b"\x1bO"), None);
    assert_eq!(decode_key(b"\x1b[2"), None);
}

#[test]
fn decoded_keys_reencode_to_the_same_bytes() {
    let samples: &[&[u8]] = &[
        b"\x1b[B",
        b"\r",
        b"q",
        b"/",
        b"\x03",
        b"\x1b[15~",
        b"\x1bOP",
        b"\x1b[Z",
    ];
    for sample in samples {
        let (key, len) = decode_key(sample).expect("decodes");
        assert_eq!(len, sample.len());
        let name = match key {
            Key::Named(name) => name.to_string(),
            Key::Char(c) => c.to_string(),
            Key::Ctrl(c) => format!("CTRL+{c}"),
            Key::Alt(c) => format!("ALT+{c}"),
        };
        assert_eq!(encode_key(&name).expect("encodes").as_slice(), *sample);
    }
}

#[test]
fn line_feed_decodes_as_enter_which_encodes_as_carriage_return() {
    assert_eq!(decode_key(b"\n"), Some((Key::Named("ENTER"), 1)));
    assert_eq!(encode_key("ENTER").expect("enter"), b"\r".to_vec());
}

#[test]
fn non_ascii_alt_chords_and_invalid_bytes() {
    assert_eq!(decode_key("\x1bé".as_bytes()), Some((Key::Alt('é'), 3)));
    // Bytes that can never become a key are consumed, each dead end whole,
    // never reported as incomplete.
    assert_eq!(decode_key(&[0xff]), Some((Key::Char('\u{fffd}'), 1)));
    assert_eq!(decode_key(&[0xc3, 0x41]), Some((Key::Char('\u{fffd}'), 2)));
    assert_eq!(decode_key(&[0xf0, 0x90, 0x80, 0x41]), Some((Key::Char('\u{fffd}'), 4)));
    assert_eq!(decode_key(b"\x1b[9~"), Some((Key::Named("ESC"), 4)));
    assert_eq!(decode_key(b"\x1b[2x"), Some((Key::Named("ESC"), 4)));
    assert_eq!(decode_key(b"\x1b[x"), Some((Key::Named("ESC"), 3)));
    assert_eq!(decode_key(b"\x1bOx"), Some((Key::Named("ESC"), 3)));
    assert_eq!(decode_key(&[0x1b, 0xff]), Some((Key::Named("ESC"), 2)));
    assert_eq!(decode_key(&[0x1b, 0xc3, 0x41]), Some((Key::Named("ESC"), 3)));
    // The start of a character waits for the rest.
    assert_eq!(decode_key(&[0xc3]), None);
    assert_eq!(decode_key(&[0xe2, 0x82]), None);
    assert_eq!(decode_key(&[0x1b, 0xc3]), None);
    assert_eq!(decode_key(&[0xe0, 0x80]), Some((Key::Char('\u{fffd}'), 2)));
}

#[test]
fn dead_ends_decode_alone_to_what_they_decode_to_in_a_stream() {
    let streams: [&[u8]; 7] = [
        &[0xff, b'a'],
        &[0xc3, 0x41, b'b'],
        b"\x1b[9~x",
        b"\x1b[2xy",
        b"\x1bOxz",
        &[0x1b, 0xff, b'q'],
        &[0xe0, 0x80, 0x80],
    ];
    for buf in streams {
        let (key, n) = decode_key(buf).expect("a dead end is consumed");
        assert!(n < buf.len());
        assert_eq!(decode_key(&buf[..n]), Some((key, n)));
    }
}

#[test]
fn the_first_key_ignores_what_follows() {
    assert_eq!(decode_key(b"\x1bx"), Some((Key::Alt('x'), 2)));
    assert_eq!(decode_key(&[0x1b, b'x', 0xff]), Some((Key::Alt('x'), 2)));
    assert_eq!(decode_key(&[0xc3, 0xa9, 0xff]), Some((Key::Char('é'), 2)));
    assert_eq!(decode_key(b"\x1b[15~zz"), Some((Key::Named("F5"), 5)));
}

#[test]
fn named_keys_encode_to_xterm_sequences() {
    let cases = [
        ("ENTER", b"\r".as_slice()),
        ("esc", b"\x1b".as_slice()),
        ("TAB", b"\t".as_slice()),
        ("BACKTAB", b"\x1b[Z".as_slice()),
        ("UP", b"\x1b[A".as_slice()),
        ("down", b"\x1b[B".as_slice()),
        ("RIGHT", b"\x1b[C".as_slice()),
        ("LEFT", b"\x1b[D".as_slice()),
        ("HOME", b"\x1b[H".as_slice()),
        ("END", b"\x1b[F".as_slice()),
        ("PGUP", b"\x1b[5~".as_slice()),
        ("PGDN", b"\x1b[6~".as_slice()),
        ("INSERT", b"\x1b[2~".as_slice()),
        ("DELETE", b"\x1b[3~".as_slice()),
        ("F1", b"\x1bOP".as_slice()),
        ("F4", b"\x1bOS".as_slice()),
        ("F5", b"\x1b[15~".as_slice()),
        ("F12", b"\x1b[24~".as_slice()),
    ];
    for (name, expected) in cases {
        assert_eq!(encode_key(name).expect(name).as_slice(), expected, "{name}");
    }
}

#[test]
fn control_keys_map_to_control_codes() {
    assert_eq!(encode_key("CTRL+C").expect("ctrl-c"), vec![0x03]);
    assert_eq!(encode_key("ctrl+d").expect("ctrl-d"), vec![0x04]);
    assert_eq!(encode_key("CTRL+Z").expect("ctrl-z"), vec![0x1A]);
}

#[test]
fn alt_keys_prefix_escape() {
    assert_eq!(encode_key("ALT+x").expect("alt-x"), b"\x1bx".to_vec());
}

#[test]
fn literal_characters_preserve_case() {
    assert_eq!(encode_key("q").expect("q"), b"q".to_vec());
    assert_eq!(encode_key("Q").expect("Q"), b"Q".to_vec());
    assert_eq!(encode_key("/").expect("slash"), b"/".to_vec());
}

#[test]
fn unknown_keys_are_errors_not_garbage() {
    assert!(encode_key("F13").is_err());
    assert!(encode_key("CTRL+ENTER").is_err());
    assert!(encode_key("").is_err());
}

#[test]
fn unknown_key_error_names_the_key() {
    let err = encode_key("F13").expect_err("unknown");
    assert!(err.to_string().contains("F13"), "{}", err.to_string());
}

#[test]
fn text_encodes_verbatim_utf8() {
    assert_eq!(encode_text("table"), b"table".to_vec());
    assert_eq!(encode_text("héllo").as_slice(), "héllo".as_bytes());
}

#[test]
fn press_release_use_sgr_terminators() {
    assert_eq!(mouse_press(MouseButton::Left, 10, 5), b"\x1b[<0;10;5M");
    assert_eq!(mouse_release(MouseButton::Left, 10, 5), b"\x1b[<0;10;5m");
    assert_eq!(mouse_press(MouseButton::Right, 1, 1), b"\x1b[<2;1;1M");
}

#[test]
fn scroll_uses_wheel_codes() {
    assert_eq!(mouse_scroll_up(10, 5), b"\x1b[<64;10;5M");
    assert_eq!(mouse_scroll_down(10, 5), b"\x1b[<65;10;5M");
}

#[test]
fn drag_is_press_plus_release() {
    let mut expected = mouse_press(MouseButton::Left, 10, 5).to_vec();
    expected.extend_from_slice(&mouse_release(MouseButton::Left, 20, 5));
    assert_eq!(mouse_drag(10, 5, 20, 5), expected);
}

#[test]
fn zero_coords_clamp_to_one() {
    assert_eq!(mouse_press(MouseButton::Left, 0, 0), b"\x1b[<0;1;1M");
}

#[test]
fn middle_button_and_large_coordinates() {
    assert_eq!(mouse_press(MouseButton::Middle, 65535, 300), b"\x1b[<1;65535;300M");
}

#[test]
fn key_names_encode_with_case_insensitivity() {
    assert_eq!(encode_key("CLICK 10 5").expect("click"), b"\x1b[<0;10;5M");
    assert_eq!(
        encode_key("click 10 5").expect("lowercase"),
        b"\x1b[<0;10;5M"
    );
    assert_eq!(
        encode_key("SCROLL_DOWN 3 7").expect("scroll"),
        b"\x1b[<65;3;7M"
    );
}

#[test]
fn drag_has_no_single_key_name() {
    assert!(encode_key("DRAG 10 5 20 5").is_err());
}

#[test]
fn bad_arity_names_the_shape() {
    let err = encode_key("CLICK 10").expect_err("arity");
    assert!(err.to_string().contains("2 coordinates"), "{}", err.to_string());
    let err = encode_key("CLICK x y").expect_err("integers");
    assert!(err.to_string().contains("integers"), "{}", err.to_string());
}

#[test]
fn mouse_words_refuse_any_other_number_of_coordinates() {
    for word in ["CLICK", "RIGHT_CLICK", "MIDDLE_CLICK", "RELEASE", "SCROLL_UP", "SCROLL_DOWN"] {
        for coords in ["", " 10", " 1 2 3", " 0 0 0 0"] {
            let name = format!("{word}{coords}");
            let err = encode_key(&name).expect_err("arity");
            assert_eq!(
                err.to_string(),
                format!("unknown key: {name}: expected 2 coordinates: e.g. CLICK 10 5")
            );
        }
    }
}

#[test]
fn mouse_gestures_encode_for_any_coordinates() {
    for (x, y) in [(0u16, 0u16), (1, 1), (10, 5), (65535, 65535), (300, 7)] {
        assert_eq!(encode_key(&format!("CLICK {x} {y}")).expect("click"), mouse_press(MouseButton::Left, x, y));
        assert_eq!(encode_key(&format!("RIGHT_CLICK {x} {y}")).expect("right"), mouse_press(MouseButton::Right, x, y));
        assert_eq!(encode_key(&format!("MIDDLE_CLICK {x} {y}")).expect("middle"), mouse_press(MouseButton::Middle, x, y));
        assert_eq!(encode_key(&format!("RELEASE {x} {y}")).expect("release"), mouse_release(MouseButton::Left, x, y));
        assert_eq!(encode_key(&format!("SCROLL_UP {x} {y}")).expect("up"), mouse_scroll_up(x, y));
        assert_eq!(encode_key(&format!("SCROLL_DOWN {x} {y}")).expect("down"), mouse_scroll_down(x, y));
    }
}

#[test]
fn key_names_ignore_case_beyond_single_characters() {
    for name in ["esc", "Down", "ctrl+d", "click 10 5", "pgUp"] {
        assert_eq!(
            encode_key(name).ok(),
            encode_key(&name.to_ascii_uppercase()).ok(),
            "{name}"
        );
        assert_eq!(encode_key(name).ok(), encode_key(&name.to_ascii_lowercase()).ok(), "{name}");
    }
    assert_ne!(encode_key("q").ok(), encode_key("Q").ok());
}

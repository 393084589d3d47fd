use color_writer::{ColorWriter, StandardStreamTypes, SupportedColors};

fn colored(color: SupportedColors, payload: &[u8]) -> Vec<u8> {
    ColorWriter::new(StandardStreamTypes::Stdout, Some(color)).print(payload)
}

/// Takes out every `ESC [ <digits and ;> m` sequence.
fn strip_escapes(bytes: &[u8]) -> Vec<u8> {
    let mut out = Vec::new();
    let mut i = 0;
    while i < bytes.len() {
        if bytes[i] == 0x1B && i + 1 < bytes.len() && bytes[i + 1] == b'[' {
            let mut j = i + 2;
            while j < bytes.len() && (bytes[j].is_ascii_digit() || bytes[j] == b';') {
                j += 1;
            }
            if j < bytes.len() && bytes[j] == b'm' {
                i = j + 1;
                continue;
            }
        }
        out.push(bytes[i]);
        i += 1;
    }
    out
}

#[test]
fn red_uses_code_31() {
    assert_eq!(colored(SupportedColors::Red, b"hi"), b"\x1b[31mhi\x1b[0m".to_vec());
}

#[test]
fn green_uses_code_32() {
    assert_eq!(colored(SupportedColors::Green, b"hi"), b"\x1b[32mhi\x1b[0m".to_vec());
}

#[test]
fn blue_uses_code_34() {
    assert_eq!(colored(SupportedColors::Blue, b"hi"), b"\x1b[34mhi\x1b[0m".to_vec());
}

#[test]
fn yellow_uses_code_33() {
    assert_eq!(colored(SupportedColors::Yellow, b"hi"), b"\x1b[33mhi\x1b[0m".to_vec());
}

#[test]
fn white_uses_code_37() {
    assert_eq!(colored(SupportedColors::White, b"hi"), b"\x1b[37mhi\x1b[0m".to_vec());
}

#[test]
fn magenta_uses_code_35() {
    assert_eq!(colored(SupportedColors::Magenta, b"hi"), b"\x1b[35mhi\x1b[0m".to_vec());
}

#[test]
fn uncolored_hello_is_framed_with_empty_code() {
    let w = ColorWriter::new(StandardStreamTypes::Stdout, None);
    let out = w.print(b"hello");
    assert_eq!(out, b"\x1b[mhello\x1b[0m".to_vec());
    assert_eq!(out.len(), 12);
}

#[test]
fn set_color_then_reset() {
    let mut w = ColorWriter::new(StandardStreamTypes::Stdout, None);
    w.set_color(SupportedColors::Blue);
    assert_eq!(w.print(b"x"), b"\x1b[34mx\x1b[0m".to_vec());
    w.reset();
    assert_eq!(w.print(b"x"), b"\x1b[mx\x1b[0m".to_vec());
}

#[test]
fn set_color_replaces_initial_color() {
    let mut w = ColorWriter::new(StandardStreamTypes::Stderr, Some(SupportedColors::Red));
    w.set_color(SupportedColors::Yellow);
    assert_eq!(w.print(b"a"), b"\x1b[33ma\x1b[0m".to_vec());
    assert_eq!(w.stream_type(), StandardStreamTypes::Stderr);
}

#[test]
fn empty_payload_keeps_whole_frame() {
    assert_eq!(colored(SupportedColors::Red, b""), b"\x1b[31m\x1b[0m".to_vec());
    let w = ColorWriter::new(StandardStreamTypes::Stderr, None);
    assert_eq!(w.print(b""), b"\x1b[m\x1b[0m".to_vec());
}

#[test]
fn stripping_escapes_recovers_payload() {
    let payloads: [&[u8]; 4] = [b"", b"hello", b"a[1m b", &[0xff, 0x00, b'm', 0x80]];
    let colors = [
        Some(SupportedColors::Red),
        Some(SupportedColors::Green),
        Some(SupportedColors::Blue),
        Some(SupportedColors::Yellow),
        Some(SupportedColors::White),
        Some(SupportedColors::Magenta),
        None,
    ];
    for payload in payloads {
        for color in colors {
            let w = ColorWriter::new(StandardStreamTypes::Stdout, color);
            assert_eq!(strip_escapes(&w.print(payload)), payload.to_vec());
        }
    }
}

#[test]
fn printed_length_is_frame_length_not_payload_length() {
    assert_eq!(colored(SupportedColors::White, b"abcd").len(), 4 + 9);
    let w = ColorWriter::new(StandardStreamTypes::Stdout, None);
    assert_eq!(w.print(b"abcd").len(), 4 + 7);
}

#[test]
fn stdout_green_ok() {
    let w = ColorWriter::new(StandardStreamTypes::Stdout, Some(SupportedColors::Green));
    assert_eq!(w.stream_type(), StandardStreamTypes::Stdout);
    assert_eq!(w.print(b"ok"), b"\x1b[32mok\x1b[0m".to_vec());
}

#[test]
fn stderr_uncolored_warn() {
    let w = ColorWriter::new(StandardStreamTypes::Stderr, None);
    assert_eq!(w.stream_type(), StandardStreamTypes::Stderr);
    assert_eq!(w.print(b"warn"), b"\x1b[mwarn\x1b[0m".to_vec());
}

#[test]
fn payload_bytes_pass_through_unchanged() {
    let payload: &[u8] = &[0x1b, b'[', b'1', b'm', 0xfe];
    let out = colored(SupportedColors::Green, payload);
    assert_eq!(&out[5..10], payload);
}

#[test]
fn format_str_frames_with_given_code() {
    let w = ColorWriter::new(StandardStreamTypes::Stdout, Some(SupportedColors::Red));
    assert_eq!(w.format_str(b"z", b"1;35"), b"\x1b[1;35mz\x1b[0m".to_vec());
    assert_eq!(w.format_str(b"", b""), b"\x1b[m\x1b[0m".to_vec());
}

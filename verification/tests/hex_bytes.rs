use sem_reg::data_conversion::hex_bytes::{diff_fragments_text, DiffFragment, HexBytes};

#[test]
fn diff_output() {
    assert_eq!(
        HexBytes::new(&[0x10, 0xf1, 0xf2, 0x13])
            .diff_against(&[0x10, 0x11, 0x12, 0x13])
            .to_string(),
        String::new()
            + "\x1b[0m"
            + "10"
            + "\x1b[91m"
            + " 11 12"
            + "\x1b[92m"
            + " f1 f2"
            + "\x1b[0m"
            + " 13"
    );
}

#[test]
fn hex_bytes_without_diff() {
    assert_eq!(HexBytes::new(&[0x0a, 0xff, 0x00]).to_string(), "0a ff 00");
    assert_eq!(HexBytes::new(&[]).to_string(), "");
}

#[test]
fn hex_bytes_diff_against_the_same_bytes_stays_uncolored() {
    assert_eq!(
        HexBytes::new(&[0x01, 0x02]).diff_against(&[0x01, 0x02]).to_string(),
        "\x1b[0m01 02"
    );
}

#[test]
fn hex_bytes_diff_ending_in_a_change_resets_the_color() {
    assert_eq!(
        HexBytes::new(&[0x01, 0x02, 0x03]).diff_against(&[0x01, 0x02]).to_string(),
        "\x1b[0m01 02\x1b[92m 03\x1b[0m"
    );
}

#[test]
fn hex_bytes_diff_fragments_text() {
    assert_eq!(
        diff_fragments_text(&[
            DiffFragment::Right(0xab),
            DiffFragment::Both(0x01, 0x01),
            DiffFragment::Left(0x02),
        ]),
        "\x1b[0m\x1b[92mab\x1b[0m 01\x1b[91m 02\x1b[0m"
    );
    assert_eq!(diff_fragments_text(&[]), "\x1b[0m");
}

#[test]
fn hex_bytes_plain_text_has_no_escape() {
    let all: Vec<u8> = (0..=255).collect();
    let text = HexBytes::new(&all).to_string();
    assert!(!text.contains('\x1b'));
    assert_eq!(text.len(), 256 * 3 - 1);
}

#[test]
fn hex_bytes_colored_text_ends_with_the_reset() {
    let text = HexBytes::new(&[0x01]).diff_against(&[0x01, 0x02]).to_string();
    assert!(text.starts_with("\x1b[0m"));
    let last_escape = text.rfind('\x1b').unwrap();
    assert_eq!(&text[last_escape..last_escape + 4], "\x1b[0m");
}

use alleycat::pair::{pair_output, payload_output, PairArgs};
use alleycat::qr::{draw, qr_text};
use alleycat::token::{digest_prefix, short_token};
use qrcodegen::{QrCode, QrCodeEcc};

#[test]
fn a_payload_is_printed_on_its_own_line() {
    let out = pair_output(&PairArgs { qr: false }, "{\"v\":1}");
    assert_eq!(out.text, "{\"v\":1}\n");
    assert_eq!(out.error, None);
}

#[test]
fn a_code_follows_after_an_empty_line() {
    let out = pair_output(&PairArgs { qr: true }, "{\"v\":1}");
    assert_eq!(out.text, format!("{{\"v\":1}}\n\n{}", qr_text("{\"v\":1}").unwrap()));
    assert_eq!(out.error, None);
}

#[test]
fn a_payload_is_printed_as_compact_json() {
    let payload: serde_json::Value = serde_json::from_str("{ \"v\": 1, \"node\": [] }").unwrap();
    let out = payload_output(&PairArgs { qr: false }, &payload).unwrap();
    assert_eq!(out.text, "{\"node\":[],\"v\":1}\n");
    assert_eq!(out.error, None);
    let out = payload_output(&PairArgs { qr: true }, &payload).unwrap();
    assert_eq!(
        out.text,
        pair_output(&PairArgs { qr: true }, "{\"node\":[],\"v\":1}").text
    );
}

#[test]
fn a_payload_that_is_too_long_for_a_code_is_still_printed() {
    let long = "x".repeat(3000);
    let out = pair_output(&PairArgs { qr: true }, &long);
    assert_eq!(out.text, format!("{}\n\n", long));
    let error = out.error.unwrap();
    assert!(error.starts_with("encoding QR: DataOverCapacity("), "{}", error);
    assert_eq!(qr_text(&long).unwrap_err(), error);
    assert_eq!(pair_output(&PairArgs { qr: false }, &long).error, None);
}

#[test]
fn codes_are_drawn_with_a_border() {
    let blank = " ".repeat(12);
    let rows = [&blank, &blank, "    ██      ", "      ██    ", &blank, &blank];
    assert_eq!(
        draw(&vec![vec![true, false], vec![false, true]]),
        rows.iter().map(|row| format!("{}\n", row)).collect::<String>()
    );
    assert_eq!(draw(&Vec::new()), "        \n".repeat(4));
}

#[test]
fn drawings_show_the_modules_of_the_code() {
    let data = "https://example.org/pair";
    let code = QrCode::encode_text(data, QrCodeEcc::Medium).unwrap();
    let mut expected = String::new();
    for y in -2..code.size() + 2 {
        for x in -2..code.size() + 2 {
            expected.push_str(if code.get_module(x, y) { "██" } else { "  " });
        }
        expected.push('\n');
    }
    assert_eq!(qr_text(data).unwrap(), expected);
    assert!(expected.contains("██"));
}

#[test]
fn tokens_are_shown_by_their_digest() {
    assert_eq!(short_token("token"), "3c469e9d");
    assert_eq!(short_token(""), "e3b0c442");
    assert_eq!(short_token("héllo"), "3c48591d");
    assert_eq!(digest_prefix(&vec![0x00, 0x0f, 0xa0, 0xff, 0x11]), "000fa0ff");
}

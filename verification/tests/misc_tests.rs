use esp_examples::cipher::{garble, KEY};
use esp_examples::counter::PressCounter;
use esp_examples::device::{is_device_named, same_bytes};
use esp_examples::matrix::{init_frames, sweep_frames, MatrixFrame};
use esp_examples::sentences::{nth_line, pick_sentence, sentence_number};

#[test]
fn garble_hello_with_key() {
    let g = garble(b"Hello", KEY);
    assert_eq!(g, vec![b'H' ^ 212, b'e' ^ 212, b'l' ^ 212, b'l' ^ 212, b'o' ^ 212]);
    assert_eq!(g[0], 156);
}

#[test]
fn garble_twice_restores_message() {
    let msg = b"Hello, loop-back!";
    for key in [1u8, 7, 212, 255] {
        assert_eq!(garble(&garble(msg, key), key), msg.to_vec());
    }
}

#[test]
fn nonzero_key_changes_every_byte() {
    let msg: Vec<u8> = (0..=255).collect();
    let g = garble(&msg, KEY);
    for (a, b) in msg.iter().zip(g.iter()) {
        assert_ne!(a, b);
    }
    assert_eq!(garble(&msg, 0), msg);
}

#[test]
fn matrix_init_sequence() {
    let f = init_frames();
    assert_eq!(
        f,
        vec![
            MatrixFrame { register: 0x0C, data: 0x01 },
            MatrixFrame { register: 0x09, data: 0x00 },
            MatrixFrame { register: 0x0B, data: 0x07 },
            MatrixFrame { register: 0x0A, data: 0x07 },
        ]
    );
}

#[test]
fn matrix_sweep_lights_then_clears() {
    let f = sweep_frames();
    assert_eq!(f.len(), 16);
    for i in 0..8 {
        assert_eq!(f[i], MatrixFrame { register: (i + 1) as u8, data: 1u8 << i });
        assert_eq!(f[8 + i], MatrixFrame { register: (i + 1) as u8, data: 0 });
    }
}

#[test]
fn press_counter_services_flag() {
    let mut c = PressCounter::new();
    assert_eq!(c.service_flag(false), None);
    assert_eq!(c.service_flag(true), Some(1));
    assert_eq!(c.service_flag(true), Some(2));
    assert_eq!(c.count, 2);
}

#[test]
fn press_counter_wraps() {
    let mut c = PressCounter { count: u32::MAX };
    assert_eq!(c.service_flag(true), Some(0));
}

#[test]
fn press_counter_counts_edges() {
    let mut c = PressCounter::new();
    assert_eq!(c.press(), 1);
    assert_eq!(c.press(), 2);
}

#[test]
fn device_name_match() {
    assert!(is_device_named("iPhone", "iPhone"));
    assert!(!is_device_named("iPhone 15", "iPhone"));
    assert!(!is_device_named("", "iPhone"));
    assert!(same_bytes(b"", b""));
    assert!(!same_bytes(b"ab", b"ac"));
}

fn line<'a>(text: &'a str, n: usize) -> Option<&'a str> {
    nth_line(text.as_bytes(), n).map(|(a, b)| &text[a..b])
}

#[test]
fn nth_line_agrees_with_std_lines() {
    let texts = [
        "",
        "one",
        "one\n",
        "one\ntwo",
        "one\r\ntwo\r\n",
        "a\n\nb",
        "\n",
        "x\r",
        "x\ry\n",
        "$GPGGA,1\n$GPRMC,2\n$GPGSV,3",
    ];
    for t in texts {
        let std_lines: Vec<&str> = t.lines().collect();
        for n in 0..6 {
            assert_eq!(line(t, n), std_lines.get(n).copied(), "{:?} line {}", t, n);
        }
    }
}

#[test]
fn sentence_is_picked_by_low_byte() {
    assert_eq!(sentence_number(0x1234_5602), 2);
    assert_eq!(sentence_number(255), 255);
    let text = "zero\none\ntwo\nthree";
    let (a, b) = pick_sentence(text.as_bytes(), 0x0000_0102).unwrap();
    assert_eq!(&text[a..b], "two");
    assert_eq!(pick_sentence(text.as_bytes(), 4), None);
}

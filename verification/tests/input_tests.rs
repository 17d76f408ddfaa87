use esp_examples::credentials::{
    CredentialError, EntryStep, PasswordEntry, SsidEntry, END_OF_ENTRY, PASSWORD_MASK,
};
use esp_examples::debounce::PressMonitor;

#[test]
fn ssid_entry_collects_until_return() {
    let mut e = SsidEntry::new();
    for b in b"Wokwi-GUEST" {
        assert_eq!(SsidEntry::echo(*b), *b);
        assert_eq!(e.push(*b), Ok(EntryStep::More));
    }
    assert_eq!(e.push(END_OF_ENTRY), Ok(EntryStep::Done));
    let s = e.finish().unwrap();
    assert_eq!(s.as_str(), "Wokwi-GUEST");
}

#[test]
fn ssid_entry_refuses_a_33rd_byte() {
    let mut e = SsidEntry::new();
    for _ in 0..32 {
        assert_eq!(e.push(b'a'), Ok(EntryStep::More));
    }
    assert_eq!(e.push(b'a'), Err(CredentialError::TooLong));
    assert_eq!(e.push(END_OF_ENTRY), Ok(EntryStep::Done));
    assert_eq!(e.finish().unwrap().as_str().len(), 32);
}

#[test]
fn password_entry_masks_and_holds_64() {
    let mut e = PasswordEntry::new();
    assert_eq!(PasswordEntry::echo(b'x'), PASSWORD_MASK);
    for _ in 0..64 {
        assert_eq!(e.push(b'p'), Ok(EntryStep::More));
    }
    assert_eq!(e.push(b'p'), Err(CredentialError::TooLong));
    let s = e.finish().unwrap();
    assert_eq!(s.as_str(), "p".repeat(64));
}

#[test]
fn entry_that_is_not_utf8_is_refused() {
    let mut e = SsidEntry::new();
    assert_eq!(e.push(0xff), Ok(EntryStep::More));
    assert_eq!(e.finish(), Err(CredentialError::NotUtf8));
    let mut p = PasswordEntry::new();
    assert_eq!(p.push(0xc3), Ok(EntryStep::More));
    assert_eq!(p.finish(), Err(CredentialError::NotUtf8));
}

#[test]
fn empty_entry_is_empty_text() {
    let e = SsidEntry::new();
    assert_eq!(e.finish().unwrap().as_str(), "");
}

#[test]
fn press_monitor_counts_debounced_releases() {
    let mut m = PressMonitor::new();
    assert_eq!(m.wait_length(), 100_000);
    // Sixteen pressed samples settle the debouncer high: no release yet.
    for _ in 0..16 {
        assert_eq!(m.poll(true), None);
    }
    // Fifteen released samples are still bouncing; the sixteenth is the edge.
    for _ in 0..15 {
        assert_eq!(m.poll(false), None);
    }
    assert_eq!(m.poll(false), Some(0));
    assert_eq!(m.wait_length(), 75_000);
    // Staying released reports nothing more.
    assert_eq!(m.poll(false), None);
}

#[test]
fn press_monitor_ignores_short_glitches() {
    let mut m = PressMonitor::new();
    for _ in 0..10 {
        assert_eq!(m.poll(true), None);
        assert_eq!(m.poll(false), None);
    }
    assert_eq!(m.wait_length(), 100_000);
}

#[test]
fn press_monitor_numbers_presses_and_cycles_wait() {
    let mut m = PressMonitor::new();
    let mut numbers = Vec::new();
    let mut waits = Vec::new();
    for _ in 0..5 {
        for _ in 0..16 {
            m.poll(true);
        }
        let mut got = None;
        for _ in 0..16 {
            if let Some(n) = m.poll(false) {
                got = Some(n);
            }
        }
        numbers.push(got.unwrap());
        waits.push(m.wait_length());
    }
    assert_eq!(numbers, vec![0, 1, 2, 3, 4]);
    assert_eq!(waits, vec![75_000, 50_000, 25_000, 100_000, 75_000]);
}

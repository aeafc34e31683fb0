use backend::{Chemical, ChemoBody};

#[test]
fn untouched_species_reads_zero() {
    let mut body = ChemoBody::new();
    assert_eq!(body.concnt(7), 0);
    assert_eq!(body.get(200), Chemical::new(200));
}

#[test]
fn chemical_getters_return_fields() {
    let c = Chemical::with_concentration(9, 40);
    assert_eq!(c.id(), 9);
    assert_eq!(c.concnt(), 40);
    let z = Chemical::new(3);
    assert_eq!(z.id(), 3);
    assert_eq!(z.concnt(), 0);
}

#[test]
fn gain_adds_and_reports_fit() {
    let mut body = ChemoBody::new();
    assert!(body.gain(1, 100));
    assert_eq!(body.concnt(1), 100);
    assert!(body.gain(1, 155));
    assert_eq!(body.concnt(1), 255);
}

#[test]
fn gain_saturates_at_255() {
    let mut body = ChemoBody::new();
    assert!(body.gain(1, 200));
    assert!(!body.gain(1, 56));
    assert_eq!(body.concnt(1), 255);
    assert!(!body.gain(1, 1));
    assert_eq!(body.concnt(1), 255);
    assert!(body.gain(1, 0));
    assert_eq!(body.concnt(1), 255);
}

#[test]
fn lose_takes_what_is_covered() {
    let mut body = ChemoBody::new();
    body.gain(4, 50);
    assert!(body.lose(4, 20));
    assert_eq!(body.concnt(4), 30);
    assert!(body.lose(4, 30));
    assert_eq!(body.concnt(4), 0);
}

#[test]
fn lose_refuses_what_is_not_covered() {
    let mut body = ChemoBody::new();
    body.gain(4, 50);
    assert!(!body.lose(4, 51));
    assert_eq!(body.concnt(4), 50);
    assert!(!body.lose(5, 1));
    assert_eq!(body.concnt(5), 0);
    assert!(body.lose(5, 0));
}

#[test]
fn species_do_not_disturb_each_other() {
    let mut body = ChemoBody::new();
    body.gain(1, 10);
    body.gain(2, 20);
    body.lose(1, 5);
    assert_eq!(body.get(1), Chemical::with_concentration(1, 5));
    assert_eq!(body.get(2), Chemical::with_concentration(2, 20));
}

#[test]
fn levels_stay_in_range_under_any_sequence() {
    let mut body = ChemoBody::new();
    let mut expected: i32 = 0;
    for step in 0..1000u32 {
        let amount = ((step * 37) % 256) as u8;
        if step % 3 == 0 {
            let covered = body.lose(0, amount);
            assert_eq!(covered, expected >= amount as i32);
            if covered {
                expected -= amount as i32;
            }
        } else {
            let fitted = body.gain(0, amount);
            assert_eq!(fitted, expected + amount as i32 <= 255);
            expected = (expected + amount as i32).min(255);
        }
        assert_eq!(body.concnt(0) as i32, expected);
        assert!((0..=255).contains(&expected));
    }
}

#[test]
fn peek_sees_only_touched_species() {
    let mut body = ChemoBody::new();
    assert_eq!(body.peek(3), None);
    body.concnt(3);
    assert_eq!(body.peek(3), Some(0));
    body.gain(4, 9);
    assert_eq!(body.peek(4), Some(9));
    body.lose(5, 1);
    assert_eq!(body.peek(5), Some(0));
    body.get(6);
    assert_eq!(body.peek(6), Some(0));
    assert_eq!(body.peek(7), None);
}

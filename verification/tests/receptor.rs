use backend::{Creature, IoType, Receptor};

fn falling(gain: u8, threshold: u8) -> Receptor {
    Receptor::new(IoType::Digital, 0, 9, 0, gain, threshold, true)
}

fn rising(gain: u8, threshold: u8) -> Receptor {
    Receptor::new(IoType::Digital, 0, 9, 0, gain, threshold, false)
}

fn creature_at(level: u8) -> Creature {
    let mut creature = Creature::new();
    creature.chemo_body_mut().gain(0, level);
    creature
}

#[test]
fn new_receptor_holds_its_fields() {
    let r = Receptor::new(IoType::Analogue, 1, 2, 3, 4, 5, true);
    assert_eq!(r.kind, IoType::Analogue);
    assert_eq!(r.chemical, 1);
    assert_eq!(r.locus, 2);
    assert_eq!(r.nominal, 3);
    assert_eq!(r.gain, 4);
    assert_eq!(r.threshold, 5);
    assert!(r.invert);
}

#[test]
fn falling_receptor_fires_only_on_the_crossing() {
    let r = falling(255, 77);
    for curr in 0..=255u8 {
        assert_eq!(r.trigger(128, curr).is_some(), curr < 77);
    }
    assert_eq!(r.trigger(128, 70), Some(70));
    assert_eq!(r.trigger(70, 60), None);
    assert_eq!(r.trigger(60, 0), None);
    assert_eq!(r.trigger(77, 10), None);
    assert_eq!(r.trigger(78, 77), None);
    assert_eq!(r.trigger(78, 76), Some(76));
    assert_eq!(r.trigger(10, 200), None);
}

#[test]
fn rising_receptor_fires_only_on_the_crossing() {
    let r = rising(128, 77);
    for curr in 0..=255u8 {
        assert_eq!(r.trigger(10, curr).is_some(), curr > 77);
    }
    assert_eq!(r.trigger(10, 200), Some(100));
    assert_eq!(r.trigger(200, 255), None);
    assert_eq!(r.trigger(77, 200), None);
    assert_eq!(r.trigger(76, 77), None);
    assert_eq!(r.trigger(200, 10), None);
    assert_eq!(r.trigger(76, 78), Some(39));
}

#[test]
fn trigger_never_fires_while_the_level_stays_on_one_side() {
    for invert in [false, true] {
        let r = Receptor::new(IoType::Analogue, 0, 9, 0, 255, 100, invert);
        for prev in 0..100u8 {
            for curr in 0..100u8 {
                assert_eq!(r.trigger(prev, curr), None);
            }
        }
        for prev in 101..=255u8 {
            for curr in 101..=255u8 {
                assert_eq!(r.trigger(prev, curr), None);
            }
        }
    }
}

#[test]
fn signal_is_the_level_scaled_by_the_gain() {
    assert_eq!(rising(255, 0).trigger(0, 255), None);
    assert_eq!(rising(255, 1).trigger(0, 255), Some(255));
    assert_eq!(rising(128, 1).trigger(0, 255), Some(128));
    assert_eq!(rising(1, 1).trigger(0, 255), Some(1));
    assert_eq!(rising(1, 1).trigger(0, 254), Some(0));
    assert_eq!(rising(0, 1).trigger(0, 255), Some(0));
    assert_eq!(falling(200, 100).trigger(255, 51), Some(40));
}

#[test]
fn kind_and_nominal_do_not_change_the_signal() {
    for kind in [IoType::Analogue, IoType::Digital] {
        for nominal in [0u8, 100, 255] {
            let r = Receptor::new(kind, 0, 9, nominal, 128, 77, false);
            assert_eq!(r.trigger(10, 200), Some(100));
            assert_eq!(r.trigger(200, 210), None);
        }
    }
}

#[test]
fn step_writes_the_locus_on_a_crossing() {
    let r = falling(255, 77);
    let mut creature = creature_at(70);
    creature.set_locus(9, 200);
    assert_eq!(r.step(&mut creature, 128), Some(70));
    assert_eq!(creature.get_locus(9), 70);
    assert_eq!(creature.chemo_body_mut().concnt(0), 70);
}

#[test]
fn step_writes_nothing_without_a_crossing() {
    let r = falling(255, 77);
    let mut creature = creature_at(127);
    creature.set_locus(9, 200);
    assert_eq!(r.step(&mut creature, 128), None);
    assert_eq!(creature.get_locus(9), 200);
    let mut below = creature_at(60);
    below.set_locus(9, 200);
    assert_eq!(r.step(&mut below, 70), None);
    assert_eq!(below.get_locus(9), 200);
    let mut fresh = Creature::new();
    assert_eq!(r.step(&mut fresh, 0), None);
    assert_eq!(fresh.get_locus(9), 0);
    assert_eq!(fresh.chemo_body().peek(0), Some(0));
}

#[test]
fn receptor_does_not_fire_again_while_the_level_stays_below() {
    let r = falling(255, 77);
    let mut creature = creature_at(128);
    let mut prev = 128;
    let mut fired = Vec::new();
    for (tick, loss) in [58u8, 10, 20, 0, 40].into_iter().enumerate() {
        creature.chemo_body_mut().lose(0, loss);
        if let Some(signal) = r.step(&mut creature, prev) {
            fired.push((tick, signal));
        }
        prev = creature.chemo_body_mut().concnt(0);
    }
    assert_eq!(fired, vec![(0, 70)]);
    assert_eq!(creature.get_locus(9), 70);
}

#[test]
fn step_overwrites_its_locus_only() {
    let r = rising(255, 5);
    let mut creature = creature_at(9);
    creature.set_locus(9, 200);
    creature.set_locus(8, 33);
    assert_eq!(r.step(&mut creature, 0), Some(9));
    assert_eq!(creature.get_locus(9), 9);
    assert_eq!(creature.get_locus(8), 33);
}

use backend::kinetics::scale;
use backend::{Creature, Emitter, IoType, TickCount};

fn level(creature: &mut Creature, id: u8) -> u8 {
    creature.chemo_body_mut().concnt(id)
}

#[test]
fn scale_rounds_down() {
    assert_eq!(scale(100, 128), 50);
    assert_eq!(scale(255, 255), 255);
    assert_eq!(scale(0, 255), 0);
    assert_eq!(scale(255, 0), 0);
    assert_eq!(scale(1, 254), 0);
    assert_eq!(scale(51, 5), 1);
    assert_eq!(scale(254, 255), 254);
}

#[test]
fn tick_count_counts_and_resets() {
    let mut tick = TickCount::new();
    assert_eq!(tick.val(), 0);
    tick.inc();
    tick.inc();
    assert_eq!(tick.val(), 2);
    tick.zero();
    assert_eq!(tick.val(), 0);
}

#[test]
fn tick_count_gates_by_rate() {
    let mut tick = TickCount::new();
    assert!(!tick.advance(3));
    assert!(!tick.advance(3));
    assert!(tick.advance(3));
    assert_eq!(tick, TickCount(0));
    assert!(tick.advance(1));
    assert!(tick.advance(0));
    let mut full = TickCount(255);
    assert!(full.advance(255));
    assert_eq!(full, TickCount(0));
    let mut late = TickCount(253);
    assert!(!late.advance(255));
    assert_eq!(late, TickCount(254));
    assert!(late.advance(255));
}

#[test]
fn new_emitter_has_counted_nothing() {
    let e = Emitter::new(IoType::Digital, 1, 2, 3, 4, 5, true, false);
    assert_eq!(e.kind, IoType::Digital);
    assert_eq!(e.chemical, 1);
    assert_eq!(e.rate, 2);
    assert_eq!(e.gain, 3);
    assert_eq!(e.locus, 4);
    assert_eq!(e.threshold, 5);
    assert!(e.clear_after_read);
    assert!(!e.invert);
    assert_eq!(e.tick, TickCount(0));
}

#[test]
fn emitter_fires_once_every_rate_ticks() {
    let mut creature = Creature::new();
    let mut e = Emitter::new(IoType::Digital, 0, 3, 10, 9, 0, false, false);
    let mut seen = Vec::new();
    for _ in 0..7 {
        e.step(&mut creature);
        seen.push(level(&mut creature, 0));
    }
    assert_eq!(seen, vec![0, 0, 10, 10, 10, 20, 20]);
    assert_eq!(e.tick, TickCount(1));
}

#[test]
fn analogue_emitter_adds_scaled_distance_above_threshold() {
    let mut creature = Creature::new();
    creature.set_locus(9, 200);
    let mut e = Emitter::new(IoType::Analogue, 1, 1, 128, 9, 100, false, false);
    e.step(&mut creature);
    assert_eq!(level(&mut creature, 1), 50);
    e.step(&mut creature);
    assert_eq!(level(&mut creature, 1), 100);
}

#[test]
fn analogue_emitter_takes_scaled_distance_below_threshold() {
    let mut creature = Creature::new();
    creature.set_locus(9, 50);
    creature.chemo_body_mut().gain(1, 120);
    let mut e = Emitter::new(IoType::Analogue, 1, 1, 255, 9, 100, false, false);
    e.step(&mut creature);
    assert_eq!(level(&mut creature, 1), 70);
    e.step(&mut creature);
    assert_eq!(level(&mut creature, 1), 20);
}

#[test]
fn analogue_loss_stops_at_zero() {
    let mut creature = Creature::new();
    creature.set_locus(9, 50);
    creature.chemo_body_mut().gain(1, 30);
    let mut e = Emitter::new(IoType::Analogue, 1, 1, 255, 9, 100, false, false);
    e.step(&mut creature);
    assert_eq!(level(&mut creature, 1), 0);
    e.step(&mut creature);
    assert_eq!(level(&mut creature, 1), 0);
}

#[test]
fn analogue_emitter_at_threshold_adds_nothing() {
    let mut creature = Creature::new();
    creature.set_locus(9, 100);
    creature.chemo_body_mut().gain(1, 30);
    let mut e = Emitter::new(IoType::Analogue, 1, 1, 255, 9, 100, false, false);
    e.step(&mut creature);
    assert_eq!(level(&mut creature, 1), 30);
}

#[test]
fn digital_emitter_adds_whole_gain_at_or_above_threshold() {
    let mut creature = Creature::new();
    creature.set_locus(9, 100);
    let mut at = Emitter::new(IoType::Digital, 1, 1, 40, 9, 100, false, false);
    at.step(&mut creature);
    assert_eq!(level(&mut creature, 1), 40);
    let mut below = Emitter::new(IoType::Digital, 2, 1, 40, 9, 101, false, false);
    below.step(&mut creature);
    assert_eq!(level(&mut creature, 2), 0);
}

#[test]
fn digital_emitter_saturates() {
    let mut creature = Creature::new();
    let mut e = Emitter::new(IoType::Digital, 1, 1, 200, 9, 0, false, false);
    e.step(&mut creature);
    e.step(&mut creature);
    assert_eq!(level(&mut creature, 1), 255);
}

#[test]
fn inverting_emitter_reads_the_complement() {
    let mut creature = Creature::new();
    creature.set_locus(9, 55);
    let mut e = Emitter::new(IoType::Analogue, 1, 1, 255, 9, 100, false, true);
    e.step(&mut creature);
    assert_eq!(level(&mut creature, 1), 100);
    let mut d = Emitter::new(IoType::Digital, 2, 1, 7, 9, 201, false, true);
    d.step(&mut creature);
    assert_eq!(level(&mut creature, 2), 0);
    let mut d2 = Emitter::new(IoType::Digital, 2, 1, 7, 9, 200, false, true);
    d2.step(&mut creature);
    assert_eq!(level(&mut creature, 2), 7);
}

#[test]
fn emitter_leaves_loci_alone() {
    let mut creature = Creature::new();
    creature.set_locus(9, 55);
    let mut e = Emitter::new(IoType::Digital, 1, 1, 7, 9, 0, true, false);
    e.step(&mut creature);
    assert_eq!(creature.get_locus(9), 55);
}

use backend::reaction::amount_moved;
use backend::{Chemical, Creature, Reaction, ReactionType, TickCount};

fn chem(id: u8, amount: u8) -> Chemical {
    Chemical::with_concentration(id, amount)
}

fn creature_with(levels: &[(u8, u8)]) -> Creature {
    let mut creature = Creature::new();
    for &(id, level) in levels {
        creature.chemo_body_mut().gain(id, level);
    }
    creature
}

fn level(creature: &mut Creature, id: u8) -> u8 {
    creature.chemo_body_mut().concnt(id)
}

#[test]
fn amount_moved_is_product_held_at_255() {
    assert_eq!(amount_moved(3, 50), 150);
    assert_eq!(amount_moved(5, 51), 255);
    assert_eq!(amount_moved(2, 128), 255);
    assert_eq!(amount_moved(255, 255), 255);
    assert_eq!(amount_moved(0, 255), 0);
    assert_eq!(amount_moved(7, 0), 0);
}

#[test]
fn well_formed_needs_nonzero_limiting_amounts() {
    assert!(ReactionType::Normal(chem(0, 1), chem(1, 1), chem(2, 0), chem(3, 0)).is_well_formed());
    assert!(!ReactionType::Normal(chem(0, 0), chem(1, 1), chem(2, 1), chem(3, 1)).is_well_formed());
    assert!(!ReactionType::Fusion(chem(0, 1), chem(1, 0), chem(2, 1)).is_well_formed());
    assert!(ReactionType::Fusion(chem(0, 1), chem(1, 1), chem(2, 0)).is_well_formed());
    assert!(!ReactionType::Decay(chem(0, 0)).is_well_formed());
    assert!(ReactionType::Decay(chem(0, 9)).is_well_formed());
    assert!(!ReactionType::Catalytic(chem(0, 0), chem(1, 1), chem(2, 1)).is_well_formed());
    assert!(ReactionType::Catalytic(chem(0, 2), chem(1, 1), chem(2, 0)).is_well_formed());
    assert!(!ReactionType::CatalyticBreakdown(chem(0, 1), chem(1, 0)).is_well_formed());
    assert!(ReactionType::CatalyticBreakdown(chem(0, 1), chem(1, 1)).is_well_formed());
}

#[test]
fn normal_reaction_moves_whole_events() {
    let mut creature = creature_with(&[(0, 25), (1, 100), (3, 5)]);
    let mut r = Reaction::new(ReactionType::Normal(chem(0, 10), chem(1, 20), chem(2, 3), chem(3, 7)), 1);
    r.step(&mut creature);
    assert_eq!(level(&mut creature, 0), 5);
    assert_eq!(level(&mut creature, 1), 60);
    assert_eq!(level(&mut creature, 2), 6);
    assert_eq!(level(&mut creature, 3), 19);
}

#[test]
fn fusion_is_limited_by_the_scarcer_reactant() {
    let mut creature = creature_with(&[(0, 90), (1, 35)]);
    let mut r = Reaction::new(ReactionType::Fusion(chem(0, 10), chem(1, 10), chem(2, 10)), 1);
    r.step(&mut creature);
    assert_eq!(level(&mut creature, 0), 60);
    assert_eq!(level(&mut creature, 1), 5);
    assert_eq!(level(&mut creature, 2), 30);
}

#[test]
fn fusion_never_yields_more_than_its_events_account_for() {
    for a in (0..=255u16).step_by(17) {
        for b in (0..=255u16).step_by(23) {
            for weight in [1u8, 3, 16, 100, 255] {
                let mut creature = creature_with(&[(0, a as u8), (1, b as u8), (2, 40)]);
                let n = (a as u8 / weight).min(b as u8 / weight) as u32;
                let mut r = Reaction::new(ReactionType::Fusion(chem(0, weight), chem(1, weight), chem(2, weight)), 1);
                r.step(&mut creature);
                let c = level(&mut creature, 2) as u32;
                assert!(c <= 40 + n * weight as u32);
                assert_eq!(c, (40 + n * weight as u32).min(255));
            }
        }
    }
}

#[test]
fn decay_removes_whole_multiples() {
    let mut creature = creature_with(&[(0, 200)]);
    let mut r = Reaction::new(ReactionType::Decay(chem(0, 64)), 1);
    r.step(&mut creature);
    assert_eq!(level(&mut creature, 0), 8);
    r.step(&mut creature);
    assert_eq!(level(&mut creature, 0), 8);
}

#[test]
fn decay_never_raises_a_level() {
    for start in 0..=255u8 {
        for weight in [1u8, 2, 7, 64, 255] {
            let mut creature = creature_with(&[(0, start), (1, 77)]);
            let mut r = Reaction::new(ReactionType::Decay(chem(0, weight)), 1);
            r.step(&mut creature);
            assert!(level(&mut creature, 0) <= start);
            assert_eq!(level(&mut creature, 0), start % weight);
            assert_eq!(level(&mut creature, 1), 77);
        }
    }
}

#[test]
fn catalytic_reaction_spares_the_catalyst() {
    let mut creature = creature_with(&[(0, 30), (1, 100)]);
    let mut r = Reaction::new(ReactionType::Catalytic(chem(0, 10), chem(1, 20), chem(2, 5)), 1);
    r.step(&mut creature);
    assert_eq!(level(&mut creature, 0), 30);
    assert_eq!(level(&mut creature, 1), 40);
    assert_eq!(level(&mut creature, 2), 15);
}

#[test]
fn catalytic_breakdown_only_consumes() {
    let mut creature = creature_with(&[(0, 30), (1, 100)]);
    let mut r = Reaction::new(ReactionType::CatalyticBreakdown(chem(0, 15), chem(1, 30)), 1);
    r.step(&mut creature);
    assert_eq!(level(&mut creature, 0), 30);
    assert_eq!(level(&mut creature, 1), 40);
}

#[test]
fn product_saturates_at_255() {
    let mut creature = creature_with(&[(0, 200), (1, 200), (2, 100)]);
    let mut r = Reaction::new(ReactionType::Fusion(chem(0, 1), chem(1, 1), chem(2, 2)), 1);
    r.step(&mut creature);
    assert_eq!(level(&mut creature, 0), 0);
    assert_eq!(level(&mut creature, 1), 0);
    assert_eq!(level(&mut creature, 2), 255);
}

#[test]
fn reactants_of_one_species_are_taken_in_turn() {
    let mut creature = creature_with(&[(0, 30)]);
    let mut r = Reaction::new(ReactionType::Fusion(chem(0, 10), chem(0, 10), chem(1, 1)), 1);
    r.step(&mut creature);
    assert_eq!(level(&mut creature, 0), 0);
    assert_eq!(level(&mut creature, 1), 3);
    let mut creature = creature_with(&[(0, 30)]);
    let mut r = Reaction::new(ReactionType::Fusion(chem(0, 10), chem(0, 7), chem(1, 1)), 1);
    r.step(&mut creature);
    assert_eq!(level(&mut creature, 0), 0);
    assert_eq!(level(&mut creature, 1), 3);
    let mut creature = creature_with(&[(0, 30)]);
    let mut r = Reaction::new(ReactionType::Fusion(chem(0, 7), chem(0, 4), chem(1, 1)), 1);
    r.step(&mut creature);
    assert_eq!(level(&mut creature, 0), 2);
    assert_eq!(level(&mut creature, 1), 4);
}

#[test]
fn reaction_waits_for_its_rate() {
    let mut creature = creature_with(&[(0, 100)]);
    let mut r = Reaction::new(ReactionType::Decay(chem(0, 100)), 4);
    let mut seen = Vec::new();
    for _ in 0..4 {
        r.step(&mut creature);
        seen.push((level(&mut creature, 0), r.tick));
    }
    assert_eq!(
        seen,
        vec![(100, TickCount(1)), (100, TickCount(2)), (100, TickCount(3)), (0, TickCount(0))]
    );
}

#[test]
fn react_runs_on_a_bare_body() {
    let mut body = backend::ChemoBody::new();
    body.gain(0, 9);
    ReactionType::Decay(chem(0, 2)).react(&mut body);
    assert_eq!(body.concnt(0), 1);
}

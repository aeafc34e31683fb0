use backend::{Age, Creature, Drive, Locus};

#[test]
fn new_creature_is_a_living_baby() {
    let creature = Creature::new();
    assert!(creature.is_alive());
    assert_eq!(creature.age(), Age::Baby);
    assert_eq!(creature.get_drive(Drive::Hunger), 0);
    for id in 0..=255u8 {
        assert_eq!(creature.get_locus(id), 0);
    }
}

#[test]
fn set_locus_is_read_back() {
    let mut creature = Creature::new();
    creature.set_locus(42, 17);
    assert_eq!(creature.get_locus(42), 17);
    creature.set_locus(42, 0);
    assert_eq!(creature.get_locus(42), 0);
    assert_eq!(creature.get_locus(43), 0);
}

#[test]
fn locus_ids_are_fixed() {
    assert_eq!(Locus::Death.id(), 0);
    assert_eq!(Locus::AgedToChild.id(), 1);
    assert_eq!(Locus::AgedToAdolescent.id(), 2);
    assert_eq!(Locus::AgedToYouth.id(), 3);
    assert_eq!(Locus::AgedToAdult.id(), 4);
    assert_eq!(Locus::AgedToOld.id(), 5);
    assert_eq!(Locus::AgedToSenile.id(), 6);
    assert_eq!(Locus::Hunger.id(), 7);
}

#[test]
fn death_locus_decides_is_alive() {
    let mut creature = Creature::new();
    creature.set_locus(Locus::Death.id(), 1);
    assert!(!creature.is_alive());
    assert_eq!(creature.age(), Age::Baby);
    creature.set_locus(Locus::Death.id(), 0);
    assert!(creature.is_alive());
}

#[test]
fn each_marker_gives_its_stage() {
    let stages = [
        (Locus::AgedToChild, Age::Child),
        (Locus::AgedToAdolescent, Age::Adolescent),
        (Locus::AgedToYouth, Age::Youth),
        (Locus::AgedToAdult, Age::Adult),
        (Locus::AgedToOld, Age::Old),
        (Locus::AgedToSenile, Age::Senile),
    ];
    for (locus, age) in stages {
        let mut creature = Creature::new();
        creature.set_locus(locus.id(), 200);
        assert_eq!(creature.age(), age);
    }
}

#[test]
fn most_mature_marker_wins() {
    let mut creature = Creature::new();
    creature.set_locus(Locus::AgedToChild.id(), 1);
    creature.set_locus(Locus::AgedToAdult.id(), 1);
    assert_eq!(creature.age(), Age::Adult);
    creature.set_locus(Locus::AgedToSenile.id(), 9);
    assert_eq!(creature.age(), Age::Senile);
    creature.set_locus(Locus::AgedToSenile.id(), 0);
    creature.set_locus(Locus::AgedToAdult.id(), 0);
    assert_eq!(creature.age(), Age::Child);
}

#[test]
fn ages_are_ordered() {
    assert!(Age::Baby < Age::Child);
    assert!(Age::Child < Age::Adolescent);
    assert!(Age::Adolescent < Age::Youth);
    assert!(Age::Youth < Age::Adult);
    assert!(Age::Adult < Age::Old);
    assert!(Age::Old < Age::Senile);
}

#[test]
fn hunger_drive_reads_its_locus() {
    let mut creature = Creature::new();
    creature.set_locus(Locus::Hunger.id(), 77);
    assert_eq!(creature.get_drive(Drive::Hunger), 77);
}

#[test]
fn chemistry_is_reached_through_the_creature() {
    let mut creature = Creature::new();
    assert!(creature.chemo_body_mut().gain(3, 9));
    assert_eq!(creature.chemo_body_mut().concnt(3), 9);
    creature.set_locus(3, 1);
    assert_eq!(creature.chemo_body_mut().concnt(3), 9);
    let _shared: &backend::ChemoBody = creature.chemo_body();
}

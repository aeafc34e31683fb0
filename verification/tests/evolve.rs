use backend::{
    challenge, climb, distance, evolve, run, search, Chemical, Emitter, EmitterEdit, Fitness, Gene, GeneEdit, Genome,
    IoType, Locus, Mutation, Reaction, ReactionType, Receptor, ReceptorEdit, TickCount,
};
use rand::{SeedableRng, StdRng};
use std::cell::{Cell, RefCell};

fn seeded(seed: usize) -> StdRng {
    let words = [seed, 3, 1, 4];
    SeedableRng::from_seed(&words[..])
}

/// Adds 10 to chemical 0 on every tick and becomes a child on the tick on
/// which its level rises from below `threshold` to above it.
fn grower(threshold: u8) -> Genome<f32> {
    Genome::from_genes(vec![
        Gene::Emitter(Emitter::new(IoType::Digital, 0, 1, 10, 50, 0, false, false)),
        Gene::Receptor(Receptor::new(IoType::Digital, 0, Locus::AgedToChild.id(), 0, 255, threshold, false)),
    ])
}

#[test]
fn distance_is_the_absolute_difference() {
    assert_eq!(distance(300, 299), 1);
    assert_eq!(distance(299, 300), 1);
    assert_eq!(distance(300, 300), 0);
    assert_eq!(distance(0, u32::MAX), u32::MAX);
    assert_eq!(distance(u32::MAX, 0), u32::MAX);
}

#[test]
fn run_stops_on_the_tick_the_creature_becomes_a_child() {
    let mut genome = grower(45);
    assert_eq!(run(&mut genome, 100), 4);
    let mut genome = grower(9);
    assert_eq!(run(&mut genome, 100), 0);
    let mut genome = grower(11);
    assert_eq!(run(&mut genome, 100), 1);
}

#[test]
fn run_sees_no_crossing_where_the_level_rests_on_the_threshold() {
    let mut genome = grower(0);
    assert_eq!(run(&mut genome, 100), 100);
    let mut genome = grower(10);
    assert_eq!(run(&mut genome, 100), 100);
    let mut genome = grower(250);
    assert_eq!(run(&mut genome, 100), 100);
}

#[test]
fn run_stops_at_the_cap() {
    let mut genome = grower(45);
    assert_eq!(run(&mut genome, 3), 3);
    let mut genome = grower(45);
    assert_eq!(run(&mut genome, 4), 4);
    let mut genome = grower(45);
    assert_eq!(run(&mut genome, 5), 4);
    let mut genome = grower(45);
    assert_eq!(run(&mut genome, 0), 0);
    let mut never = grower(255);
    assert_eq!(run(&mut never, 1000), 1000);
}

#[test]
fn run_seeds_the_creature_first() {
    let mut genome: Genome<f32> = Genome::from_genes(vec![
        Gene::InitialState(Chemical::with_concentration(0, 30)),
        Gene::Emitter(Emitter::new(IoType::Digital, 0, 1, 10, 50, 0, false, false)),
        Gene::Receptor(Receptor::new(IoType::Digital, 0, Locus::AgedToChild.id(), 0, 255, 45, false)),
    ]);
    assert_eq!(run(&mut genome, 100), 1);
}

#[test]
fn run_ignores_other_stages() {
    let mut genome: Genome<f32> = Genome::from_genes(vec![
        Gene::Emitter(Emitter::new(IoType::Digital, 0, 1, 10, 50, 0, false, false)),
        Gene::Receptor(Receptor::new(IoType::Digital, 0, Locus::AgedToAdult.id(), 0, 255, 15, false)),
        Gene::Receptor(Receptor::new(IoType::Digital, 0, Locus::AgedToChild.id(), 0, 255, 45, false)),
    ]);
    assert_eq!(run(&mut genome, 20), 20);
}

#[test]
fn run_leaves_the_genes_as_the_trial_left_them() {
    let mut genome: Genome<f32> = Genome::from_genes(vec![
        Gene::Emitter(Emitter::new(IoType::Digital, 0, 1, 10, 50, 0, false, false)),
        Gene::Reaction(Reaction::new(ReactionType::Decay(Chemical::with_concentration(9, 1)), 7)),
        Gene::Receptor(Receptor::new(IoType::Digital, 0, Locus::AgedToChild.id(), 0, 255, 45, false)),
    ]);
    assert_eq!(run(&mut genome, 100), 4);
    match &genome.genes()[1] {
        Gene::Reaction(r) => assert_eq!(r.tick, TickCount(5)),
        _ => panic!("the gene changed its variant"),
    }
}

#[test]
fn evolve_scores_every_trial_and_keeps_the_least() {
    let calls = Cell::new(0u32);
    let scores = [5u32, 3, 3, 7];
    let seen = RefCell::new(Vec::new());
    let fitness = |ticks: u32, _genome: &Genome<f32>| {
        seen.borrow_mut().push(ticks);
        let score = scores[calls.get() as usize];
        calls.set(calls.get() + 1);
        score
    };
    let best = evolve(grower(45), 4, 100, &fitness);
    assert_eq!(best.0, 3);
    assert_eq!(calls.get(), 4);
    assert_eq!(*seen.borrow(), vec![4, 4, 4, 4]);
    let mut after = grower(45);
    run(&mut after, 100);
    assert_eq!(best.1, after);
}

#[test]
fn evolve_with_one_trial_scores_the_base() {
    let best = evolve(grower(45), 1, 100, &|ticks: u32, _g: &Genome<f32>| distance(300, ticks));
    assert_eq!(best.0, 296);
    let capped = evolve(grower(45), 1, 2, &|ticks: u32, _g: &Genome<f32>| distance(300, ticks));
    assert_eq!(capped.0, 298);
}

#[test]
fn climb_never_raises_the_score() {
    let fitness = |ticks: u32, _g: &Genome<f32>| distance(2, ticks);
    let mut rng = seeded(7);
    let mut incumbent = evolve(grower(45), 2, 60, &fitness);
    assert_eq!(incumbent.0, 2);
    for _ in 0..300 {
        let before = incumbent.0;
        incumbent = climb(incumbent, &mut rng, 2, 60, &fitness);
        assert!(incumbent.0 <= before);
        assert!(incumbent.1.is_well_formed());
    }
}

#[test]
fn climb_keeps_the_incumbent_unless_the_variant_scores_lower() {
    let fitness = |_ticks: u32, _g: &Genome<f32>| 5u32;
    let mut rng = seeded(8);
    let start = Fitness(5, grower(45));
    let kept = climb(start, &mut rng, 3, 10, &fitness);
    assert_eq!(kept, Fitness(5, grower(45)));
    let eager = Fitness(6, grower(45));
    let kept = climb(eager, &mut rng, 3, 10, &fitness);
    assert_eq!(kept.0, 5);
}

#[test]
fn search_scores_never_rise_from_round_to_round() {
    for seed in 0..5 {
        let fitness = |ticks: u32, _g: &Genome<f32>| distance(2, ticks);
        let mut rng = seeded(seed);
        let (found, history) = search(grower(45), 200, &mut rng, 2, 60, &fitness);
        assert_eq!(history[0], 2);
        assert!(history.len() >= 1 && history.len() <= 201);
        for pair in history.windows(2) {
            assert!(pair[1] <= pair[0]);
        }
        assert_eq!(found.0, *history.last().unwrap());
        assert!(history.len() == 201 || found.0 == 0);
        assert!(found.1.is_well_formed());
    }
}

#[test]
fn search_stops_at_once_on_the_optimum() {
    let fitness = |ticks: u32, _g: &Genome<f32>| distance(4, ticks);
    let mut rng = seeded(1);
    let (found, history) = search(grower(45), 50, &mut rng, 3, 60, &fitness);
    assert_eq!(history, vec![0]);
    assert_eq!(found.0, 0);
    let (found, history) = search(grower(45), 0, &mut rng, 3, 60, &|ticks: u32, _g: &Genome<f32>| distance(9, ticks));
    assert_eq!(history, vec![5]);
    assert_eq!(found.0, 5);
}

#[test]
fn search_follows_its_generator() {
    let fitness = |ticks: u32, _g: &Genome<f32>| distance(2, ticks);
    let (a, ha) = search(grower(45), 100, &mut seeded(3), 2, 60, &fitness);
    let (b, hb) = search(grower(45), 100, &mut seeded(3), 2, 60, &fitness);
    assert_eq!(ha, hb);
    assert_eq!(a, b);
}

#[test]
fn challenge_keeps_a_variant_that_scores_lower() {
    let fitness = |ticks: u32, _g: &Genome<f32>| distance(2, ticks);
    let incumbent = evolve(grower(45), 1, 60, &fitness);
    assert_eq!(incumbent.0, 2);
    let kept = challenge(incumbent, Mutation::Edit(0, GeneEdit::Emitter(EmitterEdit::Gain(30))), 3, 60, &fitness);
    assert_eq!(kept.0, 1);
    let mut expected = Genome::from_genes(vec![
        Gene::Emitter(Emitter::new(IoType::Digital, 0, 1, 30, 50, 0, false, false)),
        Gene::Receptor(Receptor::new(IoType::Digital, 0, Locus::AgedToChild.id(), 0, 255, 45, false)),
    ]);
    assert_eq!(run(&mut expected, 60), 1);
    assert_eq!(kept.1, expected);
}

#[test]
fn challenge_keeps_the_incumbent_otherwise() {
    let fitness = |ticks: u32, _g: &Genome<f32>| distance(2, ticks);
    let worse = Mutation::Edit(0, GeneEdit::Emitter(EmitterEdit::Gain(5)));
    let kept = challenge(Fitness(2, grower(45)), worse, 3, 60, &fitness);
    assert_eq!(kept, Fitness(2, grower(45)));
    let equal = Mutation::Edit(1, GeneEdit::Receptor(ReceptorEdit::Threshold(49)));
    let kept = challenge(Fitness(2, grower(45)), equal, 3, 60, &fitness);
    assert_eq!(kept, Fitness(2, grower(45)));
}

#[test]
fn scores_never_rise_along_a_fixed_sequence_of_mutations() {
    let fitness = |ticks: u32, _g: &Genome<f32>| distance(0, ticks);
    let gains = [5u8, 30, 12, 46, 20, 255, 1];
    let mut incumbent = evolve(grower(45), 2, 60, &fitness);
    let mut scores = vec![incumbent.0];
    for gain in gains {
        let mutation = Mutation::Edit(0, GeneEdit::Emitter(EmitterEdit::Gain(gain)));
        incumbent = challenge(incumbent, mutation, 2, 60, &fitness);
        scores.push(incumbent.0);
    }
    assert_eq!(scores, vec![4, 4, 1, 1, 0, 0, 0, 0]);
}

#[test]
fn draw_gives_a_mutation_that_fits() {
    let genome = grower(45);
    let mut appended = false;
    let mut edited = [false; 2];
    for seed in 0..100 {
        match genome.draw(&mut seeded(seed)) {
            Mutation::Append(gene) => {
                appended = true;
                assert!(gene.is_well_formed());
                assert!(!matches!(gene, Gene::Brain(_, _, _)));
            }
            Mutation::Edit(0, GeneEdit::Emitter(_)) => edited[0] = true,
            Mutation::Edit(1, GeneEdit::Receptor(_)) => edited[1] = true,
            other => panic!("{:?} does not fit the genome", other),
        }
    }
    assert!(appended && edited[0] && edited[1]);
}

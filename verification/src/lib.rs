//! Simulation and evolution engine for small digital organisms.
//!
//! An organism couples three layers: a chemistry of up to 256 species, a
//! table of byte registers (loci) that genes read and write, and a genome
//! that drives both and may encode a feed-forward network.
//!
//! Concentrations are integers throughout: a level is a `u8`, an addition
//! that passes 255 stops there, and a removal that the level cannot cover is
//! refused. A gene acts on the body at once. There is no table of pending
//! changes: within one tick a gene sees what the genes before it in the
//! genome have done. A receptor is coupled to a locus and triggered by an
//! edge: it compares the level that it finds with the level that its
//! chemical had when the tick began, and only on the tick on which the
//! level has crossed its threshold does it give a signal and write it to
//! the locus.
//!
//! The network is generic in the type of its weights. The library cuts a
//! flat vector of weights into layers and neurons, joins them again, and
//! routes signals through the layers; the arithmetic on weights is the
//! caller's, handed in as a function.
pub mod brain;
pub mod chem;
pub mod creature;
pub mod emitter;
pub mod evolve;
pub mod genome;
pub mod kinetics;
pub mod mutation;
pub mod random;
pub mod reaction;
pub mod receptor;

pub use crate::chem::{Chemical, ChemoBody, Concentration, Id};
pub use crate::creature::{Age, Creature, CreatureView, Drive, Locus, LocusId, LocusValue};
pub use crate::emitter::Emitter;
pub use crate::kinetics::{IoType, TickCount};
pub use crate::brain::{ClampExt, NetView, NeuralNet, Neuron, NeuronLayer};
pub use crate::reaction::{Reaction, ReactionType};
pub use crate::receptor::Receptor;
pub use crate::genome::{simulate_genome, Gene, GeneView, Genome, Signal};
pub use crate::mutation::{ChemicalEdit, EmitterEdit, GeneEdit, Mutation, ReactionEdit, ReceptorEdit};
pub use crate::evolve::{challenge, climb, distance, evolve, run, search, Fitness, Outcome};

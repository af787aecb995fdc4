//! A candidate of the population: a genome of weights and biases for the
//! network, and what its episodes scored.
//!
//! Each gene is the 64-bit IEEE-754 encoding of a real weight or bias. The
//! library moves genes between genomes and never reads them as numbers; the
//! arithmetic of the network is done by whoever runs it.

use crate::nn_architecture::{layers_wf, standard_layers, LayerConfig, NN_Architecture};
use crate::snakegame::{DeathCause, EpisodeResult};
use vstd::prelude::*;

verus! {

/// The genes of a list of tensors, one sequence for each layer.
pub open spec fn genes(v: Seq<Vec<u64>>) -> Seq<Seq<u64>> {
    v.map_values(|r: Vec<u64>| r@)
}

/// Weight tensors for `layers`: for each layer its `output_dim` rows of
/// `input_dim` genes, row after row.
pub open spec fn weights_fit(layers: Seq<LayerConfig>, w: Seq<Seq<u64>>) -> bool {
    &&& w.len() == layers.len()
    &&& forall|i: int| 0 <= i < w.len() ==> #[trigger] w[i].len() == layers[i].output_dim * layers[i].input_dim
}

/// Bias tensors for `layers`: for each layer one gene per neuron.
pub open spec fn biases_fit(layers: Seq<LayerConfig>, b: Seq<Seq<u64>>) -> bool {
    &&& b.len() == layers.len()
    &&& forall|i: int| 0 <= i < b.len() ==> #[trigger] b[i].len() == layers[i].output_dim
}

/// Whether two tensor families have the same shape.
pub open spec fn same_shape(x: Seq<Seq<u64>>, y: Seq<Seq<u64>>) -> bool {
    &&& x.len() == y.len()
    &&& forall|i: int| 0 <= i < x.len() ==> #[trigger] x[i].len() == y[i].len()
}

/// The sum of the scores of `rs`.
pub open spec fn score_total(rs: Seq<EpisodeResult>) -> int
    decreases rs.len(),
{
    if rs.len() == 0 {
        0
    } else {
        score_total(rs.drop_last()) + rs.last().score
    }
}

/// The sum of the apples eaten in `rs`.
pub open spec fn apples_total(rs: Seq<EpisodeResult>) -> int
    decreases rs.len(),
{
    if rs.len() == 0 {
        0
    } else {
        apples_total(rs.drop_last()) + rs.last().apples_eaten
    }
}

/// How many episodes of `rs` ended by `c`.
pub open spec fn cause_count(rs: Seq<EpisodeResult>, c: DeathCause) -> int
    decreases rs.len(),
{
    if rs.len() == 0 {
        0
    } else {
        cause_count(rs.drop_last(), c) + if rs.last().cause == Some(c) {
            1int
        } else {
            0int
        }
    }
}

/// The mean score of `rs`, rounded down; zero for no episodes.
pub open spec fn mean_score(rs: Seq<EpisodeResult>) -> int {
    if rs.len() == 0 {
        0
    } else {
        score_total(rs) / rs.len() as int
    }
}

/// A copy of a row of genes.
pub fn copy_row(v: &Vec<u64>) -> (r: Vec<u64>)
    ensures
        r@ == v@,
{
    let mut r: Vec<u64> = Vec::new();
    let mut i: usize = 0;
    while i < v.len()
        invariant
            0 <= i <= v.len(),
            r@ == v@.subrange(0, i as int),
        decreases v.len() - i,
    {
        r.push(v[i]);
        i = i + 1;
        assert(r@ == v@.subrange(0, i as int));
    }
    assert(v@.subrange(0, v@.len() as int) == v@);
    r
}

/// A copy of a tensor family.
pub fn copy_genes(v: &Vec<Vec<u64>>) -> (r: Vec<Vec<u64>>)
    ensures
        genes(r@) == genes(v@),
{
    let mut r: Vec<Vec<u64>> = Vec::new();
    let mut i: usize = 0;
    while i < v.len()
        invariant
            0 <= i <= v.len(),
            r@.len() == i,
            forall|j: int| 0 <= j < i ==> (#[trigger] r@[j])@ == v@[j]@,
        decreases v.len() - i,
    {
        let row = copy_row(&v[i]);
        r.push(row);
        i = i + 1;
    }
    assert(genes(r@) =~= genes(v@));
    r
}

/// A genome and the record of its episodes.
#[derive(Debug)]
pub struct Member {
    /// The mean score of the last evaluation, rounded down.
    pub fitness: usize,
    pub nn_architecture: NN_Architecture,
    /// For each layer, its weight genes row after row.
    pub weights: Vec<Vec<u64>>,
    /// For each layer, one bias gene per neuron.
    pub biases: Vec<Vec<u64>>,
    pub generation: usize,
    pub killed_by_wall: usize,
    pub killed_by_myself: usize,
    pub killed_by_hunger: usize,
    pub apples_eaten: usize,
}

impl Member {
    /// The weight genes, layer by layer.
    pub open spec fn weight_genes(&self) -> Seq<Seq<u64>> {
        genes(self.weights@)
    }

    /// The bias genes, layer by layer.
    pub open spec fn bias_genes(&self) -> Seq<Seq<u64>> {
        genes(self.biases@)
    }

    /// The tensors fit the layers of the architecture.
    pub open spec fn wf(&self) -> bool {
        &&& layers_wf(self.nn_architecture.layers@)
        &&& weights_fit(self.nn_architecture.layers@, self.weight_genes())
        &&& biases_fit(self.nn_architecture.layers@, self.bias_genes())
    }

    /// Whether `other` holds the same values as `self`.
    pub open spec fn same_as(&self, other: &Member) -> bool {
        &&& self.fitness == other.fitness
        &&& self.nn_architecture.layers@ == other.nn_architecture.layers@
        &&& self.weight_genes() == other.weight_genes()
        &&& self.bias_genes() == other.bias_genes()
        &&& self.generation == other.generation
        &&& self.killed_by_wall == other.killed_by_wall
        &&& self.killed_by_myself == other.killed_by_myself
        &&& self.killed_by_hunger == other.killed_by_hunger
        &&& self.apples_eaten == other.apples_eaten
    }

    /// A candidate of `generation` with the given tensors for the standard
    /// architecture, not yet evaluated.
    pub fn new(weights: Vec<Vec<u64>>, biases: Vec<Vec<u64>>, generation: usize) -> (r: Self)
        requires
            weights_fit(standard_layers(), genes(weights@)),
            biases_fit(standard_layers(), genes(biases@)),
        ensures
            r.wf(),
            r.nn_architecture.layers@ == standard_layers(),
            r.weight_genes() == genes(weights@),
            r.bias_genes() == genes(biases@),
            r.generation == generation,
            r.fitness == 0,
            r.killed_by_wall == 0 && r.killed_by_myself == 0 && r.killed_by_hunger == 0,
            r.apples_eaten == 0,
    {
        Member {
            fitness: 0,
            nn_architecture: NN_Architecture::new(),
            weights,
            biases,
            generation,
            killed_by_wall: 0,
            killed_by_myself: 0,
            killed_by_hunger: 0,
            apples_eaten: 0,
        }
    }

    /// A copy that shares nothing with `self`.
    pub fn duplicate(&self) -> (r: Self)
        ensures
            r.same_as(self),
    {
        Member {
            fitness: self.fitness,
            nn_architecture: self.nn_architecture.duplicate(),
            weights: copy_genes(&self.weights),
            biases: copy_genes(&self.biases),
            generation: self.generation,
            killed_by_wall: self.killed_by_wall,
            killed_by_myself: self.killed_by_myself,
            killed_by_hunger: self.killed_by_hunger,
            apples_eaten: self.apples_eaten,
        }
    }

    /// Replaces the record of the candidate by that of `results`: the
    /// fitness becomes their mean score, the counters their causes of death
    /// and apples.
    pub fn record_episodes(&mut self, results: &Vec<EpisodeResult>)
        requires
            apples_total(results@) <= usize::MAX,
        ensures
            final(self).fitness == mean_score(results@),
            final(self).killed_by_wall == cause_count(results@, DeathCause::Wall),
            final(self).killed_by_myself == cause_count(results@, DeathCause::Myself),
            final(self).killed_by_hunger == cause_count(results@, DeathCause::Hunger),
            final(self).apples_eaten == apples_total(results@),
            final(self).weights == old(self).weights,
            final(self).biases == old(self).biases,
            final(self).nn_architecture == old(self).nn_architecture,
            final(self).generation == old(self).generation,
    {
        let n = results.len();
        let mut sum: u128 = 0;
        let mut apples: u128 = 0;
        let mut wall: usize = 0;
        let mut myself: usize = 0;
        let mut hunger: usize = 0;
        let mut i: usize = 0;
        while i < n
            invariant
                n == results.len(),
                0 <= i <= n,
                sum == score_total(results@.subrange(0, i as int)),
                apples == apples_total(results@.subrange(0, i as int)),
                wall == cause_count(results@.subrange(0, i as int), DeathCause::Wall),
                myself == cause_count(results@.subrange(0, i as int), DeathCause::Myself),
                hunger == cause_count(results@.subrange(0, i as int), DeathCause::Hunger),
                sum <= i * usize::MAX,
                apples <= i * usize::MAX,
                wall <= i && myself <= i && hunger <= i,
            decreases n - i,
        {
            let r = results[i];
            assert(results@.subrange(0, i + 1).drop_last() == results@.subrange(0, i as int));
            assert((i + 1) * usize::MAX <= u128::MAX) by (nonlinear_arith)
                requires
                    i + 1 <= usize::MAX,
                    usize::MAX <= u64::MAX,
            ;
            assert(i * usize::MAX + usize::MAX == (i + 1) * usize::MAX) by (nonlinear_arith);
            sum = sum + r.score as u128;
            apples = apples + r.apples_eaten as u128;
            match r.cause {
                Some(DeathCause::Wall) => {
                    wall = wall + 1;
                },
                Some(DeathCause::Myself) => {
                    myself = myself + 1;
                },
                Some(DeathCause::Hunger) => {
                    hunger = hunger + 1;
                },
                None => {},
            }
            i = i + 1;
        }
        assert(results@.subrange(0, n as int) == results@);
        if n == 0 {
            self.fitness = 0;
        } else {
            assert(sum / (n as u128) <= usize::MAX) by (nonlinear_arith)
                requires
                    sum <= n * usize::MAX,
                    n > 0,
            ;
            self.fitness = (sum / (n as u128)) as usize;
        }
        self.killed_by_wall = wall;
        self.killed_by_myself = myself;
        self.killed_by_hunger = hunger;
        self.apples_eaten = apples as usize;
    }
}

} // verus!

//! The population and its genetic operators: ranking, fitness-proportional
//! selection, crossover under several mixing policies, mutation, and the
//! statistics of an evaluation pass.

use crate::member::{copy_genes, copy_row, genes, same_shape, Member};
use crate::random::draw_below;
use rand::rngs::StdRng;
use vstd::prelude::*;

verus! {

/// Share of crossovers, in percent, that copy every eligible gene.
pub const MIX_TYPE_ALL_PERCENTAGE: u128 = 30;

/// Share of crossovers, in percent, below which the rest copy about half of
/// the eligible genes; the remaining ones copy a single gene.
pub const MIX_TYPE_HALF_PERCENTAGE: u128 = 60;

/// Chance, in percent, that a crossover may change the weights.
pub const MIX_WEIGHTS_PERCENTAGE: u128 = 50;

/// Chance, in percent, that a crossover may change the biases.
pub const MIX_BIASES_PERCENTAGE: u128 = 50;

/// Chance, in percent, that a child is mutated.
pub const MIX_MUTATE_PERCENTAGE: u128 = 1;

/// Chance, in percent, that a gene is copied under the half policy.
pub const HALF_COPY_PERCENTAGE: u128 = 50;

/// How many genes a crossover copies from the second parent.
#[derive(Debug, Clone, Copy, PartialEq, Eq, Structural)]
pub enum MixType {
    /// Every eligible gene.
    All,
    /// Each eligible gene with even odds.
    Percentage,
    /// One gene of each eligible family.
    Single,
}

/// Which tensor families a crossover may change.
#[derive(Debug, Clone, Copy, PartialEq, Eq, Structural)]
pub enum MixTarget {
    Weights,
    Biases,
    Both,
    /// Each family with even odds, drawn independently.
    Random,
}

/// Fresh genes for a mutation: one for the weights, one for the biases.
#[derive(Debug, Clone, Copy, PartialEq, Eq, Structural)]
pub struct Mutation {
    pub weight_gene: u64,
    pub bias_gene: u64,
}

/// Why no parent could be drawn from a pool.
#[derive(Debug, Clone, Copy, PartialEq, Eq, Structural)]
pub enum EvolutionError {
    /// The pool holds no candidate.
    EmptyPool,
    /// Every candidate of the pool has zero fitness.
    ZeroFitness,
}

/// Every family has at least one layer, and every layer at least one gene.
pub open spec fn rows_nonempty(a: Seq<Seq<u64>>) -> bool {
    &&& a.len() > 0
    &&& forall|i: int| 0 <= i < a.len() ==> #[trigger] a[i].len() > 0
}

/// `m` is `a` with the gene at row `i`, place `j` set to `g`.
pub open spec fn replaced_at(a: Seq<Seq<u64>>, m: Seq<Seq<u64>>, i: int, j: int, g: u64) -> bool {
    &&& same_shape(a, m)
    &&& 0 <= i < a.len() && 0 <= j < a[i].len()
    &&& m[i][j] == g
    &&& forall|p: int, q: int|
        0 <= p < a.len() && 0 <= q < a[p].len() && (p != i || q != j) ==> #[trigger] m[p][q] == a[p][q]
}

/// `m` mixes `b` into `a` as `mix` allows.
pub open spec fn mixed_by(mix: MixType, a: Seq<Seq<u64>>, b: Seq<Seq<u64>>, m: Seq<Seq<u64>>) -> bool {
    &&& same_shape(a, m)
    &&& match mix {
        MixType::All => m == b,
        MixType::Percentage => forall|p: int, q: int|
            0 <= p < a.len() && 0 <= q < a[p].len() ==> #[trigger] m[p][q] == a[p][q] || m[p][q] == b[p][q],
        MixType::Single => exists|i: int, j: int| replaced_at(a, m, i, j, b[i][j]),
    }
}

/// `c` is a family of `a` crossed with `b` under `mix`, then, where `fresh`
/// holds a gene, mutated at one place to it.
pub open spec fn crossed_family(
    mix: MixType,
    a: Seq<Seq<u64>>,
    b: Seq<Seq<u64>>,
    fresh: Option<u64>,
    c: Seq<Seq<u64>>,
) -> bool {
    exists|m: Seq<Seq<u64>>|
        mixed_by(mix, a, b, m) && match fresh {
            None => c == m,
            Some(g) => exists|i: int, j: int| replaced_at(m, c, i, j, g),
        }
}

/// `c` is `a` crossed as above where `change` holds, and `a` unchanged where
/// it does not.
pub open spec fn family_outcome(
    change: bool,
    mix: MixType,
    a: Seq<Seq<u64>>,
    b: Seq<Seq<u64>>,
    fresh: Option<u64>,
    c: Seq<Seq<u64>>,
) -> bool {
    if change {
        crossed_family(mix, a, b, fresh, c)
    } else {
        c == a
    }
}

/// Whether a crossover towards `t` may change the weights.
pub open spec fn targets_weights(t: MixTarget) -> bool {
    t == MixTarget::Weights || t == MixTarget::Both
}

/// Whether a crossover towards `t` may change the biases.
pub open spec fn targets_biases(t: MixTarget) -> bool {
    t == MixTarget::Biases || t == MixTarget::Both
}

/// The fresh weight gene of a mutation, if any.
pub open spec fn fresh_weight(mutation: Option<Mutation>) -> Option<u64> {
    match mutation {
        Some(m) => Some(m.weight_gene),
        None => None,
    }
}

/// The fresh bias gene of a mutation, if any.
pub open spec fn fresh_bias(mutation: Option<Mutation>) -> Option<u64> {
    match mutation {
        Some(m) => Some(m.bias_gene),
        None => None,
    }
}

/// `c` agrees with `a` at every place but row `i`, place `j`.
pub open spec fn agrees_except(a: Seq<Seq<u64>>, c: Seq<Seq<u64>>, i: int, j: int) -> bool {
    forall|p: int, q: int|
        0 <= p < a.len() && 0 <= q < a[p].len() && (p != i || q != j) ==> #[trigger] c[p][q] == a[p][q]
}

/// `c` differs from `a` in at most one gene.
pub open spec fn differs_at_most_once(a: Seq<Seq<u64>>, c: Seq<Seq<u64>>) -> bool {
    &&& same_shape(a, c)
    &&& exists|i: int, j: int| #[trigger] agrees_except(a, c, i, j)
}

/// A uniform draw of a place in a family with no empty row.
fn draw_place(a: &Vec<Vec<u64>>, rng: &mut StdRng) -> (r: (usize, usize))
    requires
        rows_nonempty(genes(a@)),
    ensures
        r.0 < a@.len(),
        r.1 < a@[r.0 as int]@.len(),
{
    let i = draw_below(rng, a.len() as u128) as usize;
    assert(genes(a@)[i as int].len() > 0);
    let j = draw_below(rng, a[i].len() as u128) as usize;
    (i, j)
}

/// Sets the gene at row `i`, place `j` of `m` to `g`.
fn set_gene(m: &mut Vec<Vec<u64>>, i: usize, j: usize, g: u64)
    requires
        i < old(m)@.len(),
        j < old(m)@[i as int]@.len(),
    ensures
        replaced_at(genes(old(m)@), genes(final(m)@), i as int, j as int, g),
{
    let mut row = copy_row(&m[i]);
    row.set(j, g);
    m.set(i, row);
    assert(genes(final(m)@) =~= genes(old(m)@).update(i as int, genes(old(m)@)[i as int].update(j as int, g)));
}

/// `a` with genes of `b` copied in as `mix` says; the places are drawn from
/// `rng`.
fn mix_family(a: &Vec<Vec<u64>>, b: &Vec<Vec<u64>>, mix: MixType, rng: &mut StdRng) -> (m: Vec<Vec<u64>>)
    requires
        same_shape(genes(a@), genes(b@)),
        rows_nonempty(genes(a@)),
    ensures
        mixed_by(mix, genes(a@), genes(b@), genes(m@)),
{
    match mix {
        MixType::All => copy_genes(b),
        MixType::Single => {
            let mut m = copy_genes(a);
            let (i, j) = draw_place(a, rng);
            assert(genes(b@)[i as int].len() == genes(a@)[i as int].len());
            set_gene(&mut m, i, j, b[i][j]);
            m
        },
        MixType::Percentage => {
            let mut m: Vec<Vec<u64>> = Vec::new();
            let mut i: usize = 0;
            while i < a.len()
                invariant
                    0 <= i <= a.len(),
                    same_shape(genes(a@), genes(b@)),
                    m@.len() == i,
                    forall|p: int| 0 <= p < i ==> (#[trigger] m@[p])@.len() == a@[p]@.len(),
                    forall|p: int, q: int|
                        0 <= p < i && 0 <= q < a@[p]@.len() ==> #[trigger] m@[p]@[q] == a@[p]@[q]
                            || m@[p]@[q] == b@[p]@[q],
                decreases a.len() - i,
            {
                let ra = &a[i];
                let rb = &b[i];
                assert(genes(a@)[i as int] == ra@ && genes(b@)[i as int] == rb@);
                let mut row: Vec<u64> = Vec::new();
                let mut j: usize = 0;
                while j < ra.len()
                    invariant
                        0 <= j <= ra.len(),
                        ra@.len() == rb@.len(),
                        row@.len() == j,
                        forall|q: int| 0 <= q < j ==> #[trigger] row@[q] == ra@[q] || row@[q] == rb@[q],
                    decreases ra.len() - j,
                {
                    if draw_below(rng, 100) < HALF_COPY_PERCENTAGE {
                        row.push(rb[j]);
                    } else {
                        row.push(ra[j]);
                    }
                    j = j + 1;
                }
                m.push(row);
                i = i + 1;
            }
            proof {
                assert forall|p: int, q: int|
                    0 <= p < genes(a@).len() && 0 <= q < genes(a@)[p].len() implies #[trigger] genes(m@)[p][q]
                        == genes(a@)[p][q] || genes(m@)[p][q] == genes(b@)[p][q] by {
                    assert(genes(m@)[p] == m@[p]@);
                }
            }
            m
        },
    }
}

/// `m` with the gene at one place, drawn from `rng`, set to `g`.
fn mutate_family(m: &mut Vec<Vec<u64>>, g: u64, rng: &mut StdRng)
    requires
        rows_nonempty(genes(old(m)@)),
    ensures
        exists|i: int, j: int| replaced_at(genes(old(m)@), genes(final(m)@), i, j, g),
{
    let (i, j) = draw_place(m, rng);
    set_gene(m, i, j, g);
}

/// One tensor family of a child: `a` crossed with `b` under `mix`, then
/// mutated at one place to `fresh` where it holds a gene.
fn cross_family(a: &Vec<Vec<u64>>, b: &Vec<Vec<u64>>, mix: MixType, fresh: Option<u64>, rng: &mut StdRng) -> (c: Vec<Vec<u64>>)
    requires
        same_shape(genes(a@), genes(b@)),
        rows_nonempty(genes(a@)),
    ensures
        crossed_family(mix, genes(a@), genes(b@), fresh, genes(c@)),
        same_shape(genes(a@), genes(c@)),
        mix == MixType::All && fresh is None ==> genes(c@) == genes(b@),
        mix == MixType::Single && fresh is None ==> differs_at_most_once(genes(a@), genes(c@)),
{
    let mut m = mix_family(a, b, mix, rng);
    let ghost mixed = genes(m@);
    assert(rows_nonempty(mixed)) by {
        assert forall|i: int| 0 <= i < mixed.len() implies #[trigger] mixed[i].len() > 0 by {
            assert(genes(a@)[i].len() > 0);
        }
    }
    match fresh {
        Some(g) => {
            mutate_family(&mut m, g, rng);
            let ghost (i, j) = choose|i: int, j: int| replaced_at(mixed, genes(m@), i, j, g);
            assert(replaced_at(mixed, genes(m@), i, j, g));
        },
        None => {},
    }
    assert(mixed_by(mix, genes(a@), genes(b@), mixed));
    proof {
        if mix == MixType::Single && fresh is None {
            let (i, j) = choose|i: int, j: int| replaced_at(genes(a@), mixed, i, j, genes(b@)[i][j]);
            assert(agrees_except(genes(a@), genes(m@), i, j));
        }
    }
    m
}

/// Weight and bias genes of a well-formed candidate have no empty row.
proof fn lemma_rows_nonempty(m: &Member)
    requires
        m.wf(),
    ensures
        rows_nonempty(m.weight_genes()),
        rows_nonempty(m.bias_genes()),
{
    let layers = m.nn_architecture.layers@;
    assert forall|i: int| 0 <= i < m.weight_genes().len() implies #[trigger] m.weight_genes()[i].len() > 0 by {
        let o = layers[i].output_dim as int;
        let n = layers[i].input_dim as int;
        assert(layers[i].input_dim > 0 && layers[i].output_dim > 0);
        assert(o * n > 0) by (nonlinear_arith)
            requires
                o > 0,
                n > 0,
        ;
    }
    assert forall|i: int| 0 <= i < m.bias_genes().len() implies #[trigger] m.bias_genes()[i].len() > 0 by {
        assert(layers[i].input_dim > 0 && layers[i].output_dim > 0);
    }
}

/// Two well-formed candidates of one architecture have tensors of one shape.
proof fn lemma_same_shape(a: &Member, b: &Member)
    requires
        a.wf(),
        b.wf(),
        a.nn_architecture.layers@ == b.nn_architecture.layers@,
    ensures
        same_shape(a.weight_genes(), b.weight_genes()),
        same_shape(a.bias_genes(), b.bias_genes()),
{
    let layers = a.nn_architecture.layers@;
    assert forall|i: int| 0 <= i < a.weight_genes().len() implies #[trigger] a.weight_genes()[i].len()
        == b.weight_genes()[i].len() by {
        assert(a.weight_genes()[i].len() == layers[i].output_dim * layers[i].input_dim);
        assert(b.weight_genes()[i].len() == layers[i].output_dim * layers[i].input_dim);
    }
    assert forall|i: int| 0 <= i < a.bias_genes().len() implies #[trigger] a.bias_genes()[i].len()
        == b.bias_genes()[i].len() by {
        assert(a.bias_genes()[i].len() == layers[i].output_dim);
        assert(b.bias_genes()[i].len() == layers[i].output_dim);
    }
}

/// The total fitness of the first `n` members of `ms`.
pub open spec fn fitness_prefix(ms: Seq<Member>, n: int) -> int
    decreases n,
{
    if n <= 0 {
        0
    } else {
        fitness_prefix(ms, n - 1) + ms[n - 1].fitness
    }
}

/// The total fitness of `ms`.
pub open spec fn fitness_total(ms: Seq<Member>) -> int {
    fitness_prefix(ms, ms.len() as int)
}

/// The roulette wheel lays the members of `ms` end to end, each as wide as its
/// fitness; the point `w` of the wheel falls on member `r`.
pub open spec fn wheel_lands_on(ms: Seq<Member>, w: int, r: int) -> bool {
    &&& 0 <= r < ms.len()
    &&& fitness_prefix(ms, r) <= w < fitness_prefix(ms, r + 1)
}

/// Totals of fitness stay within what a `u128` holds.
proof fn lemma_fitness_prefix_bounds(ms: Seq<Member>, n: int)
    requires
        0 <= n <= ms.len(),
    ensures
        0 <= fitness_prefix(ms, n) <= n * usize::MAX,
    decreases n,
{
    if n > 0 {
        lemma_fitness_prefix_bounds(ms, n - 1);
        assert((n - 1) * usize::MAX + usize::MAX == n * usize::MAX) by (nonlinear_arith);
    }
}

/// Member `i` of `ms` ranks before member `j`: it is fitter, or as fit and
/// earlier.
pub open spec fn ranks_before(ms: Seq<Member>, i: int, j: int) -> bool {
    ms[i].fitness > ms[j].fitness || (ms[i].fitness == ms[j].fitness && i < j)
}

/// `p` lists the indices of `ms` from the fittest down, equals in the order
/// they stand in `ms`: the order of a stable sort by descending fitness.
pub open spec fn is_ranking(ms: Seq<Member>, p: Seq<usize>) -> bool {
    &&& p.len() == ms.len()
    &&& forall|k: int| 0 <= k < p.len() ==> #[trigger] p[k] < ms.len()
    &&& forall|i: int| 0 <= i < ms.len() ==> #[trigger] p.contains(i as usize)
    &&& forall|k: int, l: int| 0 <= k < l < p.len() ==> ranks_before(ms, #[trigger] p[k] as int, #[trigger] p[l] as int)
}

/// Two rankings of `ms` agree on their first `k` places.
proof fn lemma_rankings_agree_upto(ms: Seq<Member>, p: Seq<usize>, q: Seq<usize>, k: int)
    requires
        is_ranking(ms, p),
        is_ranking(ms, q),
        0 <= k <= ms.len(),
    ensures
        forall|j: int| 0 <= j < k ==> #[trigger] p[j] == q[j],
    decreases k,
{
    if k > 0 {
        lemma_rankings_agree_upto(ms, p, q, k - 1);
        let x = p[k - 1];
        let y = q[k - 1];
        if x != y {
            assert(p[k - 1] < ms.len());
            assert(q.contains((x as int) as usize));
            let m = choose|m: int| 0 <= m < q.len() && q[m] == x;
            assert(q[k - 1] < ms.len());
            assert(p.contains((y as int) as usize));
            let n = choose|n: int| 0 <= n < p.len() && p[n] == y;
            if m < k - 1 {
                assert(p[m] == x);
                assert(ranks_before(ms, p[m] as int, p[k - 1] as int));
            }
            if n < k - 1 {
                assert(q[n] == y);
                assert(ranks_before(ms, q[n] as int, q[k - 1] as int));
            }
            assert(ranks_before(ms, q[k - 1] as int, q[m] as int));
            assert(ranks_before(ms, p[k - 1] as int, p[n] as int));
        }
    }
}

/// A population has exactly one ranking: the order of a stable sort by
/// descending fitness is determined by the fitness values alone.
pub proof fn ranking_is_unique(ms: Seq<Member>, p: Seq<usize>, q: Seq<usize>)
    requires
        is_ranking(ms, p),
        is_ranking(ms, q),
    ensures
        p == q,
{
    lemma_rankings_agree_upto(ms, p, q, ms.len() as int);
    assert(p =~= q);
}

/// The sum of the first `n` values of `v`.
pub open spec fn sum_prefix(v: Seq<int>, n: int) -> int
    decreases n,
{
    if n <= 0 {
        0
    } else {
        sum_prefix(v, n - 1) + v[n - 1]
    }
}

/// The wall deaths counted by each member.
pub open spec fn wall_deaths(ms: Seq<Member>) -> Seq<int> {
    ms.map_values(|m: Member| m.killed_by_wall as int)
}

/// The deaths by its own body counted by each member.
pub open spec fn self_deaths(ms: Seq<Member>) -> Seq<int> {
    ms.map_values(|m: Member| m.killed_by_myself as int)
}

/// The deaths by hunger counted by each member.
pub open spec fn hunger_deaths(ms: Seq<Member>) -> Seq<int> {
    ms.map_values(|m: Member| m.killed_by_hunger as int)
}

/// The apples counted by each member.
pub open spec fn apples_of(ms: Seq<Member>) -> Seq<int> {
    ms.map_values(|m: Member| m.apples_eaten as int)
}

/// The largest fitness among the first `n` members of `ms`; zero for none.
pub open spec fn max_fitness_prefix(ms: Seq<Member>, n: int) -> int
    decreases n,
{
    if n <= 0 {
        0
    } else if ms[n - 1].fitness > max_fitness_prefix(ms, n - 1) {
        ms[n - 1].fitness as int
    } else {
        max_fitness_prefix(ms, n - 1)
    }
}

/// Sums of machine-sized counters stay within what a `u128` holds.
proof fn lemma_sum_prefix_bounds(v: Seq<int>, n: int)
    requires
        0 <= n <= v.len(),
        forall|k: int| 0 <= k < v.len() ==> 0 <= #[trigger] v[k] <= usize::MAX,
    ensures
        0 <= sum_prefix(v, n) <= n * usize::MAX,
    decreases n,
{
    if n > 0 {
        lemma_sum_prefix_bounds(v, n - 1);
        assert((n - 1) * usize::MAX + usize::MAX == n * usize::MAX) by (nonlinear_arith);
    }
}

/// Well-formed candidates that share one architecture.
pub open spec fn pool_wf(ms: Seq<Member>) -> bool {
    &&& forall|k: int| 0 <= k < ms.len() ==> (#[trigger] ms[k]).wf()
    &&& forall|k: int|
        0 <= k < ms.len() ==> (#[trigger] ms[k]).nn_architecture.layers@ == ms[0].nn_architecture.layers@
}

/// `c` is a child of `a` and `b`: each of its families is either `a`'s, or
/// `a`'s crossed with `b`'s under one mixing policy, perhaps mutated at one
/// place.
pub open spec fn bred_from(c: Member, a: Member, b: Member) -> bool {
    exists|mix: MixType, cw: bool, cb: bool, fw: Option<u64>, fb: Option<u64>|
        #[trigger] family_outcome(cw, mix, a.weight_genes(), b.weight_genes(), fw, c.weight_genes())
            && #[trigger] family_outcome(cb, mix, a.bias_genes(), b.bias_genes(), fb, c.bias_genes())
}

/// `c` is a new child of generation `g`, bred from two members of `pool`
/// that had fitness to be drawn.
pub open spec fn child_of_pool(c: Member, pool: Seq<Member>, g: usize) -> bool {
    &&& c.wf()
    &&& c.nn_architecture.layers@ == pool[0].nn_architecture.layers@
    &&& c.generation == g
    &&& c.fitness == 0
    &&& exists|i: int, j: int|
        0 <= i < pool.len() && 0 <= j < pool.len() && pool[i].fitness > 0 && pool[j].fitness > 0
            && #[trigger] bred_from(c, pool[i], pool[j])
}

/// The candidates of one generation, with the totals of their last
/// evaluation.
pub struct Population {
    pub members: Vec<Member>,
    /// Episodes played by each candidate in an evaluation.
    pub iterations: usize,
    pub killed_by_wall: u128,
    pub killed_by_myself: u128,
    pub killed_by_hunger: u128,
    pub apples_eaten: u128,
    /// The mean fitness of the members, rounded down.
    pub average_fitness: usize,
}

/// Episodes played by each candidate when no other number is given.
pub const DEFAULT_ITERATIONS: usize = 10;

impl Population {
    /// A population of `members` whose evaluations play `iterations` episodes
    /// each, or `DEFAULT_ITERATIONS` when none is given; no totals yet.
    pub fn new(members: Vec<Member>, iterations: Option<usize>) -> (r: Self)
        ensures
            r.members@ == members@,
            r.iterations == match iterations {
                Some(n) => n,
                None => DEFAULT_ITERATIONS,
            },
            r.killed_by_wall == 0 && r.killed_by_myself == 0 && r.killed_by_hunger == 0,
            r.apples_eaten == 0,
            r.average_fitness == 0,
    {
        let iterations = match iterations {
            Some(n) => n,
            None => DEFAULT_ITERATIONS,
        };
        Population {
            members,
            iterations,
            killed_by_wall: 0,
            killed_by_myself: 0,
            killed_by_hunger: 0,
            apples_eaten: 0,
            average_fitness: 0,
        }
    }

    /// Appends `members` after the present ones.
    pub fn add_members(&mut self, members: Vec<Member>)
        ensures
            final(self).members@ == old(self).members@ + members@,
            final(self).iterations == old(self).iterations,
    {
        let mut members = members;
        self.members.append(&mut members);
    }

    /// Recomputes the totals from the members' own records: the deaths of
    /// each cause, the apples, and the mean fitness rounded down. Returns the
    /// largest fitness, zero for no members.
    pub fn record_stats(&mut self) -> (r: usize)
        ensures
            final(self).members == old(self).members,
            final(self).iterations == old(self).iterations,
            final(self).killed_by_wall == sum_prefix(wall_deaths(old(self).members@), old(self).members@.len() as int),
            final(self).killed_by_myself == sum_prefix(self_deaths(old(self).members@), old(self).members@.len() as int),
            final(self).killed_by_hunger == sum_prefix(hunger_deaths(old(self).members@), old(self).members@.len() as int),
            final(self).apples_eaten == sum_prefix(apples_of(old(self).members@), old(self).members@.len() as int),
            final(self).average_fitness == if old(self).members@.len() == 0 {
                0
            } else {
                fitness_total(old(self).members@) / old(self).members@.len() as int
            },
            r == max_fitness_prefix(old(self).members@, old(self).members@.len() as int),
    {
        let ghost ms = self.members@;
        let n = self.members.len();
        let mut wall: u128 = 0;
        let mut myself: u128 = 0;
        let mut hunger: u128 = 0;
        let mut apples: u128 = 0;
        let mut total: u128 = 0;
        let mut max: usize = 0;
        let mut i: usize = 0;
        while i < n
            invariant
                ms == self.members@,
                n == ms.len(),
                0 <= i <= n,
                wall == sum_prefix(wall_deaths(ms), i as int),
                myself == sum_prefix(self_deaths(ms), i as int),
                hunger == sum_prefix(hunger_deaths(ms), i as int),
                apples == sum_prefix(apples_of(ms), i as int),
                total == fitness_prefix(ms, i as int),
                max == max_fitness_prefix(ms, i as int),
            decreases n - i,
        {
            let m = &self.members[i];
            proof {
                assert((i + 1) * usize::MAX <= u128::MAX) by (nonlinear_arith)
                    requires
                        i + 1 <= usize::MAX,
                        usize::MAX <= u64::MAX,
                ;
                lemma_sum_prefix_bounds(wall_deaths(ms), i + 1);
                lemma_sum_prefix_bounds(self_deaths(ms), i + 1);
                lemma_sum_prefix_bounds(hunger_deaths(ms), i + 1);
                lemma_sum_prefix_bounds(apples_of(ms), i + 1);
                lemma_fitness_prefix_bounds(ms, i + 1);
            }
            wall = wall + m.killed_by_wall as u128;
            myself = myself + m.killed_by_myself as u128;
            hunger = hunger + m.killed_by_hunger as u128;
            apples = apples + m.apples_eaten as u128;
            total = total + m.fitness as u128;
            if m.fitness > max {
                max = m.fitness;
            }
            i = i + 1;
        }
        self.killed_by_wall = wall;
        self.killed_by_myself = myself;
        self.killed_by_hunger = hunger;
        self.apples_eaten = apples;
        if n == 0 {
            self.average_fitness = 0;
        } else {
            proof {
                lemma_fitness_prefix_bounds(ms, n as int);
            }
            assert(total / (n as u128) <= usize::MAX) by (nonlinear_arith)
                requires
                    total <= n * usize::MAX,
                    n > 0,
            ;
            self.average_fitness = (total / (n as u128)) as usize;
        }
        max
    }

    /// A child of `mem1` and `mem2`: a copy of `mem1` into which genes of
    /// `mem2` are copied as `mix_type` says, in the families that
    /// `mix_target` names (for `Random`, each family with even odds); where
    /// `mutation` holds genes, one drawn place of each such family then takes
    /// its fresh gene. The places are drawn from `rng`.
    pub fn cross_members(
        mem1: &Member,
        mem2: &Member,
        mix_type: MixType,
        mix_target: MixTarget,
        mutation: Option<Mutation>,
        generation: usize,
        rng: &mut StdRng,
    ) -> (r: Member)
        requires
            mem1.wf(),
            mem2.wf(),
            mem1.nn_architecture.layers@ == mem2.nn_architecture.layers@,
        ensures
            r.wf(),
            r.nn_architecture.layers@ == mem1.nn_architecture.layers@,
            r.generation == generation,
            r.fitness == 0,
            r.killed_by_wall == 0 && r.killed_by_myself == 0 && r.killed_by_hunger == 0,
            r.apples_eaten == 0,
            mix_target != MixTarget::Random ==> family_outcome(
                targets_weights(mix_target),
                mix_type,
                mem1.weight_genes(),
                mem2.weight_genes(),
                fresh_weight(mutation),
                r.weight_genes(),
            ),
            mix_target != MixTarget::Random ==> family_outcome(
                targets_biases(mix_target),
                mix_type,
                mem1.bias_genes(),
                mem2.bias_genes(),
                fresh_bias(mutation),
                r.bias_genes(),
            ),
            mix_target == MixTarget::Random ==> family_outcome(
                true,
                mix_type,
                mem1.weight_genes(),
                mem2.weight_genes(),
                fresh_weight(mutation),
                r.weight_genes(),
            ) || r.weight_genes() == mem1.weight_genes(),
            mix_target == MixTarget::Random ==> family_outcome(
                true,
                mix_type,
                mem1.bias_genes(),
                mem2.bias_genes(),
                fresh_bias(mutation),
                r.bias_genes(),
            ) || r.bias_genes() == mem1.bias_genes(),
            mem1.weight_genes() == mem2.weight_genes() && mem1.bias_genes() == mem2.bias_genes()
                && mix_type == MixType::All && mutation is None ==> r.weight_genes() == mem1.weight_genes()
                && r.bias_genes() == mem1.bias_genes(),
            mix_type == MixType::Single && mix_target == MixTarget::Weights && mutation is None
                ==> differs_at_most_once(mem1.weight_genes(), r.weight_genes()) && r.bias_genes()
                == mem1.bias_genes(),
    {
        proof {
            lemma_rows_nonempty(mem1);
            lemma_same_shape(mem1, mem2);
        }
        let (change_weights, change_biases) = match mix_target {
            MixTarget::Weights => (true, false),
            MixTarget::Biases => (false, true),
            MixTarget::Both => (true, true),
            MixTarget::Random => (draw_below(rng, 2) == 0, draw_below(rng, 2) == 0),
        };
        let (fresh_w, fresh_b) = match mutation {
            Some(m) => (Some(m.weight_gene), Some(m.bias_gene)),
            None => (None, None),
        };
        let weights = if change_weights {
            cross_family(&mem1.weights, &mem2.weights, mix_type, fresh_w, rng)
        } else {
            copy_genes(&mem1.weights)
        };
        let biases = if change_biases {
            cross_family(&mem1.biases, &mem2.biases, mix_type, fresh_b, rng)
        } else {
            copy_genes(&mem1.biases)
        };
        let r = Member {
            fitness: 0,
            nn_architecture: mem1.nn_architecture.duplicate(),
            weights,
            biases,
            generation,
            killed_by_wall: 0,
            killed_by_myself: 0,
            killed_by_hunger: 0,
            apples_eaten: 0,
        };
        proof {
            let layers = mem1.nn_architecture.layers@;
            assert(same_shape(mem1.weight_genes(), r.weight_genes()));
            assert(same_shape(mem1.bias_genes(), r.bias_genes()));
            assert forall|i: int| 0 <= i < r.weight_genes().len() implies #[trigger] r.weight_genes()[i].len()
                == layers[i].output_dim * layers[i].input_dim by {
                assert(mem1.weight_genes()[i].len() == layers[i].output_dim * layers[i].input_dim);
            }
            assert forall|i: int| 0 <= i < r.bias_genes().len() implies #[trigger] r.bias_genes()[i].len()
                == layers[i].output_dim by {
                assert(mem1.bias_genes()[i].len() == layers[i].output_dim);
            }
        }
        r
    }

    /// The total fitness of `members`.
    pub fn total_fitness(members: &[Member]) -> (r: u128)
        ensures
            r == fitness_total(members@),
    {
        let mut total: u128 = 0;
        let mut i: usize = 0;
        while i < members.len()
            invariant
                0 <= i <= members.len(),
                total == fitness_prefix(members@, i as int),
            decreases members.len() - i,
        {
            proof {
                lemma_fitness_prefix_bounds(members@, i + 1);
                assert((i + 1) * usize::MAX <= u128::MAX) by (nonlinear_arith)
                    requires
                        i + 1 <= usize::MAX,
                        usize::MAX <= u64::MAX,
                ;
            }
            total = total + members[i].fitness as u128;
            i = i + 1;
        }
        total
    }

    /// The member on which the point `wheel` of the roulette wheel falls.
    pub fn select_by_wheel(members: &[Member], wheel: u128) -> (r: usize)
        requires
            wheel < fitness_total(members@),
        ensures
            wheel_lands_on(members@, wheel as int, r as int),
            members@[r as int].fitness > 0,
    {
        let mut rest: u128 = wheel;
        let mut i: usize = 0;
        while i < members.len()
            invariant
                0 <= i <= members.len(),
                wheel < fitness_total(members@),
                fitness_prefix(members@, i as int) <= wheel,
                rest == wheel - fitness_prefix(members@, i as int),
            decreases members.len() - i,
        {
            if rest < members[i].fitness as u128 {
                return i;
            }
            rest = rest - members[i].fitness as u128;
            i = i + 1;
        }
        0
    }

    /// A member of `members` drawn with odds in proportion to its fitness.
    /// There is none to draw from an empty pool, or from one whose fitness is
    /// zero throughout.
    pub fn select_proportional_by_fitness(members: &[Member], rng: &mut StdRng) -> (r: Result<Member, EvolutionError>)
        ensures
            r == Err::<Member, EvolutionError>(EvolutionError::EmptyPool) <==> members@.len() == 0,
            r == Err::<Member, EvolutionError>(EvolutionError::ZeroFitness) <==> members@.len() > 0
                && fitness_total(members@) == 0,
            r matches Ok(m) ==> exists|w: int, k: int|
                0 <= w < fitness_total(members@) && #[trigger] wheel_lands_on(members@, w, k) && m.same_as(
                    &members@[k],
                ),
    {
        if members.len() == 0 {
            return Err(EvolutionError::EmptyPool);
        }
        let total = Self::total_fitness(members);
        if total == 0 {
            return Err(EvolutionError::ZeroFitness);
        }
        let wheel = draw_below(rng, total);
        let k = Self::select_by_wheel(members, wheel);
        let m = members[k].duplicate();
        assert(wheel_lands_on(members@, wheel as int, k as int));
        Ok(m)
    }

    /// The indices of `members` from the fittest down; equals keep their
    /// order.
    pub fn rank_order(members: &Vec<Member>) -> (p: Vec<usize>)
        ensures
            is_ranking(members@, p@),
    {
        let ghost ms = members@;
        let mut p: Vec<usize> = Vec::new();
        let mut i: usize = 0;
        while i < members.len()
            invariant
                ms == members@,
                0 <= i <= members.len(),
                p@.len() == i,
                forall|k: int| 0 <= k < p@.len() ==> #[trigger] p@[k] < i,
                forall|j: int| 0 <= j < i ==> #[trigger] p@.contains(j as usize),
                forall|k: int, l: int| 0 <= k < l < p@.len() ==> ranks_before(ms, #[trigger] p@[k] as int, #[trigger] p@[l] as int),
            decreases members.len() - i,
        {
            let f = members[i].fitness;
            let mut pos: usize = 0;
            while pos < p.len() && members[p[pos]].fitness >= f
                invariant
                    ms == members@,
                    0 <= pos <= p@.len(),
                    i < members@.len(),
                    f == ms[i as int].fitness,
                    forall|k: int| 0 <= k < p@.len() ==> #[trigger] p@[k] < i,
                    forall|k: int| 0 <= k < pos ==> ms[#[trigger] p@[k] as int].fitness >= f,
                decreases p@.len() - pos,
            {
                pos = pos + 1;
            }
            let ghost old_p = p@;
            p.insert(pos, i);
            proof {
                assert(p@ == old_p.insert(pos as int, i));
                assert forall|j: int| 0 <= j < i + 1 implies #[trigger] p@.contains(j as usize) by {
                    if j == i {
                        assert(p@[pos as int] == i);
                    } else {
                        assert(old_p.contains(j as usize));
                        let t = choose|t: int| 0 <= t < old_p.len() && old_p[t] == j as usize;
                        if t < pos {
                            assert(p@[t] == j as usize);
                        } else {
                            assert(p@[t + 1] == j as usize);
                        }
                    }
                }
                assert forall|k: int| 0 <= k < p@.len() implies #[trigger] p@[k] < i + 1 by {
                    if k < pos {
                        assert(p@[k] == old_p[k]);
                    } else if k > pos {
                        assert(p@[k] == old_p[k - 1]);
                    }
                }
                assert forall|k: int, l: int| 0 <= k < l < p@.len() implies ranks_before(
                    ms,
                    #[trigger] p@[k] as int,
                    #[trigger] p@[l] as int,
                ) by {
                    if l < pos {
                        assert(ranks_before(ms, old_p[k] as int, old_p[l] as int));
                    } else if l == pos {
                        assert(ms[old_p[k] as int].fitness >= f);
                        assert(old_p[k] < i);
                    } else if k < pos {
                        assert(ranks_before(ms, old_p[k] as int, old_p[l - 1] as int));
                    } else if k == pos {
                        assert(pos < old_p.len());
                        assert(ms[old_p[pos as int] as int].fitness < f);
                        if l - 1 > pos {
                            assert(ranks_before(ms, old_p[pos as int] as int, old_p[l - 1] as int));
                        }
                    } else {
                        assert(ranks_before(ms, old_p[k - 1] as int, old_p[l - 1] as int));
                    }
                }
            }
            i = i + 1;
        }
        p
    }

    /// Copies of the `quantity` fittest members, fittest first; equals keep
    /// their order, and fewer come back only if there are fewer members.
    pub fn best_members(&self, quantity: usize) -> (r: Vec<Member>)
        ensures
            r@.len() == if quantity < self.members@.len() {
                quantity as int
            } else {
                self.members@.len() as int
            },
            exists|p: Seq<usize>|
                #[trigger] is_ranking(self.members@, p) && forall|k: int|
                    0 <= k < r@.len() ==> (#[trigger] r@[k]).same_as(&self.members@[p[k] as int]),
    {
        let order = Self::rank_order(&self.members);
        let n = if quantity < self.members.len() {
            quantity
        } else {
            self.members.len()
        };
        let mut r: Vec<Member> = Vec::new();
        let mut k: usize = 0;
        while k < n
            invariant
                0 <= k <= n,
                n <= order@.len(),
                is_ranking(self.members@, order@),
                r@.len() == k,
                forall|j: int| 0 <= j < k ==> (#[trigger] r@[j]).same_as(&self.members@[order@[j] as int]),
            decreases n - k,
        {
            let m = self.members[order[k]].duplicate();
            r.push(m);
            k = k + 1;
        }
        r
    }

    /// Appends `quantity` children of `best_members`. For each, the mixing
    /// policy, the families and whether it mutates are drawn from `rng` (with
    /// the odds of the constants above), and both parents are drawn in
    /// proportion to their fitness; a child that mutates takes its fresh
    /// genes from `fresh_genes` at its own position.
    pub fn add_crossovers_members(
        &mut self,
        best_members: &Vec<Member>,
        quantity: usize,
        generation: usize,
        fresh_genes: &Vec<Mutation>,
        rng: &mut StdRng,
    ) -> (r: Result<(), EvolutionError>)
        requires
            pool_wf(best_members@),
            fresh_genes@.len() >= quantity,
        ensures
            r == Err::<(), EvolutionError>(EvolutionError::EmptyPool) <==> quantity > 0 && best_members@.len() == 0,
            r == Err::<(), EvolutionError>(EvolutionError::ZeroFitness) <==> quantity > 0 && best_members@.len() > 0
                && fitness_total(best_members@) == 0,
            r is Err ==> final(self).members@ == old(self).members@,
            r is Ok ==> final(self).members@.len() == old(self).members@.len() + quantity,
            r is Ok ==> final(self).members@.subrange(0, old(self).members@.len() as int) == old(self).members@,
            r is Ok ==> forall|k: int|
                old(self).members@.len() <= k < final(self).members@.len() ==> child_of_pool(
                    #[trigger] final(self).members@[k],
                    best_members@,
                    generation,
                ),
            final(self).iterations == old(self).iterations,
    {
        if quantity == 0 {
            return Ok(());
        }
        if best_members.len() == 0 {
            return Err(EvolutionError::EmptyPool);
        }
        if Self::total_fitness(best_members.as_slice()) == 0 {
            return Err(EvolutionError::ZeroFitness);
        }
        let ghost pool = best_members@;
        let ghost start = self.members@;
        let mut children: Vec<Member> = Vec::new();
        let mut i: usize = 0;
        while i < quantity
            invariant
                pool == best_members@,
                pool_wf(pool),
                pool.len() > 0,
                fitness_total(pool) > 0,
                fresh_genes@.len() >= quantity,
                0 <= i <= quantity,
                children@.len() == i,
                forall|k: int| 0 <= k < i ==> child_of_pool(#[trigger] children@[k], pool, generation),
            decreases quantity - i,
        {
            let roll = draw_below(rng, 100);
            let mix_type = if roll < MIX_TYPE_ALL_PERCENTAGE {
                MixType::All
            } else if roll < MIX_TYPE_HALF_PERCENTAGE {
                MixType::Percentage
            } else {
                MixType::Single
            };
            let rollw = draw_below(rng, 100);
            let rollb = draw_below(rng, 100);
            let mix_target = if rollw < MIX_WEIGHTS_PERCENTAGE && rollb < MIX_BIASES_PERCENTAGE {
                MixTarget::Both
            } else if rollw < MIX_WEIGHTS_PERCENTAGE {
                MixTarget::Weights
            } else if rollb < MIX_BIASES_PERCENTAGE {
                MixTarget::Biases
            } else {
                MixTarget::Random
            };
            let mutation = if draw_below(rng, 100) < MIX_MUTATE_PERCENTAGE {
                Some(fresh_genes[i])
            } else {
                None
            };
            let mem1 = match Self::select_proportional_by_fitness(best_members.as_slice(), rng) {
                Ok(m) => m,
                Err(e) => {
                    return Err(e);
                },
            };
            let mem2 = match Self::select_proportional_by_fitness(best_members.as_slice(), rng) {
                Ok(m) => m,
                Err(e) => {
                    return Err(e);
                },
            };
            let ghost (w1, k1) = choose|w: int, k: int|
                0 <= w < fitness_total(pool) && #[trigger] wheel_lands_on(pool, w, k) && mem1.same_as(&pool[k]);
            let ghost (w2, k2) = choose|w: int, k: int|
                0 <= w < fitness_total(pool) && #[trigger] wheel_lands_on(pool, w, k) && mem2.same_as(&pool[k]);
            proof {
                assert(fitness_prefix(pool, k1 + 1) == fitness_prefix(pool, k1) + pool[k1].fitness);
                assert(fitness_prefix(pool, k2 + 1) == fitness_prefix(pool, k2) + pool[k2].fitness);
                assert(pool[k1].wf() && pool[k2].wf());
                assert(pool[k1].nn_architecture.layers@ == pool[0].nn_architecture.layers@);
                assert(pool[k2].nn_architecture.layers@ == pool[0].nn_architecture.layers@);
            }
            let child = Self::cross_members(&mem1, &mem2, mix_type, mix_target, mutation, generation, rng);
            proof {
                let fw = fresh_weight(mutation);
                let fb = fresh_bias(mutation);
                if mix_target == MixTarget::Random {
                    let cw = family_outcome(true, mix_type, mem1.weight_genes(), mem2.weight_genes(), fw, child.weight_genes());
                    let cb = family_outcome(true, mix_type, mem1.bias_genes(), mem2.bias_genes(), fb, child.bias_genes());
                    assert(family_outcome(cw, mix_type, pool[k1].weight_genes(), pool[k2].weight_genes(), fw, child.weight_genes()));
                    assert(family_outcome(cb, mix_type, pool[k1].bias_genes(), pool[k2].bias_genes(), fb, child.bias_genes()));
                } else {
                    assert(family_outcome(targets_weights(mix_target), mix_type, pool[k1].weight_genes(), pool[k2].weight_genes(), fw, child.weight_genes()));
                    assert(family_outcome(targets_biases(mix_target), mix_type, pool[k1].bias_genes(), pool[k2].bias_genes(), fb, child.bias_genes()));
                }
                assert(bred_from(child, pool[k1], pool[k2]));
            }
            children.push(child);
            i = i + 1;
        }
        let ghost added = children@;
        self.add_members(children);
        assert(self.members@.subrange(0, start.len() as int) =~= start);
        assert forall|k: int| start.len() <= k < self.members@.len() implies child_of_pool(
            #[trigger] self.members@[k],
            pool,
            generation,
        ) by {
            assert(self.members@[k] == added[k - start.len()]);
        }
        Ok(())
    }

    /// Copies of `members`.
    pub fn duplicate_all(members: &Vec<Member>) -> (r: Vec<Member>)
        ensures
            r@.len() == members@.len(),
            forall|k: int| 0 <= k < r@.len() ==> (#[trigger] r@[k]).same_as(&members@[k]),
    {
        let mut r: Vec<Member> = Vec::new();
        let mut k: usize = 0;
        while k < members.len()
            invariant
                0 <= k <= members.len(),
                r@.len() == k,
                forall|j: int| 0 <= j < k ==> (#[trigger] r@[j]).same_as(&members@[j]),
            decreases members.len() - k,
        {
            r.push(members[k].duplicate());
            k = k + 1;
        }
        r
    }

    /// The next generation: copies of `elites`, then `crossover_count`
    /// children bred from them, then `immigrants`. Its evaluations play
    /// `iterations` episodes each, as in `new`.
    pub fn reproduce(
        elites: &Vec<Member>,
        crossover_count: usize,
        immigrants: Vec<Member>,
        generation: usize,
        iterations: Option<usize>,
        fresh_genes: &Vec<Mutation>,
        rng: &mut StdRng,
    ) -> (r: Result<Population, EvolutionError>)
        requires
            pool_wf(elites@),
            fresh_genes@.len() >= crossover_count,
        ensures
            r == Err::<Population, EvolutionError>(EvolutionError::EmptyPool) <==> crossover_count > 0
                && elites@.len() == 0,
            r == Err::<Population, EvolutionError>(EvolutionError::ZeroFitness) <==> crossover_count > 0
                && elites@.len() > 0 && fitness_total(elites@) == 0,
            r matches Ok(p) ==> {
                let e = elites@.len() as int;
                let c = crossover_count as int;
                &&& p.members@.len() == e + c + immigrants@.len()
                &&& forall|k: int| 0 <= k < e ==> (#[trigger] p.members@[k]).same_as(&elites@[k])
                &&& forall|k: int| e <= k < e + c ==> child_of_pool(#[trigger] p.members@[k], elites@, generation)
                &&& p.members@.subrange(e + c, p.members@.len() as int) == immigrants@
                &&& p.iterations == match iterations {
                    Some(n) => n,
                    None => DEFAULT_ITERATIONS,
                }
            },
    {
        let mut next = Population::new(Self::duplicate_all(elites), iterations);
        let ghost kept = next.members@;
        match next.add_crossovers_members(elites, crossover_count, generation, fresh_genes, rng) {
            Ok(()) => {},
            Err(e) => {
                return Err(e);
            },
        }
        let ghost bred = next.members@;
        next.add_members(immigrants);
        proof {
            let e = elites@.len() as int;
            let c = crossover_count as int;
            assert forall|k: int| 0 <= k < e implies (#[trigger] next.members@[k]).same_as(&elites@[k]) by {
                assert(next.members@[k] == bred[k]);
                assert(bred[k] == bred.subrange(0, e)[k]);
            }
            assert forall|k: int| e <= k < e + c implies child_of_pool(#[trigger] next.members@[k], elites@, generation) by {
                assert(next.members@[k] == bred[k]);
            }
            assert(next.members@.subrange(e + c, next.members@.len() as int) =~= immigrants@);
        }
        Ok(next)
    }
}

/// On a wheel where one member holds all the fitness and every other member
/// none, every point of the wheel falls on that member.
pub proof fn sole_fit_member_always_drawn(ms: Seq<Member>, k: int, w: int, r: int)
    requires
        0 <= k < ms.len(),
        ms[k].fitness == fitness_total(ms),
        forall|j: int| 0 <= j < ms.len() && j != k ==> #[trigger] ms[j].fitness == 0,
        wheel_lands_on(ms, w, r),
    ensures
        r == k,
{
    assert(fitness_prefix(ms, r + 1) == fitness_prefix(ms, r) + ms[r].fitness);
}

} // verus!

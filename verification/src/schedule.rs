//! Row-partitioned scheduling of render workers.
//!
//! A pass runs a fixed set of workers against one shared, read-only scene
//! and camera.  Worker `i` of `procs` owns exactly the image rows congruent
//! to `i` modulo `procs`, so the workers' row sets are pairwise disjoint and
//! together cover every row: that disjointness is the only synchronization
//! the shared pixel buffer needs.

use vstd::arithmetic::div_mod::lemma_fundamental_div_mod;
use vstd::arithmetic::div_mod::lemma_mod_bound;
use vstd::arithmetic::div_mod::lemma_mod_equivalence;
use vstd::arithmetic::div_mod::lemma_mod_multiples_vanish;
use vstd::arithmetic::div_mod::lemma_small_mod;
use vstd::prelude::*;
use crate::config::Config;
use crate::config::ConfigError;
use crate::config::validate_config;
use crate::image::Image;

verus! {

/// What a traced ray ended on: the sky above, the ground plane below, or
/// the nearest sphere.
#[derive(Clone, Copy, Debug, PartialEq, Eq, Structural)]
pub enum Status {
    /// The ray escapes upward and hits the sky.
    MissUpward,
    /// The ray misses every sphere and hits the ground plane.
    MissDownward,
    /// The ray hits a sphere.
    Hit,
}

/// Worker `id` of `procs` owns exactly the rows congruent to `id`.
pub open spec fn owns_row(id: int, procs: int, y: int) -> bool {
    y % procs == id
}

/// The one worker index that owns row `y`.
pub open spec fn row_owner(y: int, procs: int) -> int {
    y % procs
}

/// One render worker: it samples and stores the rows it owns, and nothing
/// else ever writes them.
#[derive(Clone, Copy, Debug, PartialEq, Eq, Structural)]
pub struct Worker {
    /// This worker's index among the workers of the pass.
    pub id: usize,
    /// How many workers the pass runs in total.
    pub procs: usize,
}

/// Two numbers with the same residue are at least one whole divisor apart.
proof fn lemma_same_residue_gap(p: int, a: int, b: int)
    requires
        1 <= p,
        0 <= a < b,
        a % p == b % p,
    ensures
        b - a >= p,
{
    lemma_mod_equivalence(b, a, p);
    let d = b - a;
    lemma_fundamental_div_mod(d, p);
    let q = d / p;
    assert(d >= p) by (nonlinear_arith)
        requires
            d == p * q,
            d > 0,
            p >= 1,
    ;
}

impl Worker {
    /// The pass has at least one worker and this worker's index is among
    /// them.
    pub open spec fn wf(self) -> bool {
        self.procs >= 1 && self.id < self.procs
    }

    /// Whether this worker owns row `y`.
    pub fn owns(&self, y: usize) -> (r: bool)
        requires
            self.wf(),
        ensures
            r == owns_row(self.id as int, self.procs as int, y as int),
    {
        proof {
            lemma_mod_bound(y as int, self.procs as int);
        }
        y % self.procs == self.id
    }

    /// The rows this worker owns on a `size`-row image, in the order it
    /// renders them: `id`, `id + procs`, `id + 2 * procs` and so on.  The
    /// list holds every owned row below `size` and nothing else.
    pub fn rows(&self, size: usize) -> (r: Vec<usize>)
        requires
            self.wf(),
        ensures
            forall|i: int| 0 <= i < r@.len() ==> r@[i] == self.id + i * self.procs,
            forall|i: int| 0 <= i < r@.len() ==> r@[i] < size,
            forall|y: usize|
                y < size && owns_row(self.id as int, self.procs as int, y as int) ==> r@.contains(
                    y,
                ),
    {
        let id = self.id;
        let procs = self.procs;
        let mut r: Vec<usize> = Vec::new();
        let mut y: usize = id;
        proof {
            lemma_small_mod(id as nat, procs as nat);
            assert(r@.len() == 0);
            assert(0 * (procs as int) == 0) by (nonlinear_arith);
            assert forall|z: usize|
                z < size && z < id && owns_row(id as int, procs as int, z as int) implies r@.contains(
                z,
            ) by {
                lemma_same_residue_gap(procs as int, z as int, id as int);
            }
        }
        while y < size
            invariant_except_break
                procs >= 1,
                id < procs,
                y as int == id + r@.len() * (procs as int),
                y as int % (procs as int) == id,
                forall|i: int| 0 <= i < r@.len() ==> r@[i] == id + i * procs,
                forall|i: int| 0 <= i < r@.len() ==> r@[i] < size,
                forall|z: usize|
                    z < size && z < y && owns_row(id as int, procs as int, z as int)
                        ==> r@.contains(z),
            ensures
                forall|i: int| 0 <= i < r@.len() ==> r@[i] == id + i * procs,
                forall|i: int| 0 <= i < r@.len() ==> r@[i] < size,
                forall|z: usize|
                    z < size && owns_row(id as int, procs as int, z as int) ==> r@.contains(z),
            decreases size - y,
        {
            let ghost r0 = r@;
            r.push(y);
            proof {
                assert(r@ == r0.push(y));
                assert(r@[r0.len() as int] == y);
                assert forall|z: usize|
                    z < size && z < y + procs && owns_row(id as int, procs as int, z as int)
                        implies r@.contains(z) by {
                    if z < y {
                        let i = choose|i: int| 0 <= i < r0.len() && r0[i] == z;
                        assert(r@[i] == z);
                    } else if z as int > y as int {
                        lemma_same_residue_gap(procs as int, y as int, z as int);
                    } else {
                        assert(r@[r0.len() as int] == z);
                    }
                }
            }
            if procs > size - 1 - y {
                proof {
                    assert forall|z: usize|
                        z < size && owns_row(id as int, procs as int, z as int) implies r@.contains(
                        z,
                    ) by {
                        assert(z < y + procs);
                    }
                }
                break ;
            }
            let ghost len1 = r@.len() as int;
            y = y + procs;
            proof {
                assert(len1 == r0.len() + 1);
                assert(y as int == id + len1 * (procs as int) && (procs as int) * len1 + id
                    == y as int) by (nonlinear_arith)
                    requires
                        y as int == id + (len1 - 1) * (procs as int) + procs as int,
                        len1 >= 1,
                ;
                lemma_mod_multiples_vanish(len1, id as int, procs as int);
                lemma_small_mod(id as nat, procs as nat);
            }
        }
        r
    }
}

/// Every image row below `size` is owned by exactly one of the `procs`
/// workers: its owner's index is a valid worker index, the owner does own
/// it, and no two distinct worker indices own the same row.
pub proof fn lemma_row_partition(procs: int, size: int)
    requires
        procs >= 1,
    ensures
        forall|y: int| 0 <= y < size ==> 0 <= #[trigger] row_owner(y, procs) < procs,
        forall|y: int| 0 <= y < size ==> owns_row(#[trigger] row_owner(y, procs), procs, y),
        forall|y: int, i: int, j: int|
            0 <= y < size && #[trigger] owns_row(i, procs, y) && #[trigger] owns_row(j, procs, y)
                ==> i == j,
{
    assert forall|y: int| 0 <= y < size implies 0 <= #[trigger] row_owner(y, procs) < procs by {
        lemma_mod_bound(y, procs);
    }
}

/// One validated render pass: the configuration, the zeroed pixel buffer,
/// and one worker per process.
pub struct RenderPass {
    /// The validated configuration the pass runs under.
    pub config: Config,
    /// The shared output buffer, zeroed until workers store their rows.
    pub image: Image,
    /// The workers, indexed by their own `id`.
    pub workers: Vec<Worker>,
}

/// Validates the requested configuration and, only when it is acceptable,
/// builds the pass: a zeroed pixel buffer and one worker per process, each
/// owning the rows congruent to its index.  A non-positive worker or repeat
/// count is rejected before the buffer is allocated.
pub fn start(size: usize, procs: isize, times: isize) -> (r: Result<RenderPass, ConfigError>)
    requires
        3 * size * size <= usize::MAX,
    ensures
        procs < 1 ==> r == Err::<RenderPass, ConfigError>(ConfigError::NonPositiveProcs),
        procs >= 1 && times < 1 ==> r == Err::<RenderPass, ConfigError>(
            ConfigError::NonPositiveTimes,
        ),
        procs >= 1 && times >= 1 ==> (r matches Ok(p) && p.config == (Config {
            size: size,
            procs: procs as usize,
            times: times as usize,
        }) && p.image.size == size && p.image.wf() && (forall|i: int|
            0 <= i < p.image.data@.len() ==> p.image.data@[i] == 0u8) && p.workers@.len()
            == procs && (forall|i: int|
            0 <= i < p.workers@.len() ==> p.workers@[i].id == i && p.workers@[i].procs == procs
                && p.workers@[i].wf())),
{
    let config = match validate_config(size, procs, times) {
        Ok(c) => c,
        Err(e) => {
            return Err(e);
        },
    };
    let image = Image::new(size);
    let mut workers: Vec<Worker> = Vec::new();
    let mut i: usize = 0;
    while i < config.procs
        invariant
            i <= config.procs,
            workers@.len() == i,
            forall|j: int|
                0 <= j < i ==> workers@[j].id == j && workers@[j].procs == config.procs,
        decreases config.procs - i,
    {
        workers.push(Worker { id: i, procs: config.procs });
        i = i + 1;
    }
    Ok(RenderPass { config, image, workers })
}

} // verus!

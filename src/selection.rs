//! The selection engine: picks one candidate file, blending a position bias
//! (a sequential step or a random jump) with a memory weighting that holds
//! back files picked often, under a single randomness control.
//!
//! Randomness is a percentage `p`: 0 is sequential and memory-weighted, 100 is
//! a plain random jump. Weights are fixed point, with one million standing for
//! a weight of one.

use rand::distr::weighted::WeightedIndex;
use rand::distr::Distribution;
use rand::Rng;
use std::collections::HashMap;
use vstd::prelude::*;

verus! {

broadcast use vstd::std_specs::hash::group_hash_axioms;

/// Scale of the fixed-point weights and of the jump curve.
pub const WEIGHT_SCALE: u64 = 1_000_000;

/// One file that can be picked.
#[derive(Clone, Debug, PartialEq, Eq)]
pub struct FileEntry {
    pub id: u64,
    pub name: String,
    pub path: String,
    pub excluded: bool,
}

pub ghost struct FileView {
    pub id: u64,
    pub name: Seq<char>,
    pub path: Seq<char>,
    pub excluded: bool,
}

impl View for FileEntry {
    type V = FileView;

    open spec fn view(&self) -> FileView {
        FileView { id: self.id, name: self.name@, path: self.path@, excluded: self.excluded }
    }
}

impl FileEntry {
    /// A copy of the entry.
    pub fn duplicate(&self) -> (r: FileEntry)
        ensures
            r@ == self@,
    {
        FileEntry {
            id: self.id,
            name: self.name.clone(),
            path: self.path.clone(),
            excluded: self.excluded,
        }
    }
}

/// What the engine remembers between picks.
#[derive(Clone, Debug)]
pub struct PickHistory {
    pub last_picked_id: Option<u64>,
    pub last_picked_index: Option<usize>,
    pub pick_counts: HashMap<u64, u32>,
}

pub ghost struct HistoryView {
    pub last_picked_id: Option<u64>,
    pub last_picked_index: Option<usize>,
    pub pick_counts: Map<u64, u32>,
}

impl View for PickHistory {
    type V = HistoryView;

    open spec fn view(&self) -> HistoryView {
        HistoryView {
            last_picked_id: self.last_picked_id,
            last_picked_index: self.last_picked_index,
            pick_counts: self.pick_counts@,
        }
    }
}

/// How often `id` has been picked.
pub open spec fn pick_count(counts: Map<u64, u32>, id: u64) -> nat {
    if counts.contains_key(id) {
        counts[id] as nat
    } else {
        0
    }
}

/// The history after picking `id` at `index`: the count of `id` goes up by one
/// (it stays at `u32::MAX` once there).
pub open spec fn record_pick(h: HistoryView, id: u64, index: usize) -> HistoryView {
    let c = pick_count(h.pick_counts, id);
    HistoryView {
        last_picked_id: Some(id),
        last_picked_index: Some(index),
        pick_counts: h.pick_counts.insert(
            id,
            if c < u32::MAX {
                (c + 1) as u32
            } else {
                u32::MAX
            },
        ),
    }
}

impl PickHistory {
    /// A history with no picks.
    pub fn new() -> (r: PickHistory)
        ensures
            r@.last_picked_id is None,
            r@.last_picked_index is None,
            r@.pick_counts == Map::<u64, u32>::empty(),
    {
        PickHistory { last_picked_id: None, last_picked_index: None, pick_counts: HashMap::new() }
    }

    /// How often `id` has been picked.
    pub fn count_of(&self, id: u64) -> (r: u32)
        ensures
            r as nat == pick_count(self@.pick_counts, id),
    {
        match self.pick_counts.get(&id) {
            Some(c) => *c,
            None => 0,
        }
    }

    /// Records a pick of `id` at `index`.
    pub fn record(&mut self, id: u64, index: usize)
        ensures
            final(self)@ == record_pick(old(self)@, id, index),
    {
        let c = self.count_of(id);
        let next = if c < u32::MAX {
            c + 1
        } else {
            u32::MAX
        };
        self.pick_counts.insert(id, next);
        self.last_picked_id = Some(id);
        self.last_picked_index = Some(index);
    }
}

/// Weight of a file picked `picks` times, at randomness `p` percent:
/// `1 / (1 + 2 * picks * (1 - p/100)^2)` in fixed point, at least one unit.
pub open spec fn weight_of(picks: nat, p: nat) -> nat {
    let q = (100 - p) as nat;
    let w = (WEIGHT_SCALE * 10_000) as nat / (10_000 + 2 * picks * q * q) as nat;
    if w == 0 {
        1
    } else {
        w
    }
}

/// Fixed-point memory weight of a file picked `picks` times, at randomness `p`.
pub fn memory_weight(picks: u32, p: u8) -> (r: u64)
    requires
        p <= 100,
    ensures
        r as nat == weight_of(picks as nat, p as nat),
        1 <= r <= WEIGHT_SCALE,
{
    let q = (100 - p) as u64;
    proof {
        assert(0 <= q * q <= 10_000) by (nonlinear_arith)
            requires
                0 <= q <= 100,
        ;
        assert(0 <= 2 * (picks as int) * (q * q) <= 2 * 0xffff_ffff * 10_000) by (nonlinear_arith)
            requires
                0 <= q * q <= 10_000,
                0 <= picks <= 0xffff_ffff,
        ;
        assert(2 * (picks as int) * (q * q) == 2 * picks * q * q) by (nonlinear_arith);
    }
    let d = 10_000 + 2 * (picks as u64) * (q * q);
    let w = (WEIGHT_SCALE * 10_000) / d;
    proof {
        assert(w <= WEIGHT_SCALE) by (nonlinear_arith)
            requires
                d >= 10_000,
                w as int == 10_000_000_000int / (d as int),
        ;
    }
    if w == 0 {
        1
    } else {
        w
    }
}

/// Sum of a sequence of weights.
pub open spec fn weight_sum(s: Seq<u64>) -> int
    decreases s.len(),
{
    if s.len() == 0 {
        0
    } else {
        weight_sum(s.drop_last()) + s.last()
    }
}

/// Relies on rand's `rng` and `Rng::random_range`: a value drawn from `0..bound`,
/// which must not be empty.
#[verifier::external_body]
fn random_below(bound: u64) -> (r: u64)
    requires
        bound > 0,
    ensures
        r < bound,
{
    rand::rng().random_range(0..bound)
}

/// A weighted-index distribution of rand over `u64` weights.
#[verifier::external_body]
pub struct WeightedDraw {
    dist: WeightedIndex<u64>,
}

/// The weights that a weighted-index distribution was built from.
pub uninterp spec fn index_weights(d: WeightedDraw) -> Seq<u64>;

/// Relies on rand's `WeightedIndex::new`: it accepts a non-empty list of weights
/// whose sum is positive and does not overflow, and keeps those weights.
#[verifier::external_body]
fn weighted_index(weights: &Vec<u64>) -> (r: Option<WeightedDraw>)
    ensures
        r is Some <==> (weights.len() > 0 && 0 < weight_sum(weights@) <= u64::MAX),
        r matches Some(d) ==> index_weights(d) == weights@,
{
    WeightedIndex::new(weights.iter().copied()).ok().map(|dist| WeightedDraw { dist })
}

/// Relies on rand's `Distribution::sample` for `WeightedIndex`, with the thread
/// rng: the index of an item of positive weight.
#[verifier::external_body]
fn sample_index(d: &WeightedDraw) -> (r: usize)
    ensures
        r < index_weights(*d).len(),
        index_weights(*d)[r as int] > 0,
{
    d.dist.sample(&mut rand::rng())
}

/// Index of the position-bias path: a random jump with probability `p` percent
/// (`coin` drawn from `0..100`, `jump_to` from `0..n`), otherwise the index after
/// the last pick; then `distance` further on, at least one step.
pub open spec fn target_index(
    n: nat,
    last: Option<usize>,
    p: nat,
    coin: nat,
    jump_to: nat,
    distance: nat,
) -> nat {
    let direction = if coin < p {
        jump_to
    } else {
        match last {
            Some(i) => ((i + 1) % (n as int)) as nat,
            None => 0,
        }
    };
    let step = if distance < 1 {
        1
    } else {
        distance
    };
    ((direction + step) as int % (n as int)) as nat
}

/// Distance on the jump curve: the curve value (fixed point) times `n`.
pub open spec fn curve_distance(curve: nat, n: nat) -> nat {
    curve * n / WEIGHT_SCALE as nat
}

/// The final index: `round(target * r + weighted * (1 - r)) mod n`, with `r = p / 100`.
pub open spec fn blended_index(target: nat, weighted: nat, p: nat, n: nat) -> nat {
    (((target * p + weighted * (100 - p) + 50) / 100) as int % (n as int)) as nat
}

/// The index picked among `n` candidates, given the draws: the blend of the
/// position-bias target and the memory-weighted choice.
pub open spec fn chosen_index(
    n: nat,
    last: Option<usize>,
    p: nat,
    coin: nat,
    jump_to: nat,
    curve: nat,
    weighted: nat,
) -> nat {
    blended_index(
        target_index(n, last, p, coin, jump_to, curve_distance(curve, n)),
        weighted,
        p,
        n,
    )
}

/// The index picked among `n` candidates, given the draws.
pub fn choose_index(
    n: usize,
    last: Option<usize>,
    p: u8,
    coin: u64,
    jump_to: usize,
    curve: u32,
    weighted: usize,
) -> (r: usize)
    requires
        n > 0,
        p <= 100,
        jump_to < n,
        weighted < n,
        curve <= WEIGHT_SCALE,
    ensures
        r as nat == chosen_index(
            n as nat,
            last,
            p as nat,
            coin as nat,
            jump_to as nat,
            curve as nat,
            weighted as nat,
        ),
        r < n,
{
    let direction: u128 = if coin < p as u64 {
        jump_to as u128
    } else {
        match last {
            Some(i) => ((i as u128) + 1) % (n as u128),
            None => 0,
        }
    };
    proof {
        assert(0 <= (curve as int) * (n as int) <= WEIGHT_SCALE * (n as int)) by (nonlinear_arith)
            requires
                0 <= curve <= WEIGHT_SCALE,
                0 <= n,
        ;
        assert((n as int) * 1_000_000 <= 0xffff_ffff_ffff_ffff * 1_000_000) by (nonlinear_arith)
            requires
                n <= 0xffff_ffff_ffff_ffff,
        ;
    }
    let distance: u128 = (curve as u128) * (n as u128) / (WEIGHT_SCALE as u128);
    let step: u128 = if distance < 1 {
        1
    } else {
        distance
    };
    let target: u128 = (direction + step) % (n as u128);
    let pp = p as u128;
    proof {
        assert(0 <= target * pp <= (n as int) * 100) by (nonlinear_arith)
            requires
                0 <= target < n,
                0 <= pp <= 100,
        ;
        assert(0 <= (weighted as int) * (100 - pp) <= (n as int) * 100) by (nonlinear_arith)
            requires
                0 <= weighted < n,
                0 <= pp <= 100,
        ;
    }
    let blend = (target * pp + (weighted as u128) * (100 - pp) + 50) / 100;
    (blend % (n as u128)) as usize
}

/// Views of the files that can be picked: those not excluded, in order.
pub open spec fn available(files: Seq<FileView>) -> Seq<FileView>
    decreases files.len(),
{
    if files.len() == 0 {
        Seq::empty()
    } else if files.last().excluded {
        available(files.drop_last())
    } else {
        available(files.drop_last()).push(files.last())
    }
}

pub open spec fn file_views(v: Seq<FileEntry>) -> Seq<FileView> {
    v.map_values(|f: FileEntry| f@)
}

/// Most candidates for which a pick is owed: their weights then sum within `u64`.
pub const MAX_CANDIDATES: u64 = 18_446_744_073_709;

/// Picks one of the files that are not excluded and records the pick.
///
/// `curve` is the jump-curve value `u^(1/(1+4r))` for a uniform draw `u`, in
/// fixed point. The other draws are made here. With no file to pick, or if the
/// weighted draw cannot be made, nothing is picked and the history is kept.
pub fn pick_random_file(
    files: &Vec<FileEntry>,
    history: &mut PickHistory,
    randomness: u8,
    curve: u32,
) -> (r: Option<FileEntry>)
    requires
        randomness <= 100,
        curve <= WEIGHT_SCALE,
    ensures
        ({
            let av = available(file_views(files@));
            &&& r is None ==> *final(history) == *old(history)
            &&& (0 < av.len() <= MAX_CANDIDATES) ==> r is Some
            &&& av.len() == 0 ==> r is None
            &&& r matches Some(f) ==> exists|i: int|
                0 <= i < av.len() && #[trigger] av[i] == f@ && final(history)@ == record_pick(
                    old(history)@,
                    f.id,
                    i as usize,
                )
        }),
{
    let ghost fv = file_views(files@);
    let mut cands: Vec<FileEntry> = Vec::new();
    let mut weights: Vec<u64> = Vec::new();
    let mut k: usize = 0;
    while k < files.len()
        invariant
            k <= files.len(),
            fv == file_views(files@),
            file_views(cands@) == available(fv.subrange(0, k as int)),
            weights.len() == cands.len(),
            forall|i: int| 0 <= i < weights.len() ==> 1 <= #[trigger] weights@[i] <= WEIGHT_SCALE,
            0 < weights.len() ==> 0 < weight_sum(weights@),
            weight_sum(weights@) <= weights.len() * WEIGHT_SCALE,
            randomness <= 100,
        decreases files.len() - k,
    {
        assert(fv.subrange(0, k + 1).drop_last() =~= fv.subrange(0, k as int));
        let f = &files[k];
        assert(fv.subrange(0, k + 1).last() == f@);
        if !f.excluded {
            let ghost before = weights@;
            let w = memory_weight(history.count_of(f.id), randomness);
            let ghost cbefore = file_views(cands@);
            cands.push(f.duplicate());
            weights.push(w);
            assert(weights@.drop_last() =~= before);
            assert(file_views(cands@) =~= cbefore.push(f@));
        }
        k = k + 1;
    }
    assert(fv.subrange(0, k as int) =~= fv);
    let n = cands.len();
    if n == 0 {
        return None;
    }
    proof {
        if n <= MAX_CANDIDATES {
            assert((n as int) * WEIGHT_SCALE <= MAX_CANDIDATES * WEIGHT_SCALE) by (nonlinear_arith)
                requires
                    n <= MAX_CANDIDATES,
            ;
        }
    }
    let weighted = match weighted_index(&weights) {
        Some(d) => sample_index(&d),
        None => {
            return None;
        },
    };
    let coin = random_below(100);
    let jump_to = random_below(n as u64) as usize;
    let i = choose_index(
        n,
        history.last_picked_index,
        randomness,
        coin,
        jump_to,
        curve,
        weighted,
    );
    let f = cands[i].duplicate();
    assert(available(fv)[i as int] == f@);
    history.record(f.id, i);
    Some(f)
}

/// Pick counts never go down, and a pick adds exactly one to the count of the
/// file picked (until the count reaches `u32::MAX`).
pub proof fn lemma_pick_counts_monotone(h: HistoryView, id: u64, index: usize)
    ensures
        forall|other: u64|
            #![trigger pick_count(record_pick(h, id, index).pick_counts, other)]
            pick_count(record_pick(h, id, index).pick_counts, other) >= pick_count(
                h.pick_counts,
                other,
            ),
        forall|other: u64|
            #![trigger pick_count(record_pick(h, id, index).pick_counts, other)]
            other != id ==> pick_count(record_pick(h, id, index).pick_counts, other)
                == pick_count(h.pick_counts, other),
        pick_count(h.pick_counts, id) < u32::MAX ==> pick_count(
            record_pick(h, id, index).pick_counts,
            id,
        ) == pick_count(h.pick_counts, id) + 1,
{
}

/// At randomness 0 the pick is the memory-weighted choice alone; at randomness
/// 100 it is the position-bias target alone.
pub proof fn lemma_randomness_extremes(
    n: nat,
    last: Option<usize>,
    coin: nat,
    jump_to: nat,
    curve: nat,
    weighted: nat,
)
    requires
        n > 0,
        weighted < n,
    ensures
        chosen_index(n, last, 0, coin, jump_to, curve, weighted) == weighted,
        chosen_index(n, last, 100, coin, jump_to, curve, weighted) == target_index(
            n,
            last,
            100,
            coin,
            jump_to,
            curve_distance(curve, n),
        ),
{
    let t = target_index(n, last, 100, coin, jump_to, curve_distance(curve, n));
    let t0 = target_index(n, last, 0, coin, jump_to, curve_distance(curve, n));
    assert(t < n);
    assert((t * 100 + weighted * 0 + 50) / 100 == t) by (nonlinear_arith);
    assert((t0 * 0 + weighted * 100 + 50) / 100 == weighted) by (nonlinear_arith);
    vstd::arithmetic::div_mod::lemma_small_mod(t, n);
    vstd::arithmetic::div_mod::lemma_small_mod(weighted, n);
    assert(blended_index(t, weighted, 100, n) == t);
    assert(blended_index(t0, weighted, 0, n) == weighted);
}

/// A file picked more often never weighs more: recent favourites are held back.
pub proof fn lemma_weight_decreases_with_picks(a: nat, b: nat, p: nat)
    requires
        a <= b,
        p <= 100,
    ensures
        weight_of(b, p) <= weight_of(a, p),
{
    let q = (100 - p) as nat;
    let da = 10_000 + 2 * a * q * q;
    let db = 10_000 + 2 * b * q * q;
    assert(da <= db) by (nonlinear_arith)
        requires
            a <= b,
            da == 10_000 + 2 * a * q * q,
            db == 10_000 + 2 * b * q * q,
    ;
    vstd::arithmetic::div_mod::lemma_div_is_ordered_by_denominator(
        (WEIGHT_SCALE * 10_000) as int,
        da as int,
        db as int,
    );
}

} // verus!

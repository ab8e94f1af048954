use vstd::prelude::*;

verus! {

/// One step of the xorshift32 generator: shifts by 13 left, 17 right, 5 left.
pub open spec fn xorshift32(x: u32) -> u32 {
    let a = x ^ (x << 13u32);
    let b = a ^ (a >> 17u32);
    b ^ (b << 5u32)
}

/// The xorshift32 step maps every non-zero state to a non-zero state.
pub proof fn lemma_xorshift32_nonzero(x: u32)
    requires
        x != 0,
    ensures
        xorshift32(x) != 0,
{
    assert(x != 0 ==> {
        let a = x ^ (x << 13u32);
        let b = a ^ (a >> 17u32);
        b ^ (b << 5u32) != 0u32
    }) by (bit_vector);
}

/// The value that `gen_range_u32(min, max)` draws from a generator in `state`.
pub open spec fn range_u32_value(state: u32, min: u32, max: u32) -> u32 {
    if min >= max {
        min
    } else {
        (min + xorshift32(state) % ((max - min) as u32)) as u32
    }
}

/// The state that `gen_range_u32(min, max)` leaves behind: an empty range draws nothing.
pub open spec fn range_u32_state(state: u32, min: u32, max: u32) -> u32 {
    if min >= max {
        state
    } else {
        xorshift32(state)
    }
}

/// The value that `gen_range_i32(min, max)` draws from a generator in `state`.
pub open spec fn range_i32_value(state: u32, min: i32, max: i32) -> i32 {
    if min >= max {
        min
    } else {
        (min + xorshift32(state) % ((max - min) as u32)) as i32
    }
}

/// The state that `gen_range_i32(min, max)` leaves behind.
pub open spec fn range_i32_state(state: u32, min: i32, max: i32) -> u32 {
    if min >= max {
        state
    } else {
        xorshift32(state)
    }
}

/// Sum of the first `n` weights.
pub open spec fn weight_prefix(w: Seq<u32>, n: int) -> int
    decreases n,
{
    if n <= 0 {
        0
    } else {
        weight_prefix(w, n - 1) + w[n - 1]
    }
}

/// Sum of all weights.
pub open spec fn weight_total(w: Seq<u32>) -> int {
    weight_prefix(w, w.len() as int)
}

/// Prefix sums of weights never decrease.
pub proof fn lemma_weight_prefix_monotone(w: Seq<u32>, i: int, j: int)
    requires
        0 <= i <= j <= w.len(),
    ensures
        0 <= weight_prefix(w, i) <= weight_prefix(w, j),
    decreases j - i,
{
    if i < j {
        lemma_weight_prefix_monotone(w, i, j - 1);
    } else {
        lemma_weight_prefix_nonneg(w, i);
    }
}

proof fn lemma_weight_prefix_nonneg(w: Seq<u32>, i: int)
    requires
        0 <= i <= w.len(),
    ensures
        0 <= weight_prefix(w, i),
    decreases i,
{
    if i > 0 {
        lemma_weight_prefix_nonneg(w, i - 1);
    }
}

/// The index whose share of the weights holds `v`.
pub open spec fn weighted_pick(w: Seq<u32>, v: int) -> int {
    choose|i: int| 0 <= i < w.len() && #[trigger] weight_prefix(w, i) <= v < weight_prefix(w, i + 1)
}

/// At most one index's share of the weights holds a given value.
pub proof fn lemma_weighted_pick_unique(w: Seq<u32>, v: int, i: int)
    requires
        0 <= i < w.len(),
        weight_prefix(w, i) <= v < weight_prefix(w, i + 1),
    ensures
        weighted_pick(w, v) == i,
{
    let j = weighted_pick(w, v);
    assert(0 <= j < w.len() && weight_prefix(w, j) <= v < weight_prefix(w, j + 1));
    if j < i {
        lemma_weight_prefix_monotone(w, j + 1, i);
    } else if i < j {
        lemma_weight_prefix_monotone(w, i + 1, j);
    }
}

/// The index `weighted_random_vec` draws from `w` with a generator in `state`
/// (-1 for no weights), and the state it leaves behind.
pub open spec fn weighted_draw(w: Seq<u32>, state: u32) -> (int, u32) {
    if w.len() == 0 {
        (-1, state)
    } else if weight_total(w) > 0 {
        let t = weight_total(w) as u32;
        (weighted_pick(w, range_u32_value(state, 0, t) as int), range_u32_state(state, 0, t))
    } else {
        let n = (w.len() % 0x1_0000_0000) as u32;
        (range_u32_value(state, 0, n) as int, range_u32_state(state, 0, n))
    }
}

/// XorShift32 pseudo-random number generator.
pub struct Rng {
    state: u32,
}

impl Rng {
    #[verifier::type_invariant]
    spec fn state_nonzero(self) -> bool {
        self.state != 0
    }

    /// The current internal state.
    pub closed spec fn state(self) -> u32 {
        self.state
    }

    pub fn new(seed: u32) -> (r: Self)
        ensures
            r.state() == if seed == 0 { 1u32 } else { seed },
    {
        Self { state: if seed == 0 { 1 } else { seed } }
    }

    pub fn next_u32(&mut self) -> (x: u32)
        ensures
            x == xorshift32(old(self).state()),
            final(self).state() == x,
    {
        proof { use_type_invariant(&*self); }
        let mut x = self.state;
        x ^= x << 13u32;
        x ^= x >> 17u32;
        x ^= x << 5u32;
        proof { lemma_xorshift32_nonzero(self.state); }
        self.state = x;
        x
    }

    pub fn gen_range_i32(&mut self, min: i32, max: i32) -> (r: i32)
        requires
            min < max ==> max - min <= i32::MAX,
        ensures
            r == range_i32_value(old(self).state(), min, max),
            final(self).state() == range_i32_state(old(self).state(), min, max),
            min < max ==> min <= r < max,
            min >= max ==> r == min,
    {
        if min >= max {
            return min;
        }
        let range = (max - min) as u32;
        let x = self.next_u32();
        min + (x % range) as i32
    }

    pub fn gen_range_u32(&mut self, min: u32, max: u32) -> (r: u32)
        ensures
            r == range_u32_value(old(self).state(), min, max),
            final(self).state() == range_u32_state(old(self).state(), min, max),
            min < max ==> min <= r < max,
            min >= max ==> r == min,
    {
        if min >= max {
            return min;
        }
        min + self.next_u32() % (max - min)
    }
}

} // verus!

verus! {

/// Picks an index with probability proportional to its weight. An empty slice gives
/// `None`; when every weight is zero the index is drawn uniformly instead.
pub fn weighted_random_vec(weights: &[u32], rng: &mut Rng) -> (r: Option<usize>)
    requires
        weight_total(weights@) <= u32::MAX,
    ensures
        weights@.len() == 0 ==> r is None && final(rng).state() == old(rng).state(),
        weights@.len() > 0 && weight_total(weights@) > 0 ==> {
            let v = range_u32_value(old(rng).state(), 0, weight_total(weights@) as u32);
            &&& r matches Some(idx)
            &&& idx < weights@.len()
            &&& weight_prefix(weights@, idx as int) <= v < weight_prefix(weights@, idx + 1)
            &&& final(rng).state() == range_u32_state(old(rng).state(), 0, weight_total(weights@) as u32)
        },
        r is None <==> weights@.len() == 0,
        r matches Some(idx) ==> idx == weighted_draw(weights@, old(rng).state()).0 && idx
            < weights@.len(),
        final(rng).state() == weighted_draw(weights@, old(rng).state()).1,
        weights@.len() > 0 && weight_total(weights@) == 0 ==> {
            let n = (weights@.len() % 0x1_0000_0000) as u32;
            &&& r == Some(range_u32_value(old(rng).state(), 0, n) as usize)
            &&& final(rng).state() == range_u32_state(old(rng).state(), 0, n)
        },
{
    if weights.len() == 0 {
        return None;
    }
    let len = weights.len();
    let mut total: u32 = 0;
    let mut i: usize = 0;
    while i < len
        invariant
            len == weights@.len(),
            i <= len,
            total == weight_prefix(weights@, i as int),
            weight_total(weights@) <= u32::MAX,
            rng.state() == old(rng).state(),
        decreases len - i,
    {
        proof { lemma_weight_prefix_monotone(weights@, i + 1, len as int); }
        total = total + weights[i];
        i = i + 1;
    }
    if total != 0 {
        let ghost st0 = rng.state();
        let rng_val = rng.gen_range_u32(0, total);
        let ghost st = rng.state();
        let mut counter: u32 = 0;
        let mut idx: usize = 0;
        while idx < len
            invariant
                len == weights@.len(),
                idx <= len,
                total == weight_total(weights@),
                counter == weight_prefix(weights@, idx as int),
                counter <= rng_val,
                rng_val < total,
                rng.state() == st,
                st == range_u32_state(st0, 0, total),
                rng_val == range_u32_value(st0, 0, total),
                st0 == old(rng).state(),
            decreases len - idx,
        {
            proof { lemma_weight_prefix_monotone(weights@, idx + 1, len as int); }
            let w = weights[idx];
            if counter + w > rng_val {
                proof { lemma_weighted_pick_unique(weights@, rng_val as int, idx as int); }
                return Some(idx);
            }
            counter = counter + w;
            idx = idx + 1;
        }
        assert(false);
    }
    let n = #[verifier::truncate] (len as u32);
    assert(n as u64 == (len as u64) % 0x1_0000_0000u64) by (bit_vector)
        requires
            n == #[verifier::truncate] (len as u32),
    ;
    Some(rng.gen_range_u32(0, n) as usize)
}

} // verus!

verus! {

proof fn lemma_weight_prefix_drop_last(w: Seq<u32>, i: int)
    requires
        0 <= i < w.len(),
    ensures
        weight_prefix(w.drop_last(), i) == weight_prefix(w, i),
    decreases i,
{
    if i > 0 {
        lemma_weight_prefix_drop_last(w, i - 1);
    }
}

/// Every value below the total falls into the share of some index, and
/// `weighted_pick` finds it.
pub proof fn lemma_weighted_pick_exists(w: Seq<u32>, v: int)
    requires
        0 <= v < weight_total(w),
    ensures
        0 <= weighted_pick(w, v) < w.len(),
        weight_prefix(w, weighted_pick(w, v)) <= v < weight_prefix(w, weighted_pick(w, v) + 1),
        w[weighted_pick(w, v)] > 0,
    decreases w.len(),
{
    let n = w.len() as int;
    if v >= weight_prefix(w, n - 1) {
        lemma_weighted_pick_unique(w, v, n - 1);
    } else {
        let t = w.drop_last();
        lemma_weight_prefix_drop_last(w, n - 1);
        lemma_weighted_pick_exists(t, v);
        let i = weighted_pick(t, v);
        lemma_weight_prefix_drop_last(w, i);
        lemma_weight_prefix_drop_last(w, i + 1);
        lemma_weighted_pick_unique(w, v, i);
    }
}

/// When the weights do not all vanish, the drawn index has a positive weight.
pub proof fn lemma_weighted_draw_positive(w: Seq<u32>, state: u32)
    requires
        0 < weight_total(w) <= u32::MAX,
    ensures
        0 <= weighted_draw(w, state).0 < w.len(),
        w[weighted_draw(w, state).0] > 0,
{
    let t = weight_total(w) as u32;
    let v = range_u32_value(state, 0, t) as int;
    assert(0 <= v < t);
    lemma_weighted_pick_exists(w, v);
}

} // verus!

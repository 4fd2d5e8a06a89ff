use vstd::prelude::*;

verus! {

/// Positions `i`, in increasing order, at which `flags[i] == want`.
pub open spec fn indices_where(flags: Seq<bool>, want: bool) -> Seq<usize>
    decreases flags.len(),
{
    if flags.len() == 0 {
        Seq::empty()
    } else {
        let prev = indices_where(flags.drop_last(), want);
        if flags.last() == want {
            prev.push((flags.len() - 1) as usize)
        } else {
            prev
        }
    }
}

/// Number of positions at which `flags` holds `want`.
pub open spec fn count_where(flags: Seq<bool>, want: bool) -> nat
    decreases flags.len(),
{
    if flags.len() == 0 {
        0
    } else {
        count_where(flags.drop_last(), want) + if flags.last() == want {
            1nat
        } else {
            0nat
        }
    }
}

/// Positions, in increasing order, at which `flags` holds `want`.
pub fn select_indices(flags: &Vec<bool>, want: bool) -> (r: Vec<usize>)
    ensures
        r@ == indices_where(flags@, want),
{
    let mut r: Vec<usize> = Vec::new();
    let mut i: usize = 0;
    while i < flags.len()
        invariant
            i <= flags@.len(),
            r@ == indices_where(flags@.subrange(0, i as int), want),
        decreases flags@.len() - i,
    {
        proof {
            let next = flags@.subrange(0, i as int + 1);
            assert(next.drop_last() =~= flags@.subrange(0, i as int));
        }
        if flags[i] == want {
            r.push(i);
        }
        i = i + 1;
    }
    assert(flags@.subrange(0, flags@.len() as int) =~= flags@);
    r
}

/// Splits a population by its death flags: the indices of the survivors and
/// the indices of the creatures that become corpses, each in population order.
pub fn split_by_death(dead: &Vec<bool>) -> (r: (Vec<usize>, Vec<usize>))
    ensures
        r.0@ == indices_where(dead@, false),
        r.1@ == indices_where(dead@, true),
{
    (select_indices(dead, false), select_indices(dead, true))
}

/// The selected positions are exactly the positions holding `want`, in
/// increasing order, and there are as many as such positions.
pub proof fn lemma_indices_where(flags: Seq<bool>, want: bool)
    requires
        flags.len() <= usize::MAX,
    ensures
        indices_where(flags, want).len() == count_where(flags, want),
        forall|k: int|
            0 <= k < indices_where(flags, want).len() ==> {
                let i = #[trigger] indices_where(flags, want)[k];
                &&& i < flags.len()
                &&& flags[i as int] == want
            },
        forall|k: int, l: int|
            0 <= k < l < indices_where(flags, want).len() ==> indices_where(flags, want)[k]
                < indices_where(flags, want)[l],
        forall|i: int|
            0 <= i < flags.len() && flags[i] == want ==> indices_where(flags, want).contains(
                i as usize,
            ),
    decreases flags.len(),
{
    if flags.len() > 0 {
        let pre = flags.drop_last();
        lemma_indices_where(pre, want);
        let prev = indices_where(pre, want);
        let cur = indices_where(flags, want);
        let last = (flags.len() - 1) as usize;
        assert forall|k: int| 0 <= k < cur.len() implies {
            let i = #[trigger] cur[k];
            &&& i < flags.len()
            &&& flags[i as int] == want
        } by {
            if k < prev.len() {
                assert(cur[k] == prev[k]);
                assert(pre[prev[k] as int] == flags[prev[k] as int]);
            }
        }
        assert forall|k: int, l: int| 0 <= k < l < cur.len() implies cur[k] < cur[l] by {
            if l < prev.len() {
                assert(cur[k] == prev[k] && cur[l] == prev[l]);
            } else {
                assert(cur[l] == last);
                assert(cur[k] == prev[k]);
                assert(prev[k] < pre.len());
            }
        }
        assert forall|i: int| 0 <= i < flags.len() && flags[i] == want implies cur.contains(
            i as usize,
        ) by {
            if i < flags.len() - 1 {
                assert(pre[i] == flags[i]);
                assert(prev.contains(i as usize));
                let k = choose|k: int| 0 <= k < prev.len() && prev[k] == i as usize;
                assert(cur[k] == i as usize);
            } else {
                assert(cur[cur.len() - 1] == i as usize);
            }
        }
    }
}

/// Every creature is either kept or becomes a corpse, never both: the number
/// removed plus the number kept is the population, and the number removed is
/// the number of creatures flagged dead.
pub proof fn lemma_death_conservation(dead: Seq<bool>)
    requires
        dead.len() <= usize::MAX,
    ensures
        indices_where(dead, true).len() == count_where(dead, true),
        indices_where(dead, true).len() + indices_where(dead, false).len() == dead.len(),
        forall|k: int, l: int|
            0 <= k < indices_where(dead, true).len() && 0 <= l < indices_where(dead, false).len()
                ==> indices_where(dead, true)[k] != indices_where(dead, false)[l],
    decreases dead.len(),
{
    lemma_indices_where(dead, true);
    lemma_indices_where(dead, false);
    if dead.len() > 0 {
        lemma_death_conservation(dead.drop_last());
    }
}

/// Bit of the action mask set while resting.
pub const ACTION_RESTING: u32 = 1;

/// Bit of the action mask set while eating.
pub const ACTION_EATING: u32 = 2;

/// Bit of the action mask set while sprinting.
pub const ACTION_SPRINTING: u32 = 4;

/// Bit of the action mask set on an attack attempt.
pub const ACTION_ATTACKING: u32 = 8;

/// Bit of the action mask set while drinking.
pub const ACTION_DRINKING: u32 = 16;

/// Bit of the feelings mask set when thirsty.
pub const FEELING_THIRSTY: u32 = 1;

/// Bit of the feelings mask set when hungry.
pub const FEELING_HUNGRY: u32 = 2;

/// Bit of the feelings mask set when fatigued.
pub const FEELING_FATIGUED: u32 = 4;

/// Bit of the feelings mask set when restless.
pub const FEELING_RESTLESS: u32 = 8;

pub open spec fn bit_if(b: bool, bit: u32) -> u32 {
    if b {
        bit
    } else {
        0
    }
}

/// Mask with one bit per flag that holds, in the order of the bits 1, 2, 4, 8, 16.
pub open spec fn mask5(a: bool, b: bool, c: bool, d: bool, e: bool) -> u32 {
    (bit_if(a, 1) + bit_if(b, 2) + bit_if(c, 4) + bit_if(d, 8) + bit_if(e, 16)) as u32
}

fn bit(b: bool, v: u32) -> (r: u32)
    ensures
        r == bit_if(b, v),
{
    if b {
        v
    } else {
        0
    }
}

/// Action mask of one tick from the behaviors that occurred in it.
pub fn actions_mask(resting: bool, eating: bool, sprinting: bool, attacking: bool, drinking: bool) -> (r: u32)
    ensures
        r == mask5(resting, eating, sprinting, attacking, drinking),
        (r & ACTION_RESTING != 0) == resting,
        (r & ACTION_EATING != 0) == eating,
        (r & ACTION_SPRINTING != 0) == sprinting,
        (r & ACTION_ATTACKING != 0) == attacking,
        (r & ACTION_DRINKING != 0) == drinking,
        r < 32,
{
    let r = bit(resting, ACTION_RESTING) + bit(eating, ACTION_EATING) + bit(sprinting, ACTION_SPRINTING)
        + bit(attacking, ACTION_ATTACKING) + bit(drinking, ACTION_DRINKING);
    proof {
        lemma_mask5_bits(resting, eating, sprinting, attacking, drinking);
    }
    r
}

/// Feelings mask of one tick from the feelings that hold at its end.
pub fn feelings_mask(thirsty: bool, hungry: bool, fatigued: bool, restless: bool) -> (r: u32)
    ensures
        r == mask5(thirsty, hungry, fatigued, restless, false),
        (r & FEELING_THIRSTY != 0) == thirsty,
        (r & FEELING_HUNGRY != 0) == hungry,
        (r & FEELING_FATIGUED != 0) == fatigued,
        (r & FEELING_RESTLESS != 0) == restless,
        r < 16,
{
    let r = bit(thirsty, FEELING_THIRSTY) + bit(hungry, FEELING_HUNGRY) + bit(fatigued, FEELING_FATIGUED)
        + bit(restless, FEELING_RESTLESS);
    proof {
        lemma_mask5_bits(thirsty, hungry, fatigued, restless, false);
    }
    r
}

proof fn lemma_mask5_bits(a: bool, b: bool, c: bool, d: bool, e: bool)
    ensures
        mask5(a, b, c, d, e) < 32,
        (mask5(a, b, c, d, e) & 1 != 0) == a,
        (mask5(a, b, c, d, e) & 2 != 0) == b,
        (mask5(a, b, c, d, e) & 4 != 0) == c,
        (mask5(a, b, c, d, e) & 8 != 0) == d,
        (mask5(a, b, c, d, e) & 16 != 0) == e,
        !e ==> mask5(a, b, c, d, e) < 16,
{
    let m = mask5(a, b, c, d, e);
    let x: u32 = bit_if(a, 1);
    let y: u32 = bit_if(b, 2);
    let z: u32 = bit_if(c, 4);
    let w: u32 = bit_if(d, 8);
    let v: u32 = bit_if(e, 16);
    assert(m == x | y | z | w | v) by (bit_vector)
        requires
            m == (x + y + z + w + v) as u32,
            x == 0 || x == 1,
            y == 0 || y == 2,
            z == 0 || z == 4,
            w == 0 || w == 8,
            v == 0 || v == 16,
    ;
    assert((x | y | z | w | v) & 1 == x && (x | y | z | w | v) & 2 == y && (x | y | z | w | v) & 4
        == z && (x | y | z | w | v) & 8 == w && (x | y | z | w | v) & 16 == v) by (bit_vector)
        requires
            x == 0 || x == 1,
            y == 0 || y == 2,
            z == 0 || z == 4,
            w == 0 || w == 8,
            v == 0 || v == 16,
    ;
}

/// Stagnant-tick counter after a tick: one more (saturating) when the
/// creature moved slower than the movement threshold, zero otherwise.
pub fn next_stagnant_ticks(count: u32, below_movement_threshold: bool) -> (r: u32)
    ensures
        below_movement_threshold ==> r == if count == u32::MAX {
            count
        } else {
            (count + 1) as u32
        },
        !below_movement_threshold ==> r == 0,
{
    if below_movement_threshold {
        count.saturating_add(1)
    } else {
        0
    }
}

/// Whether a creature with `count` stagnant ticks is restless.
pub fn is_restless(count: u32, limit: u32) -> (r: bool)
    ensures
        r == (count >= limit),
{
    count >= limit
}

/// Age after one more tick, saturating at the largest value.
pub fn next_age(age: u32) -> (r: u32)
    ensures
        r == if age == u32::MAX {
            age
        } else {
            (age + 1) as u32
        },
{
    age.saturating_add(1)
}

/// Number of offspring born from a pregnancy announcing `pending`: at least one.
pub fn litter_size(pending: u32) -> (r: u32)
    ensures
        r == if pending == 0 {
            1
        } else {
            pending
        },
{
    if pending == 0 {
        1
    } else {
        pending
    }
}

} // verus!

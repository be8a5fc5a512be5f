use vstd::prelude::*;

verus! {

/// Number of partitions a pool is split into at initialization.
pub const PARTITION_COUNT: usize = 10;

/// The sum of a sequence of balances.
pub open spec fn sum64(s: Seq<u64>) -> int
    decreases s.len(),
{
    if s.len() == 0 {
        0
    } else {
        sum64(s.drop_last()) + s.last()
    }
}

/// A sum of balances is never negative.
pub proof fn lemma_sum64_nonneg(s: Seq<u64>)
    ensures
        0 <= sum64(s),
    decreases s.len(),
{
    if s.len() > 0 {
        lemma_sum64_nonneg(s.drop_last());
    }
}

/// Extending a prefix by one element adds that element to its sum.
pub proof fn lemma_sum64_take_snoc(s: Seq<u64>, i: int)
    requires
        0 <= i < s.len(),
    ensures
        sum64(s.take(i + 1)) == sum64(s.take(i)) + s[i],
{
    assert(s.take(i + 1).drop_last() =~= s.take(i));
    assert(s.take(i + 1).last() == s[i]);
}

/// A prefix sum never exceeds the whole sum.
pub proof fn lemma_sum64_take_le(s: Seq<u64>, i: int)
    requires
        0 <= i <= s.len(),
    ensures
        sum64(s.take(i)) <= sum64(s),
    decreases s.len() - i,
{
    if i == s.len() {
        assert(s.take(i) =~= s);
    } else {
        lemma_sum64_take_snoc(s, i);
        lemma_sum64_take_le(s, i + 1);
    }
}

/// Replacing one element moves the sum by the difference.
pub proof fn lemma_sum64_update(s: Seq<u64>, i: int, v: u64)
    requires
        0 <= i < s.len(),
    ensures
        sum64(s.update(i, v)) == sum64(s) - s[i] + v,
    decreases s.len(),
{
    if i == s.len() - 1 {
        assert(s.update(i, v).drop_last() =~= s.drop_last());
    } else {
        assert(s.update(i, v).drop_last() =~= s.drop_last().update(i, v));
        lemma_sum64_update(s.drop_last(), i, v);
    }
}

/// Appending an element adds it to the sum.
pub proof fn lemma_sum64_push(s: Seq<u64>, e: u64)
    ensures
        sum64(s.push(e)) == sum64(s) + e,
{
    assert(s.push(e).drop_last() =~= s);
    assert(s.push(e).last() == e);
}

/// Each element is at most the whole sum.
pub proof fn lemma_sum64_elem_le(s: Seq<u64>, i: int)
    requires
        0 <= i < s.len(),
    ensures
        s[i] <= sum64(s),
    decreases s.len(),
{
    if i == s.len() - 1 {
        lemma_sum64_nonneg(s.drop_last());
    } else {
        lemma_sum64_elem_le(s.drop_last(), i);
    }
}

/// The partitioned reward pool for one token: ten funding buckets
/// (`vault_amounts`, the capacity that pays rewards) and the principal
/// currently staked against each (`vault_amounts_staked`), with the accrual
/// parameters and the staker gauges.
pub struct Vault {
    /// Identity of the staked token, as its 32-byte address.
    pub token: Vec<u8>,
    /// Funding reserve of each partition; only decreases after initialization.
    pub vault_amounts: Vec<u64>,
    /// Principal currently staked in each partition.
    pub vault_amounts_staked: Vec<u64>,
    /// Total funding at initialization; immutable for the pool's life.
    pub start_pool: u64,
    /// Accrual rate in thousandths of a percent-point per period.
    pub base_rate: u32,
    /// Hours in one accrual period.
    pub base_hour: u32,
    /// Count of depositors that ever became active; never decreases.
    pub total_stakers: u64,
    /// Count of currently active depositors.
    pub current_stakers: u64,
}

impl Vault {
    /// Structural invariant: fixed partition count, a 32-byte token address,
    /// capacities that never sum above the initial funding (so every fill
    /// ratio is at most one), and a total staked that stays representable.
    pub open spec fn wf(self) -> bool {
        &&& self.vault_amounts@.len() == PARTITION_COUNT
        &&& self.vault_amounts_staked@.len() == PARTITION_COUNT
        &&& self.token@.len() == 32
        &&& sum64(self.vault_amounts@) <= self.start_pool
        &&& sum64(self.vault_amounts_staked@) <= u64::MAX
    }

    /// A fresh, uninitialized pool for the given token: all balances zero.
    pub fn new(token: Vec<u8>) -> (r: Vault)
        requires
            token@.len() == 32,
        ensures
            r.wf(),
            r.token@ == token@,
            r.vault_amounts@ =~= Seq::<u64>::new(PARTITION_COUNT as nat, |i: int| 0u64),
            r.vault_amounts_staked@ =~= Seq::<u64>::new(PARTITION_COUNT as nat, |i: int| 0u64),
            sum64(r.vault_amounts@) == 0,
            sum64(r.vault_amounts_staked@) == 0,
            r.start_pool == 0,
            r.base_rate == 0,
            r.base_hour == 0,
            r.total_stakers == 0,
            r.current_stakers == 0,
    {
        let mut amounts: Vec<u64> = Vec::new();
        let mut staked: Vec<u64> = Vec::new();
        let mut i: usize = 0;
        while i < PARTITION_COUNT
            invariant
                i <= PARTITION_COUNT,
                amounts@.len() == i,
                staked@.len() == i,
                forall|j: int| 0 <= j < i ==> amounts@[j] == 0u64 && staked@[j] == 0u64,
            decreases PARTITION_COUNT - i,
        {
            amounts.push(0);
            staked.push(0);
            i = i + 1;
        }
        proof {
            lemma_sum_all_zero(amounts@);
            lemma_sum_all_zero(staked@);
        }
        Vault {
            token,
            vault_amounts: amounts,
            vault_amounts_staked: staked,
            start_pool: 0,
            base_rate: 0,
            base_hour: 0,
            total_stakers: 0,
            current_stakers: 0,
        }
    }

    /// Sum of all partition capacities: the funding still able to pay rewards.
    pub fn total_amount(&self) -> (r: u64)
        requires
            self.wf(),
        ensures
            r == sum64(self.vault_amounts@),
    {
        sum_vec(&self.vault_amounts)
    }

    /// Sum of all partition staked balances.
    pub fn total_staked(&self) -> (r: u64)
        requires
            self.wf(),
        ensures
            r == sum64(self.vault_amounts_staked@),
    {
        sum_vec(&self.vault_amounts_staked)
    }

    /// The partition with the least staked principal, lowest index on ties:
    /// where a new deposit balances load best.
    pub fn get_vault_index_for_deposit(&self) -> (r: usize)
        requires
            self.wf(),
        ensures
            r < PARTITION_COUNT,
            forall|j: int| 0 <= j < PARTITION_COUNT
                ==> self.vault_amounts_staked@[r as int] <= self.vault_amounts_staked@[j],
            forall|j: int| 0 <= j < r
                ==> self.vault_amounts_staked@[j] > self.vault_amounts_staked@[r as int],
    {
        let mut best: usize = 0;
        let mut i: usize = 1;
        while i < PARTITION_COUNT
            invariant
                self.wf(),
                best < i <= PARTITION_COUNT,
                forall|j: int| 0 <= j < i
                    ==> self.vault_amounts_staked@[best as int] <= self.vault_amounts_staked@[j],
                forall|j: int| 0 <= j < best
                    ==> self.vault_amounts_staked@[j] > self.vault_amounts_staked@[best as int],
            decreases PARTITION_COUNT - i,
        {
            if self.vault_amounts_staked[i] < self.vault_amounts_staked[best] {
                best = i;
            }
            i = i + 1;
        }
        best
    }

    /// The first partition whose capacity can fund `required_amount`,
    /// or `None` when no partition can.
    pub fn get_vault_index_for_withdrawal(&self, required_amount: u64) -> (r: Option<usize>)
        requires
            self.wf(),
        ensures
            match r {
                Some(i) => {
                    &&& i < PARTITION_COUNT
                    &&& self.vault_amounts@[i as int] >= required_amount
                    &&& forall|j: int| 0 <= j < i ==> self.vault_amounts@[j] < required_amount
                },
                None => forall|j: int|
                    0 <= j < PARTITION_COUNT ==> self.vault_amounts@[j] < required_amount,
            },
    {
        let mut i: usize = 0;
        while i < PARTITION_COUNT
            invariant
                self.wf(),
                i <= PARTITION_COUNT,
                forall|j: int| 0 <= j < i ==> self.vault_amounts@[j] < required_amount,
            decreases PARTITION_COUNT - i,
        {
            if self.vault_amounts[i] >= required_amount {
                return Some(i);
            }
            i = i + 1;
        }
        None
    }
}

/// A sequence of zeros sums to zero.
proof fn lemma_sum_all_zero(s: Seq<u64>)
    requires
        forall|j: int| 0 <= j < s.len() ==> s[j] == 0u64,
    ensures
        sum64(s) == 0,
    decreases s.len(),
{
    if s.len() > 0 {
        lemma_sum_all_zero(s.drop_last());
    }
}

/// Sums a vector of balances whose total fits in a `u64`.
fn sum_vec(v: &Vec<u64>) -> (r: u64)
    requires
        sum64(v@) <= u64::MAX,
    ensures
        r == sum64(v@),
{
    let mut acc: u64 = 0;
    let mut i: usize = 0;
    proof {
        assert(v@.take(0) =~= Seq::<u64>::empty());
    }
    while i < v.len()
        invariant
            i <= v@.len(),
            sum64(v@) <= u64::MAX,
            acc == sum64(v@.take(i as int)),
        decreases v@.len() - i,
    {
        proof {
            lemma_sum64_take_snoc(v@, i as int);
            lemma_sum64_take_le(v@, i as int + 1);
            lemma_sum64_nonneg(v@.take(i as int));
        }
        acc = acc + v[i];
        i = i + 1;
    }
    proof {
        assert(v@.take(v@.len() as int) =~= v@);
    }
    acc
}

/// Copies a byte vector.
pub(crate) fn copy_bytes(v: &Vec<u8>) -> (r: Vec<u8>)
    ensures
        r@ == v@,
{
    let mut out: Vec<u8> = Vec::new();
    let mut i: usize = 0;
    while i < v.len()
        invariant
            i <= v@.len(),
            out@ =~= v@.take(i as int),
        decreases v@.len() - i,
    {
        out.push(v[i]);
        i = i + 1;
    }
    proof {
        assert(v@.take(v@.len() as int) =~= v@);
    }
    out
}

/// Copies a vector of balances.
pub(crate) fn copy_u64s(v: &Vec<u64>) -> (r: Vec<u64>)
    ensures
        r@ == v@,
{
    let mut out: Vec<u64> = Vec::new();
    let mut i: usize = 0;
    while i < v.len()
        invariant
            i <= v@.len(),
            out@ =~= v@.take(i as int),
        decreases v@.len() - i,
    {
        out.push(v[i]);
        i = i + 1;
    }
    proof {
        assert(v@.take(v@.len() as int) =~= v@);
    }
    out
}

/// A read-only snapshot of a pool: every partition balance, the totals,
/// the accrual parameters and the staker gauges.
pub struct VaultInfo {
    pub token: Vec<u8>,
    pub vault_amounts: Vec<u64>,
    pub vault_amounts_staked: Vec<u64>,
    pub total_amount: u64,
    pub total_staked: u64,
    pub start_pool: u64,
    pub base_rate: u32,
    pub base_hour: u32,
    pub total_stakers: u64,
    pub current_stakers: u64,
}

} // verus!

use vstd::prelude::*;
use crate::errors::PapayaError;

verus! {

/// Number of concurrent stake slots a depositor may hold per token.
pub const SLOT_COUNT: usize = 5;

/// How many of the first `n` slots hold an active stake (nonzero principal).
pub open spec fn active_below(principals: Seq<u64>, n: int) -> int
    decreases n,
{
    if n <= 0 {
        0
    } else {
        active_below(principals, n - 1) + if principals[n - 1] > 0 { 1int } else { 0int }
    }
}

/// How many slots of a full record hold an active stake.
pub open spec fn spec_active_count(principals: Seq<u64>) -> int {
    active_below(principals, SLOT_COUNT as int)
}

/// Per-depositor, per-token record of stake slots. A slot is active exactly
/// when its principal is nonzero; an active slot remembers when it was opened,
/// when rewards were last claimed, and which partition holds its principal.
pub struct UserInteractions {
    /// Principal per slot; zero marks an empty slot.
    pub total_deposits: Vec<u64>,
    /// Timestamp at which each active slot was opened.
    pub time_deposits: Vec<u64>,
    /// Timestamp from which each active slot's reward clock runs.
    pub stake_deposits: Vec<u64>,
    /// Partition assigned to each active slot.
    pub vault_indices: Vec<u8>,
}

impl UserInteractions {
    /// Structural invariant: the fixed slot count in every column.
    pub open spec fn wf(self) -> bool {
        &&& self.total_deposits@.len() == SLOT_COUNT
        &&& self.time_deposits@.len() == SLOT_COUNT
        &&& self.stake_deposits@.len() == SLOT_COUNT
        &&& self.vault_indices@.len() == SLOT_COUNT
    }

    /// A record with every slot empty.
    pub fn new() -> (r: UserInteractions)
        ensures
            r.wf(),
            forall|j: int| 0 <= j < SLOT_COUNT ==> r.total_deposits@[j] == 0u64,
            forall|j: int| 0 <= j < SLOT_COUNT ==> r.time_deposits@[j] == 0u64,
            forall|j: int| 0 <= j < SLOT_COUNT ==> r.stake_deposits@[j] == 0u64,
            forall|j: int| 0 <= j < SLOT_COUNT ==> r.vault_indices@[j] == 0u8,
    {
        let mut principals: Vec<u64> = Vec::new();
        let mut opened: Vec<u64> = Vec::new();
        let mut claimed: Vec<u64> = Vec::new();
        let mut partitions: Vec<u8> = Vec::new();
        let mut i: usize = 0;
        while i < SLOT_COUNT
            invariant
                i <= SLOT_COUNT,
                principals@.len() == i,
                opened@.len() == i,
                claimed@.len() == i,
                partitions@.len() == i,
                forall|j: int| 0 <= j < i ==> principals@[j] == 0u64,
                forall|j: int| 0 <= j < i ==> opened@[j] == 0u64,
                forall|j: int| 0 <= j < i ==> claimed@[j] == 0u64,
                forall|j: int| 0 <= j < i ==> partitions@[j] == 0u8,
            decreases SLOT_COUNT - i,
        {
            principals.push(0);
            opened.push(0);
            claimed.push(0);
            partitions.push(0);
            i = i + 1;
        }
        UserInteractions {
            total_deposits: principals,
            time_deposits: opened,
            stake_deposits: claimed,
            vault_indices: partitions,
        }
    }

    /// How many slots currently hold an active stake.
    pub fn active_slots(&self) -> (r: u64)
        requires
            self.wf(),
        ensures
            r == spec_active_count(self.total_deposits@),
    {
        let mut count: u64 = 0;
        let mut i: usize = 0;
        while i < SLOT_COUNT
            invariant
                self.wf(),
                i <= SLOT_COUNT,
                count == active_below(self.total_deposits@, i as int),
                count <= i,
            decreases SLOT_COUNT - i,
        {
            if self.total_deposits[i] > 0 {
                count = count + 1;
            }
            i = i + 1;
        }
        count
    }

    /// Opens an empty slot with a fresh stake: the principal, both clocks set
    /// to `now`, and the assigned partition. Fails `AlreadyStaked`, changing
    /// nothing, when the slot already holds an active stake.
    pub fn open_slot(&mut self, slot: usize, amount: u64, partition: u8, now: u64) -> (r: Result<(), PapayaError>)
        requires
            old(self).wf(),
            slot < SLOT_COUNT,
        ensures
            final(self).wf(),
            match r {
                Ok(()) => {
                    &&& old(self).total_deposits@[slot as int] == 0
                    &&& final(self).total_deposits@ == old(self).total_deposits@.update(slot as int, amount)
                    &&& final(self).time_deposits@ == old(self).time_deposits@.update(slot as int, now)
                    &&& final(self).stake_deposits@ == old(self).stake_deposits@.update(slot as int, now)
                    &&& final(self).vault_indices@ == old(self).vault_indices@.update(slot as int, partition)
                },
                Err(e) => {
                    &&& e == PapayaError::AlreadyStaked
                    &&& old(self).total_deposits@[slot as int] != 0
                    &&& *final(self) == *old(self)
                },
            },
    {
        if self.total_deposits[slot] != 0 {
            return Err(PapayaError::AlreadyStaked);
        }
        self.total_deposits.set(slot, amount);
        self.time_deposits.set(slot, now);
        self.stake_deposits.set(slot, now);
        self.vault_indices.set(slot, partition);
        Ok(())
    }

    /// Zeroes every field of a slot: the full-withdraw path.
    pub fn close_slot(&mut self, slot: usize)
        requires
            old(self).wf(),
            slot < SLOT_COUNT,
        ensures
            final(self).wf(),
            final(self).total_deposits@ == old(self).total_deposits@.update(slot as int, 0u64),
            final(self).time_deposits@ == old(self).time_deposits@.update(slot as int, 0u64),
            final(self).stake_deposits@ == old(self).stake_deposits@.update(slot as int, 0u64),
            final(self).vault_indices@ == old(self).vault_indices@.update(slot as int, 0u8),
    {
        self.total_deposits.set(slot, 0);
        self.time_deposits.set(slot, 0);
        self.stake_deposits.set(slot, 0);
        self.vault_indices.set(slot, 0);
    }

    /// Restarts a slot's reward clock at `now`, keeping the principal:
    /// the reward-only claim path.
    pub fn touch_slot(&mut self, slot: usize, now: u64)
        requires
            old(self).wf(),
            slot < SLOT_COUNT,
        ensures
            final(self).wf(),
            final(self).total_deposits@ == old(self).total_deposits@,
            final(self).time_deposits@ == old(self).time_deposits@,
            final(self).stake_deposits@ == old(self).stake_deposits@.update(slot as int, now),
            final(self).vault_indices@ == old(self).vault_indices@,
    {
        self.stake_deposits.set(slot, now);
    }
}

} // verus!

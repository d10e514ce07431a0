//! The bookkeeping of a bounded pool of connections.
//!
//! The pool decides; it holds no connection. A caller asks for a slot, opens
//! or reuses the connection that goes with the slot's index, and gives the
//! slot back. Times are milliseconds on a clock of the caller's choice.

use vstd::prelude::*;

verus! {

/// The pool's tuning.
#[derive(Clone, Copy, Debug)]
pub struct PoolConfig {
    /// The most slots that may be live at once.
    pub max_size: u32,
    /// How many idle slots the pool tries to keep ready.
    pub min_idle: Option<u32>,
    /// How long an acquisition may wait for a slot.
    pub connection_timeout: u64,
    /// How long a slot may stay unused.
    pub idle_timeout: Option<u64>,
    /// How old a slot may become.
    pub max_lifetime: Option<u64>,
}

/// One slot of the pool.
#[derive(Clone, Copy, Debug)]
pub enum Slot {
    /// No connection goes with the slot.
    Vacant,
    /// The slot's connection is ready for use.
    Idle { created: u64, last_used: u64 },
    /// One caller owns the slot.
    Out { created: u64 },
}

/// The answer to an acquisition.
#[derive(Clone, Copy, Debug, PartialEq, Eq, Structural)]
pub enum Acquire {
    /// The caller owns this slot; its connection is there.
    Reuse(usize),
    /// The caller owns this slot and has to open its connection.
    Create(usize),
    /// Every slot is checked out; the caller may wait this long for one.
    Wait(u64),
    /// Every slot is checked out and the timeout has run out.
    Exhausted,
}

/// What became of a slot that was given back.
#[derive(Clone, Copy, Debug, PartialEq, Eq, Structural)]
pub enum Release {
    /// The slot is idle again.
    Returned,
    /// The slot was too old: it is vacant, and its connection is to be closed.
    Discarded,
    /// The slot was not checked out; nothing changed.
    NotCheckedOut,
}

/// The pool's bookkeeping: its tuning and the state of each slot.
#[derive(Debug)]
pub struct Pool {
    config: PoolConfig,
    slots: Vec<Slot>,
}

pub struct PoolView {
    pub config: PoolConfig,
    pub slots: Seq<Slot>,
}

impl View for Pool {
    type V = PoolView;

    closed spec fn view(&self) -> PoolView {
        PoolView { config: self.config, slots: self.slots@ }
    }
}

/// The time from `since` to `now`; nothing where the clock went back.
pub open spec fn elapsed(since: u64, now: u64) -> nat {
    if now >= since {
        (now - since) as nat
    } else {
        0
    }
}

/// Whether a duration is over a limit. No limit is never exceeded.
pub open spec fn exceeds(duration: nat, limit: Option<u64>) -> bool {
    match limit {
        Some(l) => duration > l,
        None => false,
    }
}

/// An idle slot that has to go: it is older than the lifetime allows, or was
/// unused for longer than the idle timeout allows.
pub open spec fn expired(slot: Slot, now: u64, config: PoolConfig) -> bool {
    match slot {
        Slot::Idle { created, last_used } => exceeds(elapsed(created, now), config.max_lifetime)
            || exceeds(elapsed(last_used, now), config.idle_timeout),
        _ => false,
    }
}

/// An idle slot that may be handed out.
pub open spec fn reusable(slot: Slot, now: u64, config: PoolConfig) -> bool {
    slot is Idle && !expired(slot, now, config)
}

/// A slot in which a new connection may be opened: a vacant one, or an idle
/// one that has expired and is replaced.
pub open spec fn free(slot: Slot, now: u64, config: PoolConfig) -> bool {
    slot is Vacant || expired(slot, now, config)
}

/// When the slot's connection was opened.
pub open spec fn created_at(slot: Slot) -> u64 {
    match slot {
        Slot::Vacant => 0,
        Slot::Idle { created, last_used } => created,
        Slot::Out { created } => created,
    }
}

/// The least index at which `flags` holds `true`.
pub open spec fn first_true(flags: Seq<bool>) -> Option<int>
    decreases flags.len(),
{
    if flags.len() == 0 {
        None
    } else if flags[0] {
        Some(0)
    } else {
        match first_true(flags.skip(1)) {
            Some(i) => Some(i + 1),
            None => None,
        }
    }
}

/// How often `flags` holds `true`.
pub open spec fn count_true(flags: Seq<bool>) -> nat
    decreases flags.len(),
{
    if flags.len() == 0 {
        0
    } else {
        count_true(flags.drop_last()) + if flags.last() {
            1nat
        } else {
            0nat
        }
    }
}

pub open spec fn reusable_flags(slots: Seq<Slot>, now: u64, config: PoolConfig) -> Seq<bool> {
    slots.map_values(|s: Slot| reusable(s, now, config))
}

pub open spec fn free_flags(slots: Seq<Slot>, now: u64, config: PoolConfig) -> Seq<bool> {
    slots.map_values(|s: Slot| free(s, now, config))
}

pub open spec fn idle_flags(slots: Seq<Slot>) -> Seq<bool> {
    slots.map_values(|s: Slot| s is Idle)
}

pub open spec fn out_flags(slots: Seq<Slot>) -> Seq<bool> {
    slots.map_values(|s: Slot| s is Out)
}

/// The indices of the expired slots, in rising order.
pub open spec fn expired_indices(slots: Seq<Slot>, now: u64, config: PoolConfig) -> Seq<usize>
    decreases slots.len(),
{
    if slots.len() == 0 {
        Seq::empty()
    } else if expired(slots.last(), now, config) {
        expired_indices(slots.drop_last(), now, config).push((slots.len() - 1) as usize)
    } else {
        expired_indices(slots.drop_last(), now, config)
    }
}

impl PoolView {
    /// No more slots than the pool may hold.
    pub open spec fn wf(self) -> bool {
        self.slots.len() <= self.config.max_size
    }

    pub open spec fn idle_count(self) -> nat {
        count_true(idle_flags(self.slots))
    }

    pub open spec fn checked_out_count(self) -> nat {
        count_true(out_flags(self.slots))
    }

    pub open spec fn with_slot(self, i: int, slot: Slot) -> PoolView {
        PoolView { config: self.config, slots: self.slots.update(i, slot) }
    }

    /// The pool after a slot was set aside for a new connection, and the
    /// slot's index: the first free slot, or a further slot where none is
    /// free and the pool may still grow. `None` where every slot is in use.
    pub open spec fn reserved(self, now: u64) -> Option<(PoolView, int)> {
        match first_true(free_flags(self.slots, now, self.config)) {
            Some(i) => Some((self.with_slot(i, Slot::Out { created: now }), i)),
            None => if self.slots.len() < self.config.max_size {
                Some(
                    (
                        PoolView {
                            config: self.config,
                            slots: self.slots.push(Slot::Out { created: now }),
                        },
                        self.slots.len() as int,
                    ),
                )
            } else {
                None
            },
        }
    }

    /// The pool after an acquisition at time `now` by a caller who has waited
    /// for `waited` so far, and the answer.
    ///
    /// The first idle slot that has not expired is handed out. Where there is
    /// none, a slot is set aside for a new connection. Where every slot is
    /// checked out, the caller waits, and is refused once it has waited for
    /// the connection timeout.
    pub open spec fn acquired(self, now: u64, waited: u64) -> (PoolView, Acquire) {
        match first_true(reusable_flags(self.slots, now, self.config)) {
            Some(i) => (
                self.with_slot(i, Slot::Out { created: created_at(self.slots[i]) }),
                Acquire::Reuse(i as usize),
            ),
            None => match self.reserved(now) {
                Some((pool, i)) => (pool, Acquire::Create(i as usize)),
                None => if waited >= self.config.connection_timeout {
                    (self, Acquire::Exhausted)
                } else {
                    (self, Acquire::Wait((self.config.connection_timeout - waited) as u64))
                },
            },
        }
    }

    /// The pool after slot `i` was given back at time `now`, and what became
    /// of the slot: idle again with `now` as its time of last use, or vacant
    /// where it is older than the lifetime allows.
    pub open spec fn released(self, i: usize, now: u64) -> (PoolView, Release) {
        if i < self.slots.len() && self.slots[i as int] is Out {
            let created = created_at(self.slots[i as int]);
            if exceeds(elapsed(created, now), self.config.max_lifetime) {
                (self.with_slot(i as int, Slot::Vacant), Release::Discarded)
            } else {
                (
                    self.with_slot(i as int, Slot::Idle { created, last_used: now }),
                    Release::Returned,
                )
            }
        } else {
            (self, Release::NotCheckedOut)
        }
    }

    /// The pool after the checked-out slot `i` was dropped, and whether it
    /// was checked out.
    pub open spec fn discarded(self, i: usize) -> (PoolView, bool) {
        if i < self.slots.len() && self.slots[i as int] is Out {
            (self.with_slot(i as int, Slot::Vacant), true)
        } else {
            (self, false)
        }
    }

    /// The pool after every expired slot was made vacant.
    pub open spec fn reaped(self, now: u64) -> PoolView {
        PoolView {
            config: self.config,
            slots: self.slots.map_values(
                |s: Slot|
                    if expired(s, now, self.config) {
                        Slot::Vacant
                    } else {
                        s
                    },
            ),
        }
    }

    /// How many slots can be handed out at once at time `now`.
    pub open spec fn ready_count(self, now: u64) -> nat {
        count_true(reusable_flags(self.slots, now, self.config))
    }

    /// The pool after it was asked to keep its idle slots ready, and the slot
    /// that it set aside: one, where fewer slots are ready than `min_idle`
    /// asks for and the pool has room.
    pub open spec fn replenished(self, now: u64) -> (PoolView, Option<usize>) {
        match self.config.min_idle {
            Some(wanted) => if self.ready_count(now) < wanted {
                match self.reserved(now) {
                    Some((pool, i)) => (pool, Some(i as usize)),
                    None => (self, None),
                }
            } else {
                (self, None)
            },
            None => (self, None),
        }
    }
}

/// `first_true` names the least index that holds `true`, and is `None` only
/// where none does.
pub proof fn lemma_first_true(flags: Seq<bool>)
    ensures
        match first_true(flags) {
            Some(i) => 0 <= i < flags.len() && flags[i] && forall|j: int| 0 <= j < i ==> !flags[j],
            None => forall|j: int| 0 <= j < flags.len() ==> !flags[j],
        },
    decreases flags.len(),
{
    if flags.len() > 0 && !flags[0] {
        let rest = flags.skip(1);
        lemma_first_true(rest);
        match first_true(rest) {
            Some(i) => {
                assert forall|j: int| 0 <= j < i + 1 implies !flags[j] by {
                    if j > 0 {
                        assert(flags[j] == rest[j - 1]);
                    }
                }
            },
            None => {
                assert forall|j: int| 0 <= j < flags.len() implies !flags[j] by {
                    if j > 0 {
                        assert(flags[j] == rest[j - 1]);
                    }
                }
            },
        }
    }
}

/// No more flags are `true` than there are flags.
pub proof fn lemma_count_true_bound(flags: Seq<bool>)
    ensures
        count_true(flags) <= flags.len(),
    decreases flags.len(),
{
    if flags.len() > 0 {
        lemma_count_true_bound(flags.drop_last());
    }
}

/// Changing one flag changes the count by that flag alone.
pub proof fn lemma_count_true_update(flags: Seq<bool>, i: int, value: bool)
    requires
        0 <= i < flags.len(),
    ensures
        count_true(flags.update(i, value)) + (if flags[i] {
            1nat
        } else {
            0nat
        }) == count_true(flags) + (if value {
            1nat
        } else {
            0nat
        }),
    decreases flags.len(),
{
    let changed = flags.update(i, value);
    if i == flags.len() - 1 {
        assert(changed.drop_last() =~= flags.drop_last());
    } else {
        lemma_count_true_update(flags.drop_last(), i, value);
        assert(changed.drop_last() =~= flags.drop_last().update(i, value));
    }
}

/// Every flag counts exactly where every flag is `true`.
pub proof fn lemma_count_true_all(flags: Seq<bool>)
    ensures
        count_true(flags) == flags.len() <==> forall|j: int| 0 <= j < flags.len() ==> flags[j],
    decreases flags.len(),
{
    if flags.len() > 0 {
        let front = flags.drop_last();
        lemma_count_true_all(front);
        lemma_count_true_bound(front);
        if count_true(flags) == flags.len() {
            assert forall|j: int| 0 <= j < flags.len() implies flags[j] by {
                if j < front.len() {
                    assert(flags[j] == front[j]);
                }
            }
        }
    }
}

/// Two families of flags of which no two hold at one index count, together,
/// no more than there are indices.
pub proof fn lemma_count_true_disjoint(a: Seq<bool>, b: Seq<bool>)
    requires
        a.len() == b.len(),
        forall|j: int| 0 <= j < a.len() ==> !(a[j] && b[j]),
    ensures
        count_true(a) + count_true(b) <= a.len(),
    decreases a.len(),
{
    if a.len() > 0 {
        lemma_count_true_disjoint(a.drop_last(), b.drop_last());
    }
}

/// Whether the time from `since` to `now` is over `limit`.
pub fn over(since: u64, now: u64, limit: Option<u64>) -> (r: bool)
    ensures
        r == exceeds(elapsed(since, now), limit),
{
    match limit {
        Some(l) => now >= since && now - since > l,
        None => false,
    }
}

/// Whether an idle slot has to go at time `now`.
pub fn is_expired(slot: Slot, now: u64, config: &PoolConfig) -> (r: bool)
    ensures
        r == expired(slot, now, *config),
{
    match slot {
        Slot::Idle { created, last_used } => over(created, now, config.max_lifetime) || over(
            last_used,
            now,
            config.idle_timeout,
        ),
        _ => false,
    }
}

impl PoolConfig {
    /// The tuning of the service's pool: at most 15 slots, 2 of them kept
    /// ready, 15 s to wait for a slot, 10 min of idleness and 30 min of
    /// lifetime for a slot.
    pub fn standard() -> (c: PoolConfig)
        ensures
            c.max_size == 15,
            c.min_idle == Some(2u32),
            c.connection_timeout == 15_000,
            c.idle_timeout == Some(600_000u64),
            c.max_lifetime == Some(1_800_000u64),
    {
        PoolConfig {
            max_size: 15,
            min_idle: Some(2),
            connection_timeout: 15_000,
            idle_timeout: Some(600_000),
            max_lifetime: Some(1_800_000),
        }
    }
}

impl Pool {
    #[verifier::type_invariant]
    spec fn within_capacity(self) -> bool {
        self.slots@.len() <= self.config.max_size
    }

    /// A pool without slots.
    pub fn new(config: PoolConfig) -> (pool: Pool)
        ensures
            pool@ == (PoolView { config, slots: Seq::empty() }),
            pool@.wf(),
    {
        Pool { config, slots: Vec::new() }
    }

    /// The pool's tuning.
    pub fn config(&self) -> (c: PoolConfig)
        ensures
            c == self@.config,
    {
        self.config
    }

    /// How many slots are checked out.
    pub fn checked_out(&self) -> (n: usize)
        ensures
            n == self@.checked_out_count(),
            n <= self@.config.max_size,
            self@.wf(),
    {
        proof {
            use_type_invariant(self);
        }
        let ghost flags = out_flags(self.slots@);
        let mut n: usize = 0;
        let mut i: usize = 0;
        while i < self.slots.len()
            invariant
                i <= self.slots.len(),
                flags == out_flags(self.slots@),
                n == count_true(flags.take(i as int)),
                n <= i,
            decreases self.slots.len() - i,
        {
            assert(flags.take(i + 1).drop_last() =~= flags.take(i as int));
            if let Slot::Out { created } = self.slots[i] {
                n += 1;
            }
            i += 1;
        }
        assert(flags.take(i as int) =~= flags);
        n
    }

    /// How many slots are idle.
    pub fn idle(&self) -> (n: usize)
        ensures
            n == self@.idle_count(),
            n <= self@.config.max_size,
            self@.wf(),
    {
        proof {
            use_type_invariant(self);
        }
        let ghost flags = idle_flags(self.slots@);
        let mut n: usize = 0;
        let mut i: usize = 0;
        while i < self.slots.len()
            invariant
                i <= self.slots.len(),
                flags == idle_flags(self.slots@),
                n == count_true(flags.take(i as int)),
                n <= i,
            decreases self.slots.len() - i,
        {
            assert(flags.take(i + 1).drop_last() =~= flags.take(i as int));
            if let Slot::Idle { created, last_used } = self.slots[i] {
                n += 1;
            }
            i += 1;
        }
        assert(flags.take(i as int) =~= flags);
        n
    }

    /// How many slots can be handed out at once at time `now`.
    pub fn ready(&self, now: u64) -> (n: usize)
        ensures
            n == self@.ready_count(now),
    {
        let ghost flags = reusable_flags(self.slots@, now, self.config);
        let mut n: usize = 0;
        let mut i: usize = 0;
        while i < self.slots.len()
            invariant
                i <= self.slots.len(),
                flags == reusable_flags(self.slots@, now, self.config),
                n == count_true(flags.take(i as int)),
                n <= i,
            decreases self.slots.len() - i,
        {
            assert(flags.take(i + 1).drop_last() =~= flags.take(i as int));
            let slot = self.slots[i];
            if let Slot::Idle { created, last_used } = slot {
                if !is_expired(slot, now, &self.config) {
                    n += 1;
                }
            }
            i += 1;
        }
        assert(flags.take(i as int) =~= flags);
        n
    }

    fn put(&mut self, i: usize, slot: Slot)
        requires
            i < old(self).slots@.len(),
        ensures
            final(self).slots@ == old(self).slots@.update(i as int, slot),
            final(self).config == old(self).config,
    {
        proof {
            use_type_invariant(&*self);
        }
        let mut slots: Vec<Slot> = Vec::new();
        core::mem::swap(&mut self.slots, &mut slots);
        slots.set(i, slot);
        core::mem::swap(&mut self.slots, &mut slots);
    }

    fn grow(&mut self, slot: Slot)
        requires
            old(self).slots@.len() < old(self).config.max_size,
        ensures
            final(self).slots@ == old(self).slots@.push(slot),
            final(self).config == old(self).config,
    {
        let mut slots: Vec<Slot> = Vec::new();
        core::mem::swap(&mut self.slots, &mut slots);
        slots.push(slot);
        core::mem::swap(&mut self.slots, &mut slots);
    }

    fn reserve(&mut self, now: u64) -> (r: Option<usize>)
        ensures
            match old(self)@.reserved(now) {
                Some((pool, i)) => r == Some(i as usize) && final(self)@ == pool,
                None => r is None && final(self)@ == old(self)@,
            },
            final(self)@.config == old(self)@.config,
    {
        proof {
            use_type_invariant(&*self);
        }
        let ghost flags = free_flags(self.slots@, now, self.config);
        let n: usize = self.slots.len();
        let mut i: usize = 0;
        while i < n
            invariant
                n == self.slots.len(),
                i <= n,
                self.slots@ == old(self).slots@,
                self.config == old(self).config,
                flags == free_flags(self.slots@, now, self.config),
                forall|k: int| 0 <= k < i ==> !flags[k],
            decreases n - i,
        {
            let slot = self.slots[i];
            let is_free: bool = match slot {
                Slot::Vacant => true,
                Slot::Idle { created, last_used } => is_expired(slot, now, &self.config),
                Slot::Out { created } => false,
            };
            if is_free {
                proof {
                    lemma_first_true(flags);
                    assert(flags[i as int]);
                }
                self.put(i, Slot::Out { created: now });
                return Some(i);
            }
            i += 1;
        }
        proof {
            lemma_first_true(flags);
        }
        if n < self.config.max_size as usize {
            self.grow(Slot::Out { created: now });
            Some(n)
        } else {
            None
        }
    }

    /// Asks for a slot at time `now`, for a caller who has waited for `waited`
    /// so far.
    ///
    /// The caller owns the slot that `Reuse` or `Create` names until it gives
    /// the slot back. After `Wait` nothing has changed, and the caller asks
    /// again when a slot was given back or the time has passed.
    pub fn acquire(&mut self, now: u64, waited: u64) -> (r: Acquire)
        ensures
            final(self)@ == old(self)@.acquired(now, waited).0,
            r == old(self)@.acquired(now, waited).1,
            final(self)@.wf(),
    {
        proof {
            use_type_invariant(&*self);
        }
        let ghost flags = reusable_flags(self.slots@, now, self.config);
        let n: usize = self.slots.len();
        let mut i: usize = 0;
        while i < n
            invariant
                n == self.slots.len(),
                i <= n,
                self.slots@ == old(self).slots@,
                self.config == old(self).config,
                n <= self.config.max_size,
                flags == reusable_flags(self.slots@, now, self.config),
                forall|k: int| 0 <= k < i ==> !flags[k],
            decreases n - i,
        {
            let slot = self.slots[i];
            if let Slot::Idle { created, last_used } = slot {
                if !is_expired(slot, now, &self.config) {
                    proof {
                        lemma_first_true(flags);
                        assert(flags[i as int]);
                    }
                    self.put(i, Slot::Out { created });
                    return Acquire::Reuse(i);
                }
            }
            i += 1;
        }
        proof {
            lemma_first_true(flags);
        }
        match self.reserve(now) {
            Some(i) => {
                proof {
                    use_type_invariant(&*self);
                }
                Acquire::Create(i)
            },
            None => {
                if waited >= self.config.connection_timeout {
                    Acquire::Exhausted
                } else {
                    Acquire::Wait(self.config.connection_timeout - waited)
                }
            },
        }
    }

    /// Gives slot `i` back at time `now`.
    pub fn release(&mut self, i: usize, now: u64) -> (r: Release)
        ensures
            final(self)@ == old(self)@.released(i, now).0,
            r == old(self)@.released(i, now).1,
            final(self)@.wf(),
    {
        proof {
            use_type_invariant(&*self);
        }
        if i >= self.slots.len() {
            return Release::NotCheckedOut;
        }
        match self.slots[i] {
            Slot::Out { created } => {
                if over(created, now, self.config.max_lifetime) {
                    self.put(i, Slot::Vacant);
                    Release::Discarded
                } else {
                    self.put(i, Slot::Idle { created, last_used: now });
                    Release::Returned
                }
            },
            _ => Release::NotCheckedOut,
        }
    }

    /// Drops the checked-out slot `i`: its connection could not be opened, or
    /// is of no use any more. The slot is vacant afterwards.
    pub fn discard(&mut self, i: usize) -> (dropped: bool)
        ensures
            final(self)@ == old(self)@.discarded(i).0,
            dropped == old(self)@.discarded(i).1,
            final(self)@.wf(),
    {
        proof {
            use_type_invariant(&*self);
        }
        if i >= self.slots.len() {
            return false;
        }
        match self.slots[i] {
            Slot::Out { created } => {
                self.put(i, Slot::Vacant);
                true
            },
            _ => false,
        }
    }

    /// Evicts every expired slot and names them, so that their connections
    /// can be closed.
    pub fn reap(&mut self, now: u64) -> (evicted: Vec<usize>)
        ensures
            final(self)@ == old(self)@.reaped(now),
            evicted@ == expired_indices(old(self)@.slots, now, old(self)@.config),
            final(self)@.wf(),
    {
        proof {
            use_type_invariant(&*self);
        }
        let ghost before = self.slots@;
        let mut evicted: Vec<usize> = Vec::new();
        let n: usize = self.slots.len();
        let mut i: usize = 0;
        while i < n
            invariant
                n == self.slots.len(),
                n == before.len(),
                n <= self.config.max_size,
                i <= n,
                before == old(self).slots@,
                self.config == old(self).config,
                forall|k: int|
                    0 <= k < i ==> self.slots@[k] == if expired(before[k], now, self.config) {
                        Slot::Vacant
                    } else {
                        before[k]
                    },
                forall|k: int| i <= k < n ==> self.slots@[k] == before[k],
                evicted@ == expired_indices(before.take(i as int), now, self.config),
            decreases n - i,
        {
            assert(before.take(i + 1).drop_last() =~= before.take(i as int));
            let slot = self.slots[i];
            if is_expired(slot, now, &self.config) {
                self.put(i, Slot::Vacant);
                evicted.push(i);
            }
            i += 1;
        }
        assert(before.take(i as int) =~= before);
        assert(self@.slots =~= old(self)@.reaped(now).slots);
        evicted
    }

    /// Sets a slot aside for a connection to be kept ready, where fewer are
    /// ready than `min_idle` asks for and the pool has room. The caller opens
    /// the connection and gives the slot back, or drops the slot.
    pub fn replenish(&mut self, now: u64) -> (r: Option<usize>)
        ensures
            final(self)@ == old(self)@.replenished(now).0,
            r == old(self)@.replenished(now).1,
            final(self)@.wf(),
    {
        proof {
            use_type_invariant(&*self);
        }
        match self.config.min_idle {
            Some(wanted) => {
                if self.ready(now) < wanted as usize {
                    let r = self.reserve(now);
                    proof {
                        use_type_invariant(&*self);
                    }
                    r
                } else {
                    None
                }
            },
            None => None,
        }
    }
}

/// The service's pool, with its standard tuning and no slot yet.
pub fn init_pool() -> (pool: Pool)
    ensures
        pool@.slots == Seq::<Slot>::empty(),
        pool@.config.max_size == 15,
        pool@.config.min_idle == Some(2u32),
        pool@.config.connection_timeout == 15_000,
        pool@.config.idle_timeout == Some(600_000u64),
        pool@.config.max_lifetime == Some(1_800_000u64),
        pool@.wf(),
{
    Pool::new(PoolConfig::standard())
}

/// Asks the pool for a connection: the slot to use, or how long to wait, or
/// that the wait is over.
pub fn get_connection(pool: &mut Pool, now: u64, waited: u64) -> (r: Acquire)
    ensures
        final(pool)@ == old(pool)@.acquired(now, waited).0,
        r == old(pool)@.acquired(now, waited).1,
        final(pool)@.wf(),
{
    pool.acquire(now, waited)
}

/// At any instant the idle and the checked-out slots together are no more
/// than `max_size`; so neither are the checked-out slots alone.
pub proof fn law_capacity(pool: PoolView)
    requires
        pool.wf(),
    ensures
        pool.idle_count() + pool.checked_out_count() <= pool.config.max_size,
        pool.checked_out_count() <= pool.config.max_size,
{
    lemma_count_true_disjoint(idle_flags(pool.slots), out_flags(pool.slots));
}

/// Every operation leaves the pool within its capacity.
pub proof fn law_operations_keep_capacity(pool: PoolView, i: usize, now: u64, waited: u64)
    requires
        pool.wf(),
    ensures
        pool.acquired(now, waited).0.wf(),
        pool.released(i, now).0.wf(),
        pool.discarded(i).0.wf(),
        pool.reaped(now).wf(),
        pool.replenished(now).0.wf(),
{
    lemma_first_true(reusable_flags(pool.slots, now, pool.config));
    lemma_first_true(free_flags(pool.slots, now, pool.config));
}

/// Where every slot is checked out, an acquisition that has waited for the
/// connection timeout is refused, and the pool is as it was.
pub proof fn law_exhausted_when_full(pool: PoolView, now: u64, waited: u64)
    requires
        pool.wf(),
        pool.checked_out_count() == pool.config.max_size,
        waited >= pool.config.connection_timeout,
    ensures
        pool.acquired(now, waited).1 == Acquire::Exhausted,
        pool.acquired(now, waited).0 == pool,
{
    lemma_all_checked_out(pool);
    lemma_first_true(reusable_flags(pool.slots, now, pool.config));
    lemma_first_true(free_flags(pool.slots, now, pool.config));
}

/// Where every slot is checked out, an acquisition that has not yet waited
/// for the connection timeout is told to wait for the rest of it.
pub proof fn law_wait_when_full(pool: PoolView, now: u64, waited: u64)
    requires
        pool.wf(),
        pool.checked_out_count() == pool.config.max_size,
        waited < pool.config.connection_timeout,
    ensures
        pool.acquired(now, waited).1 == Acquire::Wait(
            (pool.config.connection_timeout - waited) as u64,
        ),
        pool.acquired(now, waited).0 == pool,
{
    lemma_all_checked_out(pool);
    lemma_first_true(reusable_flags(pool.slots, now, pool.config));
    lemma_first_true(free_flags(pool.slots, now, pool.config));
}

/// An acquisition gets a slot as long as not every slot is checked out.
pub proof fn law_slot_unless_full(pool: PoolView, now: u64, waited: u64)
    requires
        pool.wf(),
        pool.checked_out_count() < pool.config.max_size,
    ensures
        pool.acquired(now, waited).1 is Reuse || pool.acquired(now, waited).1 is Create,
{
    let reusable = reusable_flags(pool.slots, now, pool.config);
    let free = free_flags(pool.slots, now, pool.config);
    let out = out_flags(pool.slots);
    lemma_first_true(reusable);
    lemma_first_true(free);
    if first_true(reusable) is None && first_true(free) is None && pool.slots.len()
        == pool.config.max_size {
        assert forall|j: int| 0 <= j < out.len() implies out[j] by {
            assert(!reusable[j]);
            assert(!free[j]);
        }
        lemma_count_true_all(out);
    }
}

/// The slot that an acquisition hands out for reuse was idle, is no older
/// than the lifetime allows, and was not unused for longer than the idle
/// timeout allows.
pub proof fn law_reused_slot_is_fresh(pool: PoolView, now: u64, waited: u64, i: usize)
    requires
        pool.wf(),
        pool.acquired(now, waited).1 == Acquire::Reuse(i),
    ensures
        i < pool.slots.len(),
        pool.slots[i as int] matches Slot::Idle { created, last_used } && !exceeds(
            elapsed(created, now),
            pool.config.max_lifetime,
        ) && !exceeds(elapsed(last_used, now), pool.config.idle_timeout),
{
    lemma_first_true(reusable_flags(pool.slots, now, pool.config));
}

/// A slot that is older than the lifetime allows when it is given back is
/// discarded, and no later acquisition hands it out for reuse.
pub proof fn law_over_age_slot_never_returns(
    pool: PoolView,
    i: usize,
    released_at: u64,
    now: u64,
    waited: u64,
)
    requires
        pool.wf(),
        i < pool.slots.len(),
        pool.slots[i as int] is Out,
        exceeds(elapsed(created_at(pool.slots[i as int]), released_at), pool.config.max_lifetime),
    ensures
        pool.released(i, released_at).1 == Release::Discarded,
        pool.released(i, released_at).0.slots[i as int] is Vacant,
        pool.released(i, released_at).0.acquired(now, waited).1 != Acquire::Reuse(i),
{
    let after = pool.released(i, released_at).0;
    lemma_first_true(reusable_flags(after.slots, now, after.config));
}

/// The slot that an acquisition hands out was not checked out before and is
/// checked out after, and every other slot is as it was: a checked-out slot
/// has one owner.
pub proof fn law_one_owner(pool: PoolView, now: u64, waited: u64, i: usize)
    requires
        pool.wf(),
        pool.acquired(now, waited).1 == Acquire::Reuse(i) || pool.acquired(now, waited).1
            == Acquire::Create(i),
    ensures
        i < pool.slots.len() ==> !(pool.slots[i as int] is Out),
        i <= pool.slots.len(),
        i < pool.acquired(now, waited).0.slots.len(),
        pool.acquired(now, waited).0.slots[i as int] is Out,
        forall|j: int|
            0 <= j < pool.slots.len() && j != i ==> pool.acquired(now, waited).0.slots[j]
                == pool.slots[j],
        pool.acquired(now, waited).0.checked_out_count() == pool.checked_out_count() + 1,
{
    let reusable = reusable_flags(pool.slots, now, pool.config);
    let free = free_flags(pool.slots, now, pool.config);
    let out = out_flags(pool.slots);
    let after = pool.acquired(now, waited).0;
    lemma_first_true(reusable);
    lemma_first_true(free);
    if i < pool.slots.len() {
        lemma_count_true_update(out, i as int, true);
        assert(out_flags(after.slots) =~= out.update(i as int, true));
    } else {
        assert(out_flags(after.slots) =~= out.push(true));
        assert(out.push(true).drop_last() =~= out);
    }
}

/// Giving a slot back frees it: the checked-out slots are one fewer.
pub proof fn law_release_frees(pool: PoolView, i: usize, now: u64)
    requires
        pool.wf(),
        i < pool.slots.len(),
        pool.slots[i as int] is Out,
    ensures
        pool.released(i, now).0.checked_out_count() + 1 == pool.checked_out_count(),
        pool.discarded(i).0.checked_out_count() + 1 == pool.checked_out_count(),
{
    let out = out_flags(pool.slots);
    lemma_count_true_update(out, i as int, false);
    assert(out_flags(pool.released(i, now).0.slots) =~= out.update(i as int, false));
    assert(out_flags(pool.discarded(i).0.slots) =~= out.update(i as int, false));
}

proof fn lemma_all_checked_out(pool: PoolView)
    requires
        pool.wf(),
        pool.checked_out_count() == pool.config.max_size,
    ensures
        pool.slots.len() == pool.config.max_size,
        forall|j: int| 0 <= j < pool.slots.len() ==> pool.slots[j] is Out,
{
    let out = out_flags(pool.slots);
    lemma_count_true_bound(out);
    lemma_count_true_all(out);
    assert forall|j: int| 0 <= j < pool.slots.len() implies pool.slots[j] is Out by {
        assert(out[j]);
    }
}

} // verus!

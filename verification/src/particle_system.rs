//! The particle system: a pool of slots, the queue of the slots that are
//! free, and the update that spawns, ages and retires particles.

use crate::particle::instance_size;
use crate::particle::Particle;
use crate::particle::ParticleInstance;
use crate::particle::PARTICLE_DRAWS;
use crate::random::advance;
use crate::random::clamp;
use crate::random::lemma_advance_add;
use crate::random::Randf32;
use crate::random::DEFAULT_SEED;
use crate::ParticleSystemBounds;
use crate::ParticleSystemDescriptor;
use crate::delta::duration_millis;
use crate::error::BrumousError;
use crate::error::BrumousResult;
use crate::living::back_to_front;
use crate::living::drawing_order;
use crate::living::Living;
use std::collections::VecDeque;
use std::time::Duration;
use vstd::prelude::*;

verus! {

/// The largest pool: a draw counts its instances in 32 bits.
pub const MAX_PARTICLES: usize = 0xffff_ffff;

/// The slots `0 .. n`, in ascending order.
pub open spec fn slots(n: nat) -> Seq<usize> {
    Seq::new(n, |i: int| i as usize)
}

/// The slots `from .. to`, in ascending order.
pub open spec fn slot_range(from: int, to: int) -> Seq<usize> {
    Seq::new((to - from) as nat, |i: int| (from + i) as usize)
}

/// Whether each item of `s` is below the one that follows it.
pub open spec fn ascending(s: Seq<usize>) -> bool {
    forall|i: int, j: int| 0 <= i < j < s.len() ==> s[i] < s[j]
}

/// What is left of the lifetime `life` once `delta` has passed, held to the
/// 64-bit range.
pub open spec fn aged_life(life: i64, delta: u64) -> i64 {
    clamp(life - delta)
}

/// The particle `p` once `delta` has passed: it is older, and it is queued
/// if it was, or if it is dead now.
pub open spec fn aged(p: Particle, delta: u64) -> Particle {
    Particle { life: aged_life(p.life, delta), queued: p.queued || aged_life(p.life, delta) <= 0, ..p }
}

/// The time of `millis` milliseconds as a fixed-point number of seconds, held
/// to 64 bits.
pub open spec fn millis_delta(millis: u128) -> u64 {
    if millis * 1000 > u64::MAX {
        u64::MAX
    } else {
        (millis * 1000) as u64
    }
}

/// The records of a frame for a pool of `max` slots: the records of the live
/// particles, and a record of zeros for each slot that is left.
pub open spec fn frame_records(living: Seq<ParticleInstance>, max: nat) -> Seq<ParticleInstance> {
    Seq::new(
        max,
        |i: int|
            if i < living.len() {
                living[i]
            } else {
                ParticleInstance::spec_empty()
            },
    )
}

/// The record of the particle of a slot, where `records` holds one for each
/// slot; the record of zeros for a slot that it does not reach.
pub open spec fn record_of(records: Seq<ParticleInstance>, slot: usize) -> ParticleInstance {
    if slot < records.len() {
        records[slot as int]
    } else {
        ParticleInstance::spec_empty()
    }
}

/// The records of the particles of `order`, in its order.
pub open spec fn drawn_records(order: Seq<Living>, records: Seq<ParticleInstance>) -> Seq<
    ParticleInstance,
> {
    Seq::new(order.len(), |i: int| record_of(records, order[i].slot))
}

/// A particle system as the contracts see it.
pub struct SystemState {
    /// The pool, by slot.
    pub particles: Seq<Particle>,
    /// The free slots, the one that is used next first.
    pub queue: Seq<usize>,
    pub rate: usize,
    pub position: [i64; 3],
    pub name: Seq<char>,
    /// For how long the system goes on spawning.
    pub life: i64,
    pub bounds: ParticleSystemBounds,
    /// The state of the generator.
    pub rand: u64,
}

impl SystemState {
    /// The number of slots.
    pub open spec fn max(self) -> nat {
        self.particles.len()
    }

    /// What holds of a system between any two calls: the pool is no larger
    /// than `MAX_PARTICLES`; the queue names slots of the pool, none of them
    /// twice; a slot is in the queue exactly if its particle is marked
    /// queued; and a queued particle is dead.
    pub open spec fn wf(self) -> bool {
        &&& self.max() <= MAX_PARTICLES
        &&& self.queue.no_duplicates()
        &&& forall|k: int| 0 <= k < self.queue.len() ==> (#[trigger] self.queue[k]) < self.max()
        &&& forall|i: int|
            0 <= i < self.max() ==> ((#[trigger] self.particles[i]).queued <==> self.queue.contains(
                i as usize,
            ))
        &&& forall|i: int|
            0 <= i < self.max() ==> ((#[trigger] self.particles[i]).queued ==> !self.particles[i].alive())
    }

    /// Whether every dead particle is queued, so that every slot is either
    /// alive or free.  It holds of a new system and after every update; a
    /// particle that was spawned dead is dead and not yet queued until the
    /// next update.
    pub open spec fn settled(self) -> bool {
        forall|i: int|
            0 <= i < self.max() ==> (!(#[trigger] self.particles[i]).alive() ==> self.particles[i].queued)
    }

    /// The system that is made from `desc` with a generator in the state
    /// `rand`: every slot unused and free.
    pub open spec fn initial(desc: ParticleSystemDescriptor, rand: u64) -> SystemState {
        SystemState {
            particles: Seq::new(desc.max as nat, |i: int| Particle::unused()),
            queue: slots(desc.max as nat),
            rate: desc.rate,
            position: desc.pos,
            name: desc.name@,
            life: desc.life,
            bounds: desc.bounds,
            rand,
        }
    }

    /// The number of live particles.
    pub open spec fn live_count(self) -> nat {
        self.live_slots().len()
    }

    /// The slots of the live particles, in ascending order.
    pub open spec fn live_slots(self) -> Seq<usize> {
        slots(self.max()).filter(self.is_live())
    }

    /// Whether the particle of a slot is alive.
    pub open spec fn is_live(self) -> spec_fn(usize) -> bool {
        |i: usize| self.particles[i as int].alive()
    }

    /// Whether the particle of a slot is not yet queued and will be dead
    /// once `delta` has passed.
    pub open spec fn expires(self, delta: u64) -> spec_fn(usize) -> bool {
        |i: usize| !self.particles[i as int].queued && aged_life(self.particles[i as int].life, delta) <= 0
    }

    /// The number of particles that an update spawns: the system's rate, or
    /// the number of free slots if that is less; none once the system's own
    /// lifetime is below zero.
    pub open spec fn spawn_count(self) -> nat {
        if self.life < 0 {
            0
        } else if self.rate <= self.queue.len() {
            self.rate as nat
        } else {
            self.queue.len()
        }
    }

    /// The number of particles that are due with an update by the system's
    /// rate and find no free slot.
    pub open spec fn spawn_shortfall(self) -> usize {
        if self.life < 0 {
            0
        } else {
            (self.rate - self.spawn_count()) as usize
        }
    }

    /// What an update by `delta` reports: the slots at the head of the
    /// queue that it spawns into, the slots whose particles are alive after
    /// it, and the number of particles that it cannot spawn.
    pub open spec fn frame(self, delta: u64) -> FrameView {
        FrameView {
            spawned: self.queue.take(self.spawn_count() as int),
            living: self.after_update(delta).live_slots(),
            skipped: self.spawn_shortfall(),
        }
    }

    /// Whether `spawned` can be the slots that an update spawns into: no more
    /// than the system's rate, no slot twice, and each a slot of the pool
    /// whose particle is dead.
    pub open spec fn spawned_into(self, spawned: Seq<usize>) -> bool {
        &&& spawned.len() <= self.rate
        &&& spawned.no_duplicates()
        &&& forall|k: int|
            0 <= k < spawned.len() ==> (#[trigger] spawned[k]) < self.max() && !self.particles[spawned[k] as int].alive()
    }

    /// The `k`-th particle that the system spawns next, counted from zero.
    pub open spec fn spawn(self, k: int) -> Particle {
        Particle::sampled(advance(self.rand, (PARTICLE_DRAWS * k) as nat), self.bounds, self.position)
    }

    /// The system once it has spawned `n` particles: they stand in the first
    /// `n` slots of the queue, in the queue's order, and those slots have left
    /// the queue.
    pub open spec fn after_spawn(self, n: nat) -> SystemState {
        let taken = self.queue.take(n as int);
        SystemState {
            particles: Seq::new(
                self.max(),
                |i: int|
                    if taken.contains(i as usize) {
                        self.spawn(taken.index_of(i as usize))
                    } else {
                        self.particles[i]
                    },
            ),
            queue: self.queue.skip(n as int),
            rand: advance(self.rand, (PARTICLE_DRAWS * n) as nat),
            ..self
        }
    }

    /// The system once `delta` has passed: the system and every particle are
    /// older, and the slots whose particles died join the queue, in ascending
    /// order.
    pub open spec fn after_aging(self, delta: u64) -> SystemState {
        SystemState {
            particles: Seq::new(self.max(), |i: int| aged(self.particles[i], delta)),
            queue: self.queue + slots(self.max()).filter(self.expires(delta)),
            life: aged_life(self.life, delta),
            ..self
        }
    }

    /// The system after an update by `delta`: it spawns, then ages.
    pub open spec fn after_update(self, delta: u64) -> SystemState {
        self.after_spawn(self.spawn_count()).after_aging(delta)
    }

    /// The system after one update for each item of `deltas`, in their order.
    pub open spec fn after_updates(self, deltas: Seq<u64>) -> SystemState
        decreases deltas.len(),
    {
        if deltas.len() == 0 {
            self
        } else {
            self.after_updates(deltas.drop_last()).after_update(deltas.last())
        }
    }

    /// Whether the particle of a slot is dead, and alive after an update by
    /// `delta`.
    pub open spec fn revives(self, delta: u64) -> spec_fn(usize) -> bool {
        |i: usize| !self.particles[i as int].alive() && self.after_update(delta).particles[i as int].alive()
    }

    /// Whether a slot is below `new_max`.
    pub open spec fn fits(new_max: usize) -> spec_fn(usize) -> bool {
        |i: usize| i < new_max
    }

    /// The system with its pool resized to `new_max` slots.  A larger pool
    /// keeps every particle, and the new slots, unused, join the queue in
    /// ascending order.  A smaller pool keeps the particles of the slots that
    /// are left, and the queue loses the slots that are gone.
    pub open spec fn resized(self, new_max: usize) -> SystemState {
        if new_max >= self.max() {
            SystemState {
                particles: self.particles + Seq::new(
                    (new_max - self.max()) as nat,
                    |i: int| Particle::unused(),
                ),
                queue: self.queue + slot_range(self.max() as int, new_max as int),
                ..self
            }
        } else {
            SystemState {
                particles: self.particles.take(new_max as int),
                queue: self.queue.filter(Self::fits(new_max)),
                ..self
            }
        }
    }
}

/// What a filter keeps of a sequence of slots: the slots of which the
/// predicate holds, no more often than they stood in it, and in their order.
pub proof fn lemma_filter_slots(s: Seq<usize>, pred: spec_fn(usize) -> bool)
    ensures
        forall|x: usize| #[trigger] s.filter(pred).contains(x) <==> s.contains(x) && pred(x),
        s.filter(pred).len() <= s.len(),
        s.no_duplicates() ==> s.filter(pred).no_duplicates(),
        ascending(s) ==> ascending(s.filter(pred)),
    decreases s.len(),
{
    reveal(Seq::filter);
    if s.len() > 0 {
        let front = s.drop_last();
        let last = s.last();
        lemma_filter_slots(front, pred);
        let kept = front.filter(pred);
        let out = s.filter(pred);
        assert(out == if pred(last) {
            kept.push(last)
        } else {
            kept
        });
        assert forall|x: usize| #[trigger] out.contains(x) <==> s.contains(x) && pred(x) by {
            if out.contains(x) {
                let j = choose|j: int| 0 <= j < out.len() && out[j] == x;
                if j < kept.len() {
                    assert(kept.contains(x));
                    let i = choose|i: int| 0 <= i < front.len() && front[i] == x;
                    assert(s[i] == x);
                } else {
                    assert(x == last);
                    assert(s[s.len() - 1] == x);
                }
            }
            if s.contains(x) && pred(x) {
                let i = choose|i: int| 0 <= i < s.len() && s[i] == x;
                if i < front.len() {
                    assert(front[i] == x);
                    assert(kept.contains(x));
                    let j = choose|j: int| 0 <= j < kept.len() && kept[j] == x;
                    assert(out[j] == x);
                } else {
                    assert(out[out.len() - 1] == x);
                }
            }
        }
        if s.no_duplicates() {
            assert(front.no_duplicates());
            if pred(last) {
                assert forall|i: int, j: int|
                    0 <= i < out.len() && 0 <= j < out.len() && i != j implies out[i] != out[j] by {
                    if i < kept.len() && j == kept.len() {
                        assert(kept.contains(out[i]));
                        let a = choose|a: int| 0 <= a < front.len() && front[a] == out[i];
                        assert(s[a] == out[i]);
                    }
                    if j < kept.len() && i == kept.len() {
                        assert(kept.contains(out[j]));
                        let a = choose|a: int| 0 <= a < front.len() && front[a] == out[j];
                        assert(s[a] == out[j]);
                    }
                }
            }
        }
        if ascending(s) {
            assert(ascending(front));
            if pred(last) {
                assert forall|i: int, j: int| 0 <= i < j < out.len() implies out[i] < out[j] by {
                    if j == kept.len() {
                        assert(kept.contains(out[i]));
                        let a = choose|a: int| 0 <= a < front.len() && front[a] == out[i];
                        assert(s[a] < s[s.len() - 1]);
                    }
                }
            }
        }
    }
}

/// The slots `0 .. n` are ascending, and hold each slot below `n`.
pub proof fn lemma_slots(n: nat)
    requires
        n <= usize::MAX,
    ensures
        ascending(slots(n)),
        slots(n).no_duplicates(),
        forall|x: usize| #[trigger] slots(n).contains(x) <==> x < n,
{
    assert forall|x: usize| #[trigger] slots(n).contains(x) <==> x < n by {
        if x < n {
            assert(slots(n)[x as int] == x);
        }
    }
}

/// What an update did: the slots that it spawned into, the slots whose
/// particles are alive after it, and the number of particles that it could
/// not spawn because the pool was full.
pub struct Frame {
    /// The slots that got a new particle, in the order in which they were
    /// spawned.  Such a particle may have died within the same update.
    pub spawned: Vec<usize>,
    /// The slots whose particles are alive after the update, in ascending
    /// order.
    pub living: Vec<usize>,
    /// The number of particles that were due by the system's rate and found
    /// no free slot.
    pub skipped: usize,
}

/// A frame as the contracts see it.
pub struct FrameView {
    pub spawned: Seq<usize>,
    pub living: Seq<usize>,
    pub skipped: usize,
}

impl View for Frame {
    type V = FrameView;

    open spec fn view(&self) -> FrameView {
        FrameView { spawned: self.spawned@, living: self.living@, skipped: self.skipped }
    }
}

/// A particle system.
pub struct ParticleSystem {
    particles: Vec<Particle>,
    spawnqueue: VecDeque<usize>,
    rate: usize,
    position: [i64; 3],
    name: String,
    life: i64,
    bounds: ParticleSystemBounds,
    rand: Randf32,
}

impl View for ParticleSystem {
    type V = SystemState;

    closed spec fn view(&self) -> SystemState {
        SystemState {
            particles: self.particles@,
            queue: self.spawnqueue@,
            rate: self.rate,
            position: self.position,
            name: self.name@,
            life: self.life,
            bounds: self.bounds,
            rand: self.rand@,
        }
    }
}

/// What is left of the lifetime `life` once `delta` has passed.
fn age(life: i64, delta: u64) -> (r: i64)
    ensures
        r == aged_life(life, delta),
{
    let x: i128 = life as i128 - delta as i128;
    if x < -0x8000_0000_0000_0000 {
        -0x8000_0000_0000_0000
    } else {
        x as i64
    }
}

impl ParticleSystem {
    /// Makes the system that `sys_desc` describes, every slot of its pool
    /// unused and free, with a generator of its own that starts from the
    /// default seed.  A pool of more than `MAX_PARTICLES` slots is refused.
    pub fn new(sys_desc: &ParticleSystemDescriptor) -> (r: BrumousResult<Self>)
        ensures
            match r {
                Ok(sys) => sys_desc.max <= MAX_PARTICLES && sys@ == SystemState::initial(*sys_desc, DEFAULT_SEED)
                    && sys@.wf() && sys@.settled(),
                Err(e) => sys_desc.max > MAX_PARTICLES && e == BrumousError::TooManyParticles(
                    sys_desc.max,
                ),
            },
    {
        Self::with_rand(sys_desc, Randf32::new())
    }

    /// Makes the system that `sys_desc` describes, every slot of its pool
    /// unused and free, with `rand` as its generator.  A pool of more than
    /// `MAX_PARTICLES` slots is refused.
    pub fn with_rand(sys_desc: &ParticleSystemDescriptor, rand: Randf32) -> (r: BrumousResult<Self>)
        ensures
            match r {
                Ok(sys) => sys_desc.max <= MAX_PARTICLES && sys@ == SystemState::initial(*sys_desc, rand@)
                    && sys@.wf() && sys@.settled(),
                Err(e) => sys_desc.max > MAX_PARTICLES && e == BrumousError::TooManyParticles(
                    sys_desc.max,
                ),
            },
    {
        if sys_desc.max > MAX_PARTICLES {
            return Err(BrumousError::TooManyParticles(sys_desc.max));
        }
        let mut particles: Vec<Particle> = Vec::new();
        let mut spawnqueue: VecDeque<usize> = VecDeque::new();
        let mut i: usize = 0;
        while i < sys_desc.max
            invariant
                i <= sys_desc.max,
                particles@ == Seq::new(i as nat, |j: int| Particle::unused()),
                spawnqueue@ == slots(i as nat),
            decreases sys_desc.max - i,
        {
            particles.push(Particle::default());
            spawnqueue.push_back(i);
            i += 1;
            assert(particles@ =~= Seq::new(i as nat, |j: int| Particle::unused()));
            assert(spawnqueue@ =~= slots(i as nat));
        }
        let sys = Self {
            particles,
            spawnqueue,
            rate: sys_desc.rate,
            position: sys_desc.pos,
            name: sys_desc.name.to_owned(),
            life: sys_desc.life,
            bounds: sys_desc.bounds,
            rand,
        };
        proof {
            lemma_slots(sys_desc.max as nat);
        }
        Ok(sys)
    }

    /// Spawns up to `rate` particles, as many as there are free slots, into
    /// the slots at the head of the queue, and returns those slots in the
    /// order in which they were used.  No slot is used twice, each held a
    /// dead particle, and no live particle is touched.
    pub fn respawn_particles(&mut self, rate: usize) -> (spawned: Vec<usize>)
        requires
            old(self)@.wf(),
        ensures
            spawned@.len() == if rate <= old(self)@.queue.len() {
                rate as nat
            } else {
                old(self)@.queue.len()
            },
            final(self)@ == old(self)@.after_spawn(spawned@.len()),
            final(self)@.wf(),
            spawned@ == old(self)@.queue.take(spawned@.len() as int),
            spawned@.no_duplicates(),
            forall|k: int|
                0 <= k < spawned@.len() ==> (#[trigger] spawned@[k]) < old(self)@.max() && !old(
                    self,
                )@.particles[spawned@[k] as int].alive(),
            forall|i: int|
                0 <= i < old(self)@.max() && old(self)@.particles[i].alive() ==> (
                #[trigger] final(self)@.particles[i]) == old(self)@.particles[i],
    {
        let ghost start = self@;
        proof {
            let n: nat = if rate <= start.queue.len() {
                rate as nat
            } else {
                start.queue.len()
            };
            lemma_spawn_slots(start, n);
        }
        let mut spawned: Vec<usize> = Vec::new();
        proof {
            assert(self@.particles =~= start.after_spawn(0).particles);
            assert(self@.queue =~= start.after_spawn(0).queue);
        }
        let mut k: usize = 0;
        while k < rate
            invariant
                k <= rate,
                start.wf(),
                k <= start.queue.len(),
                spawned@.len() == k,
                self@ == start.after_spawn(k as nat),
                spawned@ == start.queue.take(k as int),
            ensures
                k == rate || k == start.queue.len(),
            decreases rate - k,
        {
            match self.spawnqueue.pop_front() {
                Some(idx) => {
                    assert(idx == start.queue[k as int]);
                    let ghost before = self.rand@;
                    let p = Particle::new(&mut self.rand, &self.bounds, &self.position);
                    self.particles.set(idx, p);
                    spawned.push(idx);
                    proof {
                        lemma_advance_add(start.rand, (PARTICLE_DRAWS * k) as nat, PARTICLE_DRAWS as nat);
                        let taken = start.queue.take(k as int);
                        let more = start.queue.take(k + 1);
                        let next = start.after_spawn((k + 1) as nat);
                        assert(more =~= taken.push(idx));
                        assert(p == start.spawn(k as int));
                        assert forall|i: int| 0 <= i < start.max() implies self@.particles[i]
                            == next.particles[i] by {
                            if i == idx {
                                assert(more[k as int] == idx);
                                assert(more.contains(i as usize));
                                let c = more.index_of(i as usize);
                                assert(start.queue[c] == start.queue[k as int]);
                            } else if taken.contains(i as usize) {
                                let c = taken.index_of(i as usize);
                                assert(more[c] == i as usize);
                                let d = more.index_of(i as usize);
                                assert(start.queue[c] == start.queue[d]);
                            } else {
                                if more.contains(i as usize) {
                                    let d = more.index_of(i as usize);
                                    assert(d < k);
                                    assert(taken[d] == i as usize);
                                }
                            }
                        }
                        assert(self@.particles =~= next.particles);
                        assert(self@.queue =~= next.queue);
                        assert(spawned@ =~= more);
                    }
                    k += 1;
                },
                None => {
                    break ;
                },
            }
        }
        spawned
    }

    /// Spawns new particles and ages every particle; to be called with each
    /// frame, with the time that has passed since the frame before, of which
    /// the whole milliseconds count.
    ///
    /// While the system's own lifetime is not below zero, up to `rate`
    /// particles are spawned into the slots at the head of the queue.  Then
    /// the system and every particle grow older by `delta`.  A slot whose
    /// particle is dead after that joins the queue, unless it stands there
    /// already.
    pub fn update(&mut self, delta: Duration) -> (frame: Frame)
        requires
            old(self)@.wf(),
        ensures
            final(self)@ == old(self)@.after_update(millis_delta(duration_millis(delta))),
            final(self)@.wf(),
            final(self)@.settled(),
            frame@ == old(self)@.frame(millis_delta(duration_millis(delta))),
            old(self)@.spawned_into(frame.spawned@),
            forall|i: int|
                0 <= i < old(self)@.max() && old(self)@.particles[i].alive() ==> (
                #[trigger] final(self)@.particles[i]) == aged(
                    old(self)@.particles[i],
                    millis_delta(duration_millis(delta)),
                ),
            frame.living@.len() <= old(self)@.max(),
    {
        let millis: u128 = delta.as_millis();
        self.update_millis(millis)
    }

    /// Updates the system by a time of `millis` milliseconds, as `update`
    /// does by a span of time.
    pub fn update_millis(&mut self, millis: u128) -> (frame: Frame)
        requires
            old(self)@.wf(),
        ensures
            final(self)@ == old(self)@.after_update(millis_delta(millis)),
            final(self)@.wf(),
            final(self)@.settled(),
            frame@ == old(self)@.frame(millis_delta(millis)),
            old(self)@.spawned_into(frame.spawned@),
            forall|i: int|
                0 <= i < old(self)@.max() && old(self)@.particles[i].alive() ==> (
                #[trigger] final(self)@.particles[i]) == aged(
                    old(self)@.particles[i],
                    millis_delta(millis),
                ),
            frame.living@.len() <= old(self)@.max(),
    {
        proof {
            lemma_slot_reuse(self@, millis_delta(millis));
            lemma_spawn_rate_bound(self@, millis_delta(millis));
            lemma_after_update_wf(self@, millis_delta(millis));
            lemma_filter_slots(
                slots(self@.max()),
                self@.after_update(millis_delta(millis)).is_live(),
            );
        }
        let delta: u64 = if millis > 18_446_744_073_709_551 {
            0xffff_ffff_ffff_ffff
        } else {
            (millis * 1000) as u64
        };
        let ghost start = self@;
        let spawned: Vec<usize> = if self.life >= 0 {
            self.respawn_particles(self.rate)
        } else {
            proof {
                assert(self@.particles =~= start.after_spawn(0).particles);
                assert(self@.queue =~= start.after_spawn(0).queue);
            }
            Vec::new()
        };
        let skipped: usize = if self.life >= 0 {
            self.rate - spawned.len()
        } else {
            0
        };
        let ghost mid = self@;
        proof {
            lemma_after_spawn_wf(start, start.spawn_count());
        }
        self.life = age(self.life, delta);
        let mut living: Vec<usize> = Vec::new();
        let n: usize = self.particles.len();
        let mut i: usize = 0;
        while i < n
            invariant
                i <= n,
                n == mid.max(),
                n <= MAX_PARTICLES,
                self.particles@.len() == n,
                forall|j: int| 0 <= j < i ==> self.particles@[j] == aged(mid.particles[j], delta),
                forall|j: int| i <= j < n ==> self.particles@[j] == mid.particles[j],
                self.spawnqueue@ == mid.queue + slots(i as nat).filter(mid.expires(delta)),
                living@ == slots(i as nat).filter(mid.after_aging(delta).is_live()),
                self@ == (SystemState { particles: self.particles@, queue: self.spawnqueue@, life: aged_life(mid.life, delta), ..mid }),
            decreases n - i,
        {
            let life: i64 = age(self.particles[i].life, delta);
            let mut p: Particle = self.particles[i];
            p.life = life;
            proof {
                assert(slots((i + 1) as nat) =~= slots(i as nat).push(i));
                slots(i as nat).lemma_filter_push(i, mid.expires(delta));
                slots(i as nat).lemma_filter_push(i, mid.after_aging(delta).is_live());
            }
            if life > 0 {
                living.push(i);
            } else if !p.queued {
                self.spawnqueue.push_back(i);
                p.queued = true;
            }
            self.particles.set(i, p);
            proof {
                assert(p == aged(mid.particles[i as int], delta));
                assert(self.spawnqueue@ =~= mid.queue + slots((i + 1) as nat).filter(mid.expires(delta)));
            }
            i += 1;
        }
        proof {
            let end = mid.after_aging(delta);
            assert(self@.particles =~= end.particles);
            assert(self@ == end);
            lemma_after_aging_wf(mid, delta);
            assert(end.is_live() == self@.is_live());
            assert(end == start.after_update(delta));
            assert(living@ == start.frame(delta).living);
            assert(spawned@ == start.frame(delta).spawned);
            assert(skipped == start.frame(delta).skipped);
        }
        Frame { spawned, living, skipped }
    }

    /// The number of slots in the pool.
    pub fn particle_count(&self) -> (count: u32)
        requires
            self@.wf(),
        ensures
            count == self@.max(),
    {
        self.particles.len() as u32
    }

    /// The size in bytes of the buffer that holds one record for each slot;
    /// none for an empty pool.
    pub fn particle_buf_size(&self) -> (size: Option<u64>)
        requires
            self@.wf(),
        ensures
            size == if self@.max() == 0 {
                None
            } else {
                Some((self@.max() * instance_size()) as u64)
            },
            size is Some ==> size->0 == self@.max() * instance_size(),
    {
        let bytes: u64 = self.particles.len() as u64 * ParticleInstance::size();
        if bytes == 0 {
            None
        } else {
            Some(bytes)
        }
    }

    /// Resizes the pool to `new_max` slots.  Particles in slots that are left
    /// stay as they are.  A pool that grows gets exactly the new slots as
    /// free slots, unused, behind the queue as it was; from a pool that
    /// shrinks the slots that are gone leave the queue too.  A size of more
    /// than `MAX_PARTICLES` slots is refused, and the pool stays as it is.
    pub fn set_max_particles(&mut self, new_max: usize) -> (r: BrumousResult<()>)
        requires
            old(self)@.wf(),
        ensures
            final(self)@.wf(),
            old(self)@.settled() ==> final(self)@.settled(),
            match r {
                Ok(_) => new_max <= MAX_PARTICLES,
                Err(e) => new_max > MAX_PARTICLES && e == BrumousError::TooManyParticles(new_max)
                    && final(self)@ == old(self)@,
            },
            new_max <= MAX_PARTICLES ==> {
                &&& final(self)@ == old(self)@.resized(new_max)
                &&& final(self)@.max() == new_max
                &&& forall|i: int|
                    0 <= i < old(self)@.max() && i < new_max ==> final(self)@.particles[i] == old(
                        self,
                    )@.particles[i]
            },
            old(self)@.max() < new_max <= MAX_PARTICLES ==> {
                &&& final(self)@.queue == old(self)@.queue + slot_range(
                    old(self)@.max() as int,
                    new_max as int,
                )
                &&& final(self)@.queue.len() == old(self)@.queue.len() + (new_max - old(self)@.max())
                &&& forall|i: int|
                    old(self)@.max() <= i < new_max ==> final(self)@.particles[i] == Particle::unused()
            },
            new_max < old(self)@.max() ==> forall|k: int|
                0 <= k < final(self)@.queue.len() ==> (#[trigger] final(self)@.queue[k]) < new_max,
    {
        if new_max > MAX_PARTICLES {
            return Err(BrumousError::TooManyParticles(new_max));
        }
        proof {
            lemma_resize(self@, new_max);
        }
        self.resize(new_max);
        Ok(())
    }

    /// Resizes the pool to `new_max` slots.
    fn resize(&mut self, new_max: usize)
        requires
            old(self)@.wf(),
            new_max <= MAX_PARTICLES,
        ensures
            final(self)@ == old(self)@.resized(new_max),
            final(self)@.wf(),
            old(self)@.settled() ==> final(self)@.settled(),
    {
        let ghost start = self@;
        let old_max: usize = self.particles.len();
        proof {
            lemma_resized_wf(start, new_max);
        }
        if new_max == old_max {
            proof {
                assert(self@.particles =~= start.resized(new_max).particles);
                assert(self@.queue =~= start.resized(new_max).queue);
            }
            return ;
        }
        if new_max < old_max {
            self.particles.truncate(new_max);
            let len: usize = self.spawnqueue.len();
            let ghost fits = SystemState::fits(new_max);
            proof {
                assert(start.queue.take(0).filter(fits) =~= Seq::<usize>::empty()) by {
                    lemma_filter_slots(start.queue.take(0), fits);
                }
                assert(self.spawnqueue@ =~= start.queue.skip(0) + start.queue.take(0).filter(fits));
            }
            let mut k: usize = 0;
            while k < len
                invariant
                    k <= len,
                    len == start.queue.len(),
                    fits == SystemState::fits(new_max),
                    self.spawnqueue@ == start.queue.skip(k as int) + start.queue.take(k as int).filter(
                        fits,
                    ),
                    self@ == (SystemState {
                        particles: start.particles.take(new_max as int),
                        queue: self.spawnqueue@,
                        ..start
                    }),
                decreases len - k,
            {
                let ghost before = self.spawnqueue@;
                match self.spawnqueue.pop_front() {
                    Some(i) => {
                        if i < new_max {
                            self.spawnqueue.push_back(i);
                        }
                        proof {
                            assert(i == start.queue[k as int]);
                            assert(start.queue.take(k + 1) =~= start.queue.take(k as int).push(i));
                            start.queue.take(k as int).lemma_filter_push(i, fits);
                            assert(self.spawnqueue@ =~= start.queue.skip(k + 1) + start.queue.take(
                                k + 1,
                            ).filter(fits));
                        }
                    },
                    None => {
                        assert(false);
                    },
                }
                k += 1;
            }
            proof {
                assert(start.queue.take(len as int) =~= start.queue);
                assert(self.spawnqueue@ =~= start.queue.filter(fits));
            }
        } else {
            let mut i: usize = old_max;
            proof {
                assert(self@.particles =~= start.particles + Seq::new(0, |j: int| Particle::unused()));
                assert(self@.queue =~= start.queue + slot_range(old_max as int, old_max as int));
            }
            while i < new_max
                invariant
                    old_max <= i <= new_max,
                    old_max == start.max(),
                    self@ == (SystemState {
                        particles: start.particles + Seq::new(
                            (i - old_max) as nat,
                            |j: int| Particle::unused(),
                        ),
                        queue: start.queue + slot_range(old_max as int, i as int),
                        ..start
                    }),
                decreases new_max - i,
            {
                self.particles.push(Particle::default());
                self.spawnqueue.push_back(i);
                i += 1;
                proof {
                    assert(self@.particles =~= start.particles + Seq::new(
                        (i - old_max) as nat,
                        |j: int| Particle::unused(),
                    ));
                    assert(self@.queue =~= start.queue + slot_range(old_max as int, i as int));
                }
            }
        }
    }

    /// Moves the system: particles spawn around `position` from now on.
    pub fn set_position(&mut self, position: [i64; 3])
        ensures
            final(self)@ == (SystemState { position, ..old(self)@ }),
    {
        self.position = position;
    }

    /// Sets the number of particles spawned with each update.
    pub fn set_rate(&mut self, rate: usize)
        ensures
            final(self)@ == (SystemState { rate, ..old(self)@ }),
    {
        self.rate = rate;
    }

    /// Names the system.
    pub fn set_name(&mut self, name: String)
        ensures
            final(self)@ == (SystemState { name: name@, ..old(self)@ }),
    {
        self.name = name;
    }

    /// Sets the mean and the variance of a new particle's mass.
    pub fn set_mass_variance(&mut self, mass: (i64, i64))
        ensures
            final(self)@ == (SystemState {
                bounds: ParticleSystemBounds { mass, ..old(self)@.bounds },
                ..old(self)@
            }),
    {
        self.bounds.mass = mass;
    }

    /// Sets the means and the variances of a new particle's velocity.
    pub fn set_initial_velocity_variance(&mut self, velocity: [(i64, i64); 3])
        ensures
            final(self)@ == (SystemState {
                bounds: ParticleSystemBounds { velocity, ..old(self)@.bounds },
                ..old(self)@
            }),
    {
        self.bounds.velocity = velocity;
    }

    /// Sets the means and the variances of a new particle's offset from the
    /// system's position.
    pub fn set_spawn_variance(&mut self, area: [(i64, i64); 3])
        ensures
            final(self)@ == (SystemState {
                bounds: ParticleSystemBounds { area, ..old(self)@.bounds },
                ..old(self)@
            }),
    {
        self.bounds.area = area;
    }

    /// Sets the mean and the variance of a new particle's lifetime.
    pub fn set_life_variance(&mut self, life: (i64, i64))
        ensures
            final(self)@ == (SystemState {
                bounds: ParticleSystemBounds { life, ..old(self)@.bounds },
                ..old(self)@
            }),
    {
        self.bounds.life = life;
    }

    /// Sets the means and the variances of a new particle's colour.
    pub fn set_color_variance(&mut self, color: [(i64, i64); 4])
        ensures
            final(self)@ == (SystemState {
                bounds: ParticleSystemBounds { color, ..old(self)@.bounds },
                ..old(self)@
            }),
    {
        self.bounds.color = color;
    }

    /// Sets the mean and the variance of a new particle's scale.
    pub fn set_scale_variance(&mut self, scale: (i64, i64))
        ensures
            final(self)@ == (SystemState {
                bounds: ParticleSystemBounds { scale, ..old(self)@.bounds },
                ..old(self)@
            }),
    {
        self.bounds.scale = scale;
    }

    /// The records of a frame, one for each slot: the records of the live
    /// particles, in the order given, and behind them a record of zeros for
    /// each slot that is left, so that no dead particle is drawn.  Records
    /// beyond the number of slots are left out.
    pub fn instances(&self, living: &Vec<ParticleInstance>) -> (records: Vec<ParticleInstance>)
        ensures
            records@ == frame_records(living@, self@.max()),
    {
        let mut records: Vec<ParticleInstance> = Vec::new();
        let n: usize = self.particles.len();
        let mut i: usize = 0;
        while i < n
            invariant
                i <= n,
                n == self@.max(),
                records@ == frame_records(living@, i as nat),
            decreases n - i,
        {
            if i < living.len() {
                records.push(living[i]);
            } else {
                records.push(ParticleInstance::empty());
            }
            i += 1;
            assert(records@ =~= frame_records(living@, i as nat));
        }
        records
    }

    /// The records of a frame, one for each slot of the pool, from the live
    /// particles and the records of the slots: the records of the live
    /// particles in drawing order, the farthest first, and behind them a
    /// record of zeros for each slot that is left.  There is one drawing
    /// order (see `lemma_draw_order_unique`), so this says what each record
    /// is.
    pub fn frame_instances(&self, living: &Vec<Living>, records: &Vec<ParticleInstance>) -> (out: Vec<
        ParticleInstance,
    >)
        ensures
            out@.len() == self@.max(),
            exists|order: Seq<Living>|
                {
                    &&& back_to_front(order)
                    &&& order.to_multiset() == living@.to_multiset()
                    &&& out@ == frame_records(drawn_records(order, records@), self@.max())
                },
    {
        let order: Vec<Living> = drawing_order(living);
        let mut drawn: Vec<ParticleInstance> = Vec::new();
        let mut i: usize = 0;
        while i < order.len()
            invariant
                i <= order.len(),
                drawn@ == drawn_records(order@.take(i as int), records@),
            decreases order.len() - i,
        {
            let slot: usize = order[i].slot;
            if slot < records.len() {
                drawn.push(records[slot]);
            } else {
                drawn.push(ParticleInstance::empty());
            }
            i += 1;
            assert(drawn@ =~= drawn_records(order@.take(i as int), records@));
        }
        proof {
            assert(order@.take(i as int) =~= order@);
        }
        self.instances(&drawn)
    }

    /// The pool, by slot.
    pub fn particles(&self) -> (particles: &Vec<Particle>)
        ensures
            particles@ == self@.particles,
    {
        &self.particles
    }

    /// The free slots, the one that is used next first.
    pub fn spawnqueue(&self) -> (queue: &VecDeque<usize>)
        ensures
            queue@ == self@.queue,
    {
        &self.spawnqueue
    }

    /// The number of particles spawned with each update.
    pub fn rate(&self) -> (rate: usize)
        ensures
            rate == self@.rate,
    {
        self.rate
    }

    /// Where the system stands.
    pub fn position(&self) -> (position: [i64; 3])
        ensures
            position == self@.position,
    {
        self.position
    }

    /// The system's name.
    pub fn name(&self) -> (name: &str)
        ensures
            name@ == self@.name,
    {
        self.name.as_str()
    }

    /// For how long the system goes on spawning.
    pub fn life(&self) -> (life: i64)
        ensures
            life == self@.life,
    {
        self.life
    }

    /// The bounds within which a new particle's traits are drawn.
    pub fn bounds(&self) -> (bounds: ParticleSystemBounds)
        ensures
            bounds == self@.bounds,
    {
        self.bounds
    }
}

/// Particle systems that are updated together.
pub struct ParticleSystemSet(pub Vec<ParticleSystem>);

impl ParticleSystemSet {
    /// Whether each system of the set is well-formed.
    pub open spec fn wf(self) -> bool {
        forall|i: int| 0 <= i < self.0@.len() ==> (#[trigger] self.0@[i])@.wf()
    }

    /// The set of `systems`.
    pub fn new(systems: Vec<ParticleSystem>) -> (set: Self)
        ensures
            set.0 == systems,
    {
        Self(systems)
    }

    /// The systems of the set.
    pub fn systems(&self) -> (systems: &[ParticleSystem])
        ensures
            systems@ == self.0@,
    {
        self.0.as_slice()
    }

    /// Updates each system of the set, and returns their frames in the order
    /// of the systems.
    pub fn update(&mut self, delta: Duration) -> (frames: Vec<Frame>)
        requires
            old(self).wf(),
        ensures
            final(self).wf(),
            final(self).0@.len() == old(self).0@.len(),
            frames@.len() == old(self).0@.len(),
            forall|i: int|
                0 <= i < old(self).0@.len() ==> (#[trigger] final(self).0@[i])@ == old(self).0@[i]@.after_update(
                    millis_delta(duration_millis(delta)),
                ),
            forall|i: int|
                0 <= i < old(self).0@.len() ==> (#[trigger] frames@[i])@ == old(self).0@[i]@.frame(
                    millis_delta(duration_millis(delta)),
                ),
    {
        let millis: u128 = delta.as_millis();
        self.update_millis(millis)
    }

    /// Updates each system of the set by a time of `millis` milliseconds.
    pub fn update_millis(&mut self, millis: u128) -> (frames: Vec<Frame>)
        requires
            old(self).wf(),
        ensures
            final(self).wf(),
            final(self).0@.len() == old(self).0@.len(),
            frames@.len() == old(self).0@.len(),
            forall|i: int|
                0 <= i < old(self).0@.len() ==> (#[trigger] final(self).0@[i])@ == old(self).0@[i]@.after_update(
                    millis_delta(millis),
                ),
            forall|i: int|
                0 <= i < old(self).0@.len() ==> (#[trigger] frames@[i])@ == old(self).0@[i]@.frame(
                    millis_delta(millis),
                ),
    {
        let ghost start = self.0@;
        let mut frames: Vec<Frame> = Vec::new();
        let n: usize = self.0.len();
        let mut k: usize = 0;
        while k < n
            invariant
                k <= n,
                n == start.len(),
                self.0@.len() == n,
                frames@.len() == k,
                forall|i: int| k <= i < n ==> (#[trigger] self.0@[i]) == start[i],
                forall|i: int| k <= i < n ==> (#[trigger] start[i])@.wf(),
                forall|i: int|
                    0 <= i < k ==> (#[trigger] self.0@[i])@ == start[i]@.after_update(millis_delta(millis)),
                forall|i: int| 0 <= i < k ==> (#[trigger] self.0@[i])@.wf(),
                forall|i: int| 0 <= i < k ==> (#[trigger] frames@[i])@ == start[i]@.frame(millis_delta(millis)),
            decreases n - k,
        {
            let frame: Frame = self.0[k].update_millis(millis);
            frames.push(frame);
            k += 1;
        }
        frames
    }
}

/// Spawning keeps the pool and its queue in step: a system is well-formed
/// after it.  A particle that was spawned dead is dead and not yet queued.
pub proof fn lemma_after_spawn_wf(s: SystemState, n: nat)
    requires
        s.wf(),
        n <= s.queue.len(),
    ensures
        s.after_spawn(n).wf(),
        ({
            let t = s.after_spawn(n);
            &&& t.max() == s.max()
            &&& t.queue.no_duplicates()
            &&& forall|k: int| 0 <= k < t.queue.len() ==> (#[trigger] t.queue[k]) < t.max()
            &&& forall|i: int|
                0 <= i < t.max() ==> ((#[trigger] t.particles[i]).queued <==> t.queue.contains(
                    i as usize,
                ))
            &&& forall|i: int|
                0 <= i < t.max() ==> ((#[trigger] t.particles[i]).queued ==> !t.particles[i].alive())
        }),
{
    let t = s.after_spawn(n);
    let taken = s.queue.take(n as int);
    assert forall|k: int| 0 <= k < t.queue.len() implies (#[trigger] t.queue[k]) < t.max() by {
        assert(t.queue[k] == s.queue[k + n]);
    }
    assert forall|i: int| 0 <= i < t.max() implies ((#[trigger] t.particles[i]).queued
        <==> t.queue.contains(i as usize)) && (t.particles[i].queued ==> !t.particles[i].alive()) by {
        if taken.contains(i as usize) {
            let c = taken.index_of(i as usize);
            assert(s.queue[c] == i as usize);
            if t.queue.contains(i as usize) {
                let d = choose|d: int| 0 <= d < t.queue.len() && t.queue[d] == i as usize;
                assert(s.queue[d + n] == i as usize);
            }
        } else {
            assert(t.particles[i] == s.particles[i]);
            if s.particles[i].queued {
                let c = choose|c: int| 0 <= c < s.queue.len() && s.queue[c] == i as usize;
                if c < n {
                    assert(taken[c] == i as usize);
                }
                assert(t.queue[c - n] == i as usize);
            }
            if t.queue.contains(i as usize) {
                let d = choose|d: int| 0 <= d < t.queue.len() && t.queue[d] == i as usize;
                assert(s.queue[d + n] == i as usize);
            }
        }
    }
}

/// Aging keeps a system well-formed and settles it: every particle that is
/// dead after it is queued.
pub proof fn lemma_after_aging_wf(t: SystemState, delta: u64)
    requires
        t.wf(),
    ensures
        t.after_aging(delta).wf(),
        t.after_aging(delta).settled(),
{
    let e = t.after_aging(delta);
    let all = slots(t.max());
    let gone = all.filter(t.expires(delta));
    lemma_slots(t.max());
    lemma_filter_slots(all, t.expires(delta));
    assert forall|a: int, b: int| 0 <= a < t.queue.len() && 0 <= b < gone.len() implies t.queue[a]
        != gone[b] by {
        assert(gone.contains(gone[b]));
        assert(t.particles[t.queue[a] as int].queued);
    }
    vstd::seq_lib::lemma_no_dup_in_concat(t.queue, gone);
    assert forall|k: int| 0 <= k < e.queue.len() implies (#[trigger] e.queue[k]) < e.max() by {
        if k >= t.queue.len() {
            assert(gone.contains(gone[k - t.queue.len()]));
        }
    }
    assert forall|i: int| 0 <= i < e.max() implies ((#[trigger] e.particles[i]).queued
        <==> e.queue.contains(i as usize)) && (e.particles[i].queued <==> !e.particles[i].alive()) by {
        let x = i as usize;
        assert(all.contains(x));
        if e.queue.contains(x) {
            let d = choose|d: int| 0 <= d < e.queue.len() && e.queue[d] == x;
            if d < t.queue.len() {
                assert(t.queue.contains(x));
            } else {
                assert(gone.contains(gone[d - t.queue.len()]));
            }
        }
        if t.particles[i].queued {
            let c = choose|c: int| 0 <= c < t.queue.len() && t.queue[c] == x;
            assert(e.queue[c] == x);
        } else if aged_life(t.particles[i].life, delta) <= 0 {
            assert(gone.contains(x));
            let c = choose|c: int| 0 <= c < gone.len() && gone[c] == x;
            assert(e.queue[t.queue.len() + c] == x);
        }
    }
}

/// A resized pool is a well-formed system, and settled if it was.
pub proof fn lemma_resized_wf(s: SystemState, new_max: usize)
    requires
        s.wf(),
        new_max <= MAX_PARTICLES,
    ensures
        s.resized(new_max).wf(),
        s.resized(new_max).max() == new_max,
        s.settled() ==> s.resized(new_max).settled(),
{
    let r = s.resized(new_max);
    if new_max >= s.max() {
        let added = slot_range(s.max() as int, new_max as int);
        assert forall|a: int, b: int| 0 <= a < s.queue.len() && 0 <= b < added.len() implies s.queue[a]
            != added[b] by {}
        vstd::seq_lib::lemma_no_dup_in_concat(s.queue, added);
        assert forall|i: int| 0 <= i < r.max() implies ((#[trigger] r.particles[i]).queued
            <==> r.queue.contains(i as usize)) && (r.particles[i].queued ==> !r.particles[i].alive())
            && (s.settled() && !r.particles[i].alive() ==> r.particles[i].queued) by {
            let x = i as usize;
            if i < s.max() {
                assert(r.particles[i] == s.particles[i]);
                if s.queue.contains(x) {
                    let c = choose|c: int| 0 <= c < s.queue.len() && s.queue[c] == x;
                    assert(r.queue[c] == x);
                }
                if r.queue.contains(x) {
                    let d = choose|d: int| 0 <= d < r.queue.len() && r.queue[d] == x;
                    if d < s.queue.len() {
                        assert(s.queue[d] == x);
                    }
                }
            } else {
                assert(r.particles[i] == Particle::unused());
                assert(r.queue[s.queue.len() + (i - s.max())] == x);
            }
        }
    } else {
        lemma_filter_slots(s.queue, SystemState::fits(new_max));
        assert forall|k: int| 0 <= k < r.queue.len() implies (#[trigger] r.queue[k]) < r.max() by {
            assert(r.queue.contains(r.queue[k]));
        }
        assert forall|i: int| 0 <= i < r.max() implies ((#[trigger] r.particles[i]).queued
            <==> r.queue.contains(i as usize)) && (r.particles[i].queued ==> !r.particles[i].alive())
            && (s.settled() && !r.particles[i].alive() ==> r.particles[i].queued) by {
            assert(r.particles[i] == s.particles[i]);
        }
    }
}

/// Spawning uses each slot once and touches no live particle: the first
/// `n` slots of the queue are different slots of the pool, each holds a
/// dead particle, and every particle that is alive is the same after the
/// spawning.
pub proof fn lemma_spawn_slots(s: SystemState, n: nat)
    requires
        s.wf(),
        n <= s.queue.len(),
    ensures
        s.after_spawn(n).wf(),
        s.queue.take(n as int).no_duplicates(),
        forall|k: int|
            0 <= k < n ==> (#[trigger] s.queue.take(n as int)[k]) < s.max() && !s.particles[s.queue.take(
                n as int,
            )[k] as int].alive(),
        forall|i: int|
            0 <= i < s.max() && s.particles[i].alive() ==> (#[trigger] s.after_spawn(n).particles[i])
                == s.particles[i],
{
    let taken = s.queue.take(n as int);
    let mid = s.after_spawn(n);
    lemma_after_spawn_wf(s, n);
    assert forall|k: int| 0 <= k < n implies (#[trigger] taken[k]) < s.max() && !s.particles[taken[k] as int].alive() by {
        assert(taken[k] == s.queue[k]);
        assert(s.queue.contains(s.queue[k]));
    }
    assert forall|i: int| 0 <= i < s.max() && s.particles[i].alive() implies (#[trigger] mid.particles[i])
        == s.particles[i] by {
        if taken.contains(i as usize) {
            let c = choose|c: int| 0 <= c < taken.len() && taken[c] == i as usize;
            assert(s.queue[c] == i as usize);
            assert(s.queue.contains(i as usize));
        }
    }
}

/// An update leaves a well-formed and settled system, with the pool it
/// had.
pub proof fn lemma_after_update_wf(s: SystemState, delta: u64)
    requires
        s.wf(),
    ensures
        s.after_update(delta).wf(),
        s.after_update(delta).settled(),
        s.after_update(delta).max() == s.max(),
{
    lemma_after_spawn_wf(s, s.spawn_count());
    lemma_after_aging_wf(s.after_spawn(s.spawn_count()), delta);
}

/// The pool is never over its capacity: whatever updates a system has gone
/// through, it has the slots it had, and no more live particles than slots.
pub proof fn lemma_pool_capacity(s: SystemState, deltas: Seq<u64>)
    requires
        s.wf(),
    ensures
        s.after_updates(deltas).wf(),
        s.after_updates(deltas).max() == s.max(),
        s.after_updates(deltas).live_count() <= s.max(),
    decreases deltas.len(),
{
    if deltas.len() > 0 {
        lemma_pool_capacity(s, deltas.drop_last());
        lemma_after_update_wf(s.after_updates(deltas.drop_last()), deltas.last());
    }
    let t = s.after_updates(deltas);
    lemma_filter_slots(slots(t.max()), t.is_live());
}

/// A sequence without duplicates is no longer than one that holds each of
/// its items.
pub proof fn lemma_subset_len(a: Seq<usize>, b: Seq<usize>)
    requires
        a.no_duplicates(),
        forall|x: usize| a.contains(x) ==> b.contains(x),
    ensures
        a.len() <= b.len(),
{
    a.unique_seq_to_set();
    b.lemma_cardinality_of_set();
    vstd::seq_lib::seq_to_set_is_finite(a);
    vstd::seq_lib::seq_to_set_is_finite(b);
    assert(a.to_set().subset_of(b.to_set())) by {
        assert forall|x: usize| a.to_set().contains(x) implies b.to_set().contains(x) by {
            assert(a.contains(x));
        }
    }
    vstd::set_lib::lemma_len_subset(a.to_set(), b.to_set());
}

/// An update brings no more particles to life than the system's rate, and
/// none once the system's own lifetime is below zero: a slot whose particle
/// is dead before the update and alive after it is one of those that the
/// update spawned into.
pub proof fn lemma_spawn_rate_bound(s: SystemState, delta: u64)
    requires
        s.wf(),
    ensures
        forall|i: int|
            0 <= i < s.max() && !s.particles[i].alive() && (#[trigger] s.after_update(
                delta,
            ).particles[i]).alive() ==> s.queue.take(s.spawn_count() as int).contains(i as usize),
        slots(s.max()).filter(s.revives(delta)).len() <= s.spawn_count() <= s.rate,
        s.life < 0 ==> slots(s.max()).filter(s.revives(delta)).len() == 0,
{
    let n = s.spawn_count();
    let taken = s.queue.take(n as int);
    let mid = s.after_spawn(n);
    let end = s.after_update(delta);
    assert forall|i: int| 0 <= i < s.max() && !s.particles[i].alive() && (#[trigger] end.particles[i]).alive()
        implies taken.contains(i as usize) by {
        if !taken.contains(i as usize) {
            assert(mid.particles[i] == s.particles[i]);
            assert(end.particles[i] == aged(mid.particles[i], delta));
        }
    }
    let revived = slots(s.max()).filter(s.revives(delta));
    lemma_slots(s.max());
    lemma_filter_slots(slots(s.max()), s.revives(delta));
    assert forall|x: usize| revived.contains(x) implies taken.contains(x) by {
        assert(slots(s.max()).contains(x));
        assert(end.particles[x as int].alive());
    }
    lemma_subset_len(revived, taken);
}

/// Slots are used one particle at a time.  No slot stands in the queue of
/// free slots twice, and a slot in it holds a dead particle.  An update
/// spawns into as many different slots as it spawns particles, each of them
/// free before, and leaves every particle that was alive where it was, only
/// older; and all of this holds again after the update.
pub proof fn lemma_slot_reuse(s: SystemState, delta: u64)
    requires
        s.wf(),
    ensures
        forall|j: int, k: int| 0 <= j < k < s.queue.len() ==> s.queue[j] != s.queue[k],
        forall|k: int| 0 <= k < s.queue.len() ==> !s.particles[(#[trigger] s.queue[k]) as int].alive(),
        forall|j: int, k: int|
            0 <= j < k < s.spawn_count() ==> s.queue.take(s.spawn_count() as int)[j] != s.queue.take(
                s.spawn_count() as int,
            )[k],
        forall|k: int|
            0 <= k < s.spawn_count() ==> s.after_spawn(s.spawn_count()).particles[(#[trigger] s.queue[k]) as int]
                == s.spawn(k),
        forall|k: int|
            0 <= k < s.spawn_count() ==> !s.after_spawn(s.spawn_count()).queue.contains(
                #[trigger] s.queue[k],
            ),
        s.after_update(delta).wf(),
        s.spawned_into(s.queue.take(s.spawn_count() as int)),
        forall|i: int|
            0 <= i < s.max() && s.particles[i].alive() ==> (#[trigger] s.after_spawn(
                s.spawn_count(),
            ).particles[i]) == s.particles[i],
        forall|i: int|
            0 <= i < s.max() && s.particles[i].alive() ==> (#[trigger] s.after_update(delta).particles[i])
                == aged(s.particles[i], delta),
{
    let n = s.spawn_count();
    let taken = s.queue.take(n as int);
    let mid = s.after_spawn(n);
    lemma_after_update_wf(s, delta);
    lemma_after_spawn_wf(s, n);
    assert forall|k: int| 0 <= k < taken.len() implies (#[trigger] taken[k]) < s.max()
        && !s.particles[taken[k] as int].alive() by {
        assert(taken[k] == s.queue[k]);
        assert(s.queue.contains(s.queue[k]));
    }
    assert forall|i: int| 0 <= i < s.max() && s.particles[i].alive() implies (#[trigger] mid.particles[i])
        == s.particles[i] by {
        if taken.contains(i as usize) {
            let c = choose|c: int| 0 <= c < taken.len() && taken[c] == i as usize;
            assert(s.queue[c] == i as usize);
            assert(s.queue.contains(i as usize));
        }
    }
    assert forall|i: int| 0 <= i < s.max() && s.particles[i].alive() implies (#[trigger] s.after_update(
        delta,
    ).particles[i]) == aged(s.particles[i], delta) by {
        assert(mid.particles[i] == s.particles[i]);
    }
    assert forall|k: int| 0 <= k < n implies mid.particles[(#[trigger] s.queue[k]) as int] == s.spawn(k)
        && !mid.queue.contains(s.queue[k]) by {
        let x = s.queue[k];
        assert(taken[k] == x);
        assert(taken.contains(x));
        let c = taken.index_of(x);
        assert(s.queue[c] == s.queue[k]);
        assert(!mid.particles[x as int].queued);
    }
}

/// Resizing keeps what fits.  A pool that grows has exactly as many more
/// free slots as it has more slots: the new slots, unused, behind the queue
/// as it was.  In a pool that shrinks, no slot from the new size on is left
/// in the pool or in the queue, and the slots below it are free exactly if
/// they were.
pub proof fn lemma_resize(s: SystemState, new_max: usize)
    requires
        s.wf(),
        new_max <= MAX_PARTICLES,
    ensures
        s.resized(new_max).wf(),
        s.resized(new_max).max() == new_max,
        forall|i: int| 0 <= i < s.max() && i < new_max ==> s.resized(new_max).particles[i] == s.particles[i],
        new_max > s.max() ==> {
            &&& s.resized(new_max).queue.len() == s.queue.len() + (new_max - s.max())
            &&& s.resized(new_max).queue.take(s.queue.len() as int) == s.queue
            &&& forall|i: int|
                s.max() <= i < new_max ==> s.resized(new_max).queue.contains(i as usize)
                    && s.resized(new_max).particles[i] == Particle::unused()
        },
        new_max < s.max() ==> {
            &&& forall|k: int|
                0 <= k < s.resized(new_max).queue.len() ==> (#[trigger] s.resized(new_max).queue[k]) < new_max
            &&& forall|x: usize|
                x < new_max ==> (s.resized(new_max).queue.contains(x) <==> s.queue.contains(x))
            &&& s.resized(new_max).live_count() <= new_max
        },
{
    let r = s.resized(new_max);
    lemma_resized_wf(s, new_max);
    if new_max > s.max() {
        assert(r.queue.take(s.queue.len() as int) =~= s.queue);
        assert forall|i: int| s.max() <= i < new_max implies #[trigger] r.queue.contains(i as usize) by {
            assert(r.queue[s.queue.len() + (i - s.max())] == i as usize);
        }
    } else if new_max < s.max() {
        lemma_filter_slots(s.queue, SystemState::fits(new_max));
        lemma_filter_slots(slots(r.max()), r.is_live());
        assert forall|k: int| 0 <= k < r.queue.len() implies (#[trigger] r.queue[k]) < new_max by {
            assert(r.queue.contains(r.queue[k]));
        }
    }
}

} // verus!

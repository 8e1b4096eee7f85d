use vstd::prelude::*;
use crate::trajectory::Trajectory;

verus! {

/// Mass of a body in whole kilograms; a valid body has a strictly positive mass.
#[derive(Clone, Copy, Debug, PartialEq, Eq, Structural)]
pub struct Mass(pub u128);

/// Position of a body, in simulation-space meters.
#[derive(Debug)]
pub struct Coord<V>(pub V);

/// Velocity of a body, in meters per second.
#[derive(Debug)]
pub struct Velocity<V>(pub V);

/// Why a change to the body store was rejected; a rejected change leaves the store as it was.
#[derive(Clone, Copy, Debug, PartialEq, Eq, Structural)]
pub enum BodyError {
    /// A body was offered with a mass of zero.
    NonPositiveMass,
    /// A body was offered with an id that another body already has.
    DuplicateId,
    /// A tick supplied a number of velocities or positions other than the number of bodies.
    StateMismatch,
}

/// One massive point object.
pub struct Body<V> {
    pub id: u64,
    pub mass: Mass,
    pub coord: Coord<V>,
    pub velocity: Velocity<V>,
    pub trajectory: Trajectory<V>,
}

/// What a body holds, as mathematical values.
pub struct BodyState<V> {
    pub id: u64,
    pub mass: u128,
    pub coord: V,
    pub velocity: V,
    pub trajectory: Seq<V>,
}

impl<V> View for Body<V> {
    type V = BodyState<V>;

    open spec fn view(&self) -> BodyState<V> {
        BodyState {
            id: self.id,
            mass: self.mass.0,
            coord: self.coord.0,
            velocity: self.velocity.0,
            trajectory: self.trajectory@,
        }
    }
}

/// Every body has a positive mass and no two bodies share an id.
pub open spec fn valid_states<V>(s: Seq<BodyState<V>>) -> bool {
    &&& forall|i: int| 0 <= i < s.len() ==> #[trigger] s[i].mass > 0
    &&& forall|i: int, j: int|
        0 <= i < s.len() && 0 <= j < s.len() && i != j ==> #[trigger] s[i].id != #[trigger] s[j].id
}

/// Whether some body in `s` has the id `id`.
pub open spec fn has_id<V>(s: Seq<BodyState<V>>, id: u64) -> bool {
    exists|i: int| 0 <= i < s.len() && #[trigger] s[i].id == id
}

/// The state after one tick in which body `i` moved to `coords[i]` with velocity
/// `velocities[i]`; the new position is appended to its trajectory, its id and
/// mass are kept.
pub open spec fn advanced<V>(s: Seq<BodyState<V>>, velocities: Seq<V>, coords: Seq<V>) -> Seq<
    BodyState<V>,
> {
    Seq::new(
        s.len(),
        |i: int|
            BodyState {
                id: s[i].id,
                mass: s[i].mass,
                coord: coords[i],
                velocity: velocities[i],
                trajectory: s[i].trajectory.push(coords[i]),
            },
    )
}

/// Whether a tick's new velocities and positions cover exactly the bodies of `s`.
pub open spec fn fits<V>(s: Seq<BodyState<V>>, velocities: Seq<V>, coords: Seq<V>) -> bool {
    velocities.len() == s.len() && coords.len() == s.len()
}

/// The outcome of offering one tick to the store: applied when it fits, otherwise rejected.
pub open spec fn tick_outcome<V>(s: Seq<BodyState<V>>, velocities: Seq<V>, coords: Seq<V>) -> Seq<
    BodyState<V>,
> {
    if fits(s, velocities, coords) {
        advanced(s, velocities, coords)
    } else {
        s
    }
}

/// The state after offering the ticks of `steps` in order, each as (velocities, positions).
pub open spec fn run<V>(s: Seq<BodyState<V>>, steps: Seq<(Seq<V>, Seq<V>)>) -> Seq<BodyState<V>>
    decreases steps.len(),
{
    if steps.len() == 0 {
        s
    } else {
        let before = run(s, steps.drop_last());
        tick_outcome(before, steps.last().0, steps.last().1)
    }
}

/// No sequence of ticks changes the number of bodies, their order, their ids or
/// their masses, and a valid set of bodies stays valid.
pub proof fn lemma_ticks_keep_masses<V>(s: Seq<BodyState<V>>, steps: Seq<(Seq<V>, Seq<V>)>)
    ensures
        run(s, steps).len() == s.len(),
        forall|i: int|
            0 <= i < s.len() ==> (#[trigger] run(s, steps)[i]).mass == s[i].mass && run(
                s,
                steps,
            )[i].id == s[i].id,
        valid_states(s) ==> valid_states(run(s, steps)),
    decreases steps.len(),
{
    if steps.len() > 0 {
        lemma_ticks_keep_masses(s, steps.drop_last());
    }
}

/// After `n` ticks that each give every body a new velocity and position, each
/// body's trajectory has grown by exactly `n` entries, the earlier entries are
/// untouched, and the entry added by tick `k` is the body's position right after
/// tick `k`.
pub proof fn lemma_trajectory_appends<V>(s: Seq<BodyState<V>>, steps: Seq<(Seq<V>, Seq<V>)>)
    requires
        forall|k: int| 0 <= k < steps.len() ==> #[trigger] fits(s, steps[k].0, steps[k].1),
    ensures
        forall|i: int|
            0 <= i < s.len() ==> (#[trigger] run(s, steps)[i]).trajectory.len()
                == s[i].trajectory.len() + steps.len() && run(s, steps)[i].trajectory.subrange(
                0,
                s[i].trajectory.len() as int,
            ) == s[i].trajectory,
        forall|i: int, k: int|
            0 <= i < s.len() && 0 <= k < steps.len() ==> #[trigger] run(s, steps)[i].trajectory[s[i].trajectory.len()
                + k] == #[trigger] run(s, steps.take(k + 1))[i].coord,
    decreases steps.len(),
{
    if steps.len() > 0 {
        let prefix = steps.drop_last();
        assert forall|k: int| 0 <= k < prefix.len() implies #[trigger] fits(
            s,
            prefix[k].0,
            prefix[k].1,
        ) by {
            assert(prefix[k] == steps[k]);
        }
        lemma_trajectory_appends(s, prefix);
        lemma_ticks_keep_masses(s, prefix);
        let last = steps.len() - 1;
        assert(fits(s, steps[last].0, steps[last].1));
        assert(steps.take(steps.len() as int) =~= steps);
        assert forall|i: int| 0 <= i < s.len() implies (#[trigger] run(s, steps)[i]).trajectory.subrange(
            0,
            s[i].trajectory.len() as int,
        ) == s[i].trajectory by {
            assert(run(s, steps)[i].trajectory.subrange(0, s[i].trajectory.len() as int)
                =~= run(s, prefix)[i].trajectory.subrange(0, s[i].trajectory.len() as int));
        }
        assert forall|i: int, k: int|
            0 <= i < s.len() && 0 <= k < steps.len() implies #[trigger] run(s, steps)[i].trajectory[s[i].trajectory.len()
                + k] == #[trigger] run(s, steps.take(k + 1))[i].coord by {
            if k < last {
                assert(steps.take(k + 1) =~= prefix.take(k + 1));
                assert(run(s, prefix)[i].trajectory[s[i].trajectory.len() + k] == run(
                    s,
                    prefix.take(k + 1),
                )[i].coord);
            }
        }
    }
}

/// The ordered, fixed set of bodies of one simulation run, in creation order.
pub struct BodyStore<V> {
    bodies: Vec<Body<V>>,
}

impl<V> View for BodyStore<V> {
    type V = Seq<BodyState<V>>;

    closed spec fn view(&self) -> Seq<BodyState<V>> {
        Seq::new(self.bodies@.len(), |i: int| self.bodies@[i]@)
    }
}

impl<V: Copy> BodyStore<V> {
    /// A store without bodies.
    pub fn new() -> (r: Self)
        ensures
            r@ == Seq::<BodyState<V>>::empty(),
    {
        let r = BodyStore { bodies: Vec::new() };
        assert(r@ =~= Seq::<BodyState<V>>::empty());
        r
    }

    /// Number of bodies.
    pub fn len(&self) -> (r: usize)
        ensures
            r == self@.len(),
    {
        self.bodies.len()
    }

    /// The body at position `i` of creation order.
    pub fn body(&self, i: usize) -> (r: &Body<V>)
        requires
            i < self@.len(),
        ensures
            r@ == self@[i as int],
    {
        &self.bodies[i]
    }

    /// Whether some body has the id `id`.
    pub fn contains_id(&self, id: u64) -> (r: bool)
        ensures
            r == has_id(self@, id),
    {
        let mut i: usize = 0;
        while i < self.bodies.len()
            invariant
                i <= self@.len(),
                forall|k: int| 0 <= k < i ==> #[trigger] self@[k].id != id,
            decreases self@.len() - i,
        {
            if self.bodies[i].id == id {
                assert(self@[i as int].id == id);
                return true;
            }
            i = i + 1;
        }
        false
    }

    /// Adds a body at the end of creation order, with an empty trajectory.
    /// A zero mass is rejected first, then an id that is already taken.
    pub fn create(&mut self, id: u64, mass: Mass, coord: Coord<V>, velocity: Velocity<V>) -> (r:
        Result<(), BodyError>)
        requires
            valid_states(old(self)@),
        ensures
            valid_states(final(self)@),
            mass.0 == 0 <==> r == Err::<(), BodyError>(BodyError::NonPositiveMass),
            (mass.0 > 0 && has_id(old(self)@, id)) <==> r == Err::<(), BodyError>(
                BodyError::DuplicateId,
            ),
            r is Ok <==> (mass.0 > 0 && !has_id(old(self)@, id)),
            r is Err ==> final(self)@ == old(self)@,
            r is Ok ==> final(self)@ == old(self)@.push(
                BodyState {
                    id,
                    mass: mass.0,
                    coord: coord.0,
                    velocity: velocity.0,
                    trajectory: Seq::empty(),
                },
            ),
    {
        if mass.0 == 0 {
            return Err(BodyError::NonPositiveMass);
        }
        if self.contains_id(id) {
            return Err(BodyError::DuplicateId);
        }
        let body = Body { id, mass, coord, velocity, trajectory: Trajectory::new() };
        let ghost added = body@;
        self.bodies.push(body);
        assert(self@ =~= old(self)@.push(added));
        Ok(())
    }

    /// Commits one tick: body `i` takes velocity `velocities[i]` and position
    /// `coords[i]`, and the new position is appended to its trajectory. All bodies
    /// change together or, when the numbers of values do not match the number of
    /// bodies, none does.
    pub fn advance(&mut self, velocities: &Vec<V>, coords: &Vec<V>) -> (r: Result<(), BodyError>)
        requires
            valid_states(old(self)@),
        ensures
            valid_states(final(self)@),
            final(self)@ == tick_outcome(old(self)@, velocities@, coords@),
            r is Ok <==> fits(old(self)@, velocities@, coords@),
            r is Err ==> r == Err::<(), BodyError>(BodyError::StateMismatch),
    {
        let n = self.bodies.len();
        if velocities.len() != n || coords.len() != n {
            return Err(BodyError::StateMismatch);
        }
        let mut i: usize = 0;
        while i < n
            invariant
                n == old(self)@.len(),
                velocities@.len() == n,
                coords@.len() == n,
                i <= n,
                self@.len() == n,
                forall|k: int|
                    0 <= k < i ==> #[trigger] self@[k] == advanced(
                        old(self)@,
                        velocities@,
                        coords@,
                    )[k],
                forall|k: int| i <= k < n ==> #[trigger] self@[k] == old(self)@[k],
            decreases n - i,
        {
            let ghost pre = self.bodies@;
            let ghost before = self@;
            assert(before[i as int] == old(self)@[i as int]);
            let b = &mut self.bodies[i];
            b.velocity = Velocity(velocities[i]);
            b.coord = Coord(coords[i]);
            b.trajectory.record(coords[i]);
            assert forall|k: int| 0 <= k < n && k != i implies #[trigger] self@[k] == before[k] by {
                assert(self.bodies@[k] == pre[k]);
            }
            i = i + 1;
        }
        assert(self@ =~= advanced(old(self)@, velocities@, coords@));
        Ok(())
    }
}

} // verus!

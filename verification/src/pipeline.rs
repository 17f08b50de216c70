//! The substep pipeline over a collection of bodies.
//!
//! One substep runs four phases in a fixed order: *integrate* predicts the
//! pose of every body, *detect and resolve* turns the contacts between the
//! predicted poses into impulses that are only collected, *apply* moves each
//! prediction once by the mean of what the body collected, and *derive*
//! reconstructs the velocities and commits the predictions as the new poses.
//! Because nothing is applied before every contact was visited, the outcome
//! of a substep does not depend on the order in which they were.
//!
//! The contacts come from a narrow phase outside this library, which has to
//! look at the predicted poses. A substep is therefore made of three calls:
//! [`predict`], then [`detect`] with the narrow phase, then [`correct`].
//! [`crate::tick::Pipeline`] strings the substeps of one tick together.

use vstd::prelude::*;
use crate::body::{all_wf, correction, spec_correction, Body, Hit, Placement};
use crate::collider::{contact, spec_contact, Contact};
use crate::fixed::Fixed;
use crate::parameters::PhysicsParameters;

verus! {

/// Whether `hit` names two different bodies among `len` and has a contact
/// with a direction to push in. Any other hit is passed over.
pub open spec fn spec_hit_counts(len: nat, hit: Hit) -> bool {
    &&& hit.first < len
    &&& hit.second < len
    &&& hit.first != hit.second
    &&& hit.contact.spec_is_usable()
}

/// The bodies after the impulses of one hit were collected: each of the two
/// bodies collects its corrective impulse at its own contact point.
pub open spec fn spec_resolve(bodies: Seq<Body>, hit: Hit, stiffness: Fixed) -> Seq<Body> {
    if spec_hit_counts(bodies.len(), hit) {
        bodies.update(
            hit.first as int,
            bodies[hit.first as int].spec_touched(
                hit.contact.points.0,
                spec_correction(stiffness, hit.contact.depth, hit.contact.normals.0),
            ),
        ).update(
            hit.second as int,
            bodies[hit.second as int].spec_touched(
                hit.contact.points.1,
                spec_correction(stiffness, hit.contact.depth, hit.contact.normals.1),
            ),
        )
    } else {
        bodies
    }
}

/// The bodies after the impulses of all `hits` were collected, first to last.
pub open spec fn spec_resolve_all(bodies: Seq<Body>, hits: Seq<Hit>, stiffness: Fixed) -> Seq<
    Body,
>
    decreases hits.len(),
{
    if hits.len() == 0 {
        bodies
    } else {
        spec_resolve(spec_resolve_all(bodies, hits.drop_last(), stiffness), hits.last(), stiffness)
    }
}

/// The bodies after the linear part of *integrate*.
pub open spec fn spec_integrate_translation(
    bodies: Seq<Body>,
    parameters: PhysicsParameters,
    substeps: usize,
) -> Seq<Body> {
    Seq::new(
        bodies.len(),
        |i: int|
            bodies[i].spec_integrate_translation(
                parameters.spec_gravity_force(),
                parameters.spec_timestep(substeps),
            ),
    )
}

/// The bodies after the angular part of *integrate*.
pub open spec fn spec_integrate_rotation(
    bodies: Seq<Body>,
    parameters: PhysicsParameters,
    substeps: usize,
) -> Seq<Body> {
    Seq::new(
        bodies.len(),
        |i: int| bodies[i].spec_integrate_rotation(parameters.spec_timestep(substeps)),
    )
}

/// The bodies after *detect and resolve*: nothing is collected unless the
/// time step is positive.
pub open spec fn spec_contacts(
    bodies: Seq<Body>,
    hits: Seq<Hit>,
    parameters: PhysicsParameters,
    substeps: usize,
) -> Seq<Body> {
    if parameters.spec_timestep(substeps).raw > 0 {
        spec_resolve_all(bodies, hits, parameters.stiffness)
    } else {
        bodies
    }
}

/// The bodies after the linear part of *apply* and *derive*.
pub open spec fn spec_derive_translation(
    bodies: Seq<Body>,
    parameters: PhysicsParameters,
    substeps: usize,
) -> Seq<Body> {
    Seq::new(
        bodies.len(),
        |i: int| bodies[i].spec_derive_translation(parameters.spec_timestep(substeps)),
    )
}

/// The bodies after the angular part of *apply* and *derive*.
pub open spec fn spec_derive_rotation(
    bodies: Seq<Body>,
    parameters: PhysicsParameters,
    substeps: usize,
) -> Seq<Body> {
    Seq::new(
        bodies.len(),
        |i: int| bodies[i].spec_derive_rotation(parameters.spec_timestep(substeps)),
    )
}

/// *Integrate*, linear part: every body with linear motion predicts its
/// position under gravity.
pub fn integrate_translation(
    bodies: &mut Vec<Body>,
    parameters: &PhysicsParameters,
    substeps: usize,
)
    ensures
        final(bodies)@ == spec_integrate_translation(old(bodies)@, *parameters, substeps),
        all_wf(old(bodies)@) ==> all_wf(final(bodies)@),
{
    let dt = parameters.timestep(substeps);
    let force = parameters.gravity_force();
    let ghost before = bodies@;
    let n = bodies.len();
    let mut i: usize = 0;
    while i < n
        invariant
            0 <= i <= n,
            bodies@.len() == n,
            before.len() == n,
            dt == parameters.spec_timestep(substeps),
            force == parameters.spec_gravity_force(),
            forall|j: int| 0 <= j < i ==> bodies@[j] == before[j].spec_integrate_translation(force, dt),
            forall|j: int| i <= j < n ==> bodies@[j] == before[j],
        decreases n - i,
    {
        let mut body = bodies[i];
        match body.linear {
            Some(mut l) => {
                l.integrate(body.translation, force, body.inv_mass, dt);
                body.linear = Some(l);
            },
            None => {},
        }
        bodies.set(i, body);
        i += 1;
    }
    assert(bodies@ =~= spec_integrate_translation(before, *parameters, substeps));
}

/// *Integrate*, angular part: every body with angular motion predicts its
/// rotation.
pub fn integrate_rotation(bodies: &mut Vec<Body>, parameters: &PhysicsParameters, substeps: usize)
    ensures
        final(bodies)@ == spec_integrate_rotation(old(bodies)@, *parameters, substeps),
        all_wf(old(bodies)@) ==> all_wf(final(bodies)@),
{
    let dt = parameters.timestep(substeps);
    let ghost before = bodies@;
    let n = bodies.len();
    let mut i: usize = 0;
    while i < n
        invariant
            0 <= i <= n,
            bodies@.len() == n,
            before.len() == n,
            dt == parameters.spec_timestep(substeps),
            forall|j: int| 0 <= j < i ==> bodies@[j] == before[j].spec_integrate_rotation(dt),
            forall|j: int| i <= j < n ==> bodies@[j] == before[j],
            forall|j: int| 0 <= j < i && before[j].wf() ==> (#[trigger] bodies@[j]).wf(),
        decreases n - i,
    {
        let mut body = bodies[i];
        match body.angular {
            Some(mut a) => {
                a.integrate(body.rotation, body.inv_moment_of_inertia, dt);
                body.angular = Some(a);
            },
            None => {},
        }
        bodies.set(i, body);
        i += 1;
    }
    assert(bodies@ =~= spec_integrate_rotation(before, *parameters, substeps));
}

/// Collects the impulses of one hit in its two bodies. A hit that names a
/// body that is not there, or the same body twice, or whose contact has a
/// normal of length zero, is passed over.
pub fn resolve(bodies: &mut Vec<Body>, hit: &Hit, stiffness: Fixed)
    ensures
        final(bodies)@ == spec_resolve(old(bodies)@, *hit, stiffness),
        all_wf(old(bodies)@) ==> all_wf(final(bodies)@),
{
    let n = bodies.len();
    if hit.first < n && hit.second < n && hit.first != hit.second && hit.contact.is_usable() {
        let mut first = bodies[hit.first];
        first.touch(
            hit.contact.points.0,
            correction(stiffness, hit.contact.depth, hit.contact.normals.0),
        );
        bodies.set(hit.first, first);
        let mut second = bodies[hit.second];
        second.touch(
            hit.contact.points.1,
            correction(stiffness, hit.contact.depth, hit.contact.normals.1),
        );
        bodies.set(hit.second, second);
    }
}

/// *Detect and resolve*: collects the impulses of every hit, first to last.
/// Nothing is applied yet. Without effect unless the time step is positive.
pub fn contacts(
    bodies: &mut Vec<Body>,
    hits: &Vec<Hit>,
    parameters: &PhysicsParameters,
    substeps: usize,
)
    ensures
        final(bodies)@ == spec_contacts(old(bodies)@, hits@, *parameters, substeps),
        final(bodies)@.len() == old(bodies)@.len(),
        all_wf(old(bodies)@) ==> all_wf(final(bodies)@),
{
    let dt = parameters.timestep(substeps);
    if !dt.is_positive() {
        return;
    }
    let ghost before = bodies@;
    let stiffness = parameters.stiffness;
    let mut k: usize = 0;
    while k < hits.len()
        invariant
            0 <= k <= hits.len(),
            bodies@ == spec_resolve_all(before, hits@.take(k as int), stiffness),
            bodies@.len() == before.len(),
            all_wf(before) ==> all_wf(bodies@),
        decreases hits.len() - k,
    {
        proof {
            assert(hits@.take(k + 1).drop_last() =~= hits@.take(k as int));
            assert(hits@.take(k + 1).last() == hits@[k as int]);
        }
        resolve(bodies, &hits[k], stiffness);
        k += 1;
    }
    assert(hits@.take(k as int) =~= hits@);
}

/// *Apply* and *derive*, linear part: every body with linear motion applies
/// what it collected, reconstructs its velocity and commits its predicted
/// position. Without effect unless the time step is positive.
pub fn derive_translation(bodies: &mut Vec<Body>, parameters: &PhysicsParameters, substeps: usize)
    ensures
        final(bodies)@ == spec_derive_translation(old(bodies)@, *parameters, substeps),
        all_wf(old(bodies)@) ==> all_wf(final(bodies)@),
{
    let dt = parameters.timestep(substeps);
    let ghost before = bodies@;
    let n = bodies.len();
    let mut i: usize = 0;
    while i < n
        invariant
            0 <= i <= n,
            bodies@.len() == n,
            before.len() == n,
            dt == parameters.spec_timestep(substeps),
            forall|j: int| 0 <= j < i ==> bodies@[j] == before[j].spec_derive_translation(dt),
            forall|j: int| i <= j < n ==> bodies@[j] == before[j],
        decreases n - i,
    {
        let mut body = bodies[i];
        if dt.is_positive() {
            match body.linear {
                Some(mut l) => {
                    l.apply_impulses();
                    l.derive(body.translation, dt);
                    body.translation = l.translation;
                    body.linear = Some(l);
                },
                None => {},
            }
        }
        bodies.set(i, body);
        i += 1;
    }
    assert(bodies@ =~= spec_derive_translation(before, *parameters, substeps));
}

/// *Apply* and *derive*, angular part: every body with angular motion
/// applies what it collected, reconstructs its angular velocity and commits
/// its predicted rotation. Without effect unless the time step is positive.
pub fn derive_rotation(bodies: &mut Vec<Body>, parameters: &PhysicsParameters, substeps: usize)
    ensures
        final(bodies)@ == spec_derive_rotation(old(bodies)@, *parameters, substeps),
        all_wf(old(bodies)@) ==> all_wf(final(bodies)@),
{
    let dt = parameters.timestep(substeps);
    let ghost before = bodies@;
    let n = bodies.len();
    let mut i: usize = 0;
    while i < n
        invariant
            0 <= i <= n,
            bodies@.len() == n,
            before.len() == n,
            dt == parameters.spec_timestep(substeps),
            forall|j: int| 0 <= j < i ==> bodies@[j] == before[j].spec_derive_rotation(dt),
            forall|j: int| i <= j < n ==> bodies@[j] == before[j],
            forall|j: int| 0 <= j < i && before[j].wf() ==> (#[trigger] bodies@[j]).wf(),
        decreases n - i,
    {
        let mut body = bodies[i];
        if dt.is_positive() {
            match body.angular {
                Some(mut a) => {
                    a.apply_impulses();
                    a.derive(body.rotation, dt);
                    body.rotation = a.rotation;
                    body.angular = Some(a);
                },
                None => {},
            }
        }
        bodies.set(i, body);
        i += 1;
    }
    assert(bodies@ =~= spec_derive_rotation(before, *parameters, substeps));
}

/// The bodies after *integrate*: the linear part, then the angular part.
pub open spec fn spec_predict(bodies: Seq<Body>, parameters: PhysicsParameters, substeps: usize) -> Seq<
    Body,
> {
    spec_integrate_rotation(
        spec_integrate_translation(bodies, parameters, substeps),
        parameters,
        substeps,
    )
}

/// The bodies after *detect and resolve*, *apply* and *derive*.
pub open spec fn spec_correct(
    bodies: Seq<Body>,
    hits: Seq<Hit>,
    parameters: PhysicsParameters,
    substeps: usize,
) -> Seq<Body> {
    spec_derive_rotation(
        spec_derive_translation(
            spec_contacts(bodies, hits, parameters, substeps),
            parameters,
            substeps,
        ),
        parameters,
        substeps,
    )
}

/// The first half of a substep: *integrate*. Afterwards the narrow phase
/// looks at [`Body::future_translation`] and [`Body::future_rotation`].
pub fn predict(bodies: &mut Vec<Body>, parameters: &PhysicsParameters, substeps: usize)
    ensures
        final(bodies)@ == spec_predict(old(bodies)@, *parameters, substeps),
        final(bodies)@.len() == old(bodies)@.len(),
        all_wf(old(bodies)@) ==> all_wf(final(bodies)@),
{
    integrate_translation(bodies, parameters, substeps);
    integrate_rotation(bodies, parameters, substeps);
}

/// The second half of a substep: *detect and resolve* with the hits that the
/// narrow phase found, then *apply* and *derive*. What it leaves behind is a
/// function of the bodies, the hits, the parameters and the number of
/// substeps alone: the same substep run again from the same state gives the
/// same state.
pub fn correct(
    bodies: &mut Vec<Body>,
    hits: &Vec<Hit>,
    parameters: &PhysicsParameters,
    substeps: usize,
)
    ensures
        final(bodies)@ == spec_correct(old(bodies)@, hits@, *parameters, substeps),
        final(bodies)@.len() == old(bodies)@.len(),
        all_wf(old(bodies)@) ==> all_wf(final(bodies)@),
{
    contacts(bodies, hits, parameters, substeps);
    derive_translation(bodies, parameters, substeps);
    derive_rotation(bodies, parameters, substeps);
}

/// The pairs `(first, first + 1), ..., (first, end - 1)`.
pub open spec fn spec_row(first: usize, end: usize) -> Seq<(usize, usize)> {
    Seq::new(
        if first < end {
            (end - first - 1) as nat
        } else {
            0
        },
        |k: int| (first, (first + 1 + k) as usize),
    )
}

/// The pairs `(i, j)` with `i < j < len` and `i < rows`, ordered by `i`, then
/// by `j`.
pub open spec fn spec_pairs_below(len: usize, rows: nat) -> Seq<(usize, usize)>
    decreases rows,
{
    if rows == 0 {
        Seq::empty()
    } else {
        spec_pairs_below(len, (rows - 1) as nat) + spec_row((rows - 1) as usize, len)
    }
}

/// Every unordered pair of `len` handles, once: the pairs that the narrow
/// phase is asked about.
pub fn pairs(len: usize) -> (r: Vec<(usize, usize)>)
    ensures
        r@ == spec_pairs_below(len, len as nat),
        forall|k: int| 0 <= k < r@.len() ==> (#[trigger] r@[k]).0 < r@[k].1 < len,
{
    let mut list: Vec<(usize, usize)> = Vec::new();
    let mut i: usize = 0;
    while i < len
        invariant
            0 <= i <= len,
            list@ == spec_pairs_below(len, i as nat),
            forall|k: int| 0 <= k < list@.len() ==> (#[trigger] list@[k]).0 < list@[k].1 < len,
        decreases len - i,
    {
        let ghost done = list@;
        let mut j: usize = i + 1;
        while j < len
            invariant
                i < len,
                i + 1 <= j <= len,
                list@ == done + spec_row(i, j),
                forall|k: int| 0 <= k < list@.len() ==> (#[trigger] list@[k]).0 < list@[k].1 < len,
            decreases len - j,
        {
            list.push((i, j));
            assert(list@ =~= done + spec_row(i, (j + 1) as usize));
            j += 1;
        }
        assert(list@ =~= done + spec_row(i, len));
        i += 1;
    }
    list
}

/// The hits among the pairs `list`, where `answers` holds what the narrow
/// phase answered for each pair: every answer that [`contact`] admits makes
/// a hit, in the order of the pairs.
pub open spec fn spec_hits(list: Seq<(usize, usize)>, answers: Seq<Option<Contact>>) -> Seq<Hit>
    decreases list.len(),
{
    if list.len() == 0 || answers.len() != list.len() {
        Seq::empty()
    } else {
        let rest = spec_hits(list.drop_last(), answers.drop_last());
        match spec_contact(answers.last()) {
            Some(c) => rest.push(Hit { first: list.last().0, second: list.last().1, contact: c }),
            None => rest,
        }
    }
}

/// Whether `answers` holds, for each pair of `list`, an answer of `narrow`
/// to the two bodies at the poses they are predicted to have.
pub open spec fn spec_answered<F: Fn(&Placement, &Placement) -> Option<Contact>>(
    bodies: Seq<Body>,
    narrow: &F,
    list: Seq<(usize, usize)>,
    answers: Seq<Option<Contact>>,
) -> bool {
    &&& answers.len() == list.len()
    &&& forall|k: int|
        0 <= k < list.len() ==> call_ensures(
            *narrow,
            (&bodies[list[k].0 as int].spec_future(), &bodies[list[k].1 as int].spec_future()),
            #[trigger] answers[k],
        )
}

/// Whether `hits` are the hits between `bodies` according to `narrow`: the
/// narrow phase was asked about every unordered pair of bodies once, at
/// their predicted poses, and `hits` holds what it answered.
pub open spec fn spec_detected<F: Fn(&Placement, &Placement) -> Option<Contact>>(
    bodies: Seq<Body>,
    narrow: &F,
    hits: Seq<Hit>,
) -> bool {
    exists|answers: Seq<Option<Contact>>|
        #[trigger] spec_answered(
            bodies,
            narrow,
            spec_pairs_below(bodies.len() as usize, bodies.len()),
            answers,
        ) && hits == spec_hits(spec_pairs_below(bodies.len() as usize, bodies.len()), answers)
}

/// *Detect*: asks `narrow` about every unordered pair of bodies, at the
/// poses they are predicted to have, and returns the hits in the order of
/// [`pairs`].
pub fn detect<F: Fn(&Placement, &Placement) -> Option<Contact>>(
    bodies: &Vec<Body>,
    narrow: &F,
) -> (hits: Vec<Hit>)
    requires
        forall|a: &Placement, b: &Placement| call_requires(*narrow, (a, b)),
    ensures
        spec_detected(bodies@, narrow, hits@),
{
    let list = pairs(bodies.len());
    let mut hits: Vec<Hit> = Vec::new();
    let ghost mut answers: Seq<Option<Contact>> = Seq::empty();
    let mut k: usize = 0;
    while k < list.len()
        invariant
            0 <= k <= list.len(),
            list@ == spec_pairs_below(bodies.len(), bodies.len() as nat),
            forall|j: int|
                0 <= j < list@.len() ==> (#[trigger] list@[j]).0 < list@[j].1 < bodies.len(),
            forall|a: &Placement, b: &Placement| call_requires(*narrow, (a, b)),
            spec_answered(bodies@, narrow, list@.take(k as int), answers),
            hits@ == spec_hits(list@.take(k as int), answers),
        decreases list.len() - k,
    {
        let (first, second) = list[k];
        let one = bodies[first].future();
        let other = bodies[second].future();
        let found = narrow(&one, &other);
        proof {
            let ghost before = answers;
            answers = answers.push(found);
            assert(list@.take(k + 1).drop_last() =~= list@.take(k as int));
            assert(answers.drop_last() =~= before);
        }
        match contact(found) {
            Some(c) => {
                hits.push(Hit { first, second, contact: c });
            },
            None => {},
        }
        k += 1;
    }
    proof {
        assert(list@.take(k as int) =~= list@);
        assert(bodies@.len() as usize == bodies.len());
        assert(spec_answered(
            bodies@,
            narrow,
            spec_pairs_below(bodies@.len() as usize, bodies@.len()),
            answers,
        ));
    }
    hits
}

/// Whether `p` comes before `q` when pairs are ordered by their first
/// handle, then by their second.
pub open spec fn spec_pair_before(p: (usize, usize), q: (usize, usize)) -> bool {
    p.0 < q.0 || (p.0 == q.0 && p.1 < q.1)
}

/// Every pair listed has its smaller handle first, below `rows`, and its
/// greater handle below `len`.
pub proof fn lemma_pairs_valid(len: usize, rows: nat, k: int)
    requires
        rows <= len,
        0 <= k < spec_pairs_below(len, rows).len(),
    ensures
        spec_pairs_below(len, rows)[k].0 < rows,
        spec_pairs_below(len, rows)[k].0 < spec_pairs_below(len, rows)[k].1 < len,
    decreases rows,
{
    if rows > 0 {
        let prefix = spec_pairs_below(len, (rows - 1) as nat);
        if k < prefix.len() {
            lemma_pairs_valid(len, (rows - 1) as nat, k);
        }
    }
}

/// Every unordered pair is listed.
pub proof fn lemma_pairs_complete(len: usize, rows: nat, i: usize, j: usize)
    requires
        rows <= len,
        i < rows,
        i < j < len,
    ensures
        spec_pairs_below(len, rows).contains((i, j)),
    decreases rows,
{
    let prefix = spec_pairs_below(len, (rows - 1) as nat);
    let row = spec_row((rows - 1) as usize, len);
    if i == rows - 1 {
        let k = j - i - 1;
        assert(row[k] == (i, j));
        assert((prefix + row)[prefix.len() + k] == (i, j));
    } else {
        lemma_pairs_complete(len, (rows - 1) as nat, i, j);
        let k = choose|k: int| 0 <= k < prefix.len() && prefix[k] == (i, j);
        assert((prefix + row)[k] == (i, j));
    }
}

/// The pairs are listed in order, so none is listed twice.
pub proof fn lemma_pairs_ordered(len: usize, rows: nat, a: int, b: int)
    requires
        rows <= len,
        0 <= a < b < spec_pairs_below(len, rows).len(),
    ensures
        spec_pair_before(spec_pairs_below(len, rows)[a], spec_pairs_below(len, rows)[b]),
    decreases rows,
{
    if rows > 0 {
        let prefix = spec_pairs_below(len, (rows - 1) as nat);
        if b < prefix.len() {
            lemma_pairs_ordered(len, (rows - 1) as nat, a, b);
        } else if a < prefix.len() {
            lemma_pairs_valid(len, (rows - 1) as nat, a);
        }
    }
}

} // verus!

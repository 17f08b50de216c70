//! One tick of the simulation: a fixed number of substeps, run to the end.
//!
//! The host calls [`Pipeline::tick`] once per tick and hands it the narrow
//! phase as a function. A host that cannot do so calls [`Pipeline::begin`]
//! instead and, as long as the answer is [`Request::Detect`], finds the hits
//! between the predicted poses itself and hands them to
//! [`Pipeline::resolve`]. The length of a substep comes from the parameters
//! alone, never from a clock, so a tick does the same whatever the frame
//! rate is.

use vstd::prelude::*;
use crate::body::{all_wf, Body, Hit, Placement};
use crate::collider::Contact;
use crate::parameters::{PhysicsParameters, PhysicsPlugin};
use crate::pipeline::{correct, detect, predict, spec_correct, spec_detected, spec_predict};

verus! {

/// What the host has to do next.
#[derive(Clone, Copy, Debug, PartialEq, Eq, Structural)]
pub enum Request {
    /// Nothing: the tick is over.
    Done,
    /// Find the contacts between the predicted poses and call `resolve`.
    Detect,
}

/// The bodies of a simulation and the state of the tick that is running.
pub struct Pipeline {
    /// The bodies; a body's handle is its index.
    pub bodies: Vec<Body>,
    pub parameters: PhysicsParameters,
    /// The number of substeps per tick.
    pub substeps: usize,
    /// The number of substeps of the running tick that still wait for their
    /// contacts; zero between ticks.
    pub pending: usize,
}

/// The bodies after the substeps that `answers` belong to, one list of hits
/// for each: `bodies` are predicted and wait for the first answer, every
/// answer finishes a substep, and between two answers stands the
/// *integrate* of the next.
pub open spec fn spec_resume(
    bodies: Seq<Body>,
    answers: Seq<Seq<Hit>>,
    parameters: PhysicsParameters,
    substeps: usize,
) -> Seq<Body>
    decreases answers.len(),
{
    if answers.len() == 0 {
        bodies
    } else if answers.len() == 1 {
        spec_correct(bodies, answers[0], parameters, substeps)
    } else {
        spec_correct(
            spec_predict(
                spec_resume(bodies, answers.drop_last(), parameters, substeps),
                parameters,
                substeps,
            ),
            answers.last(),
            parameters,
            substeps,
        )
    }
}

/// The predicted bodies that wait for the answer with the index `s`.
pub open spec fn spec_waiting(
    bodies: Seq<Body>,
    answers: Seq<Seq<Hit>>,
    parameters: PhysicsParameters,
    substeps: usize,
    s: int,
) -> Seq<Body> {
    if s == 0 {
        bodies
    } else {
        spec_predict(
            spec_resume(bodies, answers.take(s), parameters, substeps),
            parameters,
            substeps,
        )
    }
}

/// Whether every answer is what `narrow` found between the bodies that
/// waited for it.
pub open spec fn spec_all_detected<F: Fn(&Placement, &Placement) -> Option<Contact>>(
    bodies: Seq<Body>,
    narrow: &F,
    answers: Seq<Seq<Hit>>,
    parameters: PhysicsParameters,
    substeps: usize,
) -> bool {
    forall|s: int|
        0 <= s < answers.len() ==> spec_detected(
            #[trigger] spec_waiting(bodies, answers, parameters, substeps, s),
            narrow,
            answers[s],
        )
}

impl Pipeline {
    /// Whether every body is well formed.
    pub open spec fn wf(&self) -> bool {
        all_wf(self.bodies@)
    }

    /// Whether a tick does anything: there is a substep, and its length is
    /// positive.
    pub open spec fn spec_runs(&self) -> bool {
        self.substeps > 0 && self.parameters.spec_timestep(self.substeps).raw > 0
    }

    /// The number of substeps that a call of `tick` runs: those that still
    /// wait for their contacts or, between ticks, those of a new tick.
    pub open spec fn spec_owed(&self) -> nat {
        if self.pending > 0 {
            self.pending as nat
        } else if self.spec_runs() {
            self.substeps as nat
        } else {
            0
        }
    }

    /// The predicted bodies that a call of `tick` first asks the narrow
    /// phase about.
    pub open spec fn spec_start(&self) -> Seq<Body> {
        if self.pending == 0 && self.spec_runs() {
            spec_predict(self.bodies@, self.parameters, self.substeps)
        } else {
            self.bodies@
        }
    }

    /// Whether `after` is what a call of `tick` with the narrow phase
    /// `narrow` leaves of the bodies, when `answers` is what `narrow` found
    /// in each of its substeps.
    pub open spec fn spec_ticked<F: Fn(&Placement, &Placement) -> Option<Contact>>(
        &self,
        narrow: &F,
        answers: Seq<Seq<Hit>>,
        after: Seq<Body>,
    ) -> bool {
        &&& answers.len() == self.spec_owed()
        &&& spec_all_detected(self.spec_start(), narrow, answers, self.parameters, self.substeps)
        &&& after == spec_resume(self.spec_start(), answers, self.parameters, self.substeps)
    }

    /// A simulation without bodies, between ticks.
    pub fn new(parameters: PhysicsParameters, plugin: PhysicsPlugin) -> (r: Pipeline)
        ensures
            r.bodies@ == Seq::<Body>::empty(),
            r.parameters == parameters,
            r.substeps == plugin.substeps,
            r.pending == 0,
            r.wf(),
    {
        Pipeline { bodies: Vec::new(), parameters, substeps: plugin.substeps, pending: 0 }
    }

    /// Adds a body and returns its handle.
    pub fn spawn(&mut self, body: Body) -> (handle: usize)
        ensures
            final(self).bodies@ == old(self).bodies@.push(body),
            handle == old(self).bodies@.len(),
            final(self).parameters == old(self).parameters,
            final(self).substeps == old(self).substeps,
            final(self).pending == old(self).pending,
            old(self).wf() && body.wf() ==> final(self).wf(),
    {
        let handle = self.bodies.len();
        self.bodies.push(body);
        handle
    }

    /// Starts a tick: where a tick does anything, runs *integrate* of the
    /// first substep and asks for its contacts. While an earlier tick still
    /// waits for contacts, only repeats the request.
    pub fn begin(&mut self) -> (r: Request)
        ensures
            final(self).parameters == old(self).parameters,
            final(self).substeps == old(self).substeps,
            old(self).pending == 0 && old(self).spec_runs() ==> ({
                &&& r == Request::Detect
                &&& final(self).pending == old(self).substeps
                &&& final(self).bodies@ == spec_predict(
                    old(self).bodies@,
                    old(self).parameters,
                    old(self).substeps,
                )
            }),
            old(self).pending == 0 && !old(self).spec_runs() ==> ({
                &&& r == Request::Done
                &&& final(self).pending == 0
                &&& final(self).bodies@ == old(self).bodies@
            }),
            old(self).pending > 0 ==> ({
                &&& r == Request::Detect
                &&& final(self).pending == old(self).pending
                &&& final(self).bodies@ == old(self).bodies@
            }),
            old(self).wf() ==> final(self).wf(),
    {
        if self.pending > 0 {
            return Request::Detect;
        }
        if self.substeps == 0 || !self.parameters.timestep(self.substeps).is_positive() {
            return Request::Done;
        }
        predict(&mut self.bodies, &self.parameters, self.substeps);
        self.pending = self.substeps;
        Request::Detect
    }

    /// Finishes the substep that waits for its contacts: *detect and
    /// resolve* with `hits`, *apply*, *derive*. Where the tick has another
    /// substep, runs its *integrate* and asks for its contacts. Between
    /// ticks, does nothing.
    pub fn resolve(&mut self, hits: &Vec<Hit>) -> (r: Request)
        ensures
            final(self).parameters == old(self).parameters,
            final(self).substeps == old(self).substeps,
            old(self).pending == 0 ==> ({
                &&& r == Request::Done
                &&& final(self).pending == 0
                &&& final(self).bodies@ == old(self).bodies@
            }),
            old(self).pending == 1 ==> ({
                &&& r == Request::Done
                &&& final(self).pending == 0
                &&& final(self).bodies@ == spec_correct(
                    old(self).bodies@,
                    hits@,
                    old(self).parameters,
                    old(self).substeps,
                )
            }),
            old(self).pending > 1 ==> ({
                &&& r == Request::Detect
                &&& final(self).pending == old(self).pending - 1
                &&& final(self).bodies@ == spec_predict(
                    spec_correct(
                        old(self).bodies@,
                        hits@,
                        old(self).parameters,
                        old(self).substeps,
                    ),
                    old(self).parameters,
                    old(self).substeps,
                )
            }),
            old(self).wf() ==> final(self).wf(),
    {
        if self.pending == 0 {
            return Request::Done;
        }
        correct(&mut self.bodies, hits, &self.parameters, self.substeps);
        self.pending = self.pending - 1;
        if self.pending == 0 {
            return Request::Done;
        }
        predict(&mut self.bodies, &self.parameters, self.substeps);
        Request::Detect
    }

    /// Runs one tick to its end: in each substep *integrate*, then `narrow`
    /// asked about every pair of bodies at their predicted poses, then
    /// *resolve*, *apply* and *derive*. A tick that still waits for contacts
    /// is finished instead. Without effect where a tick has no substep or
    /// the length of a substep is not positive.
    pub fn tick<F: Fn(&Placement, &Placement) -> Option<Contact>>(&mut self, narrow: &F)
        requires
            forall|a: &Placement, b: &Placement| call_requires(*narrow, (a, b)),
        ensures
            final(self).parameters == old(self).parameters,
            final(self).substeps == old(self).substeps,
            final(self).pending == 0,
            exists|answers: Seq<Seq<Hit>>|
                #[trigger] old(self).spec_ticked(narrow, answers, final(self).bodies@),
            old(self).wf() ==> final(self).wf(),
    {
        self.begin();
        let ghost start = self.bodies@;
        let ghost owed = self.pending;
        let ghost mut answers: Seq<Seq<Hit>> = Seq::empty();
        while self.pending > 0
            invariant
                self.parameters == old(self).parameters,
                self.substeps == old(self).substeps,
                forall|a: &Placement, b: &Placement| call_requires(*narrow, (a, b)),
                start == old(self).spec_start(),
                owed == old(self).spec_owed(),
                answers.len() + self.pending == owed,
                spec_all_detected(start, narrow, answers, self.parameters, self.substeps),
                self.pending > 0 ==> self.bodies@ == spec_waiting(
                    start,
                    answers,
                    self.parameters,
                    self.substeps,
                    answers.len() as int,
                ),
                self.pending == 0 ==> self.bodies@ == spec_resume(
                    start,
                    answers,
                    self.parameters,
                    self.substeps,
                ),
                old(self).wf() ==> self.wf(),
            decreases self.pending,
        {
            let hits = detect(&self.bodies, narrow);
            proof {
                let ghost before = answers;
                let ghost n = before.len() as int;
                answers = before.push(hits@);
                assert(answers.drop_last() =~= before);
                assert(answers.take(n) =~= before);
                assert(before.take(n) =~= before);
                assert forall|s: int| 0 <= s < answers.len() implies spec_detected(
                    #[trigger] spec_waiting(start, answers, self.parameters, self.substeps, s),
                    narrow,
                    answers[s],
                ) by {
                    if s < n {
                        assert(answers.take(s) =~= before.take(s));
                        assert(spec_waiting(start, answers, self.parameters, self.substeps, s)
                            == spec_waiting(start, before, self.parameters, self.substeps, s));
                    }
                }
            }
            self.resolve(&hits);
            proof {
                assert(answers.take(answers.len() as int) =~= answers);
            }
        }
        proof {
            assert(old(self).spec_ticked(narrow, answers, self.bodies@));
        }
    }
}

} // verus!

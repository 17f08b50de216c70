//! Replay: what a tick ends in depends on nothing but what it started from,
//! as long as the narrow phase answers the same question the same way.

use vstd::prelude::*;
use crate::body::{Body, Hit, Placement};
use crate::collider::Contact;
use crate::laws::contacts::lemma_resolve_only_collects;
use crate::parameters::PhysicsParameters;
use crate::pipeline::{spec_answered, spec_detected, spec_hits, spec_pairs_below, spec_predict};
use crate::tick::{spec_all_detected, spec_resume, spec_waiting, Pipeline};

verus! {

/// Whether the answer of `narrow` is a function of its arguments: asked
/// twice about the same shapes at the same poses, it answers the same.
pub open spec fn spec_functional<F: Fn(&Placement, &Placement) -> Option<Contact>>(
    narrow: &F,
) -> bool {
    forall|a: &Placement, b: &Placement, x: Option<Contact>, y: Option<Contact>|
        #![trigger call_ensures(*narrow, (a, b), x), call_ensures(*narrow, (a, b), y)]
        call_ensures(*narrow, (a, b), x) && call_ensures(*narrow, (a, b), y) ==> x == y
}

/// Under a narrow phase whose answer is a function of its arguments, the
/// same bodies give the same hits.
pub proof fn lemma_detected_unique<F: Fn(&Placement, &Placement) -> Option<Contact>>(
    bodies: Seq<Body>,
    narrow: &F,
    first: Seq<Hit>,
    second: Seq<Hit>,
)
    requires
        spec_functional(narrow),
        spec_detected(bodies, narrow, first),
        spec_detected(bodies, narrow, second),
    ensures
        first == second,
{
    let list = spec_pairs_below(bodies.len() as usize, bodies.len());
    let one = choose|answers: Seq<Option<Contact>>|
        #[trigger] spec_answered(bodies, narrow, list, answers) && first == spec_hits(
            list,
            answers,
        );
    let other = choose|answers: Seq<Option<Contact>>|
        #[trigger] spec_answered(bodies, narrow, list, answers) && second == spec_hits(
            list,
            answers,
        );
    assert forall|k: int| 0 <= k < list.len() implies one[k] == other[k] by {
        let a = &bodies[list[k].0 as int].spec_future();
        let b = &bodies[list[k].1 as int].spec_future();
        assert(call_ensures(*narrow, (a, b), one[k]));
        assert(call_ensures(*narrow, (a, b), other[k]));
    }
    assert(one =~= other);
}

/// Under a narrow phase whose answer is a function of its arguments, two
/// runs of substeps from the same predicted bodies find the same hits in
/// every substep.
pub proof fn lemma_answers_unique<F: Fn(&Placement, &Placement) -> Option<Contact>>(
    start: Seq<Body>,
    narrow: &F,
    first: Seq<Seq<Hit>>,
    second: Seq<Seq<Hit>>,
    parameters: PhysicsParameters,
    substeps: usize,
    k: int,
)
    requires
        spec_functional(narrow),
        spec_all_detected(start, narrow, first, parameters, substeps),
        spec_all_detected(start, narrow, second, parameters, substeps),
        0 <= k <= first.len(),
        k <= second.len(),
    ensures
        first.take(k) == second.take(k),
    decreases k,
{
    if k == 0 {
        assert(first.take(0) =~= second.take(0));
    } else {
        let s = k - 1;
        lemma_answers_unique(start, narrow, first, second, parameters, substeps, s);
        let waited = spec_waiting(start, first, parameters, substeps, s);
        assert(waited == spec_waiting(start, second, parameters, substeps, s));
        assert(spec_detected(waited, narrow, first[s]));
        assert(spec_detected(waited, narrow, second[s]));
        lemma_detected_unique(waited, narrow, first[s], second[s]);
        assert(first.take(k) =~= first.take(s).push(first[s]));
        assert(second.take(k) =~= second.take(s).push(second[s]));
    }
}

/// Deterministic replay. Two pipelines in the same state, each run for a
/// tick with a narrow phase whose answer is a function of its arguments,
/// find the same hits in every substep and end in the same bodies: nothing
/// else, neither a clock nor chance, enters a tick.
pub proof fn lemma_replay<F: Fn(&Placement, &Placement) -> Option<Contact>>(
    one: Pipeline,
    other: Pipeline,
    narrow: &F,
    found: Seq<Seq<Hit>>,
    found_again: Seq<Seq<Hit>>,
    after: Seq<Body>,
    after_again: Seq<Body>,
)
    requires
        spec_functional(narrow),
        one.bodies@ == other.bodies@,
        one.parameters == other.parameters,
        one.substeps == other.substeps,
        one.pending == other.pending,
        one.spec_ticked(narrow, found, after),
        other.spec_ticked(narrow, found_again, after_again),
    ensures
        found == found_again,
        after == after_again,
{
    lemma_answers_unique(
        one.spec_start(),
        narrow,
        found,
        found_again,
        one.parameters,
        one.substeps,
        found.len() as int,
    );
    assert(found.take(found.len() as int) =~= found);
    assert(found_again.take(found.len() as int) =~= found_again);
}

/// A run neither adds nor removes a body.
pub proof fn lemma_resume_keeps_bodies(
    bodies: Seq<Body>,
    answers: Seq<Seq<Hit>>,
    parameters: PhysicsParameters,
    substeps: usize,
)
    ensures
        spec_resume(bodies, answers, parameters, substeps).len() == bodies.len(),
    decreases answers.len(),
{
    if answers.len() == 1 {
        lemma_resolve_only_collects(bodies, answers[0], parameters.stiffness);
    } else if answers.len() > 1 {
        lemma_resume_keeps_bodies(bodies, answers.drop_last(), parameters, substeps);
        let before = spec_resume(bodies, answers.drop_last(), parameters, substeps);
        lemma_resolve_only_collects(
            spec_predict(before, parameters, substeps),
            answers.last(),
            parameters.stiffness,
        );
    }
}

} // verus!

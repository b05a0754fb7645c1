//! Running a chain of postprocessors: every stage is handed, buffer by
//! buffer, what the stage before it made, and what it makes of them is put
//! together in the same order.

use crate::clock::nanotime;
use crate::error::Error;
use crate::postprocessor::{frames, no_frames, one_frame, outcome, Call, Outcome, Postprocessor};
use vstd::prelude::*;

verus! {

/// What a chain is run for: a payload on its way out, or the end of the
/// stream.
#[derive(Clone, Copy)]
pub enum Pass {
    /// Every buffer goes through `process` with these timestamps.
    Process { ingres_ns: u64, egress_ns: u64 },
    /// Every buffer goes through `finish`.
    Finish,
}

/// The call that a stage gets for the buffer `data` in a pass.
pub open spec fn call_for(pass: Pass, data: Seq<u8>) -> Call {
    match pass {
        Pass::Process { ingres_ns, egress_ns } => Call::Process { ingres_ns, egress_ns, data },
        Pass::Finish => Call::Finish { flushed: Some(data) },
    }
}

/// Whether `states` and `parts` record one stage that answers the buffers
/// `inputs` one after the other without failing: `states[i]` is the stage
/// when it gets `inputs[i]`, `parts[i]` the frames that it yields for it.
pub open spec fn serves<P: Postprocessor>(
    pass: Pass,
    inputs: Seq<Seq<u8>>,
    states: Seq<P>,
    parts: Seq<Seq<Seq<u8>>>,
) -> bool {
    &&& states.len() == inputs.len() + 1
    &&& parts.len() == inputs.len()
    &&& forall|i: int|
        0 <= i < inputs.len() ==> states[i].yields(
            call_for(pass, inputs[i]),
            Ok(#[trigger] parts[i]),
            states[i + 1],
        )
}

/// Whether `states` and `parts` record how the stage `start` comes to answer
/// the working set `inputs` with `outcome` and to be `end` afterwards. Where
/// it succeeds, the outcome holds the frames of every buffer, in the order of
/// the buffers. Where it fails, it does so on the first buffer that is not
/// recorded, and with that buffer's error.
pub open spec fn serves_with<P: Postprocessor>(
    start: P,
    pass: Pass,
    inputs: Seq<Seq<u8>>,
    outcome: Outcome,
    end: P,
    states: Seq<P>,
    parts: Seq<Seq<Seq<u8>>>,
) -> bool {
    &&& states.len() == parts.len() + 1
    &&& states[0] == start
    &&& match outcome {
        Ok(made) => {
            &&& serves(pass, inputs, states, parts)
            &&& made == parts.flatten()
            &&& end == states.last()
        },
        Err(e) => {
            &&& parts.len() < inputs.len()
            &&& serves(pass, inputs.take(parts.len() as int), states, parts)
            &&& states.last().yields(call_for(pass, inputs[parts.len() as int]), Err(e), end)
        },
    }
}

/// Whether the stage `start` may answer the working set `inputs` with
/// `outcome` and be `end` afterwards.
pub open spec fn passes<P: Postprocessor>(
    start: P,
    pass: Pass,
    inputs: Seq<Seq<u8>>,
    outcome: Outcome,
    end: P,
) -> bool {
    exists|states: Seq<P>, parts: Seq<Seq<Seq<u8>>>| #[trigger]
        serves_with(start, pass, inputs, outcome, end, states, parts)
}

/// The place in `parts.flatten()` where the frames of `parts[i]` start.
pub open spec fn offset(parts: Seq<Seq<Seq<u8>>>, i: int) -> int {
    parts.take(i).flatten().len() as int
}

/// Order preservation within a stage. Where a stage has answered a working
/// set, the frames that it yielded for buffer `i` stand together in what it
/// made, in the order in which it yielded them, behind the frames of every
/// earlier buffer and before those of every later one.
pub proof fn lemma_fan_out_in_order<P: Postprocessor>(
    start: P,
    pass: Pass,
    inputs: Seq<Seq<u8>>,
    made: Seq<Seq<u8>>,
    end: P,
    states: Seq<P>,
    parts: Seq<Seq<Seq<u8>>>,
    i: int,
)
    requires
        serves_with(start, pass, inputs, Ok(made), end, states, parts),
        0 <= i < inputs.len(),
    ensures
        states[i].yields(call_for(pass, inputs[i]), Ok(parts[i]), states[i + 1]),
        0 <= offset(parts, i) <= offset(parts, i + 1) <= made.len(),
        made.subrange(offset(parts, i), offset(parts, i + 1)) == parts[i],
        i + 1 < inputs.len() ==> offset(parts, i + 1) <= offset(parts, i + 2),
{
    assert(states[i].yields(call_for(pass, inputs[i]), Ok(parts[i]), states[i + 1]));
    lemma_flatten_take(parts, i + 1);
    assert(parts.take(i + 1).drop_last() =~= parts.take(i));
    lemma_flatten_prefix(parts, i + 1);
    let shorter = parts.take(i).flatten();
    let longer = parts.take(i + 1).flatten();
    assert(made.subrange(shorter.len() as int, longer.len() as int) =~= made.take(
        longer.len() as int,
    ).subrange(shorter.len() as int, longer.len() as int));
    assert(longer.subrange(shorter.len() as int, longer.len() as int) =~= parts[i]);
    if i + 1 < inputs.len() {
        lemma_flatten_take(parts, i + 2);
    }
}

/// Flattening one more part adds that part at the end.
proof fn lemma_flatten_take(parts: Seq<Seq<Seq<u8>>>, n: int)
    requires
        1 <= n <= parts.len(),
    ensures
        parts.take(n).flatten() == parts.take(n - 1).flatten() + parts[n - 1],
{
    assert(parts.take(n) =~= parts.take(n - 1).push(parts[n - 1]));
    parts.take(n - 1).lemma_flatten_push(parts[n - 1]);
}

/// The flattening of the first `n` parts is the start of the flattening of
/// all.
proof fn lemma_flatten_prefix(parts: Seq<Seq<Seq<u8>>>, n: int)
    requires
        0 <= n <= parts.len(),
    ensures
        parts.take(n).flatten().len() <= parts.flatten().len(),
        parts.flatten().take(parts.take(n).flatten().len() as int) == parts.take(n).flatten(),
    decreases parts.len() - n,
{
    if n == parts.len() {
        assert(parts.take(n) =~= parts);
        assert(parts.flatten().take(parts.flatten().len() as int) =~= parts.flatten());
    } else {
        lemma_flatten_prefix(parts, n + 1);
        lemma_flatten_take(parts, n + 1);
        let longer = parts.take(n + 1).flatten();
        let shorter = parts.take(n).flatten();
        assert(parts.flatten().take(shorter.len() as int) =~= parts.flatten().take(
            longer.len() as int,
        ).take(shorter.len() as int));
        assert(longer.take(shorter.len() as int) =~= shorter);
    }
}

/// Whether `sets` records the first `done` stages of a chain at work:
/// `sets[k]` is the working set that stage `k` gets, `sets[k + 1]` what it
/// makes of it. `before` holds the stages as they were, `after` as they are.
pub open spec fn threads<P: Postprocessor>(
    before: Seq<P>,
    pass: Pass,
    sets: Seq<Seq<Seq<u8>>>,
    after: Seq<P>,
    done: int,
) -> bool {
    &&& 0 <= done <= before.len() == after.len()
    &&& sets.len() == done + 1
    &&& forall|k: int|
        0 <= k < done ==> passes(before[k], pass, sets[k], Ok(sets[k + 1]), #[trigger] after[k])
}

/// Whether the stages from `from` on are in `after` what they were in
/// `before`.
pub open spec fn untouched<P: Postprocessor>(before: Seq<P>, after: Seq<P>, from: int) -> bool {
    &&& before.len() == after.len()
    &&& forall|k: int| from <= k < before.len() ==> #[trigger] after[k] == before[k]
}

/// Whether `sets` records how the chain `before` comes to answer the working
/// set `input` with `outcome` and to be `after`. Where it succeeds, every
/// stage has had its turn, in the order of the chain, and the outcome is what
/// the last stage made. Where it fails, it does so in the first stage that
/// has no working set of its own making recorded, with an error that names
/// the stream, that stage and the stage's own error; the stages behind it
/// are untouched.
pub open spec fn runs_with<P: Postprocessor>(
    before: Seq<P>,
    pass: Pass,
    alias: Seq<char>,
    input: Seq<Seq<u8>>,
    outcome: Outcome,
    after: Seq<P>,
    sets: Seq<Seq<Seq<u8>>>,
) -> bool {
    &&& sets.len() >= 1
    &&& sets[0] == input
    &&& match outcome {
        Ok(made) => {
            &&& threads(before, pass, sets, after, before.len() as int)
            &&& made == sets.last()
        },
        Err(e) => {
            let at = sets.len() - 1;
            &&& at < before.len()
            &&& threads(before, pass, sets, after, at)
            &&& untouched(before, after, at + 1)
            &&& e matches Error::Stage { alias: stream, name, cause }
            &&& stream@ == alias
            &&& name@ == after[at].spec_name()
            &&& passes(before[at], pass, sets[at], Err(*cause), after[at])
        },
    }
}

/// Whether the chain `before` may answer the working set `input` with
/// `outcome` and be `after` afterwards.
pub open spec fn runs<P: Postprocessor>(
    before: Seq<P>,
    pass: Pass,
    alias: Seq<char>,
    input: Seq<Seq<u8>>,
    outcome: Outcome,
    after: Seq<P>,
) -> bool {
    exists|sets: Seq<Seq<Seq<u8>>>| #[trigger]
        runs_with(before, pass, alias, input, outcome, after, sets)
}

/// A stage that gets no buffer yields nothing and stays as it is.
pub proof fn lemma_no_buffer<P: Postprocessor>(start: P, pass: Pass, outcome: Outcome, end: P)
    requires
        passes(start, pass, Seq::empty(), outcome, end),
    ensures
        outcome == Ok::<Seq<Seq<u8>>, Error>(Seq::empty()),
        end == start,
{
    let (states, parts) = choose|states: Seq<P>, parts: Seq<Seq<Seq<u8>>>| #[trigger]
        serves_with(start, pass, Seq::<Seq<u8>>::empty(), outcome, end, states, parts);
    assert(parts =~= Seq::<Seq<Seq<u8>>>::empty());
}

/// A stage that gets one buffer answers as it answers the one call for it.
pub proof fn lemma_one_buffer<P: Postprocessor>(
    start: P,
    pass: Pass,
    data: Seq<u8>,
    outcome: Outcome,
    end: P,
)
    requires
        passes(start, pass, seq![data], outcome, end),
    ensures
        start.yields(call_for(pass, data), outcome, end),
{
    let (states, parts) = choose|states: Seq<P>, parts: Seq<Seq<Seq<u8>>>| #[trigger]
        serves_with(start, pass, seq![data], outcome, end, states, parts);
    if outcome is Ok {
        assert(states[0].yields(call_for(pass, seq![data][0]), Ok(parts[0]), states[1]));
        parts.lemma_flatten_one_element();
        assert(parts.first() == parts[0]);
    }
}

/// Whether a chain of one stage or more answers by `head` in its first stage:
/// where the first stage fails, the chain fails with an error that names the
/// stream, that stage and the stage's own error, and leaves the other stages
/// untouched; where it makes a working set, the other stages answer that
/// working set as a chain.
pub open spec fn unfolds<P: Postprocessor>(
    before: Seq<P>,
    pass: Pass,
    alias: Seq<char>,
    input: Seq<Seq<u8>>,
    outcome: Outcome,
    after: Seq<P>,
    head: Outcome,
) -> bool {
    &&& 0 < before.len() == after.len()
    &&& passes(before[0], pass, input, head, after[0])
    &&& match head {
        Ok(made) => runs(before.skip(1), pass, alias, made, outcome, after.skip(1)),
        Err(cause) => {
            &&& untouched(before, after, 1)
            &&& outcome matches Err(Error::Stage { alias: stream, name, cause: inner })
            &&& stream@ == alias
            &&& name@ == after[0].spec_name()
            &&& *inner == cause
        },
    }
}

/// A chain of no stages hands its working set on.
pub proof fn lemma_empty_chain<P: Postprocessor>(
    before: Seq<P>,
    pass: Pass,
    alias: Seq<char>,
    input: Seq<Seq<u8>>,
    outcome: Outcome,
    after: Seq<P>,
)
    requires
        before.len() == 0,
        runs(before, pass, alias, input, outcome, after),
    ensures
        outcome == Ok::<Seq<Seq<u8>>, Error>(input),
        after.len() == 0,
{
}

/// A chain is a fold over its stages: the first stage answers the working
/// set, and the stages behind it answer, as a chain, what it made.
pub proof fn lemma_chain_unfolds<P: Postprocessor>(
    before: Seq<P>,
    pass: Pass,
    alias: Seq<char>,
    input: Seq<Seq<u8>>,
    outcome: Outcome,
    after: Seq<P>,
)
    requires
        before.len() > 0,
        runs(before, pass, alias, input, outcome, after),
    ensures
        exists|head: Outcome| #[trigger] unfolds(before, pass, alias, input, outcome, after, head),
{
    let sets = choose|sets: Seq<Seq<Seq<u8>>>| #[trigger]
        runs_with(before, pass, alias, input, outcome, after, sets);
    let rest = before.skip(1);
    let later = after.skip(1);
    if sets.len() == 1 {
        let cause = *outcome->Err_0->Stage_cause;
        assert(unfolds(
            before,
            pass,
            alias,
            input,
            outcome,
            after,
            Err::<Seq<Seq<u8>>, Error>(cause),
        ));
    } else {
        let done = if outcome is Ok {
            before.len() as int
        } else {
            sets.len() - 1
        };
        assert(passes(before[0], pass, sets[0], Ok(sets[1]), after[0]));
        let tail = sets.skip(1);
        assert forall|k: int| 0 <= k < done - 1 implies passes(
            rest[k],
            pass,
            tail[k],
            Ok(tail[k + 1]),
            #[trigger] later[k],
        ) by {
            assert(later[k] == after[k + 1]);
            assert(passes(before[k + 1], pass, sets[k + 1], Ok(sets[k + 2]), after[k + 1]));
        }
        assert(threads(rest, pass, tail, later, done - 1));
        if outcome is Err {
            assert forall|k: int| done <= k < rest.len() implies #[trigger] later[k]
                == rest[k] by {
                assert(after[k + 1] == before[k + 1]);
            }
            assert(later[done - 1] == after[done]);
            assert(rest[done - 1] == before[done]);
            assert(tail[done - 1] == sets[done]);
        } else {
            assert(tail.last() == sets.last());
        }
        assert(runs_with(rest, pass, alias, sets[1], outcome, later, tail));
        assert(unfolds(
            before,
            pass,
            alias,
            input,
            outcome,
            after,
            Ok::<Seq<Seq<u8>>, Error>(sets[1]),
        ));
    }
}

/// Whether the chain `before` may answer the end of the stream with `outcome`
/// and be `after` afterwards: the first stage is finished with nothing, every
/// later one with each buffer that came down to it.
pub open spec fn finishes<P: Postprocessor>(
    before: Seq<P>,
    alias: Seq<char>,
    outcome: Outcome,
    after: Seq<P>,
) -> bool {
    if before.len() == 0 {
        &&& outcome == Ok::<Seq<Seq<u8>>, Error>(Seq::empty())
        &&& after.len() == 0
    } else {
        &&& after.len() == before.len()
        &&& exists|head: Outcome| #[trigger]
            before[0].yields(Call::Finish { flushed: None }, head, after[0]) && match head {
                Ok(flushed) => runs(
                    before.skip(1),
                    Pass::Finish,
                    alias,
                    flushed,
                    outcome,
                    after.skip(1),
                ),
                Err(cause) => {
                    &&& untouched(before, after, 1)
                    &&& outcome matches Err(Error::Stage { alias: stream, name, cause: inner })
                    &&& stream@ == alias
                    &&& name@ == after[0].spec_name()
                    &&& *inner == cause
                },
            }
    }
}

/// Hands every buffer of `inputs` to `stage`, one after the other, and puts
/// together what it makes of them. Stops at the first failure.
pub fn serve<P: Postprocessor>(stage: &mut P, pass: Pass, inputs: &Vec<Vec<u8>>) -> (r: Result<
    Vec<Vec<u8>>,
    Error,
>)
    ensures
        passes(*old(stage), pass, frames(*inputs), outcome(r), *final(stage)),
{
    let mut made: Vec<Vec<u8>> = no_frames();
    let ghost mut states: Seq<P> = seq![*stage];
    let ghost mut parts: Seq<Seq<Seq<u8>>> = Seq::empty();
    let mut i: usize = 0;
    while i < inputs.len()
        invariant
            i <= inputs@.len(),
            parts.len() == i,
            states.len() == i + 1,
            states[0] == *old(stage),
            states.last() == *stage,
            serves(pass, frames(*inputs).take(i as int), states, parts),
            frames(made) == parts.flatten(),
        decreases inputs@.len() - i,
    {
        let r = match pass {
            Pass::Process { ingres_ns, egress_ns } => stage.process(
                ingres_ns,
                egress_ns,
                inputs[i].as_slice(),
            ),
            Pass::Finish => stage.finish(Some(inputs[i].as_slice())),
        };
        match r {
            Ok(mut part) => {
                proof {
                    let served = frames(*inputs).take(i as int);
                    let grown = frames(*inputs).take(i + 1);
                    let more_states = states.push(*stage);
                    let more_parts = parts.push(frames(part));
                    assert forall|j: int| 0 <= j < grown.len() implies more_states[j].yields(
                        call_for(pass, grown[j]),
                        Ok(#[trigger] more_parts[j]),
                        more_states[j + 1],
                    ) by {
                        if j < i {
                            assert(parts[j] == more_parts[j]);
                            assert(served[j] == grown[j]);
                        }
                    }
                    parts.lemma_flatten_push(frames(part));
                    assert(frames(made) + frames(part) =~= more_parts.flatten());
                    states = more_states;
                    parts = more_parts;
                }
                let ghost held = frames(made);
                let ghost added = frames(part);
                made.append(&mut part);
                assert(frames(made) =~= held + added);
            },
            Err(e) => {
                assert(serves_with(
                    *old(stage),
                    pass,
                    frames(*inputs),
                    Err::<Seq<Seq<u8>>, Error>(e),
                    *stage,
                    states,
                    parts,
                ));
                return Err(e);
            },
        }
        i = i + 1;
    }
    proof {
        assert(frames(*inputs).take(i as int) =~= frames(*inputs));
        assert(serves_with(
            *old(stage),
            pass,
            frames(*inputs),
            Ok::<Seq<Seq<u8>>, Error>(frames(made)),
            *stage,
            states,
            parts,
        ));
    }
    Ok(made)
}

/// Runs the working set `input` through the stages from `from` on, in their
/// order. Stops at the first stage that fails and reports it by name.
fn run<P: Postprocessor>(
    stages: &mut [P],
    from: usize,
    pass: Pass,
    alias: &str,
    input: Vec<Vec<u8>>,
) -> (r: Result<Vec<Vec<u8>>, Error>)
    requires
        from <= old(stages)@.len(),
    ensures
        final(stages)@.len() == old(stages)@.len(),
        final(stages)@.take(from as int) == old(stages)@.take(from as int),
        runs(
            old(stages)@.skip(from as int),
            pass,
            alias@,
            frames(input),
            outcome(r),
            final(stages)@.skip(from as int),
        ),
{
    let ghost before = stages@.skip(from as int);
    let ghost mut sets: Seq<Seq<Seq<u8>>> = seq![frames(input)];
    let mut set = input;
    let mut at: usize = from;
    while at < stages.len()
        invariant
            from <= at <= stages@.len(),
            stages@.len() == old(stages)@.len(),
            before == old(stages)@.skip(from as int),
            stages@.take(from as int) == old(stages)@.take(from as int),
            sets[0] == frames(input),
            sets.last() == frames(set),
            threads(before, pass, sets, stages@.skip(from as int), at - from),
            untouched(before, stages@.skip(from as int), at - from),
        decreases stages@.len() - at,
    {
        let ghost earlier = stages@;
        let r = serve(&mut stages[at], pass, &set);
        proof {
            let now = stages@.skip(from as int);
            let then = earlier.skip(from as int);
            assert(stages@.take(from as int) =~= earlier.take(from as int));
            assert forall|k: int| 0 <= k < at - from implies passes(
                before[k],
                pass,
                sets[k],
                Ok(sets[k + 1]),
                #[trigger] now[k],
            ) by {
                assert(now[k] == then[k]);
            }
            assert forall|k: int| at - from + 1 <= k < before.len() implies #[trigger] now[k]
                == before[k] by {
                assert(now[k] == then[k]);
            }
            assert(then[at - from] == before[at - from]);
        }
        match r {
            Ok(made) => {
                proof {
                    let now = stages@.skip(from as int);
                    let more = sets.push(frames(made));
                    assert forall|k: int| 0 <= k < at - from + 1 implies passes(
                        before[k],
                        pass,
                        more[k],
                        Ok(more[k + 1]),
                        #[trigger] now[k],
                    ) by {
                        if k < at - from {
                            assert(more[k] == sets[k]);
                            assert(more[k + 1] == sets[k + 1]);
                        }
                    }
                    sets = more;
                }
                set = made;
            },
            Err(e) => {
                let name = stages[at].name().to_owned();
                let failure = Error::Stage { alias: alias.to_owned(), name, cause: Box::new(e) };
                assert(runs_with(
                    before,
                    pass,
                    alias@,
                    frames(input),
                    Err::<Seq<Seq<u8>>, Error>(failure),
                    stages@.skip(from as int),
                    sets,
                ));
                return Err(failure);
            },
        }
        at = at + 1;
    }
    assert(runs_with(
        before,
        pass,
        alias@,
        frames(input),
        Ok::<Seq<Seq<u8>>, Error>(frames(set)),
        stages@.skip(from as int),
        sets,
    ));
    Ok(set)
}

/// Runs one payload through the chain with the given timestamps.
pub fn postprocess_at<P: Postprocessor>(
    postprocessors: &mut [P],
    ingres_ns: u64,
    egress_ns: u64,
    data: Vec<u8>,
    alias: &str,
) -> (r: Result<Vec<Vec<u8>>, Error>)
    ensures
        runs(
            old(postprocessors)@,
            Pass::Process { ingres_ns, egress_ns },
            alias@,
            seq![data@],
            outcome(r),
            final(postprocessors)@,
        ),
{
    let ghost before = postprocessors@;
    let r = run(postprocessors, 0, Pass::Process { ingres_ns, egress_ns }, alias, one_frame(data));
    proof {
        assert(before.skip(0) =~= before);
        assert(postprocessors@.skip(0) =~= postprocessors@);
    }
    r
}

/// Runs one payload through the chain. The egress timestamp is read from the
/// clock once, before the first stage, and is the same for every stage.
pub fn postprocess<P: Postprocessor>(
    postprocessors: &mut [P],
    ingres_ns: u64,
    data: Vec<u8>,
    alias: &str,
) -> (r: Result<Vec<Vec<u8>>, Error>)
    ensures
        exists|egress_ns: u64| #[trigger]
            runs(
                old(postprocessors)@,
                Pass::Process { ingres_ns, egress_ns },
                alias@,
                seq![data@],
                outcome(r),
                final(postprocessors)@,
            ),
{
    let egress_ns = nanotime();
    postprocess_at(postprocessors, ingres_ns, egress_ns, data, alias)
}

/// Ends the stream: finishes the first stage, then every later one with each
/// buffer that came down to it.
pub fn finish<P: Postprocessor>(postprocessors: &mut [P], alias: &str) -> (r: Result<
    Vec<Vec<u8>>,
    Error,
>)
    ensures
        finishes(old(postprocessors)@, alias@, outcome(r), final(postprocessors)@),
{
    if postprocessors.len() == 0 {
        return Ok(no_frames());
    }
    let ghost before = postprocessors@;
    let head = postprocessors[0].finish(None);
    let ghost flushed = outcome(head);
    assert(before[0].yields(Call::Finish { flushed: None }, flushed, postprocessors@[0]));
    match head {
        Ok(data) => {
            let ghost between = postprocessors@;
            let r = run(postprocessors, 1, Pass::Finish, alias, data);
            proof {
                assert(between.skip(1) =~= before.skip(1));
                assert(postprocessors@.take(1)[0] == between.take(1)[0]);
            }
            r
        },
        Err(e) => {
            let name = postprocessors[0].name().to_owned();
            Err(Error::Stage { alias: alias.to_owned(), name, cause: Box::new(e) })
        },
    }
}

} // verus!

//! What the UART engine does over a whole operation.
//!
//! A trace is the sequence of steps that the engine takes when each of its
//! actions is answered by a given link. The laws here say what the trace
//! of a write and of a bootloader entry is against links of a given kind.

use crate::frames::ACK;
use crate::general_uart::{
    begin_entry, begin_write, chunk_count, handshake_script, is_ack, nack_failure, phases,
    react_in, write_action_spec, write_awaits_ack, EntryMode, Job, Setup, RETRY_WAIT_MS,
};
use crate::link::{ActionView, EventView, Failure, OutcomeView, StepView};
use vstd::prelude::*;

verus! {

/// The steps that an engine takes from `step` on, while `fuel` lasts, when
/// every action is answered by what `link` says of it.
pub open spec fn trace(
    setup: Setup,
    job: Job,
    step: StepView,
    link: spec_fn(ActionView) -> EventView,
    fuel: nat,
) -> Seq<StepView>
    decreases fuel,
{
    match step {
        StepView::Perform(action) if fuel > 0 => {
            let next = react_in(setup, job, link(action));
            seq![step] + trace(setup, next.0, next.1, link, (fuel - 1) as nat)
        },
        _ => seq![step],
    }
}

/// A link on which everything but reading goes well.
pub open spec fn works(link: spec_fn(ActionView) -> EventView) -> bool {
    forall|action: ActionView| !(action is Receive) ==> #[trigger] link(action) is Done
}

/// A link on which no read ever brings an acknowledge.
pub open spec fn never_acknowledges(link: spec_fn(ActionView) -> EventView) -> bool {
    forall|action: ActionView| action is Receive ==> !is_ack(#[trigger] link(action))
}

/// A link on which every read of one byte brings an acknowledge.
pub open spec fn always_acknowledges(link: spec_fn(ActionView) -> EventView) -> bool {
    link(ActionView::Receive(1)) == EventView::Data(seq![ACK])
}

/// Each action of a script as a step.
pub open spec fn performed(script: Seq<ActionView>) -> Seq<StepView> {
    Seq::new(script.len(), |i: int| StepView::Perform(script[i]))
}

/// `n` handshake attempts that all go unanswered: each is the handshake
/// script and a purge; a pause stands between one and the next; the
/// last is followed by the timeout.
pub open spec fn refused(mode: EntryMode, n: nat) -> Seq<StepView>
    decreases n,
{
    let once = performed(handshake_script(mode)).push(StepView::Perform(ActionView::Purge));
    if n <= 1 {
        once.push(StepView::Abort(Failure::HandshakeTimeout))
    } else {
        once.push(StepView::Perform(ActionView::Sleep(RETRY_WAIT_MS))) + refused(
            mode,
            (n - 1) as nat,
        )
    }
}

/// The steps of chunk `k` of a write.
pub open spec fn chunk_steps(setup: Setup, k: int) -> Seq<StepView> {
    Seq::new(
        phases(setup.report) as nat,
        |p: int| StepView::Perform(write_action_spec(setup.base, setup.image, k, p as u8)),
    )
}

/// The steps of a write from chunk `k` on, when all goes well: the steps
/// of each chunk in order, and then the end.
pub open spec fn written(setup: Setup, k: int) -> Seq<StepView>
    decreases chunk_count(setup.image.len()) - k,
{
    if k + 1 < chunk_count(setup.image.len()) {
        chunk_steps(setup, k) + written(setup, k + 1)
    } else {
        chunk_steps(setup, k).push(StepView::Complete(OutcomeView::Done))
    }
}

proof fn lemma_script_shape(mode: EntryMode, pc: int)
    requires
        0 <= pc < handshake_script(mode).len(),
    ensures
        handshake_script(mode).len() <= 16,
        pc + 1 < handshake_script(mode).len() ==> !(handshake_script(mode)[pc] is Receive),
        pc + 1 == handshake_script(mode).len() ==> handshake_script(mode)[pc] is Receive,
{
}

/// The rest of one unanswered attempt from action `pc` on, and all that
/// follows it when `n` attempts are left, this one included.
spec fn refused_from(mode: EntryMode, n: nat, pc: int) -> Seq<StepView> {
    let script = handshake_script(mode);
    let rest = performed(script).subrange(pc, script.len() as int).push(
        StepView::Perform(ActionView::Purge),
    );
    if n <= 1 {
        rest.push(StepView::Abort(Failure::HandshakeTimeout))
    } else {
        rest.push(StepView::Perform(ActionView::Sleep(RETRY_WAIT_MS))) + refused(
            mode,
            (n - 1) as nat,
        )
    }
}

proof fn lemma_refused_from_start(mode: EntryMode, n: nat)
    ensures
        refused_from(mode, n, 0) == refused(mode, n),
{
    let script = handshake_script(mode);
    assert(performed(script).subrange(0, script.len() as int) =~= performed(script));
}

proof fn lemma_refused_from_step(mode: EntryMode, n: nat, pc: int)
    requires
        0 <= pc,
        pc + 1 < handshake_script(mode).len(),
    ensures
        refused_from(mode, n, pc) == seq![StepView::Perform(handshake_script(mode)[pc])]
            + refused_from(mode, n, pc + 1),
{
    let script = handshake_script(mode);
    let len = script.len() as int;
    let here = performed(script).subrange(pc, len);
    let there = performed(script).subrange(pc + 1, len);
    assert(here =~= seq![StepView::Perform(script[pc])] + there);
    let purge = StepView::Perform(ActionView::Purge);
    if n <= 1 {
        let end = StepView::Abort(Failure::HandshakeTimeout);
        assert(here.push(purge).push(end) =~= seq![StepView::Perform(script[pc])] + there.push(
            purge,
        ).push(end));
    } else {
        let pause = StepView::Perform(ActionView::Sleep(RETRY_WAIT_MS));
        let tail = refused(mode, (n - 1) as nat);
        assert(here.push(purge).push(pause) + tail =~= seq![StepView::Perform(script[pc])] + (
        there.push(purge).push(pause) + tail));
    }
}

proof fn lemma_refused_walk(
    setup: Setup,
    link: spec_fn(ActionView) -> EventView,
    attempt: u32,
    pc: usize,
    fuel: nat,
)
    requires
        attempt < setup.attempts,
        pc < handshake_script(setup.entry).len(),
        works(link),
        never_acknowledges(link),
        fuel >= 18 * (setup.attempts - attempt) - pc,
    ensures
        trace(
            setup,
            Job::Handshake { attempt, pc },
            StepView::Perform(handshake_script(setup.entry)[pc as int]),
            link,
            fuel,
        ) == refused_from(setup.entry, (setup.attempts - attempt) as nat, pc as int),
    decreases setup.attempts - attempt, handshake_script(setup.entry).len() - pc,
{
    let mode = setup.entry;
    let script = handshake_script(mode);
    let len = script.len() as int;
    let n = (setup.attempts - attempt) as nat;
    let here = StepView::Perform(script[pc as int]);
    lemma_script_shape(mode, pc as int);
    let answer = link(script[pc as int]);
    let next = react_in(setup, Job::Handshake { attempt, pc }, answer);
    assert(trace(setup, Job::Handshake { attempt, pc }, here, link, fuel) == seq![here] + trace(
        setup,
        next.0,
        next.1,
        link,
        (fuel - 1) as nat,
    ));
    if pc + 1 < len {
        assert(answer is Done);
        lemma_refused_walk(setup, link, attempt, (pc + 1) as usize, (fuel - 1) as nat);
        lemma_refused_from_step(mode, n, pc as int);
    } else {
        assert(!is_ack(answer));
        let purge = StepView::Perform(ActionView::Purge);
        assert(next == (Job::HandshakePurge { attempt }, purge));
        let after = react_in(setup, next.0, link(ActionView::Purge));
        assert(trace(setup, next.0, purge, link, (fuel - 1) as nat) == seq![purge] + trace(
            setup,
            after.0,
            after.1,
            link,
            (fuel - 2) as nat,
        ));
        assert(performed(script).subrange(pc as int, len) =~= seq![here]);
        if attempt + 1 < setup.attempts {
            let pause = StepView::Perform(ActionView::Sleep(RETRY_WAIT_MS));
            assert(after == (Job::HandshakeRest { attempt }, pause));
            assert(link(ActionView::Sleep(RETRY_WAIT_MS)) is Done);
            let again = react_in(setup, after.0, link(ActionView::Sleep(RETRY_WAIT_MS)));
            assert(trace(setup, after.0, pause, link, (fuel - 2) as nat) == seq![pause] + trace(
                setup,
                again.0,
                again.1,
                link,
                (fuel - 3) as nat,
            ));
            lemma_refused_walk(setup, link, (attempt + 1) as u32, 0, (fuel - 3) as nat);
            lemma_refused_from_start(mode, (n - 1) as nat);
            let tail = refused(mode, (n - 1) as nat);
            assert(seq![here] + (seq![purge] + (seq![pause] + tail)) =~= seq![here].push(
                purge,
            ).push(pause) + tail);
        } else {
            let end = StepView::Abort(Failure::HandshakeTimeout);
            assert(after == (Job::Idle, end));
            assert(trace(setup, after.0, end, link, (fuel - 2) as nat) == seq![end]);
            assert(seq![here] + (seq![purge] + seq![end]) =~= seq![here].push(purge).push(end));
        }
    }
}

/// Against a link that never acknowledges, a bootloader entry makes as
/// many handshake attempts as the setup allows, not one more, and ends in
/// [`Failure::HandshakeTimeout`].
pub proof fn law_unanswered_handshake_times_out(
    setup: Setup,
    link: spec_fn(ActionView) -> EventView,
    fuel: nat,
)
    requires
        setup.attempts >= 1,
        works(link),
        never_acknowledges(link),
        fuel >= 18 * setup.attempts,
    ensures
        trace(
            setup,
            begin_entry(setup.entry, setup.attempts).0,
            begin_entry(setup.entry, setup.attempts).1,
            link,
            fuel,
        ) == refused(setup.entry, setup.attempts as nat),
{
    lemma_refused_walk(setup, link, 0, 0, fuel);
    lemma_refused_from_start(setup.entry, setup.attempts as nat);
}

/// The rest of chunk `k` from `phase` on, and all that follows it.
spec fn written_from(setup: Setup, k: int, phase: int) -> Seq<StepView> {
    let rest = chunk_steps(setup, k).subrange(phase, phases(setup.report) as int);
    if k + 1 < chunk_count(setup.image.len()) {
        rest + written(setup, k + 1)
    } else {
        rest.push(StepView::Complete(OutcomeView::Done))
    }
}

proof fn lemma_written_walk(
    setup: Setup,
    link: spec_fn(ActionView) -> EventView,
    chunk: usize,
    phase: u8,
    fuel: nat,
)
    requires
        chunk < chunk_count(setup.image.len()) <= usize::MAX,
        phase < phases(setup.report),
        works(link),
        always_acknowledges(link),
        fuel >= 7 * (chunk_count(setup.image.len()) - chunk) - phase,
    ensures
        trace(
            setup,
            Job::Write { chunk, phase },
            StepView::Perform(write_action_spec(setup.base, setup.image, chunk as int, phase)),
            link,
            fuel,
        ) == written_from(setup, chunk as int, phase as int),
    decreases chunk_count(setup.image.len()) - chunk, phases(setup.report) - phase,
{
    let per = phases(setup.report) as int;
    let action = write_action_spec(setup.base, setup.image, chunk as int, phase);
    let here = StepView::Perform(action);
    let job = Job::Write { chunk, phase };
    let next = react_in(setup, job, link(action));
    assert(trace(setup, job, here, link, fuel) == seq![here] + trace(
        setup,
        next.0,
        next.1,
        link,
        (fuel - 1) as nat,
    ));
    let steps = chunk_steps(setup, chunk as int);
    assert(steps[phase as int] == here);
    if phase + 1 < per {
        lemma_written_walk(setup, link, chunk, (phase + 1) as u8, (fuel - 1) as nat);
        assert(steps.subrange(phase as int, per) =~= seq![here] + steps.subrange(phase + 1, per));
        if chunk + 1 < chunk_count(setup.image.len()) {
            let tail = written(setup, chunk + 1);
            assert(seq![here] + (steps.subrange(phase + 1, per) + tail) =~= steps.subrange(
                phase as int,
                per,
            ) + tail);
        } else {
            let end = StepView::Complete(OutcomeView::Done);
            assert(seq![here] + steps.subrange(phase + 1, per).push(end) =~= steps.subrange(
                phase as int,
                per,
            ).push(end));
        }
    } else {
        assert(steps.subrange(phase as int, per) =~= seq![here]);
        if chunk + 1 < chunk_count(setup.image.len()) {
            lemma_written_walk(setup, link, (chunk + 1) as usize, 0, (fuel - 1) as nat);
            let more = chunk_steps(setup, chunk + 1);
            assert(more.subrange(0, per) =~= more);
            assert(written_from(setup, chunk + 1, 0) == written(setup, chunk + 1));
        } else {
            let end = StepView::Complete(OutcomeView::Done);
            assert(next == (Job::Idle, end));
            assert(trace(setup, next.0, end, link, (fuel - 1) as nat) == seq![end]);
            assert(seq![here] + seq![end] =~= seq![here].push(end));
        }
    }
}

/// Against a link that acknowledges everything, a write takes the chunks
/// of the image in order, 256 bytes each but for the last, and for each
/// one sends the command, the address of the chunk and its data, waiting
/// for the acknowledge of each frame before it goes on. Then it is done.
pub proof fn law_acknowledged_write_completes(
    setup: Setup,
    link: spec_fn(ActionView) -> EventView,
    fuel: nat,
)
    requires
        0 < setup.image.len() <= usize::MAX,
        works(link),
        always_acknowledges(link),
        fuel >= 7 * chunk_count(setup.image.len()),
    ensures
        trace(
            setup,
            begin_write(setup.base, setup.image).0,
            begin_write(setup.base, setup.image).1,
            link,
            fuel,
        ) == written(setup, 0),
{
    lemma_written_walk(setup, link, 0, 0, fuel);
    let steps = chunk_steps(setup, 0);
    assert(steps.subrange(0, phases(setup.report) as int) =~= steps);
}

/// A frame of a write or an erase that is not acknowledged is not sent
/// again: the buffers are purged and the operation ends with the failure.
pub proof fn law_unacknowledged_frame_ends_the_operation(
    setup: Setup,
    job: Job,
    link: spec_fn(ActionView) -> EventView,
    fuel: nat,
)
    requires
        match job {
            Job::Write { chunk, phase } => write_awaits_ack(phase),
            Job::Erase { pc } => pc == 1 || pc == 3,
            _ => false,
        },
        works(link),
        !is_ack(link(ActionView::Receive(1))),
        fuel >= 2,
    ensures
        trace(setup, job, StepView::Perform(ActionView::Receive(1)), link, fuel) == seq![
            StepView::Perform(ActionView::Receive(1)),
            StepView::Perform(ActionView::Purge),
            StepView::Abort(nack_failure(link(ActionView::Receive(1)))),
        ],
{
    let wait = StepView::Perform(ActionView::Receive(1));
    let purge = StepView::Perform(ActionView::Purge);
    let failure = nack_failure(link(ActionView::Receive(1)));
    let end = StepView::Abort(failure);
    let next = react_in(setup, job, link(ActionView::Receive(1)));
    assert(next == (Job::Purging { failure, round: None }, purge));
    assert(trace(setup, job, wait, link, fuel) == seq![wait] + trace(
        setup,
        next.0,
        next.1,
        link,
        (fuel - 1) as nat,
    ));
    let last = react_in(setup, next.0, link(ActionView::Purge));
    assert(last == (Job::Idle, end));
    assert(trace(setup, next.0, purge, link, (fuel - 1) as nat) == seq![purge] + trace(
        setup,
        last.0,
        last.1,
        link,
        (fuel - 2) as nat,
    ));
    assert(trace(setup, last.0, end, link, (fuel - 2) as nat) == seq![end]);
    assert(seq![wait] + (seq![purge] + seq![end]) =~= seq![wait, purge, end]);
}

} // verus!

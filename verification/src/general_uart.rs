//! The UART bootloader engine.
//!
//! Each operation is a script of link actions. The engine hands out one
//! action at a time and moves on when the driver reports that it went well.
//! A wait for an acknowledge that is not answered by [`ACK`] purges the
//! serial buffers and fails the operation. Only bootloader entry retries:
//! the handshake up to the configured number of attempts, the identification
//! that follows it up to [`ROUNDS`] times.

use crate::config::{AirISP, Progress};
use crate::text::same_text;
use crate::frames::{
    address_frame, address_frame_spec, command_frame, command_frame_spec, data_frame,
    data_frame_spec, erase_all_frame, erase_all_frame_spec, ACK, EXTENDED_ERASE, GET_ID, SYNC,
    WRITE_MEMORY,
};
use crate::peripheral::Pp;
use crate::link::{Action, ActionView, Event, EventView, Failure, Outcome, OutcomeView, Step, StepView};
use vstd::prelude::*;
use vstd::slice::*;

verus! {

/// The circuit that ties the modem control lines to reset and boot select.
#[derive(Clone, Copy, Debug, PartialEq, Eq, Structural)]
pub enum EntryMode {
    /// Both lines go through an XOR circuit.
    DefaultReset,
    /// The lines are wired straight to the pins.
    DirectConnect,
}

/// The circuit that a setting names.
pub open spec fn entry_mode_named(before: Seq<char>) -> Option<EntryMode> {
    if before == "default_reset"@ {
        Some(EntryMode::DefaultReset)
    } else if before == "direct_connect"@ {
        Some(EntryMode::DirectConnect)
    } else {
        None
    }
}

/// Whether a setting names a way to restart the target that the engine
/// knows: pulling the reset line is the only one.
pub open spec fn restart_known(after: Seq<char>) -> bool {
    after == "hard_reset"@
}

/// Baud rate where the settings ask for none.
pub const DEFAULT_BAUD: u32 = 115200;

/// Milliseconds after which a read gives up. Generous, because a
/// bootloader may stall while it erases or writes.
pub const READ_TIMEOUT_MS: u32 = 2000;

/// How the serial port is to be opened.
#[derive(Clone, Debug, PartialEq, Eq)]
pub struct SerialSettings {
    pub port: String,
    pub baud: u32,
    pub timeout_ms: u32,
    pub even_parity: bool,
}

/// The baud rate to open the port with.
pub open spec fn baud_of(baud: u32) -> u32 {
    if baud == 0 {
        DEFAULT_BAUD
    } else {
        baud
    }
}

/// Works out how to open the serial port. With `auto` as port the first
/// of the ports that are there is taken, and without any there is nothing
/// to open.
pub fn serial_settings(air_isp: &AirISP, available: &Vec<String>) -> (settings: Option<
    SerialSettings,
>)
    ensures
        match settings {
            Some(s) => {
                &&& s.baud == baud_of(air_isp@.baud)
                &&& s.timeout_ms == READ_TIMEOUT_MS
                &&& s.even_parity
                &&& if air_isp@.port == "auto"@ {
                    available@.len() > 0 && s.port@ == available@[0]@
                } else {
                    s.port@ == air_isp@.port
                }
            },
            None => air_isp@.port == "auto"@ && available@.len() == 0,
        },
{
    let asked: String = air_isp.get_port();
    let port: String = if same_text(asked.as_str(), "auto") {
        if available.len() == 0 {
            return None;
        }
        available[0].clone()
    } else {
        asked
    };
    let speed: u32 = air_isp.get_baud();
    let baud: u32 = if speed == 0 {
        DEFAULT_BAUD
    } else {
        speed
    };
    Some(SerialSettings { port, baud, timeout_ms: READ_TIMEOUT_MS, even_parity: true })
}

/// How often the chip id is asked for after the handshake.
pub const ROUNDS: u8 = 3;

/// Milliseconds between the sync byte and the read of its answer.
pub const SYNC_WAIT_MS: u32 = 100;

/// Milliseconds between a failed handshake attempt and the next.
pub const RETRY_WAIT_MS: u32 = 200;

/// Milliseconds between the get-id command and the read of its answer.
pub const ID_WAIT_MS: u32 = 10;

/// The line movements that put the target into its bootloader.
pub open spec fn entry_lines(mode: EntryMode) -> Seq<ActionView> {
    match mode {
        EntryMode::DefaultReset => seq![
            ActionView::SetRts(false),
            ActionView::SetDtr(false),
            ActionView::Sleep(50),
            ActionView::SetDtr(true),
            ActionView::SetRts(false),
            ActionView::Sleep(20),
            ActionView::SetRts(true),
            ActionView::SetDtr(false),
            ActionView::Sleep(5),
            ActionView::SetRts(false),
            ActionView::SetDtr(true),
            ActionView::Sleep(5),
            ActionView::SetDtr(false),
        ],
        EntryMode::DirectConnect => seq![
            ActionView::SetDtr(true),
            ActionView::SetRts(false),
            ActionView::Sleep(20),
            ActionView::SetRts(true),
            ActionView::SetDtr(false),
            ActionView::SetRts(false),
            ActionView::SetDtr(true),
            ActionView::Sleep(5),
            ActionView::SetDtr(false),
        ],
    }
}

/// One handshake attempt: the line movements, the sync byte, a pause, and
/// the read of the answer.
pub open spec fn handshake_script(mode: EntryMode) -> Seq<ActionView> {
    entry_lines(mode) + seq![
        ActionView::Send(seq![SYNC]),
        ActionView::Sleep(SYNC_WAIT_MS),
        ActionView::Receive(1),
    ]
}

/// What follows an identification round that failed, before the next one.
/// After the first round only, a sync byte is sent once more and the
/// buffers are purged: some USB serial drivers emit a stray byte when the
/// lines move, which leaves the target one byte out of step.
pub open spec fn recovery_script(round: u8) -> Seq<ActionView> {
    if round == 0 {
        seq![
            ActionView::Sleep(100),
            ActionView::Send(seq![SYNC]),
            ActionView::Sleep(5),
            ActionView::Purge,
        ]
    } else {
        seq![ActionView::Sleep(100)]
    }
}

/// The get-id exchange: command, pause, acknowledge, length byte, and a
/// read of one byte more than the length byte says.
pub open spec fn get_id_script(length: u8) -> Seq<ActionView> {
    seq![
        ActionView::Send(command_frame_spec(GET_ID)),
        ActionView::Sleep(ID_WAIT_MS),
        ActionView::Receive(1),
        ActionView::Receive(1),
        ActionView::Receive((length + 1) as usize),
    ]
}

/// The erase-all exchange: command, acknowledge, page code, acknowledge.
pub open spec fn erase_script() -> Seq<ActionView> {
    seq![
        ActionView::Send(command_frame_spec(EXTENDED_ERASE)),
        ActionView::Receive(1),
        ActionView::Send(erase_all_frame_spec()),
        ActionView::Receive(1),
    ]
}

/// The line movements that restart the target into its application.
pub open spec fn leave_script(mode: EntryMode) -> Seq<ActionView> {
    match mode {
        EntryMode::DirectConnect => seq![
            ActionView::SetRts(true),
            ActionView::SetDtr(true),
            ActionView::Sleep(20),
            ActionView::SetRts(false),
            ActionView::SetDtr(true),
        ],
        EntryMode::DefaultReset => seq![
            ActionView::SetRts(true),
            ActionView::SetDtr(false),
            ActionView::Sleep(20),
            ActionView::SetRts(false),
            ActionView::SetDtr(false),
        ],
    }
}

/// Number of write-memory commands that an image of `len` bytes takes.
pub open spec fn chunk_count(len: nat) -> nat {
    (len + 255) / 256
}

/// Offset of the first byte of chunk `k`.
pub open spec fn chunk_start(k: int) -> int {
    256 * k
}

/// Offset just past the last byte of chunk `k` of an image of `len` bytes.
pub open spec fn chunk_end(len: nat, k: int) -> int {
    if 256 * k + 256 <= len {
        256 * k + 256
    } else {
        len as int
    }
}

/// The bytes of chunk `k`.
pub open spec fn chunk_of(image: Seq<u8>, k: int) -> Seq<u8> {
    image.subrange(chunk_start(k), chunk_end(image.len(), k))
}

/// Number of actions that one chunk takes.
pub open spec fn phases(report: bool) -> u8 {
    if report {
        7
    } else {
        6
    }
}

/// The action at `phase` of chunk `k` of a write: command, acknowledge,
/// address, acknowledge, data, acknowledge, and then the progress report
/// where one is wanted.
pub open spec fn write_action_spec(base: u32, image: Seq<u8>, k: int, phase: u8) -> ActionView {
    let address = (base + chunk_start(k)) as u32;
    if phase == 0 {
        ActionView::Send(command_frame_spec(WRITE_MEMORY))
    } else if phase == 2 {
        ActionView::Send(address_frame_spec(address))
    } else if phase == 4 {
        ActionView::Send(data_frame_spec(chunk_of(image, k)))
    } else if phase == 6 {
        ActionView::Progress {
            acknowledged: chunk_end(image.len(), k) as usize,
            total: image.len() as usize,
            address,
        }
    } else {
        ActionView::Receive(1)
    }
}

/// Whether the action at this phase of a chunk is a wait for an acknowledge.
pub open spec fn write_awaits_ack(phase: u8) -> bool {
    phase == 1 || phase == 3 || phase == 5
}

/// Whether an event is the acknowledge byte, alone in its buffer.
pub open spec fn is_ack(event: EventView) -> bool {
    event == EventView::Data(seq![ACK])
}

/// Why a wait for an acknowledge failed: the target said something else,
/// or nothing came at all.
pub open spec fn nack_failure(event: EventView) -> Failure {
    if event is Data {
        Failure::ProtocolError
    } else {
        Failure::IoError
    }
}

/// Where the engine stands.
#[derive(Clone, Copy, Debug, PartialEq, Eq)]
#[allow(inconsistent_fields)]
pub enum Job {
    /// No operation is under way.
    Idle,
    /// Handshake attempt `attempt`, waiting for the answer to action `pc`
    /// of [`handshake_script`].
    Handshake { attempt: u32, pc: usize },
    /// The sync byte of attempt `attempt` went unacknowledged; the purge is
    /// under way.
    HandshakePurge { attempt: u32 },
    /// Pausing after attempt `attempt`, before the next.
    HandshakeRest { attempt: u32 },
    /// Waiting for the answer to action `pc` of [`get_id_script`]. `round`
    /// counts the identification rounds of a bootloader entry and is absent
    /// when the id was asked for on its own.
    GetId { round: Option<u8>, pc: usize, length: u8 },
    /// An acknowledge failed to come; the purge is under way. `round` as
    /// in `GetId`.
    Purging { failure: Failure, round: Option<u8> },
    /// Round `round` failed; waiting for the answer to action `pc` of
    /// [`recovery_script`].
    Recover { round: u8, pc: usize },
    /// Waiting for the answer to the action at `phase` of chunk `chunk`.
    Write { chunk: usize, phase: u8 },
    /// Waiting for the answer to action `pc` of [`erase_script`].
    Erase { pc: usize },
    /// Waiting for the answer to action `pc` of [`leave_script`].
    Leave { pc: usize },
}

/// The first action of an identification round.
pub open spec fn begin_round(round: Option<u8>) -> (Job, StepView) {
    (Job::GetId { round, pc: 0, length: 0 }, StepView::Perform(get_id_script(0)[0]))
}

/// What follows a failed get-id exchange. On its own, the failure is the
/// result. Within a bootloader entry, the recovery script runs and the
/// next round follows, unless this was the last one.
pub open spec fn id_failed(round: Option<u8>, failure: Failure) -> (Job, StepView) {
    match round {
        None => (Job::Idle, StepView::Abort(failure)),
        Some(r) => if r + 1 < ROUNDS {
            (Job::Recover { round: r, pc: 0 }, StepView::Perform(recovery_script(r)[0]))
        } else {
            (Job::Idle, StepView::Abort(Failure::IdentificationFailed))
        },
    }
}

pub open spec fn handshake_react(mode: EntryMode, attempt: u32, pc: usize, event: EventView) -> (
    Job,
    StepView,
) {
    let script = handshake_script(mode);
    if pc + 1 < script.len() {
        if event is Done {
            (
                Job::Handshake { attempt, pc: (pc + 1) as usize },
                StepView::Perform(script[pc + 1]),
            )
        } else {
            (Job::Idle, StepView::Abort(Failure::IoError))
        }
    } else if is_ack(event) {
        begin_round(Some(0u8))
    } else {
        (Job::HandshakePurge { attempt }, StepView::Perform(ActionView::Purge))
    }
}

/// After the purge that follows an unanswered sync byte: pause and try
/// again while attempts are left, else give up.
pub open spec fn handshake_purged(attempts: u32, attempt: u32) -> (Job, StepView) {
    if attempt + 1 < attempts {
        (Job::HandshakeRest { attempt }, StepView::Perform(ActionView::Sleep(RETRY_WAIT_MS)))
    } else {
        (Job::Idle, StepView::Abort(Failure::HandshakeTimeout))
    }
}

pub open spec fn handshake_rested(mode: EntryMode, attempt: u32, event: EventView) -> (
    Job,
    StepView,
) {
    if event is Done {
        (
            Job::Handshake { attempt: (attempt + 1) as u32, pc: 0 },
            StepView::Perform(handshake_script(mode)[0]),
        )
    } else {
        (Job::Idle, StepView::Abort(Failure::IoError))
    }
}

pub open spec fn get_id_react(round: Option<u8>, pc: usize, length: u8, event: EventView) -> (
    Job,
    StepView,
) {
    if pc < 2 {
        if event is Done {
            (
                Job::GetId { round, pc: (pc + 1) as usize, length },
                StepView::Perform(get_id_script(length)[pc + 1]),
            )
        } else {
            id_failed(round, Failure::IoError)
        }
    } else if pc == 2 {
        if is_ack(event) {
            (Job::GetId { round, pc: 3, length }, StepView::Perform(get_id_script(length)[3]))
        } else {
            (
                Job::Purging { failure: nack_failure(event), round },
                StepView::Perform(ActionView::Purge),
            )
        }
    } else if pc == 3 {
        match event {
            EventView::Data(bytes) if bytes.len() == 1 => (
                Job::GetId { round, pc: 4, length: bytes[0] },
                StepView::Perform(get_id_script(bytes[0])[4]),
            ),
            _ => id_failed(round, Failure::IoError),
        }
    } else {
        match event {
            EventView::Data(bytes) if bytes.len() == length + 1 => (
                Job::Idle,
                StepView::Complete(OutcomeView::ChipId(bytes.take(length as int))),
            ),
            _ => id_failed(round, Failure::IoError),
        }
    }
}

/// After the purge that follows a missing acknowledge. On its own, the
/// failure is the result, unless the purge failed too. Within a bootloader
/// entry, the round has failed.
pub open spec fn purged(failure: Failure, round: Option<u8>, event: EventView) -> (Job, StepView) {
    match round {
        None => if event is Done {
            (Job::Idle, StepView::Abort(failure))
        } else {
            (Job::Idle, StepView::Abort(Failure::IoError))
        },
        Some(_) => id_failed(round, failure),
    }
}

pub open spec fn recover_react(round: u8, pc: usize, event: EventView) -> (Job, StepView) {
    let script = recovery_script(round);
    if !(event is Done) {
        (Job::Idle, StepView::Abort(Failure::IoError))
    } else if pc + 1 < script.len() {
        (Job::Recover { round, pc: (pc + 1) as usize }, StepView::Perform(script[pc + 1]))
    } else {
        begin_round(Some((round + 1) as u8))
    }
}

/// What follows an accepted answer at `phase` of chunk `chunk`.
pub open spec fn write_onward(base: u32, image: Seq<u8>, report: bool, chunk: usize, phase: u8) -> (
    Job,
    StepView,
) {
    if phase + 1 < phases(report) {
        (
            Job::Write { chunk, phase: (phase + 1) as u8 },
            StepView::Perform(write_action_spec(base, image, chunk as int, (phase + 1) as u8)),
        )
    } else if chunk + 1 < chunk_count(image.len()) {
        (
            Job::Write { chunk: (chunk + 1) as usize, phase: 0 },
            StepView::Perform(write_action_spec(base, image, chunk + 1, 0)),
        )
    } else {
        (Job::Idle, StepView::Complete(OutcomeView::Done))
    }
}

pub open spec fn write_react(
    base: u32,
    image: Seq<u8>,
    report: bool,
    chunk: usize,
    phase: u8,
    event: EventView,
) -> (Job, StepView) {
    if write_awaits_ack(phase) {
        if is_ack(event) {
            write_onward(base, image, report, chunk, phase)
        } else {
            (
                Job::Purging { failure: nack_failure(event), round: None },
                StepView::Perform(ActionView::Purge),
            )
        }
    } else if event is Done {
        write_onward(base, image, report, chunk, phase)
    } else {
        (Job::Idle, StepView::Abort(Failure::IoError))
    }
}

pub open spec fn erase_react(pc: usize, event: EventView) -> (Job, StepView) {
    let script = erase_script();
    let onward = if pc + 1 < script.len() {
        (Job::Erase { pc: (pc + 1) as usize }, StepView::Perform(script[pc + 1]))
    } else {
        (Job::Idle, StepView::Complete(OutcomeView::Done))
    };
    if pc == 1 || pc == 3 {
        if is_ack(event) {
            onward
        } else {
            (
                Job::Purging { failure: nack_failure(event), round: None },
                StepView::Perform(ActionView::Purge),
            )
        }
    } else if event is Done {
        onward
    } else {
        (Job::Idle, StepView::Abort(Failure::IoError))
    }
}

pub open spec fn leave_react(mode: EntryMode, pc: usize, event: EventView) -> (Job, StepView) {
    let script = leave_script(mode);
    if !(event is Done) {
        (Job::Idle, StepView::Abort(Failure::IoError))
    } else if pc + 1 < script.len() {
        (Job::Leave { pc: (pc + 1) as usize }, StepView::Perform(script[pc + 1]))
    } else {
        (Job::Idle, StepView::Complete(OutcomeView::Done))
    }
}

/// How the engine and the target stand to each other.
#[derive(Clone, Copy, Debug, PartialEq, Eq, Structural)]
pub enum Connection {
    /// The target has not been put into its bootloader, or has left it.
    Disconnected,
    /// A handshake attempt is under way.
    HandshakeInProgress,
    /// The bootloader has answered and nothing is asked of it.
    Synced,
    /// A write is under way.
    Flashing,
    /// An erase is under way.
    Erasing,
    /// The chip id is being asked for.
    Identifying,
}

/// Whether a job belongs to a bootloader entry.
pub open spec fn entering(job: Job) -> bool {
    match job {
        Job::Handshake { .. } => true,
        Job::HandshakePurge { .. } => true,
        Job::HandshakeRest { .. } => true,
        Job::GetId { round, .. } => round is Some,
        Job::Purging { round, .. } => round is Some,
        Job::Recover { .. } => true,
        _ => false,
    }
}

/// Whether a job is a handshake attempt, its purge or its pause.
pub open spec fn shaking(job: Job) -> bool {
    job is Handshake || job is HandshakePurge || job is HandshakeRest
}

/// Whether the bootloader counts as in step after a move from job
/// `before` to job `after` with `step`. It is not while a handshake is
/// under way; it is once the identification that follows the handshake
/// has started; it is no longer when the entry fails or the target has
/// been restarted; and otherwise it stays what it was.
pub open spec fn synced_after(synced: bool, before: Job, after: Job, step: StepView) -> bool {
    if shaking(after) {
        false
    } else if entering(after) {
        true
    } else if entering(before) && step is Abort {
        false
    } else if before is Leave && step is Complete {
        false
    } else {
        synced
    }
}

/// The connection state of an engine that stands at `job`.
pub open spec fn connection_of(synced: bool, job: Job) -> Connection {
    match job {
        Job::Handshake { .. } => Connection::HandshakeInProgress,
        Job::HandshakePurge { .. } => Connection::HandshakeInProgress,
        Job::HandshakeRest { .. } => Connection::HandshakeInProgress,
        Job::GetId { .. } => Connection::Identifying,
        Job::Recover { .. } => Connection::Identifying,
        Job::Write { .. } => Connection::Flashing,
        Job::Erase { .. } => Connection::Erasing,
        _ => if synced {
            Connection::Synced
        } else {
            Connection::Disconnected
        },
    }
}

/// What an engine is set up with: the circuit, the number of handshake
/// attempts, and the image of the last write with its address and whether
/// it reports progress.
pub struct Setup {
    pub entry: EntryMode,
    pub attempts: u32,
    pub base: u32,
    pub image: Seq<u8>,
    pub report: bool,
}

/// The job that follows `event` in an engine that is set up so and stands
/// at `job`, and the step that goes with it. An idle engine answers any
/// report with an I/O failure.
pub open spec fn react_in(setup: Setup, job: Job, event: EventView) -> (Job, StepView) {
    match job {
        Job::Idle => (Job::Idle, StepView::Abort(Failure::IoError)),
        Job::Handshake { attempt, pc } => handshake_react(setup.entry, attempt, pc, event),
        Job::HandshakePurge { attempt } => handshake_purged(setup.attempts, attempt),
        Job::HandshakeRest { attempt } => handshake_rested(setup.entry, attempt, event),
        Job::GetId { round, pc, length } => get_id_react(round, pc, length, event),
        Job::Purging { failure, round } => purged(failure, round, event),
        Job::Recover { round, pc } => recover_react(round, pc, event),
        Job::Write { chunk, phase } => write_react(
            setup.base,
            setup.image,
            setup.report,
            chunk,
            phase,
            event,
        ),
        Job::Erase { pc } => erase_react(pc, event),
        Job::Leave { pc } => leave_react(setup.entry, pc, event),
    }
}

/// Whether a job is one that the engine can be in: every counter within
/// its script, every attempt and round within its limit.
pub open spec fn job_sound(mode: EntryMode, attempts: u32, len: nat, report: bool, job: Job) -> bool {
    match job {
        Job::Idle => true,
        Job::Handshake { attempt, pc } => attempt < attempts && pc < handshake_script(mode).len(),
        Job::HandshakePurge { attempt } => attempt < attempts,
        Job::HandshakeRest { attempt } => attempt + 1 < attempts,
        Job::GetId { round, pc, length } => pc < get_id_script(length).len() && (round matches Some(
            r,
        ) ==> r < ROUNDS),
        Job::Purging { failure, round } => round matches Some(r) ==> r < ROUNDS,
        Job::Recover { round, pc } => round + 1 < ROUNDS && pc < recovery_script(round).len(),
        Job::Write { chunk, phase } => chunk < chunk_count(len) && phase < phases(report),
        Job::Erase { pc } => pc < erase_script().len(),
        Job::Leave { pc } => pc < leave_script(mode).len(),
    }
}

/// The first step of a bootloader entry. With no attempts allowed the
/// handshake is left out and identification starts at once.
pub open spec fn begin_entry(mode: EntryMode, attempts: u32) -> (Job, StepView) {
    if attempts == 0 {
        begin_round(Some(0u8))
    } else {
        (Job::Handshake { attempt: 0, pc: 0 }, StepView::Perform(handshake_script(mode)[0]))
    }
}

/// The first step of a write. An empty image is written by doing nothing.
pub open spec fn begin_write(base: u32, image: Seq<u8>) -> (Job, StepView) {
    if image.len() == 0 {
        (Job::Idle, StepView::Complete(OutcomeView::Done))
    } else {
        (Job::Write { chunk: 0, phase: 0 }, StepView::Perform(write_action_spec(base, image, 0, 0)))
    }
}

/// The first step of the restart into the application.
pub open spec fn begin_leave(mode: EntryMode) -> (Job, StepView) {
    (Job::Leave { pc: 0 }, StepView::Perform(leave_script(mode)[0]))
}

/// The first step of an erase.
pub open spec fn begin_erase() -> (Job, StepView) {
    (Job::Erase { pc: 0 }, StepView::Perform(erase_script()[0]))
}

fn is_shaking(job: Job) -> (yes: bool)
    ensures
        yes == shaking(job),
{
    match job {
        Job::Handshake { .. } | Job::HandshakePurge { .. } | Job::HandshakeRest { .. } => true,
        _ => false,
    }
}

fn is_entering(job: Job) -> (yes: bool)
    ensures
        yes == entering(job),
{
    match job {
        Job::Handshake { .. } | Job::HandshakePurge { .. } | Job::HandshakeRest { .. } => true,
        Job::GetId { round, .. } => round.is_some(),
        Job::Purging { round, .. } => round.is_some(),
        Job::Recover { .. } => true,
        _ => false,
    }
}

fn is_done(event: &Event) -> (done: bool)
    ensures
        done == (event@ is Done),
{
    match event {
        Event::Done => true,
        _ => false,
    }
}

fn sync_frame() -> (frame: Vec<u8>)
    ensures
        frame@ == seq![SYNC],
{
    let mut frame: Vec<u8> = Vec::new();
    frame.push(SYNC);
    assert(frame@ =~= seq![SYNC]);
    frame
}

fn handshake_len(mode: EntryMode) -> (len: usize)
    ensures
        len == handshake_script(mode).len(),
{
    match mode {
        EntryMode::DefaultReset => 16,
        EntryMode::DirectConnect => 12,
    }
}

fn handshake_action(mode: EntryMode, pc: usize) -> (action: Action)
    requires
        pc < handshake_script(mode).len(),
    ensures
        action@ == handshake_script(mode)[pc as int],
{
    match mode {
        EntryMode::DefaultReset => match pc {
            0 => Action::SetRts(false),
            1 => Action::SetDtr(false),
            2 => Action::Sleep(50),
            3 => Action::SetDtr(true),
            4 => Action::SetRts(false),
            5 => Action::Sleep(20),
            6 => Action::SetRts(true),
            7 => Action::SetDtr(false),
            8 => Action::Sleep(5),
            9 => Action::SetRts(false),
            10 => Action::SetDtr(true),
            11 => Action::Sleep(5),
            12 => Action::SetDtr(false),
            13 => Action::Send(sync_frame()),
            14 => Action::Sleep(SYNC_WAIT_MS),
            _ => Action::Receive(1),
        },
        EntryMode::DirectConnect => match pc {
            0 => Action::SetDtr(true),
            1 => Action::SetRts(false),
            2 => Action::Sleep(20),
            3 => Action::SetRts(true),
            4 => Action::SetDtr(false),
            5 => Action::SetRts(false),
            6 => Action::SetDtr(true),
            7 => Action::Sleep(5),
            8 => Action::SetDtr(false),
            9 => Action::Send(sync_frame()),
            10 => Action::Sleep(SYNC_WAIT_MS),
            _ => Action::Receive(1),
        },
    }
}

fn recovery_len(round: u8) -> (len: usize)
    ensures
        len == recovery_script(round).len(),
{
    if round == 0 {
        4
    } else {
        1
    }
}

fn recovery_action(round: u8, pc: usize) -> (action: Action)
    requires
        pc < recovery_script(round).len(),
    ensures
        action@ == recovery_script(round)[pc as int],
{
    if round == 0 {
        match pc {
            0 => Action::Sleep(100),
            1 => Action::Send(sync_frame()),
            2 => Action::Sleep(5),
            _ => Action::Purge,
        }
    } else {
        Action::Sleep(100)
    }
}

fn get_id_action(pc: usize, length: u8) -> (action: Action)
    requires
        pc < get_id_script(length).len(),
    ensures
        action@ == get_id_script(length)[pc as int],
{
    match pc {
        0 => Action::Send(command_frame(GET_ID)),
        1 => Action::Sleep(ID_WAIT_MS),
        2 => Action::Receive(1),
        3 => Action::Receive(1),
        _ => {
            let wanted: usize = length as usize + 1;
            Action::Receive(wanted)
        },
    }
}

fn erase_action(pc: usize) -> (action: Action)
    requires
        pc < erase_script().len(),
    ensures
        action@ == erase_script()[pc as int],
{
    match pc {
        0 => Action::Send(command_frame(EXTENDED_ERASE)),
        1 => Action::Receive(1),
        2 => Action::Send(erase_all_frame()),
        _ => Action::Receive(1),
    }
}

fn leave_action(mode: EntryMode, pc: usize) -> (action: Action)
    requires
        pc < leave_script(mode).len(),
    ensures
        action@ == leave_script(mode)[pc as int],
{
    let dtr: bool = match mode {
        EntryMode::DirectConnect => true,
        EntryMode::DefaultReset => false,
    };
    match pc {
        0 => Action::SetRts(true),
        1 => Action::SetDtr(dtr),
        2 => Action::Sleep(20),
        3 => Action::SetRts(false),
        _ => Action::SetDtr(dtr),
    }
}

fn start_round(round: Option<u8>) -> (next: (Job, Step))
    ensures
        (next.0, next.1@) == begin_round(round),
{
    (Job::GetId { round, pc: 0, length: 0 }, Step::Perform(get_id_action(0, 0)))
}

fn fail_id(round: Option<u8>, failure: Failure) -> (next: (Job, Step))
    requires
        round matches Some(r) ==> r < ROUNDS,
    ensures
        (next.0, next.1@) == id_failed(round, failure),
{
    match round {
        None => (Job::Idle, Step::Abort(failure)),
        Some(r) => {
            if r + 1 < ROUNDS {
                (Job::Recover { round: r, pc: 0 }, Step::Perform(recovery_action(r, 0)))
            } else {
                (Job::Idle, Step::Abort(Failure::IdentificationFailed))
            }
        },
    }
}

fn on_handshake(mode: EntryMode, attempt: u32, pc: usize, event: &Event) -> (next: (Job, Step))
    requires
        pc < handshake_script(mode).len(),
    ensures
        (next.0, next.1@) == handshake_react(mode, attempt, pc, event@),
{
    if pc + 1 < handshake_len(mode) {
        if is_done(event) {
            (Job::Handshake { attempt, pc: pc + 1 }, Step::Perform(handshake_action(mode, pc + 1)))
        } else {
            (Job::Idle, Step::Abort(Failure::IoError))
        }
    } else {
        match GeneralUart::get_ack(event) {
            Ok(_) => start_round(Some(0)),
            Err(_) => (Job::HandshakePurge { attempt }, Step::Perform(Action::Purge)),
        }
    }
}

fn on_handshake_purged(attempts: u32, attempt: u32) -> (next: (Job, Step))
    requires
        attempt < attempts,
    ensures
        (next.0, next.1@) == handshake_purged(attempts, attempt),
{
    if attempt + 1 < attempts {
        (Job::HandshakeRest { attempt }, Step::Perform(Action::Sleep(RETRY_WAIT_MS)))
    } else {
        (Job::Idle, Step::Abort(Failure::HandshakeTimeout))
    }
}

fn on_handshake_rested(mode: EntryMode, attempt: u32, event: &Event) -> (next: (Job, Step))
    requires
        attempt < u32::MAX,
    ensures
        (next.0, next.1@) == handshake_rested(mode, attempt, event@),
{
    if is_done(event) {
        (Job::Handshake { attempt: attempt + 1, pc: 0 }, Step::Perform(handshake_action(mode, 0)))
    } else {
        (Job::Idle, Step::Abort(Failure::IoError))
    }
}

fn on_get_id(round: Option<u8>, pc: usize, length: u8, event: Event) -> (next: (Job, Step))
    requires
        pc < get_id_script(length).len(),
        round matches Some(r) ==> r < ROUNDS,
    ensures
        (next.0, next.1@) == get_id_react(round, pc, length, event@),
{
    if pc < 2 {
        if is_done(&event) {
            (Job::GetId { round, pc: pc + 1, length }, Step::Perform(get_id_action(pc + 1, length)))
        } else {
            fail_id(round, Failure::IoError)
        }
    } else if pc == 2 {
        match GeneralUart::get_ack(&event) {
            Ok(_) => (Job::GetId { round, pc: 3, length }, Step::Perform(get_id_action(3, length))),
            Err(failure) => (Job::Purging { failure, round }, Step::Perform(Action::Purge)),
        }
    } else if pc == 3 {
        match event {
            Event::Data(bytes) => {
                if bytes.len() == 1 {
                    let told: u8 = bytes[0];
                    (
                        Job::GetId { round, pc: 4, length: told },
                        Step::Perform(get_id_action(4, told)),
                    )
                } else {
                    fail_id(round, Failure::IoError)
                }
            },
            _ => fail_id(round, Failure::IoError),
        }
    } else {
        match event {
            Event::Data(bytes) => {
                if bytes.len() == length as usize + 1 {
                    let mut id: Vec<u8> = bytes;
                    id.truncate(length as usize);
                    (Job::Idle, Step::Complete(Outcome::ChipId(id)))
                } else {
                    fail_id(round, Failure::IoError)
                }
            },
            _ => fail_id(round, Failure::IoError),
        }
    }
}

fn on_purged(failure: Failure, round: Option<u8>, event: &Event) -> (next: (Job, Step))
    requires
        round matches Some(r) ==> r < ROUNDS,
    ensures
        (next.0, next.1@) == purged(failure, round, event@),
{
    match round {
        None => {
            if is_done(event) {
                (Job::Idle, Step::Abort(failure))
            } else {
                (Job::Idle, Step::Abort(Failure::IoError))
            }
        },
        Some(_) => fail_id(round, failure),
    }
}

fn on_recover(round: u8, pc: usize, event: &Event) -> (next: (Job, Step))
    requires
        round + 1 < ROUNDS,
        pc < recovery_script(round).len(),
    ensures
        (next.0, next.1@) == recover_react(round, pc, event@),
{
    if !is_done(event) {
        (Job::Idle, Step::Abort(Failure::IoError))
    } else if pc + 1 < recovery_len(round) {
        (Job::Recover { round, pc: pc + 1 }, Step::Perform(recovery_action(round, pc + 1)))
    } else {
        start_round(Some(round + 1))
    }
}

fn on_erase(pc: usize, event: &Event) -> (next: (Job, Step))
    requires
        pc < erase_script().len(),
    ensures
        (next.0, next.1@) == erase_react(pc, event@),
{
    let accepted: Result<(), Failure> = if pc == 1 || pc == 3 {
        GeneralUart::get_ack(event)
    } else if is_done(event) {
        Ok(())
    } else {
        Err(Failure::IoError)
    };
    match accepted {
        Ok(_) => {
            if pc + 1 < 4 {
                (Job::Erase { pc: pc + 1 }, Step::Perform(erase_action(pc + 1)))
            } else {
                (Job::Idle, Step::Complete(Outcome::Done))
            }
        },
        Err(failure) => {
            if pc == 1 || pc == 3 {
                (Job::Purging { failure, round: None }, Step::Perform(Action::Purge))
            } else {
                (Job::Idle, Step::Abort(Failure::IoError))
            }
        },
    }
}

fn on_leave(mode: EntryMode, pc: usize, event: &Event) -> (next: (Job, Step))
    requires
        pc < leave_script(mode).len(),
    ensures
        (next.0, next.1@) == leave_react(mode, pc, event@),
{
    if !is_done(event) {
        (Job::Idle, Step::Abort(Failure::IoError))
    } else if pc + 1 < 5 {
        (Job::Leave { pc: pc + 1 }, Step::Perform(leave_action(mode, pc + 1)))
    } else {
        (Job::Idle, Step::Complete(Outcome::Done))
    }
}

/// The engine: its settings, the job under way, and the image being written.
#[derive(Debug)]
pub struct GeneralUart {
    entry: EntryMode,
    attempts: u32,
    job: Job,
    synced: bool,
    base: u32,
    image: Vec<u8>,
    report: bool,
}

impl GeneralUart {
    /// The circuit the engine drives.
    pub closed spec fn entry(&self) -> EntryMode {
        self.entry
    }

    /// How many handshake attempts a bootloader entry may take.
    pub closed spec fn attempts(&self) -> u32 {
        self.attempts
    }

    /// Where the engine stands.
    pub closed spec fn job(&self) -> Job {
        self.job
    }

    /// Whether the bootloader counts as in step.
    pub closed spec fn synced(&self) -> bool {
        self.synced
    }

    /// How the engine and the target stand to each other.
    pub open spec fn connection(&self) -> Connection {
        connection_of(self.synced(), self.job())
    }

    /// Flash address of the first byte of the image being written.
    pub closed spec fn base(&self) -> u32 {
        self.base
    }

    /// The image being written.
    pub closed spec fn image(&self) -> Seq<u8> {
        self.image@
    }

    /// Whether the write under way reports its progress.
    pub closed spec fn report(&self) -> bool {
        self.report
    }

    /// What every engine satisfies: the image fits below the end of the
    /// 32-bit address space, and the job is within its limits. In
    /// particular no handshake attempt beyond the allowed number is ever
    /// under way.
    pub open spec fn sound(&self) -> bool {
        &&& self.base() + self.image().len() <= 0x1_0000_0000
        &&& job_sound(self.entry(), self.attempts(), self.image().len(), self.report(), self.job())
    }

    #[verifier::type_invariant]
    closed spec fn inv(&self) -> bool {
        self.sound()
    }

    /// Whether `self` is `before` after a move to the job of `next`, with
    /// `step` the step of `next` and everything else as it was.
    pub open spec fn moved(&self, before: &GeneralUart, next: (Job, StepView), step: StepView) -> bool {
        &&& self.job() == next.0
        &&& step == next.1
        &&& self.synced() == synced_after(before.synced(), before.job(), next.0, next.1)
        &&& self.entry() == before.entry()
        &&& self.attempts() == before.attempts()
        &&& self.base() == before.base()
        &&& self.image() == before.image()
        &&& self.report() == before.report()
    }

    /// Whether `self` is `before` after a write of `data` at `address` was
    /// started, with `step` its first step.
    pub open spec fn loaded(
        &self,
        before: &GeneralUart,
        address: u32,
        data: Seq<u8>,
        progress: Progress,
        step: StepView,
    ) -> bool {
        &&& (self.job(), step) == begin_write(address, data)
        &&& self.synced() == synced_after(before.synced(), before.job(), self.job(), step)
        &&& self.entry() == before.entry()
        &&& self.attempts() == before.attempts()
        &&& self.base() == address
        &&& self.image() == data
        &&& self.report() == (progress == Progress::Percent)
    }

    /// What the engine is set up with.
    pub open spec fn setup(&self) -> Setup {
        Setup {
            entry: self.entry(),
            attempts: self.attempts(),
            base: self.base(),
            image: self.image(),
            report: self.report(),
        }
    }

    /// The job that follows `event`, and the step that goes with it.
    pub open spec fn react(&self, event: EventView) -> (Job, StepView) {
        react_in(self.setup(), self.job(), event)
    }

    /// An idle engine as the settings describe it. Fails with
    /// [`Failure::Unsupported`] where they name a circuit or a restart
    /// that is not known.
    pub fn new(air_isp: &AirISP) -> (engine: Result<GeneralUart, Failure>)
        ensures
            match engine {
                Ok(e) => {
                    &&& entry_mode_named(air_isp@.before) == Some(e.entry())
                    &&& restart_known(air_isp@.after)
                    &&& e.attempts() == air_isp@.connect_attempts
                    &&& e.job() == Job::Idle
                    &&& !e.synced()
                    &&& e.image() == Seq::<u8>::empty()
                    &&& e.sound()
                },
                Err(failure) => {
                    &&& failure == Failure::Unsupported
                    &&& entry_mode_named(air_isp@.before) is None || !restart_known(air_isp@.after)
                },
            },
    {
        let before: String = air_isp.get_before();
        let after: String = air_isp.get_after();
        if !same_text(after.as_str(), "hard_reset") {
            return Err(Failure::Unsupported);
        }
        if same_text(before.as_str(), "default_reset") {
            Ok(GeneralUart::configured(EntryMode::DefaultReset, air_isp.get_connect_attempts()))
        } else if same_text(before.as_str(), "direct_connect") {
            Ok(GeneralUart::configured(EntryMode::DirectConnect, air_isp.get_connect_attempts()))
        } else {
            Err(Failure::Unsupported)
        }
    }

    /// An idle engine for the given circuit and number of attempts.
    pub fn configured(entry: EntryMode, attempts: u32) -> (engine: GeneralUart)
        ensures
            engine.entry() == entry,
            engine.attempts() == attempts,
            engine.job() == Job::Idle,
            !engine.synced(),
            engine.image() == Seq::<u8>::empty(),
            engine.sound(),
    {
        GeneralUart {
            entry,
            attempts,
            job: Job::Idle,
            synced: false,
            base: 0,
            image: Vec::new(),
            report: false,
        }
    }

    /// How the engine and the target stand to each other.
    pub fn get_connection(&self) -> (connection: Connection)
        ensures
            connection == self.connection(),
    {
        match self.job {
            Job::Handshake { .. } | Job::HandshakePurge { .. } | Job::HandshakeRest { .. } => {
                Connection::HandshakeInProgress
            },
            Job::GetId { .. } | Job::Recover { .. } => Connection::Identifying,
            Job::Write { .. } => Connection::Flashing,
            Job::Erase { .. } => Connection::Erasing,
            _ => if self.synced {
                Connection::Synced
            } else {
                Connection::Disconnected
            },
        }
    }

    /// Goes to job `next.0` and keeps track of the connection.
    fn go(&mut self, next: (Job, Step)) -> (step: Step)
        requires
            job_sound(
                old(self).entry(),
                old(self).attempts(),
                old(self).image().len(),
                old(self).report(),
                next.0,
            ),
        ensures
            step == next.1,
            final(self).moved(old(self), (next.0, next.1@), step@),
            final(self).sound(),
    {
        proof {
            use_type_invariant(&*self);
        }
        let was_entering: bool = is_entering(self.job);
        let was_leaving: bool = match self.job {
            Job::Leave { .. } => true,
            _ => false,
        };
        let stopped: bool = match next.1 {
            Step::Abort(_) => true,
            _ => false,
        };
        let finished: bool = match next.1 {
            Step::Complete(_) => true,
            _ => false,
        };
        let synced: bool = if is_shaking(next.0) {
            false
        } else if is_entering(next.0) {
            true
        } else if was_entering && stopped {
            false
        } else if was_leaving && finished {
            false
        } else {
            self.synced
        };
        self.job = Job::Idle;
        self.synced = synced;
        self.job = next.0;
        next.1
    }

    /// Where the engine stands.
    pub fn state(&self) -> (job: Job)
        ensures
            job == self.job(),
    {
        self.job
    }

    /// Judges the answer to a wait for an acknowledge: good when it is the
    /// acknowledge byte and nothing else, a protocol error when it is other
    /// data, an I/O error when no data came.
    pub fn get_ack(event: &Event) -> (verdict: Result<(), Failure>)
        ensures
            is_ack(event@) ==> verdict == Ok::<(), Failure>(()),
            !is_ack(event@) ==> verdict == Err::<(), Failure>(nack_failure(event@)),
    {
        match event {
            Event::Data(bytes) => {
                if bytes.len() == 1 && bytes[0] == ACK {
                    assert(bytes@ =~= seq![ACK]);
                    Ok(())
                } else {
                    assert(bytes@ != seq![ACK]) by {
                        if bytes@ == seq![ACK] {
                            assert(seq![ACK].len() == 1);
                            assert(seq![ACK][0] == ACK);
                        }
                    }
                    Err(Failure::ProtocolError)
                }
            },
            _ => Err(Failure::IoError),
        }
    }

    fn write_action(&self, chunk: usize, phase: u8) -> (action: Action)
        requires
            chunk < chunk_count(self.image().len()),
        ensures
            action@ == write_action_spec(self.base(), self.image(), chunk as int, phase),
    {
        proof {
            use_type_invariant(self);
        }
        let len: usize = self.image.len();
        let start: usize = chunk * 256;
        let end: usize = if len - start >= 256 {
            start + 256
        } else {
            len
        };
        let address: u32 = self.base + start as u32;
        if phase == 0 {
            Action::Send(command_frame(WRITE_MEMORY))
        } else if phase == 2 {
            Action::Send(address_frame(address))
        } else if phase == 4 {
            Action::Send(data_frame(slice_subrange(self.image.as_slice(), start, end)))
        } else if phase == 6 {
            Action::Progress { acknowledged: end, total: len, address }
        } else {
            Action::Receive(1)
        }
    }

    fn write_on(&self, chunk: usize, phase: u8) -> (next: (Job, Step))
        requires
            chunk < chunk_count(self.image().len()),
            phase < phases(self.report()),
        ensures
            (next.0, next.1@) == write_onward(
                self.base(),
                self.image(),
                self.report(),
                chunk,
                phase,
            ),
    {
        proof {
            use_type_invariant(self);
        }
        let per: u8 = if self.report {
            7
        } else {
            6
        };
        let len: usize = self.image.len();
        if phase + 1 < per {
            (Job::Write { chunk, phase: phase + 1 }, Step::Perform(self.write_action(chunk, phase + 1)))
        } else if len - chunk * 256 > 256 {
            (Job::Write { chunk: chunk + 1, phase: 0 }, Step::Perform(self.write_action(chunk + 1, 0)))
        } else {
            (Job::Idle, Step::Complete(Outcome::Done))
        }
    }

    fn on_write(&self, chunk: usize, phase: u8, event: &Event) -> (next: (Job, Step))
        requires
            chunk < chunk_count(self.image().len()),
            phase < phases(self.report()),
        ensures
            (next.0, next.1@) == write_react(
                self.base(),
                self.image(),
                self.report(),
                chunk,
                phase,
                event@,
            ),
    {
        if phase == 1 || phase == 3 || phase == 5 {
            match GeneralUart::get_ack(event) {
                Ok(_) => self.write_on(chunk, phase),
                Err(failure) => (
                    Job::Purging { failure, round: None },
                    Step::Perform(Action::Purge),
                ),
            }
        } else if is_done(event) {
            self.write_on(chunk, phase)
        } else {
            (Job::Idle, Step::Abort(Failure::IoError))
        }
    }
}

impl Pp for GeneralUart {
    open spec fn busy(&self) -> bool {
        !(self.job() is Idle)
    }

    /// Starts at the first chunk; see [`write_action_spec`] for what each
    /// chunk takes. Progress is reported only for [`Progress::Percent`].
    fn write_flash(&mut self, address: u32, data: &[u8], progress: Progress) -> (step: Step)
        ensures
            final(self).loaded(old(self), address, data@, progress, step@),
            final(self).sound(),
    {
        proof {
            use_type_invariant(&*self);
        }
        let report: bool = match progress {
            Progress::Percent => true,
            _ => false,
        };
        let image: Vec<u8> = slice_to_vec(data);
        let empty: bool = image.len() == 0;
        let was_leaving: bool = match self.job {
            Job::Leave { .. } => true,
            _ => false,
        };
        let synced: bool = self.synced && !(was_leaving && empty);
        *self = GeneralUart {
            entry: self.entry,
            attempts: self.attempts,
            job: if empty {
                Job::Idle
            } else {
                Job::Write { chunk: 0, phase: 0 }
            },
            synced,
            base: address,
            image,
            report,
        };
        if empty {
            Step::Complete(Outcome::Done)
        } else {
            Step::Perform(self.write_action(0, 0))
        }
    }

    /// Starts the first handshake attempt; see [`begin_entry`].
    fn reset_bootloader(&mut self) -> (step: Step)
        ensures
            final(self).moved(
                old(self),
                begin_entry(old(self).entry(), old(self).attempts()),
                step@,
            ),
            final(self).sound(),
    {
        proof {
            use_type_invariant(&*self);
        }
        let next: (Job, Step) = if self.attempts == 0 {
            start_round(Some(0))
        } else {
            (Job::Handshake { attempt: 0, pc: 0 }, Step::Perform(handshake_action(self.entry, 0)))
        };
        self.go(next)
    }

    /// Starts [`leave_script`].
    fn reset_app(&mut self) -> (step: Step)
        ensures
            final(self).moved(old(self), begin_leave(old(self).entry()), step@),
            final(self).sound(),
    {
        proof {
            use_type_invariant(&*self);
        }
        let first: Step = Step::Perform(leave_action(self.entry, 0));
        self.go((Job::Leave { pc: 0 }, first))
    }

    /// Starts [`get_id_script`], once, with no retry.
    fn get_chip_id(&mut self) -> (step: Step)
        ensures
            final(self).moved(old(self), begin_round(None), step@),
            final(self).sound(),
    {
        let next: (Job, Step) = start_round(None);
        self.go(next)
    }

    /// Starts [`erase_script`].
    fn erase_all(&mut self) -> (step: Step)
        ensures
            final(self).moved(old(self), begin_erase(), step@),
            final(self).sound(),
    {
        let first: Step = Step::Perform(erase_action(0));
        self.go((Job::Erase { pc: 0 }, first))
    }

    /// Takes the driver's report on the last action and says what comes
    /// next. An idle engine answers any report with an I/O failure.
    fn advance(&mut self, event: Event) -> (step: Step)
        ensures
            final(self).moved(old(self), old(self).react(event@), step@),
            final(self).sound(),
    {
        proof {
            use_type_invariant(&*self);
        }
        let next: (Job, Step) = match self.job {
            Job::Idle => (Job::Idle, Step::Abort(Failure::IoError)),
            Job::Handshake { attempt, pc } => on_handshake(self.entry, attempt, pc, &event),
            Job::HandshakePurge { attempt } => on_handshake_purged(self.attempts, attempt),
            Job::HandshakeRest { attempt } => on_handshake_rested(self.entry, attempt, &event),
            Job::GetId { round, pc, length } => on_get_id(round, pc, length, event),
            Job::Purging { failure, round } => on_purged(failure, round, &event),
            Job::Recover { round, pc } => on_recover(round, pc, &event),
            Job::Write { chunk, phase } => self.on_write(chunk, phase, &event),
            Job::Erase { pc } => on_erase(pc, &event),
            Job::Leave { pc } => on_leave(self.entry, pc, &event),
        };
        self.go(next)
    }
}

} // verus!

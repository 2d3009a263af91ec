//! The vocabulary between an engine and whoever drives the hardware.
//!
//! An engine never performs I/O. It returns a [`Step`]: either an [`Action`]
//! for the driver to carry out, or the end of the operation. The driver
//! reports back with an [`Event`], and the engine decides what comes next.

use vstd::prelude::*;

verus! {

/// Why an operation ended without success.
#[derive(Clone, Copy, Debug, PartialEq, Eq, Structural)]
pub enum Failure {
    /// The link could not be opened, read or written, or a read timed out.
    IoError,
    /// The target answered something other than an acknowledge.
    ProtocolError,
    /// Every bootloader-entry attempt went unanswered.
    HandshakeTimeout,
    /// No chip descriptor matched, or the target never reported its id.
    IdentificationFailed,
    /// The image file is not well-formed Intel-HEX, or holds no data.
    DecodeError,
    /// The image file is empty.
    EmptyInput,
    /// The image reaches past the end of the 32-bit address space.
    OutOfRange,
    /// The settings name a backend, a reset circuit or a restart mode
    /// that does not exist.
    Unsupported,
}

/// One thing for the driver to do.
#[derive(Clone, Debug, PartialEq, Eq)]
pub enum Action {
    /// Drive the request-to-send line.
    SetRts(bool),
    /// Drive the data-terminal-ready line.
    SetDtr(bool),
    /// Wait this many milliseconds.
    Sleep(u32),
    /// Write these bytes to the serial port.
    Send(Vec<u8>),
    /// Read into a zeroed buffer of this many bytes and hand the buffer back.
    Receive(usize),
    /// Discard whatever sits in the serial buffers.
    Purge,
    /// Tell the user how far a write has come.
    Progress { acknowledged: usize, total: usize, address: u32 },
    /// Name the debug probes that are plugged in.
    ListProbes,
    /// Open a debug session on `target`: through the probe at this place of
    /// the last listing, at `speed_khz`, or through whichever probe answers.
    Attach { probe: Option<usize>, target: String, speed_khz: u32 },
    /// Read the 32-bit word at this address through the open session.
    ReadWord(u32),
    /// Write `data` to flash at `address` through the open session.
    Program { address: u32, data: Vec<u8> },
    /// Erase the whole flash through the open session.
    EraseChip,
    /// Reset the core through the open session.
    ResetCore,
}

/// What an [`Action`] is, with its bytes and text as sequences.
pub enum ActionView {
    SetRts(bool),
    SetDtr(bool),
    Sleep(u32),
    Send(Seq<u8>),
    Receive(usize),
    Purge,
    Progress { acknowledged: usize, total: usize, address: u32 },
    ListProbes,
    Attach { probe: Option<usize>, target: Seq<char>, speed_khz: u32 },
    ReadWord(u32),
    Program { address: u32, data: Seq<u8> },
    EraseChip,
    ResetCore,
}

impl View for Action {
    type V = ActionView;

    open spec fn view(&self) -> ActionView {
        match *self {
            Action::SetRts(level) => ActionView::SetRts(level),
            Action::SetDtr(level) => ActionView::SetDtr(level),
            Action::Sleep(ms) => ActionView::Sleep(ms),
            Action::Send(bytes) => ActionView::Send(bytes@),
            Action::Receive(n) => ActionView::Receive(n),
            Action::Purge => ActionView::Purge,
            Action::Progress { acknowledged, total, address } => ActionView::Progress {
                acknowledged,
                total,
                address,
            },
            Action::ListProbes => ActionView::ListProbes,
            Action::Attach { probe, target, speed_khz } => ActionView::Attach {
                probe,
                target: target@,
                speed_khz,
            },
            Action::ReadWord(address) => ActionView::ReadWord(address),
            Action::Program { address, data } => ActionView::Program { address, data: data@ },
            Action::EraseChip => ActionView::EraseChip,
            Action::ResetCore => ActionView::ResetCore,
        }
    }
}

/// What came of the last [`Action`].
#[derive(Clone, Debug, PartialEq, Eq)]
pub enum Event {
    /// The action was carried out and has nothing to report.
    Done,
    /// The buffer after a `Receive`.
    Data(Vec<u8>),
    /// The word that `ReadWord` found.
    Word(u32),
    /// The identifiers that `ListProbes` found, in listing order.
    Probes(Vec<String>),
    /// The action failed or timed out.
    Failed,
}

/// What an [`Event`] is, with its bytes and text as sequences.
pub enum EventView {
    Done,
    Data(Seq<u8>),
    Word(u32),
    Probes(Seq<Seq<char>>),
    Failed,
}

/// The text of each string, in order.
pub open spec fn texts(names: Seq<String>) -> Seq<Seq<char>> {
    Seq::new(names.len(), |i: int| names[i]@)
}

impl View for Event {
    type V = EventView;

    open spec fn view(&self) -> EventView {
        match *self {
            Event::Done => EventView::Done,
            Event::Data(bytes) => EventView::Data(bytes@),
            Event::Word(word) => EventView::Word(word),
            Event::Probes(names) => EventView::Probes(texts(names@)),
            Event::Failed => EventView::Failed,
        }
    }
}

/// How sure an identification is of the descriptor it settled on.
#[derive(Clone, Copy, Debug, PartialEq, Eq, Structural)]
pub enum Finding {
    /// The debug-id register held the expected product id.
    Confirmed,
    /// The descriptor names no readable id register; it was taken on trust.
    Assumed,
    /// The register could not be read; the named descriptor was kept.
    Unreadable,
    /// The register held this other value; the named descriptor was kept.
    Mismatch(u32),
}

/// What a finished operation has to show.
#[derive(Clone, Debug, PartialEq, Eq)]
pub enum Outcome {
    /// Nothing beyond having succeeded.
    Done,
    /// The product id bytes the bootloader reported, most significant first.
    ChipId(Vec<u8>),
    /// The place in the chip table of the descriptor that was settled on.
    Chip { index: usize, finding: Finding },
}

pub enum OutcomeView {
    Done,
    ChipId(Seq<u8>),
    Chip { index: usize, finding: Finding },
}

impl View for Outcome {
    type V = OutcomeView;

    open spec fn view(&self) -> OutcomeView {
        match *self {
            Outcome::Done => OutcomeView::Done,
            Outcome::ChipId(bytes) => OutcomeView::ChipId(bytes@),
            Outcome::Chip { index, finding } => OutcomeView::Chip { index, finding },
        }
    }
}

/// What an engine wants next.
#[derive(Clone, Debug, PartialEq, Eq)]
pub enum Step {
    /// Carry this out and report back.
    Perform(Action),
    /// The operation succeeded.
    Complete(Outcome),
    /// The operation failed.
    Abort(Failure),
}

pub enum StepView {
    Perform(ActionView),
    Complete(OutcomeView),
    Abort(Failure),
}

impl View for Step {
    type V = StepView;

    open spec fn view(&self) -> StepView {
        match *self {
            Step::Perform(action) => StepView::Perform(action@),
            Step::Complete(outcome) => StepView::Complete(outcome@),
            Step::Abort(failure) => StepView::Abort(failure),
        }
    }
}

} // verus!

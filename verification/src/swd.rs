//! The debug-probe programmer.
//!
//! The probe driver does the work; this engine decides in what order it is
//! asked. A chip must have been identified before a session is opened on
//! it, because a probe attaches to a target by name. Every driver failure
//! becomes a [`Failure`] of the same kinds as the UART engine reports.

use crate::chips::{identify, identify_next, identify_spec, resume_spec, ChipInfo, Lookup};
use crate::config::{AirISP, Progress};
use crate::link::{
    texts, Action, ActionView, Event, EventView, Failure, Outcome, OutcomeView, Step, StepView,
};
use crate::peripheral::Pp;
use crate::text::{bytes_of, contains, fold, folded, lowercase, occurs_in, same_text, to_lowercase};
use vstd::prelude::*;
use vstd::slice::slice_to_vec;
use vstd::utf8::encode_utf8;

verus! {

/// Probe speed in kHz where the settings ask for none.
pub const DEFAULT_SPEED_KHZ: u32 = 200;

/// What a session is opened for.
#[derive(Clone, Copy, Debug, PartialEq, Eq, Structural)]
pub enum Goal {
    Program,
    Erase,
    Reset,
}

/// Where the engine stands.
#[derive(Clone, Copy, Debug, PartialEq, Eq)]
#[allow(inconsistent_fields)]
pub enum SwdJob {
    /// No operation is under way.
    Idle,
    /// Identifying; the probes are being listed to read the register of
    /// the descriptor at `index`.
    IdListing { index: usize },
    /// Identifying; a session is being opened for that read.
    IdAttaching { index: usize },
    /// Identifying; the register is being read.
    IdReading { index: usize },
    /// The probes are being listed to open a session.
    Listing { goal: Goal },
    /// The session is being opened.
    Attaching { goal: Goal },
    /// The session is open and the work itself is under way.
    Acting { goal: Goal },
}

/// The speed to ask of the probe: what the settings say, or the default.
pub open spec fn speed_of(baud: u32) -> u32 {
    if baud == 0 {
        DEFAULT_SPEED_KHZ
    } else {
        baud
    }
}

/// Whether the probe at place `i` of a listing is the one that `port`
/// asks for: its identifier, in lower case, holds `port`.
pub open spec fn probe_fits(probes: Seq<Seq<char>>, port: Seq<char>, i: int) -> bool {
    occurs_in(encode_utf8(port), folded(probes[i]))
}

/// The first probe at or after place `from` that `port` asks for.
pub open spec fn first_probe(probes: Seq<Seq<char>>, port: Seq<char>, from: int) -> Option<int>
    decreases probes.len() - from,
{
    if from < 0 || from >= probes.len() {
        None
    } else if probe_fits(probes, port, from) {
        Some(from)
    } else {
        first_probe(probes, port, from + 1)
    }
}

/// What opening a session on the chip called `name` starts with: with
/// `auto` as port the driver attaches through whichever probe answers;
/// with any other port the probes are listed first.
pub open spec fn open_step(port: Seq<char>, name: Seq<char>, speed: u32) -> ActionView {
    if port == "auto"@ {
        ActionView::Attach { probe: None, target: lowercase(name), speed_khz: speed }
    } else {
        ActionView::ListProbes
    }
}

/// The name to attach by for the register read of an identification: the
/// selector itself, or a generic core while the chip is not known.
pub open spec fn read_target(selector: Seq<char>) -> Seq<char> {
    if selector == "auto"@ {
        "cortex-m0"@
    } else {
        lowercase(selector)
    }
}

/// What the read of an identification register starts with. A scan
/// attaches through whichever probe answers; a named chip goes by the
/// port.
pub open spec fn read_step(port: Seq<char>, selector: Seq<char>, speed: u32) -> (bool, ActionView) {
    if selector == "auto"@ || port == "auto"@ {
        (
            false,
            ActionView::Attach { probe: None, target: read_target(selector), speed_khz: speed },
        )
    } else {
        (true, ActionView::ListProbes)
    }
}

/// The action that does the work of a goal.
pub open spec fn work(goal: Goal, base: u32, image: Seq<u8>) -> ActionView {
    match goal {
        Goal::Program => ActionView::Program { address: base, data: image },
        Goal::Erase => ActionView::EraseChip,
        Goal::Reset => ActionView::ResetCore,
    }
}

/// What an answer of the identification leads to: the chip it settled on,
/// if any, the job, and the step.
pub open spec fn after_lookup(
    table: Seq<ChipInfo>,
    port: Seq<char>,
    selector: Seq<char>,
    speed: u32,
    target: Option<usize>,
    lookup: Lookup,
) -> (Option<usize>, SwdJob, StepView) {
    match lookup {
        Lookup::NotFound => (target, SwdJob::Idle, StepView::Abort(Failure::IdentificationFailed)),
        Lookup::Found { index, finding } => (
            Some(index),
            SwdJob::Idle,
            StepView::Complete(OutcomeView::Chip { index, finding }),
        ),
        Lookup::Read { index, address } => {
            let first = read_step(port, selector, speed);
            (
                target,
                if first.0 {
                    SwdJob::IdListing { index }
                } else {
                    SwdJob::IdAttaching { index }
                },
                StepView::Perform(first.1),
            )
        },
    }
}

/// The first step of an operation that needs a session: none can be
/// opened before a chip is identified.
pub open spec fn begin_goal(
    table: Seq<ChipInfo>,
    port: Seq<char>,
    speed: u32,
    target: Option<usize>,
    goal: Goal,
) -> (SwdJob, StepView) {
    match target {
        Some(t) if t < table.len() => (
            if port == "auto"@ {
                SwdJob::Attaching { goal }
            } else {
                SwdJob::Listing { goal }
            },
            StepView::Perform(open_step(port, table[t as int].name@, speed)),
        ),
        _ => (SwdJob::Idle, StepView::Abort(Failure::IdentificationFailed)),
    }
}

fn pick_probe(probes: &Vec<String>, port: &str) -> (found: Option<usize>)
    ensures
        match found {
            Some(i) => first_probe(texts(probes@), port@, 0) == Some(i as int) && i < probes@.len(),
            None => first_probe(texts(probes@), port@, 0) is None,
        },
{
    let key: Vec<u8> = bytes_of(port);
    let mut i: usize = 0;
    while i < probes.len()
        invariant
            i <= probes@.len(),
            key@ == encode_utf8(port@),
            first_probe(texts(probes@), port@, 0) == first_probe(texts(probes@), port@, i as int),
        decreases probes@.len() - i,
    {
        let name: Vec<u8> = fold(probes[i].as_str());
        assert(texts(probes@)[i as int] == probes@[i as int]@);
        if contains(name.as_slice(), key.as_slice()) {
            return Some(i);
        }
        i = i + 1;
    }
    None
}

/// The engine: its settings, the chip table, the chip it settled on, the
/// job under way, and the image to program.
#[derive(Debug)]
pub struct Swd {
    port: String,
    selector: String,
    speed: u32,
    table: Vec<ChipInfo>,
    target: Option<usize>,
    job: SwdJob,
    base: u32,
    image: Vec<u8>,
}

/// What a finished identification has to tell about its chip.
#[allow(non_camel_case_types)]
pub trait chip_info {
    /// The descriptor that identification settled on, once it has.
    fn get_chip(&self) -> Option<&ChipInfo>;

    /// The product id of that descriptor.
    fn get_chip_pid(&self) -> Option<u32>;
}

impl Swd {
    /// The probe to use: `auto`, or part of a probe's identifier.
    pub closed spec fn port(&self) -> Seq<char> {
        self.port@
    }

    /// The chip selector: `auto`, or a name.
    pub closed spec fn selector(&self) -> Seq<char> {
        self.selector@
    }

    /// Probe speed in kHz.
    pub closed spec fn speed(&self) -> u32 {
        self.speed
    }

    /// The chip table.
    pub closed spec fn table(&self) -> Seq<ChipInfo> {
        self.table@
    }

    /// Place in the table of the chip that identification settled on.
    pub closed spec fn target(&self) -> Option<usize> {
        self.target
    }

    /// Where the engine stands.
    pub closed spec fn job(&self) -> SwdJob {
        self.job
    }

    /// Flash address of the image to program.
    pub closed spec fn base(&self) -> u32 {
        self.base
    }

    /// The image to program.
    pub closed spec fn image(&self) -> Seq<u8> {
        self.image@
    }

    /// What every engine satisfies: the chip it settled on, and the one
    /// whose register it is reading, are in the table.
    pub open spec fn sound(&self) -> bool {
        &&& self.target() matches Some(t) ==> t < self.table().len()
        &&& match self.job() {
            SwdJob::IdListing { index } => index < self.table().len(),
            SwdJob::IdAttaching { index } => index < self.table().len(),
            SwdJob::IdReading { index } => index < self.table().len(),
            SwdJob::Listing { goal } => self.target() is Some,
            SwdJob::Attaching { goal } => self.target() is Some,
            _ => true,
        }
    }

    #[verifier::type_invariant]
    closed spec fn inv(&self) -> bool {
        self.sound()
    }

    /// Whether `self` is `before` after a move to the chip and the job of
    /// `next`, with `step` the step of `next` and everything else as it
    /// was.
    pub open spec fn moved(
        &self,
        before: &Swd,
        next: (Option<usize>, SwdJob, StepView),
        step: StepView,
    ) -> bool {
        &&& self.target() == next.0
        &&& self.job() == next.1
        &&& step == next.2
        &&& self.same_settings(before)
        &&& self.base() == before.base()
        &&& self.image() == before.image()
    }

    /// Whether `self` is `before` after the programming of `data` at
    /// `address` was started, with `step` its first step.
    pub open spec fn loaded(&self, before: &Swd, address: u32, data: Seq<u8>, step: StepView) -> bool {
        &&& (self.job(), step) == begin_goal(
            before.table(),
            before.port(),
            before.speed(),
            before.target(),
            Goal::Program,
        )
        &&& self.target() == before.target()
        &&& self.same_settings(before)
        &&& self.base() == address
        &&& self.image() == data
    }

    /// The first step of an identification.
    pub open spec fn begin_identify(&self) -> (Option<usize>, SwdJob, StepView) {
        after_lookup(
            self.table(),
            self.port(),
            self.selector(),
            self.speed(),
            self.target(),
            identify_spec(self.table(), self.selector()),
        )
    }

    /// The first step of an operation that needs a session.
    pub open spec fn begin(&self, goal: Goal) -> (Option<usize>, SwdJob, StepView) {
        let first = begin_goal(self.table(), self.port(), self.speed(), self.target(), goal);
        (self.target(), first.0, first.1)
    }

    /// What the reading for the descriptor at `index` leads to.
    pub open spec fn settle(&self, index: usize, reading: Option<u32>) -> (
        Option<usize>,
        SwdJob,
        StepView,
    ) {
        after_lookup(
            self.table(),
            self.port(),
            self.selector(),
            self.speed(),
            self.target(),
            resume_spec(self.table(), self.selector(), index, reading),
        )
    }

    /// The chip settled on, the job and the step that follow `event`. A
    /// read that cannot be made, for want of a probe or a session, counts
    /// as a read that failed. A session that cannot be opened, and work
    /// that fails, is an I/O error.
    pub open spec fn react(&self, event: EventView) -> (Option<usize>, SwdJob, StepView) {
        let failed = (self.target(), SwdJob::Idle, StepView::Abort(Failure::IoError));
        match self.job() {
            SwdJob::Idle => failed,
            SwdJob::IdListing { index } => match event {
                EventView::Probes(probes) => match first_probe(probes, self.port(), 0) {
                    Some(i) => (
                        self.target(),
                        SwdJob::IdAttaching { index },
                        StepView::Perform(
                            ActionView::Attach {
                                probe: Some(i as usize),
                                target: read_target(self.selector()),
                                speed_khz: self.speed(),
                            },
                        ),
                    ),
                    None => self.settle(index, None),
                },
                _ => self.settle(index, None),
            },
            SwdJob::IdAttaching { index } => if event is Done {
                (
                    self.target(),
                    SwdJob::IdReading { index },
                    StepView::Perform(
                        ActionView::ReadWord(self.table()[index as int].debug_idcode_reg),
                    ),
                )
            } else {
                self.settle(index, None)
            },
            SwdJob::IdReading { index } => match event {
                EventView::Word(word) => self.settle(index, Some(word)),
                _ => self.settle(index, None),
            },
            SwdJob::Listing { goal } => match event {
                EventView::Probes(probes) => match first_probe(probes, self.port(), 0) {
                    Some(i) => (
                        self.target(),
                        SwdJob::Attaching { goal },
                        StepView::Perform(
                            ActionView::Attach {
                                probe: Some(i as usize),
                                target: lowercase(self.table()[self.target().unwrap() as int].name@),
                                speed_khz: self.speed(),
                            },
                        ),
                    ),
                    None => failed,
                },
                _ => failed,
            },
            SwdJob::Attaching { goal } => if event is Done {
                (
                    self.target(),
                    SwdJob::Acting { goal },
                    StepView::Perform(work(goal, self.base(), self.image())),
                )
            } else {
                failed
            },
            SwdJob::Acting { goal } => if event is Done {
                (self.target(), SwdJob::Idle, StepView::Complete(OutcomeView::Done))
            } else {
                failed
            },
        }
    }

    /// An idle engine as the settings describe it, with nothing identified
    /// yet.
    pub fn new(air_isp: &AirISP, table: Vec<ChipInfo>) -> (engine: Swd)
        ensures
            engine.port() == air_isp@.port,
            engine.selector() == air_isp@.chip,
            engine.speed() == speed_of(air_isp@.baud),
            engine.table() == table@,
            engine.target() is None,
            engine.job() == SwdJob::Idle,
            engine.image() == Seq::<u8>::empty(),
            engine.sound(),
    {
        let baud: u32 = air_isp.get_baud();
        let speed: u32 = if baud == 0 {
            DEFAULT_SPEED_KHZ
        } else {
            baud
        };
        Swd {
            port: air_isp.get_port(),
            selector: air_isp.get_chip(),
            speed,
            table,
            target: None,
            job: SwdJob::Idle,
            base: 0,
            image: Vec::new(),
        }
    }

    /// Where the engine stands.
    pub fn state(&self) -> (job: SwdJob)
        ensures
            job == self.job(),
    {
        self.job
    }

    fn read_name(&self) -> (name: String)
        ensures
            name@ == read_target(self.selector()),
    {
        if same_text(self.selector.as_str(), "auto") {
            "cortex-m0".to_owned()
        } else {
            to_lowercase(self.selector.as_str())
        }
    }

    fn on_lookup(&self, lookup: Lookup) -> (next: (Option<usize>, SwdJob, Step))
        requires
            lookup matches Lookup::Found { index, finding } ==> index < self.table().len(),
            lookup matches Lookup::Read { index, address } ==> index < self.table().len(),
        ensures
            (next.0, next.1, next.2@) == after_lookup(
                self.table(),
                self.port(),
                self.selector(),
                self.speed(),
                self.target(),
                lookup,
            ),
            next.0 matches Some(t) ==> t < self.table().len(),
            next.1 is Idle || next.1 is IdListing || next.1 is IdAttaching,
            next.1 matches SwdJob::IdListing { index } ==> index < self.table().len(),
            next.1 matches SwdJob::IdAttaching { index } ==> index < self.table().len(),
    {
        proof {
            use_type_invariant(self);
        }
        match lookup {
            Lookup::NotFound => (
                self.target,
                SwdJob::Idle,
                Step::Abort(Failure::IdentificationFailed),
            ),
            Lookup::Found { index, finding } => (
                Some(index),
                SwdJob::Idle,
                Step::Complete(Outcome::Chip { index, finding }),
            ),
            Lookup::Read { index, address } => {
                if same_text(self.selector.as_str(), "auto") || same_text(
                    self.port.as_str(),
                    "auto",
                ) {
                    (
                        self.target,
                        SwdJob::IdAttaching { index },
                        Step::Perform(
                            Action::Attach {
                                probe: None,
                                target: self.read_name(),
                                speed_khz: self.speed,
                            },
                        ),
                    )
                } else {
                    (self.target, SwdJob::IdListing { index }, Step::Perform(Action::ListProbes))
                }
            },
        }
    }

    fn on_reading(&self, index: usize, reading: Option<u32>) -> (next: (Option<usize>, SwdJob, Step))
        requires
            index < self.table().len(),
        ensures
            (next.0, next.1, next.2@) == self.settle(index, reading),
            next.0 matches Some(t) ==> t < self.table().len(),
            next.1 is Idle || next.1 is IdListing || next.1 is IdAttaching,
            next.1 matches SwdJob::IdListing { index } ==> index < self.table().len(),
            next.1 matches SwdJob::IdAttaching { index } ==> index < self.table().len(),
    {
        let lookup: Lookup = identify_next(&self.table, self.selector.as_str(), index, reading);
        self.on_lookup(lookup)
    }

    fn start_goal(&mut self, goal: Goal) -> (step: Step)
        ensures
            final(self).moved(old(self), old(self).begin(goal), step@),
            !(final(self).job() is Idle) == (step is Perform),
            final(self).sound(),
    {
        proof {
            use_type_invariant(&*self);
        }
        match self.target {
            Some(t) => {
                if same_text(self.port.as_str(), "auto") {
                    let name: String = to_lowercase(self.table[t].name.as_str());
                    self.job = SwdJob::Attaching { goal };
                    Step::Perform(Action::Attach { probe: None, target: name, speed_khz: self.speed })
                } else {
                    self.job = SwdJob::Listing { goal };
                    Step::Perform(Action::ListProbes)
                }
            },
            None => {
                self.job = SwdJob::Idle;
                Step::Abort(Failure::IdentificationFailed)
            },
        }
    }

    /// Whether two engines have the same settings and chip table.
    pub open spec fn same_settings(&self, other: &Swd) -> bool {
        &&& self.port() == other.port()
        &&& self.selector() == other.selector()
        &&& self.speed() == other.speed()
        &&& self.table() == other.table()
    }

    fn start_identify(&mut self) -> (step: Step)
        ensures
            final(self).moved(old(self), old(self).begin_identify(), step@),
            !(final(self).job() is Idle) == (step is Perform),
            final(self).sound(),
    {
        proof {
            use_type_invariant(&*self);
        }
        let lookup: Lookup = identify(&self.table, self.selector.as_str());
        proof {
            crate::chips::lemma_identify_within(self.table@, self.selector@);
        }
        let next: (Option<usize>, SwdJob, Step) = self.on_lookup(lookup);
        self.job = SwdJob::Idle;
        self.target = next.0;
        self.job = next.1;
        next.2
    }
}

impl chip_info for Swd {
    fn get_chip(&self) -> (chip: Option<&ChipInfo>)
        ensures
            match chip {
                Some(c) => self.target() matches Some(t) && t < self.table().len() && *c
                    == self.table()[t as int],
                None => self.target() is None,
            },
    {
        proof {
            use_type_invariant(self);
        }
        match self.target {
            Some(t) => Some(&self.table[t]),
            None => None,
        }
    }

    fn get_chip_pid(&self) -> (pid: Option<u32>)
        ensures
            match pid {
                Some(p) => self.target() matches Some(t) && t < self.table().len() && p
                    == self.table()[t as int].pid,
                None => self.target() is None,
            },
    {
        proof {
            use_type_invariant(self);
        }
        match self.target {
            Some(t) => Some(self.table[t].pid as u32),
            None => None,
        }
    }
}

impl Pp for Swd {
    open spec fn busy(&self) -> bool {
        !(self.job() is Idle)
    }

    /// Opens a session on the identified chip and programs `data` at
    /// `address`; see [`begin_goal`]. Progress is not reported.
    fn write_flash(&mut self, address: u32, data: &[u8], progress: Progress) -> (step: Step)
        ensures
            final(self).loaded(old(self), address, data@, step@),
            final(self).sound(),
    {
        proof {
            use_type_invariant(&*self);
        }
        self.job = SwdJob::Idle;
        self.base = address;
        self.image = slice_to_vec(data);
        self.start_goal(Goal::Program)
    }

    /// Identifies the chip; see [`identify_spec`] and [`after_lookup`].
    /// A probe has no bootloader to enter.
    fn reset_bootloader(&mut self) -> (step: Step)
        ensures
            final(self).moved(old(self), old(self).begin_identify(), step@),
            final(self).sound(),
    {
        self.start_identify()
    }

    /// Opens a session on the identified chip and resets its core.
    fn reset_app(&mut self) -> (step: Step)
        ensures
            final(self).moved(old(self), old(self).begin(Goal::Reset), step@),
            final(self).sound(),
    {
        self.start_goal(Goal::Reset)
    }

    /// Identifies the chip, as [`Pp::reset_bootloader`] does.
    fn get_chip_id(&mut self) -> (step: Step)
        ensures
            final(self).moved(old(self), old(self).begin_identify(), step@),
            final(self).sound(),
    {
        self.start_identify()
    }

    /// Opens a session on the identified chip and erases its flash.
    fn erase_all(&mut self) -> (step: Step)
        ensures
            final(self).moved(old(self), old(self).begin(Goal::Erase), step@),
            final(self).sound(),
    {
        self.start_goal(Goal::Erase)
    }

    /// Takes the driver's report on the last action and says what comes
    /// next; see [`Swd::react`]. An idle engine answers any report with an
    /// I/O failure.
    fn advance(&mut self, event: Event) -> (step: Step)
        ensures
            final(self).moved(old(self), old(self).react(event@), step@),
            final(self).sound(),
    {
        proof {
            use_type_invariant(&*self);
        }
        let next: (Option<usize>, SwdJob, Step) = match self.job {
            SwdJob::Idle => (self.target, SwdJob::Idle, Step::Abort(Failure::IoError)),
            SwdJob::IdListing { index } => match event {
                Event::Probes(probes) => match pick_probe(&probes, self.port.as_str()) {
                    Some(i) => (
                        self.target,
                        SwdJob::IdAttaching { index },
                        Step::Perform(
                            Action::Attach {
                                probe: Some(i),
                                target: self.read_name(),
                                speed_khz: self.speed,
                            },
                        ),
                    ),
                    None => self.on_reading(index, None),
                },
                _ => self.on_reading(index, None),
            },
            SwdJob::IdAttaching { index } => match event {
                Event::Done => (
                    self.target,
                    SwdJob::IdReading { index },
                    Step::Perform(Action::ReadWord(self.table[index].debug_idcode_reg)),
                ),
                _ => self.on_reading(index, None),
            },
            SwdJob::IdReading { index } => match event {
                Event::Word(word) => self.on_reading(index, Some(word)),
                _ => self.on_reading(index, None),
            },
            SwdJob::Listing { goal } => match (event, self.target) {
                (Event::Probes(probes), Some(t)) => match pick_probe(&probes, self.port.as_str()) {
                    Some(i) => (
                        self.target,
                        SwdJob::Attaching { goal },
                        Step::Perform(
                            Action::Attach {
                                probe: Some(i),
                                target: to_lowercase(self.table[t].name.as_str()),
                                speed_khz: self.speed,
                            },
                        ),
                    ),
                    None => (self.target, SwdJob::Idle, Step::Abort(Failure::IoError)),
                },
                _ => (self.target, SwdJob::Idle, Step::Abort(Failure::IoError)),
            },
            SwdJob::Attaching { goal } => match event {
                Event::Done => {
                    let action: Action = match goal {
                        Goal::Program => Action::Program {
                            address: self.base,
                            data: slice_to_vec(self.image.as_slice()),
                        },
                        Goal::Erase => Action::EraseChip,
                        Goal::Reset => Action::ResetCore,
                    };
                    (self.target, SwdJob::Acting { goal }, Step::Perform(action))
                },
                _ => (self.target, SwdJob::Idle, Step::Abort(Failure::IoError)),
            },
            SwdJob::Acting { goal } => match event {
                Event::Done => (self.target, SwdJob::Idle, Step::Complete(Outcome::Done)),
                _ => (self.target, SwdJob::Idle, Step::Abort(Failure::IoError)),
            },
        };
        self.job = SwdJob::Idle;
        self.target = next.0;
        self.job = next.1;
        next.2
    }
}

} // verus!

//! The order of a flashing run.
//!
//! A run enters the bootloader, erases the flash if asked to, writes the
//! segments of the image in order, and restarts the target. The plan says
//! which operation comes next; whoever owns the programmer carries it out
//! and reports how it ended. The first failure ends the run.

use crate::config::{AirISP, Progress};
use crate::hex_to_bin::{segments, Bin, Segment, UNSPECIFIED_BASE};
use crate::link::Failure;
use vstd::prelude::*;
use vstd::string::StringSliceAdditionalSpecFns;

verus! {

/// How the last command ended, or that there was none yet.
#[derive(Clone, Copy, Debug, PartialEq, Eq, Structural)]
pub enum Report {
    /// Nothing has been done; the run starts.
    Start,
    /// The last command succeeded.
    Succeeded,
    /// The last command failed.
    Failed(Failure),
}

/// The operation to carry out next, or the end of the run.
#[derive(Clone, Copy, Debug, PartialEq, Eq, Structural)]
pub enum Command {
    ResetBootloader,
    EraseAll,
    /// Write the bytes of the image's segment `segment` at `address`.
    WriteFlash { segment: usize, address: u32, progress: Progress },
    ResetApp,
    GetChipId,
    /// The run is over and went well.
    Finish,
    /// The run is over and failed.
    Fail(Failure),
}

/// How far a run has come.
#[derive(Clone, Copy, Debug, PartialEq, Eq, Structural)]
pub enum Stage {
    Ready,
    Entering,
    Erasing,
    Writing { segment: usize },
    Leaving,
    Over,
}

/// Where a segment goes: to its own base address, or to `fallback` where
/// it has none.
pub open spec fn resolve(fallback: u32, base: u32) -> u32 {
    if base == UNSPECIFIED_BASE {
        fallback
    } else {
        base
    }
}

/// What comes when the segments before `k` are written: the write of
/// segment `k`, or the restart when none is left. A segment that reaches
/// past the end of the address space ends the run.
pub open spec fn write_from(fallback: u32, progress: Progress, image: Seq<Segment>, k: int) -> (
    Stage,
    Command,
) {
    if k < 0 || k >= image.len() || k > usize::MAX {
        (Stage::Leaving, Command::ResetApp)
    } else {
        let address = resolve(fallback, image[k].address);
        if address + image[k].data.len() <= 0x1_0000_0000 {
            (
                Stage::Writing { segment: k as usize },
                Command::WriteFlash { segment: k as usize, address, progress },
            )
        } else {
            (Stage::Over, Command::Fail(Failure::OutOfRange))
        }
    }
}

/// The stage and the command that follow a report.
///
/// `Start` begins a run from the top, whatever went before. A failure
/// ends the run with that failure. A success leads on: from the entry to
/// the erase, if one is asked for, else to the first write; from the
/// erase to the first write; from a write to the next; from the restart
/// to the end. A success reported while nothing was commanded is an I/O
/// failure.
pub open spec fn plan(
    erase: bool,
    fallback: u32,
    progress: Progress,
    image: Seq<Segment>,
    stage: Stage,
    report: Report,
) -> (Stage, Command) {
    match report {
        Report::Start => (Stage::Entering, Command::ResetBootloader),
        Report::Failed(failure) => (Stage::Over, Command::Fail(failure)),
        Report::Succeeded => match stage {
            Stage::Entering => if erase {
                (Stage::Erasing, Command::EraseAll)
            } else {
                write_from(fallback, progress, image, 0)
            },
            Stage::Erasing => write_from(fallback, progress, image, 0),
            Stage::Writing { segment } => write_from(fallback, progress, image, segment + 1),
            Stage::Leaving => (Stage::Over, Command::Finish),
            _ => (Stage::Over, Command::Fail(Failure::IoError)),
        },
    }
}

/// The erase, where there is one, is commanded right after the bootloader
/// entry has succeeded, and nowhere else; no write is commanded before.
pub proof fn law_erase_follows_entry(
    erase: bool,
    fallback: u32,
    progress: Progress,
    image: Seq<Segment>,
    stage: Stage,
    report: Report,
)
    ensures
        plan(erase, fallback, progress, image, stage, report).1 == Command::EraseAll <==> (erase
            && stage == Stage::Entering && report == Report::Succeeded),
        plan(erase, fallback, progress, image, stage, report).1 is WriteFlash ==> report
            == Report::Succeeded && (stage is Writing || stage == Stage::Erasing || (stage
            == Stage::Entering && !erase)),
{
}

/// Every write that is commanded names a segment of the image and fits
/// below the end of the address space; and the segments are written in
/// order, each one once.
pub proof fn law_writes_in_order(
    erase: bool,
    fallback: u32,
    progress: Progress,
    image: Seq<Segment>,
    stage: Stage,
    report: Report,
)
    ensures
        plan(erase, fallback, progress, image, stage, report).1 matches Command::WriteFlash {
            segment,
            address,
            progress: shown,
        } ==> {
            &&& segment < image.len()
            &&& address == resolve(fallback, image[segment as int].address)
            &&& address + image[segment as int].data.len() <= 0x1_0000_0000
            &&& shown == progress
            &&& plan(erase, fallback, progress, image, stage, report).0 == (Stage::Writing {
                segment,
            })
            &&& match stage {
                Stage::Writing { segment: last } => segment == last + 1,
                _ => segment == 0,
            }
        },
{
}

/// The value of a digit in a radix of at most sixteen; nothing for a
/// character that is no digit of that radix.
pub open spec fn digit_in(byte: u8, radix: nat) -> Option<nat> {
    let value: int = if 0x30 <= byte <= 0x39 {
        byte - 0x30
    } else if 0x41 <= byte <= 0x46 {
        byte - 0x41 + 10
    } else if 0x61 <= byte <= 0x66 {
        byte - 0x61 + 10
    } else {
        16
    };
    if value < radix {
        Some(value as nat)
    } else {
        None
    }
}

/// The number that a run of digits spells, most significant digit first;
/// nothing if one of them is no digit.
pub open spec fn digits_value(digits: Seq<u8>, radix: nat) -> Option<nat>
    decreases digits.len(),
{
    if digits.len() == 0 {
        Some(0)
    } else {
        match (digits_value(digits.drop_last(), radix), digit_in(digits.last(), radix)) {
            (Some(high), Some(low)) => Some(radix * high + low),
            _ => None,
        }
    }
}

/// The 32-bit number that a text spells: an optional plus sign and at
/// least one digit, and no more than fits.
pub open spec fn number_spec(text: Seq<u8>, radix: nat) -> Option<u32> {
    let digits = if text.len() > 0 && text[0] == 0x2B {
        text.skip(1)
    } else {
        text
    };
    if digits.len() == 0 {
        None
    } else {
        match digits_value(digits, radix) {
            Some(value) if value <= u32::MAX => Some(value as u32),
            _ => None,
        }
    }
}

/// The address that a text spells: hexadecimal behind `0x` or `0X`,
/// decimal otherwise.
pub open spec fn address_spec(text: Seq<u8>) -> Option<u32> {
    if text.len() >= 2 && text[0] == 0x30 && (text[1] == 0x78 || text[1] == 0x58) {
        number_spec(text.skip(2), 16)
    } else {
        number_spec(text, 10)
    }
}

proof fn lemma_digits_none(digits: Seq<u8>, radix: nat, k: int)
    requires
        0 <= k < digits.len(),
        digit_in(digits[k], radix) is None,
    ensures
        digits_value(digits, radix) is None,
    decreases digits.len(),
{
    if k < digits.len() - 1 {
        lemma_digits_none(digits.drop_last(), radix, k);
    }
}

proof fn lemma_digits_grow(digits: Seq<u8>, radix: nat, upto: int)
    requires
        0 <= upto <= digits.len(),
        radix >= 1,
    ensures
        match digits_value(digits, radix) {
            Some(all) => digits_value(digits.take(upto), radix) matches Some(part) && part <= all,
            None => true,
        },
    decreases digits.len(),
{
    if upto == digits.len() {
        assert(digits.take(upto) =~= digits);
    } else if digits_value(digits, radix) is Some {
        lemma_digits_grow(digits.drop_last(), radix, upto);
        assert(digits.drop_last().take(upto) =~= digits.take(upto));
        let high = digits_value(digits.drop_last(), radix)->Some_0;
        assert(high <= radix * high) by (nonlinear_arith)
            requires
                radix >= 1,
        ;
    }
}

fn digit(byte: u8, radix: u32) -> (value: Option<u32>)
    requires
        radix <= 16,
    ensures
        match value {
            Some(v) => digit_in(byte, radix as nat) == Some(v as nat) && v < radix,
            None => digit_in(byte, radix as nat) is None,
        },
{
    let value: u32 = if 0x30 <= byte && byte <= 0x39 {
        (byte - 0x30) as u32
    } else if 0x41 <= byte && byte <= 0x46 {
        (byte - 0x41 + 10) as u32
    } else if 0x61 <= byte && byte <= 0x66 {
        (byte - 0x61 + 10) as u32
    } else {
        16
    };
    if value < radix {
        Some(value)
    } else {
        None
    }
}

fn parse_number(text: &[u8], radix: u32) -> (number: Option<u32>)
    requires
        1 <= radix <= 16,
    ensures
        number == number_spec(text@, radix as nat),
{
    let len: usize = text.len();
    let first: usize = if len > 0 && text[0] == 0x2B {
        1
    } else {
        0
    };
    if first == len {
        return None;
    }
    let ghost digits = text@.skip(first as int);
    let mut acc: u64 = 0;
    let mut i: usize = first;
    proof {
        assert(digits.take(0) =~= Seq::<u8>::empty());
        assert(text@.skip(0) =~= text@);
        assert(digits.len() == len - first);
    }
    while i < len
        invariant
            first <= i <= len,
            len == text@.len(),
            1 <= radix <= 16,
            digits == text@.skip(first as int),
            digits.len() == len - first > 0,
            number_spec(text@, radix as nat) == (match digits_value(digits, radix as nat) {
                Some(value) if value <= u32::MAX => Some(value as u32),
                _ => None,
            }),
            digits_value(digits.take(i - first), radix as nat) == Some(acc as nat),
            acc <= u32::MAX,
        decreases len - i,
    {
        let ghost upto = digits.take(i - first + 1);
        proof {
            assert(upto.drop_last() =~= digits.take(i - first));
            assert(upto.last() == text@[i as int]);
        }
        match digit(text[i], radix) {
            None => {
                proof {
                    assert(digits[i - first] == text@[i as int]);
                    lemma_digits_none(digits, radix as nat, i - first);
                }
                return None;
            },
            Some(d) => {
                assert(radix as u64 * acc <= 16 * 0xFFFF_FFFF) by (nonlinear_arith)
                    requires
                        radix <= 16,
                        acc <= 0xFFFF_FFFF,
                ;
                let next: u64 = radix as u64 * acc + d as u64;
                assert(digits_value(upto, radix as nat) == Some(next as nat));
                if next > 0xFFFF_FFFF {
                    proof {
                        lemma_digits_grow(digits, radix as nat, i - first + 1);
                    }
                    return None;
                }
                acc = next;
                i = i + 1;
            },
        }
    }
    proof {
        assert(digits.take(len - first) =~= digits);
    }
    Some(acc as u32)
}

/// Reads an address as the command line gives it: hexadecimal behind
/// `0x` or `0X`, decimal otherwise.
pub fn parse_address(text: &str) -> (address: Option<u32>)
    ensures
        address == address_spec(text.spec_bytes()),
{
    let bytes: &[u8] = text.as_bytes();
    if bytes.len() >= 2 && bytes[0] == 0x30 && (bytes[1] == 0x78 || bytes[1] == 0x58) {
        let rest: &[u8] = vstd::slice::slice_subrange(bytes, 2, bytes.len());
        assert(rest@ =~= bytes@.skip(2));
        parse_number(rest, 16)
    } else {
        parse_number(bytes, 10)
    }
}

/// The `write_flash` command: what to write where, and how far it has come.
#[derive(Debug)]
pub struct WriteFlash {
    address: u32,
    file_path: String,
    erase: bool,
    progress: Progress,
    air_isp: AirISP,
    stage: Stage,
}

impl WriteFlash {
    /// Address for an image that has none of its own.
    pub closed spec fn address(&self) -> u32 {
        self.address
    }

    /// Path of the image file.
    pub closed spec fn file_path(&self) -> Seq<char> {
        self.file_path@
    }

    /// Whether the flash is erased before the write.
    pub closed spec fn erase(&self) -> bool {
        self.erase
    }

    /// How the write reports its progress.
    pub closed spec fn progress(&self) -> Progress {
        self.progress
    }

    /// The settings of the run.
    pub closed spec fn air_isp(&self) -> AirISP {
        self.air_isp
    }

    /// How far the run has come.
    pub closed spec fn stage(&self) -> Stage {
        self.stage
    }

    /// A run that has not started. Progress is shown in percent unless
    /// `no_progress` is set.
    pub fn new(address: u32, file_path: String, erase: bool, no_progress: bool, air_isp: AirISP) -> (run:
        WriteFlash)
        ensures
            run.address() == address,
            run.file_path() == file_path@,
            run.erase() == erase,
            run.progress() == if no_progress {
                Progress::Off
            } else {
                Progress::Percent
            },
            run.air_isp() == air_isp,
            run.stage() == Stage::Ready,
    {
        WriteFlash {
            address,
            file_path,
            erase,
            progress: if no_progress {
                Progress::Off
            } else {
                Progress::Percent
            },
            air_isp,
            stage: Stage::Ready,
        }
    }

    /// How far the run has come.
    pub fn get_stage(&self) -> (stage: Stage)
        ensures
            stage == self.stage(),
    {
        self.stage
    }

    /// Path of the image file.
    pub fn get_file_path(&self) -> (path: String)
        ensures
            path@ == self.file_path(),
    {
        self.file_path.clone()
    }

    /// The settings of the run.
    pub fn get_air_isp(&self) -> (settings: &AirISP)
        ensures
            *settings == self.air_isp(),
    {
        &self.air_isp
    }

    /// Takes the report on the last command and says which comes next;
    /// see [`plan`].
    pub fn run(&mut self, image: &Vec<Bin>, report: Report) -> (command: Command)
        ensures
            (final(self).stage(), command) == plan(
                old(self).erase(),
                old(self).address(),
                old(self).progress(),
                segments(image@),
                old(self).stage(),
                report,
            ),
            final(self).address() == old(self).address(),
            final(self).file_path() == old(self).file_path(),
            final(self).erase() == old(self).erase(),
            final(self).progress() == old(self).progress(),
            final(self).air_isp() == old(self).air_isp(),
    {
        let next: (Stage, Command) = match report {
            Report::Start => (Stage::Entering, Command::ResetBootloader),
            Report::Failed(failure) => (Stage::Over, Command::Fail(failure)),
            Report::Succeeded => match self.stage {
                Stage::Entering => if self.erase {
                    (Stage::Erasing, Command::EraseAll)
                } else {
                    self.write_at(image, 0)
                },
                Stage::Erasing => self.write_at(image, 0),
                Stage::Writing { segment } => if segment < image.len() {
                    self.write_at(image, segment + 1)
                } else {
                    (Stage::Leaving, Command::ResetApp)
                },
                Stage::Leaving => (Stage::Over, Command::Finish),
                _ => (Stage::Over, Command::Fail(Failure::IoError)),
            },
        };
        self.stage = next.0;
        next.1
    }

    fn write_at(&self, image: &Vec<Bin>, k: usize) -> (next: (Stage, Command))
        ensures
            next == write_from(self.address(), self.progress(), segments(image@), k as int),
    {
        if k >= image.len() {
            (Stage::Leaving, Command::ResetApp)
        } else {
            let base: u32 = image[k].address;
            let address: u32 = if base == UNSPECIFIED_BASE {
                self.address
            } else {
                base
            };
            let room: u64 = 0x1_0000_0000u64 - address as u64;
            if image[k].data.len() as u64 <= room {
                (
                    Stage::Writing { segment: k },
                    Command::WriteFlash { segment: k, address, progress: self.progress },
                )
            } else {
                (Stage::Over, Command::Fail(Failure::OutOfRange))
            }
        }
    }
}

} // verus!

//! The `chip_id` command.

use crate::config::AirISP;
use crate::link::Failure;
use crate::write_flash::{Command, Report};
use vstd::prelude::*;

verus! {

/// The `chip_id` command: ask the target for its id, and nothing else.
#[derive(Debug)]
pub struct Get {
    air_isp: AirISP,
    asked: bool,
}

/// Whether the id has been asked for, and the command, after a report.
/// A success reported before anything was asked is an I/O failure.
pub open spec fn chip_id_plan(asked: bool, report: Report) -> (bool, Command) {
    match report {
        Report::Start => (true, Command::GetChipId),
        Report::Failed(failure) => (false, Command::Fail(failure)),
        Report::Succeeded => if asked {
            (false, Command::Finish)
        } else {
            (false, Command::Fail(Failure::IoError))
        },
    }
}

impl Get {
    /// The settings of the run.
    pub closed spec fn air_isp(&self) -> AirISP {
        self.air_isp
    }

    /// Whether the id has been asked for and the answer is out.
    pub closed spec fn asked(&self) -> bool {
        self.asked
    }

    pub fn new(air_isp: AirISP) -> (get: Get)
        ensures
            get.air_isp() == air_isp,
            !get.asked(),
    {
        Get { air_isp, asked: false }
    }

    /// The settings of the run.
    pub fn get_air_isp(&self) -> (settings: &AirISP)
        ensures
            *settings == self.air_isp(),
    {
        &self.air_isp
    }

    /// Takes the report on the last command and says which comes next;
    /// see [`chip_id_plan`].
    pub fn chip_id(&mut self, report: Report) -> (command: Command)
        ensures
            (final(self).asked(), command) == chip_id_plan(old(self).asked(), report),
            final(self).air_isp() == old(self).air_isp(),
    {
        let next: (bool, Command) = match report {
            Report::Start => (true, Command::GetChipId),
            Report::Failed(failure) => (false, Command::Fail(failure)),
            Report::Succeeded => if self.asked {
                (false, Command::Finish)
            } else {
                (false, Command::Fail(Failure::IoError))
            },
        };
        self.asked = next.0;
        next.1
    }
}

} // verus!

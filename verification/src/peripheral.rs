//! The programmer interface that both backends offer.

use crate::config::Progress;
use crate::general_uart::{begin_entry, begin_erase, begin_leave, begin_round, GeneralUart};
use crate::link::{Event, Step};
use crate::swd::{Goal, Swd};
use vstd::prelude::*;

verus! {

/// What a programmer can do. Each method starts an operation and returns
/// its first step; [`Pp::advance`] takes the driver's reports until the
/// operation completes or aborts. Starting an operation while another is
/// under way drops the other.
pub trait Pp {
    /// Whether an operation is under way.
    spec fn busy(&self) -> bool;

    /// Writes `data` to flash, starting at `address`.
    fn write_flash(&mut self, address: u32, data: &[u8], progress: Progress) -> (step: Step)
        requires
            address + data@.len() <= 0x1_0000_0000,
        ensures
            final(self).busy() == (step is Perform),
    ;

    /// Puts the target into its bootloader and makes sure it answers.
    fn reset_bootloader(&mut self) -> (step: Step)
        ensures
            final(self).busy() == (step is Perform),
    ;

    /// Restarts the target into its application.
    fn reset_app(&mut self) -> (step: Step)
        ensures
            final(self).busy() == (step is Perform),
    ;

    /// Asks the target which chip it is.
    fn get_chip_id(&mut self) -> (step: Step)
        ensures
            final(self).busy() == (step is Perform),
    ;

    /// Erases the whole flash.
    fn erase_all(&mut self) -> (step: Step)
        ensures
            final(self).busy() == (step is Perform),
    ;

    /// Takes the driver's report on the last action and says what comes next.
    fn advance(&mut self, event: Event) -> (step: Step)
        ensures
            final(self).busy() == (step is Perform),
    ;
}

/// The programmer of a run: one of the two backends, chosen once.
#[derive(Debug)]
pub enum Peripheral {
    Swd(Swd),
    GeneralUart(GeneralUart),
}

impl Pp for Peripheral {
    open spec fn busy(&self) -> bool {
        match *self {
            Peripheral::Swd(engine) => engine.busy(),
            Peripheral::GeneralUart(engine) => engine.busy(),
        }
    }

    /// Hands the call to the backend.
    fn write_flash(&mut self, address: u32, data: &[u8], progress: Progress) -> (step: Step)
        ensures
            match (*old(self), *final(self)) {
                (Peripheral::Swd(before), Peripheral::Swd(after)) => after.loaded(
                    &before,
                    address,
                    data@,
                    step@,
                ),
                (Peripheral::GeneralUart(before), Peripheral::GeneralUart(after)) => after.loaded(
                    &before,
                    address,
                    data@,
                    progress,
                    step@,
                ),
                _ => false,
            },
    {
        match self {
            Peripheral::Swd(engine) => engine.write_flash(address, data, progress),
            Peripheral::GeneralUart(engine) => engine.write_flash(address, data, progress),
        }
    }

    /// Hands the call to the backend.
    fn reset_bootloader(&mut self) -> (step: Step)
        ensures
            match (*old(self), *final(self)) {
                (Peripheral::Swd(before), Peripheral::Swd(after)) => after.moved(
                    &before,
                    before.begin_identify(),
                    step@,
                ),
                (Peripheral::GeneralUart(before), Peripheral::GeneralUart(after)) => after.moved(
                    &before,
                    begin_entry(before.entry(), before.attempts()),
                    step@,
                ),
                _ => false,
            },
    {
        match self {
            Peripheral::Swd(engine) => engine.reset_bootloader(),
            Peripheral::GeneralUart(engine) => engine.reset_bootloader(),
        }
    }

    /// Hands the call to the backend.
    fn reset_app(&mut self) -> (step: Step)
        ensures
            match (*old(self), *final(self)) {
                (Peripheral::Swd(before), Peripheral::Swd(after)) => after.moved(
                    &before,
                    before.begin(Goal::Reset),
                    step@,
                ),
                (Peripheral::GeneralUart(before), Peripheral::GeneralUart(after)) => after.moved(
                    &before,
                    begin_leave(before.entry()),
                    step@,
                ),
                _ => false,
            },
    {
        match self {
            Peripheral::Swd(engine) => engine.reset_app(),
            Peripheral::GeneralUart(engine) => engine.reset_app(),
        }
    }

    /// Hands the call to the backend.
    fn get_chip_id(&mut self) -> (step: Step)
        ensures
            match (*old(self), *final(self)) {
                (Peripheral::Swd(before), Peripheral::Swd(after)) => after.moved(
                    &before,
                    before.begin_identify(),
                    step@,
                ),
                (Peripheral::GeneralUart(before), Peripheral::GeneralUart(after)) => after.moved(
                    &before,
                    begin_round(None),
                    step@,
                ),
                _ => false,
            },
    {
        match self {
            Peripheral::Swd(engine) => engine.get_chip_id(),
            Peripheral::GeneralUart(engine) => engine.get_chip_id(),
        }
    }

    /// Hands the call to the backend.
    fn erase_all(&mut self) -> (step: Step)
        ensures
            match (*old(self), *final(self)) {
                (Peripheral::Swd(before), Peripheral::Swd(after)) => after.moved(
                    &before,
                    before.begin(Goal::Erase),
                    step@,
                ),
                (Peripheral::GeneralUart(before), Peripheral::GeneralUart(after)) => after.moved(
                    &before,
                    begin_erase(),
                    step@,
                ),
                _ => false,
            },
    {
        match self {
            Peripheral::Swd(engine) => engine.erase_all(),
            Peripheral::GeneralUart(engine) => engine.erase_all(),
        }
    }

    /// Hands the report to the backend.
    fn advance(&mut self, event: Event) -> (step: Step)
        ensures
            match (*old(self), *final(self)) {
                (Peripheral::Swd(before), Peripheral::Swd(after)) => after.moved(
                    &before,
                    before.react(event@),
                    step@,
                ),
                (Peripheral::GeneralUart(before), Peripheral::GeneralUart(after)) => after.moved(
                    &before,
                    before.react(event@),
                    step@,
                ),
                _ => false,
            },
    {
        match self {
            Peripheral::Swd(engine) => engine.advance(event),
            Peripheral::GeneralUart(engine) => engine.advance(event),
        }
    }
}

} // verus!

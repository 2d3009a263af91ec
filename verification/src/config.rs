//! The settings of one run, as the command surface hands them over.

use crate::chips::ChipInfo;
use crate::general_uart::{entry_mode_named, restart_known, GeneralUart, Job};
use crate::hex_to_bin::{
    decode, decode_bytes, segments, total_len, Bin, Segment, UNSPECIFIED_BASE,
};
use crate::link::Failure;
use crate::peripheral::Peripheral;
use crate::swd::{speed_of, Swd, SwdJob};
use crate::text::{lowercase, same_text, to_lowercase};
use vstd::prelude::*;
use vstd::slice::slice_to_vec;

verus! {

/// How a write reports its progress.
#[derive(Clone, Copy, Debug, PartialEq, Eq, Structural)]
pub enum Progress {
    /// Say nothing.
    Off,
    /// Draw a bar.
    Bar,
    /// Print the percentage done after every chunk.
    Percent,
}

/// Settings shared by every command.
#[derive(Clone, Debug)]
pub struct AirISP {
    port: String,
    baud: u32,
    chip: String,
    trace: bool,
    connect_attempts: u32,
    before: String,
    after: String,
    language: String,
    peripheral: String,
}

/// The settings as plain values.
pub struct AirISPView {
    pub port: Seq<char>,
    pub baud: u32,
    pub chip: Seq<char>,
    pub trace: bool,
    pub connect_attempts: u32,
    pub before: Seq<char>,
    pub after: Seq<char>,
    pub language: Seq<char>,
    pub peripheral: Seq<char>,
}

impl View for AirISP {
    type V = AirISPView;

    closed spec fn view(&self) -> AirISPView {
        AirISPView {
            port: self.port@,
            baud: self.baud,
            chip: self.chip@,
            trace: self.trace,
            connect_attempts: self.connect_attempts,
            before: self.before@,
            after: self.after@,
            language: self.language@,
            peripheral: self.peripheral@,
        }
    }
}

impl AirISP {
    pub fn new(
        port: String,
        baud: u32,
        chip: String,
        trace: bool,
        connect_attempts: u32,
        before: String,
        after: String,
        language: String,
        peripheral: String,
    ) -> (settings: AirISP)
        ensures
            settings@ == (AirISPView {
                port: port@,
                baud,
                chip: chip@,
                trace,
                connect_attempts,
                before: before@,
                after: after@,
                language: language@,
                peripheral: peripheral@,
            }),
    {
        AirISP { port, baud, chip, trace, connect_attempts, before, after, language, peripheral }
    }

    /// Serial port or probe to use; `auto` picks one.
    pub fn get_port(&self) -> (port: String)
        ensures
            port@ == self@.port,
    {
        self.port.clone()
    }

    /// Serial baud rate, or probe speed in kHz; zero asks for the default.
    pub fn get_baud(&self) -> (baud: u32)
        ensures
            baud == self@.baud,
    {
        self.baud
    }

    pub fn get_trace(&self) -> (trace: bool)
        ensures
            trace == self@.trace,
    {
        self.trace
    }

    /// How many times bootloader entry is tried before giving up.
    pub fn get_connect_attempts(&self) -> (attempts: u32)
        ensures
            attempts == self@.connect_attempts,
    {
        self.connect_attempts
    }

    /// Name of the circuit that puts the target into its bootloader.
    pub fn get_before(&self) -> (before: String)
        ensures
            before@ == self@.before,
    {
        self.before.clone()
    }

    /// Name of the way the target is restarted after flashing.
    pub fn get_after(&self) -> (after: String)
        ensures
            after@ == self@.after,
    {
        self.after.clone()
    }

    pub fn get_language(&self) -> (language: String)
        ensures
            language@ == self@.language,
    {
        self.language.clone()
    }

    /// Chip selector: `auto` or a name from the chip table.
    pub fn get_chip(&self) -> (chip: String)
        ensures
            chip@ == self@.chip,
    {
        self.chip.clone()
    }

    /// Name of the programmer backend.
    pub fn get_peripheral(&self) -> (peripheral: String)
        ensures
            peripheral@ == self@.peripheral,
    {
        self.peripheral.clone()
    }

    /// Makes the programmer that the settings name, `swd` or `uart` in
    /// any letter case, idle and with nothing identified. Fails with
    /// [`Failure::Unsupported`] on any other name, and where the UART
    /// engine does not know the circuit or the restart that is asked for.
    pub fn get_peripheral_handle(&self, table: Vec<ChipInfo>) -> (handle: Result<
        Peripheral,
        Failure,
    >)
        ensures
            match handle {
                Ok(Peripheral::Swd(engine)) => {
                    &&& lowercase(self@.peripheral) == "swd"@
                    &&& engine.port() == self@.port
                    &&& engine.selector() == self@.chip
                    &&& engine.speed() == speed_of(self@.baud)
                    &&& engine.table() == table@
                    &&& engine.target() is None
                    &&& engine.job() == SwdJob::Idle
                },
                Ok(Peripheral::GeneralUart(engine)) => {
                    &&& lowercase(self@.peripheral) != "swd"@
                    &&& lowercase(self@.peripheral) == "uart"@
                    &&& entry_mode_named(self@.before) == Some(engine.entry())
                    &&& restart_known(self@.after)
                    &&& engine.attempts() == self@.connect_attempts
                    &&& engine.job() == Job::Idle
                },
                Err(failure) => {
                    &&& failure == Failure::Unsupported
                    &&& lowercase(self@.peripheral) != "swd"@
                    &&& lowercase(self@.peripheral) == "uart"@ ==> entry_mode_named(self@.before)
                        is None || !restart_known(self@.after)
                },
            },
    {
        let kind: String = to_lowercase(self.peripheral.as_str());
        if same_text(kind.as_str(), "swd") {
            Ok(Peripheral::Swd(Swd::new(self, table)))
        } else if same_text(kind.as_str(), "uart") {
            match GeneralUart::new(self) {
                Ok(engine) => Ok(Peripheral::GeneralUart(engine)),
                Err(failure) => Err(failure),
            }
        } else {
            Err(Failure::Unsupported)
        }
    }

    /// Turns the contents of an image file into an image. `suffix` is the
    /// file name's extension: `hex` is decoded as Intel-HEX, anything else
    /// is taken as it is, a single segment with no address of its own.
    pub fn read_file(&self, suffix: &str, contents: &[u8]) -> (image: Result<Vec<Bin>, Failure>)
        ensures
            match image {
                Ok(bins) => read_file_spec(suffix@, contents@) == Ok::<Seq<Segment>, Failure>(
                    segments(bins@),
                ),
                Err(failure) => read_file_spec(suffix@, contents@) == Err::<
                    Seq<Segment>,
                    Failure,
                >(failure),
            },
    {
        if contents.len() == 0 {
            return Err(Failure::EmptyInput);
        }
        if same_text(suffix, "hex") {
            match decode_bytes(contents) {
                Err(_) => Err(Failure::DecodeError),
                Ok(bins) => {
                    if holds_data(&bins) {
                        Ok(bins)
                    } else {
                        Err(Failure::DecodeError)
                    }
                },
            }
        } else {
            let mut bins: Vec<Bin> = Vec::new();
            bins.push(Bin { address: UNSPECIFIED_BASE, data: slice_to_vec(contents) });
            assert(segments(bins@) =~= seq![
                Segment { address: UNSPECIFIED_BASE, data: contents@ },
            ]);
            Ok(bins)
        }
    }
}

/// The image that a file stands for. An empty file is refused; so is
/// Intel-HEX text that is not well-formed or that decodes to no byte at
/// all.
pub open spec fn read_file_spec(suffix: Seq<char>, contents: Seq<u8>) -> Result<
    Seq<Segment>,
    Failure,
> {
    if contents.len() == 0 {
        Err(Failure::EmptyInput)
    } else if suffix == "hex"@ {
        match decode(contents) {
            Err(_) => Err(Failure::DecodeError),
            Ok(image) => if total_len(image) == 0 {
                Err(Failure::DecodeError)
            } else {
                Ok(image)
            },
        }
    } else {
        Ok(seq![Segment { address: UNSPECIFIED_BASE, data: contents }])
    }
}

/// An image that was read has at least one segment and at least one byte.
pub proof fn law_image_read_holds_data(suffix: Seq<char>, contents: Seq<u8>)
    ensures
        read_file_spec(suffix, contents) matches Ok(image) ==> image.len() > 0 && total_len(image)
            > 0,
{
    if contents.len() > 0 && suffix != "hex"@ {
        let image = seq![Segment { address: UNSPECIFIED_BASE, data: contents }];
        assert(image.drop_last() =~= Seq::<Segment>::empty());
        assert(total_len(image.drop_last()) == 0);
    }
}

/// The language to speak: the one asked for, unless that is `auto`; then
/// the system's, if there are messages in it, and English if not.
pub open spec fn language_spec(
    asked: Seq<char>,
    system: Seq<char>,
    available: Seq<Seq<char>>,
) -> Seq<char> {
    if asked != "auto"@ {
        asked
    } else if available.contains(system) {
        system
    } else {
        "en"@
    }
}

/// Picks the language of the messages; see [`language_spec`].
pub fn choose_language(asked: &str, system: &str, available: &Vec<String>) -> (language: String)
    ensures
        language@ == language_spec(asked@, system@, crate::link::texts(available@)),
{
    if !same_text(asked, "auto") {
        return asked.to_owned();
    }
    let ghost known = crate::link::texts(available@);
    let mut i: usize = 0;
    while i < available.len()
        invariant
            i <= available@.len(),
            asked@ == "auto"@,
            known == crate::link::texts(available@),
            forall|k: int| 0 <= k < i ==> known[k] != system@,
        decreases available@.len() - i,
    {
        if same_text(available[i].as_str(), system) {
            assert(known[i as int] == system@);
            assert(known.contains(system@));
            return system.to_owned();
        }
        i = i + 1;
    }
    assert(!known.contains(system@));
    "en".to_owned()
}

/// Whether an image has any byte at all.
pub fn holds_data(image: &Vec<Bin>) -> (any: bool)
    ensures
        any == (total_len(segments(image@)) > 0),
{
    let mut i: usize = 0;
    while i < image.len()
        invariant
            i <= image@.len(),
            total_len(segments(image@).take(i as int)) == 0,
        decreases image@.len() - i,
    {
        proof {
            let all = segments(image@);
            assert(all.take(i + 1).drop_last() =~= all.take(i as int));
            assert(all.take(i + 1).last() == image@[i as int]@);
        }
        if image[i].data.len() > 0 {
            proof {
                crate::hex_to_bin::lemma_total_len_grows(segments(image@), i + 1);
            }
            return true;
        }
        i = i + 1;
    }
    assert(segments(image@).take(image@.len() as int) =~= segments(image@));
    false
}

} // verus!

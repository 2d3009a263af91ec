use airisp::chips::{ChipInfo, NO_ID_REGISTER};
use airisp::config::{AirISP, Progress};
use airisp::link::{Action, Event, Failure, Finding, Outcome, Step};
use airisp::peripheral::Pp;
use airisp::swd::{chip_info, Swd, SwdJob};

fn chip(name: &str, register: u32, pid: u16) -> ChipInfo {
    ChipInfo {
        name: name.to_string(),
        debug_idcode_reg: register,
        pid,
        flash_size_reg: 0,
        flash_size: 0,
        ram_size: 0,
        uid_reg: 0,
    }
}

fn chips() -> Vec<ChipInfo> {
    vec![chip("AIR32F103", 0xE004_2000, 0x0410), chip("Air001", NO_ID_REGISTER, 0x0440)]
}

fn settings(port: &str, selector: &str, baud: u32) -> AirISP {
    AirISP::new(
        port.to_string(),
        baud,
        selector.to_string(),
        false,
        10,
        "default_reset".to_string(),
        "hard_reset".to_string(),
        "auto".to_string(),
        "swd".to_string(),
    )
}

fn engine(port: &str, selector: &str, baud: u32) -> Swd {
    Swd::new(&settings(port, selector, baud), chips())
}

#[test]
fn nothing_is_identified_at_first() {
    let swd = engine("auto", "auto", 0);
    assert_eq!(swd.get_chip(), None);
    assert_eq!(swd.get_chip_pid(), None);
    assert_eq!(swd.state(), SwdJob::Idle);
}

#[test]
fn work_before_identification_is_refused() {
    let mut swd = engine("auto", "air001", 0);
    assert_eq!(swd.erase_all(), Step::Abort(Failure::IdentificationFailed));
    assert_eq!(swd.reset_app(), Step::Abort(Failure::IdentificationFailed));
    assert_eq!(
        swd.write_flash(0x0800_0000, &[1, 2, 3], Progress::Percent),
        Step::Abort(Failure::IdentificationFailed)
    );
    assert_eq!(swd.state(), SwdJob::Idle);
}

#[test]
fn chip_without_id_register_is_identified_without_a_probe() {
    let mut swd = engine("auto", "AIR001", 0);
    assert_eq!(
        swd.reset_bootloader(),
        Step::Complete(Outcome::Chip { index: 1, finding: Finding::Assumed })
    );
    assert_eq!(swd.get_chip().unwrap().name, "Air001");
    assert_eq!(swd.get_chip_pid(), Some(0x0440));
}

#[test]
fn scan_reads_through_a_generic_core() {
    let mut swd = engine("auto", "auto", 0);
    assert_eq!(
        swd.get_chip_id(),
        Step::Perform(Action::Attach { probe: None, target: "cortex-m0".to_string(), speed_khz: 200 })
    );
    assert_eq!(swd.advance(Event::Done), Step::Perform(Action::ReadWord(0xE004_2000)));
    assert_eq!(
        swd.advance(Event::Word(0x0410)),
        Step::Complete(Outcome::Chip { index: 0, finding: Finding::Confirmed })
    );
    assert_eq!(swd.get_chip().unwrap().name, "AIR32F103");
    assert_eq!(swd.get_chip_pid(), Some(0x0410));
}

#[test]
fn scan_goes_on_when_the_register_differs_or_cannot_be_read() {
    let mut swd = engine("auto", "auto", 0);
    let _ = swd.reset_bootloader();
    let _ = swd.advance(Event::Done);
    assert_eq!(
        swd.advance(Event::Word(0x0411)),
        Step::Complete(Outcome::Chip { index: 1, finding: Finding::Assumed })
    );
    let mut swd = engine("auto", "auto", 0);
    let _ = swd.reset_bootloader();
    assert_eq!(
        swd.advance(Event::Failed),
        Step::Complete(Outcome::Chip { index: 1, finding: Finding::Assumed })
    );
}

#[test]
fn scan_that_matches_nothing_fails() {
    let mut swd = Swd::new(&settings("auto", "auto", 0), vec![chip("A", 0x1000, 1)]);
    let _ = swd.reset_bootloader();
    let _ = swd.advance(Event::Done);
    assert_eq!(swd.advance(Event::Word(2)), Step::Abort(Failure::IdentificationFailed));
    assert_eq!(swd.get_chip(), None);
    assert_eq!(swd.erase_all(), Step::Abort(Failure::IdentificationFailed));
}

#[test]
fn named_chip_is_read_through_the_named_probe() {
    let mut swd = engine("dap", "air32f103", 1000);
    assert_eq!(swd.reset_bootloader(), Step::Perform(Action::ListProbes));
    assert_eq!(
        swd.advance(Event::Probes(vec!["J-Link 123".to_string(), "CMSIS-DAP v2".to_string()])),
        Step::Perform(Action::Attach {
            probe: Some(1),
            target: "air32f103".to_string(),
            speed_khz: 1000
        })
    );
    assert_eq!(swd.advance(Event::Done), Step::Perform(Action::ReadWord(0xE004_2000)));
    assert_eq!(
        swd.advance(Event::Word(0x0999)),
        Step::Complete(Outcome::Chip { index: 0, finding: Finding::Mismatch(0x0999) })
    );
    assert_eq!(swd.get_chip_pid(), Some(0x0410));
}

#[test]
fn named_chip_survives_a_missing_probe() {
    let mut swd = engine("dap", "AIR32F103", 0);
    assert_eq!(swd.reset_bootloader(), Step::Perform(Action::ListProbes));
    assert_eq!(
        swd.advance(Event::Probes(vec!["J-Link".to_string()])),
        Step::Complete(Outcome::Chip { index: 0, finding: Finding::Unreadable })
    );
    let mut swd = engine("auto", "AIR32F103", 0);
    assert_eq!(
        swd.reset_bootloader(),
        Step::Perform(Action::Attach { probe: None, target: "air32f103".to_string(), speed_khz: 200 })
    );
    assert_eq!(
        swd.advance(Event::Failed),
        Step::Complete(Outcome::Chip { index: 0, finding: Finding::Unreadable })
    );
    let mut swd = engine("auto", "AIR32F103", 0);
    let _ = swd.reset_bootloader();
    let _ = swd.advance(Event::Done);
    assert_eq!(
        swd.advance(Event::Failed),
        Step::Complete(Outcome::Chip { index: 0, finding: Finding::Unreadable })
    );
}

#[test]
fn unknown_chip_name_fails() {
    let mut swd = engine("auto", "stm32", 0);
    assert_eq!(swd.reset_bootloader(), Step::Abort(Failure::IdentificationFailed));
}

fn identified(port: &str) -> Swd {
    let mut swd = engine(port, "air001", 0);
    assert_eq!(
        swd.reset_bootloader(),
        Step::Complete(Outcome::Chip { index: 1, finding: Finding::Assumed })
    );
    swd
}

#[test]
fn program_attaches_by_the_chip_name_in_lower_case() {
    let mut swd = identified("auto");
    assert_eq!(
        swd.write_flash(0x0800_0000, &[1, 2, 3], Progress::Percent),
        Step::Perform(Action::Attach { probe: None, target: "air001".to_string(), speed_khz: 200 })
    );
    assert_eq!(
        swd.advance(Event::Done),
        Step::Perform(Action::Program { address: 0x0800_0000, data: vec![1, 2, 3] })
    );
    assert_eq!(swd.advance(Event::Done), Step::Complete(Outcome::Done));
    assert_eq!(swd.state(), SwdJob::Idle);
}

#[test]
fn erase_and_restart_through_a_listed_probe() {
    let probes = vec!["ST-Link".to_string(), "My DAPLink".to_string(), "daplink 2".to_string()];
    let mut swd = identified("daplink");
    assert_eq!(swd.erase_all(), Step::Perform(Action::ListProbes));
    assert_eq!(
        swd.advance(Event::Probes(probes.clone())),
        Step::Perform(Action::Attach { probe: Some(1), target: "air001".to_string(), speed_khz: 200 })
    );
    assert_eq!(swd.advance(Event::Done), Step::Perform(Action::EraseChip));
    assert_eq!(swd.advance(Event::Done), Step::Complete(Outcome::Done));
    assert_eq!(swd.reset_app(), Step::Perform(Action::ListProbes));
    let _ = swd.advance(Event::Probes(probes));
    assert_eq!(swd.advance(Event::Done), Step::Perform(Action::ResetCore));
    assert_eq!(swd.advance(Event::Done), Step::Complete(Outcome::Done));
}

#[test]
fn port_is_matched_as_it_is_written() {
    // The identifier is lowered, the port is not.
    let mut swd = identified("DAP");
    assert_eq!(swd.erase_all(), Step::Perform(Action::ListProbes));
    assert_eq!(
        swd.advance(Event::Probes(vec!["CMSIS-DAP".to_string()])),
        Step::Abort(Failure::IoError)
    );
}

#[test]
fn driver_failures_are_io_errors() {
    let mut swd = identified("auto");
    let _ = swd.erase_all();
    assert_eq!(swd.advance(Event::Failed), Step::Abort(Failure::IoError));
    let _ = swd.erase_all();
    let _ = swd.advance(Event::Done);
    assert_eq!(swd.advance(Event::Failed), Step::Abort(Failure::IoError));
    let mut swd = identified("dap");
    let _ = swd.erase_all();
    assert_eq!(swd.advance(Event::Probes(vec![])), Step::Abort(Failure::IoError));
    let _ = swd.erase_all();
    assert_eq!(swd.advance(Event::Done), Step::Abort(Failure::IoError));
    assert_eq!(swd.advance(Event::Done), Step::Abort(Failure::IoError));
}

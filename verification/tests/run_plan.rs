use airisp::chips::{ChipInfo, NO_ID_REGISTER};
use airisp::config::{choose_language, holds_data, AirISP, Progress};
use airisp::general_uart::Job;
use airisp::get::Get;
use airisp::hex_to_bin::{Bin, UNSPECIFIED_BASE};
use airisp::link::{Action, Failure, Step};
use airisp::log::{Level, Log};
use airisp::peripheral::{Peripheral, Pp};
use airisp::swd::SwdJob;
use airisp::write_flash::{parse_address, Command, Report, Stage, WriteFlash};

fn settings(peripheral: &str) -> AirISP {
    AirISP::new(
        "COM3".to_string(),
        921600,
        "air001".to_string(),
        true,
        7,
        "direct_connect".to_string(),
        "hard_reset".to_string(),
        "zh-CN".to_string(),
        peripheral.to_string(),
    )
}

fn table() -> Vec<ChipInfo> {
    vec![ChipInfo {
        name: "Air001".to_string(),
        debug_idcode_reg: NO_ID_REGISTER,
        pid: 0x0440,
        flash_size_reg: 0,
        flash_size: 0,
        ram_size: 0,
        uid_reg: 0,
    }]
}

#[test]
fn settings_are_handed_back() {
    let s = settings("Uart");
    assert_eq!(s.get_port(), "COM3");
    assert_eq!(s.get_baud(), 921600);
    assert_eq!(s.get_chip(), "air001");
    assert!(s.get_trace());
    assert_eq!(s.get_connect_attempts(), 7);
    assert_eq!(s.get_before(), "direct_connect");
    assert_eq!(s.get_after(), "hard_reset");
    assert_eq!(s.get_language(), "zh-CN");
    assert_eq!(s.get_peripheral(), "Uart");
}

#[test]
fn backend_is_chosen_by_name_in_any_case() {
    for name in ["uart", "Uart", "UART"] {
        match settings(name).get_peripheral_handle(table()).unwrap() {
            Peripheral::GeneralUart(engine) => assert_eq!(engine.state(), Job::Idle),
            other => panic!("{:?}", other),
        }
    }
    for name in ["swd", "Swd", "SWD"] {
        match settings(name).get_peripheral_handle(table()).unwrap() {
            Peripheral::Swd(engine) => assert_eq!(engine.state(), SwdJob::Idle),
            other => panic!("{:?}", other),
        }
    }
}

#[test]
fn unknown_backend_is_unsupported() {
    assert_eq!(settings("jtag").get_peripheral_handle(table()).unwrap_err(), Failure::Unsupported);
    assert_eq!(settings("").get_peripheral_handle(table()).unwrap_err(), Failure::Unsupported);
}

#[test]
fn handle_forwards_to_its_backend() {
    let mut uart = settings("uart").get_peripheral_handle(table()).unwrap();
    assert_eq!(uart.reset_bootloader(), Step::Perform(Action::SetDtr(true)));
    assert_eq!(uart.erase_all(), Step::Perform(Action::Send(vec![0x44, 0xBB])));
    assert_eq!(uart.get_chip_id(), Step::Perform(Action::Send(vec![0x02, 0xFD])));
    assert_eq!(uart.reset_app(), Step::Perform(Action::SetRts(true)));
    assert_eq!(
        uart.write_flash(0x0800_0000, &[9], Progress::Off),
        Step::Perform(Action::Send(vec![0x31, 0xCE]))
    );
    assert_eq!(uart.advance(airisp::link::Event::Done), Step::Perform(Action::Receive(1)));
    let mut swd = settings("swd").get_peripheral_handle(table()).unwrap();
    assert_eq!(swd.erase_all(), Step::Abort(Failure::IdentificationFailed));
    assert!(matches!(swd.reset_bootloader(), Step::Complete(_)));
    assert_eq!(swd.erase_all(), Step::Perform(Action::ListProbes));
    assert_eq!(swd.advance(airisp::link::Event::Failed), Step::Abort(Failure::IoError));
}

#[test]
fn empty_file_is_refused() {
    let s = settings("uart");
    assert_eq!(s.read_file("hex", b"").unwrap_err(), Failure::EmptyInput);
    assert_eq!(s.read_file("bin", b"").unwrap_err(), Failure::EmptyInput);
}

#[test]
fn raw_file_is_one_segment_without_address() {
    let s = settings("uart");
    let image = s.read_file("bin", &[1, 2, 3]).unwrap();
    assert_eq!(image, vec![Bin { address: 0xFFFF_FFFF, data: vec![1, 2, 3] }]);
    assert_eq!(UNSPECIFIED_BASE, 0xFFFF_FFFF);
    let image = s.read_file("", b":00000001FF").unwrap();
    assert_eq!(image[0].data, b":00000001FF".to_vec());
    let image = s.read_file("HEX", b":00000001FF").unwrap();
    assert_eq!(image[0].address, 0xFFFF_FFFF);
}

#[test]
fn hex_file_is_decoded() {
    let s = settings("uart");
    let image = s.read_file("hex", b":020000040800F2\n:0200000011225B\n:00000001FF\n").unwrap();
    assert_eq!(image, vec![Bin { address: 0x0800_0000, data: vec![0x11, 0x22] }]);
}

#[test]
fn hex_file_without_data_or_with_errors_is_refused() {
    let s = settings("uart");
    assert_eq!(s.read_file("hex", b":00000001FF\n").unwrap_err(), Failure::DecodeError);
    assert_eq!(s.read_file("hex", b":0200000011225B\n").unwrap_err(), Failure::DecodeError);
    assert_eq!(s.read_file("hex", b":020000040800F2\n").unwrap_err(), Failure::DecodeError);
    assert_eq!(s.read_file("hex", b"hello\n").unwrap_err(), Failure::DecodeError);
    assert_eq!(s.read_file("hex", b":02000004").unwrap_err(), Failure::DecodeError);
}

#[test]
fn image_holds_data_when_any_segment_does() {
    assert!(!holds_data(&vec![]));
    assert!(!holds_data(&vec![Bin { address: 0, data: vec![] }]));
    assert!(holds_data(&vec![Bin { address: 0, data: vec![] }, Bin { address: 4, data: vec![1] }]));
    assert!(holds_data(&vec![Bin { address: 0, data: vec![1] }, Bin { address: 4, data: vec![] }]));
}

fn image() -> Vec<Bin> {
    vec![
        Bin { address: 0x0800_0000, data: vec![1; 300] },
        Bin { address: UNSPECIFIED_BASE, data: vec![2; 10] },
        Bin { address: 0x0801_0000, data: vec![] },
    ]
}

#[test]
fn run_enters_erases_writes_and_leaves() {
    let mut run = WriteFlash::new(0x0800_8000, "fw.hex".to_string(), true, false, settings("uart"));
    assert_eq!(run.get_stage(), Stage::Ready);
    assert_eq!(run.get_file_path(), "fw.hex");
    assert_eq!(run.get_air_isp().get_port(), "COM3");
    let image = image();
    assert_eq!(run.run(&image, Report::Start), Command::ResetBootloader);
    assert_eq!(run.run(&image, Report::Succeeded), Command::EraseAll);
    assert_eq!(
        run.run(&image, Report::Succeeded),
        Command::WriteFlash { segment: 0, address: 0x0800_0000, progress: Progress::Percent }
    );
    assert_eq!(run.get_stage(), Stage::Writing { segment: 0 });
    assert_eq!(
        run.run(&image, Report::Succeeded),
        Command::WriteFlash { segment: 1, address: 0x0800_8000, progress: Progress::Percent }
    );
    assert_eq!(
        run.run(&image, Report::Succeeded),
        Command::WriteFlash { segment: 2, address: 0x0801_0000, progress: Progress::Percent }
    );
    assert_eq!(run.run(&image, Report::Succeeded), Command::ResetApp);
    assert_eq!(run.get_stage(), Stage::Leaving);
    assert_eq!(run.run(&image, Report::Succeeded), Command::Finish);
    assert_eq!(run.get_stage(), Stage::Over);
}

#[test]
fn run_without_erase_goes_straight_to_the_write() {
    let mut run = WriteFlash::new(0x0800_0000, "fw.bin".to_string(), false, true, settings("uart"));
    let image = vec![Bin { address: UNSPECIFIED_BASE, data: vec![1, 2] }];
    assert_eq!(run.run(&image, Report::Start), Command::ResetBootloader);
    assert_eq!(
        run.run(&image, Report::Succeeded),
        Command::WriteFlash { segment: 0, address: 0x0800_0000, progress: Progress::Off }
    );
    assert_eq!(run.run(&image, Report::Succeeded), Command::ResetApp);
    assert_eq!(run.run(&image, Report::Succeeded), Command::Finish);
}

#[test]
fn first_failure_ends_the_run() {
    let image = image();
    for failed_at in 0..5 {
        let mut run = WriteFlash::new(0, "fw.hex".to_string(), true, false, settings("uart"));
        let mut command = run.run(&image, Report::Start);
        for _ in 0..failed_at {
            command = run.run(&image, Report::Succeeded);
        }
        assert!(!matches!(command, Command::Finish | Command::Fail(_)));
        assert_eq!(
            run.run(&image, Report::Failed(Failure::ProtocolError)),
            Command::Fail(Failure::ProtocolError)
        );
        assert_eq!(run.get_stage(), Stage::Over);
        assert_eq!(run.run(&image, Report::Succeeded), Command::Fail(Failure::IoError));
    }
}

#[test]
fn segment_past_the_end_of_the_address_space_ends_the_run() {
    let image = vec![Bin { address: 0xFFFF_FFFE, data: vec![1, 2, 3] }];
    let mut run = WriteFlash::new(0, "fw.hex".to_string(), false, false, settings("uart"));
    let _ = run.run(&image, Report::Start);
    assert_eq!(run.run(&image, Report::Succeeded), Command::Fail(Failure::OutOfRange));
    let image = vec![Bin { address: 0xFFFF_FFFE, data: vec![1, 2] }];
    let mut run = WriteFlash::new(0, "fw.hex".to_string(), false, false, settings("uart"));
    let _ = run.run(&image, Report::Start);
    assert_eq!(
        run.run(&image, Report::Succeeded),
        Command::WriteFlash { segment: 0, address: 0xFFFF_FFFE, progress: Progress::Percent }
    );
}

#[test]
fn success_out_of_turn_is_an_io_error() {
    let mut run = WriteFlash::new(0, "fw.hex".to_string(), false, false, settings("uart"));
    assert_eq!(run.run(&image(), Report::Succeeded), Command::Fail(Failure::IoError));
}

#[test]
fn start_begins_from_the_top() {
    let mut run = WriteFlash::new(0, "fw.hex".to_string(), true, false, settings("uart"));
    let image = image();
    let _ = run.run(&image, Report::Start);
    let _ = run.run(&image, Report::Succeeded);
    assert_eq!(run.run(&image, Report::Start), Command::ResetBootloader);
    assert_eq!(run.run(&image, Report::Succeeded), Command::EraseAll);
}

#[test]
fn chip_id_command_asks_once() {
    let mut get = Get::new(settings("uart"));
    assert_eq!(get.get_air_isp().get_peripheral(), "uart");
    assert_eq!(get.chip_id(Report::Succeeded), Command::Fail(Failure::IoError));
    assert_eq!(get.chip_id(Report::Start), Command::GetChipId);
    assert_eq!(get.chip_id(Report::Succeeded), Command::Finish);
    assert_eq!(get.chip_id(Report::Start), Command::GetChipId);
    assert_eq!(
        get.chip_id(Report::Failed(Failure::IoError)),
        Command::Fail(Failure::IoError)
    );
}

#[test]
fn log_lets_through_what_matters_enough() {
    let mut log = Log::new(Level::Info);
    assert!(!log.prints(Level::Trace));
    assert!(log.prints(Level::Info));
    assert!(log.prints(Level::Warn));
    assert!(log.prints(Level::Error));
    log.set_level(Level::Trace);
    assert!(log.prints(Level::Trace));
    log.set_level(Level::Warn);
    assert!(!log.prints(Level::Info));
    assert!(log.prints(Level::Warn));
    log.set_level(Level::Error);
    assert!(!log.prints(Level::Warn));
    assert!(log.prints(Level::Error));
}

#[test]
fn address_in_hexadecimal_or_decimal() {
    assert_eq!(parse_address("0x08000000"), Some(0x0800_0000));
    assert_eq!(parse_address("0X1f"), Some(0x1F));
    assert_eq!(parse_address("0xFFFFFFFF"), Some(0xFFFF_FFFF));
    assert_eq!(parse_address("134217728"), Some(134217728));
    assert_eq!(parse_address("0"), Some(0));
    assert_eq!(parse_address("007"), Some(7));
    assert_eq!(parse_address("4294967295"), Some(u32::MAX));
    assert_eq!(parse_address("+5"), Some(5));
    assert_eq!(parse_address("0x+1F"), Some(0x1F));
}

#[test]
fn address_that_is_no_number() {
    for text in [
        "", "0x", "+", "0x+", "4294967296", "0x100000000", "99999999999999999999", "12a", "-1",
        " 1", "1 ", "0x1G", "1_000", "x10", "0x 10", "++1", "0x0x1", "１",
    ] {
        assert_eq!(parse_address(text), None, "{:?}", text);
    }
}

#[test]
fn address_agrees_with_the_standard_parsers() {
    for text in ["0x0", "0x00000000001", "0xabcDEF", "000000000000000000001", "4294967295", "0xffffffff"] {
        let expected = if text.starts_with("0x") {
            u32::from_str_radix(&text[2..], 16).ok()
        } else {
            text.parse::<u32>().ok()
        };
        assert_eq!(parse_address(text), expected);
    }
}

#[test]
fn language_is_the_one_asked_for_or_the_systems_or_english() {
    let known = vec!["en".to_string(), "zh-CN".to_string(), "ja".to_string()];
    assert_eq!(choose_language("ja", "de", &known), "ja");
    assert_eq!(choose_language("fr", "de", &known), "fr");
    assert_eq!(choose_language("auto", "zh-CN", &known), "zh-CN");
    assert_eq!(choose_language("auto", "de", &known), "en");
    assert_eq!(choose_language("auto", "zh-cn", &known), "en");
    assert_eq!(choose_language("auto", "de", &vec![]), "en");
    assert_eq!(choose_language("Auto", "ja", &known), "Auto");
}

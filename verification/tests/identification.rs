use airisp::chips::{identify, identify_next, ChipInfo, Lookup, NO_ID_REGISTER};
use airisp::link::Finding;
use airisp::text::{contains, fold, same_bytes, same_text};

fn chip(name: &str, register: u32, pid: u16) -> ChipInfo {
    ChipInfo {
        name: name.to_string(),
        debug_idcode_reg: register,
        pid,
        flash_size_reg: 0x1FFF_0FFC,
        flash_size: 32 * 1024,
        ram_size: 4 * 1024,
        uid_reg: 0x1FFF_0E00,
    }
}

fn table() -> Vec<ChipInfo> {
    vec![
        chip("AIR32F103", 0xE004_2000, 0x0410),
        chip("Air001", NO_ID_REGISTER, 0x0440),
        chip("AIR401", 0x4001_5800, 0x0460),
        chip("Air001Dev", 0x4001_5800, 0x0441),
    ]
}

#[test]
fn name_in_any_letter_case_selects_the_chip_without_a_read() {
    for selector in ["Air001", "air001", "AIR001", "aIr001", "AiR001"] {
        assert_eq!(
            identify(&table(), selector),
            Lookup::Found { index: 1, finding: Finding::Assumed }
        );
    }
}

#[test]
fn exact_name_wins_over_a_name_that_holds_it() {
    let chips = vec![chip("Air001Dev", 0x4001_5800, 0x0441), chip("Air001", NO_ID_REGISTER, 0x0440)];
    assert_eq!(identify(&chips, "air001"), Lookup::Found { index: 1, finding: Finding::Assumed });
    assert_eq!(identify(&chips, "air001dev"), Lookup::Read { index: 0, address: 0x4001_5800 });
}

#[test]
fn part_of_a_name_selects_the_first_chip_that_holds_it() {
    assert_eq!(identify(&table(), "air32"), Lookup::Read { index: 0, address: 0xE004_2000 });
    assert_eq!(identify(&table(), "F103"), Lookup::Read { index: 0, address: 0xE004_2000 });
    assert_eq!(identify(&table(), "dev"), Lookup::Read { index: 3, address: 0x4001_5800 });
    assert_eq!(identify(&table(), "AIR"), Lookup::Read { index: 0, address: 0xE004_2000 });
}

#[test]
fn unknown_name_is_not_found() {
    assert_eq!(identify(&table(), "stm32"), Lookup::NotFound);
    assert_eq!(identify(&vec![], "air001"), Lookup::NotFound);
    assert_eq!(identify(&vec![], "auto"), Lookup::NotFound);
}

#[test]
fn named_chip_is_kept_whatever_the_register_says() {
    let chips = table();
    assert_eq!(identify(&chips, "AIR401"), Lookup::Read { index: 2, address: 0x4001_5800 });
    assert_eq!(
        identify_next(&chips, "AIR401", 2, Some(0x0460)),
        Lookup::Found { index: 2, finding: Finding::Confirmed }
    );
    assert_eq!(
        identify_next(&chips, "AIR401", 2, Some(0x1234_0460)),
        Lookup::Found { index: 2, finding: Finding::Mismatch(0x1234_0460) }
    );
    assert_eq!(
        identify_next(&chips, "AIR401", 2, None),
        Lookup::Found { index: 2, finding: Finding::Unreadable }
    );
}

#[test]
fn scan_takes_the_first_chip_that_matches() {
    let chips = table();
    assert_eq!(identify(&chips, "auto"), Lookup::Read { index: 0, address: 0xE004_2000 });
    assert_eq!(
        identify_next(&chips, "auto", 0, Some(0x0410)),
        Lookup::Found { index: 0, finding: Finding::Confirmed }
    );
    // A chip without id register is taken on trust as soon as the scan reaches it.
    assert_eq!(
        identify_next(&chips, "auto", 0, Some(0x0999)),
        Lookup::Found { index: 1, finding: Finding::Assumed }
    );
    assert_eq!(
        identify_next(&chips, "auto", 0, None),
        Lookup::Found { index: 1, finding: Finding::Assumed }
    );
}

#[test]
fn scan_without_match_is_not_found() {
    let chips = vec![chip("A", 0x1000, 1), chip("B", 0x2000, 2)];
    assert_eq!(identify(&chips, "auto"), Lookup::Read { index: 0, address: 0x1000 });
    assert_eq!(identify_next(&chips, "auto", 0, Some(7)), Lookup::Read { index: 1, address: 0x2000 });
    assert_eq!(identify_next(&chips, "auto", 1, Some(7)), Lookup::NotFound);
    assert_eq!(identify_next(&chips, "auto", 1, None), Lookup::NotFound);
    assert_eq!(
        identify_next(&chips, "auto", 1, Some(2)),
        Lookup::Found { index: 1, finding: Finding::Confirmed }
    );
}

#[test]
fn only_lower_case_auto_scans() {
    let chips = vec![chip("A", 0x1000, 1), chip("Auto", NO_ID_REGISTER, 2)];
    assert_eq!(identify(&chips, "auto"), Lookup::Read { index: 0, address: 0x1000 });
    assert_eq!(identify(&chips, "AUTO"), Lookup::Found { index: 1, finding: Finding::Assumed });
}

#[test]
fn reading_for_a_place_outside_the_table_is_not_found() {
    assert_eq!(identify_next(&table(), "auto", 4, Some(1)), Lookup::NotFound);
    assert_eq!(identify_next(&table(), "air001", 99, None), Lookup::NotFound);
}

#[test]
fn wide_product_id_does_not_match_its_lower_half() {
    let chips = vec![chip("A", 0x1000, 0x0410)];
    assert_eq!(identify_next(&chips, "auto", 0, Some(0x0001_0410)), Lookup::NotFound);
}

#[test]
fn folding_lowers_the_case() {
    assert_eq!(fold("Air001"), b"air001".to_vec());
    assert_eq!(fold("AIR32F103"), b"air32f103".to_vec());
    assert_eq!(fold("ÄB"), "äb".as_bytes().to_vec());
    assert_eq!(fold(""), Vec::<u8>::new());
}

#[test]
fn substring_search() {
    assert!(contains(b"air32f103", b"air32"));
    assert!(contains(b"air32f103", b"f103"));
    assert!(contains(b"air32f103", b"2f1"));
    assert!(contains(b"air32f103", b""));
    assert!(contains(b"", b""));
    assert!(contains(b"abc", b"abc"));
    assert!(!contains(b"air32f103", b"f104"));
    assert!(!contains(b"abc", b"abcd"));
    assert!(!contains(b"", b"a"));
    assert!(contains(b"aab", b"ab"));
}

#[test]
fn text_and_byte_equality() {
    assert!(same_text("auto", "auto"));
    assert!(!same_text("auto", "Auto"));
    assert!(!same_text("auto", "aut"));
    assert!(same_bytes(b"abc", b"abc"));
    assert!(!same_bytes(b"abc", b"abd"));
    assert!(!same_bytes(b"abc", b"ab"));
    assert!(same_bytes(b"", b""));
}

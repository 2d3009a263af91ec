//! The chip descriptor table and the identification of the target.
//!
//! Identification never reads hardware itself. It answers with a [`Lookup`]:
//! a descriptor, a failure, or a register to read. Whoever holds the link
//! reads the register and asks again with what was found.

use crate::link::Finding;
use crate::text::{contains, fold, folded, occurs_in, same_bytes, same_text};
use vstd::prelude::*;

verus! {

/// Value of `debug_idcode_reg` that marks a chip without a readable id.
pub const NO_ID_REGISTER: u32 = 0xFFFF_FFFF;

/// One known chip.
#[derive(Clone, Debug, PartialEq, Eq)]
pub struct ChipInfo {
    /// Name by which the chip is selected, without regard to letter case.
    pub name: String,
    /// Address of the register that holds the product id.
    pub debug_idcode_reg: u32,
    /// Product id that the register holds on this chip.
    pub pid: u16,
    /// Address of the register that holds the flash size.
    pub flash_size_reg: u32,
    /// Flash size in bytes.
    pub flash_size: u32,
    /// RAM size in bytes.
    pub ram_size: u32,
    /// Address of the unique device id.
    pub uid_reg: u32,
}

/// What identification answers.
#[derive(Clone, Copy, Debug, PartialEq, Eq, Structural)]
pub enum Lookup {
    /// Read the word at `address` and come back with it; it decides on the
    /// descriptor at `index`.
    Read { index: usize, address: u32 },
    /// The descriptor at `index` is the one.
    Found { index: usize, finding: Finding },
    /// No descriptor matches.
    NotFound,
}

/// Whether the selector asks for the chip to be found out.
pub open spec fn is_auto(selector: Seq<char>) -> bool {
    selector == "auto"@
}

/// Whether the name at place `i` is the selector, letter case aside.
pub open spec fn named_at(table: Seq<ChipInfo>, selector: Seq<char>, i: int) -> bool {
    folded(table[i].name@) == folded(selector)
}

/// Whether the name at place `i` holds the selector, letter case aside.
pub open spec fn hinted_at(table: Seq<ChipInfo>, selector: Seq<char>, i: int) -> bool {
    occurs_in(folded(selector), folded(table[i].name@))
}

/// No two descriptors have the same name, letter case aside.
pub open spec fn names_distinct(table: Seq<ChipInfo>) -> bool {
    forall|i: int, j: int|
        0 <= i < j < table.len() ==> folded(#[trigger] table[i].name@) != folded(
            #[trigger] table[j].name@,
        )
}

/// The first place at or after `from` whose name is the selector.
pub open spec fn first_named(table: Seq<ChipInfo>, selector: Seq<char>, from: int) -> Option<int>
    decreases table.len() - from,
{
    if from < 0 || from >= table.len() {
        None
    } else if named_at(table, selector, from) {
        Some(from)
    } else {
        first_named(table, selector, from + 1)
    }
}

/// The first place at or after `from` whose name holds the selector.
pub open spec fn first_hinted(table: Seq<ChipInfo>, selector: Seq<char>, from: int) -> Option<int>
    decreases table.len() - from,
{
    if from < 0 || from >= table.len() {
        None
    } else if hinted_at(table, selector, from) {
        Some(from)
    } else {
        first_hinted(table, selector, from + 1)
    }
}

/// The descriptor that a name selects: the one so named, or else the first
/// whose name holds the selector.
pub open spec fn candidate(table: Seq<ChipInfo>, selector: Seq<char>) -> Option<int> {
    match first_named(table, selector, 0) {
        Some(i) => Some(i),
        None => first_hinted(table, selector, 0),
    }
}

/// The answer for the descriptor at `from` when scanning: past the end
/// nothing matched; a chip without id register is taken on trust; any
/// other needs its register read.
pub open spec fn scan(table: Seq<ChipInfo>, from: int) -> Lookup {
    if from < 0 || from >= table.len() || from > usize::MAX {
        Lookup::NotFound
    } else if table[from].debug_idcode_reg == NO_ID_REGISTER {
        Lookup::Found { index: from as usize, finding: Finding::Assumed }
    } else {
        Lookup::Read { index: from as usize, address: table[from].debug_idcode_reg }
    }
}

/// The first answer of an identification.
pub open spec fn identify_spec(table: Seq<ChipInfo>, selector: Seq<char>) -> Lookup {
    if is_auto(selector) {
        scan(table, 0)
    } else {
        match candidate(table, selector) {
            Some(i) => scan(table, i),
            None => Lookup::NotFound,
        }
    }
}

/// What a register reading says of a descriptor that was selected by name.
/// The descriptor is kept whatever was read.
pub open spec fn judge_named(chip: ChipInfo, reading: Option<u32>) -> Finding {
    match reading {
        None => Finding::Unreadable,
        Some(word) => if word == chip.pid as u32 {
            Finding::Confirmed
        } else {
            Finding::Mismatch(word)
        },
    }
}

/// The answer that follows the reading asked for the descriptor at
/// `index`. A named descriptor is settled on. When scanning, the
/// descriptor is taken if the register holds its product id; if not, or
/// if the read failed, the scan goes on behind it.
pub open spec fn resume_spec(
    table: Seq<ChipInfo>,
    selector: Seq<char>,
    index: usize,
    reading: Option<u32>,
) -> Lookup {
    if index >= table.len() {
        Lookup::NotFound
    } else if is_auto(selector) {
        if reading == Some(table[index as int].pid as u32) {
            Lookup::Found { index, finding: Finding::Confirmed }
        } else {
            scan(table, index + 1)
        }
    } else {
        Lookup::Found { index, finding: judge_named(table[index as int], reading) }
    }
}

/// Whatever identification answers about lies within the table.
pub proof fn lemma_identify_within(table: Seq<ChipInfo>, selector: Seq<char>)
    ensures
        identify_spec(table, selector) matches Lookup::Found { index, finding } ==> index
            < table.len(),
        identify_spec(table, selector) matches Lookup::Read { index, address } ==> index
            < table.len(),
{
}

proof fn lemma_first_named(table: Seq<ChipInfo>, selector: Seq<char>, from: int, i: int)
    requires
        0 <= from <= i < table.len(),
        named_at(table, selector, i),
        forall|j: int| from <= j < i ==> !named_at(table, selector, j),
    ensures
        first_named(table, selector, from) == Some(i),
    decreases i - from,
{
    if from < i {
        lemma_first_named(table, selector, from + 1, i);
    }
}

/// A selector that is a descriptor's name in any letter case selects that
/// descriptor; and where that descriptor has no id register, identification
/// settles on it at once, without asking for any register to be read.
/// This holds of tables whose names are distinct, and of every selector
/// but `auto` itself, which asks for a scan.
pub proof fn law_named_chip_without_id_register(
    table: Seq<ChipInfo>,
    selector: Seq<char>,
    i: int,
)
    requires
        names_distinct(table),
        0 <= i < table.len() <= usize::MAX,
        named_at(table, selector, i),
        !is_auto(selector),
    ensures
        candidate(table, selector) == Some(i),
        table[i].debug_idcode_reg == NO_ID_REGISTER ==> identify_spec(table, selector) == (
        Lookup::Found { index: i as usize, finding: Finding::Assumed }),
{
    assert forall|j: int| 0 <= j < i implies !named_at(table, selector, j) by {
        assert(folded(table[j].name@) != folded(table[i].name@));
    }
    lemma_first_named(table, selector, 0, i);
}

fn find_named(table: &Vec<ChipInfo>, key: &Vec<u8>, Ghost(selector): Ghost<Seq<char>>) -> (found:
    Option<usize>)
    requires
        key@ == folded(selector),
    ensures
        match found {
            Some(i) => first_named(table@, selector, 0) == Some(i as int),
            None => first_named(table@, selector, 0) is None,
        },
{
    let mut i: usize = 0;
    while i < table.len()
        invariant
            i <= table@.len(),
            key@ == folded(selector),
            first_named(table@, selector, 0) == first_named(table@, selector, i as int),
        decreases table@.len() - i,
    {
        let name: Vec<u8> = fold(table[i].name.as_str());
        if same_bytes(name.as_slice(), key.as_slice()) {
            return Some(i);
        }
        i = i + 1;
    }
    None
}

fn find_hinted(table: &Vec<ChipInfo>, key: &Vec<u8>, Ghost(selector): Ghost<Seq<char>>) -> (found:
    Option<usize>)
    requires
        key@ == folded(selector),
    ensures
        match found {
            Some(i) => first_hinted(table@, selector, 0) == Some(i as int),
            None => first_hinted(table@, selector, 0) is None,
        },
{
    let mut i: usize = 0;
    while i < table.len()
        invariant
            i <= table@.len(),
            key@ == folded(selector),
            first_hinted(table@, selector, 0) == first_hinted(table@, selector, i as int),
        decreases table@.len() - i,
    {
        let name: Vec<u8> = fold(table[i].name.as_str());
        if contains(name.as_slice(), key.as_slice()) {
            return Some(i);
        }
        i = i + 1;
    }
    None
}

fn scan_at(table: &Vec<ChipInfo>, from: usize) -> (lookup: Lookup)
    ensures
        lookup == scan(table@, from as int),
{
    if from >= table.len() {
        Lookup::NotFound
    } else if table[from].debug_idcode_reg == NO_ID_REGISTER {
        Lookup::Found { index: from, finding: Finding::Assumed }
    } else {
        Lookup::Read { index: from, address: table[from].debug_idcode_reg }
    }
}

/// Starts an identification. The selector is `auto`, which scans the table
/// in order, or the name of a chip.
pub fn identify(table: &Vec<ChipInfo>, selector: &str) -> (lookup: Lookup)
    ensures
        lookup == identify_spec(table@, selector@),
{
    if same_text(selector, "auto") {
        scan_at(table, 0)
    } else {
        let key: Vec<u8> = fold(selector);
        let named: Option<usize> = find_named(table, &key, Ghost(selector@));
        let chosen: Option<usize> = match named {
            Some(i) => Some(i),
            None => find_hinted(table, &key, Ghost(selector@)),
        };
        match chosen {
            Some(i) => scan_at(table, i),
            None => Lookup::NotFound,
        }
    }
}

/// Goes on with an identification that asked for the register of the
/// descriptor at `index`. `reading` is the word that was read, or nothing
/// if the read failed.
pub fn identify_next(table: &Vec<ChipInfo>, selector: &str, index: usize, reading: Option<u32>) -> (lookup:
    Lookup)
    ensures
        lookup == resume_spec(table@, selector@, index, reading),
{
    if index >= table.len() {
        return Lookup::NotFound;
    }
    let pid: u32 = table[index].pid as u32;
    if same_text(selector, "auto") {
        let hit: bool = match reading {
            Some(word) => word == pid,
            None => false,
        };
        if hit {
            Lookup::Found { index, finding: Finding::Confirmed }
        } else {
            scan_at(table, index + 1)
        }
    } else {
        let finding: Finding = match reading {
            None => Finding::Unreadable,
            Some(word) => if word == pid {
                Finding::Confirmed
            } else {
                Finding::Mismatch(word)
            },
        };
        Lookup::Found { index, finding }
    }
}

} // verus!

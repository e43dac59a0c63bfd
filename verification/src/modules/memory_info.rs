//! The main memory: what is free and what is available.

use crate::modules::SystemInfo;
use crate::text::{
    has_prefix, lines_of, nth_word, parse_count, parsed_count, split_lines, starts_with, texts, word,
};
use crate::utils::{insert_size, size_facts, SizeText};
use vstd::prelude::*;

verus! {

/// The figures of the main memory as they are shown: those that count what is
/// free, and those that count what is available, where the system tells.
pub struct MemoryText {
    pub memory: SizeText,
    pub available: Option<SizeText>,
}

/// The table after the facts of `memory` were set.
pub open spec fn memory_facts(
    table: Map<Seq<char>, Seq<char>>,
    memory: MemoryText,
) -> Map<Seq<char>, Seq<char>> {
    let first = size_facts(table, "memory"@, memory.memory);
    match memory.available {
        Some(available) => size_facts(first, "memory_available"@, available),
        None => first.insert("memory_available_free"@, "N/A"@).insert(
            "memory_available_used"@,
            "N/A"@,
        ).insert("memory_available_total"@, "N/A"@),
    }
}

/// Sets the size facts under `memory`, and those under `memory_available`; where
/// the available memory is not known, `memory_available_free`,
/// `memory_available_used` and `memory_available_total` are set to `N/A`.
pub fn load_memory_info(info: &mut SystemInfo, memory: &MemoryText)
    ensures
        final(info)@ == memory_facts(old(info)@, *memory),
{
    insert_size("memory", &memory.memory, info);
    match &memory.available {
        Some(available) => {
            insert_size("memory_available", available, info);
        },
        None => {
            info.insert(String::from_str("memory_available_free"), String::from_str("N/A"));
            info.insert(String::from_str("memory_available_used"), String::from_str("N/A"));
            info.insert(String::from_str("memory_available_total"), String::from_str("N/A"));
        },
    }
}

/// What the kernel tells of the main memory, in the unit in which it tells it:
/// all of it, what is free, and what is available, where it says so.
#[derive(Clone, Copy, Debug, PartialEq, Eq, Structural)]
pub struct MemoryInfo {
    pub total: usize,
    pub free: usize,
    pub available: Option<usize>,
}

/// The number in the second word of a line, where there is one.
pub open spec fn line_amount(line: Seq<char>) -> Option<usize> {
    match word(line, 1) {
        Some(text) => parsed_count(text),
        None => None,
    }
}

/// A number, and 0 where there is none.
pub open spec fn amount_or_zero(amount: Option<usize>) -> usize {
    match amount {
        Some(value) => value,
        None => 0,
    }
}

/// What is known of the memory after one more line of `meminfo`.
pub open spec fn after_line(memory: MemoryInfo, line: Seq<char>) -> MemoryInfo {
    if has_prefix(line, "MemTotal:"@) {
        MemoryInfo { total: amount_or_zero(line_amount(line)), ..memory }
    } else if has_prefix(line, "MemFree:"@) {
        MemoryInfo { free: amount_or_zero(line_amount(line)), ..memory }
    } else if has_prefix(line, "MemAvailable:"@) {
        MemoryInfo { available: line_amount(line), ..memory }
    } else {
        memory
    }
}

/// What is known of the memory after the lines of `meminfo`, read in order.
pub open spec fn after_lines(memory: MemoryInfo, lines: Seq<Seq<char>>) -> MemoryInfo
    decreases lines.len(),
{
    if lines.len() == 0 {
        memory
    } else {
        after_line(after_lines(memory, lines.drop_last()), lines.last())
    }
}

/// Reads the number in the second word of a line.
fn read_amount(line: &str) -> (amount: Option<usize>)
    ensures
        amount == line_amount(line@),
{
    match nth_word(line, 1) {
        Some(text) => parse_count(text.as_str()),
        None => None,
    }
}

/// Reads the number in the second word of a line, taking 0 where there is none.
fn read_amount_or_zero(line: &str) -> (amount: usize)
    ensures
        amount == amount_or_zero(line_amount(line@)),
{
    match read_amount(line) {
        Some(value) => value,
        None => 0,
    }
}

/// What is known of the main memory from the text of `meminfo`: the amounts
/// in the lines `MemTotal:`, `MemFree:` and `MemAvailable:`, the last line of
/// each kind counting. Without the text, and without such lines, the amounts
/// are 0 and the available memory is not known.
pub fn get_memory(meminfo: Option<&str>) -> (memory: MemoryInfo)
    ensures
        memory == after_lines(
            (MemoryInfo { total: 0, free: 0, available: None }),
            match meminfo {
                Some(text) => lines_of(text@),
                None => Seq::empty(),
            },
        ),
{
    let mut memory = MemoryInfo { total: 0, free: 0, available: None };
    let ghost start = memory;
    match meminfo {
        Some(text) => {
            let lines = split_lines(text);
            let ghost all = texts(lines@);
            let mut i: usize = 0;
            while i < lines.len()
                invariant
                    i <= lines@.len(),
                    all == texts(lines@),
                    memory == after_lines(start, all.take(i as int)),
                decreases lines@.len() - i,
            {
                let line = lines[i].as_str();
                proof {
                    let upto = all.take(i + 1);
                    assert(upto.drop_last() =~= all.take(i as int));
                    assert(upto.last() == line@);
                }
                if starts_with(line, "MemTotal:") {
                    memory.total = read_amount_or_zero(line);
                } else if starts_with(line, "MemFree:") {
                    memory.free = read_amount_or_zero(line);
                } else if starts_with(line, "MemAvailable:") {
                    memory.available = read_amount(line);
                }
                i += 1;
            }
            assert(all.take(i as int) =~= all);
        },
        None => {},
    }
    memory
}

} // verus!

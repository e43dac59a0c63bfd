//! The processor: its model, its cores and threads, and its clock.

use crate::modules::SystemInfo;
use crate::text::{
    decimal, decimal_text, has_prefix, lines_of, parse_number, parsed_u64, piece, split_lines,
    split_piece, starts_with, texts, trim_text, trimmed,
};
use vstd::prelude::*;

verus! {

/// What is known of the processor. The clock is held as it is shown, in MHz and in GHz.
pub struct CpuInfo {
    pub model: String,
    pub cores: usize,
    pub threads: usize,
    pub freq_mhz: String,
    pub freq_ghz: String,
}

impl Default for CpuInfo {
    /// The processor of which nothing is known.
    fn default() -> (unknown: CpuInfo)
        ensures
            unknown.model@ == Seq::<char>::empty(),
            unknown.cores == 0,
            unknown.threads == 0,
            unknown.freq_mhz@ == Seq::<char>::empty(),
            unknown.freq_ghz@ == Seq::<char>::empty(),
    {
        CpuInfo {
            model: String::new(),
            cores: 0,
            threads: 0,
            freq_mhz: String::new(),
            freq_ghz: String::new(),
        }
    }
}

/// The table after the facts of `cpu` were set.
pub open spec fn cpu_facts(
    table: Map<Seq<char>, Seq<char>>,
    cpu: CpuInfo,
) -> Map<Seq<char>, Seq<char>> {
    table
        .insert("cpu_model"@, cpu.model@)
        .insert("cpu_cores"@, decimal(cpu.cores as nat))
        .insert("cpu_threads"@, decimal(cpu.threads as nat))
        .insert("cpu_freq_mhz"@, cpu.freq_mhz@)
        .insert("cpu_freq_ghz"@, cpu.freq_ghz@)
}

/// Sets the facts `cpu_model`, `cpu_cores`, `cpu_threads`, `cpu_freq_mhz` and `cpu_freq_ghz`.
pub fn load_cpu_info(info: &mut SystemInfo, cpu: &CpuInfo)
    ensures
        final(info)@ == cpu_facts(old(info)@, *cpu),
{
    info.insert(String::from_str("cpu_model"), cpu.model.clone());
    info.insert(String::from_str("cpu_cores"), decimal_text(cpu.cores as u64));
    info.insert(String::from_str("cpu_threads"), decimal_text(cpu.threads as u64));
    info.insert(String::from_str("cpu_freq_mhz"), cpu.freq_mhz.clone());
    info.insert(String::from_str("cpu_freq_ghz"), cpu.freq_ghz.clone());
}

/// The model that `cpuinfo` names: in the first line that begins with
/// `model name` and holds a colon, what stands between that colon and the
/// next, without the white space around it.
pub open spec fn model_name(lines: Seq<Seq<char>>) -> Option<Seq<char>>
    decreases lines.len(),
{
    if lines.len() == 0 {
        None
    } else if has_prefix(lines[0], "model name"@) && piece(lines[0], ':', 1) is Some {
        Some(trimmed(piece(lines[0], ':', 1)->0))
    } else {
        model_name(lines.skip(1))
    }
}

/// How many of the lines begin with `processor`.
pub open spec fn processor_count(lines: Seq<Seq<char>>) -> nat
    decreases lines.len(),
{
    if lines.len() == 0 {
        0
    } else {
        processor_count(lines.drop_last()) + if has_prefix(lines.last(), "processor"@) {
            1nat
        } else {
            0nat
        }
    }
}

/// No more lines begin with `processor` than there are lines.
proof fn lemma_processor_count_bound(lines: Seq<Seq<char>>)
    ensures
        processor_count(lines) <= lines.len(),
    decreases lines.len(),
{
    if lines.len() > 0 {
        lemma_processor_count_bound(lines.drop_last());
    }
}

/// The clock in MHz that a text in kHz gives, where the text, without the
/// white space around it, is a number.
pub open spec fn clock_mhz(khz: Seq<char>) -> Option<u64> {
    match parsed_u64(trimmed(khz)) {
        Some(value) => Some((value / 1000) as u64),
        None => None,
    }
}

/// Reads the clock from a text in kHz, and gives it in MHz.
pub fn frequency_mhz(khz: &str) -> (mhz: Option<u64>)
    ensures
        mhz == clock_mhz(khz@),
{
    let text = trim_text(khz);
    match parse_number(text.as_str()) {
        Some(value) => Some(value / 1000),
        None => None,
    }
}

/// What is known of the processor from the text of `cpuinfo` and from the
/// current clock in kHz: the model that the text names, the number of its
/// lines that begin with `processor` as the cores, and the clock in MHz. What
/// is not told stays as in the processor of which nothing is known, and so do
/// the threads and the clock in GHz.
pub fn get_cpu(cpuinfo: Option<&str>, khz: Option<&str>) -> (cpu: CpuInfo)
    ensures
        cpu.model@ == match cpuinfo {
            Some(text) => match model_name(lines_of(text@)) {
                Some(name) => name,
                None => Seq::empty(),
            },
            None => Seq::empty(),
        },
        cpu.cores == match cpuinfo {
            Some(text) => processor_count(lines_of(text@)),
            None => 0,
        },
        cpu.threads == 0,
        cpu.freq_mhz@ == match khz {
            Some(text) => match clock_mhz(text@) {
                Some(mhz) => decimal(mhz as nat),
                None => Seq::empty(),
            },
            None => Seq::empty(),
        },
        cpu.freq_ghz@ == Seq::<char>::empty(),
{
    let mut cpu = CpuInfo::default();
    match cpuinfo {
        Some(text) => {
            let lines = split_lines(text);
            let ghost all = texts(lines@);
            let mut i: usize = 0;
            let mut found = false;
            assert(all.skip(0) =~= all);
            while i < lines.len() && !found
                invariant
                    i <= lines@.len(),
                    all == texts(lines@),
                    !found ==> model_name(all) == model_name(all.skip(i as int)) && cpu.model@
                        == Seq::<char>::empty(),
                    found ==> model_name(all) == Some(cpu.model@),
                    cpu.cores == 0,
                    cpu.threads == 0,
                    cpu.freq_mhz@ == Seq::<char>::empty(),
                    cpu.freq_ghz@ == Seq::<char>::empty(),
                decreases lines@.len() - i, (if found { 0int } else { 1int }),
            {
                let line = lines[i].as_str();
                assert(all.skip(i as int)[0] == line@);
                assert(all.skip(i as int).skip(1) =~= all.skip(i + 1));
                if starts_with(line, "model name") {
                    match split_piece(line, ':', 1) {
                        Some(model) => {
                            cpu.model = trim_text(model.as_str());
                            found = true;
                        },
                        None => {
                            i += 1;
                        },
                    }
                } else {
                    i += 1;
                }
            }
            let mut cores: usize = 0;
            let mut j: usize = 0;
            while j < lines.len()
                invariant
                    j <= lines@.len(),
                    all == texts(lines@),
                    cores == processor_count(all.take(j as int)),
                    cores <= j,
                decreases lines@.len() - j,
            {
                proof {
                    let upto = all.take(j + 1);
                    assert(upto.drop_last() =~= all.take(j as int));
                    assert(upto.last() == lines@[j as int]@);
                }
                if starts_with(lines[j].as_str(), "processor") {
                    cores += 1;
                }
                j += 1;
            }
            assert(all.take(j as int) =~= all);
            cpu.cores = cores;
        },
        None => {},
    }
    match khz {
        Some(text) => match frequency_mhz(text) {
            Some(mhz) => {
                cpu.freq_mhz = decimal_text(mhz);
            },
            None => {},
        },
        None => {},
    }
    cpu
}

} // verus!

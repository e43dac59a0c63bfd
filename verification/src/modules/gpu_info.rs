//! The graphics adapter: its model and its memory.

use crate::modules::SystemInfo;
use crate::text::{
    find_text, first_occurrence, lines_of, piece, split_lines, split_piece, texts, trim_text,
    trimmed,
};
use vstd::prelude::*;

verus! {

/// What is known of the graphics adapter. The memory is held as it is shown:
/// scaled to a unit, and the unit's name.
pub struct GpuInfo {
    pub model: String,
    pub vram: String,
    pub vram_metric: String,
}

/// The table after the facts of `gpu` were set.
pub open spec fn gpu_facts(
    table: Map<Seq<char>, Seq<char>>,
    gpu: GpuInfo,
) -> Map<Seq<char>, Seq<char>> {
    table
        .insert("gpu_model"@, gpu.model@)
        .insert("gpu_vram"@, gpu.vram@)
        .insert("gpu_vram_metric"@, gpu.vram_metric@)
}

/// Sets the facts `gpu_model`, `gpu_vram` and `gpu_vram_metric`.
pub fn load_gpu_info(info: &mut SystemInfo, gpu: &GpuInfo)
    ensures
        final(info)@ == gpu_facts(old(info)@, *gpu),
{
    info.insert(String::from_str("gpu_model"), gpu.model.clone());
    info.insert(String::from_str("gpu_vram"), gpu.vram.clone());
    info.insert(String::from_str("gpu_vram_metric"), gpu.vram_metric.clone());
}

/// Whether a line of the device list tells of a graphics adapter.
pub open spec fn names_graphics(line: Seq<char>) -> bool {
    ||| first_occurrence(line, "VGA"@) is Some
    ||| first_occurrence(line, "3D"@) is Some
    ||| first_occurrence(line, "Display"@) is Some
}

/// The model of the first graphics adapter in the device list: in the first
/// line that tells of one and holds two colons, what stands behind the second
/// colon, up to a third, without the white space around it.
pub open spec fn adapter_model(lines: Seq<Seq<char>>) -> Option<Seq<char>>
    decreases lines.len(),
{
    if lines.len() == 0 {
        None
    } else if names_graphics(lines[0]) && piece(lines[0], ':', 2) is Some {
        Some(trimmed(piece(lines[0], ':', 2)->0))
    } else {
        adapter_model(lines.skip(1))
    }
}

/// Tests whether a line of the device list tells of a graphics adapter.
fn line_names_graphics(line: &str) -> (b: bool)
    ensures
        b == names_graphics(line@),
{
    find_text(line, "VGA").is_some() || find_text(line, "3D").is_some() || find_text(
        line,
        "Display",
    ).is_some()
}

/// Finds the model of the first graphics adapter in the device list.
pub fn find_gpu_model(devices: &str) -> (model: Option<String>)
    ensures
        match model {
            Some(text) => adapter_model(lines_of(devices@)) == Some(text@),
            None => adapter_model(lines_of(devices@)) is None,
        },
{
    let lines = split_lines(devices);
    let ghost all = texts(lines@);
    let mut i: usize = 0;
    assert(all.skip(0) =~= all);
    while i < lines.len()
        invariant
            i <= lines@.len(),
            all == texts(lines@),
            all == lines_of(devices@),
            adapter_model(all) == adapter_model(all.skip(i as int)),
        decreases lines@.len() - i,
    {
        let line = lines[i].as_str();
        assert(all.skip(i as int)[0] == line@);
        assert(all.skip(i as int).skip(1) =~= all.skip(i + 1));
        if line_names_graphics(line) {
            match split_piece(line, ':', 2) {
                Some(model) => {
                    return Some(trim_text(model.as_str()));
                },
                None => {},
            }
        }
        i += 1;
    }
    None
}

} // verus!

//! Sizes as the fact table shows them.

use crate::modules::SystemInfo;
use crate::text::joined;
use vstd::prelude::*;

verus! {

/// The figures of a store of bytes, scaled to one unit and written out: the
/// unit's name, what is free, used and there in all, and the used share in percent.
pub struct SizeText {
    pub metric: String,
    pub free: String,
    pub used: String,
    pub total: String,
    pub percentage: String,
}

/// The table after the five facts of a size were set under the names that begin
/// with `prefix`.
pub open spec fn size_facts(
    table: Map<Seq<char>, Seq<char>>,
    prefix: Seq<char>,
    size: SizeText,
) -> Map<Seq<char>, Seq<char>> {
    table.insert(prefix + "_metric"@, size.metric@).insert(prefix + "_free"@, size.free@).insert(
        prefix + "_used"@,
        size.used@,
    ).insert(prefix + "_total"@, size.total@).insert(prefix + "_percentage"@, size.percentage@)
}

/// Sets the facts `<prefix>_metric`, `<prefix>_free`, `<prefix>_used`,
/// `<prefix>_total` and `<prefix>_percentage`.
pub fn insert_size(prefix: &str, size: &SizeText, info: &mut SystemInfo)
    ensures
        final(info)@ == size_facts(old(info)@, prefix@, *size),
{
    info.insert(joined(prefix, "_metric"), size.metric.clone());
    info.insert(joined(prefix, "_free"), size.free.clone());
    info.insert(joined(prefix, "_used"), size.used.clone());
    info.insert(joined(prefix, "_total"), size.total.clone());
    info.insert(joined(prefix, "_percentage"), size.percentage.clone());
}

} // verus!

//! The time since boot, whole and in days, hours, minutes and seconds.

use crate::modules::SystemInfo;
use crate::text::{decimal, decimal_text};
use vstd::prelude::*;

verus! {

/// The time since boot in words: the days, hours, minutes and seconds that are
/// not zero, each with its letter.
pub open spec fn uptime_text(days: nat, hours: nat, minutes: nat, seconds: nat) -> Seq<char> {
    (if days > 0 {
        decimal(days) + "d "@
    } else {
        Seq::empty()
    }) + (if hours > 0 {
        decimal(hours) + "h "@
    } else {
        Seq::empty()
    }) + (if minutes > 0 {
        decimal(minutes) + "m "@
    } else {
        Seq::empty()
    }) + (if seconds > 0 {
        decimal(seconds) + "s"@
    } else {
        Seq::empty()
    })
}

/// The table after the facts of an uptime of `uptime` seconds were set.
pub open spec fn uptime_facts(table: Map<Seq<char>, Seq<char>>, uptime: u64) -> Map<
    Seq<char>,
    Seq<char>,
> {
    let total = uptime as nat;
    let days = total / 86400;
    let hours = (total / 3600) % 24;
    let minutes = (total / 60) % 60;
    let seconds = total % 60;
    table.insert("uptime_days"@, decimal(days)).insert("uptime_hours"@, decimal(hours)).insert(
        "uptime_hours_total"@,
        decimal(total / 3600),
    ).insert("uptime_mins"@, decimal(minutes)).insert(
        "uptime_mins_total"@,
        decimal(total / 60),
    ).insert("uptime_secs"@, decimal(seconds)).insert("uptime_secs_total"@, decimal(total)).insert(
        "uptime"@,
        uptime_text(days, hours, minutes, seconds),
    )
}

/// Adds a number and its unit to a text, unless the number is zero.
fn append_part(text: &mut String, amount: u64, unit: &str)
    ensures
        final(text)@ == old(text)@ + (if amount > 0 {
            decimal(amount as nat) + unit@
        } else {
            Seq::empty()
        }),
{
    if amount > 0 {
        let number = decimal_text(amount);
        text.append(number.as_str());
        text.append(unit);
        assert(text@ =~= old(text)@ + (decimal(amount as nat) + unit@));
    } else {
        assert(text@ =~= old(text)@ + Seq::<char>::empty());
    }
}

/// Sets the facts of the time since boot, given in seconds: `uptime_days`,
/// `uptime_hours`, `uptime_mins` and `uptime_secs` for its parts,
/// `uptime_hours_total`, `uptime_mins_total` and `uptime_secs_total` for the whole
/// in each unit, and `uptime` for the whole in words.
pub fn load_uptime_info(info: &mut SystemInfo, uptime: u64)
    ensures
        final(info)@ == uptime_facts(old(info)@, uptime),
{
    let days: u64 = uptime / 86400;
    let hours: u64 = (uptime / 3600) % 24;
    let minutes: u64 = (uptime / 60) % 60;
    let seconds: u64 = uptime % 60;

    info.insert(String::from_str("uptime_days"), decimal_text(days));
    info.insert(String::from_str("uptime_hours"), decimal_text(hours));
    info.insert(String::from_str("uptime_hours_total"), decimal_text(uptime / 3600));
    info.insert(String::from_str("uptime_mins"), decimal_text(minutes));
    info.insert(String::from_str("uptime_mins_total"), decimal_text(uptime / 60));
    info.insert(String::from_str("uptime_secs"), decimal_text(seconds));
    info.insert(String::from_str("uptime_secs_total"), decimal_text(uptime));

    let mut text = String::new();
    append_part(&mut text, days, "d ");
    append_part(&mut text, hours, "h ");
    append_part(&mut text, minutes, "m ");
    append_part(&mut text, seconds, "s");
    assert(text@ =~= uptime_text(days as nat, hours as nat, minutes as nat, seconds as nat));
    info.insert(String::from_str("uptime"), text);
}

} // verus!

//! What is shown of a run: its statistics and facts as named texts.

use crate::decimal::{append_decimal, decimal};
use crate::facts::{UnkownFacts, UnkownFactsView};
use crate::stats::{Statistics, StatisticsView};
use vstd::prelude::*;
use vstd::string::*;

verus! {

/// The fields that are shown, each with its name: the three durations, the
/// count as a decimal numeral, and the three facts.
pub open spec fn fields_of(stats: StatisticsView, facts: UnkownFactsView) -> Seq<
    (Seq<char>, Seq<char>),
> {
    seq![
        ("mean_duration"@, stats.mean_duration),
        ("std_duration"@, stats.std_duration),
        ("total_duration"@, stats.total_duration),
        ("total_count"@, decimal(stats.total_count)),
        ("speed_of_light"@, facts.speed_of_light),
        ("time_sun_earth"@, facts.time_sun_earth),
        ("closest_star"@, facts.closest_star),
    ]
}

/// One field with its name.
fn field(name: &str, value: &String) -> (named: (String, String))
    ensures
        named.deep_view() == (name@, value@),
{
    (String::from_str(name), value.clone())
}

/// The fields that are shown of the statistics and the facts, each with its
/// name.
pub fn display_fields(stats: &Statistics, facts: &UnkownFacts) -> (fields: Vec<(String, String)>)
    ensures
        fields.deep_view() == fields_of(stats@, facts@),
{
    let mut total_count = String::new();
    append_decimal(&mut total_count, stats.total_count as u64);
    assert(total_count@ =~= decimal(stats.total_count as nat));
    let mut fields: Vec<(String, String)> = Vec::new();
    fields.push(field("mean_duration", &stats.mean_duration));
    fields.push(field("std_duration", &stats.std_duration));
    fields.push(field("total_duration", &stats.total_duration));
    fields.push(field("total_count", &total_count));
    fields.push(field("speed_of_light", &facts.speed_of_light));
    fields.push(field("time_sun_earth", &facts.time_sun_earth));
    fields.push(field("closest_star", &facts.closest_star));
    assert(fields.deep_view() =~= fields_of(stats@, facts@));
    fields
}

} // verus!

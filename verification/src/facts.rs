//! The derived facts: three physical quantities, measured with the mean
//! duration of a video as the unit of time.
//!
//! Each is a quotient, rounded to hundredths and written with two fraction
//! digits. The quotients are computed in whole numbers, exactly.

use crate::arith::{round_div, rounded_div};
use crate::decimal::{append_decimal, append_two_digits, decimal, two_digits};
use crate::duration::{clock_seconds, clock_text, lemma_clock_round_trip, parse_duration, ParseError};
use crate::stats::Statistics;
use vstd::prelude::*;
use vstd::string::*;

verus! {

/// The speed of light, in metres per second.
pub const SPEED_OF_LIGHT: u64 = 299_792_458;

/// The distance from the Earth to the Sun, in metres.
pub const ASTRONOMICAL_UNIT: u64 = 149_597_870_700;

/// The time that light takes from the closest star: 4.22 years of 365.4
/// days of 86400 seconds, in hundredths of a second.
pub const CLOSEST_STAR_CENTISECONDS: u64 = 422 * 3654 * 8640;

/// The facts derived from the mean duration, each a decimal numeral with
/// two fraction digits.
#[derive(Debug)]
pub struct UnkownFacts {
    /// How many metres light travels during one video.
    pub speed_of_light: String,
    /// How many videos pass while light travels from the Sun to the Earth.
    pub time_sun_earth: String,
    /// How many videos pass while light travels from the closest star.
    pub closest_star: String,
}

/// `UnkownFacts` with its texts as sequences of characters.
pub struct UnkownFactsView {
    pub speed_of_light: Seq<char>,
    pub time_sun_earth: Seq<char>,
    pub closest_star: Seq<char>,
}

impl View for UnkownFacts {
    type V = UnkownFactsView;

    open spec fn view(&self) -> UnkownFactsView {
        UnkownFactsView {
            speed_of_light: self.speed_of_light@,
            time_sun_earth: self.time_sun_earth@,
            closest_star: self.closest_star@,
        }
    }
}

/// Why no facts can be derived.
#[derive(Clone, Copy, Debug, PartialEq, Eq, Structural)]
pub enum FactsError {
    /// The stored mean duration is no clock text.
    Parse(ParseError),
    /// The mean duration is zero, and nothing can be divided by it.
    DivideByZero,
}

/// The numeral of a number of hundredths, with two fraction digits.
pub open spec fn hundredths_text(hundredths: nat) -> Seq<char> {
    decimal(hundredths / 100).push('.') + two_digits(hundredths % 100)
}

/// The facts for a mean duration of `mean` seconds.
pub open spec fn facts_of(mean: nat) -> UnkownFactsView
    recommends
        mean > 0,
{
    UnkownFactsView {
        speed_of_light: hundredths_text(rounded_div(100 * SPEED_OF_LIGHT as nat, mean)),
        time_sun_earth: hundredths_text(
            rounded_div(100 * ASTRONOMICAL_UNIT as nat, SPEED_OF_LIGHT as nat * mean),
        ),
        closest_star: hundredths_text(rounded_div(CLOSEST_STAR_CENTISECONDS as nat, mean)),
    }
}

/// What deriving the facts from a stored mean duration gives.
pub open spec fn derived(mean_duration: Seq<char>) -> Result<UnkownFactsView, FactsError> {
    match clock_seconds(mean_duration) {
        Err(e) => Err(FactsError::Parse(e)),
        Ok(mean) => if mean == 0 {
            Err(FactsError::DivideByZero)
        } else {
            Ok(facts_of(mean as nat))
        },
    }
}

/// Deriving facts from the clock text of a mean gives the facts for that
/// mean, and fails for the mean zero: there is nothing to divide by.
pub proof fn lemma_derived_of_clock_text(mean: u64)
    ensures
        mean == 0 ==> derived(clock_text(mean as nat)) == Err::<UnkownFactsView, FactsError>(
            FactsError::DivideByZero,
        ),
        mean > 0 ==> derived(clock_text(mean as nat)) == Ok::<UnkownFactsView, FactsError>(
            facts_of(mean as nat),
        ),
{
    lemma_clock_round_trip(mean);
}

/// The numeral, with two fraction digits, of the `num / den` hundredths
/// rounded to a whole one.
fn quotient_text(num: u64, den: u128) -> (text: String)
    requires
        den > 0,
    ensures
        text@ == hundredths_text(rounded_div(num as nat, den as nat)),
{
    let hundredths: u128 = round_div(num as u128, den);
    assert(hundredths <= num + 1) by (nonlinear_arith)
        requires
            hundredths <= num as int / den as int + 1,
            den > 0,
            num >= 0,
    ;
    proof {
        reveal_strlit(".");
    }
    let mut text = String::new();
    append_decimal(&mut text, (hundredths / 100) as u64);
    text.append(".");
    append_two_digits(&mut text, (hundredths % 100) as u64);
    assert(text@ =~= hundredths_text(hundredths as nat));
    text
}

/// Derives the facts from the mean duration of the statistics.
///
/// The mean is read back from its clock text. Where that is no clock text
/// the error of reading it is handed on; where the mean is zero there is
/// nothing to divide by.
pub fn calculate_pirula_unkowns(stats: &Statistics) -> (facts: Result<UnkownFacts, FactsError>)
    ensures
        match derived(stats.mean_duration@) {
            Ok(view) => facts matches Ok(f) && f@ == view,
            Err(e) => facts == Err::<UnkownFacts, FactsError>(e),
        },
{
    let mean: u64 = match parse_duration(stats.mean_duration.as_str()) {
        Ok(seconds) => seconds,
        Err(e) => {
            return Err(FactsError::Parse(e));
        },
    };
    if mean == 0 {
        return Err(FactsError::DivideByZero);
    }
    Ok(
        UnkownFacts {
            speed_of_light: quotient_text(100 * SPEED_OF_LIGHT, mean as u128),
            time_sun_earth: quotient_text(100 * ASTRONOMICAL_UNIT, SPEED_OF_LIGHT as u128 * mean as u128),
            closest_star: quotient_text(CLOSEST_STAR_CENTISECONDS, mean as u128),
        },
    )
}

} // verus!

use pirula_time::duration::{format_duration, ParseError};
use pirula_time::facts::{calculate_pirula_unkowns, FactsError};
use pirula_time::stats::Statistics;

fn stats_with_mean(mean_duration: &str) -> Statistics {
    Statistics {
        mean_duration: mean_duration.to_string(),
        std_duration: "00:00:00".to_string(),
        total_duration: "00:00:00".to_string(),
        total_count: 1,
    }
}

#[test]
fn facts_for_a_mean_of_a_thousand_seconds() {
    let facts = calculate_pirula_unkowns(&stats_with_mean("00:16:40")).unwrap();
    assert_eq!(facts.speed_of_light, "299792.46");
    assert_eq!(facts.time_sun_earth, "0.50");
    assert_eq!(facts.closest_star, "133227.76");
}

#[test]
fn facts_for_a_mean_of_one_second() {
    let facts = calculate_pirula_unkowns(&stats_with_mean("00:00:01")).unwrap();
    assert_eq!(facts.speed_of_light, "299792458.00");
    assert_eq!(facts.time_sun_earth, "499.00");
    assert_eq!(facts.closest_star, "133227763.20");
}

#[test]
fn facts_for_a_mean_in_two_fields() {
    let facts = calculate_pirula_unkowns(&stats_with_mean("16:40")).unwrap();
    assert_eq!(facts.speed_of_light, "299792.46");
}

#[test]
fn facts_for_a_mean_of_zero_fail_with_divide_by_zero() {
    assert_eq!(
        calculate_pirula_unkowns(&stats_with_mean("00:00:00")).unwrap_err(),
        FactsError::DivideByZero
    );
}

#[test]
fn facts_for_a_mean_that_is_no_clock_text_fail_with_its_error() {
    assert_eq!(
        calculate_pirula_unkowns(&stats_with_mean("1:2:3:4")).unwrap_err(),
        FactsError::Parse(ParseError::InvalidFormat)
    );
    assert_eq!(
        calculate_pirula_unkowns(&stats_with_mean("xx:00:00")).unwrap_err(),
        FactsError::Parse(ParseError::InvalidNumber)
    );
    assert_eq!(
        calculate_pirula_unkowns(&stats_with_mean("5124095576030432:00:00")).unwrap_err(),
        FactsError::Parse(ParseError::OutOfRange)
    );
}

#[test]
fn a_quotient_half_way_between_two_hundredths_goes_to_the_even_one() {
    // 299792458 / 16 = 18737028.625
    let facts = calculate_pirula_unkowns(&stats_with_mean(&format_duration(16))).unwrap();
    assert_eq!(facts.speed_of_light, "18737028.62");
    // 299792458 / 80 = 3747405.725
    let facts = calculate_pirula_unkowns(&stats_with_mean(&format_duration(80))).unwrap();
    assert_eq!(facts.speed_of_light, "3747405.72");
    // 299792458 / 400 = 749481.145
    let facts = calculate_pirula_unkowns(&stats_with_mean(&format_duration(400))).unwrap();
    assert_eq!(facts.speed_of_light, "749481.14");
    // 13322776320 hundredths / 1024 = 13010523.75
    let facts = calculate_pirula_unkowns(&stats_with_mean(&format_duration(1024))).unwrap();
    assert_eq!(facts.closest_star, "130105.24");
}

#[test]
fn facts_for_the_largest_mean() {
    let facts = calculate_pirula_unkowns(&stats_with_mean(&format_duration(u64::MAX))).unwrap();
    assert_eq!(facts.speed_of_light, "0.00");
    assert_eq!(facts.time_sun_earth, "0.00");
    assert_eq!(facts.closest_star, "0.00");
}

#[test]
fn facts_agree_with_floating_point_on_ordinary_means() {
    let au = 149597870700.0f64;
    let c = 299792458.0f64;
    let star = 4.22f64 * (365.4 * 24.0 * 3600.0);
    for mean in [1u64, 2, 3, 7, 16, 59, 60, 61, 600, 754, 1000, 1234, 3600, 4321, 86400, 100000] {
        let facts = calculate_pirula_unkowns(&stats_with_mean(&format_duration(mean))).unwrap();
        assert_eq!(facts.speed_of_light, format!("{:.2}", c / mean as f64));
        assert_eq!(facts.time_sun_earth, format!("{:.2}", (au / c) / mean as f64));
        assert_eq!(facts.closest_star, format!("{:.2}", star / mean as f64));
    }
}

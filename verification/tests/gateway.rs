use countries::filter::{filter_countries, FilterField};
use countries::handler::{
    fetch_failure_body, fetch_failure_status, get_all_countries, get_country_deaths,
    get_country_recovered, query_error_body, query_error_status, FetchFailure,
};
use countries::model::{Country, CountryInfo, ListOptions, Threshold};
use countries::query::{parse_i32, parse_threshold, QueryError};

fn record(recovered: i32, deaths: i32) -> Country {
    Country {
        country: String::from("Testland"),
        country_info: CountryInfo {
            _id: Some(7),
            iso2: Some(String::from("TL")),
            iso3: Some(String::from("TLD")),
            lat: 12.5f32.to_bits(),
            long: (-3.25f32).to_bits(),
            flag: Some(String::from("https://example.test/flag.png")),
        },
        updated: 1_600_000_000_000,
        cases: 1000,
        today_cases: 10,
        deaths,
        today_deaths: 1,
        recovered,
        active: 100,
        critical: 5,
        cases_per_one_million: Some(123.75f32.to_bits()),
        deaths_per_one_million: None,
        tests: Some(5000),
        tests_per_one_million: None,
    }
}

fn sample() -> Vec<Country> {
    vec![record(100, 10), record(50, 5), record(200, 20)]
}

fn recovered_counts(v: &[Country]) -> Vec<i32> {
    v.iter().map(|c| c.recovered).collect()
}

#[test]
fn scenario_min_only() {
    let t = Threshold { min: Some(75), max: None };
    let out = filter_countries(&sample(), FilterField::Recovered, &t);
    assert_eq!(recovered_counts(&out), vec![100, 200]);
}

#[test]
fn scenario_max_only() {
    let t = Threshold { min: None, max: Some(75) };
    let out = filter_countries(&sample(), FilterField::Recovered, &t);
    assert_eq!(recovered_counts(&out), vec![50]);
}

#[test]
fn scenario_both_bounds() {
    let t = Threshold { min: Some(75), max: Some(150) };
    let out = filter_countries(&sample(), FilterField::Recovered, &t);
    assert_eq!(recovered_counts(&out), vec![100]);
}

#[test]
fn no_bounds_is_identity() {
    let t = Threshold { min: None, max: None };
    let input = sample();
    let out = filter_countries(&input, FilterField::Recovered, &t);
    assert_eq!(out, input);
}

#[test]
fn boundary_values_are_excluded() {
    let t = Threshold { min: Some(50), max: Some(200) };
    let out = filter_countries(&sample(), FilterField::Recovered, &t);
    // 50 equals min and 200 equals max: both excluded, strictly.
    assert_eq!(recovered_counts(&out), vec![100]);
}

#[test]
fn inverted_range_yields_empty() {
    let t = Threshold { min: Some(150), max: Some(75) };
    let out = filter_countries(&sample(), FilterField::Recovered, &t);
    assert!(out.is_empty());
}

#[test]
fn filters_on_deaths_field() {
    let t = Threshold { min: Some(7), max: None };
    let out = filter_countries(&sample(), FilterField::Deaths, &t);
    let deaths: Vec<i32> = out.iter().map(|c| c.deaths).collect();
    assert_eq!(deaths, vec![10, 20]);
}

#[test]
fn filtering_twice_equals_once() {
    let t = Threshold { min: Some(60), max: Some(250) };
    let once = filter_countries(&sample(), FilterField::Recovered, &t);
    let twice = filter_countries(&once, FilterField::Recovered, &t);
    assert_eq!(twice, once);
}

#[test]
fn widening_never_shrinks_the_result() {
    let narrow = Threshold { min: Some(75), max: Some(150) };
    let wide = Threshold { min: Some(40), max: None };
    let small = filter_countries(&sample(), FilterField::Recovered, &narrow);
    let large = filter_countries(&sample(), FilterField::Recovered, &wide);
    assert!(small.len() <= large.len());
    for c in &small {
        assert!(large.contains(c));
    }
}

#[test]
fn filter_keeps_records_intact() {
    let t = Threshold { min: Some(75), max: Some(150) };
    let out = filter_countries(&sample(), FilterField::Recovered, &t);
    assert_eq!(out.len(), 1);
    assert_eq!(out[0], record(100, 10));
    assert_eq!(f32::from_bits(out[0].country_info.lat), 12.5f32);
    assert_eq!(
        out[0].cases_per_one_million.map(f32::from_bits),
        Some(123.75f32)
    );
}

#[test]
fn parse_plain_integers() {
    assert_eq!(parse_i32(b"123"), Some(123));
    assert_eq!(parse_i32(b"0"), Some(0));
    assert_eq!(parse_i32(b"-123"), Some(-123));
    assert_eq!(parse_i32(b"+7"), Some(7));
    assert_eq!(parse_i32(b"007"), Some(7));
}

#[test]
fn parse_rejects_malformed() {
    assert_eq!(parse_i32(b"abc"), None);
    assert_eq!(parse_i32(b""), None);
    assert_eq!(parse_i32(b"-"), None);
    assert_eq!(parse_i32(b"+"), None);
    assert_eq!(parse_i32(b"12a"), None);
    assert_eq!(parse_i32(b" 12"), None);
    assert_eq!(parse_i32(b"1.5"), None);
    assert_eq!(parse_i32(b"--5"), None);
}

#[test]
fn parse_respects_i32_range() {
    assert_eq!(parse_i32(b"2147483647"), Some(i32::MAX));
    assert_eq!(parse_i32(b"2147483648"), None);
    assert_eq!(parse_i32(b"-2147483648"), Some(i32::MIN));
    assert_eq!(parse_i32(b"-2147483649"), None);
    assert_eq!(parse_i32(b"99999999999999999999"), None);
}

#[test]
fn threshold_from_well_formed_params() {
    let t = parse_threshold(Some(b"75".as_slice()), Some(b"150".as_slice())).unwrap();
    assert_eq!(t, Threshold { min: Some(75), max: Some(150) });
    let t = parse_threshold(None, Some(b"-5".as_slice())).unwrap();
    assert_eq!(t, Threshold { min: None, max: Some(-5) });
    let t = parse_threshold(None, None).unwrap();
    assert_eq!(t, Threshold { min: None, max: None });
}

#[test]
fn malformed_param_is_client_error() {
    let err = parse_threshold(Some(b"abc".as_slice()), None).unwrap_err();
    assert_eq!(err, QueryError::MalformedParam);
    let status = query_error_status(&err);
    assert!((400..500).contains(&status));
    assert_eq!(query_error_body(&err), "invalid query parameter");
}

#[test]
fn all_countries_passes_records_through() {
    let out = get_all_countries(Ok(sample())).unwrap();
    assert_eq!(out, sample());
}

#[test]
fn recovered_handler_filters() {
    let t = Threshold { min: Some(75), max: None };
    let out = get_country_recovered(Ok(sample()), &t).unwrap();
    assert_eq!(recovered_counts(&out), vec![100, 200]);
}

#[test]
fn deaths_handler_filters() {
    let t = Threshold { min: None, max: Some(15) };
    let out = get_country_deaths(Ok(sample()), &t).unwrap();
    let deaths: Vec<i32> = out.iter().map(|c| c.deaths).collect();
    assert_eq!(deaths, vec![10, 5]);
}

#[test]
fn upstream_failure_is_opaque_server_error() {
    let t = Threshold { min: Some(75), max: None };
    for cause in [FetchFailure::Transport, FetchFailure::Decode, FetchFailure::Timeout] {
        let err = get_country_recovered(Err(cause), &t).unwrap_err();
        assert_eq!(err, cause);
        let status = fetch_failure_status(&err);
        assert!((500..600).contains(&status));
        // The body is fixed text, independent of the cause: nothing
        // upstream-internal can leak through it.
        assert_eq!(fetch_failure_body(&err), "upstream fetch failed");
    }
    let err = get_all_countries(Err(FetchFailure::Transport)).unwrap_err();
    assert_eq!(fetch_failure_status(&err), 500);
}

#[test]
fn threshold_accepts_matches_bounds() {
    let t = Threshold { min: Some(10), max: Some(20) };
    assert!(!t.accepts(10));
    assert!(t.accepts(11));
    assert!(t.accepts(19));
    assert!(!t.accepts(20));
    assert!(!t.accepts(5));
}

#[test]
fn list_options_holds_query_shape() {
    let opts = ListOptions {
        recovered: Some(3),
        deaths: Some(Threshold { min: Some(1), max: None }),
    };
    assert_eq!(opts.recovered, Some(3));
    assert_eq!(opts.deaths.unwrap().min, Some(1));
}

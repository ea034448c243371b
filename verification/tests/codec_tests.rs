use analytics::codec::{
    extract_hours, extract_minutes, extract_ms, extract_seconds, parse_moment_duration,
    serialize_duration,
};
use analytics::Error;

/// Every canonical token must survive a decode/encode round trip
/// unchanged.
#[test]
fn test_random_durations() {
    let durations = [
        "P0D",
        "PT0H0M0.1S",
        "PT0H0M0.10S",
        "PT0H0M0.999S",
        "PT0H0M1.0S",
        "PT0H0M1.1S",
        "PT0H0M59.999S",
        "PT0H1M0.0S",
        "PT0H1M0.500S",
        "PT0H5M1.0S",
        "PT0H59M59.999S",
        "PT1H0M0.0S",
        "PT1H2M3.4S",
        "PT1H2M3.40S",
        "PT1H2M3.400S",
        "PT12H34M56.789S",
        "PT23H59M59.999S",
        "PT24H0M0.0S",
        "PT100H0M0.1S",
        "PT8760H0M0.0S",
        "PT123456H39M54.321S",
        "PT2562047788015H12M55.807S",
    ];
    for (i, duration) in durations.iter().enumerate() {
        println!("{}. testing: {}", i, duration);
        let val = parse_moment_duration(duration).unwrap();
        let revert = serialize_duration(val).unwrap();
        assert_eq!((i, *duration), (i, revert.as_str()));
    }
}

/// Decoding what the encoder produced yields the count that produced it.
#[test]
fn round_trip_counts() {
    let counts: [i64; 14] = [
        0,
        1,
        999,
        1000,
        1001,
        59_999,
        60_000,
        61_001,
        3_599_999,
        3_600_000,
        3_723_004,
        86_400_000,
        123_456_789_012,
        i64::MAX,
    ];
    for &m in counts.iter() {
        let token = serialize_duration(m).unwrap();
        assert_eq!(parse_moment_duration(token.as_str()).unwrap(), m);
    }
}

/// Re-encoding the count a token decodes to reproduces the token.
#[test]
fn reencode_idempotent() {
    let counts: [i64; 6] = [0, 1, 999, 3_723_004, 86_400_000, i64::MAX];
    for &m in counts.iter() {
        let token = serialize_duration(m).unwrap();
        let val = parse_moment_duration(token.as_str()).unwrap();
        let again = serialize_duration(val).unwrap();
        assert_eq!(token, again);
    }
}

#[test]
fn zero_canonicalization() {
    assert_eq!(parse_moment_duration("P0D"), Ok(0));
    assert_eq!(serialize_duration(0).unwrap().as_str(), "P0D");
}

#[test]
fn boundary_consumption() {
    assert_eq!(
        parse_moment_duration("PT1H2M3.004S"),
        Ok(1 * 3_600_000 + 2 * 60_000 + 3_000 + 4)
    );
    assert_eq!(parse_moment_duration("PT1H2M3.004S"), Ok(3_723_004));
}

#[test]
fn omitted_segments() {
    assert_eq!(parse_moment_duration("PT5M1.000S"), Ok(5 * 60_000 + 1_000));
    assert_eq!(parse_moment_duration("PT5M1.000S"), Ok(301_000));
    // seconds only, without the time designator
    assert_eq!(parse_moment_duration("P0.5S"), Ok(5));
}

#[test]
fn segment_ordering_rejection() {
    assert!(parse_moment_duration("PT2M1H0.000S").is_err());
    assert!(parse_moment_duration("PT1M2H3.004S").is_err());
}

#[test]
fn malformed_suffix_rejection() {
    assert_eq!(parse_moment_duration("PT5M"), Err(Error::MalformedSuffix));
    assert_eq!(parse_moment_duration("P"), Err(Error::MalformedSuffix));
}

#[test]
fn malformed_prefix_rejection() {
    assert_eq!(parse_moment_duration(""), Err(Error::MalformedPrefix));
    assert_eq!(parse_moment_duration("T1H2M3.004S"), Err(Error::MalformedPrefix));
    assert_eq!(parse_moment_duration("X0D"), Err(Error::MalformedPrefix));
}

#[test]
fn non_numeric_segment_rejection() {
    assert_eq!(parse_moment_duration("PTxH0M0.000S"), Err(Error::NonNumericSegment));
    assert_eq!(parse_moment_duration("PT1H2M3.S"), Err(Error::NonNumericSegment));
    assert_eq!(parse_moment_duration("PT-1H0M0.0S"), Err(Error::NonNumericSegment));
}

#[test]
fn overflow_rejection() {
    // a single segment beyond the signed 64-bit range
    assert_eq!(
        parse_moment_duration("PT9999999999999999999H0M0.0S"),
        Err(Error::Overflow)
    );
    // beyond even the unsigned 64-bit range
    assert_eq!(
        parse_moment_duration("PT999999999999999999999H0M0.0S"),
        Err(Error::Overflow)
    );
    // one millisecond past the largest representable total
    assert_eq!(parse_moment_duration("PT2562047788015H12M55.807S"), Ok(i64::MAX));
    assert_eq!(
        parse_moment_duration("PT2562047788015H12M55.808S"),
        Err(Error::Overflow)
    );
}

#[test]
fn negative_duration_rejection() {
    assert_eq!(serialize_duration(-1), Err(Error::NegativeDuration));
    assert_eq!(serialize_duration(i64::MIN), Err(Error::NegativeDuration));
}

/// The decoder accepts a superset of the encoder's output: padded
/// millisecond sections and unconsumed leading text.
#[test]
fn lenient_decoding() {
    assert_eq!(parse_moment_duration("PT0H0M0.001S"), Ok(1));
    assert_eq!(parse_moment_duration("PT0H0M3.004S"), Ok(3_004));
    // a seconds value without a closing boundary is never scanned
    assert_eq!(parse_moment_duration("P1.5S"), Ok(5));
    // all segments omitted
    assert_eq!(parse_moment_duration("PS"), Ok(0));
    // with minutes omitted, the hour tag closes the seconds scan and the
    // hour count is read back one unit lower, as the boundary sets demand
    assert_eq!(parse_moment_duration("PT2H0.0S"), Ok(120_000));
}

/// Each extraction step consumes exactly its trailing segment, boundary
/// included, and hands the shortened remainder on.
#[test]
fn extraction_pipeline() {
    let (ms, rest) = extract_ms("T1H2M3.004S").unwrap();
    assert_eq!(ms, 4);
    assert_eq!(rest, "T1H2M3");
    let (sec, rest) = extract_seconds(rest).unwrap();
    assert_eq!(sec, 3_000);
    assert_eq!(rest, "T1H2");
    let (min, rest) = extract_minutes(rest).unwrap();
    assert_eq!(min, 120_000);
    assert_eq!(rest, "T1");
    let (hrs, rest) = extract_hours(rest).unwrap();
    assert_eq!(hrs, 3_600_000);
    assert_eq!(rest, "");
}

#[test]
fn extraction_without_boundary_consumes_nothing() {
    // no boundary character: the contribution is zero and nothing beyond
    // the seconds tag is consumed
    let (ms, rest) = extract_ms("5S").unwrap();
    assert_eq!(ms, 0);
    assert_eq!(rest, "5");
    let (sec, rest) = extract_seconds("17").unwrap();
    assert_eq!(sec, 0);
    assert_eq!(rest, "17");
}

use weather_query::dec::{parse_dec, format_one_decimal, dec_to_string, Dec};
use weather_query::geocode::{parse_geocoding, Coordinate, GeoError};
use weather_query::json::parse_json_bytes;
use weather_query::sanitize::{sanitize, HttpReply};
use weather_query::weather::{parse_weather, WeatherError};

fn dec(neg: bool, mant: u64, scale: u32) -> Dec {
    Dec { neg, mant, scale }
}

#[test]
fn dec_parses_plain_decimals() {
    assert_eq!(parse_dec(b"51.5"), Some(dec(false, 515, 1)));
    assert_eq!(parse_dec(b"-0.12"), Some(dec(true, 12, 2)));
    assert_eq!(parse_dec(b"+3.5"), Some(dec(false, 35, 1)));
    assert_eq!(parse_dec(b"0"), Some(dec(false, 0, 0)));
    assert_eq!(parse_dec(b"7"), Some(dec(false, 7, 0)));
    assert_eq!(parse_dec(b"5."), Some(dec(false, 5, 0)));
    assert_eq!(parse_dec(b".5"), Some(dec(false, 5, 1)));
}

#[test]
fn dec_normalizes_trailing_zeros() {
    assert_eq!(parse_dec(b"51.50"), Some(dec(false, 515, 1)));
    assert_eq!(parse_dec(b"1.000"), Some(dec(false, 1, 0)));
    assert_eq!(parse_dec(b"-0.0"), Some(dec(true, 0, 0)));
}

#[test]
fn dec_rejects_malformed_tokens() {
    assert_eq!(parse_dec(b""), None);
    assert_eq!(parse_dec(b"-"), None);
    assert_eq!(parse_dec(b"."), None);
    assert_eq!(parse_dec(b"1.2.3"), None);
    assert_eq!(parse_dec(b"abc"), None);
    assert_eq!(parse_dec(b"1e5"), None);
    assert_eq!(parse_dec(b" 1"), None);
    assert_eq!(parse_dec(b"1 "), None);
}

#[test]
fn dec_rejects_out_of_range_tokens() {
    // 18 digits reach the mantissa bound
    assert_eq!(parse_dec(b"100000000000000000"), None);
    assert_eq!(parse_dec(b"99999999999999999"), Some(dec(false, 99999999999999999, 0)));
    // more than 17 fractional digits
    assert_eq!(parse_dec(b"0.000000000000000001"), None);
}

#[test]
fn dec_formats_to_one_decimal_place() {
    assert_eq!(format_one_decimal(dec(false, 214, 1)), "21.4");
    assert_eq!(format_one_decimal(dec(false, 2146, 2)), "21.5"); // rounds half away
    assert_eq!(format_one_decimal(dec(false, 2144, 2)), "21.4");
    assert_eq!(format_one_decimal(dec(false, 63, 0)), "63.0");
    assert_eq!(format_one_decimal(dec(true, 4, 2)), "-0.0");
    assert_eq!(format_one_decimal(dec(true, 35, 1)), "-3.5");
}

#[test]
fn dec_plain_display() {
    assert_eq!(dec_to_string(dec(false, 515, 1)), "51.5");
    assert_eq!(dec_to_string(dec(true, 12, 2)), "-0.12");
    assert_eq!(dec_to_string(dec(false, 7, 0)), "7");
    assert_eq!(dec_to_string(dec(false, 12, 3)), "0.012");
}

#[test]
fn json_accepts_standard_documents() {
    assert!(parse_json_bytes(b"null").is_some());
    assert!(parse_json_bytes(b"  [1, 2.5, -3e2, \"a\\nb\", {\"k\": true}, [] ]  ").is_some());
    assert!(parse_json_bytes(b"{\"a\": {\"b\": [false, null]}}").is_some());
    assert!(parse_json_bytes(b"\"\\u00e9\\\"\"").is_some());
}

#[test]
fn json_rejects_malformed_documents() {
    assert!(parse_json_bytes(b"").is_none());
    assert!(parse_json_bytes(b"[1,]").is_none());
    assert!(parse_json_bytes(b"{\"a\":}").is_none());
    assert!(parse_json_bytes(b"01").is_none());
    assert!(parse_json_bytes(b"1 2").is_none());
    assert!(parse_json_bytes(b"\"unterminated").is_none());
    assert!(parse_json_bytes(b"\"bad \\x escape\"").is_none());
    assert!(parse_json_bytes(b"nul").is_none());
}

#[test]
fn json_rejects_overdeep_nesting() {
    let mut deep = Vec::new();
    for _ in 0..200 {
        deep.push(b'[');
    }
    deep.push(b'0');
    for _ in 0..200 {
        deep.push(b']');
    }
    assert!(parse_json_bytes(&deep).is_none());
}

#[test]
fn json_agrees_with_serde_json_on_samples() {
    let samples: [&str; 6] = [
        "[{\"lat\":\"51.5\",\"lon\":\"-0.12\"}]",
        "{\"current\":{\"temperature_2m\":21.4}}",
        "[1,2,",
        "{\"a\" : [true, null, 1.5e-3]}",
        "[\"\\u00e9 caf\\u00e9\"]",
        "{} {}",
    ];
    for s in samples {
        let mine = parse_json_bytes(s.as_bytes()).is_some();
        let serde = serde_json::from_str::<serde_json::Value>(s).is_ok();
        assert_eq!(mine, serde, "disagreement on {s}");
    }
}

#[test]
fn geocoding_fixture_resolves() {
    let body = b"[{\"place_id\":12345,\"lat\":\"51.5074456\",\"lon\":\"-0.1277653\",\"display_name\":\"London, England\"}]";
    assert_eq!(
        parse_geocoding(body),
        Ok(Coordinate { latitude: dec(false, 515074456, 7), longitude: dec(true, 1277653, 7) })
    );
}

#[test]
fn geocoding_later_duplicate_key_wins() {
    let body = b"[{\"lat\":\"1.0\",\"lat\":\"2.5\",\"lon\":\"3\"}]";
    assert_eq!(
        parse_geocoding(body),
        Ok(Coordinate { latitude: dec(false, 25, 1), longitude: dec(false, 3, 0) })
    );
}

#[test]
fn geocoding_error_cases() {
    assert_eq!(parse_geocoding(&[0xff, 0xfe]), Err(GeoError::Encoding));
    assert_eq!(parse_geocoding(b"not json"), Err(GeoError::Json));
    assert_eq!(parse_geocoding(b"{\"a\":1}"), Err(GeoError::Shape));
    assert_eq!(parse_geocoding(b"[]"), Err(GeoError::NoResults));
    assert_eq!(parse_geocoding(b"[{\"lon\":\"1\"}]"), Err(GeoError::CoordinateParse));
    assert_eq!(
        parse_geocoding(b"[{\"lat\":1.5,\"lon\":\"1\"}]"),
        Err(GeoError::CoordinateParse)
    );
    assert_eq!(
        parse_geocoding(b"[{\"lat\":\"abc\",\"lon\":\"1\"}]"),
        Err(GeoError::CoordinateParse)
    );
}

#[test]
fn weather_fixture_reads_both_metrics() {
    let body = b"{\"latitude\":51.5,\"timezone\":\"Europe/London\",\"current\":{\"time\":\"2024-05-01T12:00\",\"interval\":900,\"temperature_2m\":21.4,\"relative_humidity_2m\":63}}";
    let doc = parse_weather(body).unwrap();
    assert_eq!(doc.temperature, Some(dec(false, 214, 1)));
    assert_eq!(doc.humidity, Some(dec(false, 63, 0)));
}

#[test]
fn weather_error_cases() {
    assert_eq!(parse_weather(&[0xc3, 0x28]).unwrap_err(), WeatherError::Encoding);
    assert_eq!(parse_weather(b"{\"current\":").unwrap_err(), WeatherError::Json);
}

#[test]
fn weather_missing_metric_is_not_an_error() {
    let body = b"{\"current\":{\"temperature_2m\":21.4}}";
    let doc = parse_weather(body).unwrap();
    assert_eq!(doc.temperature, Some(dec(false, 214, 1)));
    assert_eq!(doc.humidity, None);
    let empty = parse_weather(b"[1,2]").unwrap();
    assert_eq!(empty.temperature, None);
    assert_eq!(empty.humidity, None);
}

#[test]
fn sanitizer_replaces_headers_and_keeps_body() {
    let raw = HttpReply {
        status: 200,
        headers: Vec::new(),
        body: b"payload".to_vec(),
    };
    let (out, diag) = sanitize(&raw);
    assert_eq!(out.status, 200);
    assert_eq!(out.body, b"payload".to_vec());
    assert!(diag.is_none());
    let expected: [(&str, &str); 6] = [
        ("Content-Security-Policy", "default-src 'self'"),
        ("Referrer-Policy", "strict-origin"),
        ("Permissions-Policy", "geolocation=(self)"),
        ("Strict-Transport-Security", "max-age=63072000"),
        ("X-Frame-Options", "DENY"),
        ("X-Content-Type-Options", "nosniff"),
    ];
    assert_eq!(out.headers.len(), 6);
    for (h, (n, v)) in out.headers.iter().zip(expected.iter()) {
        assert_eq!(h.name, *n);
        assert_eq!(h.value, *v);
    }
}

#[test]
fn sanitizer_logs_but_does_not_alter_non_200() {
    let ok = HttpReply { status: 200, headers: Vec::new(), body: b"same".to_vec() };
    let bad = HttpReply { status: 500, headers: Vec::new(), body: b"same".to_vec() };
    let (out_ok, diag_ok) = sanitize(&ok);
    let (out_bad, diag_bad) = sanitize(&bad);
    assert_eq!(out_ok.body, out_bad.body);
    assert_eq!(out_ok.headers.len(), out_bad.headers.len());
    for (a, b) in out_ok.headers.iter().zip(out_bad.headers.iter()) {
        assert_eq!(a.name, b.name);
        assert_eq!(a.value, b.value);
    }
    assert!(diag_ok.is_none());
    // "same" is the bytes 115, 97, 109, 101
    assert_eq!(
        diag_bad.unwrap(),
        "Received an error from Open-Meteo: status = 500, body = [115, 97, 109, 101]"
    );
}

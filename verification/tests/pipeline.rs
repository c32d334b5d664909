use weather_query::dec::Dec;
use weather_query::geocode::Coordinate;
use weather_query::orchestrate::{
    on_outcome, start_city_query, start_coordinate_query, Action, Metric, Outcome, Step,
};

const GEO_BODY: &[u8] =
    b"[{\"place_id\":12345,\"lat\":\"51.5074456\",\"lon\":\"-0.1277653\",\"display_name\":\"London, England\"}]";
const WEATHER_BODY: &[u8] =
    b"{\"current\":{\"time\":\"2024-05-01T12:00\",\"temperature_2m\":21.4,\"relative_humidity_2m\":63}}";

fn response(body: &[u8]) -> Outcome {
    Outcome::Response { status: 200, body: body.to_vec() }
}

fn issued_url(action: &Action) -> String {
    match action {
        Action::Issue(req) => req.url.clone(),
        Action::Reply(m) => panic!("expected a request, got reply {m:?}"),
    }
}

fn replied(action: &Action) -> String {
    match action {
        Action::Reply(m) => m.clone(),
        Action::Issue(req) => panic!("expected a reply, got request to {}", req.url),
    }
}

#[test]
fn city_temperature_full_pipeline() {
    let (step, action) = start_city_query(Metric::Temperature, "London".to_string());
    assert_eq!(
        issued_url(&action),
        "https://nominatim.openstreetmap.org/search?q=London&format=json&limit=1"
    );
    match &action {
        Action::Issue(req) => {
            assert_eq!(req.headers.len(), 1);
            assert_eq!(req.headers[0].name, "User-Agent");
            assert_eq!(req.headers[0].value, "weather_canister");
        }
        Action::Reply(_) => panic!("expected a request"),
    }
    let (step, action) = on_outcome(step, response(GEO_BODY));
    assert_eq!(
        issued_url(&action),
        "https://api.open-meteo.com/v1/forecast?latitude=51.5074456&longitude=-0.1277653&current=temperature_2m,relative_humidity_2m&timezone=auto"
    );
    let (step, action) = on_outcome(step, response(WEATHER_BODY));
    assert!(matches!(step, Step::Finished));
    assert_eq!(replied(&action), "Temperature in London: 21.4°C");
}

#[test]
fn city_humidity_full_pipeline() {
    let (step, _) = start_city_query(Metric::Humidity, "London".to_string());
    let (step, _) = on_outcome(step, response(GEO_BODY));
    let (_, action) = on_outcome(step, response(WEATHER_BODY));
    assert_eq!(replied(&action), "Humidity in London: 63.0%");
}

#[test]
fn empty_geocoding_stops_without_weather_call() {
    let (step, _) = start_city_query(Metric::Temperature, "Nowhereville".to_string());
    let (step, action) = on_outcome(step, response(b"[]"));
    // the reply is final: no forecast request is ever issued
    assert!(matches!(step, Step::Finished));
    assert_eq!(replied(&action), "No results found for this city");
}

#[test]
fn missing_humidity_yields_fixed_message() {
    let (step, _) = start_city_query(Metric::Humidity, "London".to_string());
    let (step, _) = on_outcome(step, response(GEO_BODY));
    let (_, action) = on_outcome(
        step,
        response(b"{\"current\":{\"temperature_2m\":21.4}}"),
    );
    assert_eq!(replied(&action), "Failed to get humidity data");
}

#[test]
fn missing_temperature_yields_fixed_message() {
    let (step, _) = start_city_query(Metric::Temperature, "London".to_string());
    let (step, _) = on_outcome(step, response(GEO_BODY));
    let (_, action) = on_outcome(step, response(b"{}"));
    assert_eq!(replied(&action), "Failed to get temperature data");
}

#[test]
fn coordinate_query_skips_geocoding() {
    let c = Coordinate {
        latitude: Dec { neg: false, mant: 515, scale: 1 },
        longitude: Dec { neg: true, mant: 12, scale: 2 },
    };
    let (step, action) = start_coordinate_query(c);
    // the one and only request is the forecast request: zero geocoding calls
    let url = issued_url(&action);
    assert_eq!(
        url,
        "https://api.open-meteo.com/v1/forecast?latitude=51.5&longitude=-0.12&current=temperature_2m,relative_humidity_2m&timezone=auto"
    );
    let (step, action) = on_outcome(
        step,
        response(b"{\"current\":{\"temperature_2m\":11.37}}"),
    );
    assert!(matches!(step, Step::Finished));
    assert_eq!(replied(&action), "Temperature at (51.5, -0.12): 11.4°C");
}

#[test]
fn round_trip_city_and_direct_paths_agree() {
    // resolve the city, note the forecast request the city path issues
    let (step, _) = start_city_query(Metric::Temperature, "London".to_string());
    let (step, city_action) = on_outcome(step, response(GEO_BODY));
    let city_weather_url = issued_url(&city_action);

    // feed the geocoder's coordinate straight into the weather fetcher
    let c = Coordinate {
        latitude: Dec { neg: false, mant: 515074456, scale: 7 },
        longitude: Dec { neg: true, mant: 1277653, scale: 7 },
    };
    let (direct_step, direct_action) = start_coordinate_query(c);
    assert_eq!(city_weather_url, issued_url(&direct_action));

    // one forecast reply gives both paths the same temperature reading
    let (_, city_reply) = on_outcome(step, response(WEATHER_BODY));
    let (_, direct_reply) = on_outcome(direct_step, response(WEATHER_BODY));
    let city_text = replied(&city_reply);
    let direct_text = replied(&direct_reply);
    assert_eq!(city_text, "Temperature in London: 21.4°C");
    assert_eq!(
        direct_text,
        "Temperature at (51.5074456, -0.1277653): 21.4°C"
    );
    assert!(city_text.ends_with("21.4°C") && direct_text.ends_with("21.4°C"));
}

#[test]
fn transport_failures_are_reported_verbatim() {
    let (step, _) = start_city_query(Metric::Temperature, "London".to_string());
    let failure = Outcome::Failure {
        kind: "SysTransient".to_string(),
        message: "connection reset".to_string(),
    };
    let (step, action) = on_outcome(step, failure);
    assert!(matches!(step, Step::Finished));
    assert_eq!(
        replied(&action),
        "Geocoding API error: SysTransient, connection reset"
    );

    let c = Coordinate {
        latitude: Dec { neg: false, mant: 515, scale: 1 },
        longitude: Dec { neg: false, mant: 0, scale: 0 },
    };
    let (step, _) = start_coordinate_query(c);
    let failure = Outcome::Failure {
        kind: "SysFatal".to_string(),
        message: "no route".to_string(),
    };
    let (_, action) = on_outcome(step, failure);
    assert_eq!(replied(&action), "Weather API error: SysFatal, no route");
}

#[test]
fn upstream_parse_errors_become_replies() {
    let (step, _) = start_city_query(Metric::Temperature, "London".to_string());
    let (_, action) = on_outcome(step, response(&[0xff, 0xfe]));
    assert_eq!(replied(&action), "Transformed response is not UTF-8 encoded.");

    let (step, _) = start_city_query(Metric::Temperature, "London".to_string());
    let (_, action) = on_outcome(step, response(b"oops"));
    assert_eq!(replied(&action), "Failed to parse JSON response");

    let (step, _) = start_city_query(Metric::Temperature, "London".to_string());
    let (_, action) = on_outcome(step, response(b"{\"a\":1}"));
    assert_eq!(replied(&action), "Failed to parse geocoding response");

    let (step, _) = start_city_query(Metric::Temperature, "London".to_string());
    let (_, action) = on_outcome(step, response(b"[{\"lat\":\"x\",\"lon\":\"1\"}]"));
    assert_eq!(replied(&action), "Failed to parse coordinates");
}

//! The query orchestrator.
//!
//! A query is a linear pipeline: resolve the city to a coordinate, fetch
//! the forecast for it, extract one metric, render one reply string. The
//! HTTP calls themselves are outside work, so the pipeline is a state
//! machine: [`start_city_query`] or [`start_coordinate_query`] yields the
//! first request to issue, and [`on_outcome`] consumes what came back and
//! says what to do next — issue the forecast request or reply. Failure at
//! any stage short-circuits the rest; the upstream status code plays no
//! part in the pipeline, only the body does.
//!
//! [`next_step`] is the machine's exact transition function; every law of
//! the pipeline is stated and proved over it.

use crate::dec::{dec_display, dec_fmt1, dec_to_string, format_one_decimal, Dec};
use crate::geocode::{coordinate_wf, geocode_of, parse_geocoding, Coordinate, GeoError};
use crate::sanitize::{header, headers_model, Header};
use crate::weather::{parse_weather, weather_of, WeatherDoc, WeatherError};
use vstd::prelude::*;
use vstd::string::StringExecFns;

verus! {

/// Which metric a city query asks for.
#[derive(Clone, Copy, PartialEq, Eq, Structural, Debug)]
pub enum Metric {
    Temperature,
    Humidity,
}

/// What the final reply is rendered for.
pub enum Target {
    City { metric: Metric, city: String },
    Position { coordinate: Coordinate },
}

/// Where a query stands: waiting for the geocoding reply, waiting for the
/// forecast reply, or done.
pub enum Step {
    AwaitGeocode { metric: Metric, city: String },
    AwaitWeather { target: Target },
    Finished,
}

/// An outbound GET request: its URL and its headers.
pub struct RequestSpec {
    pub url: String,
    pub headers: Vec<Header>,
}

/// What the caller must do next: perform the request, or hand the reply
/// to the user.
pub enum Action {
    Issue(RequestSpec),
    Reply(String),
}

/// What an outbound call produced: a response body (with its status), or
/// a transport-level failure described by the client.
pub enum Outcome {
    Response { status: u16, body: Vec<u8> },
    Failure { kind: String, message: String },
}

/// Mathematical shape of a [`Target`].
pub enum TargetV {
    CityV { metric: Metric, city: Seq<char> },
    PositionV { coordinate: Coordinate },
}

/// Mathematical shape of a [`Step`].
pub enum StepV {
    AwaitGeocodeV { metric: Metric, city: Seq<char> },
    AwaitWeatherV { target: TargetV },
    FinishedV,
}

/// Mathematical shape of an [`Action`].
pub enum ActionV {
    IssueV { url: Seq<char>, headers: Seq<(Seq<char>, Seq<char>)> },
    ReplyV(Seq<char>),
}

/// Mathematical shape of an [`Outcome`].
pub enum OutcomeV {
    ResponseV { status: u16, body: Seq<u8> },
    FailureV { kind: Seq<char>, message: Seq<char> },
}

pub open spec fn target_model(t: Target) -> TargetV {
    match t {
        Target::City { metric, city } => TargetV::CityV { metric, city: city@ },
        Target::Position { coordinate } => TargetV::PositionV { coordinate },
    }
}

pub open spec fn step_model(s: Step) -> StepV {
    match s {
        Step::AwaitGeocode { metric, city } => StepV::AwaitGeocodeV { metric, city: city@ },
        Step::AwaitWeather { target } => StepV::AwaitWeatherV { target: target_model(target) },
        Step::Finished => StepV::FinishedV,
    }
}

pub open spec fn action_model(a: Action) -> ActionV {
    match a {
        Action::Issue(req) => ActionV::IssueV { url: req.url@, headers: headers_model(req.headers@) },
        Action::Reply(m) => ActionV::ReplyV(m@),
    }
}

pub open spec fn outcome_model(o: Outcome) -> OutcomeV {
    match o {
        Outcome::Response { status, body } => OutcomeV::ResponseV { status, body: body@ },
        Outcome::Failure { kind, message } => OutcomeV::FailureV { kind: kind@, message: message@ },
    }
}

/// Any coordinate a step carries is bounded and normalized.
pub open spec fn target_wf(t: Target) -> bool {
    match t {
        Target::City { .. } => true,
        Target::Position { coordinate } => coordinate_wf(coordinate),
    }
}

pub open spec fn step_wf(s: Step) -> bool {
    match s {
        Step::AwaitWeather { target } => target_wf(target),
        _ => true,
    }
}

/// The geocoding request's URL for a place name.
pub open spec fn geocoding_url(city: Seq<char>) -> Seq<char> {
    "https://nominatim.openstreetmap.org/search?q="@ + city + "&format=json&limit=1"@
}

/// The forecast request's URL for a coordinate.
pub open spec fn weather_url(c: Coordinate) -> Seq<char> {
    "https://api.open-meteo.com/v1/forecast?latitude="@ + dec_display(c.latitude) + "&longitude="@
        + dec_display(c.longitude) + "&current=temperature_2m,relative_humidity_2m&timezone=auto"@
}

/// Both outbound requests identify this service, as the upstream services
/// require of their clients.
pub open spec fn user_agent_headers() -> Seq<(Seq<char>, Seq<char>)> {
    seq![("User-Agent"@, "weather_canister"@)]
}

pub open spec fn temperature_message(city: Seq<char>, t: Dec) -> Seq<char> {
    "Temperature in "@ + city + ": "@ + dec_fmt1(t) + "°C"@
}

pub open spec fn humidity_message(city: Seq<char>, h: Dec) -> Seq<char> {
    "Humidity in "@ + city + ": "@ + dec_fmt1(h) + "%"@
}

pub open spec fn position_message(c: Coordinate, t: Dec) -> Seq<char> {
    "Temperature at ("@ + dec_display(c.latitude) + ", "@ + dec_display(c.longitude) + "): "@
        + dec_fmt1(t) + "°C"@
}

/// The fixed reply when the forecast document lacks the asked-for metric.
pub open spec fn missing_message(metric: Metric) -> Seq<char> {
    match metric {
        Metric::Temperature => "Failed to get temperature data"@,
        Metric::Humidity => "Failed to get humidity data"@,
    }
}

pub open spec fn geo_error_message(e: GeoError) -> Seq<char> {
    match e {
        GeoError::Encoding => "Transformed response is not UTF-8 encoded."@,
        GeoError::Json => "Failed to parse JSON response"@,
        GeoError::Shape => "Failed to parse geocoding response"@,
        GeoError::NoResults => "No results found for this city"@,
        GeoError::CoordinateParse => "Failed to parse coordinates"@,
    }
}

pub open spec fn weather_error_message(e: WeatherError) -> Seq<char> {
    match e {
        WeatherError::Encoding => "Transformed response is not UTF-8 encoded."@,
        WeatherError::Json => "Failed to parse JSON response"@,
    }
}

pub open spec fn geo_failure_message(kind: Seq<char>, message: Seq<char>) -> Seq<char> {
    "Geocoding API error: "@ + kind + ", "@ + message
}

pub open spec fn weather_failure_message(kind: Seq<char>, message: Seq<char>) -> Seq<char> {
    "Weather API error: "@ + kind + ", "@ + message
}

/// The reply for a forecast document, by target: the metric to one decimal
/// place, or the fixed missing-metric message.
pub open spec fn render_message(t: TargetV, doc: WeatherDoc) -> Seq<char> {
    match t {
        TargetV::CityV { metric, city } => {
            let m = match metric {
                Metric::Temperature => doc.temperature,
                Metric::Humidity => doc.humidity,
            };
            match m {
                Some(v) => match metric {
                    Metric::Temperature => temperature_message(city, v),
                    Metric::Humidity => humidity_message(city, v),
                },
                None => missing_message(metric),
            }
        },
        TargetV::PositionV { coordinate } => match doc.temperature {
            Some(t) => position_message(coordinate, t),
            None => missing_message(Metric::Temperature),
        },
    }
}

/// The machine's transition function: what one outcome makes of one step.
/// A finished query absorbs any further outcome with an empty reply.
pub open spec fn next_step(s: StepV, o: OutcomeV) -> (StepV, ActionV) {
    match s {
        StepV::AwaitGeocodeV { metric, city } => match o {
            OutcomeV::FailureV { kind, message } => (
                StepV::FinishedV,
                ActionV::ReplyV(geo_failure_message(kind, message)),
            ),
            OutcomeV::ResponseV { status, body } => match geocode_of(body) {
                Err(e) => (StepV::FinishedV, ActionV::ReplyV(geo_error_message(e))),
                Ok(c) => (
                    StepV::AwaitWeatherV { target: TargetV::CityV { metric, city } },
                    ActionV::IssueV { url: weather_url(c), headers: user_agent_headers() },
                ),
            },
        },
        StepV::AwaitWeatherV { target } => match o {
            OutcomeV::FailureV { kind, message } => (
                StepV::FinishedV,
                ActionV::ReplyV(weather_failure_message(kind, message)),
            ),
            OutcomeV::ResponseV { status, body } => match weather_of(body) {
                Err(e) => (StepV::FinishedV, ActionV::ReplyV(weather_error_message(e))),
                Ok(doc) => (StepV::FinishedV, ActionV::ReplyV(render_message(target, doc))),
            },
        },
        StepV::FinishedV => (StepV::FinishedV, ActionV::ReplyV(Seq::empty())),
    }
}

fn ua_headers() -> (hs: Vec<Header>)
    ensures
        headers_model(hs@) == user_agent_headers(),
{
    let mut hs: Vec<Header> = Vec::new();
    hs.push(header("User-Agent", "weather_canister"));
    proof {
        assert(headers_model(hs@) =~= user_agent_headers());
    }
    hs
}

/// The geocoding request for a place name: its URL and headers.
pub fn geocoding_request(city: &str) -> (r: RequestSpec)
    ensures
        r.url@ == geocoding_url(city@),
        headers_model(r.headers@) == user_agent_headers(),
{
    let mut url = String::new();
    url.append("https://nominatim.openstreetmap.org/search?q=");
    url.append(city);
    url.append("&format=json&limit=1");
    RequestSpec { url, headers: ua_headers() }
}

/// The forecast request for a coordinate: its URL and headers.
pub fn weather_request(c: &Coordinate) -> (r: RequestSpec)
    requires
        coordinate_wf(*c),
    ensures
        r.url@ == weather_url(*c),
        headers_model(r.headers@) == user_agent_headers(),
{
    let mut url = String::new();
    url.append("https://api.open-meteo.com/v1/forecast?latitude=");
    let lat = dec_to_string(c.latitude);
    url.append(lat.as_str());
    url.append("&longitude=");
    let lon = dec_to_string(c.longitude);
    url.append(lon.as_str());
    url.append("&current=temperature_2m,relative_humidity_2m&timezone=auto");
    RequestSpec { url, headers: ua_headers() }
}

/// The user-facing text of a geocoding error.
pub fn geo_error_text(e: GeoError) -> (r: String)
    ensures
        r@ == geo_error_message(e),
{
    match e {
        GeoError::Encoding => "Transformed response is not UTF-8 encoded.".to_owned(),
        GeoError::Json => "Failed to parse JSON response".to_owned(),
        GeoError::Shape => "Failed to parse geocoding response".to_owned(),
        GeoError::NoResults => "No results found for this city".to_owned(),
        GeoError::CoordinateParse => "Failed to parse coordinates".to_owned(),
    }
}

/// The user-facing text of a forecast error.
pub fn weather_error_text(e: WeatherError) -> (r: String)
    ensures
        r@ == weather_error_message(e),
{
    match e {
        WeatherError::Encoding => "Transformed response is not UTF-8 encoded.".to_owned(),
        WeatherError::Json => "Failed to parse JSON response".to_owned(),
    }
}

/// The reply for a forecast document.
pub fn render_reply(target: &Target, doc: &WeatherDoc) -> (r: String)
    requires
        target_wf(*target),
        crate::weather::weather_doc_wf(*doc),
    ensures
        r@ == render_message(target_model(*target), *doc),
{
    match target {
        Target::City { metric, city } => {
            let m = match metric {
                Metric::Temperature => doc.temperature,
                Metric::Humidity => doc.humidity,
            };
            match m {
                Some(v) => {
                    let f = format_one_decimal(v);
                    let mut out = String::new();
                    match metric {
                        Metric::Temperature => {
                            out.append("Temperature in ");
                            out.append(city.as_str());
                            out.append(": ");
                            out.append(f.as_str());
                            out.append("°C");
                        },
                        Metric::Humidity => {
                            out.append("Humidity in ");
                            out.append(city.as_str());
                            out.append(": ");
                            out.append(f.as_str());
                            out.append("%");
                        },
                    }
                    out
                },
                None => match metric {
                    Metric::Temperature => "Failed to get temperature data".to_owned(),
                    Metric::Humidity => "Failed to get humidity data".to_owned(),
                },
            }
        },
        Target::Position { coordinate } => match doc.temperature {
            Some(t) => {
                let mut out = String::new();
                out.append("Temperature at (");
                let lat = dec_to_string(coordinate.latitude);
                out.append(lat.as_str());
                out.append(", ");
                let lon = dec_to_string(coordinate.longitude);
                out.append(lon.as_str());
                out.append("): ");
                let f = format_one_decimal(t);
                out.append(f.as_str());
                out.append("°C");
                out
            },
            None => "Failed to get temperature data".to_owned(),
        },
    }
}

/// Begins a city query: the machine waits for the geocoding reply, and the
/// caller is to issue the geocoding request.
pub fn start_city_query(metric: Metric, city: String) -> (r: (Step, Action))
    ensures
        step_model(r.0) == (StepV::AwaitGeocodeV { metric, city: city@ }),
        action_model(r.1) == (ActionV::IssueV {
            url: geocoding_url(city@),
            headers: user_agent_headers(),
        }),
        step_wf(r.0),
{
    let req = geocoding_request(city.as_str());
    (Step::AwaitGeocode { metric, city }, Action::Issue(req))
}

/// Begins a coordinate query: no geocoding at all, the machine waits for
/// the forecast reply, and the caller is to issue the forecast request.
pub fn start_coordinate_query(coordinate: Coordinate) -> (r: (Step, Action))
    requires
        coordinate_wf(coordinate),
    ensures
        step_model(r.0) == (StepV::AwaitWeatherV {
            target: TargetV::PositionV { coordinate },
        }),
        action_model(r.1) == (ActionV::IssueV {
            url: weather_url(coordinate),
            headers: user_agent_headers(),
        }),
        step_wf(r.0),
{
    let req = weather_request(&coordinate);
    (Step::AwaitWeather { target: Target::Position { coordinate } }, Action::Issue(req))
}

/// Consumes one outcome: exactly the transition [`next_step`] denotes.
pub fn on_outcome(step: Step, outcome: Outcome) -> (r: (Step, Action))
    requires
        step_wf(step),
        !(step matches Step::Finished),
    ensures
        (step_model(r.0), action_model(r.1)) == next_step(step_model(step), outcome_model(outcome)),
        step_wf(r.0),
{
    match step {
        Step::AwaitGeocode { metric, city } => match outcome {
            Outcome::Failure { kind, message } => {
                let mut m = String::new();
                m.append("Geocoding API error: ");
                m.append(kind.as_str());
                m.append(", ");
                m.append(message.as_str());
                (Step::Finished, Action::Reply(m))
            },
            Outcome::Response { status: _, body } => match parse_geocoding(body.as_slice()) {
                Err(e) => (Step::Finished, Action::Reply(geo_error_text(e))),
                Ok(c) => {
                    let req = weather_request(&c);
                    (
                        Step::AwaitWeather { target: Target::City { metric, city } },
                        Action::Issue(req),
                    )
                },
            },
        },
        Step::AwaitWeather { target } => match outcome {
            Outcome::Failure { kind, message } => {
                let mut m = String::new();
                m.append("Weather API error: ");
                m.append(kind.as_str());
                m.append(", ");
                m.append(message.as_str());
                (Step::Finished, Action::Reply(m))
            },
            Outcome::Response { status: _, body } => match parse_weather(body.as_slice()) {
                Err(e) => (Step::Finished, Action::Reply(weather_error_text(e))),
                Ok(doc) => {
                    let m = render_reply(&target, &doc);
                    (Step::Finished, Action::Reply(m))
                },
            },
        },
        Step::Finished => {
            proof {
                assert(false);
            }
            (Step::Finished, Action::Reply(String::new()))
        },
    }
}

/// A coordinate query performs no geocoding: from its only waiting state,
/// any outcome ends the query with a reply — no further request, so zero
/// geocoding calls on this path.
pub proof fn law_coordinate_query_single_request(coordinate: Coordinate, o: OutcomeV)
    ensures
        next_step(StepV::AwaitWeatherV { target: TargetV::PositionV { coordinate } }, o).0
            == StepV::FinishedV,
        next_step(
            StepV::AwaitWeatherV { target: TargetV::PositionV { coordinate } },
            o,
        ).1 is ReplyV,
{
}

/// An empty geocoding match list ends the query with the fixed reply; the
/// forecast endpoint is never asked.
pub proof fn law_empty_geocode_stops(metric: Metric, city: Seq<char>, status: u16, body: Seq<u8>)
    requires
        vstd::utf8::valid_utf8(body),
        crate::json::parse_json(body) == Some(
            crate::json::JsonV::Arr(Seq::<crate::json::JsonV>::empty()),
        ),
    ensures
        next_step(
            StepV::AwaitGeocodeV { metric, city },
            OutcomeV::ResponseV { status, body },
        ) == (StepV::FinishedV, ActionV::ReplyV("No results found for this city"@)),
{
    assert(geocode_of(body) == Err::<Coordinate, GeoError>(GeoError::NoResults));
}

/// A forecast document without the humidity metric yields the fixed
/// message, not an error.
pub proof fn law_missing_humidity(
    city: Seq<char>,
    status: u16,
    body: Seq<u8>,
    doc: WeatherDoc,
)
    requires
        weather_of(body) == Ok::<WeatherDoc, WeatherError>(doc),
        doc.humidity is None,
    ensures
        next_step(
            StepV::AwaitWeatherV { target: TargetV::CityV { metric: Metric::Humidity, city } },
            OutcomeV::ResponseV { status, body },
        ) == (StepV::FinishedV, ActionV::ReplyV("Failed to get humidity data"@)),
{
}

/// A city temperature query whose geocoding reply resolves and whose
/// forecast reply carries the temperature ends with the formatted message:
/// the fixture's value to one decimal place.
pub proof fn law_temperature_pipeline(
    city: Seq<char>,
    gstatus: u16,
    gbody: Seq<u8>,
    wstatus: u16,
    wbody: Seq<u8>,
    c: Coordinate,
    doc: WeatherDoc,
    t: Dec,
)
    requires
        geocode_of(gbody) == Ok::<Coordinate, GeoError>(c),
        weather_of(wbody) == Ok::<WeatherDoc, WeatherError>(doc),
        doc.temperature == Some(t),
    ensures
        ({
            let first = next_step(
                StepV::AwaitGeocodeV { metric: Metric::Temperature, city },
                OutcomeV::ResponseV { status: gstatus, body: gbody },
            );
            &&& first.1 == (ActionV::IssueV {
                url: weather_url(c),
                headers: user_agent_headers(),
            })
            &&& next_step(first.0, OutcomeV::ResponseV { status: wstatus, body: wbody }) == (
                StepV::FinishedV,
                ActionV::ReplyV(temperature_message(city, t)),
            )
        }),
{
}

/// Round trip: after the geocoding step of a city query, the forecast
/// request issued is the very request a direct coordinate query issues for
/// the resolved coordinate, and one forecast reply gives both paths the
/// same temperature reading.
pub proof fn law_round_trip(
    city: Seq<char>,
    gstatus: u16,
    gbody: Seq<u8>,
    wstatus: u16,
    wbody: Seq<u8>,
    c: Coordinate,
    doc: WeatherDoc,
)
    requires
        geocode_of(gbody) == Ok::<Coordinate, GeoError>(c),
        weather_of(wbody) == Ok::<WeatherDoc, WeatherError>(doc),
    ensures
        ({
            let via_city = next_step(
                StepV::AwaitGeocodeV { metric: Metric::Temperature, city },
                OutcomeV::ResponseV { status: gstatus, body: gbody },
            );
            let direct = next_step(
                StepV::AwaitWeatherV { target: TargetV::PositionV { coordinate: c } },
                OutcomeV::ResponseV { status: wstatus, body: wbody },
            );
            let chained = next_step(
                via_city.0,
                OutcomeV::ResponseV { status: wstatus, body: wbody },
            );
            &&& via_city.1 == (ActionV::IssueV {
                url: weather_url(c),
                headers: user_agent_headers(),
            })
            &&& match doc.temperature {
                Some(t) => chained.1 == ActionV::ReplyV(temperature_message(city, t))
                    && direct.1 == ActionV::ReplyV(position_message(c, t)),
                None => chained.1 == ActionV::ReplyV(missing_message(Metric::Temperature))
                    && direct.1 == ActionV::ReplyV(missing_message(Metric::Temperature)),
            }
        }),
{
}

} // verus!

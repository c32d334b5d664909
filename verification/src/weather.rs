//! Weather documents: the forecast endpoint's reply.
//!
//! The reply is a JSON object whose `current` object may carry the
//! requested metrics as numbers. A missing metric is a valid-but-empty
//! outcome, not a parse error, so the document is a record of optional
//! values.

use crate::dec::{dec_token, dec_wf, Dec};
use crate::encoding::utf8_ok;
use crate::json::{obj_get, parse_json, parse_json_bytes, json_obj_get, views_of_members, Json, JsonV};
use vstd::prelude::*;
use vstd::utf8::valid_utf8;

verus! {

/// The metrics read out of one forecast reply.
#[derive(Clone, Copy, Debug)]
pub struct WeatherDoc {
    pub temperature: Option<Dec>,
    pub humidity: Option<Dec>,
}

/// Every present metric is bounded and normalized.
pub open spec fn weather_doc_wf(d: WeatherDoc) -> bool {
    &&& (d.temperature matches Some(t) ==> dec_wf(t))
    &&& (d.humidity matches Some(h) ==> dec_wf(h))
}

/// Why a forecast reply yielded no document.
#[derive(Clone, Copy, PartialEq, Eq, Structural, Debug)]
pub enum WeatherError {
    /// The body is not valid UTF-8.
    Encoding,
    /// The body is not valid JSON.
    Json,
}

/// The key `current`.
pub open spec fn current_key() -> Seq<u8> {
    seq![99u8, 117, 114, 114, 101, 110, 116]
}

/// The key `temperature_2m`.
pub open spec fn temperature_key() -> Seq<u8> {
    seq![116u8, 101, 109, 112, 101, 114, 97, 116, 117, 114, 101, 95, 50, 109]
}

/// The key `relative_humidity_2m`.
pub open spec fn humidity_key() -> Seq<u8> {
    seq![114u8, 101, 108, 97, 116, 105, 118, 101, 95, 104, 117, 109, 105, 100, 105, 116, 121, 95, 50, 109]
}

/// The metric under `current.<key>`, read as a decimal, if the document
/// offers it as a number in range.
pub open spec fn metric_of(v: JsonV, key: Seq<u8>) -> Option<Dec> {
    match v {
        JsonV::Obj(ms) => match obj_get(ms, current_key()) {
            Some(JsonV::Obj(cur)) => match obj_get(cur, key) {
                Some(JsonV::Num(tok)) => dec_token(tok),
                _ => None,
            },
            _ => None,
        },
        _ => None,
    }
}

/// The outcome of reading a forecast reply body: UTF-8, then JSON, then
/// the optional metrics under `current`.
pub open spec fn weather_of(body: Seq<u8>) -> Result<WeatherDoc, WeatherError> {
    if !valid_utf8(body) {
        Err(WeatherError::Encoding)
    } else {
        match parse_json(body) {
            None => Err(WeatherError::Json),
            Some(v) => Ok(
                WeatherDoc {
                    temperature: metric_of(v, temperature_key()),
                    humidity: metric_of(v, humidity_key()),
                },
            ),
        }
    }
}

fn metric_from(doc: &Json, key: &[u8]) -> (r: Option<Dec>)
    ensures
        r == metric_of(doc.model(), key@),
        r matches Some(d) ==> dec_wf(d),
{
    let curk: Vec<u8> = vec![99u8, 117, 114, 114, 101, 110, 116];
    proof {
        assert(curk@ =~= current_key());
    }
    match doc {
        Json::Obj(ms) => {
            proof {
                assert(doc.model() == JsonV::Obj(views_of_members(ms@)));
            }
            match json_obj_get(ms, curk.as_slice()) {
                Some(cur) => match cur {
                    Json::Obj(cms) => {
                        proof {
                            assert(cur.model() == JsonV::Obj(views_of_members(cms@)));
                        }
                        match json_obj_get(cms, key) {
                            Some(j) => match j {
                                Json::Num(tok) => {
                                    proof {
                                        assert(j.model() == JsonV::Num(tok@));
                                        crate::dec::lemma_dec_token_wf(tok@);
                                    }
                                    crate::dec::parse_dec(tok.as_slice())
                                },
                                _ => None,
                            },
                            None => None,
                        }
                    },
                    _ => None,
                },
                None => None,
            }
        },
        _ => None,
    }
}

/// Reads a forecast reply body into the document of optional metrics,
/// exactly as [`weather_of`] denotes.
pub fn parse_weather(body: &[u8]) -> (r: Result<WeatherDoc, WeatherError>)
    ensures
        r == weather_of(body@),
        r matches Ok(d) ==> weather_doc_wf(d),
{
    if !utf8_ok(body) {
        return Err(WeatherError::Encoding);
    }
    let doc = match parse_json_bytes(body) {
        None => {
            return Err(WeatherError::Json);
        },
        Some(d) => d,
    };
    let tk: Vec<u8> = vec![
        116u8, 101, 109, 112, 101, 114, 97, 116, 117, 114, 101, 95, 50, 109,
    ];
    let hk: Vec<u8> = vec![
        114u8, 101, 108, 97, 116, 105, 118, 101, 95, 104, 117, 109, 105, 100, 105, 116, 121, 95,
        50, 109,
    ];
    proof {
        assert(tk@ =~= temperature_key());
        assert(hk@ =~= humidity_key());
    }
    let temperature = metric_from(&doc, tk.as_slice());
    let humidity = metric_from(&doc, hk.as_slice());
    Ok(WeatherDoc { temperature, humidity })
}

} // verus!

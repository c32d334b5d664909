//! Geocoding: a place name to a coordinate pair.
//!
//! The geocoding endpoint answers with a JSON array of candidate matches;
//! only the first is used, and its `lat` and `lon` fields are decimal
//! strings. [`geocode_of`] is the exact outcome of reading such a reply.

use crate::dec::{dec_token, dec_wf, Dec};
use crate::encoding::utf8_ok;
use crate::json::{obj_get, parse_json, parse_json_bytes, json_obj_get, Json, JsonV};
use vstd::prelude::*;
use vstd::utf8::valid_utf8;

verus! {

/// A coordinate pair, each a fixed-point decimal.
#[derive(Clone, Copy, PartialEq, Eq, Structural, Debug)]
pub struct Coordinate {
    pub latitude: Dec,
    pub longitude: Dec,
}

/// Both components bounded and normalized.
pub open spec fn coordinate_wf(c: Coordinate) -> bool {
    dec_wf(c.latitude) && dec_wf(c.longitude)
}

/// Why a geocoding reply yielded no coordinate.
#[derive(Clone, Copy, PartialEq, Eq, Structural, Debug)]
pub enum GeoError {
    /// The body is not valid UTF-8.
    Encoding,
    /// The body is not valid JSON.
    Json,
    /// The document is not an array.
    Shape,
    /// The array is empty: no match for the place name.
    NoResults,
    /// The first match lacks `lat` or `lon` as a parseable decimal string.
    CoordinateParse,
}

/// The key `lat`.
pub open spec fn lat_key() -> Seq<u8> {
    seq![108u8, 97, 116]
}

/// The key `lon`.
pub open spec fn lon_key() -> Seq<u8> {
    seq![108u8, 111, 110]
}

/// The outcome of reading a geocoding reply body: UTF-8, then JSON, then
/// an array whose first element carries `lat` and `lon` as decimal strings.
pub open spec fn geocode_of(body: Seq<u8>) -> Result<Coordinate, GeoError> {
    if !valid_utf8(body) {
        Err(GeoError::Encoding)
    } else {
        match parse_json(body) {
            None => Err(GeoError::Json),
            Some(v) => match v {
                JsonV::Arr(elems) => if elems.len() == 0 {
                    Err(GeoError::NoResults)
                } else {
                    match elems[0] {
                        JsonV::Obj(ms) => match (obj_get(ms, lat_key()), obj_get(ms, lon_key())) {
                            (Some(JsonV::Str(a)), Some(JsonV::Str(b))) => match (
                                dec_token(a),
                                dec_token(b),
                            ) {
                                (Some(la), Some(lo)) => Ok(
                                    Coordinate { latitude: la, longitude: lo },
                                ),
                                _ => Err(GeoError::CoordinateParse),
                            },
                            _ => Err(GeoError::CoordinateParse),
                        },
                        _ => Err(GeoError::CoordinateParse),
                    }
                },
                _ => Err(GeoError::Shape),
            },
        }
    }
}

/// Reads a geocoding reply body. Succeeds with the first match's
/// coordinate exactly when [`geocode_of`] does.
pub fn parse_geocoding(body: &[u8]) -> (r: Result<Coordinate, GeoError>)
    ensures
        r == geocode_of(body@),
        r matches Ok(c) ==> coordinate_wf(c),
{
    if !utf8_ok(body) {
        return Err(GeoError::Encoding);
    }
    let doc = match parse_json_bytes(body) {
        None => {
            return Err(GeoError::Json);
        },
        Some(d) => d,
    };
    match &doc {
        Json::Arr(elems) => {
            proof {
                assert(parse_json(body@) == Some(doc.model()));
                assert(doc.model() == JsonV::Arr(crate::json::views_of(elems@)));
                assert(crate::json::views_of(elems@).len() == elems@.len());
            }
            if elems.len() == 0 {
                return Err(GeoError::NoResults);
            }
            proof {
                assert(crate::json::views_of(elems@)[0] == elems@[0].model());
            }
            match &elems[0] {
                Json::Obj(ms) => {
                    proof {
                        assert(elems@[0].model() == JsonV::Obj(crate::json::views_of_members(
                            ms@,
                        )));
                    }
                    let latk: Vec<u8> = vec![108u8, 97, 116];
                    let lonk: Vec<u8> = vec![108u8, 111, 110];
                    proof {
                        assert(latk@ =~= lat_key());
                        assert(lonk@ =~= lon_key());
                    }
                    let latj = json_obj_get(ms, latk.as_slice());
                    let lonj = json_obj_get(ms, lonk.as_slice());
                    match (latj, lonj) {
                        (Some(Json::Str(a)), Some(Json::Str(b))) => {
                            let la = crate::dec::parse_dec(a.as_slice());
                            let lo = crate::dec::parse_dec(b.as_slice());
                            match (la, lo) {
                                (Some(la), Some(lo)) => {
                                    proof {
                                        crate::dec::lemma_dec_token_wf(a@);
                                        crate::dec::lemma_dec_token_wf(b@);
                                    }
                                    Ok(Coordinate { latitude: la, longitude: lo })
                                },
                                _ => Err(GeoError::CoordinateParse),
                            }
                        },
                        _ => Err(GeoError::CoordinateParse),
                    }
                },
                _ => Err(GeoError::CoordinateParse),
            }
        },
        _ => Err(GeoError::Shape),
    }
}

} // verus!

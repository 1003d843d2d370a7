//! Requests to an accessory, and where its characteristics live.

use crate::json::{member, Json, Number};
use crate::model::accessory::Characteristic;
use crate::model::host::{Call, Request};
use crate::text::decimal;
use vstd::prelude::*;

verus! {

/// A string that is there and not empty.
pub open spec fn text(v: Option<Json>) -> Option<Seq<char>> {
    match v {
        Some(Json::Text(s)) => if s.len() > 0 {
            Some(s)
        } else {
            None
        },
        _ => None,
    }
}

/// The integer that a value is, or another one.
pub open spec fn unsigned_or(v: Option<Json>, other: u64) -> u64 {
    match v {
        Some(j) => match j.unsigned() {
            Some(n) => n,
            None => other,
        },
        None => other,
    }
}

/// The address of something at a host and port.
pub open spec fn url(
    scheme: Seq<char>,
    address: Seq<char>,
    port: u64,
    path: Seq<char>,
) -> Seq<char> {
    scheme + address + ":"@ + decimal(port as nat) + path
}

/// A request that carries a pairing.
pub open spec fn paired(
    method: Seq<char>,
    address: Seq<char>,
    port: u64,
    path: Seq<char>,
    accessory_id: Seq<char>,
    accessory_key: Seq<char>,
    controller_id: Seq<char>,
    controller_key: Seq<char>,
) -> Request {
    Request {
        method,
        url: url("hap://"@, address, port, path),
        headers: seq![
            ("x-hap-accessory-id"@, accessory_id),
            ("x-hap-accessory-ltpk"@, accessory_key),
            ("x-hap-controller-id"@, controller_id),
            ("x-hap-controller-sk"@, controller_key),
        ],
        body: None,
    }
}

/// A request with the pairing of a device. There is none for a device that lacks its address
/// or a part of its pairing.
pub open spec fn authorised(
    properties: Map<Seq<char>, Json>,
    path: Seq<char>,
    method: Seq<char>,
) -> Option<Request> {
    let address = text(member(properties, "Address"@));
    let accessory_id = text(member(properties, "Accessory id"@));
    let accessory_key = text(member(properties, "Accessory key"@));
    let controller_id = text(member(properties, "Controller id"@));
    let controller_key = text(member(properties, "Controller key"@));
    if address is Some && accessory_id is Some && accessory_key is Some && controller_id is Some
        && controller_key is Some {
        Some(
            paired(
                method,
                address->0,
                unsigned_or(member(properties, "Port"@), 80),
                path,
                accessory_id->0,
                accessory_key->0,
                controller_id->0,
                controller_key->0,
            ),
        )
    } else {
        None
    }
}

/// Writing characteristics, all in one request.
pub open spec fn write(properties: Map<Seq<char>, Json>, values: Seq<Json>) -> Seq<Call> {
    match authorised(properties, "/characteristics"@, "PUT"@) {
        Some(request) => seq![
            Call::Http(
                Request {
                    body: Some(Json::Object(map!["characteristics"@ => Json::Array(values)])),
                    ..request
                },
            ),
        ],
        None => seq![
            Call::Warn("ecobee-hap: this thermostat is not paired — run its setup again"@),
        ],
    }
}

/// Where a characteristic lives, as remembered.
pub open spec fn remembered(scratch: Map<Seq<char>, Json>, key: Seq<char>) -> Option<(u64, u64)> {
    match member(scratch, "iids"@) {
        Some(iids) => match iids.get(key) {
            Some(entry) => match (entry.at(0), entry.at(1)) {
                (Some(aid), Some(iid)) => match (aid.unsigned(), iid.unsigned()) {
                    (Some(aid), Some(iid)) => Some((aid, iid)),
                    _ => None,
                },
                _ => None,
            },
            None => None,
        },
        None => None,
    }
}

/// The places remembered so far. `None` where something else stands in their stead.
pub open spec fn places(scratch: Map<Seq<char>, Json>) -> Option<Map<Seq<char>, Json>> {
    match member(scratch, "iids"@) {
        None => Some(Map::empty()),
        Some(Json::Object(m)) => Some(m),
        Some(_) => None,
    }
}

/// An accessory's number and a characteristic's.
pub open spec fn place(c: Characteristic) -> Json {
    Json::Array(
        seq![Json::Number(Number::Unsigned(c.aid)), Json::Number(Number::Unsigned(c.iid))],
    )
}

/// Remembering where a characteristic lives.
pub open spec fn remember(
    scratch: Map<Seq<char>, Json>,
    key: Seq<char>,
    c: Option<Characteristic>,
) -> Map<Seq<char>, Json> {
    match (c, places(scratch)) {
        (Some(c), Some(m)) => scratch.insert("iids"@, Json::Object(m.insert(key, place(c)))),
        _ => scratch,
    }
}

/// A value for a remembered characteristic, as a write states it.
pub open spec fn target(
    scratch: Map<Seq<char>, Json>,
    key: Seq<char>,
    value: Json,
) -> Option<Json> {
    match remembered(scratch, key) {
        Some((aid, iid)) => Some(
            Json::Object(
                map![
                    "aid"@ => Json::Number(Number::Unsigned(aid)),
                    "iid"@ => Json::Number(Number::Unsigned(iid)),
                    "value"@ => value,
                ],
            ),
        ),
        None => None,
    }
}

} // verus!

//! Requests to an accessory, and where its characteristics live.
//!
//! Writing needs a characteristic's number. Those are remembered from the last read, so there
//! is no table of numbers to keep in sync.

use crate::accessory::Characteristic;
use crate::host::{calls, HostCall, HttpRequest, Instance};
use crate::json::{elements, json, lemma_elements, said, seen, Object, Value};
use crate::model::host as host_model;
use crate::model::request as model;
use crate::text::{join, number_text};
use vstd::prelude::*;
use vstd::string::*;

verus! {

/// What a characteristic says, where there is one.
pub open spec fn noted(c: Option<&Characteristic>) -> Option<
    crate::model::accessory::Characteristic,
> {
    match c {
        Some(c) => Some(c@),
        None => None,
    }
}

/// What a request says, where there is one.
pub open spec fn asked(r: Option<HttpRequest>) -> Option<host_model::Request> {
    match r {
        Some(r) => Some(r@),
        None => None,
    }
}

/// A string that is there and not empty.
pub fn text(v: Option<&Value>) -> (r: Option<&str>)
    ensures
        said(r) == model::text(seen(v)),
{
    match v {
        Some(v) => match v.as_str() {
            Some(s) => if s.is_empty() {
                None
            } else {
                Some(s)
            },
            None => None,
        },
        None => None,
    }
}

/// The integer that a value is, or another one.
pub fn unsigned_or(v: Option<&Value>, other: u64) -> (r: u64)
    ensures
        r == model::unsigned_or(seen(v), other),
{
    match v {
        Some(v) => match v.as_u64() {
            Some(n) => n,
            None => other,
        },
        None => other,
    }
}

/// The address of something at a host and port.
pub fn url(scheme: &str, address: &str, port: u64, path: &str) -> (r: String)
    ensures
        r@ == model::url(scheme@, address@, port, path@),
{
    join(scheme, address).concat(":").concat(number_text(port).as_str()).concat(path)
}

/// A request that carries a pairing.
pub fn paired(
    method: &str,
    address: &str,
    port: u64,
    path: &str,
    accessory_id: &str,
    accessory_key: &str,
    controller_id: &str,
    controller_key: &str,
) -> (r: HttpRequest)
    ensures
        r@ == model::paired(
            method@,
            address@,
            port,
            path@,
            accessory_id@,
            accessory_key@,
            controller_id@,
            controller_key@,
        ),
{
    let r = HttpRequest::new(method, url("hap://", address, port, path)).header(
        "x-hap-accessory-id",
        accessory_id,
    ).header("x-hap-accessory-ltpk", accessory_key).header("x-hap-controller-id", controller_id).header(
        "x-hap-controller-sk",
        controller_key,
    );
    assert(r@.headers =~= seq![
        ("x-hap-accessory-id"@, accessory_id@),
        ("x-hap-accessory-ltpk"@, accessory_key@),
        ("x-hap-controller-id"@, controller_id@),
        ("x-hap-controller-sk"@, controller_key@),
    ]);
    r
}

/// Attach the stored pairing to a request. There is no request for a device that lacks its
/// address or a part of its pairing.
pub fn authorised(inst: &Instance, path: &str, method: &str) -> (r: Option<HttpRequest>)
    ensures
        asked(r) == model::authorised(inst@.properties, path@, method@),
{
    let properties: &Object = &inst.properties;
    match text(properties.get("Address")) {
        Some(address) => {
            let port: u64 = unsigned_or(properties.get("Port"), 80);
            match (
                text(properties.get("Accessory id")),
                text(properties.get("Accessory key")),
                text(properties.get("Controller id")),
                text(properties.get("Controller key")),
            ) {
                (
                    Some(accessory_id),
                    Some(accessory_key),
                    Some(controller_id),
                    Some(controller_key),
                ) => Some(
                    paired(
                        method,
                        address,
                        port,
                        path,
                        accessory_id,
                        accessory_key,
                        controller_id,
                        controller_key,
                    ),
                ),
                _ => None,
            }
        },
        None => None,
    }
}

/// Write characteristics. HomeKit takes several in one request, which is what makes a change
/// of two setpoints one write rather than two that momentarily disagree.
pub fn write(inst: &Instance, values: Vec<Value>) -> (r: Vec<HostCall>)
    ensures
        calls(r@) == model::write(inst@.properties, elements(values@)),
{
    let mut r: Vec<HostCall> = Vec::new();
    match authorised(inst, "/characteristics", "PUT") {
        Some(request) => {
            let mut body = Object::new();
            body.insert("characteristics", Value::Array(values));
            r.push(HostCall::Http(request.json(Value::Object(body))));
        },
        None => {
            r.push(
                HostCall::warn("ecobee-hap: this thermostat is not paired — run its setup again"),
            );
        },
    }
    assert(calls(r@) =~= model::write(inst@.properties, elements(values@)));
    r
}

/// Where a characteristic lives, remembered from the last read so that a write knows its
/// number.
pub fn remembered(inst: &Instance, key: &str) -> (r: Option<(u64, u64)>)
    ensures
        r == model::remembered(inst@.scratch, key@),
{
    match inst.scratch.get("iids") {
        Some(iids) => match iids.get(key) {
            Some(entry) => match (entry.at(0), entry.at(1)) {
                (Some(aid), Some(iid)) => match (aid.as_u64(), iid.as_u64()) {
                    (Some(aid), Some(iid)) => Some((aid, iid)),
                    _ => None,
                },
                _ => None,
            },
            None => None,
        },
        None => None,
    }
}

/// Remember where a characteristic lives.
pub fn remember(inst: &mut Instance, key: &str, c: Option<&Characteristic>)
    ensures
        final(inst)@.properties == old(inst)@.properties,
        final(inst)@.scratch == model::remember(old(inst)@.scratch, key@, noted(c)),
{
    match c {
        Some(c) => {
            let mut map: Object = match inst.scratch.get("iids") {
                None => Object::new(),
                Some(Value::Object(map)) => map.copy(),
                Some(_) => return,
            };
            let mut place: Vec<Value> = Vec::new();
            place.push(Value::unsigned(c.aid));
            place.push(Value::unsigned(c.iid));
            proof {
                lemma_elements(place@);
                assert(elements(place@) =~= seq![json(place@[0]), json(place@[1])]);
            }
            map.insert(key, Value::Array(place));
            inst.scratch.insert("iids", Value::Object(map));
        },
        None => {},
    }
}

/// A value for a remembered characteristic, as a write states it.
pub fn target(inst: &Instance, key: &str, value: Value) -> (r: Option<Value>)
    ensures
        match r {
            Some(v) => model::target(inst@.scratch, key@, value@) == Some(v@),
            None => model::target(inst@.scratch, key@, value@) is None,
        },
{
    match remembered(inst, key) {
        Some((aid, iid)) => {
            let mut o = Object::new();
            o.insert("aid", Value::unsigned(aid));
            o.insert("iid", Value::unsigned(iid));
            o.insert("value", value);
            Some(Value::Object(o))
        },
        None => None,
    }
}

} // verus!

//! What a read of the accessory database tells the host.

use crate::accessory::{
    CH_COOL_THRESHOLD, CH_CURRENT_HUMIDITY, CH_CURRENT_STATE, CH_CURRENT_TEMP, CH_DISPLAY_UNITS,
    CH_HEAT_THRESHOLD, CH_OCCUPANCY, CH_TARGET_STATE, CH_TARGET_TEMP, SRV_OCCUPANCY,
    SRV_TEMPERATURE, SRV_THERMOSTAT,
};
use crate::double::{above_zero, to_tenths, truncated, Double};
use crate::json::{double_json, member, Json};
use crate::model::accessory::{
    accessories, aid_of, characteristics, find, has_service, hvac_state, mode_name, number,
    service_type, services, Characteristic,
};
use crate::model::host::Call;
use crate::model::request::remember;
use vstd::prelude::*;

verus! {

/// What a device remembers, and what it has told its host so far.
#[verifier::ext_equal]
pub struct Progress {
    /// What the driver remembers between calls.
    pub scratch: Map<Seq<char>, Json>,
    /// The calls made so far.
    pub out: Seq<Call>,
}

/// Telling a proxy one thing.
pub open spec fn notify(proxy: u32, name: Seq<char>, param: Seq<char>, value: Json) -> Call {
    Call::Notify { proxy, name, args: map![param => value] }
}

/// A device can be reached.
pub open spec fn online(proxy: u32) -> Call {
    notify(proxy, "online_changed"@, "online"@, Json::Bool(true))
}

/// A device cannot be reached.
pub open spec fn offline(proxy: u32) -> Call {
    notify(proxy, "online_changed"@, "online"@, Json::Bool(false))
}

/// A double to one decimal, as a JSON value.
pub open spec fn tenths(d: Double) -> Json {
    double_json(Double { bits: to_tenths(d.bits) })
}

/// A temperature, to one decimal, where there is one.
pub open spec fn temperature(
    proxy: u32,
    name: Seq<char>,
    param: Seq<char>,
    chars: Seq<Characteristic>,
) -> Seq<Call> {
    match number(chars, CH_CURRENT_TEMP@) {
        Some(c) => seq![notify(proxy, name, param, tenths(c))],
        None => seq![],
    }
}

/// The humidity, where there is one.
pub open spec fn humidity(chars: Seq<Characteristic>) -> Seq<Call> {
    match number(chars, CH_CURRENT_HUMIDITY@) {
        Some(h) => seq![notify(1, "humidity_changed"@, "percent"@, double_json(h))],
        None => seq![],
    }
}

/// The mode, where there is one.
pub open spec fn mode(chars: Seq<Characteristic>) -> Seq<Call> {
    match number(chars, CH_TARGET_STATE@) {
        Some(m) => seq![notify(1, "mode_changed"@, "mode"@, Json::Text(mode_name(m)))],
        None => seq![],
    }
}

/// What the equipment is doing, where it says so.
pub open spec fn equipment(chars: Seq<Characteristic>) -> Seq<Call> {
    match number(chars, CH_CURRENT_STATE@) {
        Some(s) => seq![notify(1, "hvac_state_changed"@, "state"@, Json::Text(hvac_state(s)))],
        None => seq![],
    }
}

/// The unit on the wall, where it says so.
pub open spec fn display_unit(chars: Seq<Characteristic>) -> Seq<Call> {
    match number(chars, CH_DISPLAY_UNITS@) {
        Some(u) => seq![
            Call::SetState {
                proxy: 1,
                key: "display_unit"@,
                value: Json::Text(
                    if truncated(u.bits) == 1 {
                        "°F"@
                    } else {
                        "°C"@
                    },
                ),
            },
        ],
        None => seq![],
    }
}

/// A setpoint, to one decimal, where there is one.
pub open spec fn setpoint(key: Seq<char>, v: Option<Double>) -> Seq<Call> {
    match v {
        Some(v) => seq![Call::SetState { proxy: 1, key, value: tenths(v) }],
        None => seq![],
    }
}

/// The setpoints in force: both ends of the band in auto, none in off, the one target
/// otherwise.
pub open spec fn setpoints(chars: Seq<Characteristic>) -> Seq<Call> {
    match number(chars, CH_TARGET_STATE@) {
        Some(m) => if truncated(m.bits) == 3 {
            setpoint("heat_setpoint_c"@, number(chars, CH_HEAT_THRESHOLD@)) + setpoint(
                "cool_setpoint_c"@,
                number(chars, CH_COOL_THRESHOLD@),
            )
        } else if truncated(m.bits) == 0 {
            seq![]
        } else {
            setpoint("setpoint_c"@, number(chars, CH_TARGET_TEMP@))
        },
        None => seq![],
    }
}

/// Everything a thermostat service tells the host.
pub open spec fn reading(chars: Seq<Characteristic>) -> Seq<Call> {
    temperature(1, "temperature_changed"@, "celsius"@, chars) + humidity(chars) + mode(chars)
        + equipment(chars) + display_unit(chars) + setpoints(chars)
}

/// What a thermostat service leaves behind: where its writable characteristics live, and the
/// mode it is in.
pub open spec fn learned(
    scratch: Map<Seq<char>, Json>,
    chars: Seq<Characteristic>,
) -> Map<Seq<char>, Json> {
    let s = remember(scratch, "target_state"@, find(chars, CH_TARGET_STATE@));
    let s = remember(s, "target_temp"@, find(chars, CH_TARGET_TEMP@));
    let s = remember(s, "heat_threshold"@, find(chars, CH_HEAT_THRESHOLD@));
    let s = remember(s, "cool_threshold"@, find(chars, CH_COOL_THRESHOLD@));
    match number(chars, CH_TARGET_STATE@) {
        Some(m) => s.insert("mode"@, Json::Text(mode_name(m))),
        None => s,
    }
}

/// Occupancy is told only when it changed.
pub open spec fn occupancy(p: Progress, proxy: u32, key: Seq<char>, detected: bool) -> Progress {
    if member(p.scratch, key) == Some(Json::Bool(detected)) {
        p
    } else {
        Progress {
            scratch: p.scratch.insert(key, Json::Bool(detected)),
            out: p.out.push(notify(proxy, "detected_changed"@, "detected"@, Json::Bool(detected))),
        }
    }
}

/// The occupancy that a service reports, where it does.
pub open spec fn presence(
    p: Progress,
    proxy: u32,
    key: Seq<char>,
    chars: Seq<Characteristic>,
) -> Progress {
    match number(chars, CH_OCCUPANCY@) {
        Some(v) => occupancy(p, proxy, key, above_zero(v.bits)),
        None => p,
    }
}

/// One service of the thermostat's accessory.
pub open spec fn thermostat_service(accessory: Json, service: Json, p: Progress) -> Progress {
    let ty = service_type(service);
    let chars = characteristics(accessory, service);
    if ty == Some(SRV_THERMOSTAT@) {
        Progress { scratch: learned(p.scratch, chars), out: p.out + reading(chars) }
    } else if ty == Some(SRV_OCCUPANCY@) {
        presence(p, 2, "built_in"@, chars)
    } else if ty == Some(SRV_TEMPERATURE@) {
        Progress { out: p.out + temperature(3, "value_changed"@, "value"@, chars), ..p }
    } else {
        p
    }
}

/// One service of a room sensor's accessory.
pub open spec fn sensor_service(accessory: Json, service: Json, p: Progress) -> Progress {
    let ty = service_type(service);
    let chars = characteristics(accessory, service);
    if ty == Some(SRV_OCCUPANCY@) {
        presence(p, 1, "occupied"@, chars)
    } else if ty == Some(SRV_TEMPERATURE@) {
        Progress { out: p.out + temperature(2, "value_changed"@, "value"@, chars), ..p }
    } else {
        p
    }
}

/// The services of the thermostat's accessory, one after another.
pub open spec fn thermostat_services(accessory: Json, list: Seq<Json>, p: Progress) -> Progress
    decreases list.len(),
{
    if list.len() == 0 {
        p
    } else {
        thermostat_service(
            accessory,
            list.last(),
            thermostat_services(accessory, list.drop_last(), p),
        )
    }
}

/// The services of a room sensor's accessory, one after another.
pub open spec fn sensor_services(accessory: Json, list: Seq<Json>, p: Progress) -> Progress
    decreases list.len(),
{
    if list.len() == 0 {
        p
    } else {
        sensor_service(accessory, list.last(), sensor_services(accessory, list.drop_last(), p))
    }
}

/// The first accessory that has a service.
pub open spec fn first_with(list: Seq<Json>, want: Seq<char>) -> Option<Json>
    decreases list.len(),
{
    if list.len() == 0 {
        None
    } else if has_service(list[0], want) {
        Some(list[0])
    } else {
        first_with(list.drop_first(), want)
    }
}

/// The first accessory with a number.
pub open spec fn first_numbered(list: Seq<Json>, aid: u64) -> Option<Json>
    decreases list.len(),
{
    if list.len() == 0 {
        None
    } else if aid_of(list[0]) == aid {
        Some(list[0])
    } else {
        first_numbered(list.drop_first(), aid)
    }
}

/// The thermostat's own part of a document.
pub open spec fn thermostat_report(scratch: Map<Seq<char>, Json>, doc: Json) -> Progress {
    match first_with(accessories(doc), SRV_THERMOSTAT@) {
        Some(accessory) => thermostat_services(
            accessory,
            services(accessory),
            Progress { scratch, out: seq![online(1)] },
        ),
        None => Progress {
            scratch,
            out: seq![
                Call::Warn(
                    "ecobee-hap: nothing at this address has a thermostat — is it the right accessory?"@,
                ),
            ],
        },
    }
}

/// One room sensor's part of a document.
pub open spec fn sensor_report(
    scratch: Map<Seq<char>, Json>,
    doc: Json,
    aid: u64,
) -> Progress {
    match first_numbered(accessories(doc), aid) {
        Some(accessory) => sensor_services(
            accessory,
            services(accessory),
            Progress { scratch, out: seq![online(1)] },
        ),
        None => Progress { scratch, out: seq![offline(1)] },
    }
}

} // verus!

//! Laws of reading the accessory database.

use crate::accessory::{
    CH_COOL_THRESHOLD, CH_HEAT_THRESHOLD, CH_TARGET_STATE, CH_TARGET_TEMP, SRV_THERMOSTAT,
};
use crate::json::{member, Json};
use crate::model::accessory::{
    accessories, aid_of, characteristics, find, listed, service_type, services, Characteristic,
};
use crate::model::driver::{bind, event};
use crate::model::host::Instance;
use crate::model::report::{
    first_numbered, first_with, learned, online, sensor_report, sensor_service, sensor_services,
    thermostat_report, thermostat_service, thermostat_services, Progress,
};
use crate::model::request::{place, places, remember, remembered};
use vstd::prelude::*;

verus! {

/// The characteristic that is written under a key.
pub open spec fn written_type(key: Seq<char>) -> Option<Seq<char>> {
    if key == "target_state"@ {
        Some(CH_TARGET_STATE@)
    } else if key == "target_temp"@ {
        Some(CH_TARGET_TEMP@)
    } else if key == "heat_threshold"@ {
        Some(CH_HEAT_THRESHOLD@)
    } else if key == "cool_threshold"@ {
        Some(CH_COOL_THRESHOLD@)
    } else {
        None
    }
}

/// The keys of what the driver remembers are all different.
pub proof fn lemma_keys()
    ensures
        "target_state"@ != "target_temp"@,
        "target_state"@ != "heat_threshold"@,
        "target_state"@ != "cool_threshold"@,
        "target_temp"@ != "heat_threshold"@,
        "target_temp"@ != "cool_threshold"@,
        "heat_threshold"@ != "cool_threshold"@,
        "iids"@ != "mode"@,
        "iids"@ != "built_in"@,
        "iids"@ != "occupied"@,
        "mode"@ != "built_in"@,
{
    reveal_strlit("target_state");
    reveal_strlit("target_temp");
    reveal_strlit("heat_threshold");
    reveal_strlit("cool_threshold");
    reveal_strlit("iids");
    reveal_strlit("mode");
    reveal_strlit("built_in");
    reveal_strlit("occupied");
    assert("target_state"@.len() == 12 && "target_temp"@.len() == 11 && "heat_threshold"@.len() == 14
        && "cool_threshold"@.len() == 14);
    assert("heat_threshold"@[0] == 'h' && "cool_threshold"@[0] == 'c');
    assert("iids"@[0] == 'i' && "mode"@[0] == 'm' && "built_in"@[0] == 'b' && "occupied"@[0] == 'o');
}

/// Remembering a place teaches exactly that place.
pub proof fn law_remembered(
    scratch: Map<Seq<char>, Json>,
    key: Seq<char>,
    c: Characteristic,
    other: Seq<char>,
)
    requires
        places(scratch) is Some,
    ensures
        remembered(remember(scratch, key, Some(c)), key) == Some((c.aid, c.iid)),
        other != key ==> remembered(remember(scratch, key, Some(c)), other) == remembered(
            scratch,
            other,
        ),
        places(remember(scratch, key, Some(c))) is Some,
{
    let m = places(scratch)->0;
    let after = remember(scratch, key, Some(c));
    assert(member(after, "iids"@) == Some(Json::Object(m.insert(key, place(c)))));
    assert(place(c).at(0) is Some && place(c).at(1) is Some);
}

/// What a thermostat service teaches about one writable characteristic.
proof fn lemma_learned(
    scratch: Map<Seq<char>, Json>,
    chars: Seq<Characteristic>,
    key: Seq<char>,
)
    requires
        places(scratch) is Some,
        written_type(key) is Some,
    ensures
        places(learned(scratch, chars)) is Some,
        remembered(learned(scratch, chars), key) == (match find(chars, written_type(key)->0) {
            Some(c) => Some((c.aid, c.iid)),
            None => remembered(scratch, key),
        }),
{
    lemma_keys();
    let a = find(chars, CH_TARGET_STATE@);
    let b = find(chars, CH_TARGET_TEMP@);
    let c = find(chars, CH_HEAT_THRESHOLD@);
    let d = find(chars, CH_COOL_THRESHOLD@);
    let s1 = remember(scratch, "target_state"@, a);
    if a is Some {
        law_remembered(scratch, "target_state"@, a->0, key);
    }
    let s2 = remember(s1, "target_temp"@, b);
    if b is Some {
        law_remembered(s1, "target_temp"@, b->0, key);
    }
    let s3 = remember(s2, "heat_threshold"@, c);
    if c is Some {
        law_remembered(s2, "heat_threshold"@, c->0, key);
    }
    let s4 = remember(s3, "cool_threshold"@, d);
    if d is Some {
        law_remembered(s3, "cool_threshold"@, d->0, key);
    }
    let s5 = learned(scratch, chars);
    assert(member(s5, "iids"@) == member(s4, "iids"@));
}

/// Every characteristic of a service carries its accessory's number.
proof fn lemma_listed_aid(aid: u64, list: Seq<Json>)
    ensures
        forall|i: int| 0 <= i < listed(aid, list).len() ==> (#[trigger] listed(aid, list)[i]).aid == aid,
    decreases list.len(),
{
    if list.len() > 0 {
        lemma_listed_aid(aid, list.drop_last());
    }
}

/// What is found in a list of characteristics stands there.
proof fn lemma_find(chars: Seq<Characteristic>, ty: Seq<char>)
    ensures
        match find(chars, ty) {
            Some(c) => c.ty == ty && chars.contains(c),
            None => true,
        },
    decreases chars.len(),
{
    if chars.len() > 0 && chars[0].ty != ty {
        lemma_find(chars.drop_first(), ty);
        match find(chars, ty) {
            Some(c) => {
                let i = choose|i: int| 0 <= i < chars.drop_first().len() && chars.drop_first()[i] == c;
                assert(chars[i + 1] == c);
            },
            None => {},
        }
    } else if chars.len() > 0 {
        assert(chars.contains(chars[0]));
    }
}

/// The characteristic of a type that a thermostat service holds.
pub open spec fn holds(accessory: Json, service: Json, ty: Seq<char>) -> Option<Characteristic> {
    if service_type(service) == Some(SRV_THERMOSTAT@) {
        find(characteristics(accessory, service), ty)
    } else {
        None
    }
}

/// What the services up to some place teach about one writable characteristic: the last one
/// that holds it counts.
proof fn lemma_services_teach(
    accessory: Json,
    list: Seq<Json>,
    p: Progress,
    key: Seq<char>,
    i: int,
)
    requires
        places(p.scratch) is Some,
        written_type(key) is Some,
        0 <= i < list.len(),
        holds(accessory, list[i], written_type(key)->0) is Some,
        forall|j: int|
            i < j < list.len() ==> holds(accessory, #[trigger] list[j], written_type(key)->0) is None,
    ensures
        places(thermostat_services(accessory, list, p).scratch) is Some,
        remembered(thermostat_services(accessory, list, p).scratch, key) == Some(
            (aid_of(accessory), holds(accessory, list[i], written_type(key)->0)->0.iid),
        ),
    decreases list.len(),
{
    let front = list.drop_last();
    let last = list.last();
    let n = list.len() - 1;
    assert(list[n] == last);
    if i == n {
        lemma_services_keep_places(accessory, front, p);
    } else {
        assert forall|j: int| i < j < front.len() implies holds(
            accessory,
            #[trigger] front[j],
            written_type(key)->0,
        ) is None by {
            assert(list[j] == front[j]);
        }
        assert(front[i] == list[i]);
        lemma_services_teach(accessory, front, p, key, i);
    }
    let before = thermostat_services(accessory, front, p);
    let chars = characteristics(accessory, last);
    lemma_keys();
    if service_type(last) == Some(SRV_THERMOSTAT@) {
        lemma_learned(before.scratch, chars, key);
        if i == n {
            lemma_listed_aid(aid_of(accessory), last.items_at("characteristics"@));
            lemma_find(chars, written_type(key)->0);
            let c = find(chars, written_type(key)->0)->0;
            let k = choose|k: int| 0 <= k < chars.len() && chars[k] == c;
            assert(chars[k].aid == aid_of(accessory));
        }
    } else {
        let after = thermostat_service(accessory, last, before);
        assert(member(after.scratch, "iids"@) == member(before.scratch, "iids"@));
    }
}

/// Nothing that a report does makes the remembered places unreadable.
proof fn lemma_services_keep_places(accessory: Json, list: Seq<Json>, p: Progress)
    requires
        places(p.scratch) is Some,
    ensures
        places(thermostat_services(accessory, list, p).scratch) is Some,
    decreases list.len(),
{
    if list.len() > 0 {
        let front = list.drop_last();
        let last = list.last();
        lemma_services_keep_places(accessory, front, p);
        let before = thermostat_services(accessory, front, p);
        lemma_keys();
        if service_type(last) == Some(SRV_THERMOSTAT@) {
            lemma_learned(before.scratch, characteristics(accessory, last), "target_state"@);
        } else {
            let after = thermostat_service(accessory, last, before);
            assert(member(after.scratch, "iids"@) == member(before.scratch, "iids"@));
        }
    }
}

/// A read teaches later writes where to go: after a report, each writable characteristic is
/// remembered at the place that the document gave it, on the thermostat's accessory. Where
/// several services hold one, the last counts.
pub proof fn law_reads_teach_writes(
    scratch: Map<Seq<char>, Json>,
    doc: Json,
    key: Seq<char>,
    i: int,
)
    requires
        places(scratch) is Some,
        written_type(key) is Some,
        first_with(accessories(doc), SRV_THERMOSTAT@) is Some,
        ({
            let accessory = first_with(accessories(doc), SRV_THERMOSTAT@)->0;
            let list = services(accessory);
            &&& 0 <= i < list.len()
            &&& holds(accessory, list[i], written_type(key)->0) is Some
            &&& forall|j: int|
                i < j < list.len() ==> holds(accessory, #[trigger] list[j], written_type(key)->0) is None
        }),
    ensures
        ({
            let accessory = first_with(accessories(doc), SRV_THERMOSTAT@)->0;
            let after = thermostat_report(scratch, doc).scratch;
            &&& remembered(after, key) == Some(
                (
                    aid_of(accessory),
                    holds(accessory, services(accessory)[i], written_type(key)->0)->0.iid,
                ),
            )
            &&& member(after, "iids"@) is Some
        }),
{
    let accessory = first_with(accessories(doc), SRV_THERMOSTAT@)->0;
    let start = Progress { scratch, out: seq![online(1)] };
    lemma_services_teach(accessory, services(accessory), start, key, i);
}

/// What the driver remembers of places stays readable, whatever document arrives.
pub proof fn law_places_stay_readable(scratch: Map<Seq<char>, Json>, doc: Json, aid: u64)
    requires
        places(scratch) is Some,
    ensures
        places(thermostat_report(scratch, doc).scratch) is Some,
        places(sensor_report(scratch, doc, aid).scratch) is Some,
{
    match first_with(accessories(doc), SRV_THERMOSTAT@) {
        Some(accessory) => {
            let start = Progress { scratch, out: seq![online(1)] };
            lemma_services_keep_places(accessory, services(accessory), start);
        },
        None => {},
    }
    match first_numbered(accessories(doc), aid) {
        Some(accessory) => {
            let start = Progress { scratch, out: seq![online(1)] };
            lemma_sensor_keeps_places(accessory, services(accessory), start);
        },
        None => {},
    }
}

proof fn lemma_sensor_keeps_places(accessory: Json, list: Seq<Json>, p: Progress)
    ensures
        places(sensor_services(accessory, list, p).scratch) == places(p.scratch),
    decreases list.len(),
{
    if list.len() > 0 {
        lemma_sensor_keeps_places(accessory, list.drop_last(), p);
        lemma_keys();
        let before = sensor_services(accessory, list.drop_last(), p);
        let after = sensor_service(accessory, list.last(), before);
        assert(member(after.scratch, "iids"@) == member(before.scratch, "iids"@));
    }
}

proof fn lemma_out_grows(accessory: Json, list: Seq<Json>, p: Progress)
    requires
        p.out.len() > 0,
    ensures
        thermostat_services(accessory, list, p).out.len() > 0,
        thermostat_services(accessory, list, p).out[0] == p.out[0],
    decreases list.len(),
{
    if list.len() > 0 {
        lemma_out_grows(accessory, list.drop_last(), p);
    }
}

/// A document that holds a thermostat tells first of all that it is online.
pub proof fn law_thermostat_is_online(scratch: Map<Seq<char>, Json>, doc: Json)
    requires
        first_with(accessories(doc), SRV_THERMOSTAT@) is Some,
    ensures
        thermostat_report(scratch, doc).out.len() > 0,
        thermostat_report(scratch, doc).out[0] == online(1),
{
    let accessory = first_with(accessories(doc), SRV_THERMOSTAT@)->0;
    lemma_out_grows(
        accessory,
        services(accessory),
        Progress { scratch, out: seq![online(1)] },
    );
}

/// Only the answer to a read says anything: any other event, and an answer without
/// accessories, as a write gets, leaves the device as it was and tells nothing.
pub proof fn law_only_reads_speak(inst: Instance, note: Seq<char>, args: Map<Seq<char>, Json>)
    requires
        note != "http_response"@ || (member(args, "body"@) matches Some(doc) ==> accessories(
            doc,
        ).len() == 0),
    ensures
        event(inst, note, args).out.len() == 0,
        event(inst, note, args).scratch == inst.scratch,
{
}

/// Room sensors ask too: a device with an accessory number of its own reads the same database
/// as one without.
pub proof fn law_sensors_ask_too(inst: Instance, aid: Json)
    ensures
        bind(
            Instance { properties: inst.properties.insert("Accessory aid"@, aid), ..inst },
        ) == bind(inst),
{
    reveal_strlit("Accessory aid");
    reveal_strlit("Address");
    reveal_strlit("Port");
    reveal_strlit("Accessory id");
    reveal_strlit("Accessory key");
    reveal_strlit("Controller id");
    reveal_strlit("Controller key");
    assert("Accessory aid"@.len() == 13 && "Address"@.len() == 7 && "Port"@.len() == 4
        && "Accessory id"@.len() == 12 && "Accessory key"@.len() == 13 && "Controller id"@.len() == 13
        && "Controller key"@.len() == 14);
    assert("Accessory aid"@[10] == 'a' && "Accessory key"@[10] == 'k' && "Controller id"@[10] == ' ');
}

} // verus!

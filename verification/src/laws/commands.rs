//! Laws of commands.

use crate::accessory::{CH_TARGET_STATE, SRV_THERMOSTAT};
use crate::double::{truncated, Double};
use crate::json::{double_json, member, Json, Number};
use crate::laws::names::lemma_modes;
use crate::laws::reads::{holds, law_reads_teach_writes, written_type};
use crate::model::accessory::{
    accessories, aid_of, characteristics, mode_name, mode_value, number, service_type, services,
    Characteristic,
};
use crate::model::driver::{
    command, double_argument, event, in_auto, sensor_aid, set_mode, setpoint_key, shown_key,
    text_argument,
};
use crate::model::host::{Call, Instance, Request};
use crate::model::report::{
    first_with, notify, online, setpoint, setpoints, thermostat_report, thermostat_service,
    thermostat_services, Progress,
};
use crate::model::request::{authorised, places, remembered};
use vstd::prelude::*;

verus! {

/// The one request that writes a value to a place.
pub open spec fn write_request(request: Request, aid: u64, iid: u64, value: Json) -> Call {
    Call::Http(
        Request {
            body: Some(
                Json::Object(
                    map![
                        "characteristics"@ => Json::Array(
                            seq![
                                Json::Object(
                                    map![
                                        "aid"@ => Json::Number(Number::Unsigned(aid)),
                                        "iid"@ => Json::Number(Number::Unsigned(iid)),
                                        "value"@ => value,
                                    ],
                                ),
                            ],
                        ),
                    ],
                ),
            ),
            ..request
        },
    )
}

/// Only a warning came of it.
pub open spec fn refused(p: Progress) -> bool {
    p.out.len() == 1 && p.out[0] is Warn
}

/// A room sensor takes no command: it is left as it was, and nothing is sent.
pub proof fn law_sensor_is_read_only(inst: Instance, cmd: Seq<char>, args: Map<Seq<char>, Json>)
    requires
        sensor_aid(inst) is Some,
    ensures
        refused(command(inst, cmd, args)),
        command(inst, cmd, args).scratch == inst.scratch,
{
}

/// Nothing is written before the first read has come back.
pub proof fn law_no_write_before_a_read(inst: Instance, cmd: Seq<char>, args: Map<Seq<char>, Json>)
    requires
        member(inst.scratch, "iids"@) is None,
    ensures
        refused(command(inst, cmd, args)),
        command(inst, cmd, args).scratch == inst.scratch,
{
}

/// A refused command leaves the device as it was.
pub proof fn law_refusal_changes_nothing(inst: Instance, cmd: Seq<char>, args: Map<Seq<char>, Json>)
    requires
        refused(command(inst, cmd, args)),
    ensures
        command(inst, cmd, args).scratch == inst.scratch,
{
    let p = command(inst, cmd, args);
    if p.scratch != inst.scratch {
        assert(cmd == "set_mode"@);
        assert(p.out.len() >= 2);
    }
}

/// A command makes at most one request, first of all it does, and that one writes to the
/// device's own accessory with the device's own pairing.
pub proof fn law_one_request_at_most(
    inst: Instance,
    cmd: Seq<char>,
    args: Map<Seq<char>, Json>,
    i: int,
)
    requires
        0 <= i < command(inst, cmd, args).out.len(),
        command(inst, cmd, args).out[i] is Http,
    ensures
        i == 0,
        ({
            let sent = command(inst, cmd, args).out[i]->Http_0;
            let own = authorised(inst.properties, "/characteristics"@, "PUT"@);
            own is Some && sent == Request { body: sent.body, ..own->0 }
        }),
{
}

/// What a command leaves of the remembered places is what was there.
pub proof fn law_command_keeps_places(inst: Instance, cmd: Seq<char>, args: Map<Seq<char>, Json>)
    ensures
        places(command(inst, cmd, args).scratch) == places(inst.scratch),
{
    reveal_strlit("iids");
    reveal_strlit("mode");
    assert("iids"@[0] == 'i' && "mode"@[0] == 'm');
    let after = command(inst, cmd, args).scratch;
    assert(member(after, "iids"@) == member(inst.scratch, "iids"@));
}

/// The commands are three different ones.
pub proof fn lemma_commands()
    ensures
        "set_mode"@ != "set_heat_setpoint"@,
        "set_mode"@ != "set_cool_setpoint"@,
        "set_heat_setpoint"@ != "set_cool_setpoint"@,
{
    reveal_strlit("set_mode");
    reveal_strlit("set_heat_setpoint");
    reveal_strlit("set_cool_setpoint");
    assert("set_mode"@.len() == 8 && "set_heat_setpoint"@.len() == 17 && "set_cool_setpoint"@.len()
        == 17);
    assert("set_heat_setpoint"@[4] == 'h' && "set_cool_setpoint"@[4] == 'c');
}

/// Setting a mode on a paired thermostat writes its number to the target state characteristic,
/// wherever that was last read. The change is told and remembered at once.
pub proof fn law_mode_is_written(
    inst: Instance,
    args: Map<Seq<char>, Json>,
    mode: Seq<char>,
    aid: u64,
    iid: u64,
)
    requires
        sensor_aid(inst) is None,
        authorised(inst.properties, "/characteristics"@, "PUT"@) is Some,
        text_argument(args, "mode"@) == Some(mode),
        mode_value(mode) is Some,
        remembered(inst.scratch, "target_state"@) == Some((aid, iid)),
    ensures
        ({
            let p = command(inst, "set_mode"@, args);
            &&& p.out.len() == 2
            &&& p.out[0] == write_request(
                authorised(inst.properties, "/characteristics"@, "PUT"@)->0,
                aid,
                iid,
                Json::Number(Number::Unsigned(mode_value(mode)->0 as u64)),
            )
            &&& p.out[1] == notify(1, "mode_changed"@, "mode"@, Json::Text(mode))
            &&& p.scratch == inst.scratch.insert("mode"@, Json::Text(mode))
            &&& in_auto(Instance { scratch: p.scratch, ..inst }) == (mode == "auto"@)
        }),
{
}

/// Setting a setpoint on a paired thermostat writes it where it counts: to an end of the band
/// in auto, to the single target otherwise, wherever that was last read. The change is told at
/// once, with the setpoint it is of, and shown under the matching key.
pub proof fn law_setpoint_is_written(
    inst: Instance,
    args: Map<Seq<char>, Json>,
    heating: bool,
    c: Double,
    aid: u64,
    iid: u64,
)
    requires
        sensor_aid(inst) is None,
        authorised(inst.properties, "/characteristics"@, "PUT"@) is Some,
        double_argument(args, "celsius"@) == Some(c),
        remembered(inst.scratch, setpoint_key(in_auto(inst), heating)) == Some((aid, iid)),
    ensures
        ({
            let cmd = if heating {
                "set_heat_setpoint"@
            } else {
                "set_cool_setpoint"@
            };
            let p = command(inst, cmd, args);
            &&& p.out.len() == 3
            &&& p.out[0] == write_request(
                authorised(inst.properties, "/characteristics"@, "PUT"@)->0,
                aid,
                iid,
                double_json(c),
            )
            &&& p.out[1] == Call::Notify {
                proxy: 1,
                name: "setpoint_changed"@,
                args: map![
                    "which"@ => Json::Text(
                        if heating {
                            "heat"@
                        } else {
                            "cool"@
                        },
                    ),
                    "celsius"@ => double_json(c),
                ],
            }
            &&& p.out[2] == Call::SetState {
                proxy: 1,
                key: shown_key(in_auto(inst), heating),
                value: double_json(c),
            }
            &&& p.scratch == inst.scratch
        }),
{
    lemma_commands();
}

/// Showing mirrors reading: what a read reports as a setpoint is the characteristic that a
/// command writes in that mode, under the key that the command shows. Off holds nothing.
pub proof fn law_shown_where_read(chars: Seq<Characteristic>)
    requires
        number(chars, CH_TARGET_STATE@) is Some,
        truncated(number(chars, CH_TARGET_STATE@)->0.bits) != 0,
    ensures
        ({
            let auto = mode_name(number(chars, CH_TARGET_STATE@)->0) == "auto"@;
            let read = |heating: bool|
                setpoint(
                    shown_key(auto, heating),
                    number(chars, written_type(setpoint_key(auto, heating))->0),
                );
            setpoints(chars) == if auto {
                read(true) + read(false)
            } else {
                read(true)
            }
        }),
{
    lemma_modes();
    lemma_written_types();
}

/// Off holds no setpoint, and outside auto there is never a second one.
pub proof fn law_no_setpoint_is_invented(chars: Seq<Characteristic>)
    ensures
        number(chars, CH_TARGET_STATE@) is None ==> setpoints(chars).len() == 0,
        number(chars, CH_TARGET_STATE@) matches Some(m) ==> {
            &&& truncated(m.bits) == 0 ==> setpoints(chars).len() == 0
            &&& truncated(m.bits) != 3 ==> setpoints(chars).len() <= 1
            &&& setpoints(chars).len() <= 2
        },
{
}

proof fn lemma_written_types()
    ensures
        written_type("target_temp"@) == Some(crate::accessory::CH_TARGET_TEMP@),
        written_type("heat_threshold"@) == Some(crate::accessory::CH_HEAT_THRESHOLD@),
        written_type("cool_threshold"@) == Some(crate::accessory::CH_COOL_THRESHOLD@),
{
    crate::laws::reads::lemma_keys();
}

/// The target state that a thermostat service reports.
pub open spec fn reported_state(accessory: Json, service: Json) -> Option<Double> {
    if service_type(service) == Some(SRV_THERMOSTAT@) {
        number(characteristics(accessory, service), CH_TARGET_STATE@)
    } else {
        None
    }
}

proof fn lemma_services_teach_mode(accessory: Json, list: Seq<Json>, p: Progress, i: int)
    requires
        0 <= i < list.len(),
        reported_state(accessory, list[i]) is Some,
        forall|j: int| i < j < list.len() ==> reported_state(accessory, #[trigger] list[j]) is None,
    ensures
        member(thermostat_services(accessory, list, p).scratch, "mode"@) == Some(
            Json::Text(mode_name(reported_state(accessory, list[i])->0)),
        ),
    decreases list.len(),
{
    let front = list.drop_last();
    let last = list.last();
    assert(list[list.len() - 1] == last);
    if i < front.len() {
        assert(front[i] == list[i]);
        assert forall|j: int| i < j < front.len() implies reported_state(
            accessory,
            #[trigger] front[j],
        ) is None by {
            assert(list[j] == front[j]);
        }
        lemma_services_teach_mode(accessory, front, p, i);
        let before = thermostat_services(accessory, front, p);
        let after = thermostat_service(accessory, last, before);
        crate::laws::reads::lemma_keys();
        assert(member(after.scratch, "mode"@) == member(before.scratch, "mode"@));
    }
}

/// A read tells later setpoints which mode they are in: the mode remembered after a report is
/// the one that the thermostat reported, the last where several services do.
pub proof fn law_reads_teach_the_mode(inst: Instance, doc: Json, i: int)
    requires
        first_with(accessories(doc), SRV_THERMOSTAT@) is Some,
        ({
            let accessory = first_with(accessories(doc), SRV_THERMOSTAT@)->0;
            let list = services(accessory);
            &&& 0 <= i < list.len()
            &&& reported_state(accessory, list[i]) is Some
            &&& forall|j: int|
                i < j < list.len() ==> reported_state(accessory, #[trigger] list[j]) is None
        }),
    ensures
        ({
            let accessory = first_with(accessories(doc), SRV_THERMOSTAT@)->0;
            let m = reported_state(accessory, services(accessory)[i])->0;
            let after = thermostat_report(inst.scratch, doc).scratch;
            &&& member(after, "mode"@) == Some(Json::Text(mode_name(m)))
            &&& in_auto(Instance { scratch: after, ..inst }) == (truncated(m.bits) == 3)
        }),
{
    let accessory = first_with(accessories(doc), SRV_THERMOSTAT@)->0;
    let start = Progress { scratch: inst.scratch, out: seq![online(1)] };
    lemma_services_teach_mode(accessory, services(accessory), start, i);
    lemma_modes();
}

/// A write goes where the last read saw the characteristic: setting a mode after a read of a
/// document writes to the target state characteristic of that document.
pub proof fn law_write_follows_read(
    inst: Instance,
    args: Map<Seq<char>, Json>,
    i: int,
    wish: Map<Seq<char>, Json>,
    mode: Seq<char>,
)
    requires
        sensor_aid(inst) is None,
        authorised(inst.properties, "/characteristics"@, "PUT"@) is Some,
        places(inst.scratch) is Some,
        member(args, "body"@) is Some,
        text_argument(wish, "mode"@) == Some(mode),
        mode_value(mode) is Some,
        ({
            let doc = member(args, "body"@)->0;
            &&& first_with(accessories(doc), SRV_THERMOSTAT@) is Some
            &&& ({
                let accessory = first_with(accessories(doc), SRV_THERMOSTAT@)->0;
                let list = services(accessory);
                &&& 0 <= i < list.len()
                &&& holds(accessory, list[i], CH_TARGET_STATE@) is Some
                &&& forall|j: int|
                    i < j < list.len() ==> holds(accessory, #[trigger] list[j], CH_TARGET_STATE@) is None
            })
        }),
    ensures
        ({
            let accessory = first_with(accessories(member(args, "body"@)->0), SRV_THERMOSTAT@)->0;
            let after = Instance {
                scratch: event(inst, "http_response"@, args).scratch,
                ..inst
            };
            command(after, "set_mode"@, wish).out[0] == write_request(
                authorised(inst.properties, "/characteristics"@, "PUT"@)->0,
                aid_of(accessory),
                holds(accessory, services(accessory)[i], CH_TARGET_STATE@)->0.iid,
                Json::Number(Number::Unsigned(mode_value(mode)->0 as u64)),
            )
        }),
{
    let doc = member(args, "body"@)->0;
    let accessory = first_with(accessories(doc), SRV_THERMOSTAT@)->0;
    let after = Instance { scratch: event(inst, "http_response"@, args).scratch, ..inst };
    assert(accessories(doc).len() > 0);
    assert(after.scratch == thermostat_report(inst.scratch, doc).scratch);
    law_reads_teach_writes(inst.scratch, doc, "target_state"@, i);
    law_mode_is_written(
        after,
        wish,
        mode,
        aid_of(accessory),
        holds(accessory, services(accessory)[i], CH_TARGET_STATE@)->0.iid,
    );
}

/// The same of setpoints: setting one after a read of a document writes to the characteristic
/// of that document that counts in the mode that is known then.
pub proof fn law_setpoint_follows_read(
    inst: Instance,
    args: Map<Seq<char>, Json>,
    i: int,
    wish: Map<Seq<char>, Json>,
    heating: bool,
    c: Double,
)
    requires
        sensor_aid(inst) is None,
        authorised(inst.properties, "/characteristics"@, "PUT"@) is Some,
        places(inst.scratch) is Some,
        member(args, "body"@) is Some,
        double_argument(wish, "celsius"@) == Some(c),
        ({
            let doc = member(args, "body"@)->0;
            let after = Instance { scratch: event(inst, "http_response"@, args).scratch, ..inst };
            let ty = written_type(setpoint_key(in_auto(after), heating))->0;
            &&& first_with(accessories(doc), SRV_THERMOSTAT@) is Some
            &&& ({
                let accessory = first_with(accessories(doc), SRV_THERMOSTAT@)->0;
                let list = services(accessory);
                &&& 0 <= i < list.len()
                &&& holds(accessory, list[i], ty) is Some
                &&& forall|j: int|
                    i < j < list.len() ==> holds(accessory, #[trigger] list[j], ty) is None
            })
        }),
    ensures
        ({
            let accessory = first_with(accessories(member(args, "body"@)->0), SRV_THERMOSTAT@)->0;
            let after = Instance { scratch: event(inst, "http_response"@, args).scratch, ..inst };
            let ty = written_type(setpoint_key(in_auto(after), heating))->0;
            let cmd = if heating {
                "set_heat_setpoint"@
            } else {
                "set_cool_setpoint"@
            };
            command(after, cmd, wish).out[0] == write_request(
                authorised(inst.properties, "/characteristics"@, "PUT"@)->0,
                aid_of(accessory),
                holds(accessory, services(accessory)[i], ty)->0.iid,
                double_json(c),
            )
        }),
{
    let doc = member(args, "body"@)->0;
    let accessory = first_with(accessories(doc), SRV_THERMOSTAT@)->0;
    let after = Instance { scratch: event(inst, "http_response"@, args).scratch, ..inst };
    let key = setpoint_key(in_auto(after), heating);
    lemma_written_types();
    assert(accessories(doc).len() > 0);
    assert(after.scratch == thermostat_report(inst.scratch, doc).scratch);
    law_reads_teach_writes(inst.scratch, doc, key, i);
    law_setpoint_is_written(
        after,
        wish,
        heating,
        c,
        aid_of(accessory),
        holds(accessory, services(accessory)[i], written_type(key)->0)->0.iid,
    );
}

} // verus!

//! What commands do, from the members of a device and of the arguments.

use crate::json::{member, number_double, Json, Number};
use crate::laws::plain::{count, no_count, no_number, no_text, stands};
use crate::laws::requests::{
    as_double, carrying, holds_pairing, lacks_pairing, law_doubles_are_told, law_places_are_found,
    law_values_are_one_write, placed, Pairing,
};
use crate::model::driver::{command, double_argument, sensor_aid, text_argument};
use crate::model::host::{Call, Instance};
use crate::model::report::Progress;
use crate::model::request::remembered;
use vstd::prelude::*;

verus! {

/// A room sensor: it has an accessory number of its own.
pub open spec fn is_room_sensor(inst: Instance) -> bool {
    exists|n: u64| #[trigger] stands(inst.properties, "Accessory aid"@, count(n))
}

/// A thermostat that has been read.
pub open spec fn is_read_thermostat(inst: Instance) -> bool {
    no_count(inst.properties, "Accessory aid"@) && inst.scratch.dom().contains("iids"@)
}

/// Only this warning comes of a command.
pub open spec fn only_warns(inst: Instance, p: Progress, message: Seq<char>) -> bool {
    p.scratch == inst.scratch && p.out == seq![Call::Warn(message)]
}

/// No place stands under a key.
pub open spec fn not_placed(scratch: Map<Seq<char>, Json>, key: Seq<char>) -> bool {
    forall|aid: u64, iid: u64| !#[trigger] placed(scratch, key, aid, iid)
}

/// The document that writes one value to one place.
pub open spec fn change_of(aid: u64, iid: u64, value: Json) -> Json {
    Json::Object(
        map![
            "characteristics"@ => Json::Array(
                seq![
                    Json::Object(
                        map![
                            "aid"@ => count(aid),
                            "iid"@ => count(iid),
                            "value"@ => value,
                        ],
                    ),
                ],
            ),
        ],
    )
}

/// The request that writes one value to one place.
pub open spec fn writes(p: Pairing, aid: u64, iid: u64, value: Json) -> Call {
    Call::Http(carrying(p, "PUT"@, "/characteristics"@, Some(change_of(aid, iid, value))))
}

/// The warning in place of a request where a device lacks a part of a pairing.
pub open spec fn not_paired() -> Call {
    Call::Warn("ecobee-hap: this thermostat is not paired — run its setup again"@)
}

proof fn lemma_thermostat(inst: Instance)
    ensures
        no_count(inst.properties, "Accessory aid"@) <==> sensor_aid(inst) is None,
        is_room_sensor(inst) <==> sensor_aid(inst) is Some,
{
    if sensor_aid(inst) is Some {
        assert(stands(inst.properties, "Accessory aid"@, count(sensor_aid(inst)->0)));
    }
}

proof fn lemma_not_placed(scratch: Map<Seq<char>, Json>, key: Seq<char>)
    requires
        not_placed(scratch, key),
    ensures
        remembered(scratch, key) is None,
{
    if remembered(scratch, key) is Some {
        let (aid, iid) = remembered(scratch, key)->0;
        law_places_are_found(scratch, key, aid, iid);
    }
}

/// A room sensor refuses every command by name; a thermostat refuses every command until it has
/// been read; after that it refuses what is no command by name.
pub proof fn law_what_is_refused(inst: Instance, cmd: Seq<char>, args: Map<Seq<char>, Json>)
    ensures
        is_room_sensor(inst) ==> only_warns(
            inst,
            command(inst, cmd, args),
            "ecobee-hap: a room sensor is read-only, got `"@ + cmd + "`"@,
        ),
        !is_room_sensor(inst) && !inst.scratch.dom().contains("iids"@) ==> only_warns(
            inst,
            command(inst, cmd, args),
            "ecobee-hap: nothing read from the thermostat yet — it will accept commands once its first poll comes back"@,
        ),
        is_read_thermostat(inst) && cmd != "set_mode"@ && cmd != "set_heat_setpoint"@ && cmd
            != "set_cool_setpoint"@ ==> only_warns(
            inst,
            command(inst, cmd, args),
            "ecobee-hap: unhandled `"@ + cmd + "`"@,
        ),
{
    lemma_thermostat(inst);
}

/// The number that a mode is written as.
pub open spec fn number_of_mode(mode: Seq<char>, n: u64) -> bool {
    ||| mode == "off"@ && n == 0
    ||| mode == "heat"@ && n == 1
    ||| mode == "cool"@ && n == 2
    ||| mode == "auto"@ && n == 3
}

/// Setting any of the four modes writes its number where the target state is placed, tells the
/// mode and remembers it.
pub proof fn law_a_mode_is_set(
    inst: Instance,
    args: Map<Seq<char>, Json>,
    p: Pairing,
    mode: Seq<char>,
    n: u64,
    aid: u64,
    iid: u64,
)
    requires
        no_count(inst.properties, "Accessory aid"@),
        stands(args, "mode"@, Json::Text(mode)),
        number_of_mode(mode, n),
        placed(inst.scratch, "target_state"@, aid, iid),
    ensures
        ({
            let told = Call::Notify {
                proxy: 1,
                name: "mode_changed"@,
                args: map!["mode"@ => Json::Text(mode)],
            };
            let r = command(inst, "set_mode"@, args);
            &&& r.scratch == inst.scratch.insert("mode"@, Json::Text(mode))
            &&& holds_pairing(inst.properties, p) ==> r.out == seq![
                writes(p, aid, iid, count(n)),
                told,
            ]
            &&& lacks_pairing(inst.properties) ==> r.out == seq![not_paired(), told]
        }),
{
    crate::laws::names::lemma_modes();
    lemma_thermostat(inst);
    law_places_are_found(inst.scratch, "target_state"@, aid, iid);
    let t = Json::Object(
        map!["aid"@ => count(aid), "iid"@ => count(iid), "value"@ => count(n)],
    );
    law_values_are_one_write(inst.properties, p, seq![t]);
    assert(text_argument(args, "mode"@) == Some(mode));
}

/// A mode is refused where none was given, where it is none of the four, and where the target
/// state has no place.
pub proof fn law_a_mode_is_refused(
    inst: Instance,
    args: Map<Seq<char>, Json>,
    mode: Seq<char>,
    n: u64,
)
    requires
        is_read_thermostat(inst),
    ensures
        no_text(args, "mode"@) ==> only_warns(
            inst,
            command(inst, "set_mode"@, args),
            "ecobee-hap: no mode"@,
        ),
        stands(args, "mode"@, Json::Text(mode)) && mode != "off"@ && mode != "heat"@ && mode
            != "cool"@ && mode != "auto"@ ==> only_warns(
            inst,
            command(inst, "set_mode"@, args),
            "ecobee-hap: unknown mode `"@ + mode + "`"@,
        ),
        stands(args, "mode"@, Json::Text(mode)) && number_of_mode(mode, n) && not_placed(
            inst.scratch,
            "target_state"@,
        ) ==> only_warns(
            inst,
            command(inst, "set_mode"@, args),
            "ecobee-hap: no target state characteristic"@,
        ),
{
    lemma_thermostat(inst);
    crate::laws::names::lemma_modes();
    if text_argument(args, "mode"@) is Some {
        let s = text_argument(args, "mode"@)->0;
        assert(stands(args, "mode"@, Json::Text(s)));
    }
    if not_placed(inst.scratch, "target_state"@) {
        lemma_not_placed(inst.scratch, "target_state"@);
    }
}

/// A thermostat is in auto where it remembers so.
pub open spec fn known_auto(inst: Instance) -> bool {
    stands(inst.scratch, "mode"@, Json::Text("auto"@))
}

/// The key of the place that a setpoint goes to, and the key it is shown under.
pub open spec fn setpoint_keys(
    inst: Instance,
    heating: bool,
    place: Seq<char>,
    shown: Seq<char>,
) -> bool {
    if known_auto(inst) {
        if heating {
            place == "heat_threshold"@ && shown == "heat_setpoint_c"@
        } else {
            place == "cool_threshold"@ && shown == "cool_setpoint_c"@
        }
    } else {
        place == "target_temp"@ && shown == "setpoint_c"@
    }
}

/// The command and the word for a side.
pub open spec fn side(heating: bool, cmd: Seq<char>, which: Seq<char>) -> bool {
    if heating {
        cmd == "set_heat_setpoint"@ && which == "heat"@
    } else {
        cmd == "set_cool_setpoint"@ && which == "cool"@
    }
}

/// Setting a setpoint to any number writes that number, as a double, to its place, tells it, and
/// shows it. Nothing is remembered.
pub proof fn law_a_setpoint_is_set(
    inst: Instance,
    cmd: Seq<char>,
    args: Map<Seq<char>, Json>,
    p: Pairing,
    heating: bool,
    which: Seq<char>,
    n: Number,
    place: Seq<char>,
    shown: Seq<char>,
    aid: u64,
    iid: u64,
)
    requires
        no_count(inst.properties, "Accessory aid"@),
        side(heating, cmd, which),
        stands(args, "celsius"@, Json::Number(n)),
        setpoint_keys(inst, heating, place, shown),
        placed(inst.scratch, place, aid, iid),
    ensures
        ({
            let told = Call::Notify {
                proxy: 1,
                name: "setpoint_changed"@,
                args: map!["which"@ => Json::Text(which), "celsius"@ => as_double(n)],
            };
            let show = Call::SetState { proxy: 1, key: shown, value: as_double(n) };
            let r = command(inst, cmd, args);
            &&& r.scratch == inst.scratch
            &&& holds_pairing(inst.properties, p) ==> r.out == seq![
                writes(p, aid, iid, as_double(n)),
                told,
                show,
            ]
            &&& lacks_pairing(inst.properties) ==> r.out == seq![not_paired(), told, show]
        }),
{
    crate::laws::commands::lemma_commands();
    lemma_thermostat(inst);
    law_doubles_are_told(n);
    law_places_are_found(inst.scratch, place, aid, iid);
    let t = Json::Object(
        map!["aid"@ => count(aid), "iid"@ => count(iid), "value"@ => as_double(n)],
    );
    law_values_are_one_write(inst.properties, p, seq![t]);
    assert(double_argument(args, "celsius"@) == Some(number_double(n)));
}

/// A setpoint is refused where no number was given, and where it has no place.
pub proof fn law_a_setpoint_is_refused(
    inst: Instance,
    cmd: Seq<char>,
    args: Map<Seq<char>, Json>,
    heating: bool,
    which: Seq<char>,
    n: Number,
    place: Seq<char>,
    shown: Seq<char>,
)
    requires
        is_read_thermostat(inst),
        side(heating, cmd, which),
        setpoint_keys(inst, heating, place, shown),
    ensures
        no_number(args, "celsius"@) ==> only_warns(
            inst,
            command(inst, cmd, args),
            "ecobee-hap: no celsius value"@,
        ),
        stands(args, "celsius"@, Json::Number(n)) && not_placed(inst.scratch, place) ==> only_warns(
            inst,
            command(inst, cmd, args),
            if known_auto(inst) {
                "ecobee-hap: this thermostat has no "@ + place + " characteristic"@
            } else {
                "ecobee-hap: no target temperature"@
            },
        ),
{
    crate::laws::commands::lemma_commands();
    lemma_thermostat(inst);
    match member(args, "celsius"@) {
        Some(Json::Number(v)) => {
            assert(stands(args, "celsius"@, Json::Number(v)));
        },
        _ => {},
    }
    if not_placed(inst.scratch, place) {
        lemma_not_placed(inst.scratch, place);
    }
}

} // verus!

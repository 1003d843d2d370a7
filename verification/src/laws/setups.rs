//! Laws of setup.

use crate::driver::{SENSOR, THERMOSTAT};
use crate::json::{member, Json, Number};
use crate::model::accessory::{accessories, aid_of};
use crate::model::driver::{bind, sensor_aid};
use crate::model::host::{Call, Candidate, Instance, Step};
use crate::model::report::{first_numbered, online, sensor_report, sensor_services, Progress};
use crate::model::request::paired;
use crate::model::setup::{
    address_of, after_pairing, announced, ask, discover, ecobees, error_text, field,
    first_ecobee, found, is_ecobee, is_sensor, list, members_of, pair, port_of, put,
    read_accessories, response, run, sensor_candidate, sensor_candidates, thermostat_candidate,
    thermostat_properties, typed_code, with, Announcement,
};
use vstd::prelude::*;

verus! {

/// A room sensor is never set up on its own.
pub proof fn law_sensor_is_never_set_up(state: Json, input: Map<Seq<char>, Json>)
    ensures
        discover(SENSOR@, state, input).step == (Step::Done { candidates: seq![] }),
        discover(SENSOR@, state, input).state == Json::Null,
{
    reveal_strlit("ecobee.hap.sensor");
    reveal_strlit("ecobee.hap.thermostat");
    assert("ecobee.hap.sensor"@.len() == 17 && "ecobee.hap.thermostat"@.len() == 21);
}

// ---------------------------------------------------------------------------------------
// Which accessory is paired
// ---------------------------------------------------------------------------------------

/// The ecobees of a list are exactly its ecobees.
proof fn lemma_ecobees(list: Seq<Announcement>, a: Announcement)
    ensures
        ecobees(list).contains(a) <==> list.contains(a) && is_ecobee(a),
    decreases list.len(),
{
    if list.len() > 0 {
        let front = list.drop_last();
        lemma_ecobees(front, a);
        let chosen = ecobees(front);
        if ecobees(list).contains(a) {
            let i = choose|i: int| 0 <= i < ecobees(list).len() && ecobees(list)[i] == a;
            if i < chosen.len() {
                assert(chosen[i] == a);
                let j = choose|j: int| 0 <= j < front.len() && front[j] == a;
                assert(list[j] == a);
            } else {
                assert(list[list.len() - 1] == a);
            }
        }
        if list.contains(a) && is_ecobee(a) {
            let i = choose|i: int| 0 <= i < list.len() && list[i] == a;
            if i < front.len() {
                assert(front[i] == a);
                let j = choose|j: int| 0 <= j < chosen.len() && chosen[j] == a;
                assert(ecobees(list)[j] == a);
            } else {
                assert(ecobees(list)[chosen.len() as int] == a);
            }
        }
    }
}

/// The first ecobee of a list is an ecobee of it; there is none only where no ecobee is.
proof fn lemma_first_ecobee(list: Seq<Announcement>)
    ensures
        match first_ecobee(list) {
            Some(a) => list.contains(a) && is_ecobee(a),
            None => forall|i: int| 0 <= i < list.len() ==> !is_ecobee(#[trigger] list[i]),
        },
    decreases list.len(),
{
    if list.len() > 0 {
        let rest = list.drop_first();
        lemma_first_ecobee(rest);
        if is_ecobee(list[0]) {
            assert(list.contains(list[0]));
        } else {
            match first_ecobee(rest) {
                Some(a) => {
                    let i = choose|i: int| 0 <= i < rest.len() && rest[i] == a;
                    assert(list[i + 1] == a);
                },
                None => {
                    assert forall|i: int| 0 <= i < list.len() implies !is_ecobee(
                        #[trigger] list[i],
                    ) by {
                        if i > 0 {
                            assert(rest[i - 1] == list[i]);
                        }
                    }
                },
            }
        }
    }
}

/// Where an ecobee answered, the ecobees are shown and nothing else; where none did,
/// everything that answered is.
pub proof fn law_ecobees_come_first(state: Json, a: Announcement)
    ensures
        ({
            let all = announced(state.items_at("mdns_candidates"@));
            &&& all.contains(a) && is_ecobee(a) ==> found(state).contains(a)
            &&& found(state).contains(a) ==> all.contains(a)
            &&& found(state).contains(a) && !is_ecobee(a) ==> found(state) == all && (forall|i: int|
                0 <= i < all.len() ==> !is_ecobee(#[trigger] all[i]))
        }),
{
    let all = announced(state.items_at("mdns_candidates"@));
    let chosen = ecobees(all);
    lemma_ecobees(all, a);
    if chosen.len() == 0 {
        assert forall|i: int| 0 <= i < all.len() implies !is_ecobee(#[trigger] all[i]) by {
            lemma_ecobees(all, all[i]);
            assert(all.contains(all[i]));
        }
    }
}

/// Nothing but an ecobee that announces itself, and is not paired already, is ever paired, and
/// only once a code was typed. It is paired where it announced itself, with that code.
pub proof fn law_only_an_ecobee_is_paired(state: Json, input: Map<Seq<char>, Json>)
    requires
        ask(state, input).step is Fetch,
    ensures
        typed_code(input).len() > 0,
        exists|a: Announcement|
            {
                &&& #[trigger] announced(state.items_at("mdns_candidates"@)).contains(a)
                &&& is_ecobee(a)
                &&& !a.paired_already
                &&& ask(state, input) == pair(state, a.address, a.port, typed_code(input))
            },
{
    lemma_first_ecobee(found(state));
    let a = first_ecobee(found(state))->0;
    law_ecobees_come_first(state, a);
    assert(announced(state.items_at("mdns_candidates"@)).contains(a));
}

/// Until something is sent, asking leaves the state as it was; pressing on without a code
/// sends nothing.
pub proof fn law_asking_keeps_the_state(state: Json, input: Map<Seq<char>, Json>)
    ensures
        ask(state, input).step !is Fetch ==> ask(state, input).state == state,
        typed_code(input).len() == 0 ==> ask(state, input).step !is Fetch,
{
}

// ---------------------------------------------------------------------------------------
// From pairing to a device
// ---------------------------------------------------------------------------------------

/// One more update is one more insertion.
pub proof fn lemma_put(
    m: Map<Seq<char>, Json>,
    updates: Seq<(Seq<char>, Json)>,
    last: (Seq<char>, Json),
)
    ensures
        put(m, updates.push(last)) == put(m, updates).insert(last.0, last.1),
{
    assert(updates.push(last).drop_last() =~= updates);
}

/// The keys of setup's state are all different.
pub proof fn lemma_state_keys()
    ensures
        "stage"@ != "address"@,
        "stage"@ != "port"@,
        "stage"@ != "browse"@,
        "stage"@ != "Address"@,
        "stage"@ != "Port"@,
        "stage"@ != "Accessory id"@,
        "stage"@ != "Accessory key"@,
        "stage"@ != "Controller id"@,
        "stage"@ != "Controller key"@,
        "address"@ != "port"@,
        "address"@ != "browse"@,
        "address"@ != "Address"@,
        "address"@ != "Port"@,
        "port"@ != "browse"@,
        "port"@ != "Address"@,
        "port"@ != "Port"@,
        "Accessory id"@ != "Accessory key"@,
        "Accessory id"@ != "Controller id"@,
        "Accessory id"@ != "Controller key"@,
        "Accessory key"@ != "Controller id"@,
        "Accessory key"@ != "Controller key"@,
        "Controller id"@ != "Controller key"@,
        "Accessory id"@ != "browse"@,
        "Accessory key"@ != "browse"@,
        "Controller id"@ != "browse"@,
        "Controller key"@ != "browse"@,
        "Accessory id"@ != "Address"@,
        "Accessory key"@ != "Address"@,
        "Controller id"@ != "Address"@,
        "Controller key"@ != "Address"@,
        "Accessory id"@ != "Port"@,
        "Accessory key"@ != "Port"@,
        "Controller id"@ != "Port"@,
        "Controller key"@ != "Port"@,
        "Accessory id"@ != "address"@,
        "Accessory key"@ != "address"@,
        "Controller id"@ != "address"@,
        "Controller key"@ != "address"@,
        "Accessory id"@ != "port"@,
        "Accessory key"@ != "port"@,
        "Controller id"@ != "port"@,
        "Controller key"@ != "port"@,
        "Address"@ != "Port"@,
        "pairing"@ != "listing"@,
{
    reveal_strlit("stage");
    reveal_strlit("address");
    reveal_strlit("port");
    reveal_strlit("browse");
    reveal_strlit("Address");
    reveal_strlit("Port");
    reveal_strlit("Accessory id");
    reveal_strlit("Accessory key");
    reveal_strlit("Controller id");
    reveal_strlit("Controller key");
    reveal_strlit("pairing");
    reveal_strlit("listing");
    assert("stage"@.len() == 5 && "address"@.len() == 7 && "port"@.len() == 4 && "browse"@.len() == 6
        && "Address"@.len() == 7 && "Port"@.len() == 4 && "Accessory id"@.len() == 12
        && "Accessory key"@.len() == 13 && "Controller id"@.len() == 13 && "Controller key"@.len()
        == 14);
    assert("address"@[0] == 'a' && "Address"@[0] == 'A' && "port"@[0] == 'p' && "Port"@[0] == 'P');
    assert("Accessory key"@[0] == 'A' && "Controller id"@[0] == 'C');
    assert("pairing"@[0] == 'p' && "listing"@[0] == 'l');
}

/// What pairing puts into the state.
proof fn lemma_pair_state(state: Json, address: Seq<char>, port: u64, code: Seq<char>)
    ensures
        ({
            let s = pair(state, address, port, code).state;
            &&& s.get("stage"@) == Some(Json::Text("pairing"@))
            &&& s.get("address"@) == Some(Json::Text(address))
            &&& s.get("port"@) == Some(Json::Number(Number::Unsigned(port)))
            &&& forall|key: Seq<char>|
                key != "stage"@ && key != "address"@ && key != "port"@ ==> #[trigger] s.get(key)
                    == member(members_of(state), key)
        }),
{
    lemma_state_keys();
    let m = members_of(state);
    let a = ("stage"@, Json::Text("pairing"@));
    let b = ("address"@, Json::Text(address));
    let c = ("port"@, Json::Number(Number::Unsigned(port)));
    lemma_put(m, Seq::empty(), a);
    lemma_put(m, seq![a], b);
    lemma_put(m, seq![a, b], c);
    assert(Seq::<(Seq<char>, Json)>::empty().push(a) =~= seq![a]);
    assert(seq![a].push(b) =~= seq![a, b]);
    assert(seq![a, b].push(c) =~= seq![a, b, c]);
}

/// After a pairing request the next turn looks at its answer.
pub proof fn law_pairing_is_awaited(
    state: Json,
    address: Seq<char>,
    port: u64,
    code: Seq<char>,
    input: Map<Seq<char>, Json>,
)
    requires
        state.get("browse"@) != Some(Json::Bool(true)),
    ensures
        ({
            let s = pair(state, address, port, code).state;
            run(s, input) == after_pairing(s, input)
        }),
{
    lemma_pair_state(state, address, port, code);
    lemma_state_keys();
}

/// The state in which a successful pairing reads the accessory database.
spec fn paired_state(state: Json, answer: Json) -> Json {
    with(
        state,
        seq![
            ("stage"@, Json::Text("listing"@)),
            ("Accessory id"@, Json::Text(field(answer, "accessory_id"@))),
            ("Accessory key"@, Json::Text(field(answer, "accessory_ltpk"@))),
            ("Controller id"@, Json::Text(field(answer, "controller_id"@))),
            ("Controller key"@, Json::Text(field(answer, "controller_sk"@))),
        ],
    )
}

proof fn lemma_paired_state(state: Json, answer: Json)
    ensures
        ({
            let s = paired_state(state, answer);
            &&& s.get("stage"@) == Some(Json::Text("listing"@))
            &&& field(s, "Accessory id"@) == field(answer, "accessory_id"@)
            &&& field(s, "Accessory key"@) == field(answer, "accessory_ltpk"@)
            &&& field(s, "Controller id"@) == field(answer, "controller_id"@)
            &&& field(s, "Controller key"@) == field(answer, "controller_sk"@)
            &&& s.get("browse"@) == state.get("browse"@)
            &&& address_of(s) == address_of(state)
            &&& port_of(s) == port_of(state)
        }),
{
    lemma_state_keys();
    let m = members_of(state);
    let a = ("stage"@, Json::Text("listing"@));
    let b = ("Accessory id"@, Json::Text(field(answer, "accessory_id"@)));
    let c = ("Accessory key"@, Json::Text(field(answer, "accessory_ltpk"@)));
    let d = ("Controller id"@, Json::Text(field(answer, "controller_id"@)));
    let e = ("Controller key"@, Json::Text(field(answer, "controller_sk"@)));
    lemma_put(m, Seq::empty(), a);
    lemma_put(m, seq![a], b);
    lemma_put(m, seq![a, b], c);
    lemma_put(m, seq![a, b, c], d);
    lemma_put(m, seq![a, b, c, d], e);
    assert(Seq::<(Seq<char>, Json)>::empty().push(a) =~= seq![a]);
    assert(seq![a].push(b) =~= seq![a, b]);
    assert(seq![a, b].push(c) =~= seq![a, b, c]);
    assert(seq![a, b, c].push(d) =~= seq![a, b, c, d]);
    assert(seq![a, b, c, d].push(e) =~= seq![a, b, c, d, e]);
    let s = paired_state(state, answer);
    assert(s.get("Address"@) == state.get("Address"@));
    assert(s.get("address"@) == state.get("address"@));
    assert(s.get("Port"@) == state.get("Port"@));
    assert(s.get("port"@) == state.get("port"@));
}

/// The state that reading the accessory database leaves differs only in its stage.
proof fn lemma_read_state(state: Json)
    ensures
        ({
            let s = read_accessories(state).state;
            &&& s.get("stage"@) == Some(Json::Text("listing"@))
            &&& s.get("browse"@) == state.get("browse"@)
            &&& address_of(s) == address_of(state)
            &&& port_of(s) == port_of(state)
            &&& field(s, "Accessory id"@) == field(state, "Accessory id"@)
            &&& field(s, "Accessory key"@) == field(state, "Accessory key"@)
            &&& field(s, "Controller id"@) == field(state, "Controller id"@)
            &&& field(s, "Controller key"@) == field(state, "Controller key"@)
        }),
{
    lemma_state_keys();
    let m = members_of(state);
    let a = ("stage"@, Json::Text("listing"@));
    lemma_put(m, Seq::empty(), a);
    assert(Seq::<(Seq<char>, Json)>::empty().push(a) =~= seq![a]);
    let s = read_accessories(state).state;
    assert(s.get("Address"@) == state.get("Address"@));
    assert(s.get("address"@) == state.get("address"@));
    assert(s.get("Port"@) == state.get("Port"@));
    assert(s.get("port"@) == state.get("port"@));
    assert(s.get("Accessory id"@) == state.get("Accessory id"@));
    assert(s.get("Accessory key"@) == state.get("Accessory key"@));
    assert(s.get("Controller id"@) == state.get("Controller id"@));
    assert(s.get("Controller key"@) == state.get("Controller key"@));
}

/// Whether a pairing answer holds what the accessory must give.
pub open spec fn pairing_done(input: Map<Seq<char>, Json>) -> bool {
    &&& error_text(input) is None
    &&& field(response(input), "accessory_id"@).len() > 0
    &&& field(response(input), "accessory_ltpk"@).len() > 0
}

/// A pairing is used as it was given: once done, the accessory database is read at the same
/// place with exactly the four parts of the answer, and the next turn lists what came back.
pub proof fn law_pairing_is_used(
    state: Json,
    input: Map<Seq<char>, Json>,
    next: Map<Seq<char>, Json>,
)
    requires
        pairing_done(input),
    ensures
        ({
            let answer = response(input);
            let t = after_pairing(state, input);
            &&& t.step == Step::Fetch {
                request: paired(
                    "GET"@,
                    address_of(state),
                    port_of(state),
                    "/accessories"@,
                    field(answer, "accessory_id"@),
                    field(answer, "accessory_ltpk"@),
                    field(answer, "controller_id"@),
                    field(answer, "controller_sk"@),
                ),
                note: "list"@,
            }
            &&& state.get("browse"@) != Some(Json::Bool(true)) ==> run(t.state, next) == list(
                t.state,
                next,
                true,
            )
        }),
{
    let answer = response(input);
    let s = paired_state(state, answer);
    lemma_paired_state(state, answer);
    lemma_read_state(s);
    lemma_state_keys();
}

/// What was paired is what is read: a first setup reads the accessory database at the address
/// and port it paired at.
pub proof fn law_reads_where_it_paired(
    state: Json,
    address: Seq<char>,
    port: u64,
    code: Seq<char>,
)
    requires
        field(state, "Address"@).len() == 0,
        state.get("Port"@) is None,
    ensures
        address_of(pair(state, address, port, code).state) == address,
        port_of(pair(state, address, port, code).state) == port,
{
    lemma_pair_state(state, address, port, code);
    lemma_state_keys();
    let s = pair(state, address, port, code).state;
    assert(s.get("Address"@) == state.get("Address"@));
    assert(s.get("Port"@) == state.get("Port"@));
}

/// The properties that a thermostat is adopted with authorise the request that setup read it
/// with.
pub proof fn law_adopted_thermostat_reads_the_same(state: Json, scratch: Map<Seq<char>, Json>)
    requires
        address_of(state).len() > 0,
        field(state, "Accessory id"@).len() > 0,
        field(state, "Accessory key"@).len() > 0,
        field(state, "Controller id"@).len() > 0,
        field(state, "Controller key"@).len() > 0,
    ensures
        ({
            let asked = read_accessories(state);
            let adopted = Instance {
                properties: thermostat_properties(asked.state),
                scratch,
            };
            bind(adopted) == seq![Call::Http(asked.step->request)]
        }),
{
    lemma_read_state(state);
    lemma_state_keys();
    let properties = thermostat_properties(read_accessories(state).state);
    assert(member(properties, "Address"@) == Some(Json::Text(address_of(state))));
    assert(member(properties, "Port"@) == Some(Json::Number(Number::Unsigned(port_of(state)))));
    assert(member(properties, "Accessory id"@) == Some(Json::Text(field(state, "Accessory id"@))));
    assert(member(properties, "Accessory key"@) == Some(Json::Text(field(state, "Accessory key"@))));
    assert(member(properties, "Controller id"@) == Some(Json::Text(field(state, "Controller id"@))));
    assert(member(properties, "Controller key"@) == Some(
        Json::Text(field(state, "Controller key"@)),
    ));
}

/// Setup ends in what it was for: once pairing is done and the accessory database came back,
/// the thermostat is offered first, with properties that make it read the same database at the
/// same place with the same pairing.
pub proof fn law_setup_hands_over(
    state: Json,
    input: Map<Seq<char>, Json>,
    next: Map<Seq<char>, Json>,
    scratch: Map<Seq<char>, Json>,
)
    requires
        state.get("browse"@) != Some(Json::Bool(true)),
        address_of(state).len() > 0,
        pairing_done(input),
        field(response(input), "controller_id"@).len() > 0,
        field(response(input), "controller_sk"@).len() > 0,
        error_text(next) is None,
        accessories(response(next)).len() > 0,
    ensures
        ({
            let asked = after_pairing(state, input);
            let offered = run(asked.state, next);
            &&& offered.step is Done
            &&& offered.step->candidates.len() > 0
            &&& offered.step->candidates[0].driver_id == THERMOSTAT@
            &&& bind(
                Instance { properties: offered.step->candidates[0].properties, scratch },
            ) == seq![Call::Http(asked.step->request)]
        }),
{
    law_pairing_is_used(state, input, next);
    let s = paired_state(state, response(input));
    lemma_paired_state(state, response(input));
    law_adopted_thermostat_reads_the_same(s, scratch);
    let asked = after_pairing(state, input);
    let candidates = run(asked.state, next).step->candidates;
    assert(candidates[0] == thermostat_candidate(asked.state, accessories(response(next))));
}

/// A setup that gives up remembers nothing, and starts over.
pub proof fn law_failure_starts_over(
    state: Json,
    input: Map<Seq<char>, Json>,
    next: Map<Seq<char>, Json>,
)
    requires
        run(state, input).step is Failed,
    ensures
        run(state, input).state == Json::Null,
        run(run(state, input).state, next) == ask(Json::Null, next),
{
    reveal_strlit("");
    reveal_strlit("pairing");
    reveal_strlit("listing");
    assert(""@.len() == 0 && "pairing"@.len() == 7 && "listing"@.len() == 7);
}

// ---------------------------------------------------------------------------------------
// What is offered
// ---------------------------------------------------------------------------------------

/// The offered sensors come from the accessories that are sensors, and every one of those is
/// offered.
pub proof fn law_sensors_are_offered(all: Seq<Json>, c: Candidate)
    ensures
        sensor_candidates(all).contains(c) <==> exists|i: int|
            0 <= i < all.len() && is_sensor(#[trigger] all[i]) && sensor_candidate(all[i]) == c,
    decreases all.len(),
{
    if all.len() > 0 {
        let front = all.drop_last();
        law_sensors_are_offered(front, c);
        let some = sensor_candidates(front);
        let every = sensor_candidates(all);
        if every.contains(c) {
            let k = choose|k: int| 0 <= k < every.len() && every[k] == c;
            if k < some.len() {
                assert(some[k] == c);
                let i = choose|i: int|
                    0 <= i < front.len() && is_sensor(#[trigger] front[i]) && sensor_candidate(
                        front[i],
                    ) == c;
                assert(all[i] == front[i]);
                assert(is_sensor(all[i]));
            } else {
                assert(is_sensor(all[all.len() - 1]));
            }
        }
        if exists|i: int|
            0 <= i < all.len() && is_sensor(#[trigger] all[i]) && sensor_candidate(all[i]) == c {
            let i = choose|i: int|
                0 <= i < all.len() && is_sensor(#[trigger] all[i]) && sensor_candidate(all[i]) == c;
            if i < front.len() {
                assert(front[i] == all[i]);
                let k = choose|k: int| 0 <= k < some.len() && some[k] == c;
                assert(every[k] == c);
            } else {
                assert(every[some.len() as int] == c);
            }
        }
    }
}

/// Browsing a thermostat that is set up already pairs nothing and offers room sensors only.
pub proof fn law_browsing_offers_sensors(
    state: Json,
    input: Map<Seq<char>, Json>,
    i: int,
)
    requires
        state.get("browse"@) == Some(Json::Bool(true)),
    ensures
        match run(state, input).step {
            Step::Done { candidates } => 0 <= i < candidates.len() ==> candidates[i].driver_id
                == SENSOR@,
            Step::Fetch { request, note } => run(state, input) == read_accessories(state),
            Step::Failed { .. } => true,
            _ => false,
        },
{
    let all = accessories(response(input));
    let t = list(state, input, false);
    if t.step is Done {
        let candidates = t.step->candidates;
        assert(candidates =~= sensor_candidates(all));
        if 0 <= i < candidates.len() {
            law_sensors_are_offered(all, candidates[i]);
            assert(sensor_candidates(all).contains(candidates[i]));
        }
    }
}

/// What has a number is found by it.
proof fn lemma_first_numbered(all: Seq<Json>, i: int)
    requires
        0 <= i < all.len(),
    ensures
        first_numbered(all, aid_of(all[i])) is Some,
        aid_of(first_numbered(all, aid_of(all[i]))->0) == aid_of(all[i]),
        (forall|j: int| 0 <= j < i ==> aid_of(#[trigger] all[j]) != aid_of(all[i]))
            ==> first_numbered(all, aid_of(all[i])) == Some(all[i]),
    decreases all.len(),
{
    if aid_of(all[0]) != aid_of(all[i]) {
        let rest = all.drop_first();
        assert(rest[i - 1] == all[i]);
        lemma_first_numbered(rest, i - 1);
        if forall|j: int| 0 <= j < i ==> aid_of(#[trigger] all[j]) != aid_of(all[i]) {
            assert forall|j: int| 0 <= j < i - 1 implies aid_of(#[trigger] rest[j]) != aid_of(
                rest[i - 1],
            ) by {
                assert(rest[j] == all[j + 1]);
            }
        }
    } else if i > 0 {
        assert(!(forall|j: int| 0 <= j < i ==> aid_of(#[trigger] all[j]) != aid_of(all[i]))) by {
            assert(aid_of(all[0]) == aid_of(all[i]));
        }
    }
}

/// A sensor that was offered is found again: the device it is adopted as looks for the number
/// that setup recorded, which the same document holds, and is told to be online. Where no
/// earlier accessory has that number, it reads the very accessory it was offered for.
pub proof fn law_offered_sensor_is_found(
    doc: Json,
    i: int,
    scratch: Map<Seq<char>, Json>,
)
    requires
        0 <= i < accessories(doc).len(),
        is_sensor(accessories(doc)[i]),
    ensures
        ({
            let accessory = accessories(doc)[i];
            let adopted = Instance {
                properties: sensor_candidate(accessory).properties,
                scratch,
            };
            &&& sensor_aid(adopted) == Some(aid_of(accessory))
            &&& sensor_report(scratch, doc, aid_of(accessory)).out.len() > 0
            &&& sensor_report(scratch, doc, aid_of(accessory)).out[0] == online(1)
            &&& (forall|j: int|
                0 <= j < i ==> aid_of(#[trigger] accessories(doc)[j]) != aid_of(accessory))
                ==> first_numbered(accessories(doc), aid_of(accessory)) == Some(accessory)
        }),
{
    let all = accessories(doc);
    lemma_first_numbered(all, i);
    let accessory = first_numbered(all, aid_of(all[i]))->0;
    let start = Progress { scratch, out: seq![online(1)] };
    lemma_out_grows(accessory, crate::model::accessory::services(accessory), start);
}

proof fn lemma_out_grows(accessory: Json, all: Seq<Json>, p: Progress)
    requires
        p.out.len() > 0,
    ensures
        sensor_services(accessory, all, p).out.len() > 0,
        sensor_services(accessory, all, p).out[0] == p.out[0],
    decreases all.len(),
{
    if all.len() > 0 {
        lemma_out_grows(accessory, all.drop_last(), p);
    }
}

} // verus!

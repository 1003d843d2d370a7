//! What the small operations do, on all they can be given.

use crate::double::{finite, to_tenths};
use crate::host::{Candidate, Field, HostCall, HttpRequest, Instance, SetupStep};
use crate::json::{Json, Number, Object, Value};
use crate::laws::plain::{count, items, no_count, own, parts, says, stands};
use crate::laws::requests::{law_places_are_found, placed};
use crate::model::accessory::{
    accessories, characteristic, characteristics, find, hap_type, has_service, listed, name_of,
    number, service_type, services, Characteristic,
};
use crate::model::host;
use crate::model::report::{first_numbered, first_with, notify, occupancy, offline, online, Progress};
use crate::model::request::{paired, remembered, target, text, unsigned_or, url};
use crate::model::setup::{
    announced, ecobees, found, is_ecobee, names, nothing_found, pair, Announcement, Turn,
};
use crate::text::{begins, decimal, upper};
use vstd::prelude::*;

verus! {

// ---------------------------------------------------------------------------------------
// Documents
// ---------------------------------------------------------------------------------------

/// The accessories of a document, the services of an accessory and the characteristics of a
/// service are all the items of the arrays under those keys.
pub proof fn law_lists_are_whole(j: Json, accessory: Json)
    ensures
        accessories(j) == items(j, "accessories"@),
        services(j) == items(j, "services"@),
        characteristics(accessory, j) == listed(
            crate::model::accessory::aid_of(accessory),
            items(j, "characteristics"@),
        ),
{
}

/// A characteristic carries its accessory's number, its own, its short type and its value, which
/// is `null` where it says none. One without a number or a type is left out.
pub proof fn law_a_characteristic_is_taken_up(aid: u64, c: Json, iid: u64, raw: Seq<char>, v: Json)
    ensures
        says(c, "iid"@, count(iid)) && says(c, "type"@, Json::Text(raw)) && (says(c, "value"@, v)
            || (v == Json::Null && !own(c).dom().contains("value"@))) ==> characteristic(aid, c)
            == Some(Characteristic { aid, iid, ty: hap_type(raw), value: v }),
        no_count(own(c), "iid"@) || (forall|s: Seq<char>|
            !#[trigger] says(c, "type"@, Json::Text(s))) ==> characteristic(aid, c) is None,
{
    if characteristic(aid, c) is Some {
        assert(stands(own(c), "iid"@, count(c.unsigned_at("iid"@)->0)));
        assert(says(c, "type"@, Json::Text(c.text_at("type"@)->0)));
    }
}

/// Characteristics come in their order.
pub proof fn law_characteristics_come_in_turn(aid: u64, list: Seq<Json>, c: Json)
    ensures
        listed(aid, seq![]) == Seq::<Characteristic>::empty(),
        listed(aid, list.push(c)) == (match characteristic(aid, c) {
            Some(x) => listed(aid, list).push(x),
            None => listed(aid, list),
        }),
{
    assert(list.push(c).drop_last() =~= list);
}

/// What is looked for by its type is the first of that type, and nothing where there is none.
pub proof fn law_the_first_of_a_type_counts(chars: Seq<Characteristic>, ty: Seq<char>, i: int)
    ensures
        0 <= i < chars.len() && chars[i].ty == ty && (forall|j: int|
            0 <= j < i ==> (#[trigger] chars[j]).ty != ty) ==> find(chars, ty) == Some(chars[i]),
        (forall|j: int| 0 <= j < chars.len() ==> (#[trigger] chars[j]).ty != ty) ==> find(
            chars,
            ty,
        ) is None,
    decreases chars.len(),
{
    if chars.len() > 0 {
        let rest = chars.drop_first();
        law_the_first_of_a_type_counts(rest, ty, i - 1);
        if 0 < i < chars.len() && chars[i].ty == ty && (forall|j: int|
            0 <= j < i ==> (#[trigger] chars[j]).ty != ty) {
            assert(chars[0].ty != ty);
            assert(rest[i - 1] == chars[i]);
            assert forall|j: int| 0 <= j < i - 1 implies (#[trigger] rest[j]).ty != ty by {
                assert(chars[j + 1].ty != ty);
            }
        }
        if forall|j: int| 0 <= j < chars.len() ==> (#[trigger] chars[j]).ty != ty {
            assert(chars[0].ty != ty);
            assert forall|j: int| 0 <= j < rest.len() implies (#[trigger] rest[j]).ty != ty by {
                assert(chars[j + 1].ty != ty);
            }
        }
    }
}

/// A number, and a name, is what the first characteristic of its type holds. An empty name is
/// none.
pub proof fn law_a_characteristic_is_read(
    chars: Seq<Characteristic>,
    ty: Seq<char>,
    n: Number,
    s: Seq<char>,
)
    ensures
        find(chars, ty) is Some && find(chars, ty)->0.value == Json::Number(n) ==> number(chars, ty)
            == Some(crate::json::number_double(n)),
        find(chars, ty) is None || find(chars, ty)->0.value !is Number ==> number(chars, ty) is None,
        find(chars, "23"@) is Some && find(chars, "23"@)->0.value == Json::Text(s) && s.len() > 0
            ==> name_of(chars) == Some(s),
        find(chars, "23"@) is None || find(chars, "23"@)->0.value !is Text || find(
            chars,
            "23"@,
        )->0.value == Json::Text(seq![]) ==> name_of(chars) is None,
{
}

/// A service has the short form of the type it says, and none where it says none; an accessory
/// has a service where one of its services has that type.
pub proof fn law_services_have_types(j: Json, raw: Seq<char>, want: Seq<char>, i: int)
    ensures
        says(j, "type"@, Json::Text(raw)) ==> service_type(j) == Some(hap_type(raw)),
        (forall|s: Seq<char>| !#[trigger] says(j, "type"@, Json::Text(s))) ==> service_type(j) is None,
        0 <= i < items(j, "services"@).len() && service_type(items(j, "services"@)[i]) == Some(want)
            ==> has_service(j, want),
        (forall|k: int|
            0 <= k < items(j, "services"@).len() ==> service_type(
                #[trigger] items(j, "services"@)[k],
            ) != Some(want)) ==> !has_service(j, want),
{
    if service_type(j) is Some {
        assert(says(j, "type"@, Json::Text(j.text_at("type"@)->0)));
    }
    assert(services(j) == items(j, "services"@));
    if 0 <= i < items(j, "services"@).len() && service_type(items(j, "services"@)[i]) == Some(want) {
        assert(service_type(services(j)[i]) == Some(want));
    }
    if has_service(j, want) {
        let k = choose|k: int|
            0 <= k < services(j).len() && service_type(#[trigger] services(j)[k]) == Some(want);
        assert(service_type(items(j, "services"@)[k]) == Some(want));
    }
}

/// A type of nothing but zeros is `0`.
pub proof fn law_a_type_of_zeros(raw: Seq<char>, zeros: nat, tail: Seq<char>)
    requires
        parts(raw, zeros, seq![], tail),
    ensures
        hap_type(raw) == seq!['0'],
{
    reveal_strlit("0");
    assert("0"@ =~= seq!['0']);
    assert(upper(Seq::<char>::empty()) =~= Seq::<char>::empty());
    crate::laws::plain::lemma_parts(raw, zeros, seq![], tail);
}

/// Capitals of ASCII text, one by one.
pub proof fn law_capital_letters(s: Seq<char>, i: int)
    requires
        vstd::utf8::is_ascii_chars(s),
        0 <= i < s.len(),
    ensures
        upper(s).len() == s.len(),
        'a' <= s[i] <= 'z' ==> upper(s)[i] as int == s[i] as int - 32,
        !('a' <= s[i] <= 'z') ==> upper(s)[i] == s[i],
{
}

/// A text begins with another where that and something more make it up.
pub proof fn law_beginnings(s: Seq<char>, start: Seq<char>, rest: Seq<char>)
    ensures
        begins(start + rest, start),
        begins(s, start) ==> s == start + s.skip(start.len() as int),
{
    assert((start + rest).take(start.len() as int) =~= start);
    if begins(s, start) {
        assert(s =~= s.take(start.len() as int) + s.skip(start.len() as int));
    }
}

/// What is looked for among accessories is the first that fits, and nothing where none does.
pub proof fn law_the_first_accessory_counts(all: Seq<Json>, want: Seq<char>, aid: u64, k: int)
    ensures
        0 <= k < all.len() && has_service(all[k], want) && (forall|j: int|
            0 <= j < k ==> !has_service(#[trigger] all[j], want)) ==> first_with(all, want) == Some(
            all[k],
        ),
        (forall|j: int| 0 <= j < all.len() ==> !has_service(#[trigger] all[j], want)) ==> first_with(
            all,
            want,
        ) is None,
        0 <= k < all.len() && crate::model::accessory::aid_of(all[k]) == aid && (forall|j: int|
            0 <= j < k ==> crate::model::accessory::aid_of(#[trigger] all[j]) != aid)
            ==> first_numbered(all, aid) == Some(all[k]),
        (forall|j: int|
            0 <= j < all.len() ==> crate::model::accessory::aid_of(#[trigger] all[j]) != aid)
            ==> first_numbered(all, aid) is None,
    decreases all.len(),
{
    if all.len() > 0 {
        let rest = all.drop_first();
        law_the_first_accessory_counts(rest, want, aid, k - 1);
        assert forall|j: int| 0 <= j < rest.len() implies rest[j] == all[j + 1] by {}
        if 0 < k < all.len() {
            assert(rest[k - 1] == all[k]);
        }
        if forall|j: int| 0 <= j < k ==> !has_service(#[trigger] all[j], want) {
            assert forall|j: int| 0 <= j < k - 1 && j < rest.len() implies !has_service(
                #[trigger] rest[j],
                want,
            ) by {
                assert(!has_service(all[j + 1], want));
            }
        }
        if forall|j: int| 0 <= j < all.len() ==> !has_service(#[trigger] all[j], want) {
            assert forall|j: int| 0 <= j < rest.len() implies !has_service(
                #[trigger] rest[j],
                want,
            ) by {
                assert(!has_service(all[j + 1], want));
            }
        }
        if forall|j: int|
            0 <= j < k ==> crate::model::accessory::aid_of(#[trigger] all[j]) != aid {
            assert forall|j: int| 0 <= j < k - 1 && j < rest.len() implies
                crate::model::accessory::aid_of(#[trigger] rest[j]) != aid by {
                assert(crate::model::accessory::aid_of(all[j + 1]) != aid);
            }
        }
        if forall|j: int|
            0 <= j < all.len() ==> crate::model::accessory::aid_of(#[trigger] all[j]) != aid {
            assert forall|j: int| 0 <= j < rest.len() implies crate::model::accessory::aid_of(
                #[trigger] rest[j],
            ) != aid by {
                assert(crate::model::accessory::aid_of(all[j + 1]) != aid);
            }
        }
    }
}

// ---------------------------------------------------------------------------------------
// Calls and requests
// ---------------------------------------------------------------------------------------

/// Being reachable, and not, is told to the proxy that it is told to; so is anything else.
pub proof fn law_calls_go_to_their_proxy(proxy: u32, name: Seq<char>, param: Seq<char>, v: Json)
    ensures
        notify(proxy, name, param, v) == (host::Call::Notify { proxy, name, args: map![param => v] }),
        online(proxy) == (host::Call::Notify {
            proxy,
            name: "online_changed"@,
            args: map!["online"@ => Json::Bool(true)],
        }),
        offline(proxy) == (host::Call::Notify {
            proxy,
            name: "online_changed"@,
            args: map!["online"@ => Json::Bool(false)],
        }),
{
}

/// Occupancy that is remembered already is not told, any other is told and remembered.
pub proof fn law_occupancy_is_told_on_change(p: Progress, proxy: u32, key: Seq<char>, detected: bool)
    ensures
        stands(p.scratch, key, Json::Bool(detected)) ==> occupancy(p, proxy, key, detected) == p,
        !stands(p.scratch, key, Json::Bool(detected)) ==> occupancy(p, proxy, key, detected)
            == (Progress {
            scratch: p.scratch.insert(key, Json::Bool(detected)),
            out: p.out.push(
                host::Call::Notify {
                    proxy,
                    name: "detected_changed"@,
                    args: map!["detected"@ => Json::Bool(detected)],
                },
            ),
        }),
{
}

/// A value is aimed at the place that stands under a key; where none does, at nothing.
pub proof fn law_a_value_is_aimed(
    scratch: Map<Seq<char>, Json>,
    key: Seq<char>,
    v: Json,
    aid: u64,
    iid: u64,
)
    ensures
        placed(scratch, key, aid, iid) ==> target(scratch, key, v) == Some(
            Json::Object(map!["aid"@ => count(aid), "iid"@ => count(iid), "value"@ => v]),
        ),
        (forall|a: u64, i: u64| !#[trigger] placed(scratch, key, a, i)) ==> target(scratch, key, v) is None,
{
    law_places_are_found(scratch, key, aid, iid);
    if remembered(scratch, key) is Some {
        let (a, i) = remembered(scratch, key)->0;
        law_places_are_found(scratch, key, a, i);
    }
}

/// A text counts where it is not empty, an integer where it is one from zero up; where it is not,
/// another stands in for it.
pub proof fn law_properties_are_read(v: Json, s: Seq<char>, n: u64, other: u64)
    ensures
        s.len() > 0 ==> text(Some(Json::Text(s))) == Some(s),
        text(Some(Json::Text(seq![]))) is None,
        v !is Text ==> text(Some(v)) is None,
        text(None) is None,
        unsigned_or(Some(count(n)), other) == n,
        (forall|k: u64| v != #[trigger] count(k)) ==> unsigned_or(Some(v), other) == other,
        unsigned_or(None, other) == other,
{
    match v {
        Json::Number(Number::Unsigned(k)) => {
            assert(v == count(k));
        },
        _ => {},
    }
}

/// An address is the scheme, the host, a colon, the port in decimal, and the path. A request with
/// a pairing goes there with its four parts as headers, and without a body.
pub proof fn law_addresses_are_put_together(
    scheme: Seq<char>,
    method: Seq<char>,
    address: Seq<char>,
    port: u64,
    path: Seq<char>,
    a: Seq<char>,
    b: Seq<char>,
    c: Seq<char>,
    d: Seq<char>,
)
    ensures
        url(scheme, address, port, path) == scheme + address + ":"@ + decimal(port as nat) + path,
        paired(method, address, port, path, a, b, c, d) == (host::Request {
            method,
            url: "hap://"@ + address + ":"@ + decimal(port as nat) + path,
            headers: seq![
                ("x-hap-accessory-id"@, a),
                ("x-hap-accessory-ltpk"@, b),
                ("x-hap-controller-id"@, c),
                ("x-hap-controller-sk"@, d),
            ],
            body: None,
        }),
{
}

/// What is not finite is no temperature, and is kept as it is.
pub proof fn law_what_is_not_finite_is_kept(bits: u64)
    requires
        !finite(bits),
    ensures
        to_tenths(bits) == bits,
{
}

// ---------------------------------------------------------------------------------------
// Setup
// ---------------------------------------------------------------------------------------

/// The ecobees of a list are kept in its order, and nothing else is; what is shown is the ecobees,
/// or everything where there is none.
pub proof fn law_ecobees_are_kept(all: Seq<Announcement>, a: Announcement, state: Json)
    ensures
        ecobees(seq![]) == Seq::<Announcement>::empty(),
        is_ecobee(a) ==> ecobees(all.push(a)) == ecobees(all).push(a),
        !is_ecobee(a) ==> ecobees(all.push(a)) == ecobees(all),
        ({
            let answered = announced(items(state, "mdns_candidates"@));
            &&& ecobees(answered).len() > 0 ==> found(state) == ecobees(answered)
            &&& ecobees(answered).len() == 0 ==> found(state) == answered
        }),
{
    assert(all.push(a).drop_last() =~= all);
    assert(state.items_at("mdns_candidates"@) == items(state, "mdns_candidates"@));
}

/// What answered and is no ecobee is named, in the singular or in the plural.
pub proof fn law_others_are_named(all: Seq<Announcement>)
    ensures
        ({
            let tail = "\n\nOn the thermostat: Main Menu › Settings › HomeKit. Leave the setup code on screen — it stops advertising once you leave that screen — then continue."@;
            let title = "Put the thermostat into pairing mode"@;
            let head = "No ecobee is announcing itself."@;
            let label = "Continue"@;
            &&& all.len() == 0 ==> nothing_found(all) == (host::Step::Instruct {
                title,
                body: head + ""@ + tail,
                continue_label: label,
            })
            &&& all.len() == 1 ==> nothing_found(all) == (host::Step::Instruct {
                title,
                body: head + (" ("@ + names(all) + " answered, but "@ + "it is"@
                    + " not an ecobee.)"@) + tail,
                continue_label: label,
            })
            &&& all.len() > 1 ==> nothing_found(all) == (host::Step::Instruct {
                title,
                body: head + (" ("@ + names(all) + " answered, but "@ + "they are"@
                    + " not an ecobee.)"@) + tail,
                continue_label: label,
            })
        }),
{
}

/// Pairing sends the code to where it is told to, and remembers where that was.
pub proof fn law_pairing_goes_where_it_is_told(
    state: Json,
    address: Seq<char>,
    port: u64,
    code: Seq<char>,
)
    ensures
        pair(state, address, port, code) == (Turn {
            step: host::Step::Fetch {
                request: host::Request {
                    method: "POST"@,
                    url: "hap-pair://"@ + address + ":"@ + decimal(port as nat) + "/"@,
                    headers: seq![("x-hap-code"@, code)],
                    body: None,
                },
                note: "pair"@,
            },
            state: Json::Object(
                own(state).insert("stage"@, Json::Text("pairing"@)).insert(
                    "address"@,
                    Json::Text(address),
                ).insert("port"@, count(port)),
            ),
        }),
{
    let x = ("stage"@, Json::Text("pairing"@));
    let y = ("address"@, Json::Text(address));
    let z = ("port"@, count(port));
    crate::laws::setups::lemma_put(own(state), Seq::empty(), x);
    crate::laws::setups::lemma_put(own(state), seq![x], y);
    crate::laws::setups::lemma_put(own(state), seq![x, y], z);
    assert(Seq::<(Seq<char>, Json)>::empty().push(x) =~= seq![x]);
    assert(seq![x].push(y) =~= seq![x, y]);
    assert(seq![x, y].push(z) =~= seq![x, y, z]);
}

// ---------------------------------------------------------------------------------------
// What values stand for
// ---------------------------------------------------------------------------------------

/// A JSON value says what it holds: items in their order, and the members of an object.
pub proof fn law_values_say_what_they_hold(v: Value, i: int)
    ensures
        match v {
            Value::Null => v@ == Json::Null,
            Value::Bool(b) => v@ == Json::Bool(b),
            Value::Number(n) => v@ == Json::Number(n),
            Value::Text(s) => v@ == Json::Text(s@),
            Value::Array(list) => v@ is Array && v@->Array_0.len() == list@.len() && (0 <= i
                < list@.len() ==> v@->Array_0[i] == list@[i]@),
            Value::Object(o) => v@ == Json::Object(o@),
        },
{
    match v {
        Value::Array(list) => {
            crate::json::lemma_elements(list@);
            if 0 <= i < list@.len() {
                assert(crate::json::elements(list@)[i] == crate::json::json(list@[i]));
            }
        },
        _ => {},
    }
}

/// An object's members are its rows, where no key stands twice.
pub proof fn law_objects_say_what_they_hold(o: Object, i: int, key: Seq<char>)
    requires
        crate::json::distinct(o.rows()),
    ensures
        0 <= i < o.rows().len() ==> stands(o@, o.rows()[i].0@, o.rows()[i].1@),
        (forall|j: int| 0 <= j < o.rows().len() ==> (#[trigger] o.rows()[j]).0@ != key)
            ==> !o@.dom().contains(key),
{
    lemma_rows(o.rows(), i, key);
}

proof fn lemma_rows(rows: Seq<(String, Value)>, i: int, key: Seq<char>)
    requires
        crate::json::distinct(rows),
    ensures
        0 <= i < rows.len() ==> stands(crate::json::members(rows), rows[i].0@, rows[i].1@),
        (forall|j: int| 0 <= j < rows.len() ==> (#[trigger] rows[j]).0@ != key)
            ==> !crate::json::members(rows).dom().contains(key),
    decreases rows.len(),
{
    if rows.len() > 0 {
        let front = rows.drop_last();
        let n = rows.len() - 1;
        assert(rows[n] == rows.last());
        assert forall|a: int, b: int| 0 <= a < b < front.len() implies (#[trigger] front[a]).0@ != (
        #[trigger] front[b]).0@ by {
            assert(rows[a] == front[a] && rows[b] == front[b]);
        }
        lemma_rows(front, i, key);
        if 0 <= i < n {
            assert(front[i] == rows[i]);
            assert(rows[i].0@ != rows[n].0@);
        }
        if forall|j: int| 0 <= j < rows.len() ==> (#[trigger] rows[j]).0@ != key {
            assert(rows[n].0@ != key);
            assert forall|j: int| 0 <= j < front.len() implies (#[trigger] front[j]).0@ != key by {
                assert(rows[j].0@ != key);
            }
        }
    }
}

/// A request says its method, its address, its headers in their order, and its body.
pub proof fn law_requests_say_what_they_hold(r: HttpRequest, i: int)
    ensures
        r@.method == r.method@,
        r@.url == r.url@,
        r@.headers.len() == r.headers@.len(),
        0 <= i < r.headers@.len() ==> r@.headers[i].0 == r.headers@[i].0@ && r@.headers[i].1
            == r.headers@[i].1@,
        match r.body {
            Some(v) => r@.body == Some(v@),
            None => r@.body is None,
        },
{
}

/// A call says what it asks for.
pub proof fn law_calls_say_what_they_ask_for(c: HostCall)
    ensures
        match c {
            HostCall::Http(r) => c@ == host::Call::Http(r@),
            HostCall::Warn(s) => c@ == host::Call::Warn(s@),
            HostCall::Notify { proxy, name, args } => c@ == (host::Call::Notify {
                proxy,
                name: name@,
                args: args@,
            }),
            HostCall::SetState { proxy, key, value } => c@ == (host::Call::SetState {
                proxy,
                key: key@,
                value: value@,
            }),
        },
{
}

/// A list of calls says what its calls say, in their order; a device says its properties and what
/// it remembers.
pub proof fn law_lists_say_what_they_hold(
    list: Seq<HostCall>,
    offers: Seq<Candidate>,
    inst: Instance,
    i: int,
)
    ensures
        crate::host::calls(list).len() == list.len(),
        0 <= i < list.len() ==> crate::host::calls(list)[i] == list[i]@,
        crate::host::offers(offers).len() == offers.len(),
        0 <= i < offers.len() ==> crate::host::offers(offers)[i] == offers[i]@,
        inst@.properties == inst.properties@,
        inst@.scratch == inst.scratch@,
        crate::report::progress(inst, list).scratch == inst.scratch@,
        crate::report::progress(inst, list).out == crate::host::calls(list),
{
}

/// A step of setup says what it asks for.
pub proof fn law_steps_say_what_they_ask_for(s: SetupStep, f: Field, c: Candidate, i: int)
    ensures
        f@.name == f.name@ && f@.label == f.label@ && f@.kind == f.kind@ && f@.help == f.help@
            && f@.required == f.required,
        c@.label == c.label@ && c@.kind == c.kind@ && c@.driver_id == c.driver_id@ && c@.properties
            == c.properties@ && c@.verified == c.verified@,
        match s {
            SetupStep::Instruct { title, body, continue_label } => s@ == (host::Step::Instruct {
                title: title@,
                body: body@,
                continue_label: continue_label@,
            }),
            SetupStep::Form { title, body, fields } => {
                &&& s@ is Form
                &&& s@->Form_title == title@ && s@->Form_body == body@
                &&& s@->fields.len() == fields@.len()
                &&& 0 <= i < fields@.len() ==> s@->fields[i] == fields@[i]@
            },
            SetupStep::Fetch { request, note } => s@ == (host::Step::Fetch {
                request: request@,
                note: note@,
            }),
            SetupStep::Failed { reason, document: Some(d) } => s@ == (host::Step::Failed {
                reason: reason@,
                document: Some(d@),
            }),
            SetupStep::Failed { reason, document: None } => s@ == (host::Step::Failed {
                reason: reason@,
                document: None,
            }),
            SetupStep::Done { candidates } => s@ == (host::Step::Done {
                candidates: crate::host::offers(candidates@),
            }),
        },
{
}

} // verus!

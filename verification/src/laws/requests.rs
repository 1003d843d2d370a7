//! What is sent, and where characteristics are remembered, from the members of a device.

use crate::json::{double_json, member, number_double, Json, Number};
use crate::laws::plain::{count, no_count, stands};
use crate::model::accessory::Characteristic;
use crate::model::driver::bind;
use crate::model::host::{Call, Instance, Request};
use crate::model::request;
use crate::model::request::{authorised, remember, remembered};
use crate::text::decimal;
use vstd::prelude::*;

verus! {

/// The number that decimal digits stand for.
pub open spec fn read_back(s: Seq<char>) -> int
    decreases s.len(),
{
    if s.len() == 0 {
        0
    } else {
        10 * read_back(s.drop_last()) + (s.last() as u32 - '0' as u32)
    }
}

/// A number is written in digits that stand for it, without a leading zero.
pub proof fn law_numbers_are_written_in_decimal(n: nat)
    ensures
        read_back(decimal(n)) == n,
        decimal(n).len() > 0,
        forall|i: int| 0 <= i < decimal(n).len() ==> '0' <= #[trigger] decimal(n)[i] <= '9',
        decimal(n).len() > 1 ==> decimal(n)[0] != '0',
    decreases n,
{
    if n < 10 {
        assert(decimal(n).drop_last() =~= Seq::empty());
        assert(read_back(Seq::empty()) == 0);
    } else {
        law_numbers_are_written_in_decimal(n / 10);
        assert(decimal(n).drop_last() =~= decimal(n / 10));
        if decimal(n / 10).len() == 1 {
            assert(decimal(n / 10).drop_last() =~= Seq::empty());
            assert(read_back(Seq::empty()) == 0);
            assert(decimal(n / 10).last() == decimal(n / 10)[0]);
        }
    }
}

// ---------------------------------------------------------------------------------------
// Pairings
// ---------------------------------------------------------------------------------------

/// A string that is not empty stands under a key.
pub open spec fn filled(m: Map<Seq<char>, Json>, key: Seq<char>) -> bool {
    exists|s: Seq<char>| #[trigger] stands(m, key, Json::Text(s)) && s.len() > 0
}

/// An integer stands under a key, or none does and it is another one.
pub open spec fn count_or(m: Map<Seq<char>, Json>, key: Seq<char>, n: u64, other: u64) -> bool {
    stands(m, key, count(n)) || (n == other && no_count(m, key))
}

/// Where a device is and what it was paired with.
pub struct Pairing {
    /// The accessory's address.
    pub address: Seq<char>,
    /// The accessory's port.
    pub port: u64,
    /// The accessory's own id.
    pub accessory_id: Seq<char>,
    /// The accessory's key.
    pub accessory_key: Seq<char>,
    /// The controller's id.
    pub controller_id: Seq<char>,
    /// The controller's key.
    pub controller_key: Seq<char>,
}

/// The properties of a device hold a pairing.
pub open spec fn holds_pairing(m: Map<Seq<char>, Json>, p: Pairing) -> bool {
    &&& stands(m, "Address"@, Json::Text(p.address)) && p.address.len() > 0
    &&& count_or(m, "Port"@, p.port, 80)
    &&& stands(m, "Accessory id"@, Json::Text(p.accessory_id)) && p.accessory_id.len() > 0
    &&& stands(m, "Accessory key"@, Json::Text(p.accessory_key)) && p.accessory_key.len() > 0
    &&& stands(m, "Controller id"@, Json::Text(p.controller_id)) && p.controller_id.len() > 0
    &&& stands(m, "Controller key"@, Json::Text(p.controller_key)) && p.controller_key.len() > 0
}

/// The properties of a device lack a part of a pairing.
pub open spec fn lacks_pairing(m: Map<Seq<char>, Json>) -> bool {
    ||| !filled(m, "Address"@)
    ||| !filled(m, "Accessory id"@)
    ||| !filled(m, "Accessory key"@)
    ||| !filled(m, "Controller id"@)
    ||| !filled(m, "Controller key"@)
}

/// A request to the place of a pairing that carries all of it.
pub open spec fn carrying(
    p: Pairing,
    method: Seq<char>,
    path: Seq<char>,
    body: Option<Json>,
) -> Request {
    Request {
        method,
        url: "hap://"@ + p.address + ":"@ + decimal(p.port as nat) + path,
        headers: seq![
            ("x-hap-accessory-id"@, p.accessory_id),
            ("x-hap-accessory-ltpk"@, p.accessory_key),
            ("x-hap-controller-id"@, p.controller_id),
            ("x-hap-controller-sk"@, p.controller_key),
        ],
        body,
    }
}

/// A device with a pairing makes its requests there and with it; one that lacks a part makes
/// none.
pub proof fn law_requests_carry_the_pairing(
    m: Map<Seq<char>, Json>,
    p: Pairing,
    path: Seq<char>,
    method: Seq<char>,
)
    ensures
        holds_pairing(m, p) ==> authorised(m, path, method) == Some(
            carrying(p, method, path, None),
        ),
        lacks_pairing(m) ==> authorised(m, path, method) is None,
{
    lemma_port(m, p.port);
    if authorised(m, path, method) is Some {
        lemma_filled(m, "Address"@);
        lemma_filled(m, "Accessory id"@);
        lemma_filled(m, "Accessory key"@);
        lemma_filled(m, "Controller id"@);
        lemma_filled(m, "Controller key"@);
    }
}

proof fn lemma_filled(m: Map<Seq<char>, Json>, key: Seq<char>)
    requires
        request::text(member(m, key)) is Some,
    ensures
        filled(m, key),
{
    let s = request::text(member(m, key))->0;
    assert(stands(m, key, Json::Text(s)));
}

proof fn lemma_port(m: Map<Seq<char>, Json>, port: u64)
    ensures
        count_or(m, "Port"@, port, 80) ==> request::unsigned_or(member(m, "Port"@), 80) == port,
{
    match member(m, "Port"@) {
        Some(Json::Number(Number::Unsigned(n))) => {
            assert(stands(m, "Port"@, count(n)));
        },
        _ => {},
    }
}

/// A device that comes up reads the accessory database with its pairing, and does nothing else.
/// One that lacks a part of a pairing only warns.
pub proof fn law_coming_up_reads(inst: Instance, p: Pairing)
    ensures
        holds_pairing(inst.properties, p) ==> bind(inst) == seq![
            Call::Http(carrying(p, "GET"@, "/accessories"@, None)),
        ],
        lacks_pairing(inst.properties) ==> bind(inst) == seq![
            Call::Warn(
                "ecobee-hap: set this thermostat up through its HomeKit pairing flow first"@,
            ),
        ],
{
    law_requests_carry_the_pairing(inst.properties, p, "/accessories"@, "GET"@);
}

/// Values are written all in one request, as they are and in their order. A device that lacks a
/// part of a pairing only warns.
pub proof fn law_values_are_one_write(m: Map<Seq<char>, Json>, p: Pairing, values: Seq<Json>)
    ensures
        holds_pairing(m, p) ==> request::write(m, values) == seq![
            Call::Http(
                carrying(
                    p,
                    "PUT"@,
                    "/characteristics"@,
                    Some(Json::Object(map!["characteristics"@ => Json::Array(values)])),
                ),
            ),
        ],
        lacks_pairing(m) ==> request::write(m, values) == seq![
            Call::Warn("ecobee-hap: this thermostat is not paired — run its setup again"@),
        ],
{
    law_requests_carry_the_pairing(m, p, "/characteristics"@, "PUT"@);
}

// ---------------------------------------------------------------------------------------
// Places
// ---------------------------------------------------------------------------------------

/// The place of a characteristic stands under a key of what a device remembers.
pub open spec fn placed(scratch: Map<Seq<char>, Json>, key: Seq<char>, aid: u64, iid: u64) -> bool {
    exists|m: Map<Seq<char>, Json>, p: Seq<Json>| #[trigger]
        stands(scratch, "iids"@, Json::Object(m)) && #[trigger] stands(m, key, Json::Array(p))
            && p.len() >= 2 && p[0] == count(aid) && p[1] == count(iid)
}

/// A place, as it is remembered.
pub open spec fn spot(aid: u64, iid: u64) -> Json {
    Json::Array(seq![count(aid), count(iid)])
}

/// A place is known where it stands.
pub proof fn law_places_are_found(
    scratch: Map<Seq<char>, Json>,
    key: Seq<char>,
    aid: u64,
    iid: u64,
)
    ensures
        remembered(scratch, key) == Some((aid, iid)) <==> placed(scratch, key, aid, iid),
{
    if remembered(scratch, key) == Some((aid, iid)) {
        let m = member(scratch, "iids"@)->0->Object_0;
        let p = member(m, key)->0->Array_0;
        assert(stands(scratch, "iids"@, Json::Object(m)));
        assert(stands(m, key, Json::Array(p)));
    }
}

/// Remembering a characteristic puts its two numbers under the key and leaves everything else:
/// beside other places, or as the first one. Where something else than places stands there, or
/// there is no characteristic, nothing changes.
pub proof fn law_a_place_is_put_down(
    scratch: Map<Seq<char>, Json>,
    key: Seq<char>,
    c: Characteristic,
    m: Map<Seq<char>, Json>,
)
    ensures
        remember(scratch, key, None) == scratch,
        !scratch.dom().contains("iids"@) ==> remember(scratch, key, Some(c)) == scratch.insert(
            "iids"@,
            Json::Object(map![key => spot(c.aid, c.iid)]),
        ),
        stands(scratch, "iids"@, Json::Object(m)) ==> remember(scratch, key, Some(c))
            == scratch.insert("iids"@, Json::Object(m.insert(key, spot(c.aid, c.iid)))),
        scratch.dom().contains("iids"@) && scratch["iids"@] !is Object ==> remember(
            scratch,
            key,
            Some(c),
        ) == scratch,
{
    assert(Map::<Seq<char>, Json>::empty().insert(key, spot(c.aid, c.iid)) =~= map![
        key => spot(c.aid, c.iid),
    ]);
}

/// A number, as it is told and written: a double, or `null` where it is not finite.
pub open spec fn as_double(n: Number) -> Json {
    let d = number_double(n);
    if crate::double::magnitude(d.bits) < 0x7FF0_0000_0000_0000 {
        Json::Number(Number::Float(d))
    } else {
        Json::Null
    }
}

/// A double is told as a number, and as `null` where it is not finite.
pub proof fn law_doubles_are_told(n: Number)
    ensures
        double_json(number_double(n)) == as_double(n),
{
}

} // verus!

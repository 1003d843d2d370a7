//! What setup asks, sends and offers, from the JSON of its state and of its answers.

use crate::json::{member, Json};
use crate::laws::names::{law_trimming, lemma_before_is_free};
use crate::laws::plain::{
    bears, count, first_at, items, lemma_aid, lemma_bears, lemma_name_found, lemma_proper, no_count,
    no_text, own, says, stands, stands_under,
};
use crate::laws::readings::thermostat_at;
use crate::laws::requests::{carrying, count_or, filled, Pairing};
use crate::laws::setups::{lemma_put, lemma_state_keys};
use crate::model::accessory::{accessories, aid_of, characteristics, name_of, services};
use crate::model::host::{Candidate, Field, Request, Step};
use crate::model::report::first_with;
use crate::model::setup::{
    accessory_name, address_of, after_pairing, announced, announcement, ask, discover, ecobees,
    error_text, field, first_ecobee, first_name, found, is_ecobee, is_sensor, list, members_of,
    names, nothing_found, pair, port_of, read_accessories, response, run, sensor_candidates,
    short, thermostat_candidate, txt, typed_code, with, Announcement, Turn,
};
use crate::text::{decimal, lower, trimmed, white_space};
use vstd::prelude::*;

verus! {

// ---------------------------------------------------------------------------------------
// Texts
// ---------------------------------------------------------------------------------------

/// `r` is `s` without the white space at its ends, and all of it there.
pub open spec fn stripped(s: Seq<char>, r: Seq<char>) -> bool {
    &&& r.len() > 0 ==> !white_space(r[0]) && !white_space(r[r.len() - 1])
    &&& exists|i: int|
        {
            &&& 0 <= i <= i + r.len() <= s.len()
            &&& r == #[trigger] s.subrange(i, i + r.len())
            &&& forall|j: int|
                (0 <= j < i || i + r.len() <= j < s.len()) ==> white_space(#[trigger] s[j])
        }
}

/// Trimming strips.
pub proof fn law_trimming_strips(s: Seq<char>, r: Seq<char>)
    ensures
        trimmed(s) == r <==> stripped(s, r),
{
    let t = trimmed(s);
    law_trimming(s);
    let a = choose|i: int|
        {
            &&& 0 <= i <= i + t.len() <= s.len()
            &&& t == #[trigger] s.subrange(i, (i + t.len()) as int)
            &&& forall|j: int|
                (0 <= j < i || i + t.len() <= j < s.len()) ==> white_space(#[trigger] s[j])
        };
    assert(t == s.subrange(a, a + t.len()));
    assert(stripped(s, t));
    if stripped(s, r) {
        let b = choose|i: int|
            {
                &&& 0 <= i <= i + r.len() <= s.len()
                &&& r == #[trigger] s.subrange(i, i + r.len())
                &&& forall|j: int|
                    (0 <= j < i || i + r.len() <= j < s.len()) ==> white_space(#[trigger] s[j])
            };
        if r.len() > 0 {
            assert(r[0] == s[b] && r[r.len() - 1] == s[b + r.len() - 1]);
        }
        if t.len() > 0 {
            assert(t[0] == s[a] && t[t.len() - 1] == s[a + t.len() - 1]);
        }
        if r.len() > 0 && t.len() > 0 {
            assert(a == b);
            assert(r.len() == t.len());
        } else if r.len() > 0 {
            assert(white_space(s[b]));
        } else if t.len() > 0 {
            assert(white_space(s[a]));
        }
        assert(r =~= t);
    }
}

/// A name up to its first dot.
pub open spec fn cut(name: Seq<char>, r: Seq<char>) -> bool {
    &&& r.len() <= name.len()
    &&& r == name.take(r.len() as int)
    &&& forall|i: int| 0 <= i < r.len() ==> #[trigger] r[i] != '.'
    &&& r.len() < name.len() ==> name[r.len() as int] == '.'
}

/// A short name is the name up to its first dot.
pub proof fn law_short_names_are_cut(name: Seq<char>, r: Seq<char>)
    ensures
        short(name) == r <==> cut(name, r),
{
    let t = short(name);
    lemma_before_is_free(name, '.');
    assert(t =~= name.take(t.len() as int));
    assert forall|i: int| 0 <= i < t.len() implies #[trigger] t[i] != '.' by {
        assert(t.contains(t[i]));
    }
    assert(cut(name, t));
    if cut(name, r) {
        if r.len() < t.len() {
            assert(t[r.len() as int] == name[r.len() as int]);
        } else if t.len() < r.len() {
            assert(r[t.len() as int] == name[t.len() as int]);
        }
        assert(r =~= t);
    }
}

/// A string stands under a key, or none does and it is empty.
pub open spec fn text_or_none(j: Json, key: Seq<char>, s: Seq<char>) -> bool {
    says(j, key, Json::Text(s)) || (s.len() == 0 && no_text(own(j), key))
}

proof fn lemma_field(j: Json, key: Seq<char>, s: Seq<char>)
    ensures
        field(j, key) == s <==> text_or_none(j, key, s),
{
    reveal_strlit("");
    match j.text_at(key) {
        Some(t) => {
            assert(stands(own(j), key, Json::Text(t)));
        },
        None => {
            assert forall|t: Seq<char>| !#[trigger] stands(own(j), key, Json::Text(t)) by {
                if stands(own(j), key, Json::Text(t)) {
                    assert(j.text_at(key) == Some(t));
                }
            }
            if s.len() == 0 {
                assert(s =~= ""@);
            }
        },
    }
}

// ---------------------------------------------------------------------------------------
// What announces itself
// ---------------------------------------------------------------------------------------

/// An entry of the scan announces an accessory: it says a name and an address.
pub open spec fn announces(e: Json) -> bool {
    &&& exists|s: Seq<char>| #[trigger] says(e, "name"@, Json::Text(s))
    &&& exists|s: Seq<char>| #[trigger] says(e, "address"@, Json::Text(s))
}

/// A field of the text record of an entry.
pub open spec fn record(e: Json, key: Seq<char>, s: Seq<char>) -> bool {
    exists|t: Json| #[trigger] says(e, "txt"@, t) && says(t, key, Json::Text(s))
}

/// A model name starts like this, in small letters.
pub open spec fn starts_like(md: Seq<char>, start: Seq<char>) -> bool {
    &&& start.len() <= lower(md).len()
    &&& forall|i: int| 0 <= i < start.len() ==> #[trigger] lower(md)[i] == start[i]
}

/// The model name of an ecobee.
pub open spec fn ecobee_model(md: Seq<char>) -> bool {
    starts_like(md, "ecobee"@) || starts_like(md, "eb-"@) || starts_like(md, "ecb"@)
}

/// An entry announces an ecobee.
pub open spec fn announces_ecobee(e: Json) -> bool {
    announces(e) && exists|md: Seq<char>| #[trigger] record(e, "md"@, md) && ecobee_model(md)
}

/// An entry says that its accessory is paired already: a zero, with nothing but white space
/// around it.
pub open spec fn is_taken(e: Json) -> bool {
    exists|sf: Seq<char>| #[trigger] record(e, "sf"@, sf) && stripped(sf, seq!['0'])
}

proof fn lemma_record(e: Json, key: Seq<char>)
    ensures
        match txt(e, key) {
            Some(s) => record(e, key, s),
            None => true,
        },
        forall|s: Seq<char>| #[trigger] record(e, key, s) ==> txt(e, key) == Some(s),
{
    if txt(e, key) is Some {
        let t = e.get("txt"@)->0;
        assert(says(e, "txt"@, t));
        assert(says(t, key, Json::Text(txt(e, key)->0)));
    }
}

/// A model name starts like an ecobee's where it begins so in small letters.
proof fn lemma_starts(md: Seq<char>, start: Seq<char>)
    ensures
        crate::text::begins(lower(md), start) <==> starts_like(md, start),
{
    let m = lower(md);
    if starts_like(md, start) {
        assert(m.take(start.len() as int) =~= start);
    }
    if crate::text::begins(m, start) {
        assert forall|i: int| 0 <= i < start.len() implies #[trigger] m[i] == start[i] by {
            assert(m.take(start.len() as int)[i] == start[i]);
        }
    }
}

/// Small letters of ASCII text, one by one.
pub proof fn law_small_letters(s: Seq<char>, i: int)
    requires
        vstd::utf8::is_ascii_chars(s),
        0 <= i < s.len(),
    ensures
        lower(s).len() == s.len(),
        'A' <= s[i] <= 'Z' ==> lower(s)[i] as int == s[i] as int + 32,
        !('A' <= s[i] <= 'Z') ==> lower(s)[i] == s[i],
{
}

/// An entry is announced as what it says: its name and its address, the port it says and 80 only
/// where it says none, paired where its record says so, and with the model of its record. One
/// without a name or an address is left out.
pub proof fn law_an_entry_is_taken_up(e: Json)
    ensures
        announces(e) <==> announcement(e) is Some,
        announcement(e) matches Some(a) ==> {
            &&& says(e, "name"@, Json::Text(a.name))
            &&& says(e, "address"@, Json::Text(a.address))
            &&& count_or(own(e), "port"@, a.port, 80)
            &&& a.paired_already <==> is_taken(e)
            &&& is_ecobee(a) <==> announces_ecobee(e)
        },
{
    if announces(e) {
        let n = choose|s: Seq<char>| #[trigger] says(e, "name"@, Json::Text(s));
        let a = choose|s: Seq<char>| #[trigger] says(e, "address"@, Json::Text(s));
        assert(e.text_at("name"@) == Some(n));
        assert(e.text_at("address"@) == Some(a));
    }
    if announcement(e) is Some {
        let a = announcement(e)->0;
        assert(says(e, "name"@, Json::Text(a.name)));
        assert(says(e, "address"@, Json::Text(a.address)));
        lemma_record(e, "sf"@);
        lemma_record(e, "md"@);
        match e.unsigned_at("port"@) {
            Some(n) => {
                assert(stands(own(e), "port"@, count(n)));
            },
            None => {
                assert forall|n: u64| !#[trigger] stands(own(e), "port"@, count(n)) by {
                    if stands(own(e), "port"@, count(n)) {
                        assert(e.unsigned_at("port"@) == Some(n));
                    }
                }
            },
        }
        reveal_strlit("0");
        assert("0"@ =~= seq!['0']);
        if txt(e, "sf"@) is Some {
            law_trimming_strips(txt(e, "sf"@)->0, seq!['0']);
            assert(record(e, "sf"@, txt(e, "sf"@)->0));
        }
        lemma_starts(a.model, "ecobee"@);
        lemma_starts(a.model, "eb-"@);
        lemma_starts(a.model, "ecb"@);
        if txt(e, "md"@) is Some {
            assert(record(e, "md"@, a.model));
        } else {
            reveal_strlit("");
            reveal_strlit("ecobee");
            reveal_strlit("eb-");
            reveal_strlit("ecb");
            assert(a.model =~= ""@);
            assert(lower(""@) =~= ""@);
            assert(!is_ecobee(a));
        }
    }
}

/// The entries of a scan are taken up in their order.
pub proof fn law_entries_come_in_turn(entries: Seq<Json>, e: Json)
    ensures
        announced(seq![]) == Seq::<Announcement>::empty(),
        announced(entries.push(e)) == (match announcement(e) {
            Some(a) => announced(entries).push(a),
            None => announced(entries),
        }),
{
    assert(entries.push(e).drop_last() =~= entries);
}

proof fn lemma_first_push(all: Seq<Announcement>, a: Announcement)
    ensures
        first_ecobee(all.push(a)) == (match first_ecobee(all) {
            Some(x) => Some(x),
            None => if is_ecobee(a) {
                Some(a)
            } else {
                None
            },
        }),
    decreases all.len(),
{
    if all.len() > 0 {
        assert(all.push(a).drop_first() =~= all.drop_first().push(a));
        lemma_first_push(all.drop_first(), a);
    } else {
        assert(all.push(a)[0] == a);
        assert(all.push(a).drop_first() =~= all);
        assert(first_ecobee(all) is None);
    }
}

/// Leaving out what is no ecobee leaves the first ecobee.
proof fn lemma_first_of_ecobees(all: Seq<Announcement>)
    ensures
        first_ecobee(ecobees(all)) == first_ecobee(all),
        first_ecobee(all) is None ==> ecobees(all).len() == 0,
    decreases all.len(),
{
    if all.len() > 0 {
        let front = all.drop_last();
        let a = all.last();
        lemma_first_of_ecobees(front);
        lemma_first_push(front, a);
        assert(front.push(a) =~= all);
        lemma_first_push(ecobees(front), a);
    }
}

/// An entry of a scan is the first that announces an ecobee.
pub open spec fn ecobee_at(entries: Seq<Json>, k: int) -> bool {
    &&& 0 <= k < entries.len()
    &&& announces_ecobee(entries[k])
    &&& forall|j: int| 0 <= j < k ==> !announces_ecobee(#[trigger] entries[j])
}

/// No entry of a scan announces an ecobee.
pub open spec fn no_ecobee(entries: Seq<Json>) -> bool {
    forall|j: int| 0 <= j < entries.len() ==> !announces_ecobee(#[trigger] entries[j])
}

proof fn lemma_first_ecobee_at(entries: Seq<Json>, k: int)
    ensures
        ecobee_at(entries, k) ==> announcement(entries[k]) is Some && first_ecobee(
            announced(entries),
        ) == announcement(entries[k]),
        no_ecobee(entries) ==> first_ecobee(announced(entries)) is None,
    decreases entries.len(),
{
    if entries.len() > 0 {
        let front = entries.drop_last();
        let last = entries.last();
        let n = entries.len() - 1;
        assert(entries[n] == last);
        lemma_first_ecobee_at(front, k);
        law_an_entry_is_taken_up(last);
        if announcement(last) is Some {
            lemma_first_push(announced(front), announcement(last)->0);
        }
        if ecobee_at(entries, k) {
            law_an_entry_is_taken_up(entries[k]);
            if k == n {
                assert(no_ecobee(front)) by {
                    assert forall|j: int| 0 <= j < front.len() implies !announces_ecobee(
                        #[trigger] front[j],
                    ) by {
                        assert(!announces_ecobee(entries[j]));
                    }
                }
            } else {
                assert(ecobee_at(front, k)) by {
                    assert(front[k] == entries[k]);
                    assert forall|j: int| 0 <= j < k implies !announces_ecobee(
                        #[trigger] front[j],
                    ) by {
                        assert(!announces_ecobee(entries[j]));
                    }
                }
            }
        }
        if no_ecobee(entries) {
            assert(!announces_ecobee(entries[n]));
            assert(no_ecobee(front)) by {
                assert forall|j: int| 0 <= j < front.len() implies !announces_ecobee(
                    #[trigger] front[j],
                ) by {
                    assert(!announces_ecobee(entries[j]));
                }
            }
        }
    }
}

// ---------------------------------------------------------------------------------------
// Asking
// ---------------------------------------------------------------------------------------

/// Something for a person to do.
pub open spec fn instruction(title: Seq<char>, body: Seq<char>) -> Step {
    Step::Instruct { title, body, continue_label: "Continue"@ }
}

/// The code that was typed.
pub open spec fn typed_in(input: Map<Seq<char>, Json>, code: Seq<char>) -> bool {
    exists|s: Seq<char>| #[trigger]
        stands(input, "Setup code"@, Json::Text(s)) && stripped(s, code)
}

/// The first entry that announces an ecobee is asked for. Where it is paired already, that is
/// said. Where a code was typed it is paired, at the address and the port that the entry says,
/// with that code, and these are remembered. Otherwise the code is asked for.
pub proof fn law_the_first_ecobee_is_paired(
    state: Json,
    input: Map<Seq<char>, Json>,
    k: int,
    name: Seq<char>,
    called: Seq<char>,
    address: Seq<char>,
    port: u64,
    code: Seq<char>,
)
    requires
        ecobee_at(items(state, "mdns_candidates"@), k),
        ({
            let e = items(state, "mdns_candidates"@)[k];
            &&& says(e, "name"@, Json::Text(name))
            &&& cut(name, called)
            &&& says(e, "address"@, Json::Text(address))
            &&& count_or(own(e), "port"@, port, 80)
        }),
    ensures
        ({
            let e = items(state, "mdns_candidates"@)[k];
            &&& is_taken(e) ==> ask(state, input) == (Turn {
                step: instruction(
                    "Already paired"@,
                    called
                        + " is paired to another home. HomeKit allows one at a time, so remove it there — or on the thermostat, Settings › HomeKit › reset the pairing — then continue."@,
                ),
                state,
            })
            &&& !is_taken(e) && typed_in(input, code) && code.len() > 0 ==> ask(state, input)
                == (Turn {
                step: Step::Fetch {
                    request: Request {
                        method: "POST"@,
                        url: "hap-pair://"@ + address + ":"@ + decimal(port as nat) + "/"@,
                        headers: seq![("x-hap-code"@, code)],
                        body: None,
                    },
                    note: "pair"@,
                },
                state: Json::Object(
                    own(state).insert("stage"@, Json::Text("pairing"@)).insert(
                        "address"@,
                        Json::Text(address),
                    ).insert("port"@, count(port)),
                ),
            })
            &&& !is_taken(e) && (no_text(input, "Setup code"@) || typed_in(input, seq![])) ==> ask(
                state,
                input,
            ) == (Turn {
                step: Step::Form {
                    title: "Pair an ecobee over HomeKit"@,
                    body: "Found "@ + called + " at "@ + address
                        + ". Enter the setup code showing on the thermostat under Settings › HomeKit."@,
                    fields: seq![
                        Field {
                            name: "Setup code"@,
                            label: "HomeKit setup code"@,
                            kind: "password"@,
                            help: "8 digits, like 123-45-678"@,
                            required: true,
                        },
                    ],
                },
                state,
            })
        }),
{
    let entries = items(state, "mdns_candidates"@);
    let e = entries[k];
    assert(state.items_at("mdns_candidates"@) == entries);
    lemma_first_ecobee_at(entries, k);
    lemma_first_of_ecobees(announced(entries));
    law_an_entry_is_taken_up(e);
    let a = announcement(e)->0;
    assert(first_ecobee(found(state)) == Some(a));
    assert(a.name == name && a.address == address);
    assert(a.port == port);
    law_short_names_are_cut(name, called);
    reveal_strlit("");
    if typed_in(input, code) {
        let s = choose|s: Seq<char>| #[trigger]
            stands(input, "Setup code"@, Json::Text(s)) && stripped(s, code);
        law_trimming_strips(s, code);
        assert(typed_code(input) == code);
    }
    if typed_in(input, seq![]) {
        let s = choose|s: Seq<char>| #[trigger]
            stands(input, "Setup code"@, Json::Text(s)) && stripped(s, seq![]);
        law_trimming_strips(s, seq![]);
        assert(typed_code(input).len() == 0);
    }
    if no_text(input, "Setup code"@) {
        match member(input, "Setup code"@) {
            Some(Json::Text(s)) => {
                assert(stands(input, "Setup code"@, Json::Text(s)));
            },
            _ => {},
        }
        assert(typed_code(input).len() == 0);
    }
    let x = ("stage"@, Json::Text("pairing"@));
    let y = ("address"@, Json::Text(address));
    let z = ("port"@, count(port));
    lemma_put(own(state), Seq::empty(), x);
    lemma_put(own(state), seq![x], y);
    lemma_put(own(state), seq![x, y], z);
    assert(Seq::<(Seq<char>, Json)>::empty().push(x) =~= seq![x]);
    assert(seq![x].push(y) =~= seq![x, y]);
    assert(seq![x, y].push(z) =~= seq![x, y, z]);
    assert(members_of(state) == own(state));
}

/// Where no entry announces an ecobee, nothing is sent, whatever was typed: setup says how to
/// make the thermostat announce itself, and what else answered.
pub proof fn law_no_ecobee_is_said(state: Json, input: Map<Seq<char>, Json>)
    requires
        no_ecobee(items(state, "mdns_candidates"@)),
    ensures
        ({
            let all = announced(items(state, "mdns_candidates"@));
            let others = if all.len() == 0 {
                ""@
            } else if all.len() == 1 {
                " ("@ + names(all) + " answered, but "@ + "it is"@ + " not an ecobee.)"@
            } else {
                " ("@ + names(all) + " answered, but "@ + "they are"@ + " not an ecobee.)"@
            };
            ask(state, input) == (Turn {
                step: instruction(
                    "Put the thermostat into pairing mode"@,
                    "No ecobee is announcing itself."@ + others
                        + "\n\nOn the thermostat: Main Menu › Settings › HomeKit. Leave the setup code on screen — it stops advertising once you leave that screen — then continue."@,
                ),
                state,
            })
        }),
{
    let entries = items(state, "mdns_candidates"@);
    assert(state.items_at("mdns_candidates"@) == entries);
    lemma_first_ecobee_at(entries, 0);
    lemma_first_of_ecobees(announced(entries));
    assert(found(state) == announced(entries));
    assert(ask(state, input).step == nothing_found(announced(entries)));
}

/// What answered is named by its short names, with a comma between each two.
pub proof fn law_what_answered_is_named(
    all: Seq<Announcement>,
    a: Announcement,
    called: Seq<char>,
)
    requires
        cut(a.name, called),
    ensures
        names(seq![a]) == called,
        all.len() > 0 ==> names(all.push(a)) == names(all) + ", "@ + called,
{
    law_short_names_are_cut(a.name, called);
    assert(all.push(a).drop_last() =~= all);
}

// ---------------------------------------------------------------------------------------
// Reading what was paired
// ---------------------------------------------------------------------------------------

/// Where a state says the accessory is, and what it was paired with. A device's own address goes
/// before the one that was paired at, unless it is empty; a device's own port goes before the one
/// that was paired at, whatever it is.
pub open spec fn state_pairing(state: Json, p: Pairing) -> bool {
    &&& if filled(own(state), "Address"@) {
        says(state, "Address"@, Json::Text(p.address))
    } else {
        text_or_none(state, "address"@, p.address)
    }
    &&& if own(state).dom().contains("Port"@) {
        count_or(own(state), "Port"@, p.port, 80)
    } else {
        count_or(own(state), "port"@, p.port, 80)
    }
    &&& text_or_none(state, "Accessory id"@, p.accessory_id)
    &&& text_or_none(state, "Accessory key"@, p.accessory_key)
    &&& text_or_none(state, "Controller id"@, p.controller_id)
    &&& text_or_none(state, "Controller key"@, p.controller_key)
}

proof fn lemma_state_pairing(state: Json, p: Pairing)
    requires
        state_pairing(state, p),
    ensures
        address_of(state) == p.address,
        port_of(state) == p.port,
        field(state, "Accessory id"@) == p.accessory_id,
        field(state, "Accessory key"@) == p.accessory_key,
        field(state, "Controller id"@) == p.controller_id,
        field(state, "Controller key"@) == p.controller_key,
{
    lemma_field(state, "Accessory id"@, p.accessory_id);
    lemma_field(state, "Accessory key"@, p.accessory_key);
    lemma_field(state, "Controller id"@, p.controller_id);
    lemma_field(state, "Controller key"@, p.controller_key);
    lemma_field(state, "address"@, p.address);
    lemma_field(state, "Address"@, p.address);
    let own_address = field(state, "Address"@);
    lemma_field(state, "Address"@, own_address);
    let m = own(state);
    if own_address.len() > 0 {
        assert(stands(m, "Address"@, Json::Text(own_address)));
        assert(filled(m, "Address"@));
    } else {
        if filled(m, "Address"@) {
            let s = choose|s: Seq<char>| #[trigger]
                stands(m, "Address"@, Json::Text(s)) && s.len() > 0;
            assert(state.text_at("Address"@) == Some(s));
        }
    }
    if m.dom().contains("Port"@) {
        assert(state.get("Port"@) == Some(m["Port"@]));
        match m["Port"@] {
            Json::Number(crate::json::Number::Unsigned(n)) => {
                assert(stands(m, "Port"@, count(n)));
            },
            _ => {},
        }
    } else {
        assert(state.get("Port"@) is None);
        if m.dom().contains("port"@) {
            assert(state.get("port"@) == Some(m["port"@]));
            match m["port"@] {
                Json::Number(crate::json::Number::Unsigned(n)) => {
                    assert(stands(m, "port"@, count(n)));
                },
                _ => {},
            }
        }
    }
}

/// The accessory database is read where the state says, with what it says, and the next turn
/// lists it.
pub proof fn law_the_database_is_read(state: Json, p: Pairing)
    requires
        state_pairing(state, p),
    ensures
        read_accessories(state) == (Turn {
            step: Step::Fetch {
                request: carrying(p, "GET"@, "/accessories"@, None),
                note: "list"@,
            },
            state: Json::Object(own(state).insert("stage"@, Json::Text("listing"@))),
        }),
{
    lemma_state_pairing(state, p);
    let x = ("stage"@, Json::Text("listing"@));
    lemma_put(own(state), Seq::empty(), x);
    assert(Seq::<(Seq<char>, Json)>::empty().push(x) =~= seq![x]);
}

/// The answer that a turn was given: `null` where there is none.
pub open spec fn answered(input: Map<Seq<char>, Json>, doc: Json) -> bool {
    stands(input, "response"@, doc) || (doc == Json::Null && !input.dom().contains("response"@))
}

/// A pairing that failed, or came back without the accessory's id or key, ends setup with the
/// reason. One that came back whole is put into the state, all four parts of it, and the database
/// is read with them.
pub proof fn law_a_pairing_is_looked_at(
    state: Json,
    input: Map<Seq<char>, Json>,
    doc: Json,
    err: Seq<char>,
    p: Pairing,
)
    ensures
        stands(input, "error"@, Json::Text(err)) ==> after_pairing(state, input) == (Turn {
            step: Step::Failed { reason: "Pairing failed: "@ + err, document: None },
            state: Json::Null,
        }),
        no_text(input, "error"@) && answered(input, doc) && (!filled(own(doc), "accessory_id"@)
            || !filled(own(doc), "accessory_ltpk"@)) ==> after_pairing(state, input) == (Turn {
            step: Step::Failed {
                reason: "The thermostat did not complete pairing: "@,
                document: Some(doc),
            },
            state: Json::Null,
        }),
        no_text(input, "error"@) && answered(input, doc) && says(
            doc,
            "accessory_id"@,
            Json::Text(p.accessory_id),
        ) && p.accessory_id.len() > 0 && says(doc, "accessory_ltpk"@, Json::Text(p.accessory_key))
            && p.accessory_key.len() > 0 && text_or_none(doc, "controller_id"@, p.controller_id)
            && text_or_none(doc, "controller_sk"@, p.controller_key) && state_pairing(
            Json::Object(
                own(state).insert("Accessory id"@, Json::Text(p.accessory_id)).insert(
                    "Accessory key"@,
                    Json::Text(p.accessory_key),
                ).insert("Controller id"@, Json::Text(p.controller_id)).insert(
                    "Controller key"@,
                    Json::Text(p.controller_key),
                ),
            ),
            p,
        ) ==> after_pairing(state, input) == (Turn {
            step: Step::Fetch {
                request: carrying(p, "GET"@, "/accessories"@, None),
                note: "list"@,
            },
            state: Json::Object(
                own(state).insert("stage"@, Json::Text("listing"@)).insert(
                    "Accessory id"@,
                    Json::Text(p.accessory_id),
                ).insert("Accessory key"@, Json::Text(p.accessory_key)).insert(
                    "Controller id"@,
                    Json::Text(p.controller_id),
                ).insert("Controller key"@, Json::Text(p.controller_key)),
            ),
        }),
{
    lemma_error(input);
    lemma_answered(input, doc);
    let id = field(response(input), "accessory_id"@);
    let key = field(response(input), "accessory_ltpk"@);
    lemma_field(response(input), "accessory_id"@, id);
    lemma_field(response(input), "accessory_ltpk"@, key);
    if id.len() > 0 {
        assert(stands(own(response(input)), "accessory_id"@, Json::Text(id)));
    }
    if key.len() > 0 {
        assert(stands(own(response(input)), "accessory_ltpk"@, Json::Text(key)));
    }
    let plain = own(state).insert("Accessory id"@, Json::Text(p.accessory_id)).insert(
        "Accessory key"@,
        Json::Text(p.accessory_key),
    ).insert("Controller id"@, Json::Text(p.controller_id)).insert(
        "Controller key"@,
        Json::Text(p.controller_key),
    );
    if no_text(input, "error"@) && answered(input, doc) && says(
        doc,
        "accessory_id"@,
        Json::Text(p.accessory_id),
    ) && p.accessory_id.len() > 0 && says(doc, "accessory_ltpk"@, Json::Text(p.accessory_key))
        && p.accessory_key.len() > 0 && text_or_none(doc, "controller_id"@, p.controller_id)
        && text_or_none(doc, "controller_sk"@, p.controller_key) && state_pairing(
        Json::Object(plain),
        p,
    ) {
        lemma_field(doc, "controller_id"@, p.controller_id);
        lemma_field(doc, "controller_sk"@, p.controller_key);
        lemma_state_keys();
        let a = ("stage"@, Json::Text("listing"@));
        let b = ("Accessory id"@, Json::Text(p.accessory_id));
        let c = ("Accessory key"@, Json::Text(p.accessory_key));
        let d = ("Controller id"@, Json::Text(p.controller_id));
        let e = ("Controller key"@, Json::Text(p.controller_key));
        let m = own(state);
        lemma_put(m, Seq::empty(), a);
        lemma_put(m, seq![a], b);
        lemma_put(m, seq![a, b], c);
        lemma_put(m, seq![a, b, c], d);
        lemma_put(m, seq![a, b, c, d], e);
        assert(Seq::<(Seq<char>, Json)>::empty().push(a) =~= seq![a]);
        assert(seq![a].push(b) =~= seq![a, b]);
        assert(seq![a, b].push(c) =~= seq![a, b, c]);
        assert(seq![a, b, c].push(d) =~= seq![a, b, c, d]);
        assert(seq![a, b, c, d].push(e) =~= seq![a, b, c, d, e]);
        let full = plain.insert("stage"@, Json::Text("listing"@));
        let s = with(state, seq![a, b, c, d, e]);
        assert(own(s) =~= full);
        lemma_staged(plain, p);
        law_the_database_is_read(s, p);
        assert(full.insert("stage"@, Json::Text("listing"@)) =~= full);
    }
}

/// The stage does not matter to where a state says the accessory is.
proof fn lemma_staged(m: Map<Seq<char>, Json>, p: Pairing)
    requires
        state_pairing(Json::Object(m), p),
    ensures
        state_pairing(Json::Object(m.insert("stage"@, Json::Text("listing"@))), p),
{
    lemma_state_keys();
    let n = m.insert("stage"@, Json::Text("listing"@));
    assert forall|key: Seq<char>, v: Json| key != "stage"@ implies #[trigger] stands(n, key, v)
        == stands(m, key, v) by {}
    lemma_same_texts(m, n, "address"@);
    lemma_same_texts(m, n, "Address"@);
    lemma_same_texts(m, n, "Accessory id"@);
    lemma_same_texts(m, n, "Accessory key"@);
    lemma_same_texts(m, n, "Controller id"@);
    lemma_same_texts(m, n, "Controller key"@);
    lemma_same_counts(m, n, "Port"@);
    lemma_same_counts(m, n, "port"@);
}

proof fn lemma_same_texts(m: Map<Seq<char>, Json>, n: Map<Seq<char>, Json>, key: Seq<char>)
    requires
        forall|v: Json| #[trigger] stands(n, key, v) == stands(m, key, v),
    ensures
        no_text(n, key) == no_text(m, key),
        filled(n, key) == filled(m, key),
{
    if !no_text(n, key) {
        let s = choose|s: Seq<char>| #[trigger] stands(n, key, Json::Text(s));
        assert(stands(m, key, Json::Text(s)));
    }
    if !no_text(m, key) {
        let s = choose|s: Seq<char>| #[trigger] stands(m, key, Json::Text(s));
        assert(stands(n, key, Json::Text(s)));
    }
    if filled(n, key) {
        let s = choose|s: Seq<char>| #[trigger] stands(n, key, Json::Text(s)) && s.len() > 0;
        assert(stands(m, key, Json::Text(s)));
    }
    if filled(m, key) {
        let s = choose|s: Seq<char>| #[trigger] stands(m, key, Json::Text(s)) && s.len() > 0;
        assert(stands(n, key, Json::Text(s)));
    }
}

proof fn lemma_same_counts(m: Map<Seq<char>, Json>, n: Map<Seq<char>, Json>, key: Seq<char>)
    requires
        forall|v: Json| #[trigger] stands(n, key, v) == stands(m, key, v),
    ensures
        no_count(n, key) == no_count(m, key),
{
    if !no_count(n, key) {
        let c = choose|c: u64| #[trigger] stands(n, key, count(c));
        assert(stands(m, key, count(c)));
    }
    if !no_count(m, key) {
        let c = choose|c: u64| #[trigger] stands(m, key, count(c));
        assert(stands(n, key, count(c)));
    }
}

proof fn lemma_error(input: Map<Seq<char>, Json>)
    ensures
        no_text(input, "error"@) ==> error_text(input) is None,
        forall|s: Seq<char>| #[trigger]
            stands(input, "error"@, Json::Text(s)) ==> error_text(input) == Some(s),
{
    if error_text(input) is Some {
        assert(stands(input, "error"@, Json::Text(error_text(input)->0)));
    }
}

proof fn lemma_answered(input: Map<Seq<char>, Json>, doc: Json)
    ensures
        answered(input, doc) ==> response(input) == doc,
{
}

// ---------------------------------------------------------------------------------------
// Offering
// ---------------------------------------------------------------------------------------

/// The name that a service says: the first name characteristic in it, where that is not empty.
pub open spec fn service_says(service: Json, name: Seq<char>) -> bool {
    name.len() > 0 && exists|i: int|
        first_at(items(service, "characteristics"@), "23"@, i) && says(
            #[trigger] items(service, "characteristics"@)[i],
            "value"@,
            Json::Text(name),
        )
}

/// What an accessory is called: the name of its first service that says one, or nothing.
pub open spec fn called_so(accessory: Json, name: Option<Seq<char>>) -> bool {
    let list = items(accessory, "services"@);
    match name {
        Some(name) => exists|i: int|
            {
                &&& 0 <= i < list.len()
                &&& service_says(#[trigger] list[i], name)
                &&& forall|j: int, s: Seq<char>|
                    0 <= j < i ==> !#[trigger] service_says(list[j], s)
            },
        None => forall|j: int, s: Seq<char>|
            0 <= j < list.len() ==> !#[trigger] service_says(list[j], s),
    }
}

/// The name of a service is what it says.
proof fn lemma_service_says(accessory: Json, service: Json, s: Seq<char>)
    ensures
        name_of(characteristics(accessory, service)) == Some(s) <==> service_says(service, s),
{
    lemma_name_found(accessory, service, s);
}

proof fn lemma_first_name(accessory: Json, list: Seq<Json>, i: int, name: Seq<char>)
    ensures
        0 <= i < list.len() && service_says(list[i], name) && (forall|j: int, s: Seq<char>|
            0 <= j < i ==> !#[trigger] service_says(list[j], s)) ==> first_name(accessory, list)
            == Some(name),
        (forall|j: int, s: Seq<char>|
            0 <= j < list.len() ==> !#[trigger] service_says(list[j], s)) ==> first_name(
            accessory,
            list,
        ) is None,
    decreases list.len(),
{
    if list.len() > 0 {
        let rest = list.drop_first();
        let own_name = name_of(characteristics(accessory, list[0]));
        lemma_service_says(accessory, list[0], name);
        if own_name is Some {
            lemma_service_says(accessory, list[0], own_name->0);
            assert(service_says(list[0], own_name->0));
        }
        lemma_first_name(accessory, rest, i - 1, name);
        if 0 <= i < list.len() && service_says(list[i], name) && (forall|j: int, s: Seq<char>|
            0 <= j < i ==> !#[trigger] service_says(list[j], s)) && i > 0 {
            assert(rest[i - 1] == list[i]);
            assert forall|j: int, s: Seq<char>| 0 <= j < i - 1 implies !#[trigger] service_says(
                rest[j],
                s,
            ) by {
                assert(!service_says(list[j + 1], s));
            }
        }
        if forall|j: int, s: Seq<char>|
            0 <= j < list.len() ==> !#[trigger] service_says(list[j], s) {
            assert forall|j: int, s: Seq<char>| 0 <= j < rest.len() implies !#[trigger] service_says(
                rest[j],
                s,
            ) by {
                assert(!service_says(list[j + 1], s));
            }
        }
    }
}

/// An accessory is called by the first name that its services say.
pub proof fn law_accessories_are_called(accessory: Json, name: Option<Seq<char>>)
    requires
        called_so(accessory, name),
    ensures
        accessory_name(accessory) == name,
{
    let list = items(accessory, "services"@);
    assert(services(accessory) == list);
    match name {
        Some(s) => {
            let i = choose|i: int|
                {
                    &&& 0 <= i < list.len()
                    &&& service_says(#[trigger] list[i], s)
                    &&& forall|j: int, t: Seq<char>|
                        0 <= j < i ==> !#[trigger] service_says(list[j], t)
                };
            lemma_first_name(accessory, list, i, s);
        },
        None => {
            lemma_first_name(accessory, list, 0, seq![]);
        },
    }
}

/// A room sensor, by its services: none of a thermostat, and one of occupancy or of temperature,
/// or both.
pub open spec fn senses(accessory: Json) -> bool {
    !bears(accessory, "4A"@) && (bears(accessory, "86"@) || bears(accessory, "8A"@))
}

/// A room sensor to adopt, with its own number.
pub open spec fn offer_of(aid: u64, name: Option<Seq<char>>) -> Candidate {
    Candidate {
        label: match name {
            Some(name) => name,
            None => "Ecobee Sensor "@ + decimal(aid as nat),
        },
        kind: "sensor"@,
        driver_id: "ecobee.hap.sensor"@,
        properties: map!["Accessory aid"@ => count(aid)],
        verified: "bridged by the thermostat"@,
    }
}

proof fn lemma_senses(accessory: Json)
    ensures
        is_sensor(accessory) <==> senses(accessory),
{
    lemma_proper();
    lemma_bears(accessory, "4A"@);
    lemma_bears(accessory, "86"@);
    lemma_bears(accessory, "8A"@);
}

/// Accessories are gone through in their order: one that senses is offered, under its own number
/// and name, and any other is not.
pub proof fn law_what_senses_is_offered(
    all: Seq<Json>,
    accessory: Json,
    aid: u64,
    name: Option<Seq<char>>,
)
    requires
        stands_under(accessory, aid),
        called_so(accessory, name),
    ensures
        sensor_candidates(seq![]) == Seq::<Candidate>::empty(),
        senses(accessory) ==> sensor_candidates(all.push(accessory)) == sensor_candidates(all).push(
            offer_of(aid, name),
        ),
        !senses(accessory) ==> sensor_candidates(all.push(accessory)) == sensor_candidates(all),
{
    assert(all.push(accessory).drop_last() =~= all);
    lemma_senses(accessory);
    lemma_aid(accessory, aid);
    law_accessories_are_called(accessory, name);
}

/// What stands for an accessory in what is offered.
pub open spec fn stands_for(c: Candidate, aid: u64) -> bool {
    c.driver_id == "ecobee.hap.sensor"@ && c.properties == map!["Accessory aid"@ => count(aid)]
}

/// Every accessory that senses is offered under its number, and only those are.
pub proof fn law_all_that_senses_is_offered(all: Seq<Json>, i: int)
    ensures
        0 <= i < all.len() && senses(all[i]) ==> exists|j: int, aid: u64|
            0 <= j < sensor_candidates(all).len() && stands_under(all[i], aid)
                && #[trigger] stands_for(sensor_candidates(all)[j], aid),
        0 <= i < sensor_candidates(all).len() ==> exists|j: int, aid: u64|
            0 <= j < all.len() && senses(all[j]) && #[trigger] stands_under(all[j], aid)
                && stands_for(sensor_candidates(all)[i], aid),
    decreases all.len(),
{
    if all.len() > 0 {
        let front = all.drop_last();
        let last = all.last();
        let n = all.len() - 1;
        assert(all[n] == last);
        law_all_that_senses_is_offered(front, i);
        lemma_senses(last);
        lemma_aid(last, aid_of(last));
        let some = sensor_candidates(front);
        let every = sensor_candidates(all);
        if 0 <= i < all.len() && senses(all[i]) {
            if i == n {
                assert(stands_for(every[some.len() as int], aid_of(last)));
            } else {
                assert(front[i] == all[i]);
                let (j, aid) = choose|j: int, aid: u64|
                    0 <= j < some.len() && stands_under(front[i], aid) && #[trigger] stands_for(
                        some[j],
                        aid,
                    );
                assert(every[j] == some[j]);
                assert(stands_for(every[j], aid));
            }
        }
        if 0 <= i < every.len() {
            if i < some.len() {
                let (j, aid) = choose|j: int, aid: u64|
                    0 <= j < front.len() && senses(front[j]) && #[trigger] stands_under(
                        front[j],
                        aid,
                    ) && stands_for(some[i], aid);
                assert(all[j] == front[j]);
                assert(every[i] == some[i]);
                assert(stands_under(all[j], aid));
            } else {
                assert(stands_under(all[n], aid_of(last)));
                assert(stands_for(every[i], aid_of(last)));
            }
        }
    }
}

/// What a thermostat is called in a document: the name of the first accessory with a thermostat
/// service, or a name of setup's own.
pub open spec fn thermostat_called(doc: Json, label: Seq<char>) -> bool {
    ||| exists|k: int| #[trigger]
        thermostat_at(doc, k) && called_so(items(doc, "accessories"@)[k], Some(label))
    ||| label == "Ecobee Thermostat"@ && (forall|k: int| #[trigger]
        thermostat_at(doc, k) ==> called_so(items(doc, "accessories"@)[k], None))
}

proof fn lemma_some_thermostat(all: Seq<Json>) -> (k: int)
    ensures
        first_with(all, "4A"@) is Some ==> {
            &&& 0 <= k < all.len()
            &&& bears(all[k], "4A"@)
            &&& forall|j: int| 0 <= j < k ==> !bears(#[trigger] all[j], "4A"@)
            &&& first_with(all, "4A"@) == Some(all[k])
        },
        first_with(all, "4A"@) is None ==> forall|j: int|
            0 <= j < all.len() ==> !bears(#[trigger] all[j], "4A"@),
    decreases all.len(),
{
    if all.len() == 0 {
        0
    } else {
        lemma_proper();
        lemma_bears(all[0], "4A"@);
        if bears(all[0], "4A"@) {
            0
        } else {
            let rest = all.drop_first();
            let k = lemma_some_thermostat(rest);
            assert forall|j: int| 0 <= j < all.len() && (first_with(all, "4A"@) is None || j < k
                + 1) implies !bears(#[trigger] all[j], "4A"@) by {
                if j > 0 {
                    assert(rest[j - 1] == all[j]);
                    assert(!bears(rest[j - 1], "4A"@));
                }
            }
            if first_with(all, "4A"@) is Some {
                assert(all[k + 1] == rest[k]);
            }
            k + 1
        }
    }
}

proof fn lemma_thermostat_called(doc: Json, label: Seq<char>)
    requires
        thermostat_called(doc, label),
    ensures
        (match crate::model::setup::thermostat_name(accessories(doc)) {
            Some(name) => name,
            None => "Ecobee Thermostat"@,
        }) == label,
{
    let all = items(doc, "accessories"@);
    assert(accessories(doc) == all);
    let k = lemma_some_thermostat(all);
    if first_with(all, "4A"@) is Some {
        assert(thermostat_at(doc, k));
        if exists|i: int| #[trigger]
            thermostat_at(doc, i) && called_so(items(doc, "accessories"@)[i], Some(label)) {
            let i = choose|i: int| #[trigger]
                thermostat_at(doc, i) && called_so(items(doc, "accessories"@)[i], Some(label));
            assert(i == k) by {
                if i < k {
                    assert(!bears(all[i], "4A"@));
                } else if k < i {
                    assert(!bears(all[k], "4A"@));
                }
            }
            law_accessories_are_called(all[k], Some(label));
        } else {
            law_accessories_are_called(all[k], None);
        }
    } else {
        assert forall|i: int| !#[trigger] thermostat_at(doc, i) by {
            if thermostat_at(doc, i) {
                assert(!bears(all[i], "4A"@));
            }
        }
    }
}

/// An answer that failed, or holds no accessories, ends setup with the reason. Any other ends it
/// with what is offered: the thermostat first, where it is set up and not only browsed, with the
/// whole pairing as its properties, and then the sensors.
pub proof fn law_what_came_back_is_offered(
    state: Json,
    input: Map<Seq<char>, Json>,
    thermostat: bool,
    doc: Json,
    err: Seq<char>,
    p: Pairing,
    label: Seq<char>,
)
    ensures
        stands(input, "error"@, Json::Text(err)) ==> list(state, input, thermostat) == (Turn {
            step: Step::Failed {
                reason: "Paired, but could not read the thermostat: "@ + err,
                document: None,
            },
            state: Json::Null,
        }),
        no_text(input, "error"@) && answered(input, doc) && items(doc, "accessories"@).len() == 0
            ==> list(state, input, thermostat) == (Turn {
            step: Step::Failed {
                reason: "The thermostat answered with nothing to set up: "@,
                document: Some(doc),
            },
            state: Json::Null,
        }),
        no_text(input, "error"@) && answered(input, doc) && items(doc, "accessories"@).len() > 0
            && state_pairing(state, p) && thermostat_called(doc, label) ==> list(
            state,
            input,
            thermostat,
        ) == (Turn {
            step: Step::Done {
                candidates: if thermostat {
                    seq![
                        Candidate {
                            label,
                            kind: "thermostat"@,
                            driver_id: "ecobee.hap.thermostat"@,
                            properties: map![
                                "Address"@ => Json::Text(p.address),
                                "Port"@ => count(p.port),
                                "Accessory id"@ => Json::Text(p.accessory_id),
                                "Accessory key"@ => Json::Text(p.accessory_key),
                                "Controller id"@ => Json::Text(p.controller_id),
                                "Controller key"@ => Json::Text(p.controller_key),
                            ],
                            verified: "paired over HomeKit"@,
                        },
                    ] + sensor_candidates(items(doc, "accessories"@))
                } else {
                    sensor_candidates(items(doc, "accessories"@))
                },
            },
            state: Json::Null,
        }),
{
    lemma_error(input);
    lemma_answered(input, doc);
    let all = items(doc, "accessories"@);
    assert(accessories(doc) == all);
    if state_pairing(state, p) {
        lemma_state_pairing(state, p);
    }
    if thermostat_called(doc, label) {
        lemma_thermostat_called(doc, label);
    }
    assert(seq![] + sensor_candidates(all) =~= sensor_candidates(all));
    if answered(input, doc) && state_pairing(state, p) && thermostat_called(doc, label) {
        assert(thermostat_candidate(state, all).properties =~= map![
            "Address"@ => Json::Text(p.address),
            "Port"@ => count(p.port),
            "Accessory id"@ => Json::Text(p.accessory_id),
            "Accessory key"@ => Json::Text(p.accessory_key),
            "Controller id"@ => Json::Text(p.controller_id),
            "Controller key"@ => Json::Text(p.controller_key),
        ]);
    }
}

/// Listing offers every accessory of the answer that senses, under its number, and no sensor but
/// those.
pub proof fn law_listing_offers_all_that_senses(
    state: Json,
    input: Map<Seq<char>, Json>,
    thermostat: bool,
    doc: Json,
    i: int,
)
    requires
        no_text(input, "error"@),
        answered(input, doc),
        items(doc, "accessories"@).len() > 0,
    ensures
        ({
            let all = items(doc, "accessories"@);
            let step = list(state, input, thermostat).step;
            &&& step is Done
            &&& 0 <= i < all.len() && senses(all[i]) ==> exists|j: int, aid: u64|
                0 <= j < step->candidates.len() && stands_under(all[i], aid)
                    && #[trigger] stands_for(step->candidates[j], aid)
            &&& 0 <= i < step->candidates.len() && step->candidates[i].driver_id
                == "ecobee.hap.sensor"@ ==> exists|j: int, aid: u64|
                0 <= j < all.len() && senses(all[j]) && #[trigger] stands_under(all[j], aid)
                    && stands_for(step->candidates[i], aid)
        }),
{
    lemma_error(input);
    lemma_answered(input, doc);
    let all = items(doc, "accessories"@);
    assert(accessories(doc) == all);
    let step = list(state, input, thermostat).step;
    let c = step->candidates;
    let s = sensor_candidates(all);
    let head: int = if thermostat {
        1
    } else {
        0
    };
    assert(c.len() == head + s.len());
    assert forall|j: int| 0 <= j < s.len() implies c[head + j] == #[trigger] s[j] by {}
    reveal_strlit("ecobee.hap.sensor");
    reveal_strlit("ecobee.hap.thermostat");
    assert("ecobee.hap.sensor"@.len() == 17 && "ecobee.hap.thermostat"@.len() == 21);
    if 0 <= i < all.len() && senses(all[i]) {
        law_all_that_senses_is_offered(all, i);
        let (j, aid) = choose|j: int, aid: u64|
            0 <= j < s.len() && stands_under(all[i], aid) && #[trigger] stands_for(s[j], aid);
        assert(c[head + j] == s[j]);
        assert(stands_for(c[head + j], aid));
    }
    if 0 <= i < c.len() && c[i].driver_id == "ecobee.hap.sensor"@ {
        assert(i >= head);
        law_all_that_senses_is_offered(all, i - head);
        assert(c[i] == s[i - head]);
    }
}

// ---------------------------------------------------------------------------------------
// Turns
// ---------------------------------------------------------------------------------------

/// Which turn it is: a thermostat that is browsed is read, and listed without itself once
/// something came back; otherwise the stage says whether a pairing is looked at or a database
/// listed, and whatever else it says, the code is asked for.
pub proof fn law_turns(state: Json, input: Map<Seq<char>, Json>)
    ensures
        says(state, "browse"@, Json::Bool(true)) && !input.dom().contains("response"@)
            && !input.dom().contains("error"@) ==> run(state, input) == read_accessories(state),
        says(state, "browse"@, Json::Bool(true)) && (input.dom().contains("response"@)
            || input.dom().contains("error"@)) ==> run(state, input) == list(state, input, false),
        !says(state, "browse"@, Json::Bool(true)) ==> {
            &&& says(state, "stage"@, Json::Text("pairing"@)) ==> run(state, input)
                == after_pairing(state, input)
            &&& says(state, "stage"@, Json::Text("listing"@)) ==> run(state, input) == list(
                state,
                input,
                true,
            )
            &&& !says(state, "stage"@, Json::Text("pairing"@)) && !says(
                state,
                "stage"@,
                Json::Text("listing"@),
            ) ==> run(state, input) == ask(state, input)
        },
{
    lemma_state_keys();
    reveal_strlit("");
    reveal_strlit("pairing");
    reveal_strlit("listing");
    lemma_field(state, "stage"@, "pairing"@);
    lemma_field(state, "stage"@, "listing"@);
}

/// Only the thermostat's driver is set up; any other is done at once, with nothing.
pub proof fn law_only_the_thermostat_is_set_up(
    driver_id: Seq<char>,
    state: Json,
    input: Map<Seq<char>, Json>,
)
    ensures
        discover("ecobee.hap.thermostat"@, state, input) == run(state, input),
        driver_id != "ecobee.hap.thermostat"@ ==> discover(driver_id, state, input) == (Turn {
            step: Step::Done { candidates: seq![] },
            state: Json::Null,
        }),
{
}

} // verus!

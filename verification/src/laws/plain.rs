//! What documents say, read off their JSON.
//!
//! The laws of whole operations are stated in these words: which member stands under which key
//! of an object, and how a type is spelled. They do not go through the way in which the driver
//! finds its own way through a document.

use crate::json::{number_double, Json, Number};
use crate::laws::names::{
    lemma_before, lemma_before_is_free, lemma_padding, lemma_without_leading,
};
use crate::model::accessory::{
    aid_of, characteristic, characteristics, find, hap_type, has_service, listed,
    name_of, number, service_type, services, Characteristic,
};
use crate::text::{before, upper, without_leading};
use vstd::prelude::*;

verus! {

// ---------------------------------------------------------------------------------------
// Members
// ---------------------------------------------------------------------------------------

/// A value stands under a key.
pub open spec fn stands(m: Map<Seq<char>, Json>, key: Seq<char>, v: Json) -> bool {
    m.dom().contains(key) && m[key] == v
}

/// A value is an object in which a value stands under a key.
pub open spec fn says(j: Json, key: Seq<char>, v: Json) -> bool {
    match j {
        Json::Object(m) => stands(m, key, v),
        _ => false,
    }
}

/// The integer `n`, as JSON.
pub open spec fn count(n: u64) -> Json {
    Json::Number(Number::Unsigned(n))
}

/// No string stands under a key.
pub open spec fn no_text(m: Map<Seq<char>, Json>, key: Seq<char>) -> bool {
    forall|s: Seq<char>| !#[trigger] stands(m, key, Json::Text(s))
}

/// No integer from zero up stands under a key.
pub open spec fn no_count(m: Map<Seq<char>, Json>, key: Seq<char>) -> bool {
    forall|n: u64| !#[trigger] stands(m, key, count(n))
}

/// No number stands under a key.
pub open spec fn no_number(m: Map<Seq<char>, Json>, key: Seq<char>) -> bool {
    forall|n: Number| !#[trigger] stands(m, key, Json::Number(n))
}

/// The members of an object, none of anything else.
pub open spec fn own(j: Json) -> Map<Seq<char>, Json> {
    match j {
        Json::Object(m) => m,
        _ => Map::empty(),
    }
}

/// The items of the array under a key, none where no array stands there.
pub open spec fn items(j: Json, key: Seq<char>) -> Seq<Json> {
    match j {
        Json::Object(m) => if m.dom().contains(key) {
            match m[key] {
                Json::Array(list) => list,
                _ => seq![],
            }
        } else {
            seq![]
        },
        _ => seq![],
    }
}

// ---------------------------------------------------------------------------------------
// Types
// ---------------------------------------------------------------------------------------

/// A type is some zeros, then letters that do not start with one, then nothing or a dash and
/// anything.
pub open spec fn parts(raw: Seq<char>, zeros: nat, letters: Seq<char>, tail: Seq<char>) -> bool {
    &&& raw == Seq::new(zeros, |i: int| '0') + letters + tail
    &&& !letters.contains('-')
    &&& letters.len() > 0 ==> letters[0] != '0'
    &&& tail.len() > 0 ==> tail[0] == '-'
}

/// One way to write a type: its letters in capitals are the short form.
pub open spec fn spells(raw: Seq<char>, short: Seq<char>) -> bool {
    exists|zeros: nat, letters: Seq<char>, tail: Seq<char>| #[trigger]
        parts(raw, zeros, letters, tail) && upper(letters) == short
}

/// A service or characteristic has a type.
pub open spec fn typed(j: Json, short: Seq<char>) -> bool {
    exists|raw: Seq<char>| #[trigger] says(j, "type"@, Json::Text(raw)) && spells(raw, short)
}

/// An accessory has a service of a type.
pub open spec fn bears(accessory: Json, short: Seq<char>) -> bool {
    exists|i: int|
        0 <= i < items(accessory, "services"@).len() && typed(
            #[trigger] items(accessory, "services"@)[i],
            short,
        )
}

/// The types that matter: neither empty nor `0`.
pub open spec fn proper(short: Seq<char>) -> bool {
    short.len() > 0 && short != seq!['0']
}

/// The short form of a type is what it spells.
pub proof fn law_types_are_spelled(raw: Seq<char>, short: Seq<char>)
    requires
        proper(short),
    ensures
        hap_type(raw) == short <==> spells(raw, short),
{
    let head = before(raw, '-');
    let letters = without_leading(head, '0');
    let zeros = (head.len() - letters.len()) as nat;
    let tail = raw.skip(head.len() as int);
    lemma_before_is_free(raw, '-');
    lemma_without_leading(head, '0');
    reveal_strlit("0");
    assert("0"@ =~= seq!['0']);
    assert forall|i: int| 0 <= i < letters.len() implies letters[i] != '-' by {
        assert(letters[i] == head[i + zeros]);
        assert(head.contains(head[i + zeros]));
    }
    assert(raw =~= Seq::new(zeros, |i: int| '0') + letters + tail);
    assert(parts(raw, zeros, letters, tail));
    assert forall|z: nat, l: Seq<char>, t: Seq<char>| #[trigger] parts(raw, z, l, t) implies l
        == letters by {
        lemma_parts(raw, z, l, t);
    }
}

/// The letters of a type are what is left of it before its first dash without leading zeros.
pub proof fn lemma_parts(raw: Seq<char>, zeros: nat, letters: Seq<char>, tail: Seq<char>)
    requires
        parts(raw, zeros, letters, tail),
    ensures
        without_leading(before(raw, '-'), '0') == letters,
{
    let padding = Seq::new(zeros, |i: int| '0');
    let head = padding + letters;
    assert forall|i: int| 0 <= i < head.len() implies head[i] != '-' by {
        if i >= zeros {
            assert(letters.contains(letters[i - zeros]));
        }
    }
    assert(!head.contains('-'));
    if tail.len() > 0 {
        assert(raw =~= head + seq!['-'] + tail.drop_first());
        lemma_before(head, '-', tail.drop_first());
    } else {
        assert(raw =~= head);
        lemma_before(head, '-', Seq::empty());
    }
    lemma_padding(padding, letters, '0');
}

/// A service is of a type where it says so.
pub proof fn lemma_typed(service: Json, short: Seq<char>)
    requires
        proper(short),
    ensures
        service_type(service) == Some(short) <==> typed(service, short),
{
    if service_type(service) is Some {
        let raw = service.text_at("type"@)->0;
        law_types_are_spelled(raw, short);
        assert(says(service, "type"@, Json::Text(raw)));
    }
}

/// The services of an accessory are the items under that key.
pub proof fn lemma_bears(accessory: Json, short: Seq<char>)
    requires
        proper(short),
    ensures
        services(accessory) == items(accessory, "services"@),
        has_service(accessory, short) <==> bears(accessory, short),
{
    let list = items(accessory, "services"@);
    assert(services(accessory) == list);
    if has_service(accessory, short) {
        let i = choose|i: int|
            0 <= i < list.len() && service_type(#[trigger] services(accessory)[i]) == Some(short);
        lemma_typed(list[i], short);
        assert(typed(items(accessory, "services"@)[i], short));
    }
    if bears(accessory, short) {
        let i = choose|i: int|
            0 <= i < list.len() && typed(#[trigger] items(accessory, "services"@)[i], short);
        lemma_typed(list[i], short);
        assert(service_type(services(accessory)[i]) == Some(short));
    }
}

/// The short forms are proper ones.
pub proof fn lemma_proper()
    ensures
        proper("4A"@),
        proper("8A"@),
        proper("86"@),
        proper("F"@),
        proper("33"@),
        proper("11"@),
        proper("35"@),
        proper("D"@),
        proper("12"@),
        proper("10"@),
        proper("71"@),
        proper("23"@),
        proper("36"@),
        "4A"@ != "8A"@,
        "4A"@ != "86"@,
        "8A"@ != "86"@,
{
    reveal_strlit("4A");
    reveal_strlit("8A");
    reveal_strlit("86");
    reveal_strlit("F");
    reveal_strlit("33");
    reveal_strlit("11");
    reveal_strlit("35");
    reveal_strlit("D");
    reveal_strlit("12");
    reveal_strlit("10");
    reveal_strlit("71");
    reveal_strlit("23");
    reveal_strlit("36");
    assert("4A"@[0] == '4' && "8A"@[0] == '8' && "86"@[0] == '8' && "F"@[0] == 'F');
    assert("33"@[0] == '3' && "11"@[0] == '1' && "35"@[0] == '3' && "D"@[0] == 'D');
    assert("12"@[0] == '1' && "10"@[0] == '1' && "71"@[0] == '7' && "23"@[0] == '2');
    assert("36"@[0] == '3' && "8A"@[1] == 'A' && "86"@[1] == '6');
}

// ---------------------------------------------------------------------------------------
// Characteristics
// ---------------------------------------------------------------------------------------

/// A characteristic of a type with a number of its own. Only such ones count.
pub open spec fn counts(c: Json, short: Seq<char>) -> bool {
    typed(c, short) && exists|iid: u64| #[trigger] says(c, "iid"@, count(iid))
}

/// The first characteristic of a type that counts stands at a place of a list, wherever that is.
pub open spec fn first_at(list: Seq<Json>, short: Seq<char>, i: int) -> bool {
    &&& 0 <= i < list.len()
    &&& counts(list[i], short)
    &&& forall|j: int| 0 <= j < i ==> !counts(#[trigger] list[j], short)
}

/// No characteristic of a type counts.
pub open spec fn none_counts(list: Seq<Json>, short: Seq<char>) -> bool {
    forall|j: int| 0 <= j < list.len() ==> !counts(#[trigger] list[j], short)
}

/// The first characteristic of a type in a service holds a number.
pub open spec fn measures(service: Json, short: Seq<char>, n: Number) -> bool {
    exists|i: int|
        first_at(items(service, "characteristics"@), short, i) && says(
            #[trigger] items(service, "characteristics"@)[i],
            "value"@,
            Json::Number(n),
        )
}

/// What the first characteristic of a type in a service holds: this number, or none.
pub open spec fn measured(service: Json, short: Seq<char>, n: Option<Number>) -> bool {
    match n {
        Some(n) => measures(service, short, n),
        None => forall|n: Number| !#[trigger] measures(service, short, n),
    }
}

/// The first characteristic of a type in a service stands there under this number, or there is
/// none.
pub open spec fn numbered(service: Json, short: Seq<char>, iid: Option<u64>) -> bool {
    let list = items(service, "characteristics"@);
    match iid {
        Some(iid) => exists|i: int|
            first_at(list, short, i) && says(#[trigger] list[i], "iid"@, count(iid)),
        None => none_counts(list, short),
    }
}

/// The number under which an accessory stands: zero where it says none.
pub open spec fn stands_under(accessory: Json, aid: u64) -> bool {
    says(accessory, "aid"@, count(aid)) || (aid == 0 && no_count(own(accessory), "aid"@))
}

/// An accessory's number is what it says.
pub proof fn lemma_aid(accessory: Json, aid: u64)
    ensures
        aid_of(accessory) == aid <==> stands_under(accessory, aid),
{
    let m = own(accessory);
    if accessory.unsigned_at("aid"@) is Some {
        assert(stands(m, "aid"@, count(accessory.unsigned_at("aid"@)->0)));
    }
    if !no_count(m, "aid"@) {
        let n = choose|n: u64| #[trigger] stands(m, "aid"@, count(n));
        assert(accessory.unsigned_at("aid"@) == Some(n));
    }
}

/// A characteristic is taken up where it says its number and its type.
proof fn lemma_characteristic(aid: u64, c: Json, short: Seq<char>)
    requires
        proper(short),
    ensures
        counts(c, short) <==> (characteristic(aid, c) is Some && characteristic(aid, c)->0.ty
            == short),
{
    if characteristic(aid, c) is Some {
        let raw = c.text_at("type"@)->0;
        law_types_are_spelled(raw, short);
        assert(says(c, "type"@, Json::Text(raw)));
        assert(says(c, "iid"@, count(c.unsigned_at("iid"@)->0)));
    }
    if counts(c, short) {
        let raw = choose|raw: Seq<char>|
            #[trigger] says(c, "type"@, Json::Text(raw)) && spells(raw, short);
        let iid = choose|iid: u64| #[trigger] says(c, "iid"@, count(iid));
        law_types_are_spelled(raw, short);
        assert(c.text_at("type"@) == Some(raw));
        assert(c.unsigned_at("iid"@) == Some(iid));
    }
}

/// Looking through one more characteristic.
proof fn lemma_find_push(chars: Seq<Characteristic>, c: Characteristic, ty: Seq<char>)
    ensures
        find(chars.push(c), ty) == (match find(chars, ty) {
            Some(x) => Some(x),
            None => if c.ty == ty {
                Some(c)
            } else {
                None
            },
        }),
    decreases chars.len(),
{
    if chars.len() > 0 {
        assert(chars.push(c).drop_first() =~= chars.drop_first().push(c));
        lemma_find_push(chars.drop_first(), c, ty);
    } else {
        assert(chars.push(c)[0] == c);
        assert(chars.push(c).drop_first() =~= chars);
        assert(find(chars, ty) is None);
    }
}

/// What is found in a list is the first that counts.
proof fn lemma_find_first(aid: u64, list: Seq<Json>, short: Seq<char>, i: int)
    requires
        proper(short),
    ensures
        first_at(list, short, i) ==> find(listed(aid, list), short) == characteristic(aid, list[i])
            && characteristic(aid, list[i]) is Some,
        none_counts(list, short) ==> find(listed(aid, list), short) is None,
    decreases list.len(),
{
    if list.len() > 0 {
        let front = list.drop_last();
        let last = list.last();
        let n = list.len() - 1;
        assert(list[n] == last);
        lemma_characteristic(aid, last, short);
        lemma_find_first(aid, front, short, i);
        if characteristic(aid, last) is Some {
            lemma_find_push(listed(aid, front), characteristic(aid, last)->0, short);
        }
        assert forall|j: int| 0 <= j < n implies front[j] == list[j] by {}
        if first_at(list, short, i) {
            if i == n {
                assert forall|j: int| 0 <= j < front.len() implies !counts(
                    #[trigger] front[j],
                    short,
                ) by {
                    assert(!counts(list[j], short));
                }
            } else {
                assert(first_at(front, short, i)) by {
                    assert(front[i] == list[i]);
                    assert forall|j: int| 0 <= j < i implies !counts(#[trigger] front[j], short) by {
                        assert(!counts(list[j], short));
                    }
                }
            }
        }
        if none_counts(list, short) {
            assert(!counts(list[n], short));
            assert forall|j: int| 0 <= j < front.len() implies !counts(
                #[trigger] front[j],
                short,
            ) by {
                assert(!counts(list[j], short));
            }
        }
    }
}

/// Where something counts, something counts first.
pub proof fn lemma_some_first(list: Seq<Json>, short: Seq<char>) -> (i: int)
    ensures
        none_counts(list, short) || first_at(list, short, i),
    decreases list.len(),
{
    if list.len() == 0 {
        0
    } else {
        let front = list.drop_last();
        let i = lemma_some_first(front, short);
        if none_counts(front, short) {
            let n = list.len() - 1;
            assert forall|j: int| 0 <= j < n implies !counts(#[trigger] list[j], short) by {
                assert(!counts(front[j], short));
            }
            n
        } else {
            assert forall|j: int| 0 <= j < i implies !counts(#[trigger] list[j], short) by {
                assert(!counts(front[j], short));
            }
            assert(list[i] == front[i]);
            i
        }
    }
}

/// What a service measures is what the driver reads.
pub proof fn lemma_measured(accessory: Json, service: Json, short: Seq<char>, n: Option<Number>)
    requires
        proper(short),
        measured(service, short, n),
    ensures
        number(characteristics(accessory, service), short) == (match n {
            Some(n) => Some(number_double(n)),
            None => None,
        }),
{
    let list = items(service, "characteristics"@);
    let aid = aid_of(accessory);
    assert(characteristics(accessory, service) == listed(aid, list));
    match n {
        Some(v) => {
            let i = choose|i: int|
                first_at(items(service, "characteristics"@), short, i) && says(
                    #[trigger] items(service, "characteristics"@)[i],
                    "value"@,
                    Json::Number(v),
                );
            lemma_find_first(aid, list, short, i);
        },
        None => {
            let i = lemma_some_first(list, short);
            lemma_find_first(aid, list, short, i);
            if first_at(list, short, i) {
                match characteristic(aid, list[i])->0.value {
                    Json::Number(v) => {
                        assert(says(items(service, "characteristics"@)[i], "value"@, Json::Number(v)));
                        assert(measures(service, short, v));
                    },
                    _ => {},
                }
            }
        },
    }
}

/// What a service numbers is what the driver remembers.
pub proof fn lemma_numbered(accessory: Json, service: Json, short: Seq<char>, iid: Option<u64>)
    requires
        proper(short),
        numbered(service, short, iid),
    ensures
        match (find(characteristics(accessory, service), short), iid) {
            (Some(c), Some(iid)) => c.iid == iid && c.aid == aid_of(accessory),
            (None, None) => true,
            _ => false,
        },
{
    let list = items(service, "characteristics"@);
    let aid = aid_of(accessory);
    assert(characteristics(accessory, service) == listed(aid, list));
    match iid {
        Some(v) => {
            let i = choose|i: int|
                first_at(list, short, i) && says(#[trigger] list[i], "iid"@, count(v));
            lemma_find_first(aid, list, short, i);
        },
        None => {
            lemma_find_first(aid, list, short, 0);
        },
    }
}

/// The name that the driver finds in a service is that of its first name characteristic.
pub proof fn lemma_name_found(accessory: Json, service: Json, name: Seq<char>)
    ensures
        name_of(characteristics(accessory, service)) == Some(name) <==> (name.len() > 0 && exists|
            i: int,
        |
            first_at(items(service, "characteristics"@), "23"@, i) && says(
                #[trigger] items(service, "characteristics"@)[i],
                "value"@,
                Json::Text(name),
            )),
{
    let list = items(service, "characteristics"@);
    let aid = aid_of(accessory);
    assert(characteristics(accessory, service) == listed(aid, list));
    lemma_proper();
    let i = lemma_some_first(list, "23"@);
    lemma_find_first(aid, list, "23"@, i);
    assert forall|j: int| first_at(list, "23"@, j) implies first_at(list, "23"@, i) && i == j by {
        if first_at(list, "23"@, j) {
            assert(counts(list[j], "23"@));
            if i < j {
                assert(!counts(list[i], "23"@));
            } else if j < i {
                assert(!counts(list[j], "23"@));
            }
        }
    }
    if first_at(list, "23"@, i) {
        let c = characteristic(aid, list[i])->0;
        assert(c.value == Json::Text(name) <==> says(list[i], "value"@, Json::Text(name)));
        if c.value == Json::Text(name) {
            assert(says(items(service, "characteristics"@)[i], "value"@, Json::Text(name)));
        }
    }
}

} // verus!

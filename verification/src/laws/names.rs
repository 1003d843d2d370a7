//! Laws of types and modes.

use crate::double::{truncated, Double};
use crate::json::{number_double, Number};
use crate::laws::numbers::law_integers_are_exact;
use crate::model::accessory::{hap_type, mode_name, mode_value};
use crate::text::{
    ascii_upper, before, trimmed, upper, white_space, without_leading, without_leading_space,
    without_trailing_space,
};
use vstd::prelude::*;
use vstd::utf8::is_ascii_chars;

verus! {

/// What stands before a mark goes by the first one only, and all of a string without one does.
pub proof fn lemma_before(s: Seq<char>, mark: char, rest: Seq<char>)
    ensures
        before(s + seq![mark] + rest, mark) == before(s, mark),
        !s.contains(mark) ==> before(s, mark) == s,
    decreases s.len(),
{
    let whole = s + seq![mark] + rest;
    if s.len() > 0 {
        let tail = s.drop_first();
        assert(s.contains(s[0]));
        assert forall|c: char| tail.contains(c) implies s.contains(c) by {
            let i = choose|i: int| 0 <= i < tail.len() && tail[i] == c;
            assert(s[i + 1] == c);
        }
        lemma_before(tail, mark, rest);
        assert(whole.drop_first() =~= tail + seq![mark] + rest);
        assert(seq![s[0]] + tail =~= s);
    } else {
        assert(whole[0] == mark);
        assert(before(whole, mark) =~= s);
    }
}

/// Characters other than the mark stay in front of what stands before it.
proof fn lemma_before_padded(padding: Seq<char>, s: Seq<char>, mark: char)
    requires
        forall|i: int| 0 <= i < padding.len() ==> padding[i] != mark,
    ensures
        before(padding + s, mark) == padding + before(s, mark),
    decreases padding.len(),
{
    if padding.len() > 0 {
        let shorter = padding.drop_first();
        lemma_before_padded(shorter, s, mark);
        assert((padding + s).drop_first() =~= shorter + s);
        assert(seq![padding[0]] + (shorter + before(s, mark)) =~= padding + before(s, mark));
    } else {
        assert(padding + s =~= s);
        assert(padding + before(s, mark) =~= before(s, mark));
    }
}

/// What stands before a mark does not hold it.
pub proof fn lemma_before_is_free(s: Seq<char>, mark: char)
    ensures
        !before(s, mark).contains(mark),
        before(s, mark).len() <= s.len(),
        forall|i: int| 0 <= i < before(s, mark).len() ==> before(s, mark)[i] == s[i],
        before(s, mark).len() < s.len() ==> s[before(s, mark).len() as int] == mark,
    decreases s.len(),
{
    if s.len() > 0 && s[0] != mark {
        let rest = before(s.drop_first(), mark);
        lemma_before_is_free(s.drop_first(), mark);
        let all = seq![s[0]] + rest;
        assert forall|i: int| 0 <= i < all.len() implies all[i] == s[i] && all[i] != mark by {
            if i > 0 {
                assert(rest.contains(rest[i - 1]));
                assert(rest[i - 1] == s.drop_first()[i - 1]);
            }
        }
    }
}

/// Leading marks do not matter to what is left without them.
pub proof fn lemma_padding(padding: Seq<char>, s: Seq<char>, mark: char)
    requires
        forall|i: int| 0 <= i < padding.len() ==> padding[i] == mark,
    ensures
        without_leading(padding + s, mark) == without_leading(s, mark),
    decreases padding.len(),
{
    if padding.len() > 0 {
        let shorter = padding.drop_first();
        assert((padding + s).drop_first() =~= shorter + s);
        lemma_padding(shorter, s, mark);
    } else {
        assert(padding + s =~= s);
    }
}

/// What is left without leading marks is a suffix that does not start with one.
pub proof fn lemma_without_leading(s: Seq<char>, mark: char)
    ensures
        ({
            let r = without_leading(s, mark);
            &&& r.len() <= s.len()
            &&& r == s.skip(s.len() - r.len())
            &&& forall|i: int| 0 <= i < s.len() - r.len() ==> s[i] == mark
            &&& r.len() > 0 ==> r[0] != mark
        }),
    decreases s.len(),
{
    if s.len() > 0 && s[0] == mark {
        lemma_without_leading(s.drop_first(), mark);
        let r = without_leading(s, mark);
        assert(s.drop_first().skip(s.len() - 1 - r.len()) =~= s.skip(s.len() - r.len()));
        assert forall|i: int| 0 <= i < s.len() - r.len() implies s[i] == mark by {
            if i > 0 {
                assert(s.drop_first()[i - 1] == mark);
            }
        }
    } else {
        assert(s.skip(0) =~= s);
    }
}

/// A type, the same type with leading zeros, and either with a dash and anything behind it, as in
/// a full identifier, are the same type.
pub proof fn law_type_forms(ty: Seq<char>, zeros: Seq<char>, rest: Seq<char>)
    requires
        forall|i: int| 0 <= i < zeros.len() ==> zeros[i] == '0',
    ensures
        hap_type(zeros + ty) == hap_type(ty),
        hap_type(zeros + ty + seq!['-'] + rest) == hap_type(ty),
{
    lemma_before_padded(zeros, ty, '-');
    lemma_before(zeros + ty, '-', rest);
    lemma_padding(zeros, before(ty, '-'), '0');
}

/// Capitals of ASCII text.
spec fn capitals(s: Seq<char>) -> Seq<char> {
    s.map_values(|c: char| ascii_upper(c))
}

/// Cutting a type and putting it in capitals can be done in either order.
proof fn lemma_capitals(s: Seq<char>)
    ensures
        before(capitals(s), '-') == capitals(before(s, '-')),
        without_leading(capitals(s), '0') == capitals(without_leading(s, '0')),
        capitals(capitals(s)) == capitals(s),
    decreases s.len(),
{
    if s.len() > 0 {
        let tail = s.drop_first();
        lemma_capitals(tail);
        assert(capitals(s).drop_first() =~= capitals(tail));
        assert(capitals(seq![s[0]] + before(tail, '-')) =~= seq![ascii_upper(s[0])] + capitals(
            before(tail, '-'),
        ));
        assert(capitals(s)[0] == ascii_upper(s[0]));
    }
    assert(before(capitals(s), '-') =~= capitals(before(s, '-')));
    assert(without_leading(capitals(s), '0') =~= capitals(without_leading(s, '0')));
    assert(capitals(capitals(s)) =~= capitals(s));
}

/// What is left of an ASCII type before its capitals is ASCII, without a dash, and starts with
/// no zero.
proof fn lemma_bare(raw: Seq<char>)
    requires
        is_ascii_chars(raw),
    ensures
        ({
            let bare = without_leading(before(raw, '-'), '0');
            &&& is_ascii_chars(bare)
            &&& forall|i: int| 0 <= i < bare.len() ==> #[trigger] bare[i] != '-'
            &&& bare.len() > 0 ==> bare[0] != '0'
        }),
{
    let head = before(raw, '-');
    let bare = without_leading(head, '0');
    lemma_before_is_free(raw, '-');
    lemma_without_leading(head, '0');
    assert forall|i: int| 0 <= i < bare.len() implies bare[i] != '-' && '\0' <= (#[trigger] bare[i])
        <= '\u{7f}' by {
        let j = i + (head.len() - bare.len());
        assert(bare[i] == head[j]);
        assert(head.contains(head[j]));
        assert(head[j] == raw[j]);
    }
}

/// On ASCII text the case of letters does not matter to a type.
pub proof fn law_letter_case_does_not_matter(one: Seq<char>, two: Seq<char>)
    requires
        is_ascii_chars(one),
        is_ascii_chars(two),
        upper(one) == upper(two),
    ensures
        hap_type(one) == hap_type(two),
{
    let head_one = before(one, '-');
    let head_two = before(two, '-');
    lemma_bare(one);
    lemma_bare(two);
    lemma_capitals(one);
    lemma_capitals(two);
    lemma_capitals(head_one);
    lemma_capitals(head_two);
    assert(upper(without_leading(head_one, '0')) == without_leading(before(upper(one), '-'), '0'));
    assert(upper(without_leading(head_two, '0')) == without_leading(before(upper(two), '-'), '0'));
}

/// A short form is never empty. Of an ASCII type it holds no dash and no small letter, and only
/// `0` itself starts with a zero.
pub proof fn law_short_form(raw: Seq<char>)
    ensures
        hap_type(raw).len() > 0,
        is_ascii_chars(raw) ==> {
            &&& is_ascii_chars(hap_type(raw))
            &&& forall|i: int|
                0 <= i < hap_type(raw).len() ==> #[trigger] hap_type(raw)[i] != '-' && !('a'
                    <= hap_type(raw)[i] <= 'z')
            &&& hap_type(raw)[0] == '0' ==> hap_type(raw) == "0"@
        },
{
    reveal_strlit("0");
    let bare = without_leading(before(raw, '-'), '0');
    let r = hap_type(raw);
    assert("0"@ =~= seq!['0']);
    if is_ascii_chars(raw) {
        lemma_bare(raw);
        assert forall|i: int| 0 <= i < r.len() implies #[trigger] r[i] != '-' && !('a' <= r[i]
            <= 'z') && '\0' <= r[i] <= '\u{7f}' by {
            if bare.len() > 0 {
                assert(r[i] == ascii_upper(bare[i]));
            }
        }
        if bare.len() > 0 {
            assert(r[0] == ascii_upper(bare[0]));
        }
    }
}

/// A short form is its own short form.
pub proof fn law_short_form_is_final(raw: Seq<char>)
    requires
        is_ascii_chars(raw),
    ensures
        hap_type(hap_type(raw)) == hap_type(raw),
{
    let r = hap_type(raw);
    law_short_form(raw);
    assert(!r.contains('-'));
    lemma_before(r, '-', Seq::empty());
    if r[0] == '0' {
        reveal_strlit("0");
        assert(r =~= seq!['0']);
        assert(r.drop_first() =~= Seq::empty());
        assert(without_leading(r, '0') =~= without_leading(r.drop_first(), '0'));
        assert(upper(Seq::<char>::empty()) =~= Seq::<char>::empty());
    } else {
        assert forall|i: int| 0 <= i < r.len() implies ascii_upper(r[i]) == #[trigger] r[i] by {}
        assert(upper(r) =~= r);
    }
}

/// The word for a state number and the number for a word undo each other: a written mode is
/// read back as the same word.
pub proof fn law_modes_read_back(name: Seq<char>)
    requires
        mode_value(name) is Some,
    ensures
        mode_name(number_double(Number::Unsigned(mode_value(name)->0 as u64))) == name,
{
    law_integers_are_exact(mode_value(name)->0 as int);
}

/// The words for the modes are all different.
pub proof fn lemma_modes()
    ensures
        "off"@ != "heat"@,
        "off"@ != "cool"@,
        "off"@ != "auto"@,
        "heat"@ != "cool"@,
        "heat"@ != "auto"@,
        "cool"@ != "auto"@,
{
    reveal_strlit("off");
    reveal_strlit("heat");
    reveal_strlit("cool");
    reveal_strlit("auto");
    assert("off"@[0] == 'o' && "heat"@[0] == 'h' && "cool"@[0] == 'c' && "auto"@[0] == 'a');
}

/// Every state number has a word, and every such word has a number.
pub proof fn law_modes_are_known(v: Double)
    ensures
        mode_value(mode_name(v)) is Some,
        1 <= truncated(v.bits) <= 3 ==> mode_value(mode_name(v))->0 == truncated(v.bits),
{
    lemma_modes();
}

proof fn lemma_without_leading_space(s: Seq<char>)
    ensures
        ({
            let r = without_leading_space(s);
            &&& r.len() <= s.len()
            &&& r == s.skip(s.len() - r.len())
            &&& forall|i: int| 0 <= i < s.len() - r.len() ==> white_space(#[trigger] s[i])
            &&& r.len() > 0 ==> !white_space(r[0])
        }),
    decreases s.len(),
{
    if s.len() > 0 && white_space(s[0]) {
        let t = s.drop_first();
        lemma_without_leading_space(t);
        let r = without_leading_space(s);
        assert(t.skip(t.len() - r.len()) =~= s.skip(s.len() - r.len()));
        assert forall|i: int| 0 <= i < s.len() - r.len() implies white_space(#[trigger] s[i]) by {
            if i > 0 {
                assert(t[i - 1] == s[i]);
            }
        }
    } else {
        assert(s.skip(0) =~= s);
    }
}

proof fn lemma_without_trailing_space(s: Seq<char>)
    ensures
        ({
            let r = without_trailing_space(s);
            &&& r.len() <= s.len()
            &&& r == s.take(r.len() as int)
            &&& forall|i: int| r.len() <= i < s.len() ==> white_space(#[trigger] s[i])
            &&& r.len() > 0 ==> !white_space(r.last())
        }),
    decreases s.len(),
{
    if s.len() > 0 && white_space(s.last()) {
        let t = s.drop_last();
        lemma_without_trailing_space(t);
        let r = without_trailing_space(s);
        assert(t.take(r.len() as int) =~= s.take(r.len() as int));
        assert forall|i: int| r.len() <= i < s.len() implies white_space(#[trigger] s[i]) by {
            if i < t.len() {
                assert(t[i] == s[i]);
            }
        }
    } else {
        assert(s.take(s.len() as int) =~= s);
    }
}

/// White space is the tab and the four characters after it, the space, the next line, the
/// no-break space, and the spaces and separators above U+1680 that Unicode lists.
pub proof fn law_white_space(c: char)
    ensures
        ({
            let n = c as int;
            white_space(c) <==> (9 <= n <= 13 || n == 0x20 || n == 0x85 || n == 0xA0 || n == 0x1680
                || 0x2000 <= n <= 0x200A || n == 0x2028 || n == 0x2029 || n == 0x202F || n == 0x205F
                || n == 0x3000)
        }),
{
}

/// Trimming takes away white space, at the ends, and all of it there: `s` is white space, the
/// trimmed text, and white space, and the trimmed text neither starts nor ends with any.
pub proof fn law_trimming(s: Seq<char>)
    ensures
        exists|i: int|
            {
                &&& 0 <= i <= i + trimmed(s).len() <= s.len()
                &&& trimmed(s) == #[trigger] s.subrange(i, (i + trimmed(s).len()) as int)
                &&& forall|j: int|
                    (0 <= j < i || i + trimmed(s).len() <= j < s.len()) ==> white_space(
                        #[trigger] s[j],
                    )
            },
        trimmed(s).len() > 0 ==> !white_space(trimmed(s)[0]) && !white_space(trimmed(s).last()),
{
    let m = without_leading_space(s);
    let r = trimmed(s);
    lemma_without_leading_space(s);
    lemma_without_trailing_space(m);
    let i = s.len() - m.len();
    assert(r =~= s.subrange(i, (i + r.len()) as int));
    assert forall|j: int| (0 <= j < i || i + r.len() <= j < s.len()) implies white_space(
        #[trigger] s[j],
    ) by {
        if j >= i {
            assert(m[j - i] == s[j]);
        }
    }
    if r.len() > 0 {
        assert(r[0] == m[0]);
    }
}

} // verus!

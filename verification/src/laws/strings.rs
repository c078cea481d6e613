//! What the functions on strings come to, character by character.
use vstd::prelude::*;
use vstd::utf8::encode_utf8;

use crate::categories::sort_categories;
use crate::scan::{is_excluded_header, is_excluded_name};
use crate::text::{
    begins_with, bytes_before, decimal, decimal_text, digit, has_prefix, header_text, is_blank,
    is_blank_text, is_visible_ascii, is_white_space, precedes, same_text, text_before,
    visible_text,
};

verus! {

/// Whether a character is white space, by its code point.
pub open spec fn is_space(c: char) -> bool {
    let code = c as int;
    ||| 0x9 <= code <= 0xd
    ||| code == 0x20
    ||| code == 0x85
    ||| code == 0xa0
    ||| code == 0x1680
    ||| 0x2000 <= code <= 0x200a
    ||| code == 0x2028
    ||| code == 0x2029
    ||| code == 0x202f
    ||| code == 0x205f
    ||| code == 0x3000
}

/// A text counts as blank exactly where it holds no character that is not white
/// space.
pub proof fn blank_means_white_space_only(text: &str, blank: bool)
    requires
        call_ensures(is_blank, (text,), blank),
    ensures
        blank <==> forall|i: int| 0 <= i < text@.len() ==> is_space(#[trigger] text@[i]),
{
    lemma_blank(text@);
}

/// A blank text holds white space only.
pub proof fn lemma_blank(text: Seq<char>)
    ensures
        is_blank_text(text) <==> forall|i: int|
            0 <= i < text.len() ==> is_space(#[trigger] text[i]),
{
    assert forall|c: char| #[trigger] is_space(c) <==> is_white_space(c) by {}
    if is_blank_text(text) {
        assert forall|i: int| 0 <= i < text.len() implies is_space(#[trigger] text[i]) by {
            assert(is_white_space(text[i]));
        }
    }
    if forall|i: int| 0 <= i < text.len() ==> is_space(#[trigger] text[i]) {
        assert forall|i: int| 0 <= i < text.len() implies is_white_space(#[trigger] text[i]) by {
            assert(is_space(text[i]));
        }
    }
}

/// Whether a header byte is a tab or a printable ASCII character.
pub open spec fn is_printable(b: u8) -> bool {
    b == 0x9 || 0x20 <= b <= 0x7e
}

/// Whether a header value is text: every byte of it is printable.
pub open spec fn is_text(value: Seq<u8>) -> bool {
    forall|i: int| 0 <= i < value.len() ==> is_printable(#[trigger] value[i])
}

/// Whether a text is made of the bytes of a header value, one character each.
pub open spec fn reads_as(value: Seq<u8>, text: Seq<char>) -> bool {
    &&& text.len() == value.len()
    &&& forall|i: int| 0 <= i < value.len() ==> (#[trigger] text[i]) as int == value[i] as int
}

/// A header value is text exactly where every byte of it is a tab or printable
/// ASCII, and then each byte is one character.
pub proof fn header_text_is_printable_ascii(value: &[u8], text: Option<String>)
    requires
        call_ensures(header_text, (value,), text),
    ensures
        text is Some <==> is_text(value@),
        text matches Some(read) ==> reads_as(value@, read@),
{
    lemma_visible(value@);
    if let Some(read) = text {
        assert(text.deep_view() == Some(read@));
    }
}

/// Visible ASCII, byte by byte.
pub proof fn lemma_visible(value: Seq<u8>)
    ensures
        visible_text(value) is Some <==> is_text(value),
        visible_text(value) matches Some(text) ==> reads_as(value, text),
{
    if visible_text(value) is Some {
        assert forall|i: int| 0 <= i < value.len() implies is_printable(#[trigger] value[i]) by {
            assert(is_visible_ascii(value[i]));
        }
    }
    if is_text(value) {
        assert forall|i: int| 0 <= i < value.len() implies is_visible_ascii(
            #[trigger] value[i],
        ) by {
            assert(is_printable(value[i]));
        }
        let text = visible_text(value)->0;
        assert forall|i: int| 0 <= i < value.len() implies (#[trigger] text[i]) as int
            == value[i] as int by {
            assert(is_printable(value[i]));
        }
    }
}

/// Two texts are the same exactly where their characters are.
pub proof fn same_text_compares_characters(a: &str, b: &str, same: bool)
    requires
        call_ensures(same_text, (a, b), same),
    ensures
        same <==> a@.len() == b@.len() && forall|i: int|
            0 <= i < a@.len() ==> #[trigger] a@[i] == b@[i],
{
    if a@.len() == b@.len() && (forall|i: int| 0 <= i < a@.len() ==> #[trigger] a@[i] == b@[i]) {
        assert(a@ =~= b@);
    }
}

/// A text has a prefix exactly where it starts with the characters of it.
pub proof fn prefix_compares_characters(text: &str, prefix: &str, found: bool)
    requires
        call_ensures(has_prefix, (text, prefix), found),
    ensures
        found <==> prefix@.len() <= text@.len() && forall|i: int|
            0 <= i < prefix@.len() ==> #[trigger] prefix@[i] == text@[i],
{
    lemma_prefix(text@, prefix@);
}

proof fn lemma_prefix(text: Seq<char>, prefix: Seq<char>)
    ensures
        begins_with(text, prefix) <==> prefix.len() <= text.len() && forall|i: int|
            0 <= i < prefix.len() ==> #[trigger] prefix[i] == text[i],
{
    if begins_with(text, prefix) {
        assert forall|i: int| 0 <= i < prefix.len() implies #[trigger] prefix[i] == text[i] by {
            assert(text.take(prefix.len() as int)[i] == text[i]);
        }
    }
    if prefix.len() <= text.len() && (forall|i: int|
        0 <= i < prefix.len() ==> #[trigger] prefix[i] == text[i]) {
        assert(text.take(prefix.len() as int) =~= prefix);
    }
}

/// Whether a byte sequence comes before another: they agree up to some place,
/// where the first ends or has the smaller byte.
pub open spec fn comes_first(a: Seq<u8>, b: Seq<u8>) -> bool {
    exists|k: int|
        {
            &&& #[trigger] agree_up_to(a, b, k)
            &&& k < b.len()
            &&& (k == a.len() || (k < a.len() && a[k] < b[k]))
        }
}

/// Whether two byte sequences both reach a place and agree before it.
pub open spec fn agree_up_to(a: Seq<u8>, b: Seq<u8>, k: int) -> bool {
    &&& 0 <= k <= a.len()
    &&& k <= b.len()
    &&& forall|i: int| 0 <= i < k ==> #[trigger] a[i] == b[i]
}

/// Texts are ordered by their UTF-8 bytes, the first difference deciding.
pub proof fn texts_are_ordered_by_their_bytes(a: &str, b: &str, before: bool)
    requires
        call_ensures(precedes, (a, b), before),
    ensures
        before <==> comes_first(encode_utf8(a@), encode_utf8(b@)),
{
    lemma_comes_first(encode_utf8(a@), encode_utf8(b@));
}

/// The order of byte sequences, by their first difference.
pub proof fn lemma_comes_first(a: Seq<u8>, b: Seq<u8>)
    ensures
        bytes_before(a, b) <==> comes_first(a, b),
    decreases b.len(),
{
    if b.len() == 0 {
    } else if a.len() == 0 {
        assert(agree_up_to(a, b, 0));
    } else if a[0] != b[0] {
        assert(agree_up_to(a, b, 0));
        if comes_first(a, b) {
            let k = choose|k: int|
                {
                    &&& #[trigger] agree_up_to(a, b, k)
                    &&& k < b.len()
                    &&& (k == a.len() || (k < a.len() && a[k] < b[k]))
                };
            if k > 0 {
                assert(a[0] == b[0]);
            }
        }
    } else {
        let x = a.drop_first();
        let y = b.drop_first();
        lemma_comes_first(x, y);
        if comes_first(x, y) {
            let k = choose|k: int|
                {
                    &&& #[trigger] agree_up_to(x, y, k)
                    &&& k < y.len()
                    &&& (k == x.len() || (k < x.len() && x[k] < y[k]))
                };
            assert forall|i: int| 0 <= i < k + 1 implies #[trigger] a[i] == b[i] by {
                if i > 0 {
                    assert(x[i - 1] == y[i - 1]);
                }
            }
            assert(agree_up_to(a, b, k + 1));
            assert(k < x.len() ==> a[k + 1] == x[k] && b[k + 1] == y[k]);
        }
        if comes_first(a, b) {
            let k = choose|k: int|
                {
                    &&& #[trigger] agree_up_to(a, b, k)
                    &&& k < b.len()
                    &&& (k == a.len() || (k < a.len() && a[k] < b[k]))
                };
            assert(k > 0);
            assert forall|i: int| 0 <= i < k - 1 implies #[trigger] x[i] == y[i] by {
                assert(a[i + 1] == b[i + 1]);
            }
            assert(agree_up_to(x, y, k - 1));
            assert(k < a.len() ==> a[k] == x[k - 1] && b[k] == y[k - 1]);
        }
    }
}

/// Whether a text is in a list.
pub open spec fn holds(list: Seq<String>, text: Seq<char>) -> bool {
    exists|i: int| 0 <= i < list.len() && (#[trigger] list[i])@ == text
}

/// Sorting categories keeps every category and no other, and leaves each before
/// all that follow it, so none twice.
pub proof fn sorted_categories_ascend(categories: Vec<String>, sorted: Vec<String>)
    requires
        call_ensures(sort_categories, (categories,), sorted),
    ensures
        forall|i: int, j: int|
            0 <= i < j < sorted@.len() ==> comes_first(
                encode_utf8((#[trigger] sorted@[i])@),
                encode_utf8((#[trigger] sorted@[j])@),
            ),
        forall|i: int| 0 <= i < sorted@.len() ==> holds(categories@, (#[trigger] sorted@[i])@),
        forall|j: int| 0 <= j < categories@.len() ==> holds(sorted@, (#[trigger] categories@[j])@),
{
    let s = sorted.deep_view();
    let c = categories.deep_view();
    assert forall|i: int, j: int| 0 <= i < j < sorted@.len() implies comes_first(
        encode_utf8((#[trigger] sorted@[i])@),
        encode_utf8((#[trigger] sorted@[j])@),
    ) by {
        assert(text_before(s[i], s[j]));
        lemma_comes_first(encode_utf8(s[i]), encode_utf8(s[j]));
    }
    assert forall|i: int| 0 <= i < sorted@.len() implies holds(
        categories@,
        (#[trigger] sorted@[i])@,
    ) by {
        assert(s.contains(s[i]));
        assert(c.contains(s[i]));
        let j = c.index_of(s[i]);
        assert(categories@[j]@ == sorted@[i]@);
    }
    assert forall|j: int| 0 <= j < categories@.len() implies holds(
        sorted@,
        (#[trigger] categories@[j])@,
    ) by {
        assert(c.contains(c[j]));
        assert(s.contains(c[j]));
        let i = s.index_of(c[j]);
        assert(sorted@[i]@ == categories@[j]@);
    }
}

/// The number that digits stand for, read from the left.
pub open spec fn number_of(digits: Seq<char>) -> nat
    decreases digits.len(),
{
    if digits.len() == 0 {
        0
    } else {
        (10 * number_of(digits.drop_last()) + (digits.last() as u32 - 48)) as nat
    }
}

/// Whether a text is how a number is written: digits that stand for it, the
/// first no zero unless it is the only one.
pub open spec fn writes(text: Seq<char>, n: nat) -> bool {
    &&& text.len() > 0
    &&& forall|i: int| 0 <= i < text.len() ==> 48 <= (#[trigger] text[i]) as u32 <= 57
    &&& number_of(text) == n
    &&& (text.len() > 1 ==> text[0] as u32 != 48)
}

/// A number is written in base ten, without leading zeros.
pub proof fn numbers_are_written_in_decimal(n: u64, text: String)
    requires
        call_ensures(decimal_text, (n,), text),
    ensures
        writes(text@, n as nat),
{
    lemma_decimal(n as nat);
}

/// How a number is written.
pub proof fn lemma_decimal(n: nat)
    ensures
        writes(decimal(n), n),
        n > 0 ==> decimal(n)[0] as u32 != 48,
    decreases n,
{
    assert(forall|d: nat| d < 10 ==> (#[trigger] digit(d)) as u32 == 48 + d);
    if n < 10 {
        let text = decimal(n);
        assert(text.drop_last() =~= Seq::empty());
        assert(number_of(text.drop_last()) == 0);
    } else {
        lemma_decimal(n / 10);
        let front = decimal(n / 10);
        let text = decimal(n);
        assert(text.drop_last() =~= front);
        assert(digit(n % 10) as u32 == 48 + n % 10);
        assert forall|i: int| 0 <= i < text.len() implies 48 <= (#[trigger] text[i]) as u32
            <= 57 by {
            if i < front.len() {
                assert(text[i] == front[i]);
            }
        }
        assert(text[0] == front[0]);
    }
}

/// Whether a header name is one of those that are never scanned: a negotiation
/// or routing header, or one whose name starts with `sec-`.
pub open spec fn is_unscanned_name(name: Seq<char>) -> bool {
    ||| name == "host"@
    ||| name == "user-agent"@
    ||| name == "accept"@
    ||| name == "accept-encoding"@
    ||| name == "connection"@
    ||| name == "origin"@
    ||| name == "referer"@
    ||| name.len() >= 4 && name[0] == 's' && name[1] == 'e' && name[2] == 'c' && name[3] == '-'
}

/// A header is excluded from the scan exactly where its name is one of the
/// documented ones.
pub proof fn excluded_headers_are_the_documented_ones(name: &str, excluded: bool)
    requires
        call_ensures(is_excluded_header, (name,), excluded),
    ensures
        excluded <==> is_unscanned_name(name@),
{
    lemma_excluded(name@);
}

/// The names of the headers that are never scanned.
pub proof fn lemma_excluded(name: Seq<char>)
    ensures
        is_excluded_name(name) <==> is_unscanned_name(name),
{
    reveal_strlit("sec-");
    lemma_prefix(name, "sec-"@);
    let prefix = "sec-"@;
    assert(prefix.len() == 4 && prefix[0] == 's' && prefix[1] == 'e' && prefix[2] == 'c'
        && prefix[3] == '-');
    if name.len() >= 4 && name[0] == 's' && name[1] == 'e' && name[2] == 'c' && name[3] == '-' {
        assert forall|i: int| 0 <= i < prefix.len() implies #[trigger] prefix[i] == name[i] by {
            assert(i == 0 || i == 1 || i == 2 || i == 3);
        }
    }
}

} // verus!

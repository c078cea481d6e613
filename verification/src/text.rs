//! Texts: equality, prefixes, blankness, order and decimal numbers.
use vstd::prelude::*;
use vstd::string::*;
use vstd::utf8::*;

verus! {

/// The characters with Unicode's `White_Space` property.
pub open spec fn is_white_space(c: char) -> bool {
    ||| '\u{9}' <= c <= '\u{d}'
    ||| c == '\u{20}'
    ||| c == '\u{85}'
    ||| c == '\u{a0}'
    ||| c == '\u{1680}'
    ||| '\u{2000}' <= c <= '\u{200a}'
    ||| '\u{2028}' <= c <= '\u{2029}'
    ||| c == '\u{202f}'
    ||| c == '\u{205f}'
    ||| c == '\u{3000}'
}

/// Whether a character is white space.
fn is_white(c: char) -> (white: bool)
    ensures
        white == is_white_space(c),
{
    ('\u{9}' <= c && c <= '\u{d}') || c == '\u{20}' || c == '\u{85}' || c == '\u{a0}' || c
        == '\u{1680}' || ('\u{2000}' <= c && c <= '\u{200a}') || c == '\u{2028}' || c
        == '\u{2029}' || c == '\u{202f}' || c == '\u{205f}' || c == '\u{3000}'
}

/// The text that `String::from_utf8_lossy` makes of a byte sequence.
pub uninterp spec fn lossy_text(bytes: Seq<u8>) -> Seq<char>;

/// `String::from_utf8_lossy`: a function of the bytes alone, which keeps a
/// valid UTF-8 sequence as it is. What it puts in place of an invalid sequence
/// is left to [`lossy_text`].
#[verifier::external_body]
pub(crate) fn decode_lossy(bytes: &[u8]) -> (text: String)
    ensures
        text@ == lossy_text(bytes@),
        valid_utf8(bytes@) ==> text@ == decode_utf8(bytes@),
{
    String::from_utf8_lossy(bytes).into_owned()
}

/// Whether `http` counts a header byte as visible ASCII: a tab, or a
/// printable ASCII character.
pub open spec fn is_visible_ascii(b: u8) -> bool {
    b == 9 || 32 <= b < 127
}

/// The text of a header value; a value with any other byte has none.
pub open spec fn visible_text(value: Seq<u8>) -> Option<Seq<char>> {
    if forall|i: int| 0 <= i < value.len() ==> is_visible_ascii(#[trigger] value[i]) {
        Some(Seq::new(value.len(), |i: int| value[i] as char))
    } else {
        None
    }
}

/// The text of a header value, where every byte of it is visible ASCII.
pub fn header_text(value: &[u8]) -> (text: Option<String>)
    ensures
        text.deep_view() == visible_text(value@),
{
    for i in 0..value.len()
        invariant
            forall|j: int| 0 <= j < i ==> is_visible_ascii(#[trigger] value@[j]),
    {
        if !(value[i] == 9 || (32 <= value[i] && value[i] < 127)) {
            assert(!is_visible_ascii(value@[i as int]));
            return None;
        }
    }
    proof {
        lemma_visible_text(value@);
    }
    Some(decode_lossy(value))
}

/// Visible ASCII is UTF-8, one character for each byte.
proof fn lemma_visible_text(value: Seq<u8>)
    requires
        forall|i: int| 0 <= i < value.len() ==> is_visible_ascii(#[trigger] value[i]),
    ensures
        valid_utf8(value),
        visible_text(value) == Some(decode_utf8(value)),
{
    let chars = Seq::new(value.len(), |i: int| value[i] as char);
    assert forall|i: int| 0 <= i < chars.len() implies '\0' <= #[trigger] chars[i] <= '\u{7f}' by {
        assert(is_visible_ascii(value[i]));
    }
    assert(is_ascii_chars(chars));
    is_ascii_chars_encode_utf8(chars);
    assert forall|i: int| 0 <= i < value.len() implies value[i] == encode_utf8(chars)[i] by {
        assert(is_visible_ascii(value[i]));
        assert(chars[i] as u8 == encode_utf8(chars)[i]);
    }
    assert(encode_utf8(chars) =~= value);
    encode_utf8_valid_utf8(chars);
    encode_utf8_decode_utf8(chars);
}

/// Whether a text is empty or holds white space only.
pub open spec fn is_blank_text(text: Seq<char>) -> bool {
    forall|i: int| 0 <= i < text.len() ==> is_white_space(#[trigger] text[i])
}

/// Whether a text is empty or holds white space only.
pub fn is_blank(text: &str) -> (blank: bool)
    ensures
        blank == is_blank_text(text@),
{
    for c in iter: text.chars()
        invariant
            iter.seq() == text@,
            forall|i: int| 0 <= i < iter.index() ==> is_white_space(#[trigger] text@[i]),
    {
        if !is_white(c) {
            assert(text@[iter.index()] == c);
            return false;
        }
    }
    true
}

/// Whether two texts are the same.
pub fn same_text(a: &str, b: &str) -> (same: bool)
    ensures
        same == (a@ == b@),
{
    let x: &[u8] = a.as_bytes();
    let y: &[u8] = b.as_bytes();
    if x.len() != y.len() {
        return false;
    }
    for i in 0..x.len()
        invariant
            x@.len() == y@.len(),
            x@ == encode_utf8(a@),
            y@ == encode_utf8(b@),
            forall|j: int| 0 <= j < i ==> x@[j] == y@[j],
    {
        if x[i] != y[i] {
            return false;
        }
    }
    assert(x@ == y@);
    proof {
        encode_utf8_decode_utf8(a@);
        encode_utf8_decode_utf8(b@);
    }
    true
}

/// Whether a text begins with a prefix.
pub open spec fn begins_with(text: Seq<char>, prefix: Seq<char>) -> bool {
    prefix.len() <= text.len() && text.take(prefix.len() as int) == prefix
}

/// Whether a text begins with a prefix.
pub fn has_prefix(text: &str, prefix: &str) -> (found: bool)
    ensures
        found == begins_with(text@, prefix@),
{
    let len: usize = prefix.unicode_len();
    if text.unicode_len() < len {
        return false;
    }
    for i in 0..len
        invariant
            len == prefix@.len() <= text@.len(),
            forall|j: int| 0 <= j < i ==> text@[j] == prefix@[j],
    {
        if text.get_char(i) != prefix.get_char(i) {
            assert(text@.take(len as int)[i as int] != prefix@[i as int]);
            return false;
        }
    }
    assert(text@.take(len as int) == prefix@);
    true
}

/// Whether one byte sequence comes before another in lexicographic order.
pub open spec fn bytes_before(a: Seq<u8>, b: Seq<u8>) -> bool
    decreases b.len(),
{
    if b.len() == 0 {
        false
    } else if a.len() == 0 {
        true
    } else if a[0] != b[0] {
        a[0] < b[0]
    } else {
        bytes_before(a.drop_first(), b.drop_first())
    }
}

/// The order of `String`: lexicographic over the UTF-8 bytes.
pub open spec fn text_before(a: Seq<char>, b: Seq<char>) -> bool {
    bytes_before(encode_utf8(a), encode_utf8(b))
}

proof fn lemma_bytes_before_irreflexive(a: Seq<u8>)
    ensures
        !bytes_before(a, a),
    decreases a.len(),
{
    if a.len() > 0 {
        lemma_bytes_before_irreflexive(a.drop_first());
    }
}

proof fn lemma_bytes_before_transitive(a: Seq<u8>, b: Seq<u8>, c: Seq<u8>)
    requires
        bytes_before(a, b),
        bytes_before(b, c),
    ensures
        bytes_before(a, c),
    decreases c.len(),
{
    if a.len() > 0 && b.len() > 0 && c.len() > 0 && a[0] == b[0] && b[0] == c[0] {
        lemma_bytes_before_transitive(a.drop_first(), b.drop_first(), c.drop_first());
    }
}

proof fn lemma_bytes_before_total(a: Seq<u8>, b: Seq<u8>)
    requires
        a != b,
    ensures
        bytes_before(a, b) || bytes_before(b, a),
    decreases a.len(),
{
    if a.len() == 0 || b.len() == 0 {
        if a.len() == b.len() {
            assert(a =~= b);
        }
    } else if a[0] == b[0] {
        if a.drop_first() == b.drop_first() {
            assert(a =~= seq![a[0]] + a.drop_first());
            assert(b =~= seq![b[0]] + b.drop_first());
        }
        lemma_bytes_before_total(a.drop_first(), b.drop_first());
    }
}

/// No text comes before itself.
pub proof fn lemma_text_before_irreflexive(a: Seq<char>)
    ensures
        !text_before(a, a),
{
    lemma_bytes_before_irreflexive(encode_utf8(a));
}

/// The order of texts is transitive.
pub proof fn lemma_text_before_transitive(a: Seq<char>, b: Seq<char>, c: Seq<char>)
    requires
        text_before(a, b),
        text_before(b, c),
    ensures
        text_before(a, c),
{
    lemma_bytes_before_transitive(encode_utf8(a), encode_utf8(b), encode_utf8(c));
}

/// Of two different texts one comes before the other.
pub proof fn lemma_text_before_total(a: Seq<char>, b: Seq<char>)
    requires
        a != b,
    ensures
        text_before(a, b) || text_before(b, a),
{
    encode_utf8_decode_utf8(a);
    encode_utf8_decode_utf8(b);
    lemma_bytes_before_total(encode_utf8(a), encode_utf8(b));
}

/// Dropping an equal head from both sides keeps the order.
proof fn lemma_bytes_before_step(a: Seq<u8>, b: Seq<u8>, i: int)
    requires
        0 <= i < a.len(),
        i < b.len(),
        a[i] == b[i],
    ensures
        bytes_before(a.skip(i), b.skip(i)) == bytes_before(a.skip(i + 1), b.skip(i + 1)),
{
    assert(a.skip(i).drop_first() =~= a.skip(i + 1));
    assert(b.skip(i).drop_first() =~= b.skip(i + 1));
}

/// Whether `a` comes before `b` in the order of `String`.
pub fn precedes(a: &str, b: &str) -> (before: bool)
    ensures
        before == text_before(a@, b@),
{
    let x: &[u8] = a.as_bytes();
    let y: &[u8] = b.as_bytes();
    let mut i: usize = 0;
    assert(x@.skip(0) =~= x@);
    assert(y@.skip(0) =~= y@);
    while i < x.len() && i < y.len()
        invariant
            i <= x@.len(),
            i <= y@.len(),
            x@ == encode_utf8(a@),
            y@ == encode_utf8(b@),
            bytes_before(x@, y@) == bytes_before(x@.skip(i as int), y@.skip(i as int)),
        decreases x@.len() - i,
    {
        if x[i] != y[i] {
            return x[i] < y[i];
        }
        proof {
            lemma_bytes_before_step(x@, y@, i as int);
        }
        i = i + 1;
    }
    i < y.len()
}

/// The digits of a number in base ten, without leading zeros.
pub open spec fn decimal(n: nat) -> Seq<char>
    decreases n,
{
    if n < 10 {
        seq![digit(n)]
    } else {
        decimal(n / 10).push(digit(n % 10))
    }
}

/// The character of a digit below ten.
pub open spec fn digit(n: nat) -> char {
    ('0' as u32 + n) as char
}

fn digit_text(n: u64) -> (text: &'static str)
    requires
        n < 10,
    ensures
        text@ == seq![digit(n as nat)],
{
    proof {
        reveal_strlit("0");
        reveal_strlit("1");
        reveal_strlit("2");
        reveal_strlit("3");
        reveal_strlit("4");
        reveal_strlit("5");
        reveal_strlit("6");
        reveal_strlit("7");
        reveal_strlit("8");
        reveal_strlit("9");
    }
    match n {
        0 => "0",
        1 => "1",
        2 => "2",
        3 => "3",
        4 => "4",
        5 => "5",
        6 => "6",
        7 => "7",
        8 => "8",
        _ => "9",
    }
}

/// A number written in base ten.
pub fn decimal_text(n: u64) -> (text: String)
    ensures
        text@ == decimal(n as nat),
    decreases n,
{
    if n < 10 {
        digit_text(n).to_owned()
    } else {
        let mut text: String = decimal_text(n / 10);
        text.append(digit_text(n % 10));
        text
    }
}

} // verus!

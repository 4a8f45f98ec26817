//! Identifiers of sixteen random bytes, and their texts.

use vstd::prelude::*;

verus! {

/// Whether a character is a hexadecimal digit.
pub open spec fn is_hex(c: char) -> bool {
    ('0' <= c <= '9') || ('a' <= c <= 'f') || ('A' <= c <= 'F')
}

/// Whether the text of an identifier has a dash at a place.
pub open spec fn dash_at(i: int) -> bool {
    i == 8 || i == 13 || i == 18 || i == 23
}

/// Whether a text is that of an identifier: groups of 8, 4, 4, 4 and 12 hexadecimal digits,
/// with dashes between them.
pub open spec fn uuid_text(text: Seq<char>) -> bool {
    &&& text.len() == 36
    &&& forall|i: int|
        0 <= i < 36 ==> if dash_at(i) {
            #[trigger] text[i] == '-'
        } else {
            is_hex(text[i])
        }
}

/// The hexadecimal digit for a number below 16, in lower case.
pub open spec fn digit_char(n: int) -> char {
    if n < 10 {
        (0x30 + n) as char
    } else {
        (0x61 + n - 10) as char
    }
}

/// The digits of some bytes, two for each byte.
pub open spec fn digit_at(bytes: Seq<u8>, place: int) -> int {
    if place % 2 == 0 {
        bytes[place / 2] as int / 16
    } else {
        bytes[place / 2] as int % 16
    }
}

/// How many dashes stand before a place in the text of an identifier.
pub open spec fn dashes_before(i: int) -> int {
    if i <= 8 {
        0
    } else if i <= 13 {
        1
    } else if i <= 18 {
        2
    } else if i <= 23 {
        3
    } else {
        4
    }
}

/// The text of an identifier.
pub open spec fn identifier_text(bytes: Seq<u8>) -> Seq<char> {
    Seq::new(
        36,
        |i: int|
            if dash_at(i) {
                '-'
            } else {
                digit_char(digit_at(bytes, i - dashes_before(i)))
            },
    )
}

/// Whether some bytes are an identifier that says of itself that it is random.
pub open spec fn is_random_identifier(bytes: Seq<u8>) -> bool {
    bytes.len() == 16 && bytes[6] / 16 == 4 && bytes[8] / 64 == 2
}

/// A new identifier from `uuid::Uuid::new_v4`: it has the version and the variant of a random
/// one. Its other bits come from the random numbers of the system, and nothing is said of them.
#[verifier::external_body]
pub(crate) fn random_identifier() -> (r: [u8; 16])
    ensures
        is_random_identifier(r@),
{
    uuid::Uuid::new_v4().into_bytes()
}

/// The text that `uuid::Uuid` has as its `Display`: digits in lower case, with dashes.
#[verifier::external_body]
pub(crate) fn text_of(bytes: &[u8; 16]) -> (r: String)
    ensures
        r@ == identifier_text(bytes@),
{
    uuid::Uuid::from_bytes(*bytes).to_string()
}

/// The text of an identifier is recognised as one.
pub proof fn identifier_text_is_recognised(bytes: Seq<u8>)
    requires
        bytes.len() == 16,
    ensures
        uuid_text(identifier_text(bytes)),
{
    let text = identifier_text(bytes);
    assert forall|i: int| 0 <= i < 36 implies if dash_at(i) {
        #[trigger] text[i] == '-'
    } else {
        is_hex(text[i])
    } by {
        if !dash_at(i) {
            let n = digit_at(bytes, i - dashes_before(i));
            assert(0 <= n < 16);
        }
    }
}

/// The place of a digit in the text of an identifier.
spec fn place_of(digit: int) -> int {
    if digit < 8 {
        digit
    } else if digit < 12 {
        digit + 1
    } else if digit < 16 {
        digit + 2
    } else if digit < 20 {
        digit + 3
    } else {
        digit + 4
    }
}

/// Two identifiers never have the same text.
pub proof fn identifier_text_is_injective(a: Seq<u8>, b: Seq<u8>)
    requires
        a.len() == 16,
        b.len() == 16,
        identifier_text(a) == identifier_text(b),
    ensures
        a == b,
{
    assert forall|k: int| 0 <= k < 16 implies a[k] == b[k] by {
        let high = place_of(2 * k);
        let low = place_of(2 * k + 1);
        assert(identifier_text(a)[high] == digit_char(digit_at(a, 2 * k)));
        assert(identifier_text(b)[high] == digit_char(digit_at(b, 2 * k)));
        assert(identifier_text(a)[low] == digit_char(digit_at(a, 2 * k + 1)));
        assert(identifier_text(b)[low] == digit_char(digit_at(b, 2 * k + 1)));
        assert(a[k] as int == 16 * digit_at(a, 2 * k) + digit_at(a, 2 * k + 1));
        assert(b[k] as int == 16 * digit_at(b, 2 * k) + digit_at(b, 2 * k + 1));
    }
    assert(a =~= b);
}

/// The number that a hexadecimal digit stands for.
pub open spec fn hex_value(c: char) -> int {
    if '0' <= c <= '9' {
        c as int - '0' as int
    } else if 'a' <= c <= 'f' {
        c as int - 'a' as int + 10
    } else {
        c as int - 'A' as int + 10
    }
}

/// The text of an identifier holds its bytes in order, each as two digits with the higher one
/// first, and no capital letters.
pub proof fn identifier_text_holds_the_bytes(bytes: Seq<u8>, k: int, i: int)
    requires
        bytes.len() == 16,
        0 <= k < 16,
        0 <= i < 36,
    ensures
        ({
            let text = identifier_text(bytes);
            let at = 2 * k + if k < 4 {
                0int
            } else if k < 6 {
                1
            } else if k < 8 {
                2
            } else if k < 10 {
                3
            } else {
                4
            };
            &&& 16 * hex_value(text[at]) + hex_value(text[at + 1]) == bytes[k]
            &&& is_hex(text[at]) && is_hex(text[at + 1])
            &&& text.len() == 36
            &&& text[i] == '-' <==> i == 8 || i == 13 || i == 18 || i == 23
            &&& !('A' <= text[i] <= 'F')
        }),
{
    identifier_text_is_recognised(bytes);
    let text = identifier_text(bytes);
    let high = place_of(2 * k);
    let low = place_of(2 * k + 1);
    assert(text[high] == digit_char(digit_at(bytes, 2 * k)));
    assert(text[low] == digit_char(digit_at(bytes, 2 * k + 1)));
    assert(bytes[k] as int == 16 * digit_at(bytes, 2 * k) + digit_at(bytes, 2 * k + 1));
    assert(dash_at(i) || 0 <= digit_at(bytes, i - dashes_before(i)) < 16);
}

/// Dashes stand in the text of an identifier at four places and nowhere else, and digits at all
/// others, in capitals or not.
pub proof fn dashes_stand_at_their_places(text: Seq<char>, i: int)
    requires
        uuid_text(text),
        0 <= i < text.len(),
    ensures
        text.len() == 36,
        text[i] == '-' <==> i == 8 || i == 13 || i == 18 || i == 23,
        text[i] != '-' ==> ('0' <= text[i] <= '9') || ('a' <= text[i] <= 'f') || ('A' <= text[i]
            <= 'F'),
        uuid_text(crate::text::lowered(text)),
{
    let low = crate::text::lowered(text);
    assert forall|k: int| 0 <= k < 36 implies if dash_at(k) {
        #[trigger] low[k] == '-'
    } else {
        is_hex(low[k])
    } by {
        assert(if dash_at(k) { text[k] == '-' } else { is_hex(text[k]) });
        assert('A' <= text[k] <= 'F' ==> low[k] as int == text[k] as int + 32);
    }
}

} // verus!

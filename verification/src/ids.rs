//! Plugin instance identifiers: UUIDs, held as their 128-bit value, with
//! their text form and their 16-byte form in the database.

use vstd::prelude::*;

verus! {

/// Nibble `k` (0 is the most significant) of a 128-bit value.
pub open spec fn nibble(value: u128, k: int) -> u8 {
    ((value >> ((4 * (31 - k)) as u128)) & 0xfu128) as u8
}

/// The lower-case hexadecimal digit of a value below 16.
pub open spec fn hex_digit(d: u8) -> char {
    if d < 10 {
        (48 + d) as char
    } else {
        (87 + d) as char
    }
}

/// The digits of `count` nibbles of a value, from nibble `start` on.
pub open spec fn hex_run(value: u128, start: int, count: nat) -> Seq<char> {
    Seq::new(count, |i: int| hex_digit(nibble(value, start + i)))
}

/// The text `uuid::Uuid` displays for the UUID of this value: its 32
/// lower-case hexadecimal digits, most significant first, in groups of
/// 8-4-4-4-12 joined by `-`.
pub open spec fn spec_uuid_text(value: u128) -> Seq<char> {
    hex_run(value, 0, 8) + "-"@ + hex_run(value, 8, 4) + "-"@ + hex_run(value, 12, 4) + "-"@
        + hex_run(value, 16, 4) + "-"@ + hex_run(value, 20, 12)
}

/// The value of the UUID that `uuid::Uuid::parse_str` reads from the text,
/// if it accepts it.
pub uninterp spec fn spec_uuid_parse(text: Seq<char>) -> Option<u128>;

/// `Display` of `uuid::Uuid::from_u128(value)`: the hyphenated lower-case
/// form of the value's 16 bytes, most significant first.
#[verifier::external_body]
pub(crate) fn uuid_to_string(value: u128) -> (r: String)
    ensures
        r@ == spec_uuid_text(value),
{
    uuid::Uuid::from_u128(value).to_string()
}

/// `uuid::Uuid::parse_str`, giving the value of the parsed UUID.
#[verifier::external_body]
pub(crate) fn uuid_parse(text: &str) -> (r: Option<u128>)
    ensures
        r == spec_uuid_parse(text@),
{
    uuid::Uuid::parse_str(text).ok().map(|u| u.as_u128())
}

/// `uuid::Uuid::new_v4().as_u128()`: a random UUID; nothing is promised of
/// its value.
#[verifier::external_body]
fn uuid_new_v4() -> (r: u128) {
    uuid::Uuid::new_v4().as_u128()
}

/// The 16 bytes of a UUID, most significant first (what `Uuid::as_bytes`
/// gives).
pub open spec fn uuid_bytes(value: u128) -> Seq<u8> {
    seq![
        (value >> 120u128) as u8, (value >> 112u128) as u8, (value >> 104u128) as u8, (value >> 96u128) as u8,
        (value >> 88u128) as u8, (value >> 80u128) as u8, (value >> 72u128) as u8, (value >> 64u128) as u8,
        (value >> 56u128) as u8, (value >> 48u128) as u8, (value >> 40u128) as u8, (value >> 32u128) as u8,
        (value >> 24u128) as u8, (value >> 16u128) as u8, (value >> 8u128) as u8, value as u8,
    ]
}

/// The value of 16 bytes, most significant first.
pub open spec fn uuid_value(b: Seq<u8>) -> u128 {
    ((b[0] as u128) << 120u128) | ((b[1] as u128) << 112u128) | ((b[2] as u128) << 104u128)
        | ((b[3] as u128) << 96u128) | ((b[4] as u128) << 88u128) | ((b[5] as u128) << 80u128)
        | ((b[6] as u128) << 72u128) | ((b[7] as u128) << 64u128) | ((b[8] as u128) << 56u128)
        | ((b[9] as u128) << 48u128) | ((b[10] as u128) << 40u128) | ((b[11] as u128) << 32u128)
        | ((b[12] as u128) << 24u128) | ((b[13] as u128) << 16u128) | ((b[14] as u128) << 8u128)
        | (b[15] as u128)
}

/// The bytes under which a plugin's UUID is stored.
pub fn uuid_to_bytes(value: u128) -> (r: Vec<u8>)
    ensures
        r@ == uuid_bytes(value),
{
    let r = vec![
        (value >> 120u128) as u8, (value >> 112u128) as u8, (value >> 104u128) as u8, (value >> 96u128) as u8,
        (value >> 88u128) as u8, (value >> 80u128) as u8, (value >> 72u128) as u8, (value >> 64u128) as u8,
        (value >> 56u128) as u8, (value >> 48u128) as u8, (value >> 40u128) as u8, (value >> 32u128) as u8,
        (value >> 24u128) as u8, (value >> 16u128) as u8, (value >> 8u128) as u8, value as u8,
    ];
    assert(r@ =~= uuid_bytes(value));
    r
}

/// The UUID stored in these bytes, if there are 16 of them.
pub fn uuid_from_bytes(b: &[u8]) -> (r: Option<u128>)
    ensures
        b@.len() == 16 ==> r == Some(uuid_value(b@)),
        b@.len() != 16 ==> r is None,
{
    if b.len() != 16 {
        return None;
    }
    Some(
        ((b[0] as u128) << 120u128) | ((b[1] as u128) << 112u128) | ((b[2] as u128) << 104u128)
            | ((b[3] as u128) << 96u128) | ((b[4] as u128) << 88u128) | ((b[5] as u128) << 80u128)
            | ((b[6] as u128) << 72u128) | ((b[7] as u128) << 64u128) | ((b[8] as u128) << 56u128)
            | ((b[9] as u128) << 48u128) | ((b[10] as u128) << 40u128) | ((b[11] as u128) << 32u128)
            | ((b[12] as u128) << 24u128) | ((b[13] as u128) << 16u128) | ((b[14] as u128) << 8u128)
            | (b[15] as u128),
    )
}

/// Reading back the bytes a UUID was stored under gives that UUID.
pub proof fn law_uuid_bytes_roundtrip(value: u128)
    ensures
        uuid_value(uuid_bytes(value)) == value,
{
    let b = uuid_bytes(value);
    assert(uuid_value(b) == value) by {
        let b0 = (value >> 120u128) as u8;
        let b1 = (value >> 112u128) as u8;
        let b2 = (value >> 104u128) as u8;
        let b3 = (value >> 96u128) as u8;
        let b4 = (value >> 88u128) as u8;
        let b5 = (value >> 80u128) as u8;
        let b6 = (value >> 72u128) as u8;
        let b7 = (value >> 64u128) as u8;
        let b8 = (value >> 56u128) as u8;
        let b9 = (value >> 48u128) as u8;
        let b10 = (value >> 40u128) as u8;
        let b11 = (value >> 32u128) as u8;
        let b12 = (value >> 24u128) as u8;
        let b13 = (value >> 16u128) as u8;
        let b14 = (value >> 8u128) as u8;
        let b15 = value as u8;
        assert(b[0] == b0 && b[1] == b1 && b[2] == b2 && b[3] == b3 && b[4] == b4 && b[5] == b5);
        assert(b[6] == b6 && b[7] == b7 && b[8] == b8 && b[9] == b9 && b[10] == b10 && b[11] == b11);
        assert(b[12] == b12 && b[13] == b13 && b[14] == b14 && b[15] == b15);
        assert(((b0 as u128) << 120u128) | ((b1 as u128) << 112u128) | ((b2 as u128) << 104u128)
            | ((b3 as u128) << 96u128) | ((b4 as u128) << 88u128) | ((b5 as u128) << 80u128)
            | ((b6 as u128) << 72u128) | ((b7 as u128) << 64u128) | ((b8 as u128) << 56u128)
            | ((b9 as u128) << 48u128) | ((b10 as u128) << 40u128) | ((b11 as u128) << 32u128)
            | ((b12 as u128) << 24u128) | ((b13 as u128) << 16u128) | ((b14 as u128) << 8u128)
            | (b15 as u128) == value) by (bit_vector)
            requires
                b0 == (value >> 120u128) as u8, b1 == (value >> 112u128) as u8, b2 == (value >> 104u128) as u8,
                b3 == (value >> 96u128) as u8, b4 == (value >> 88u128) as u8, b5 == (value >> 80u128) as u8,
                b6 == (value >> 72u128) as u8, b7 == (value >> 64u128) as u8, b8 == (value >> 56u128) as u8,
                b9 == (value >> 48u128) as u8, b10 == (value >> 40u128) as u8, b11 == (value >> 32u128) as u8,
                b12 == (value >> 24u128) as u8, b13 == (value >> 16u128) as u8, b14 == (value >> 8u128) as u8,
                b15 == value as u8;
    }
}

/// The UUID of a configured plugin: the one stored for it when there is one
/// (`None` when the stored bytes are not a UUID), otherwise the freshly
/// drawn `fresh`.
pub fn choose_plugin_uuid(stored: Option<&[u8]>, fresh: u128) -> (r: Option<u128>)
    ensures
        match stored {
            None => r == Some(fresh),
            Some(b) => if b@.len() == 16 {
                r == Some(uuid_value(b@))
            } else {
                r is None
            },
        },
{
    match stored {
        None => Some(fresh),
        Some(b) => uuid_from_bytes(b),
    }
}

/// The UUID of a configured plugin: the one stored for it when there is one
/// (`None` when the stored bytes are not a UUID), otherwise a new random
/// UUID.
pub fn plugin_uuid(stored: Option<&[u8]>) -> (r: Option<u128>)
    ensures
        stored matches Some(b) ==> (if b@.len() == 16 {
            r == Some(uuid_value(b@))
        } else {
            r is None
        }),
        stored is None ==> r is Some,
{
    match stored {
        None => choose_plugin_uuid(None, uuid_new_v4()),
        Some(b) => uuid_from_bytes(b),
    }
}

proof fn lemma_hex_digit_injective(d1: u8, d2: u8)
    requires
        d1 < 16,
        d2 < 16,
        hex_digit(d1) == hex_digit(d2),
    ensures
        d1 == d2,
{
    assert((hex_digit(d1) as int) == (if d1 < 10 { 48 + d1 } else { 87 + d1 }));
    assert((hex_digit(d2) as int) == (if d2 < 10 { 48 + d2 } else { 87 + d2 }));
}

proof fn lemma_nibble_bound(value: u128, k: int)
    ensures
        nibble(value, k) < 16,
        nibble(value, k) as u128 == (value >> ((4 * (31 - k)) as u128)) & 0xfu128,
{
    let x = value >> ((4 * (31 - k)) as u128);
    assert((x & 0xfu128) < 16u128) by (bit_vector);
}

proof fn lemma_nibble_shift(a: u128, b: u128, k: int, sh: u128)
    requires
        0 <= k < 32,
        sh == 4 * (31 - k),
        nibble(a, k) == nibble(b, k),
    ensures
        (a >> sh) & 0xfu128 == (b >> sh) & 0xfu128,
{
    lemma_nibble_bound(a, k);
    lemma_nibble_bound(b, k);
}

proof fn lemma_text_nibble(a: u128, b: u128, k: int, p: int)
    requires
        spec_uuid_text(a) == spec_uuid_text(b),
        0 <= k < 32,
        p == (if k < 8 { k } else if k < 12 { k + 1 } else if k < 16 { k + 2 } else if k < 20 { k + 3 } else { k + 4 }),
    ensures
        nibble(a, k) == nibble(b, k),
{
    reveal_strlit("-");
    let ta = spec_uuid_text(a);
    let tb = spec_uuid_text(b);
    assert("-"@.len() == 1);
    assert(ta.len() == 36);
    assert(ta[p] == hex_digit(nibble(a, k)));
    assert(tb[p] == hex_digit(nibble(b, k)));
    lemma_nibble_bound(a, k);
    lemma_nibble_bound(b, k);
    lemma_hex_digit_injective(nibble(a, k), nibble(b, k));
}

/// Distinct UUIDs have distinct texts.
pub proof fn law_uuid_text_injective(a: u128, b: u128)
    ensures
        spec_uuid_text(a) == spec_uuid_text(b) ==> a == b,
{
    if spec_uuid_text(a) == spec_uuid_text(b) {
        lemma_text_nibble(a, b, 0, 0);
        lemma_nibble_shift(a, b, 0, 124);
        lemma_text_nibble(a, b, 1, 1);
        lemma_nibble_shift(a, b, 1, 120);
        lemma_text_nibble(a, b, 2, 2);
        lemma_nibble_shift(a, b, 2, 116);
        lemma_text_nibble(a, b, 3, 3);
        lemma_nibble_shift(a, b, 3, 112);
        lemma_text_nibble(a, b, 4, 4);
        lemma_nibble_shift(a, b, 4, 108);
        lemma_text_nibble(a, b, 5, 5);
        lemma_nibble_shift(a, b, 5, 104);
        lemma_text_nibble(a, b, 6, 6);
        lemma_nibble_shift(a, b, 6, 100);
        lemma_text_nibble(a, b, 7, 7);
        lemma_nibble_shift(a, b, 7, 96);
        lemma_text_nibble(a, b, 8, 9);
        lemma_nibble_shift(a, b, 8, 92);
        lemma_text_nibble(a, b, 9, 10);
        lemma_nibble_shift(a, b, 9, 88);
        lemma_text_nibble(a, b, 10, 11);
        lemma_nibble_shift(a, b, 10, 84);
        lemma_text_nibble(a, b, 11, 12);
        lemma_nibble_shift(a, b, 11, 80);
        lemma_text_nibble(a, b, 12, 14);
        lemma_nibble_shift(a, b, 12, 76);
        lemma_text_nibble(a, b, 13, 15);
        lemma_nibble_shift(a, b, 13, 72);
        lemma_text_nibble(a, b, 14, 16);
        lemma_nibble_shift(a, b, 14, 68);
        lemma_text_nibble(a, b, 15, 17);
        lemma_nibble_shift(a, b, 15, 64);
        lemma_text_nibble(a, b, 16, 19);
        lemma_nibble_shift(a, b, 16, 60);
        lemma_text_nibble(a, b, 17, 20);
        lemma_nibble_shift(a, b, 17, 56);
        lemma_text_nibble(a, b, 18, 21);
        lemma_nibble_shift(a, b, 18, 52);
        lemma_text_nibble(a, b, 19, 22);
        lemma_nibble_shift(a, b, 19, 48);
        lemma_text_nibble(a, b, 20, 24);
        lemma_nibble_shift(a, b, 20, 44);
        lemma_text_nibble(a, b, 21, 25);
        lemma_nibble_shift(a, b, 21, 40);
        lemma_text_nibble(a, b, 22, 26);
        lemma_nibble_shift(a, b, 22, 36);
        lemma_text_nibble(a, b, 23, 27);
        lemma_nibble_shift(a, b, 23, 32);
        lemma_text_nibble(a, b, 24, 28);
        lemma_nibble_shift(a, b, 24, 28);
        lemma_text_nibble(a, b, 25, 29);
        lemma_nibble_shift(a, b, 25, 24);
        lemma_text_nibble(a, b, 26, 30);
        lemma_nibble_shift(a, b, 26, 20);
        lemma_text_nibble(a, b, 27, 31);
        lemma_nibble_shift(a, b, 27, 16);
        lemma_text_nibble(a, b, 28, 32);
        lemma_nibble_shift(a, b, 28, 12);
        lemma_text_nibble(a, b, 29, 33);
        lemma_nibble_shift(a, b, 29, 8);
        lemma_text_nibble(a, b, 30, 34);
        lemma_nibble_shift(a, b, 30, 4);
        lemma_text_nibble(a, b, 31, 35);
        lemma_nibble_shift(a, b, 31, 0);
        assert(((a >> 124u128) & 0xfu128) == ((b >> 124u128) & 0xfu128) && ((a >> 120u128) & 0xfu128) == ((b >> 120u128) & 0xfu128) && ((a >> 116u128) & 0xfu128) == ((b >> 116u128) & 0xfu128) && ((a >> 112u128) & 0xfu128) == ((b >> 112u128) & 0xfu128) && ((a >> 108u128) & 0xfu128) == ((b >> 108u128) & 0xfu128) && ((a >> 104u128) & 0xfu128) == ((b >> 104u128) & 0xfu128) && ((a >> 100u128) & 0xfu128) == ((b >> 100u128) & 0xfu128) && ((a >> 96u128) & 0xfu128) == ((b >> 96u128) & 0xfu128) && ((a >> 92u128) & 0xfu128) == ((b >> 92u128) & 0xfu128) && ((a >> 88u128) & 0xfu128) == ((b >> 88u128) & 0xfu128) && ((a >> 84u128) & 0xfu128) == ((b >> 84u128) & 0xfu128) && ((a >> 80u128) & 0xfu128) == ((b >> 80u128) & 0xfu128) && ((a >> 76u128) & 0xfu128) == ((b >> 76u128) & 0xfu128) && ((a >> 72u128) & 0xfu128) == ((b >> 72u128) & 0xfu128) && ((a >> 68u128) & 0xfu128) == ((b >> 68u128) & 0xfu128) && ((a >> 64u128) & 0xfu128) == ((b >> 64u128) & 0xfu128) && ((a >> 60u128) & 0xfu128) == ((b >> 60u128) & 0xfu128) && ((a >> 56u128) & 0xfu128) == ((b >> 56u128) & 0xfu128) && ((a >> 52u128) & 0xfu128) == ((b >> 52u128) & 0xfu128) && ((a >> 48u128) & 0xfu128) == ((b >> 48u128) & 0xfu128) && ((a >> 44u128) & 0xfu128) == ((b >> 44u128) & 0xfu128) && ((a >> 40u128) & 0xfu128) == ((b >> 40u128) & 0xfu128) && ((a >> 36u128) & 0xfu128) == ((b >> 36u128) & 0xfu128) && ((a >> 32u128) & 0xfu128) == ((b >> 32u128) & 0xfu128) && ((a >> 28u128) & 0xfu128) == ((b >> 28u128) & 0xfu128) && ((a >> 24u128) & 0xfu128) == ((b >> 24u128) & 0xfu128) && ((a >> 20u128) & 0xfu128) == ((b >> 20u128) & 0xfu128) && ((a >> 16u128) & 0xfu128) == ((b >> 16u128) & 0xfu128) && ((a >> 12u128) & 0xfu128) == ((b >> 12u128) & 0xfu128) && ((a >> 8u128) & 0xfu128) == ((b >> 8u128) & 0xfu128) && ((a >> 4u128) & 0xfu128) == ((b >> 4u128) & 0xfu128) && ((a >> 0u128) & 0xfu128) == ((b >> 0u128) & 0xfu128) ==> a == b) by (bit_vector);
    }
}

/// The text of a UUID is 36 characters long.
pub proof fn lemma_uuid_text_len(value: u128)
    ensures
        spec_uuid_text(value).len() == 36,
{
    reveal_strlit("-");
    assert("-"@.len() == 1);
}

} // verus!

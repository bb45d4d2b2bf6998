//! UUIDs as 128-bit numbers: their bytes, their text, and where new ones come from.
use crate::number;
use vstd::prelude::*;

verus! {

/// The lowest `width` bytes of `n`, most significant first.
pub open spec fn big_endian(n: nat, width: nat) -> Seq<u8>
    decreases width,
{
    if width == 0 {
        Seq::empty()
    } else {
        big_endian(n / 256, (width - 1) as nat).push((n % 256) as u8)
    }
}

/// The number of bytes is the width asked for.
pub proof fn lemma_big_endian_len(n: nat, width: nat)
    ensures
        big_endian(n, width).len() == width,
    decreases width,
{
    if width > 0 {
        lemma_big_endian_len(n / 256, (width - 1) as nat);
    }
}

/// The sixteen bytes of an id, most significant first.
pub open spec fn id_bytes(id: u128) -> Seq<u8> {
    big_endian(id as nat, 16)
}

/// The sixteen bytes of an id, most significant first.
pub fn bytes_of(id: u128) -> (r: Vec<u8>)
    ensures
        r@ == id_bytes(id),
{
    let mut reversed: Vec<u8> = Vec::new();
    let mut rest: u128 = id;
    let mut left: usize = 16;
    assert(id_bytes(id) =~= big_endian(rest as nat, left as nat) + reversed@.reverse());
    while left > 0
        invariant
            left + reversed.len() == 16,
            id_bytes(id) == big_endian(rest as nat, left as nat) + reversed@.reverse(),
        decreases left,
    {
        let ghost before = reversed@;
        let byte: u8 = (rest % 256) as u8;
        reversed.push(byte);
        assert(reversed@.reverse() =~= seq![byte] + before.reverse());
        assert(big_endian(rest as nat, left as nat) == big_endian(
            (rest / 256) as nat,
            (left - 1) as nat,
        ).push(byte));
        assert(big_endian((rest / 256) as nat, (left - 1) as nat) + reversed@.reverse()
            =~= big_endian(rest as nat, left as nat) + before.reverse());
        rest = rest / 256;
        left = left - 1;
    }
    let mut r: Vec<u8> = Vec::new();
    let mut i: usize = 16;
    while i > 0
        invariant
            i <= 16 == reversed.len(),
            r@ == reversed@.reverse().take(16 - i),
        decreases i,
    {
        i = i - 1;
        assert(reversed@.reverse().take(16 - i) =~= reversed@.reverse().take(15 - i).push(
            reversed@[i as int],
        ));
        r.push(reversed[i]);
    }
    assert(r@ =~= id_bytes(id));
    r
}

/// The text of an id: its 32 lower-case hexadecimal digits in groups of 8, 4, 4, 4 and 12, with
/// hyphens between the groups.
pub open spec fn id_text(id: u128) -> Seq<char> {
    let digits = number::hex_of(id_bytes(id));
    digits.subrange(0, 8).push('-') + digits.subrange(8, 12).push('-') + digits.subrange(
        12,
        16,
    ).push('-') + digits.subrange(16, 20).push('-') + digits.subrange(20, 32)
}

/// What `uuid::Uuid::parse_str` makes of a text: the id that it writes, or the error's message.
pub uninterp spec fn id_parsed(text: Seq<char>) -> Result<u128, Seq<char>>;

/// `text` is a text of the id.
pub open spec fn reads_as(text: Seq<char>, id: u128) -> bool {
    id_parsed(text) matches Ok(n) && n == id
}

/// Calls `uuid::Uuid::parse_str`, and renders its error with `Display`. The result is named by
/// [`id_parsed`]: it depends on the text alone.
#[verifier::external_body]
pub(crate) fn parse_id(text: &str) -> (r: Result<u128, String>)
    ensures
        match r {
            Ok(id) => reads_as(text@, id),
            Err(message) => id_parsed(text@) matches Err(m) && m == message@,
        },
{
    uuid::Uuid::parse_str(text).map(|id| id.as_u128()).map_err(|error| error.to_string())
}

/// Calls `Uuid::to_string`, the `Display` of `uuid::Uuid`: the hyphenated lower-case form. Reading
/// that form with `Uuid::parse_str` gives the id back.
#[verifier::external_body]
pub(crate) fn format_id(id: u128) -> (r: String)
    ensures
        r@ == id_text(id),
        reads_as(r@, id),
{
    uuid::Uuid::from_u128(id).to_string()
}

/// An id of the kind that is made at random: its version is four and its variant that of RFC 4122.
pub open spec fn is_random(id: u128) -> bool {
    id as nat / 0x1000_0000_0000_0000_0000 % 16 == 4 && id as nat / 0x4000_0000_0000_0000 % 4 == 2
}

/// The text of an id of the kind that is made at random.
pub open spec fn is_random_text(text: Seq<char>) -> bool {
    exists|id: u128| #[trigger] is_random(id) && text == id_text(id)
}

/// Calls `uuid::Uuid::new_v4`. The number is random; whatever it is, its version is four and its
/// variant is that of RFC 4122.
#[verifier::external_body]
pub(crate) fn random_id() -> (r: u128)
    ensures
        is_random(r),
{
    uuid::Uuid::new_v4().as_u128()
}

/// What `uuid::Uuid::new_v5` makes of a namespace and a name: the id that their SHA-1 hash gives.
pub uninterp spec fn name_based_id(namespace: u128, name: Seq<u8>) -> u128;

/// Calls `uuid::Uuid::new_v5`. The result is named by [`name_based_id`]: it depends on the
/// namespace and the name alone.
#[verifier::external_body]
pub(crate) fn derive_id(namespace: u128, name: &[u8]) -> (r: u128)
    ensures
        r == name_based_id(namespace, name@),
{
    uuid::Uuid::new_v5(&uuid::Uuid::from_u128(namespace), name).as_u128()
}

/// Whether a text is an id, and which.
pub fn read_id(text: &str) -> (r: Option<u128>)
    ensures
        match r {
            Some(id) => reads_as(text@, id),
            None => id_parsed(text@) is Err,
        },
{
    match parse_id(text) {
        Ok(id) => Some(id),
        Err(_) => None,
    }
}

/// The text of an id.
pub fn write_id(id: u128) -> (r: String)
    ensures
        r@ == id_text(id),
        reads_as(r@, id),
{
    format_id(id)
}

/// The number of values of `width` bytes.
pub open spec fn byte_range(width: nat) -> nat
    decreases width,
{
    if width == 0 {
        1
    } else {
        256 * byte_range((width - 1) as nat)
    }
}

/// Different numbers have different bytes, where the bytes can hold them.
pub proof fn bytes_tell_numbers_apart(a: nat, b: nat, width: nat)
    requires
        a < byte_range(width),
        b < byte_range(width),
        big_endian(a, width) == big_endian(b, width),
    ensures
        a == b,
    decreases width,
{
    if width > 0 {
        let shorter = (width - 1) as nat;
        let x = big_endian(a, width);
        let y = big_endian(b, width);
        assert(x.drop_last() =~= big_endian(a / 256, shorter));
        assert(y.drop_last() =~= big_endian(b / 256, shorter));
        assert(x.last() == (a % 256) as u8 && y.last() == (b % 256) as u8);
        bytes_tell_numbers_apart(a / 256, b / 256, shorter);
    }
}

/// Different ids have different texts.
pub proof fn texts_tell_ids_apart(a: u128, b: u128)
    requires
        id_text(a) == id_text(b),
    ensures
        a == b,
{
    lemma_big_endian_len(a as nat, 16);
    lemma_big_endian_len(b as nat, 16);
    let x = number::hex_of(id_bytes(a));
    let y = number::hex_of(id_bytes(b));
    assert(x.len() == 32 && y.len() == 32);
    assert forall|i: int| 0 <= i < 32 implies x[i] == y[i] by {
        let at = if i < 8 {
            i
        } else if i < 12 {
            i + 1
        } else if i < 16 {
            i + 2
        } else if i < 20 {
            i + 3
        } else {
            i + 4
        };
        assert(id_text(a)[at] == x[i]);
        assert(id_text(b)[at] == y[i]);
    }
    assert(x =~= y);
    number::hex_is_injective(id_bytes(a), id_bytes(b));
    reveal_with_fuel(byte_range, 17);
    bytes_tell_numbers_apart(a as nat, b as nat, 16);
}

/// Bytes are written the most significant first: 256 times a number and a byte is the number
/// followed by the byte.
pub proof fn bytes_are_written_in_order(n: nat, byte: u8, width: nat)
    ensures
        big_endian(n, 0) == Seq::<u8>::empty(),
        big_endian(256 * n + byte as nat, width + 1) == big_endian(n, width).push(byte),
{
    assert((256 * n + byte as nat) / 256 == n);
    assert((256 * n + byte as nat) % 256 == byte as nat);
}

/// An id has sixteen bytes, and its text 36 characters with hyphens behind eight, twelve, sixteen
/// and twenty of its digits.
pub proof fn an_id_is_written_in_five_groups(id: u128, bytes: Vec<u8>, text: String)
    requires
        call_ensures(bytes_of, (id,), bytes),
        call_ensures(write_id, (id,), text),
    ensures
        bytes@.len() == 16,
        text@.len() == 36,
        text@[8] == '-' && text@[13] == '-' && text@[18] == '-' && text@[23] == '-',
        ({
            let digits = number::hex_of(bytes@);
            &&& text@.subrange(0, 8) == digits.subrange(0, 8)
            &&& text@.subrange(9, 13) == digits.subrange(8, 12)
            &&& text@.subrange(14, 18) == digits.subrange(12, 16)
            &&& text@.subrange(19, 23) == digits.subrange(16, 20)
            &&& text@.subrange(24, 36) == digits.subrange(20, 32)
        }),
{
    lemma_big_endian_len(id as nat, 16);
    let digits = number::hex_of(bytes@);
    assert(digits.len() == 32);
    assert(text@.subrange(0, 8) =~= digits.subrange(0, 8));
    assert(text@.subrange(9, 13) =~= digits.subrange(8, 12));
    assert(text@.subrange(14, 18) =~= digits.subrange(12, 16));
    assert(text@.subrange(19, 23) =~= digits.subrange(16, 20));
    assert(text@.subrange(24, 36) =~= digits.subrange(20, 32));
}

/// What is written of an id reads back as the id.
pub proof fn a_written_id_is_read_back(id: u128, text: String, s: &str, r: Option<u128>)
    requires
        call_ensures(write_id, (id,), text),
        s@ == text@,
        call_ensures(read_id, (s,), r),
    ensures
        r == Some(id),
{
}

/// A text is read as an id exactly where it is the text of one.
pub proof fn a_text_is_read_as_its_id(text: &str, r: Option<u128>)
    requires
        call_ensures(read_id, (text,), r),
    ensures
        id_parsed(text@) is Ok ==> r == Some(id_parsed(text@)->Ok_0),
        id_parsed(text@) is Err ==> r is None,
{
}

} // verus!

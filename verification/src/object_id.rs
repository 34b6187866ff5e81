//! Object ids of stored documents and their hexadecimal form.

use vstd::prelude::*;

verus! {

/// The twelve bytes that identify a stored document.
#[derive(Clone, Copy, Debug, PartialEq, Eq)]
pub struct ObjectId {
    pub bytes: [u8; 12],
}

/// A character that a hexadecimal string may hold, in either case.
pub open spec fn is_hex_digit(c: char) -> bool {
    let n = c as u32;
    ||| 48 <= n <= 57
    ||| 97 <= n <= 102
    ||| 65 <= n <= 70
}

/// The value of a hexadecimal digit.
pub open spec fn hex_value(c: char) -> int {
    let n = c as u32;
    if 48 <= n <= 57 {
        n - 48
    } else if 97 <= n <= 102 {
        n - 87
    } else {
        n - 55
    }
}

/// The lower-case hexadecimal digit of a value below sixteen.
pub open spec fn hex_lower(v: int) -> char {
    if v < 10 {
        (v + 48) as char
    } else {
        (v + 87) as char
    }
}

/// Lower-case hexadecimal text of a byte string: two digits per byte, high nibble first.
pub open spec fn spec_to_hex(bytes: Seq<u8>) -> Seq<char> {
    Seq::new(
        2 * bytes.len(),
        |i: int|
            if i % 2 == 0 {
                hex_lower(bytes[i / 2] as int / 16)
            } else {
                hex_lower(bytes[i / 2] as int % 16)
            },
    )
}

/// The text of an object id: twenty-four hexadecimal digits, in either case.
pub open spec fn is_object_id_hex(s: Seq<char>) -> bool {
    &&& s.len() == 24
    &&& forall|i: int| 0 <= i < s.len() ==> is_hex_digit(#[trigger] s[i])
}

/// The bytes that hexadecimal text stands for.
pub open spec fn spec_decode_hex(s: Seq<char>) -> Seq<u8> {
    Seq::new(s.len() / 2, |i: int| (16 * hex_value(s[2 * i]) + hex_value(s[2 * i + 1])) as u8)
}

/// Lower case of a letter among `A` to `F`; any other character is kept.
pub open spec fn hex_char_lower(c: char) -> char {
    let n = c as u32;
    if 65 <= n <= 70 {
        (n + 32) as char
    } else {
        c
    }
}

/// Lower case of hexadecimal text.
pub open spec fn spec_hex_lowercase(s: Seq<char>) -> Seq<char> {
    s.map_values(|c: char| hex_char_lower(c))
}

proof fn lemma_hex_digit(v: int)
    requires
        0 <= v < 16,
    ensures
        is_hex_digit(hex_lower(v)),
        hex_value(hex_lower(v)) == v,
{
}

proof fn lemma_digit_value(c: char)
    requires
        is_hex_digit(c),
    ensures
        0 <= hex_value(c) < 16,
        hex_lower(hex_value(c)) == hex_char_lower(c),
{
}

proof fn lemma_byte_split(b: int)
    requires
        0 <= b < 256,
    ensures
        0 <= b / 16 < 16,
        0 <= b % 16 < 16,
        16 * (b / 16) + b % 16 == b,
{
}

/// Hexadecimal text of any bytes is made of hexadecimal digits and reads back as the bytes.
pub proof fn hex_text_decodes_back(b: Seq<u8>)
    ensures
        forall|i: int|
            0 <= i < spec_to_hex(b).len() ==> is_hex_digit(#[trigger] spec_to_hex(b)[i]),
        spec_decode_hex(spec_to_hex(b)) == b,
{
    let h = spec_to_hex(b);
    assert forall|i: int| 0 <= i < h.len() implies is_hex_digit(#[trigger] h[i]) by {
        lemma_byte_split(b[i / 2] as int);
        lemma_hex_digit(b[i / 2] as int / 16);
        lemma_hex_digit(b[i / 2] as int % 16);
    }
    let d = spec_decode_hex(h);
    assert forall|i: int| 0 <= i < b.len() implies #[trigger] d[i] == b[i] by {
        let x = b[i] as int;
        lemma_byte_split(x);
        lemma_hex_digit(x / 16);
        lemma_hex_digit(x % 16);
        assert((2 * i) / 2 == i);
        assert((2 * i + 1) / 2 == i);
        assert((2 * i) % 2 == 0);
        assert((2 * i + 1) % 2 == 1);
    }
    assert(d =~= b);
}

/// The hexadecimal text of an id is valid id text, and it reads back as the same id.
pub proof fn hex_text_parses_back(id: ObjectId)
    ensures
        is_object_id_hex(spec_to_hex(id.bytes@)),
        spec_decode_hex(spec_to_hex(id.bytes@)) == id.bytes@,
{
    hex_text_decodes_back(id.bytes@);
}

/// Two byte strings with the same hexadecimal text are the same.
pub proof fn hex_text_is_injective(a: Seq<u8>, b: Seq<u8>)
    ensures
        spec_to_hex(a) == spec_to_hex(b) ==> a == b,
{
    hex_text_decodes_back(a);
    hex_text_decodes_back(b);
}

/// Valid id text, read as an id and written back, is the same text in lower case.
pub proof fn parsed_id_prints_lowercase(s: Seq<char>)
    requires
        is_object_id_hex(s),
    ensures
        spec_decode_hex(s).len() == 12,
        spec_to_hex(spec_decode_hex(s)) == spec_hex_lowercase(s),
{
    let d = spec_decode_hex(s);
    let h = spec_to_hex(d);
    let l = spec_hex_lowercase(s);
    assert forall|i: int| 0 <= i < h.len() implies #[trigger] h[i] == l[i] by {
        let j = i / 2;
        lemma_digit_value(s[2 * j]);
        lemma_digit_value(s[2 * j + 1]);
        let hi = hex_value(s[2 * j]);
        let lo = hex_value(s[2 * j + 1]);
        assert(d[j] == 16 * hi + lo);
        lemma_byte_split(16 * hi + lo);
        assert((16 * hi + lo) / 16 == hi);
        assert((16 * hi + lo) % 16 == lo);
        if i % 2 == 0 {
            assert(i == 2 * j);
        } else {
            assert(i == 2 * j + 1);
        }
    }
    assert(h =~= l);
}

/// Reads an id with `bson::oid::ObjectId::from_str`, which decodes the text with
/// `hex::decode` and accepts exactly twelve bytes. Claimed here: the text is read
/// if and only if it is twenty-four hexadecimal digits of either case, and then
/// each byte is made of two consecutive digits, the first one high.
#[verifier::external_body]
pub(crate) fn bson_object_id_from_str(s: &str) -> (r: Option<ObjectId>)
    ensures
        r is Some <==> is_object_id_hex(s@),
        r matches Some(id) ==> id.bytes@ == spec_decode_hex(s@),
{
    match <mongodb::bson::oid::ObjectId as std::str::FromStr>::from_str(s) {
        Ok(oid) => Some(ObjectId { bytes: oid.bytes() }),
        Err(_) => None,
    }
}

/// Writes an id with `bson::oid::ObjectId::to_hex`, which is `hex::encode` of the
/// twelve bytes. Claimed here: the text is the lower-case hexadecimal form of the bytes.
#[verifier::external_body]
pub(crate) fn bson_object_id_to_hex(id: &ObjectId) -> (r: String)
    ensures
        r@ == spec_to_hex(id.bytes@),
{
    mongodb::bson::oid::ObjectId::from_bytes(id.bytes).to_hex()
}

/// Writes an id with `ToString` through bson's `Display` for `ObjectId`, which writes
/// `to_hex()`. Claimed here: the text is the lower-case hexadecimal form of the bytes.
#[verifier::external_body]
pub(crate) fn bson_object_id_to_string(id: &ObjectId) -> (r: String)
    ensures
        r@ == spec_to_hex(id.bytes@),
{
    mongodb::bson::oid::ObjectId::from_bytes(id.bytes).to_string()
}

/// A fresh id from `bson::oid::ObjectId::new`, made of the clock, a per-process random
/// value and a counter. Nothing is claimed of its bytes.
#[verifier::external_body]
pub(crate) fn bson_object_id_new() -> (r: ObjectId) {
    ObjectId { bytes: mongodb::bson::oid::ObjectId::new().bytes() }
}

impl ObjectId {
    /// The id that the given text stands for, if it is twenty-four hexadecimal digits.
    pub fn parse(s: &str) -> (r: Option<ObjectId>)
        ensures
            r is Some <==> is_object_id_hex(s@),
            r matches Some(id) ==> id.bytes@ == spec_decode_hex(s@),
    {
        bson_object_id_from_str(s)
    }

    /// The lower-case hexadecimal text of the id.
    pub fn to_hex(&self) -> (r: String)
        ensures
            r@ == spec_to_hex(self.bytes@),
            is_object_id_hex(r@),
    {
        proof {
            hex_text_parses_back(*self);
        }
        bson_object_id_to_hex(self)
    }

    /// A fresh id for a new document.
    pub fn generate() -> (r: ObjectId) {
        bson_object_id_new()
    }
}

} // verus!

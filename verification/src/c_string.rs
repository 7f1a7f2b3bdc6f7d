//! Text as the zero-terminated bytes that C functions take.

use vstd::prelude::*;
use vstd::utf8::{decode_utf8, encode_scalar, encode_utf8};

use crate::text::{append_u64, decimal};

verus! {

/// `at` is the place of the first zero byte.
pub open spec fn is_first_nul(bytes: Seq<u8>, at: int) -> bool {
    &&& 0 <= at < bytes.len()
    &&& bytes[at] == 0
    &&& forall|i: int| 0 <= i < at ==> bytes[i] != 0
}

/// The bytes of a text hold a zero byte, so that no C string can stand for it.
pub open spec fn has_nul(text: Seq<char>) -> bool {
    encode_utf8(text).contains(0u8)
}

/// The C string that stands for a text: its UTF-8 bytes and a zero byte.
pub open spec fn c_string_bytes(text: Seq<char>) -> Seq<u8> {
    encode_utf8(text).push(0u8)
}

/// The error that a text with a zero byte is rejected with.
pub open spec fn nul_error(text: Seq<char>) -> NulErrorView {
    let bytes = encode_utf8(text);
    NulErrorView { position: choose|at: nat| is_first_nul(bytes, at as int), bytes }
}

/// A text that cannot be a C string because it holds a zero byte
#[derive(Debug)]
pub struct NulError {
    position: usize,
    bytes: Vec<u8>,
}

/// What the error is in contracts: the bytes of the text and the place of a zero byte.
pub struct NulErrorView {
    pub position: nat,
    pub bytes: Seq<u8>,
}

impl NulErrorView {
    /// How the error reads.
    pub open spec fn message(self) -> Seq<char> {
        "nul byte found in provided data at position: "@ + decimal(self.position as int)
    }
}

impl View for NulError {
    type V = NulErrorView;

    closed spec fn view(&self) -> NulErrorView {
        NulErrorView { position: self.position as nat, bytes: self.bytes@ }
    }
}

impl NulError {
    /// The position is that of the first zero byte.
    #[verifier::type_invariant]
    spec fn inv(self) -> bool {
        is_first_nul(self.bytes@, self.position as int)
    }

    /// The position of the first zero byte
    pub fn nul_position(&self) -> (position: usize)
        ensures
            position == self@.position,
            is_first_nul(self@.bytes, position as int),
    {
        proof {
            use_type_invariant(self);
        }
        self.position
    }

    /// The bytes of the text
    pub fn into_vec(self) -> (bytes: Vec<u8>)
        ensures
            bytes@ == self@.bytes,
    {
        self.bytes
    }

    /// The error as a text
    pub fn to_string(&self) -> (message: String)
        ensures
            message@ == self@.message(),
    {
        let mut message = String::new();
        message.append("nul byte found in provided data at position: ");
        append_u64(&mut message, self.position as u64);
        message
    }
}

/// Turns a text into a C string
///
/// # Errors
///
/// Returns an error if the text contains a zero byte.
pub fn c_string(text: &str) -> (c_string: Result<Vec<u8>, NulError>)
    ensures
        match c_string {
            Ok(bytes) => !has_nul(text@) && bytes@ == c_string_bytes(text@),
            Err(e) => {
                &&& has_nul(text@)
                &&& e@ == nul_error(text@)
                &&& is_first_nul(encode_utf8(text@), e@.position as int)
            },
        },
{
    let bytes = text.as_bytes();
    let mut c_bytes: Vec<u8> = Vec::new();
    let mut i: usize = 0;
    while i < bytes.len()
        invariant
            i <= bytes@.len(),
            c_bytes@ == bytes@.take(i as int),
            forall|j: int| 0 <= j < i ==> bytes@[j] != 0,
            bytes@ == encode_utf8(text@),
        decreases bytes@.len() - i,
    {
        if bytes[i] == 0 {
            assert(is_first_nul(bytes@, (i as nat) as int));
            return Err(NulError { position: i, bytes: vstd::slice::slice_to_vec(bytes) });
        }
        c_bytes.push(bytes[i]);
        assert(bytes@.take(i + 1) == bytes@.take(i as int).push(bytes@[i as int]));
        i = i + 1;
    }
    assert(bytes@.take(i as int) == bytes@);
    c_bytes.push(0);
    Ok(c_bytes)
}

/// No character but `\0` has a zero byte in its encoding.
proof fn lemma_encode_scalar_nul(c: char)
    ensures
        encode_scalar(c as u32).contains(0u8) <==> c == '\0',
{
    let v = c as u32;
    let bytes = encode_scalar(v);
    vstd::utf8::char_is_scalar(c);
    assert(v <= 0x7F ==> ((v & 0x7F) as u8 == 0 <==> v == 0)) by (bit_vector);
    assert(0xC0u8 | ((v >> 6) & 0x1F) as u8 != 0) by (bit_vector);
    assert(0xE0u8 | ((v >> 12) & 0x0F) as u8 != 0) by (bit_vector);
    assert(0xF0u8 | ((v >> 18) & 0x7) as u8 != 0) by (bit_vector);
    assert(0x80u8 | (v & 0x3F) as u8 != 0) by (bit_vector);
    assert(0x80u8 | ((v >> 6) & 0x3F) as u8 != 0) by (bit_vector);
    assert(0x80u8 | ((v >> 12) & 0x3F) as u8 != 0) by (bit_vector);
    if c == '\0' {
        assert(bytes[0] == 0);
    }
}

/// A text can be a C string exactly if it does not hold the character `\0`.
pub proof fn law_nul_byte_is_nul_character(text: Seq<char>)
    ensures
        has_nul(text) <==> text.contains('\0'),
    decreases text.len(),
{
    broadcast use vstd::seq_lib::group_seq_properties;

    if text.len() > 0 {
        let first = encode_scalar(text[0] as u32);
        let rest = text.drop_first();
        lemma_encode_scalar_nul(text[0]);
        law_nul_byte_is_nul_character(rest);
        assert(encode_utf8(text) == first + encode_utf8(rest));
        assert(text == seq![text[0]] + rest);
    }
}

/// A C string ends where its text ends, and the bytes before the end give back the text.
pub proof fn law_c_string_gives_back_text(text: Seq<char>)
    requires
        !has_nul(text),
    ensures
        is_first_nul(c_string_bytes(text), c_string_bytes(text).len() - 1),
        decode_utf8(c_string_bytes(text).drop_last()) == text,
{
    let bytes = encode_utf8(text);
    vstd::utf8::encode_utf8_decode_utf8(text);
    assert(c_string_bytes(text).drop_last() == bytes);
    assert forall|i: int| 0 <= i < bytes.len() implies bytes[i] != 0 by {
        assert(bytes.contains(bytes[i]));
    }
}

} // verus!

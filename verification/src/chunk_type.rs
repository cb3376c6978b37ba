//! The four-byte type code of a chunk.
//!
//! Each byte of a type code carries a property flag in its case: byte 0
//! uppercase means critical, byte 1 uppercase means public, byte 2 uppercase
//! means the reserved bit is valid, and byte 3 lowercase means the chunk is
//! safe to copy. A code is valid overall when all four bytes are letters and
//! the reserved bit holds.

use vstd::prelude::*;
use vstd::string::StrSliceExecFns;

use crate::error::PngError;

verus! {

/// True for the bytes of the seven-bit character range.
pub open spec fn is_ascii_byte(b: u8) -> bool {
    b < 128
}

/// True for the bytes of the upper- and lowercase letters.
pub open spec fn is_letter_byte(b: u8) -> bool {
    is_upper_byte(b) || is_lower_byte(b)
}

/// True for the bytes of the uppercase letters.
pub open spec fn is_upper_byte(b: u8) -> bool {
    65 <= b && b <= 90
}

/// True for the bytes of the lowercase letters.
pub open spec fn is_lower_byte(b: u8) -> bool {
    97 <= b && b <= 122
}

/// True for the characters of the upper- and lowercase letters.
pub open spec fn is_letter_char(c: char) -> bool {
    (65 <= c as int && c as int <= 90) || (97 <= c as int && c as int <= 122)
}

/// The text of a byte sequence: each byte read as the character with the
/// same code point.
pub open spec fn text_of(bytes: Seq<u8>) -> Seq<char> {
    Seq::new(bytes.len(), |i: int| bytes[i] as char)
}

/// A four-byte tag naming a chunk's kind.
#[derive(Clone, Copy, Debug, PartialEq, Eq)]
pub struct ChunkType {
    code: [u8; 4],
}

impl View for ChunkType {
    type V = Seq<u8>;

    closed spec fn view(&self) -> Seq<u8> {
        self.code@
    }
}

/// Relies on String::push: it appends exactly the one given character.
#[verifier::external_body]
fn push_char(s: &mut String, c: char)
    ensures
        final(s)@ == old(s)@.push(c),
{
    s.push(c);
}

impl ChunkType {
    /// A type code is always exactly four bytes.
    #[verifier::type_invariant]
    pub open spec fn inv(self) -> bool {
        self@.len() == 4
    }

    /// Accepts any four bytes of the seven-bit range, letters or not.
    pub fn try_from(value: [u8; 4]) -> (r: Result<ChunkType, PngError>)
        ensures
            r is Ok <==> (forall|i: int| 0 <= i < 4 ==> is_ascii_byte(value@[i])),
            r matches Ok(t) ==> t@ == value@,
            r is Err ==> r == Err::<ChunkType, PngError>(PngError::InvalidTypeCode),
    {
        if value[0] < 128 && value[1] < 128 && value[2] < 128 && value[3] < 128 {
            Ok(ChunkType { code: value })
        } else {
            Err(PngError::InvalidTypeCode)
        }
    }

    /// Accepts exactly four characters, each an upper- or lowercase letter.
    pub fn from_str(s: &str) -> (r: Result<ChunkType, PngError>)
        ensures
            r is Ok <==> (s@.len() == 4 && forall|i: int| 0 <= i < 4 ==> is_letter_char(s@[i])),
            r matches Ok(t) ==> t@ == s@.map_values(|c: char| c as u8),
            r is Err ==> r == Err::<ChunkType, PngError>(PngError::InvalidTypeCode),
    {
        if s.unicode_len() != 4 {
            return Err(PngError::InvalidTypeCode);
        }
        let b0 = Self::letter_to_byte(s.get_char(0));
        let b1 = Self::letter_to_byte(s.get_char(1));
        let b2 = Self::letter_to_byte(s.get_char(2));
        let b3 = Self::letter_to_byte(s.get_char(3));
        match (b0, b1, b2, b3) {
            (Some(v0), Some(v1), Some(v2), Some(v3)) => {
                let t = ChunkType { code: [v0, v1, v2, v3] };
                proof {
                    assert(t@ =~= s@.map_values(|c: char| c as u8));
                }
                Ok(t)
            },
            _ => Err(PngError::InvalidTypeCode),
        }
    }

    /// The byte of a letter character, or nothing for any other character.
    fn letter_to_byte(c: char) -> (r: Option<u8>)
        ensures
            r is Some <==> is_letter_char(c),
            r matches Some(b) ==> b as int == c as int && b == c as u8,
    {
        let code = c as u32;
        if (65 <= code && code <= 90) || (97 <= code && code <= 122) {
            Some(code as u8)
        } else {
            None
        }
    }

    /// Builds a type code from four raw bytes with no validation; the chunk
    /// parser reads codes from the wire exactly as they stand.
    pub(crate) fn from_raw(value: [u8; 4]) -> (r: ChunkType)
        ensures
            r@ == value@,
    {
        ChunkType { code: value }
    }

    /// The four bytes of the code.
    pub fn bytes(&self) -> (r: [u8; 4])
        ensures
            r@ == self@,
    {
        self.code
    }

    /// The four characters of the code, each byte read as a character.
    pub fn to_text(&self) -> (r: String)
        ensures
            r@ == text_of(self@),
    {
        let mut r = String::new();
        push_char(&mut r, self.code[0] as char);
        push_char(&mut r, self.code[1] as char);
        push_char(&mut r, self.code[2] as char);
        push_char(&mut r, self.code[3] as char);
        proof {
            assert(r@ =~= text_of(self@));
        }
        r
    }

    /// True when byte 0 is uppercase: the chunk is critical, not ancillary.
    pub fn is_critical(&self) -> (r: bool)
        ensures
            r == is_upper_byte(self@[0]),
    {
        65 <= self.code[0] && self.code[0] <= 90
    }

    /// True when byte 1 is uppercase: the chunk is public, not private.
    pub fn is_public(&self) -> (r: bool)
        ensures
            r == is_upper_byte(self@[1]),
    {
        65 <= self.code[1] && self.code[1] <= 90
    }

    /// True when byte 2 is uppercase: the reserved bit conforms.
    pub fn is_reserved_bit_valid(&self) -> (r: bool)
        ensures
            r == is_upper_byte(self@[2]),
    {
        65 <= self.code[2] && self.code[2] <= 90
    }

    /// True when byte 3 is lowercase: the chunk is safe to copy.
    pub fn is_safe_to_copy(&self) -> (r: bool)
        ensures
            r == is_lower_byte(self@[3]),
    {
        97 <= self.code[3] && self.code[3] <= 122
    }

    /// True exactly when all four bytes are letters and the reserved bit
    /// is valid.
    pub fn is_valid(&self) -> (r: bool)
        ensures
            r == ((forall|i: int| 0 <= i < 4 ==> is_letter_byte(self@[i])) && is_upper_byte(
                self@[2],
            )),
    {
        let all_letters = Self::byte_is_letter(self.code[0]) && Self::byte_is_letter(self.code[1])
            && Self::byte_is_letter(self.code[2]) && Self::byte_is_letter(self.code[3]);
        all_letters && self.is_reserved_bit_valid()
    }

    /// True for the byte of an upper- or lowercase letter.
    fn byte_is_letter(b: u8) -> (r: bool)
        ensures
            r == is_letter_byte(b),
    {
        (65 <= b && b <= 90) || (97 <= b && b <= 122)
    }
}

} // verus!

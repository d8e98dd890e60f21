use vstd::prelude::*;
use vstd::string::StringSliceAdditionalSpecFns;
use vstd::utf8::{decode_utf8, valid_utf8};
use vstd::string::StringExecFns;
use vstd::std_specs::convert::TryFromSpec;
use crate::text::{decimal, decimal_text};

verus! {

/// Whether a byte is an ASCII letter (`A`..=`Z` or `a`..=`z`).
pub open spec fn is_letter(b: u8) -> bool {
    (65 <= b && b <= 90) || (97 <= b && b <= 122)
}

/// Bit 5 of a byte: 0 for an upper-case ASCII letter, 1 for a lower-case one.
pub open spec fn bit_five(b: u8) -> u8 {
    (b >> 5u8) & 1u8
}

/// Whether `s[i]` is the first byte of `s` that is not an ASCII letter.
pub open spec fn first_non_letter(s: Seq<u8>, i: int) -> bool {
    0 <= i < s.len() && !is_letter(s[i]) && forall|j: int| 0 <= j < i ==> is_letter(#[trigger] s[j])
}

/// The text that `String::from_utf8_lossy` makes of a byte sequence.
pub uninterp spec fn lossy_text(bytes: Seq<u8>) -> Seq<char>;

/// Relies on `String::from_utf8_lossy`: valid UTF-8 is decoded as it is, and
/// invalid sequences become U+FFFD instead of failing.
#[verifier::external_body]
fn utf8_lossy(bytes: &[u8]) -> (r: String)
    ensures
        r@ == lossy_text(bytes@),
        valid_utf8(bytes@) ==> r@ == decode_utf8(bytes@),
{
    String::from_utf8_lossy(bytes).into_owned()
}

/// A four-byte chunk type tag.
#[derive(Debug)]
pub struct ChunkType {
    data: [u8; 4],
}

/// Why text could not be read as a chunk type.
#[derive(Debug, Clone, Copy, PartialEq, Eq, Structural)]
pub enum ChunkTypeError {
    /// A byte outside the ASCII letter ranges; carries that byte.
    InvalidCharacter(u8),
    /// The text is not four bytes long; carries its length.
    InvalidLength(usize),
}

/// The message that describes an error.
pub open spec fn chunk_type_error_message(e: ChunkTypeError) -> Seq<char> {
    match e {
        ChunkTypeError::InvalidCharacter(b) => "invalid character: "@ + decimal_text(b as u64),
        ChunkTypeError::InvalidLength(n) => "length must be 4, right now: "@ + decimal_text(
            n as u64,
        ),
    }
}

impl ChunkTypeError {
    /// A message that describes the error.
    pub fn to_string(&self) -> (r: String)
        ensures
            r@ == chunk_type_error_message(*self),
    {
        match self {
            ChunkTypeError::InvalidCharacter(b) => {
                String::from_str("invalid character: ").concat(decimal(*b as u64).as_str())
            },
            ChunkTypeError::InvalidLength(n) => {
                String::from_str("length must be 4, right now: ").concat(
                    decimal(*n as u64).as_str(),
                )
            },
        }
    }
}

impl View for ChunkType {
    type V = Seq<u8>;

    closed spec fn view(&self) -> Seq<u8> {
        self.data@
    }
}

/// Every chunk type holds exactly four bytes.
pub broadcast proof fn lemma_type_len(t: ChunkType)
    ensures
        #[trigger] t@.len() == 4,
{
}

impl PartialEq for ChunkType {
    fn eq(&self, other: &ChunkType) -> (r: bool) {
        proof {
            assert(self@ =~= seq![self.data[0], self.data[1], self.data[2], self.data[3]]);
            assert(other@ =~= seq![other.data[0], other.data[1], other.data[2], other.data[3]]);
        }
        self.data[0] == other.data[0] && self.data[1] == other.data[1] && self.data[2]
            == other.data[2] && self.data[3] == other.data[3]
    }
}

impl vstd::std_specs::cmp::PartialEqSpecImpl for ChunkType {
    open spec fn obeys_eq_spec() -> bool {
        true
    }

    open spec fn eq_spec(&self, other: &ChunkType) -> bool {
        self@ == other@
    }
}

impl Eq for ChunkType {

}

impl TryFrom<[u8; 4]> for ChunkType {
    type Error = ();

    fn try_from(value: [u8; 4]) -> (r: Result<ChunkType, ()>) {
        Ok(ChunkType { data: value })
    }
}

impl vstd::std_specs::convert::TryFromSpecImpl<[u8; 4]> for ChunkType {
    open spec fn obeys_try_from_spec() -> bool {
        true
    }

    closed spec fn try_from_spec(value: [u8; 4]) -> Result<ChunkType, ()> {
        Ok(ChunkType { data: value })
    }
}

impl std::str::FromStr for ChunkType {
    type Err = ChunkTypeError;

    fn from_str(s: &str) -> Result<ChunkType, ChunkTypeError> {
        ChunkType::from_str(s)
    }
}

/// `ChunkType::try_from` on four bytes never fails and keeps them as they are.
pub broadcast proof fn lemma_try_from_bytes(value: [u8; 4])
    ensures
        #[trigger] <ChunkType as TryFromSpec<[u8; 4]>>::try_from_spec(value) is Ok,
        <ChunkType as TryFromSpec<[u8; 4]>>::try_from_spec(value)->Ok_0@ == value@,
{
}

impl ChunkType {
    /// Takes four bytes as they are, without checking them.
    pub fn from_bytes(bytes: [u8; 4]) -> (r: ChunkType)
        ensures
            r@ == bytes@,
    {
        ChunkType { data: bytes }
    }

    /// The four bytes of the tag.
    pub fn bytes(&self) -> (r: [u8; 4])
        ensures
            r@ == self@,
    {
        self.data
    }

    /// The tag as text; bytes that are not valid UTF-8 are replaced, never refused.
    pub fn to_string(&self) -> (r: String)
        ensures
            r@ == lossy_text(self@),
            valid_utf8(self@) ==> r@ == decode_utf8(self@),
    {
        let tag = self.data;
        utf8_lossy(tag.as_slice())
    }

    /// Whether `b` is an ASCII letter.
    pub fn is_valid_byte(b: u8) -> (r: bool)
        ensures
            r == is_letter(b),
    {
        (b >= 65 && b <= 90) || (b >= 97 && b <= 122)
    }

    /// Critical when bit 5 of the first byte is 0.
    pub fn is_critical(&self) -> (r: bool)
        ensures
            r == (bit_five(self@[0]) == 0),
    {
        (self.data[0] >> 5u8) & 1u8 == 0
    }

    /// Public when bit 5 of the second byte is 0.
    pub fn is_public(&self) -> (r: bool)
        ensures
            r == (bit_five(self@[1]) == 0),
    {
        (self.data[1] >> 5u8) & 1u8 == 0
    }

    /// The reserved bit, bit 5 of the third byte, must be 0.
    pub fn is_reserved_bit_valid(&self) -> (r: bool)
        ensures
            r == (bit_five(self@[2]) == 0),
    {
        (self.data[2] >> 5u8) & 1u8 == 0
    }

    /// Safe to copy when bit 5 of the fourth byte is 1.
    pub fn is_safe_to_copy(&self) -> (r: bool)
        ensures
            r == (bit_five(self@[3]) == 1),
    {
        (self.data[3] >> 5u8) & 1u8 == 1
    }

    /// Valid when every byte is an ASCII letter and the reserved bit is 0.
    pub fn is_valid(&self) -> (r: bool)
        ensures
            r == ((forall|i: int| 0 <= i < 4 ==> is_letter(#[trigger] self@[i])) && bit_five(self@[2])
                == 0),
    {
        let mut i: usize = 0;
        while i < 4
            invariant
                i <= 4,
                forall|j: int| 0 <= j < i ==> is_letter(#[trigger] self@[j]),
            decreases 4 - i,
        {
            if !Self::is_valid_byte(self.data[i]) {
                return false;
            }
            i = i + 1;
        }
        self.is_reserved_bit_valid()
    }

    /// Reads a tag from text: four bytes, each an ASCII letter.
    pub fn from_str(s: &str) -> (r: Result<ChunkType, ChunkTypeError>)
        ensures
            s.spec_bytes().len() != 4 ==> r == Err::<ChunkType, ChunkTypeError>(
                ChunkTypeError::InvalidLength(s.spec_bytes().len() as usize),
            ),
            s.spec_bytes().len() == 4 ==> match r {
                Ok(t) => t@ == s.spec_bytes() && forall|i: int|
                    0 <= i < 4 ==> is_letter(#[trigger] s.spec_bytes()[i]),
                Err(ChunkTypeError::InvalidCharacter(b)) => exists|i: int|
                    first_non_letter(s.spec_bytes(), i) && s.spec_bytes()[i] == b,
                Err(ChunkTypeError::InvalidLength(_)) => false,
            },
    {
        let characters = s.as_bytes();
        let n = characters.len();
        if n != 4 {
            return Err(ChunkTypeError::InvalidLength(n));
        }
        let mut i: usize = 0;
        while i < 4
            invariant
                i <= 4,
                characters@ == s.spec_bytes(),
                characters@.len() == 4,
                forall|j: int| 0 <= j < i ==> is_letter(#[trigger] characters@[j]),
            decreases 4 - i,
        {
            if !Self::is_valid_byte(characters[i]) {
                assert(first_non_letter(characters@, i as int));
                return Err(ChunkTypeError::InvalidCharacter(characters[i]));
            }
            i = i + 1;
        }
        let data: [u8; 4] = [characters[0], characters[1], characters[2], characters[3]];
        assert(data@ =~= characters@);
        Ok(ChunkType { data })
    }
}

} // verus!

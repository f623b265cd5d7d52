//! Twelve-byte object identifiers and their hexadecimal text.

use rand::Rng;
use vstd::prelude::*;
use vstd::slice::slice_to_vec;
use vstd::string::StringSliceAdditionalSpecFns;

verus! {

/// The error of `hex::decode`, carried and never read.
#[verifier::external_type_specification]
#[verifier::external_body]
pub struct ExFromHexError(hex::FromHexError);

/// The lower-case hexadecimal digit of `n`.
pub open spec fn hex_digit(n: int) -> char
    recommends
        0 <= n < 16,
{
    if n < 10 {
        (48 + n) as char
    } else {
        (87 + n) as char
    }
}

/// The hexadecimal text of `bytes`: two lower-case digits for each byte, the
/// high half first.
pub open spec fn hex_text(bytes: Seq<u8>) -> Seq<char> {
    Seq::new(
        2 * bytes.len(),
        |i: int|
            if i % 2 == 0 {
                hex_digit(bytes[i / 2] as int / 16)
            } else {
                hex_digit(bytes[i / 2] as int % 16)
            },
    )
}

/// The number that the byte `c` stands for as a hexadecimal digit of either
/// case, if it is one.
pub open spec fn hex_digit_value(c: u8) -> Option<int> {
    if 48 <= c <= 57 {
        Some(c - 48)
    } else if 97 <= c <= 102 {
        Some(c - 87)
    } else if 65 <= c <= 70 {
        Some(c - 55)
    } else {
        None
    }
}

/// Whether `text`, the bytes of a string, is an even number of hexadecimal
/// digits.
pub open spec fn is_hex(text: Seq<u8>) -> bool {
    &&& text.len() % 2 == 0
    &&& forall|i: int| 0 <= i < text.len() ==> (#[trigger] hex_digit_value(text[i])) is Some
}

/// The bytes that the hexadecimal digits in `text` denote, two digits to a
/// byte.
pub open spec fn hex_bytes(text: Seq<u8>) -> Seq<u8>
    recommends
        is_hex(text),
{
    Seq::new(
        text.len() / 2,
        |i: int| (16 * hex_digit_value(text[2 * i])->0 + hex_digit_value(text[2 * i + 1])->0) as u8,
    )
}

/// Whether `text`, the bytes of a string, is the hexadecimal form of an
/// object identifier: twenty-four digits.
pub open spec fn is_object_id_hex(text: Seq<u8>) -> bool {
    is_hex(text) && text.len() == 24
}

/// `hex::encode`: two lower-case hexadecimal digits for each byte of
/// `bytes`, in order.
#[verifier::external_body]
pub(crate) fn hex_encode(bytes: &[u8]) -> (s: String)
    ensures
        s@ == hex_text(bytes@),
{
    hex::encode(bytes)
}

/// `hex::decode` on the bytes of a string: the bytes that the digits denote
/// where the string is an even number of hexadecimal digits of either case,
/// and an error on every other string.
#[verifier::external_body]
fn hex_decode(s: &str) -> (r: Result<Vec<u8>, hex::FromHexError>)
    ensures
        r is Ok <==> is_hex(s.spec_bytes()),
        r matches Ok(v) ==> v@ == hex_bytes(s.spec_bytes()),
{
    hex::decode(s)
}

/// The generator of `rand::thread_rng`, carried and never read.
#[verifier::external_type_specification]
#[verifier::external_body]
pub struct ExThreadRng(rand::rngs::ThreadRng);

/// `rand::thread_rng`: the random number generator of the current thread.
#[verifier::external_body]
fn thread_rng() -> (rng: rand::rngs::ThreadRng)
{
    rand::thread_rng()
}

/// `rand::Rng::fill` on twelve bytes. Nothing is known of the bytes that it
/// leaves in `bytes`.
#[verifier::external_body]
fn fill_random(rng: &mut rand::rngs::ThreadRng, bytes: &mut [u8; 12])
{
    rng.fill(bytes)
}

/// A twelve-byte object identifier.
#[derive(Debug, Clone, Copy, PartialEq)]
pub struct ObjectId {
    inner: [u8; 12],
}

impl View for ObjectId {
    type V = Seq<u8>;

    closed spec fn view(&self) -> Seq<u8> {
        self.inner@
    }
}

impl ObjectId {
    /// An identifier always has twelve bytes.
    pub broadcast proof fn lemma_len(self)
        ensures
            #[trigger] self@.len() == 12,
    {
        vstd::array::array_len_matches_n(&self.inner);
    }

    /// Two identifiers with the same bytes are the same identifier.
    pub proof fn lemma_ext_equal(self, other: ObjectId)
        requires
            self@ == other@,
        ensures
            self == other,
    {
        vstd::array::axiom_array_ext_equal(self.inner, other.inner);
    }

    /// An identifier made of twelve random bytes.
    pub fn new() -> (id: ObjectId) {
        let mut rng = thread_rng();
        let mut bytes: [u8; 12] = [0, 0, 0, 0, 0, 0, 0, 0, 0, 0, 0, 0];
        fill_random(&mut rng, &mut bytes);
        ObjectId::from_bytes(bytes)
    }

    /// The identifier with the given bytes.
    pub fn from_bytes(bytes: [u8; 12]) -> (id: ObjectId)
        ensures
            id@ == bytes@,
    {
        ObjectId { inner: bytes }
    }

    /// The bytes of the identifier.
    pub fn as_bytes(&self) -> (bytes: &[u8; 12])
        ensures
            bytes@ == self@,
    {
        &self.inner
    }

    /// The identifier that the text denotes, where the text is twenty-four
    /// hexadecimal digits of either case; `None` for every other text.
    pub fn from_hex(s: &str) -> (r: Option<ObjectId>)
        ensures
            r is Some <==> is_object_id_hex(s.spec_bytes()),
            r matches Some(id) ==> id@ == hex_bytes(s.spec_bytes()),
    {
        match hex_decode(s) {
            Ok(v) => {
                if v.len() != 12 {
                    return None;
                }
                let mut inner: [u8; 12] = [0, 0, 0, 0, 0, 0, 0, 0, 0, 0, 0, 0];
                let mut i: usize = 0;
                while i < 12
                    invariant
                        i <= 12,
                        v@.len() == 12,
                        forall|j: int| 0 <= j < i ==> inner@[j] == v@[j],
                    decreases 12 - i,
                {
                    inner[i] = v[i];
                    i += 1;
                }
                assert(inner@ =~= v@);
                Some(ObjectId { inner })
            },
            Err(_) => None,
        }
    }

    /// The identifier that the text denotes. The text is twenty-four
    /// hexadecimal digits of either case.
    pub fn from(s: &str) -> (id: ObjectId)
        requires
            is_object_id_hex(s.spec_bytes()),
        ensures
            id@ == hex_bytes(s.spec_bytes()),
    {
        match ObjectId::from_hex(s) {
            Some(id) => id,
            None => ObjectId { inner: [0, 0, 0, 0, 0, 0, 0, 0, 0, 0, 0, 0] },
        }
    }

    /// The identifier as twenty-four lower-case hexadecimal digits.
    pub fn to_string(&self) -> (s: String)
        ensures
            s@ == hex_text(self@),
    {
        hex_encode(self.inner.as_slice())
    }

    /// The bytes of the identifier in a vector.
    pub fn to_vec(&self) -> (v: Vec<u8>)
        ensures
            v@ == self@,
    {
        slice_to_vec(self.inner.as_slice())
    }
}

} // verus!

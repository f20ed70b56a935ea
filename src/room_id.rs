use vstd::prelude::*;

use vstd::string::StringSliceAdditionalSpecFns;

use crate::outside::{ascii_string, choose_byte};

verus! {

/// Number of characters in a room id.
pub const ROOM_ID_LENGTH: usize = 8;

/// Number of characters a room id may be made of.
pub const ROOM_ID_ALPHABET_SIZE: usize = 63;

/// The characters of room ids: upper-case letters, lower-case letters,
/// digits and the underscore, in that order.
pub open spec fn alphabet_byte(i: int) -> u8 {
    if i < 26 {
        (65 + i) as u8
    } else if i < 52 {
        (97 + (i - 26)) as u8
    } else if i < 62 {
        (48 + (i - 52)) as u8
    } else {
        95u8
    }
}

pub open spec fn room_id_alphabet() -> Seq<u8> {
    Seq::new(ROOM_ID_ALPHABET_SIZE as nat, |i: int| alphabet_byte(i))
}

/// Whether a byte may stand in a room id.
pub open spec fn is_room_id_char(b: u8) -> bool {
    (65 <= b <= 90) || (97 <= b <= 122) || (48 <= b <= 57) || b == 95
}

/// Whether a byte string is a well-formed room id.
pub open spec fn is_room_id(bytes: Seq<u8>) -> bool {
    bytes.len() == ROOM_ID_LENGTH && forall|i: int| 0 <= i < bytes.len() ==> is_room_id_char(
        #[trigger] bytes[i],
    )
}

proof fn lemma_alphabet_chars()
    ensures
        forall|b: u8| #[trigger] room_id_alphabet().contains(b) <==> is_room_id_char(b),
{
    assert forall|b: u8| #[trigger] room_id_alphabet().contains(b) <==> is_room_id_char(b) by {
        if is_room_id_char(b) {
            let i: int = if b <= 57 {
                b - 48 + 52
            } else if b <= 90 {
                b - 65
            } else if b == 95 {
                62
            } else {
                b - 97 + 26
            };
            assert(room_id_alphabet()[i] == b);
        }
    }
}

/// The address of a room: eight characters of the room id alphabet.
#[derive(Clone, Copy, Debug, Eq, Hash)]
pub struct RoomId([u8; ROOM_ID_LENGTH]);

/// Why a string is not a room id.
#[derive(Clone, Copy, Debug, PartialEq, Eq, Structural)]
pub enum TryParseRoomIdError {
    BadChar,
    BadLength,
}

impl TryParseRoomIdError {
    /// The human-readable reason.
    pub fn message(&self) -> (r: &'static str)
        ensures
            *self is BadChar ==> r@ == "bad character(s)"@,
            *self is BadLength ==> r@ == "bad length"@,
    {
        proof {
            reveal_strlit("bad character(s)");
            reveal_strlit("bad length");
        }
        match self {
            TryParseRoomIdError::BadChar => "bad character(s)",
            TryParseRoomIdError::BadLength => "bad length",
        }
    }
}

/// The room id alphabet, in order.
fn alphabet() -> (r: Vec<u8>)
    ensures
        r@ == room_id_alphabet(),
{
    let mut v: Vec<u8> = Vec::new();
    let mut i: u8 = 0;
    while i < 63
        invariant
            i <= 63,
            v@ == room_id_alphabet().take(i as int),
        decreases 63 - i,
    {
        let b: u8 = if i < 26 {
            65 + i
        } else if i < 52 {
            97 + (i - 26)
        } else if i < 62 {
            48 + (i - 52)
        } else {
            95
        };
        v.push(b);
        i = i + 1;
        assert(v@ =~= room_id_alphabet().take(i as int));
    }
    assert(v@ =~= room_id_alphabet());
    v
}

impl View for RoomId {
    type V = Seq<u8>;

    closed spec fn view(&self) -> Seq<u8> {
        self.0@
    }
}

impl PartialEq for RoomId {
    fn eq(&self, other: &RoomId) -> (r: bool) {
        let mut i: usize = 0;
        while i < ROOM_ID_LENGTH
            invariant
                i <= ROOM_ID_LENGTH,
                self@.len() == ROOM_ID_LENGTH,
                other@.len() == ROOM_ID_LENGTH,
                forall|j: int| 0 <= j < i ==> self@[j] == other@[j],
            decreases ROOM_ID_LENGTH - i,
        {
            if self.0[i] != other.0[i] {
                return false;
            }
            i = i + 1;
        }
        assert(self@ =~= other@);
        true
    }
}

impl vstd::std_specs::cmp::PartialEqSpecImpl for RoomId {
    open spec fn obeys_eq_spec() -> bool {
        true
    }

    open spec fn eq_spec(&self, other: &RoomId) -> bool {
        self@ == other@
    }
}

impl RoomId {
    #[verifier::type_invariant]
    spec fn well_formed(&self) -> bool {
        is_room_id(self.0@)
    }

    /// The room id made of `bytes`, where they are all of the alphabet.
    pub fn from_bytes(bytes: [u8; ROOM_ID_LENGTH]) -> (r: Option<Self>)
        ensures
            r is Some <==> is_room_id(bytes@),
            r is Some ==> r->0@ == bytes@,
    {
        let mut i: usize = 0;
        while i < ROOM_ID_LENGTH
            invariant
                i <= ROOM_ID_LENGTH,
                bytes@.len() == ROOM_ID_LENGTH,
                forall|j: int| 0 <= j < i ==> is_room_id_char(#[trigger] bytes@[j]),
            decreases ROOM_ID_LENGTH - i,
        {
            let b = bytes[i];
            if !((65 <= b && b <= 90) || (97 <= b && b <= 122) || (48 <= b && b <= 57) || b == 95) {
                return None;
            }
            i = i + 1;
        }
        let r = RoomId(bytes);
        assert(r@ == bytes@);
        Some(r)
    }

    /// A fresh room id of characters drawn at random from the alphabet.
    /// Nothing is done against collisions with ids already in use.
    pub fn new() -> (r: Self)
        ensures
            is_room_id(r@),
    {
        let chars = alphabet();
        proof {
            lemma_alphabet_chars();
        }
        let mut bytes: [u8; ROOM_ID_LENGTH] = [95u8; ROOM_ID_LENGTH];
        let mut i: usize = 0;
        while i < ROOM_ID_LENGTH
            invariant
                i <= ROOM_ID_LENGTH,
                chars@ == room_id_alphabet(),
                bytes@.len() == ROOM_ID_LENGTH,
                forall|j: int| 0 <= j < ROOM_ID_LENGTH ==> is_room_id_char(#[trigger] bytes@[j]),
            decreases ROOM_ID_LENGTH - i,
        {
            bytes[i] = match choose_byte(chars.as_slice()) {
                Some(b) => b,
                None => 95u8,
            };
            i = i + 1;
        }
        match Self::from_bytes(bytes) {
            Some(r) => r,
            None => {
                proof {
                    assert(false);
                }
                RoomId([95u8; ROOM_ID_LENGTH])
            },
        }
    }

    /// Reads a room id from text: the text must be exactly eight bytes, each
    /// from the alphabet. A wrong length is reported before a wrong byte.
    pub fn parse(value: &str) -> (r: Result<Self, TryParseRoomIdError>)
        ensures
            value.spec_bytes().len() != ROOM_ID_LENGTH ==> r == Err::<
                RoomId,
                TryParseRoomIdError,
            >(TryParseRoomIdError::BadLength),
            value.spec_bytes().len() == ROOM_ID_LENGTH && !is_room_id(value.spec_bytes()) ==> r
                == Err::<RoomId, TryParseRoomIdError>(TryParseRoomIdError::BadChar),
            is_room_id(value.spec_bytes()) ==> r is Ok && r->Ok_0@ == value.spec_bytes(),
    {
        let bytes = value.as_bytes();
        if bytes.len() != ROOM_ID_LENGTH {
            return Err(TryParseRoomIdError::BadLength);
        }
        let mut out: [u8; ROOM_ID_LENGTH] = [95u8; ROOM_ID_LENGTH];
        let mut i: usize = 0;
        while i < ROOM_ID_LENGTH
            invariant
                i <= ROOM_ID_LENGTH,
                bytes@ == value.spec_bytes(),
                bytes@.len() == ROOM_ID_LENGTH,
                out@.len() == ROOM_ID_LENGTH,
                forall|j: int| 0 <= j < i ==> is_room_id_char(#[trigger] bytes@[j]),
                forall|j: int| 0 <= j < i ==> #[trigger] out@[j] == bytes@[j],
            decreases ROOM_ID_LENGTH - i,
        {
            let b = bytes[i];
            if !((65 <= b && b <= 90) || (97 <= b && b <= 122) || (48 <= b && b <= 57) || b == 95) {
                return Err(TryParseRoomIdError::BadChar);
            }
            out[i] = b;
            i = i + 1;
        }
        let r = RoomId(out);
        assert(r@ =~= value.spec_bytes());
        Ok(r)
    }

    /// The id as text.
    pub fn as_string(&self) -> (r: String)
        ensures
            is_room_id(self@),
            r@ == Seq::new(ROOM_ID_LENGTH as nat, |i: int| self@[i] as char),
    {
        proof {
            use_type_invariant(self);
        }
        let mut v: Vec<u8> = Vec::new();
        let mut i: usize = 0;
        while i < ROOM_ID_LENGTH
            invariant
                i <= ROOM_ID_LENGTH,
                is_room_id(self@),
                v@ == self@.take(i as int),
            decreases ROOM_ID_LENGTH - i,
        {
            v.push(self.0[i]);
            i = i + 1;
            assert(v@ =~= self@.take(i as int));
        }
        assert(v@ =~= self@);
        ascii_string(v)
    }
}

} // verus!

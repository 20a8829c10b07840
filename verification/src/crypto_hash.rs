//! 32-byte hashes and their lowercase hexadecimal text.
use vstd::prelude::*;
use crate::random::fill_random;
use crate::uuid_text::hex_digit;

verus! {

/// A 32-byte hash.
#[derive(Debug, Clone, Eq, Hash)]
pub struct CryptoHash {
    hash: [u8; 32],
}

/// The value of a hexadecimal digit of either case.
pub open spec fn hex_value(c: char) -> Option<nat> {
    if '0' <= c && c <= '9' {
        Some((c as int - '0' as int) as nat)
    } else if 'a' <= c && c <= 'f' {
        Some((c as int - 'a' as int + 10) as nat)
    } else if 'A' <= c && c <= 'F' {
        Some((c as int - 'A' as int + 10) as nat)
    } else {
        None
    }
}

/// The lowercase hexadecimal text of `bytes`, two digits per byte.
pub open spec fn hex_text(bytes: Seq<u8>) -> Seq<char>
    decreases bytes.len(),
{
    if bytes.len() == 0 {
        Seq::empty()
    } else {
        let b = bytes.last();
        hex_text(bytes.drop_last()) + seq![hex_digit((b / 16) as nat), hex_digit((b % 16) as nat)]
    }
}

/// The bytes that hexadecimal text stands for: `None` unless it has an even
/// number of characters, all hexadecimal digits.
pub open spec fn hex_bytes(s: Seq<char>) -> Option<Seq<u8>> {
    if s.len() % 2 == 0 && forall|i: int| 0 <= i < s.len() ==> (#[trigger] hex_value(s[i])) is Some {
        Some(
            Seq::new(
                s.len() / 2,
                |i: int| (16 * hex_value(s[2 * i]).unwrap() + hex_value(s[2 * i + 1]).unwrap()) as u8,
            ),
        )
    } else {
        None
    }
}

/// Why text is not a hash.
#[derive(Debug, Clone, Copy, PartialEq, Eq, Structural)]
pub enum CryptoHashError {
    /// The text is not hexadecimal with an even number of digits.
    InvalidHex,
    /// The text decodes to this many bytes instead of 32.
    WrongLength(usize),
}

/// `hex::encode`: the lowercase hexadecimal text of the bytes.
#[verifier::external_body]
fn hex_encode(bytes: &[u8; 32]) -> (r: String)
    ensures
        r@ == hex_text(bytes@),
{
    hex::encode(bytes)
}

/// `hex::decode`: the bytes of hexadecimal text of either case, or its error
/// when the length is odd or a character is not a hexadecimal digit.
#[verifier::external_body]
fn hex_decode(s: &str) -> (r: Result<Vec<u8>, hex::FromHexError>)
    ensures
        match r {
            Ok(b) => hex_bytes(s@) == Some(b@),
            Err(_) => hex_bytes(s@) is None,
        },
{
    hex::decode(s)
}

#[verifier::external_type_specification]
#[verifier::external_body]
pub struct ExFromHexError(hex::FromHexError);

impl CryptoHash {
    /// The hash's bytes.
    pub closed spec fn bytes(&self) -> Seq<u8> {
        self.hash@
    }

    /// The hash with these bytes.
    pub fn new(hash: [u8; 32]) -> (r: Self)
        ensures
            r.bytes() == hash@,
    {
        CryptoHash { hash }
    }

    /// A hash of 32 random bytes from the operating system's random source;
    /// `None` when that source fails.
    pub fn random() -> (r: Option<Self>)
        ensures
            r matches Some(h) ==> h.bytes().len() == 32,
    {
        let mut bytes = [0u8; 32];
        if fill_random(&mut bytes) {
            Some(Self::new(bytes))
        } else {
            None
        }
    }

    /// The hash's bytes.
    pub fn hash(&self) -> (r: &[u8; 32])
        ensures
            r@ == self.bytes(),
    {
        &self.hash
    }

    /// The hash's bytes, in a vector.
    pub fn to_vec(&self) -> (r: Vec<u8>)
        ensures
            r@ == self.bytes(),
    {
        let mut v: Vec<u8> = Vec::new();
        let mut i: usize = 0;
        while i < 32
            invariant
                i <= 32,
                v@ == self.hash@.take(i as int),
            decreases 32 - i,
        {
            v.push(self.hash[i]);
            i = i + 1;
            assert(v@ =~= self.hash@.take(i as int));
        }
        assert(self.hash@.take(32) =~= self.hash@);
        v
    }

    /// The lowercase hexadecimal text of the hash: 64 digits.
    pub fn to_hex_string(&self) -> (r: String)
        ensures
            r@ == hex_text(self.bytes()),
    {
        hex_encode(&self.hash)
    }

    /// The hash that 64 hexadecimal digits stand for.
    pub fn from_hex_string(s: &str) -> (r: Result<Self, CryptoHashError>)
        ensures
            match hex_bytes(s@) {
                None => r == Err::<Self, CryptoHashError>(CryptoHashError::InvalidHex),
                Some(b) => if b.len() == 32 {
                    r matches Ok(h) && h.bytes() == b
                } else {
                    r == Err::<Self, CryptoHashError>(CryptoHashError::WrongLength(b.len() as usize))
                },
            },
    {
        match hex_decode(s) {
            Err(_) => Err(CryptoHashError::InvalidHex),
            Ok(decoded) => {
                if decoded.len() != 32 {
                    return Err(CryptoHashError::WrongLength(decoded.len()));
                }
                let mut arr = [0u8; 32];
                let mut i: usize = 0;
                while i < 32
                    invariant
                        i <= 32,
                        decoded@.len() == 32,
                        forall|j: int| 0 <= j < i ==> arr@[j] == decoded@[j],
                    decreases 32 - i,
                {
                    arr[i] = decoded[i];
                    i = i + 1;
                }
                assert(arr@ =~= decoded@);
                Ok(Self::new(arr))
            },
        }
    }
}

impl Default for CryptoHash {
    /// The hash of 32 zero bytes.
    fn default() -> (r: Self)
        ensures
            r.bytes() == Seq::new(32, |i: int| 0u8),
    {
        let r = Self::new([0u8; 32]);
        assert(r.bytes() =~= Seq::new(32, |i: int| 0u8));
        r
    }
}

proof fn lemma_hex_text_shape(bytes: Seq<u8>)
    ensures
        hex_text(bytes).len() == 2 * bytes.len(),
        forall|i: int| 0 <= i < bytes.len() ==> {
            &&& hex_text(bytes)[2 * i] == hex_digit((bytes[i] / 16) as nat)
            &&& hex_text(bytes)[2 * i + 1] == hex_digit((bytes[i] % 16) as nat)
        },
    decreases bytes.len(),
{
    if bytes.len() > 0 {
        let init = bytes.drop_last();
        lemma_hex_text_shape(init);
        assert forall|i: int| 0 <= i < bytes.len() implies {
            &&& hex_text(bytes)[2 * i] == hex_digit((bytes[i] / 16) as nat)
            &&& hex_text(bytes)[2 * i + 1] == hex_digit((bytes[i] % 16) as nat)
        } by {
            if i < init.len() {
                assert(bytes[i] == init[i]);
            }
        }
    }
}

proof fn lemma_hex_value_of_digit(n: nat)
    requires
        n < 16,
    ensures
        hex_value(hex_digit(n)) == Some(n),
{
}

/// Reading back the hexadecimal text of bytes gives the bytes: a hash's
/// text is read back as the hash.
pub proof fn law_hex_round_trip(bytes: Seq<u8>)
    ensures
        hex_bytes(hex_text(bytes)) == Some(bytes),
{
    lemma_hex_text_shape(bytes);
    let t = hex_text(bytes);
    assert forall|i: int| 0 <= i < t.len() implies (#[trigger] hex_value(t[i])) is Some by {
        let k = i / 2;
        assert(0 <= k < bytes.len());
        if i % 2 == 0 {
            assert(i == 2 * k);
            lemma_hex_value_of_digit((bytes[k] / 16) as nat);
        } else {
            assert(i == 2 * k + 1);
            lemma_hex_value_of_digit((bytes[k] % 16) as nat);
        }
    }
    assert forall|k: int| 0 <= k < bytes.len() implies
        (16 * hex_value(t[2 * k]).unwrap() + hex_value(t[2 * k + 1]).unwrap()) as u8 == bytes[k] by {
        lemma_hex_value_of_digit((bytes[k] / 16) as nat);
        lemma_hex_value_of_digit((bytes[k] % 16) as nat);
    }
    assert(hex_bytes(t).unwrap() =~= bytes);
}

impl PartialEq for CryptoHash {
    /// Whether the two hashes have the same bytes.
    fn eq(&self, other: &Self) -> (r: bool) {
        let mut i: usize = 0;
        while i < 32
            invariant
                i <= 32,
                forall|k: int| 0 <= k < i ==> self.hash@[k] == other.hash@[k],
            decreases 32 - i,
        {
            if self.hash[i] != other.hash[i] {
                return false;
            }
            i = i + 1;
        }
        assert(self.hash@ =~= other.hash@);
        true
    }
}

impl vstd::std_specs::cmp::PartialEqSpecImpl for CryptoHash {
    open spec fn obeys_eq_spec() -> bool {
        true
    }

    open spec fn eq_spec(&self, other: &Self) -> bool {
        self.bytes() == other.bytes()
    }
}

/// Two hashes are equal exactly when their bytes are.
pub proof fn law_hash_equality(a: CryptoHash, b: CryptoHash)
    ensures
        (a == b) <==> (a.bytes() == b.bytes()),
{
    broadcast use vstd::array::group_array_axioms;
    if a.bytes() == b.bytes() {
        assert forall|i: int| 0 <= i < 32 implies a.hash[i] == b.hash[i] by {
            assert(a.hash[i] == a.hash@[i]);
            assert(b.hash[i] == b.hash@[i]);
        }
        assert(a.hash =~= b.hash);
    }
}

} // verus!

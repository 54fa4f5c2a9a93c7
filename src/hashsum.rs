use vstd::prelude::*;
use vstd::string::StrSliceExecFns;
use vstd::string::StringExecFns;
use crate::error::Error;

verus! {

/// Width of a digest in bytes.
pub const HASH_SIZE: usize = 32;

/// The hex digit that stands for `n` (`n < 16`), in lower case.
pub open spec fn hex_digit(n: int) -> char {
    if n < 10 {
        ('0' as int + n) as char
    } else {
        ('a' as int + n - 10) as char
    }
}

/// The value of a hex digit of either case, or `None`.
pub open spec fn digit_value(c: char) -> Option<int> {
    if '0' <= c && c <= '9' {
        Some(c as int - '0' as int)
    } else if 'a' <= c && c <= 'f' {
        Some(c as int - 'a' as int + 10)
    } else if 'A' <= c && c <= 'F' {
        Some(c as int - 'A' as int + 10)
    } else {
        None
    }
}

fn digit_of(c: char) -> (r: Option<u8>)
    ensures
        r matches Some(v) ==> digit_value(c) == Some(v as int),
        r is None ==> digit_value(c) is None,
{
    if '0' <= c && c <= '9' {
        Some((c as u32 - '0' as u32) as u8)
    } else if 'a' <= c && c <= 'f' {
        Some((c as u32 - 'a' as u32 + 10) as u8)
    } else if 'A' <= c && c <= 'F' {
        Some((c as u32 - 'A' as u32 + 10) as u8)
    } else {
        None
    }
}

/// The canonical text of a byte string: two lower-case hex digits per byte,
/// high nibble first.
pub open spec fn hex_of(b: Seq<u8>) -> Seq<char> {
    Seq::new(
        2 * b.len(),
        |i: int|
            if i % 2 == 0 {
                hex_digit(b[i / 2] as int / 16)
            } else {
                hex_digit(b[i / 2] as int % 16)
            },
    )
}

/// Whether the two characters starting at `2 * k` are both hex digits.
pub open spec fn group_is_hex(s: Seq<char>, k: int) -> bool {
    digit_value(s[2 * k]) is Some && digit_value(s[2 * k + 1]) is Some
}

/// Whether every complete two-character group of `s` is made of hex digits.
pub open spec fn groups_are_hex(s: Seq<char>) -> bool {
    forall|k: int| 0 <= k < s.len() / 2 ==> #[trigger] group_is_hex(s, k)
}

/// The bytes that the complete groups of a hex text stand for.
pub open spec fn bytes_of_hex(s: Seq<char>) -> Seq<u8> {
    Seq::new(
        (s.len() / 2) as nat,
        |k: int|
            (digit_value(s[2 * k])->Some_0 * 16 + digit_value(s[2 * k + 1])->Some_0) as u8,
    )
}

/// The all-zero digest, which stands for "no sync recorded".
pub open spec fn zero_digest() -> Seq<u8> {
    Seq::new(32, |i: int| 0u8)
}

/// A fixed-width content digest: 32 bytes, compared byte for byte.
#[derive(Clone, Copy, Debug)]
pub struct HashSum([u8; 32]);

impl View for HashSum {
    type V = Seq<u8>;

    closed spec fn view(&self) -> Seq<u8> {
        self.0@
    }
}

impl PartialEq for HashSum {
    fn eq(&self, other: &HashSum) -> (r: bool) {
        let mut i: usize = 0;
        while i < HASH_SIZE
            invariant
                0 <= i <= HASH_SIZE,
                self@.len() == HASH_SIZE,
                other@.len() == HASH_SIZE,
                forall|j: int| 0 <= j < i ==> self@[j] == other@[j],
            decreases HASH_SIZE - i,
        {
            if self.0[i] != other.0[i] {
                return false;
            }
            i = i + 1;
        }
        proof {
            assert(self@ =~= other@);
        }
        true
    }
}

impl vstd::std_specs::cmp::PartialEqSpecImpl for HashSum {
    open spec fn obeys_eq_spec() -> bool {
        true
    }

    open spec fn eq_spec(&self, other: &HashSum) -> bool {
        self@ == other@
    }
}

impl Eq for HashSum {
}

impl Default for HashSum {
    fn default() -> (r: HashSum)
        ensures
            r@ == zero_digest(),
    {
        let r = HashSum([0u8; 32]);
        proof {
            assert(r@ =~= zero_digest());
        }
        r
    }
}

impl HashSum {
    /// Every digest is exactly `HASH_SIZE` bytes wide.
    pub proof fn lemma_width(&self)
        ensures
            self@.len() == HASH_SIZE,
    {
    }

    /// A digest made of `bytes`, which must be exactly `HASH_SIZE` long.
    pub fn from_bytes(bytes: &[u8]) -> (r: Result<HashSum, Error>)
        ensures
            bytes@.len() == HASH_SIZE ==> (r matches Ok(h) && h@ == bytes@),
            bytes@.len() != HASH_SIZE ==> r matches Err(Error::BadHashSize),
    {
        if bytes.len() != HASH_SIZE {
            return Err(Error::BadHashSize);
        }
        let mut a = [0u8; 32];
        let mut i: usize = 0;
        while i < HASH_SIZE
            invariant
                0 <= i <= HASH_SIZE,
                bytes@.len() == HASH_SIZE,
                a@.len() == HASH_SIZE,
                forall|j: int| 0 <= j < i ==> a@[j] == bytes@[j],
            decreases HASH_SIZE - i,
        {
            a[i] = bytes[i];
            i = i + 1;
        }
        let h = HashSum(a);
        proof {
            assert(h@ =~= bytes@);
        }
        Ok(h)
    }

    /// Reads a digest from its hex text (either case). Fails with
    /// `InvalidHex` when a complete two-character group is not hex, and
    /// otherwise with `BadHashSize` when the text is not `2 * HASH_SIZE`
    /// characters long.
    pub fn from_str(data: &str) -> (r: Result<HashSum, Error>)
        ensures
            groups_are_hex(data@) && data@.len() == 2 * HASH_SIZE ==> (r matches Ok(h)
                && h@ == bytes_of_hex(data@)),
            groups_are_hex(data@) && data@.len() != 2 * HASH_SIZE ==> r matches Err(
                Error::BadHashSize,
            ),
            !groups_are_hex(data@) <==> r matches Err(Error::InvalidHex(_)),
            r matches Err(Error::InvalidHex(g)) ==> exists|k: int|
                0 <= k < data@.len() / 2 && !group_is_hex(data@, k) && g@ == data@.subrange(
                    2 * k,
                    2 * k + 2,
                ),
    {
        let n = data.unicode_len();
        let mut bytes: Vec<u8> = Vec::new();
        let mut k: usize = 0;
        while k < n / 2
            invariant
                n == data@.len(),
                0 <= k <= n / 2,
                bytes@.len() == k,
                forall|j: int| 0 <= j < k ==> #[trigger] group_is_hex(data@, j),
                forall|j: int|
                    0 <= j < k ==> bytes@[j] == #[trigger] bytes_of_hex(data@)[j],
            decreases n / 2 - k,
        {
            let hi = digit_of(data.get_char(2 * k));
            let lo = digit_of(data.get_char(2 * k + 1));
            match (hi, lo) {
                (Some(h), Some(l)) => {
                    bytes.push(h * 16 + l);
                    proof {
                        assert(group_is_hex(data@, k as int));
                        assert(bytes@[k as int] == bytes_of_hex(data@)[k as int]);
                    }
                },
                _ => {
                    proof {
                        assert(!group_is_hex(data@, k as int));
                    }
                    let g = data.substring_char(2 * k, 2 * k + 2);
                    return Err(Error::InvalidHex(String::from_str(g)));
                },
            }
            k = k + 1;
        }
        if n != 2 * HASH_SIZE {
            return Err(Error::BadHashSize);
        }
        proof {
            assert(bytes@ =~= bytes_of_hex(data@));
        }
        HashSum::from_bytes(bytes.as_slice())
    }

    /// The canonical lower-case hex text of the digest.
    pub fn to_hex(&self) -> (r: String)
        ensures
            r@ == hex_of(self@),
    {
        let digits = "0123456789abcdef";
        proof {
            reveal_strlit("0123456789abcdef");
            assert forall|n: int| 0 <= n < 16 implies digits@[n] == hex_digit(n) by {
            }
        }
        let mut r = String::new();
        let mut i: usize = 0;
        while i < HASH_SIZE
            invariant
                0 <= i <= HASH_SIZE,
                self@.len() == HASH_SIZE,
                digits@.len() == 16,
                forall|n: int| 0 <= n < 16 ==> digits@[n] == hex_digit(n),
                r@ =~= hex_of(self@.subrange(0, i as int)),
            decreases HASH_SIZE - i,
        {
            let b = self.0[i];
            let hi = (b / 16) as usize;
            let lo = (b % 16) as usize;
            r.append(digits.substring_char(hi, hi + 1));
            r.append(digits.substring_char(lo, lo + 1));
            i = i + 1;
            proof {
                assert(r@ =~= hex_of(self@.subrange(0, i as int)));
            }
        }
        proof {
            assert(self@.subrange(0, HASH_SIZE as int) =~= self@);
        }
        r
    }
}

impl std::str::FromStr for HashSum {
    type Err = Error;

    fn from_str(data: &str) -> Result<HashSum, Error> {
        HashSum::from_str(data)
    }
}

/// Reading the canonical text of a digest gives the digest back.
pub proof fn lemma_hex_round_trip(d: HashSum)
    ensures
        groups_are_hex(hex_of(d@)),
        hex_of(d@).len() == 2 * HASH_SIZE,
        bytes_of_hex(hex_of(d@)) == d@,
{
    let s = hex_of(d@);
    assert forall|k: int| 0 <= k < s.len() / 2 implies #[trigger] group_is_hex(s, k) by {
        assert(s[2 * k] == hex_digit(d@[k] as int / 16));
        assert(s[2 * k + 1] == hex_digit(d@[k] as int % 16));
    }
    assert forall|k: int| 0 <= k < d@.len() implies #[trigger] bytes_of_hex(s)[k] == d@[k] by {
        assert(s[2 * k] == hex_digit(d@[k] as int / 16));
        assert(s[2 * k + 1] == hex_digit(d@[k] as int % 16));
    }
    assert(bytes_of_hex(s) =~= d@);
}

} // verus!

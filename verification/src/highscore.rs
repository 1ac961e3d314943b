//! The tamper-evident high-score record: a value, a random salt, and a
//! digest of salt-then-value. A record whose digest does not match degrades
//! to a zero score instead of trusting the stored value.

use vstd::prelude::*;
use vstd::string::StringExecFns;
use std::collections::hash_map::DefaultHasher;
use std::hash::{Hash, Hasher};
use crate::numfmt::{dec_chars, digit_char, hex_chars, u64_to_dec, u64_to_hex};
use crate::rng::random_below;

verus! {

/// What hashing a string yields here: a fixed function of its characters
/// alone.
pub uninterp spec fn hash64_of(s: Seq<char>) -> u64;

/// Relies on std's DefaultHasher — SipHash-1-3 whose every instance made by
/// `new` is documented to be the same — together with `String::hash` and
/// `Hasher::finish`: the finished value depends on the string's characters
/// alone.
#[verifier::external_body]
fn hash_u64(msg: &String) -> (r: u64)
    ensures
        r == hash64_of(msg@),
{
    let mut hasher = DefaultHasher::new();
    msg.hash(&mut hasher);
    hasher.finish()
}

/// The digest a record stores: the hexadecimal rendering of the hash of the
/// salt followed by the decimal rendering of the value.
pub open spec fn record_hash(salt: Seq<char>, value: u64) -> Seq<char> {
    hex_chars(hash64_of(salt + dec_chars(value as int)) as int)
}

/// A salt as produced here: twenty decimal digit characters.
pub open spec fn salt_digits(s: Seq<char>) -> bool {
    s.len() == 20 && forall|i: int| 0 <= i < s.len() ==> '0' <= #[trigger] s[i] <= '9'
}

/// The saved high-score record.
pub struct SaveData {
    high_score: u64,
    high_score_salt: String,
    high_score_hash: String,
}

impl SaveData {
    /// The stored score value.
    pub closed spec fn spec_value(self) -> u64 {
        self.high_score
    }

    /// The stored salt.
    pub closed spec fn spec_salt(self) -> Seq<char> {
        self.high_score_salt@
    }

    /// The stored digest.
    pub closed spec fn spec_hash(self) -> Seq<char> {
        self.high_score_hash@
    }

    /// A record that verifies: its digest matches its salt and value.
    pub open spec fn valid(self) -> bool {
        self.spec_hash() == record_hash(self.spec_salt(), self.spec_value())
    }

    /// Twenty random decimal digits, the salt of a fresh record.
    fn get_random_hash() -> (r: String)
        ensures
            salt_digits(r@),
    {
        let mut ret = String::new();
        let mut i: usize = 0;
        while i < 20
            invariant
                i <= 20,
                ret@.len() == i,
                forall|j: int| 0 <= j < i ==> '0' <= #[trigger] ret@[j] <= '9',
            decreases 20 - i,
        {
            let digit = random_below(10);
            append_salt_digit(&mut ret, digit);
            i = i + 1;
        }
        ret
    }

    /// The digest of a message: the hexadecimal rendering of its hash.
    pub fn get_hash(msg: &String) -> (r: String)
        ensures
            r@ == hex_chars(hash64_of(msg@) as int),
    {
        let num = hash_u64(msg);
        u64_to_hex(num)
    }

    /// Builds a record for a value: a fresh random salt and the matching
    /// digest, so the record verifies.
    pub fn from_value(high_score: u64) -> (r: Self)
        ensures
            r.spec_value() == high_score,
            salt_digits(r.spec_salt()),
            r.valid(),
    {
        let high_score_str = u64_to_dec(high_score);
        let salt = Self::get_random_hash();
        let salt_and_hs = salt.clone().concat(high_score_str.as_str());
        let hash = Self::get_hash(&salt_and_hs);
        Self { high_score, high_score_salt: salt, high_score_hash: hash }
    }

    /// A record reassembled from stored fields, as read back from disk.
    pub fn from_parts(high_score: u64, high_score_salt: String, high_score_hash: String) -> (r:
        Self)
        ensures
            r.spec_value() == high_score,
            r.spec_salt() == high_score_salt@,
            r.spec_hash() == high_score_hash@,
    {
        Self { high_score, high_score_salt, high_score_hash }
    }

    /// The stored value if the record verifies, zero otherwise: a record
    /// altered out of band yields no score rather than a forged one.
    pub fn assert_hs(&self) -> (r: u64)
        ensures
            r == if self.valid() {
                self.spec_value()
            } else {
                0u64
            },
    {
        let high_score_str = u64_to_dec(self.high_score);
        let salt_and_hs = self.high_score_salt.clone().concat(high_score_str.as_str());
        let test_hash = Self::get_hash(&salt_and_hs);

        if self.high_score_hash == test_hash {
            self.high_score
        } else {
            0
        }
    }

    /// The stored value, unverified; persistence serializes it.
    pub fn value(&self) -> (r: u64)
        ensures
            r == self.spec_value(),
    {
        self.high_score
    }

    /// The stored salt; persistence serializes it.
    pub fn salt(&self) -> (r: &String)
        ensures
            r@ == self.spec_salt(),
    {
        &self.high_score_salt
    }

    /// The stored digest; persistence serializes it.
    pub fn hash(&self) -> (r: &String)
        ensures
            r@ == self.spec_hash(),
    {
        &self.high_score_hash
    }
}

impl Default for SaveData {
    /// A fresh record for a zero score.
    fn default() -> (r: Self)
        ensures
            r.spec_value() == 0,
            r.valid(),
    {
        SaveData::from_value(0)
    }
}

/// Appends one decimal digit character to a salt under construction.
fn append_salt_digit(s: &mut String, d: u8)
    requires
        d < 10,
    ensures
        final(s)@ == old(s)@.push(digit_char(d as int)),
        final(s)@.len() == old(s)@.len() + 1,
        '0' <= final(s)@[old(s)@.len() as int] <= '9',
{
    let c: &str = match d {
        0 => "0",
        1 => "1",
        2 => "2",
        3 => "3",
        4 => "4",
        5 => "5",
        6 => "6",
        7 => "7",
        8 => "8",
        _ => "9",
    };
    proof {
        reveal_strlit("0");
        reveal_strlit("1");
        reveal_strlit("2");
        reveal_strlit("3");
        reveal_strlit("4");
        reveal_strlit("5");
        reveal_strlit("6");
        reveal_strlit("7");
        reveal_strlit("8");
        reveal_strlit("9");
        assert(c@ =~= seq![digit_char(d as int)]);
    }
    s.append(c);
    proof {
        assert(s@ =~= old(s)@.push(digit_char(d as int)));
    }
}

/// Law: a record whose digest differs anywhere from the digest of its own
/// salt and value does not verify, so the check yields zero, never the
/// stored value.
pub proof fn lemma_tamper_detected(d: SaveData)
    requires
        d.spec_hash() != record_hash(d.spec_salt(), d.spec_value()),
    ensures
        !d.valid(),
{
}

} // verus!

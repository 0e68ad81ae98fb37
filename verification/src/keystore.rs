//! The database key and where it is kept.

use vstd::prelude::*;
use crate::text::{append_chars, chars_of, dec_seq, decimal, hex_byte_seq, hex_seq, string_from_chars};

verus! {

broadcast use vstd::string::group_string_axioms;

/// A 32-byte database key.
pub struct SecretKey(pub [u8; 32]);

impl SecretKey {
    /// The key as 64 lowercase hex digits, two per byte, for the database's
    /// `PRAGMA key`.
    pub fn as_hex(&self) -> (r: String)
        ensures
            r@ == hex_seq(self.0@),
            r@.len() == 64,
    {
        let mut out: Vec<char> = Vec::new();
        let mut i: usize = 0;
        while i < 32
            invariant
                0 <= i <= 32,
                self.0@.len() == 32,
                out@ == hex_seq(self.0@.take(i as int)),
                out@.len() == 2 * i,
            decreases 32 - i,
        {
            let b = self.0[i];
            let one = crate::text::hex_lower(&[b]);
            proof {
                assert(seq![b].drop_last() =~= Seq::<u8>::empty());
                assert(hex_seq(Seq::<u8>::empty()) =~= Seq::<char>::empty());
                assert([b]@ =~= seq![b]);
                assert(hex_seq(seq![b]) =~= hex_byte_seq(b));
                assert(self.0@.take(i + 1).drop_last() =~= self.0@.take(i as int));
            }
            append_chars(&mut out, &one);
            i = i + 1;
        }
        assert(self.0@.take(32) =~= self.0@);
        string_from_chars(&out)
    }
}

/// Where the database key is kept.
pub trait Keystore: Send + Sync {
    /// The key stored under `service`, created and stored first when there
    /// is none.
    fn get_or_create_db_key(&self, service: &str) -> Result<SecretKey, String>;
}

/// The keystore of a platform that has none.
pub struct StubKeystore;

impl Keystore for StubKeystore {
    /// Always refuses: this platform keeps no key.
    fn get_or_create_db_key(&self, service: &str) -> (r: Result<SecretKey, String>)
        ensures
            r matches Err(e) && e@ == "Keystore not implemented for this platform"@,
    {
        Err("Keystore not implemented for this platform".to_string())
    }
}

/// The error for a stored key of the wrong length.
pub open spec fn wrong_length_error(len: nat) -> Seq<char> {
    "keychain key has wrong length: "@ + dec_seq(len)
}

/// The key held in bytes read from a keystore: exactly 32 bytes make a key,
/// any other length is refused.
pub fn key_from_stored(data: &[u8]) -> (r: Result<SecretKey, String>)
    ensures
        r is Ok <==> data@.len() == 32,
        r matches Ok(k) ==> k.0@ == data@,
        r matches Err(e) ==> e@ == wrong_length_error(data@.len()),
{
    if data.len() != 32 {
        let mut m = chars_of("keychain key has wrong length: ");
        append_chars(&mut m, &decimal(data.len() as u64));
        return Err(string_from_chars(&m));
    }
    let mut key = [0u8; 32];
    let mut i: usize = 0;
    while i < 32
        invariant
            0 <= i <= 32,
            data@.len() == 32,
            key@.len() == 32,
            forall|j: int| 0 <= j < i ==> key@[j] == data@[j],
        decreases 32 - i,
    {
        key[i] = data[i];
        i = i + 1;
    }
    assert(key@ =~= data@);
    Ok(SecretKey(key))
}

} // verus!

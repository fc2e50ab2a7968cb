//! Public keys: raw bytes in the tables, and text where they are shown. The
//! text is the name of the signature scheme, a colon, and the key in base
//! 58.

use vstd::prelude::*;
use vstd::slice::slice_subrange;
use vstd::string::*;

use crate::error::Error;

verus! {

/// Whether two keys hold the same bytes.
pub fn same_key(a: &Vec<u8>, b: &Vec<u8>) -> (same: bool)
    ensures
        same == (a@ == b@),
{
    if a.len() != b.len() {
        return false;
    }
    let mut i: usize = 0;
    while i < a.len()
        invariant
            i <= a.len(),
            a.len() == b.len(),
            forall|j: int| 0 <= j < i ==> a[j] == b[j],
        decreases a.len() - i,
    {
        if a[i] != b[i] {
            return false;
        }
        i += 1;
    }
    assert(a@ =~= b@);
    true
}

/// The views of a list of keys, in the same order.
pub open spec fn keys_view(keys: Seq<Vec<u8>>) -> Seq<Seq<u8>> {
    keys.map_values(|k: Vec<u8>| k@)
}

/// The base-58 text of `bytes` in the Bitcoin alphabet, as the `bs58` crate
/// writes it.
pub uninterp spec fn base58(bytes: Seq<u8>) -> Seq<char>;

/// Encodes `bytes` with `bs58::encode(..).into_string()`: the default
/// alphabet, no checksum.
///
/// Taken on trust: the encoder returns for every input, since it writes
/// into a string that grows as needed, and its text depends on the bytes
/// alone, so it can go by the name [`base58`]. What the text is, is not
/// stated.
#[verifier::external_body]
fn base58_encode(bytes: &[u8]) -> (text: String)
    ensures
        text@ == base58(bytes@),
{
    bs58::encode(bytes).into_string()
}

/// The text that opens the printed form of a key whose first byte is `tag`.
pub open spec fn scheme_prefix(tag: u8) -> Option<Seq<char>> {
    if tag == 0 {
        Some("scheme0:"@)
    } else if tag == 1 {
        Some("scheme1:"@)
    } else {
        None
    }
}

/// The printed form of a key with first byte `tag` whose remaining bytes
/// read `body` in base 58.
pub open spec fn tagged_text(tag: u8, body: Seq<char>) -> Result<Seq<char>, Error> {
    match scheme_prefix(tag) {
        Some(prefix) => Ok(prefix + body),
        None => Err(Error::UnknownKeyScheme),
    }
}

/// The printed form of the raw key `pk`.
pub open spec fn decoded_pk(pk: Seq<u8>) -> Result<Seq<char>, Error> {
    if pk.len() == 0 {
        Err(Error::UnknownKeyScheme)
    } else {
        tagged_text(pk[0], base58(pk.skip(1)))
    }
}

/// A key made of the byte `tag` and the bytes `body` prints as the name of
/// the scheme that `tag` picks, a colon, and `body` in base 58: `scheme0`
/// for 0 and `scheme1` for 1. No other tag names a scheme.
pub proof fn lemma_decoded_pk_by_tag(tag: u8, body: Seq<u8>)
    ensures
        tag == 0 ==> decoded_pk(seq![tag] + body) == Ok::<Seq<char>, Error>(
            "scheme0:"@ + base58(body),
        ),
        tag == 1 ==> decoded_pk(seq![tag] + body) == Ok::<Seq<char>, Error>(
            "scheme1:"@ + base58(body),
        ),
        tag > 1 ==> decoded_pk(seq![tag] + body) == Err::<Seq<char>, Error>(
            Error::UnknownKeyScheme,
        ),
{
    assert((seq![tag] + body).skip(1) =~= body);
}

/// Puts the scheme's name in front of a key body that is already in base 58.
pub fn tag_key_text(tag: u8, body: &str) -> (r: Result<String, Error>)
    ensures
        match r {
            Ok(text) => tagged_text(tag, body@) == Ok::<Seq<char>, Error>(text@),
            Err(e) => tagged_text(tag, body@) == Err::<Seq<char>, Error>(e),
        },
{
    if tag == 0 {
        Ok(String::from_str("scheme0:").concat(body))
    } else if tag == 1 {
        Ok(String::from_str("scheme1:").concat(body))
    } else {
        Err(Error::UnknownKeyScheme)
    }
}

/// Prints a raw public key: the first byte picks the scheme, the rest is
/// written in base 58 behind the scheme's name.
pub fn get_decoded_pk(pk: &[u8]) -> (r: Result<String, Error>)
    ensures
        match r {
            Ok(text) => decoded_pk(pk@) == Ok::<Seq<char>, Error>(text@),
            Err(e) => decoded_pk(pk@) == Err::<Seq<char>, Error>(e),
        },
{
    if pk.len() == 0 {
        return Err(Error::UnknownKeyScheme);
    }
    let tag: u8 = pk[0];
    if tag > 1 {
        return Err(Error::UnknownKeyScheme);
    }
    let body = base58_encode(slice_subrange(pk, 1, pk.len()));
    tag_key_text(tag, body.as_str())
}

} // verus!

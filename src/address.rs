//! Addresses of output scripts, derived through the bitcoin crate.
use vstd::prelude::*;

verus! {

/// The mainnet address that a standard output script pays to, as text bytes.
pub uninterp spec fn standard_address_of(script: Seq<u8>) -> Option<Seq<u8>>;

/// The mainnet pay-to-pubkey-hash address of the key in a pay-to-pubkey script, as text bytes.
pub uninterp spec fn p2pk_address_of(script: Seq<u8>) -> Option<Seq<u8>>;

pub open spec fn bytes_opt(o: Option<Vec<u8>>) -> Option<Seq<u8>> {
    match o {
        Some(v) => Some(v@),
        None => None,
    }
}

/// The address recorded for an output: the standard address if the script has one,
/// else the one of its public key if it pays to a key, else empty.
pub open spec fn address_of(script: Seq<u8>) -> Seq<u8> {
    match standard_address_of(script) {
        Some(a) => a,
        None => match p2pk_address_of(script) {
            Some(a) => a,
            None => Seq::empty(),
        },
    }
}

/// Relies on bitcoin::Address::from_script (mainnet): the address of a standard
/// output script, if it is one.
#[verifier::external_body]
fn standard_address(script: &Vec<u8>) -> (r: Option<Vec<u8>>)
    ensures
        bytes_opt(r) == standard_address_of(script@),
{
    let s = bitcoin::ScriptBuf::from_bytes(script.clone());
    match bitcoin::Address::from_script(s.as_script(), bitcoin::Network::Bitcoin) {
        Ok(address) => Some(address.to_string().into_bytes()),
        Err(_) => None,
    }
}

/// Relies on bitcoin::Script::p2pk_public_key, which finds a key only in a script
/// of 35 or 67 bytes, and on bitcoin::Address::p2pkh (mainnet) of that key's hash.
#[verifier::external_body]
fn p2pk_address(script: &Vec<u8>) -> (r: Option<Vec<u8>>)
    ensures
        bytes_opt(r) == p2pk_address_of(script@),
        r is Some ==> script@.len() == 35 || script@.len() == 67,
{
    let s = bitcoin::ScriptBuf::from_bytes(script.clone());
    match s.p2pk_public_key() {
        Some(pk) => Some(
            bitcoin::Address::p2pkh(pk.pubkey_hash(), bitcoin::Network::Bitcoin).to_string().into_bytes(),
        ),
        None => None,
    }
}

/// Derives the address of an output script; never fails, an underivable one is empty.
pub fn derive_address(script: &Vec<u8>) -> (r: Vec<u8>)
    ensures
        r@ == address_of(script@),
{
    match standard_address(script) {
        Some(a) => a,
        None => match p2pk_address(script) {
            Some(a) => a,
            None => Vec::new(),
        },
    }
}

} // verus!

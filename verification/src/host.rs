//! The ledger host and the signature scheme, as the contracts see them.
//!
//! Everything that is taken on trust stands in this module: the types of
//! `soroban_sdk` that the contracts hold, names for what a value of such a type
//! contains, and the calls into `soroban_sdk` and `ed25519_dalek` with what is
//! claimed of them. A host object is read only through the environment that it
//! was made in, so objects of different environments may be passed side by
//! side. The claims leave out the host's metering: a call that runs out of
//! budget aborts the transaction.

use soroban_sdk::{Address, Bytes, BytesN, ConversionError, Env, Symbol};
use vstd::prelude::*;

verus! {

/// The environment of a contract call: a handle to the host.
#[verifier::external_type_specification]
#[verifier::external_body]
pub struct EnvDeclaration(Env);

/// A growable array of bytes that lives in the host.
#[verifier::external_type_specification]
#[verifier::external_body]
pub struct BytesDeclaration(Bytes);

/// An array of `N` bytes that lives in the host.
#[verifier::external_type_specification]
#[verifier::external_body]
pub struct BytesNDeclaration<const N: usize>(BytesN<N>);

/// A list that lives in the host.
#[verifier::external_type_specification]
#[verifier::external_body]
#[verifier::reject_recursive_types(T)]
pub struct VecDeclaration<T>(soroban_sdk::Vec<T>);

/// A short string over letters, digits and the underscore.
#[verifier::external_type_specification]
#[verifier::external_body]
pub struct SymbolDeclaration(Symbol);

/// The address of an account or a contract.
#[verifier::external_type_specification]
#[verifier::external_body]
pub struct AddressDeclaration(Address);

/// Why a host value could not be read at the type that was asked for.
#[verifier::external_type_specification]
#[verifier::external_body]
pub struct ConversionErrorDeclaration(ConversionError);

/// What `b` holds.
pub uninterp spec fn bytes_contents(b: Bytes) -> Seq<u8>;

/// The 32 bytes of the public key `k`.
pub uninterp spec fn key_contents(k: BytesN<32>) -> Seq<u8>;

/// The 64 bytes of the signature `s`.
pub uninterp spec fn signature_contents(s: BytesN<64>) -> Seq<u8>;

/// What `keys` holds: at each position the bytes of the public key, or `None`
/// where the host value at that position is no array of 32 bytes.
pub uninterp spec fn key_slots(keys: soroban_sdk::Vec<BytesN<32>>) -> Seq<Option<Seq<u8>>>;

/// The characters of `s`.
pub uninterp spec fn symbol_text(s: Symbol) -> Seq<char>;

/// Strict Ed25519 verification: `key` is the encoding of a curve point, and
/// `signature` is its signature of `message`, with no point of small order.
pub uninterp spec fn ed25519_accepts(key: Seq<u8>, message: Seq<u8>, signature: Seq<u8>) -> bool;

/// `text` can be held by a symbol.
pub open spec fn is_symbol_text(text: Seq<char>) -> bool {
    &&& text.len() <= 32
    &&& forall|i: int|
        0 <= i < text.len() ==> {
            ||| 'a' <= #[trigger] text[i] <= 'z'
            ||| 'A' <= text[i] <= 'Z'
            ||| '0' <= text[i] <= '9'
            ||| text[i] == '_'
        }
}

/// `Address::clone` copies the handle: the copy is the same address.
pub assume_specification[ <Address as Clone>::clone ](address: &Address) -> (r: Address)
    ensures
        r == *address,
;

/// `BytesN::clone` copies the handle: the copy is the same array.
pub assume_specification<const N: usize>[ <BytesN<N> as Clone>::clone ](bytes: &BytesN<N>) -> (r:
    BytesN<N>)
    ensures
        r == *bytes,
;

/// Calls `Bytes::new`, which makes an empty array.
#[verifier::external_body]
pub(crate) fn bytes_new(env: &Env) -> (r: Bytes)
    ensures
        bytes_contents(r) == Seq::<u8>::empty(),
{
    Bytes::new(env)
}

/// Calls `Bytes::len`, which counts the bytes.
#[verifier::external_body]
pub(crate) fn bytes_len(b: &Bytes) -> (r: u32)
    ensures
        r == bytes_contents(*b).len(),
{
    b.len()
}

/// Calls `Bytes::extend_from_slice`, which puts `slice` behind what is there.
/// The host refuses more than `u32::MAX` bytes.
#[verifier::external_body]
pub(crate) fn bytes_extend_from_slice(b: &mut Bytes, slice: &[u8])
    requires
        bytes_contents(*old(b)).len() + slice@.len() <= u32::MAX,
    ensures
        bytes_contents(*final(b)) == bytes_contents(*old(b)) + slice@,
{
    b.extend_from_slice(slice)
}

/// Calls `Bytes::copy_into_slice` on a buffer of the right length, which copies
/// the bytes out of the host.
#[verifier::external_body]
pub(crate) fn bytes_to_vec(b: &Bytes) -> (r: Vec<u8>)
    ensures
        r@ == bytes_contents(*b),
{
    let mut out = vec![0u8; b.len() as usize];
    b.copy_into_slice(&mut out);
    out
}

/// Calls `BytesN::<32>::to_array`, which copies a public key out of the host.
#[verifier::external_body]
pub(crate) fn key_to_array(k: &BytesN<32>) -> (r: [u8; 32])
    ensures
        r@ == key_contents(*k),
{
    k.to_array()
}

/// Calls `BytesN::<64>::to_array`, which copies a signature out of the host.
#[verifier::external_body]
pub(crate) fn signature_to_array(s: &BytesN<64>) -> (r: [u8; 64])
    ensures
        r@ == signature_contents(*s),
{
    s.to_array()
}

/// Calls `Vec::len`, which counts the positions.
#[verifier::external_body]
pub(crate) fn keys_len(keys: &soroban_sdk::Vec<BytesN<32>>) -> (r: u32)
    ensures
        r == key_slots(*keys).len(),
{
    keys.len()
}

/// Calls `Vec::get`, which reads the 32 bytes of the key at a position and gives
/// `None` past the end. It panics on a value that is no public key.
#[verifier::external_body]
pub(crate) fn keys_get(keys: &soroban_sdk::Vec<BytesN<32>>, i: u32) -> (r: Option<BytesN<32>>)
    requires
        i < key_slots(*keys).len() ==> key_slots(*keys)[i as int] is Some,
    ensures
        r is Some <==> i < key_slots(*keys).len(),
        r matches Some(k) ==> key_slots(*keys)[i as int] == Some(key_contents(k)),
        r matches Some(k) ==> key_contents(k).len() == 32,
{
    keys.get(i)
}

/// Calls `Vec::try_get`, which reads the 32 bytes of the key at a position, gives
/// `None` past the end and an error for a value that is no public key.
#[verifier::external_body]
pub(crate) fn keys_try_get(keys: &soroban_sdk::Vec<BytesN<32>>, i: u32) -> (r: Result<
    Option<BytesN<32>>,
    ConversionError,
>)
    ensures
        match r {
            Ok(Some(k)) => {
                &&& i < key_slots(*keys).len()
                &&& key_slots(*keys)[i as int] == Some(key_contents(k))
                &&& key_contents(k).len() == 32
            },
            Ok(None) => i >= key_slots(*keys).len(),
            Err(_) => i < key_slots(*keys).len() && key_slots(*keys)[i as int] is None,
        },
{
    keys.try_get(i)
}

/// Calls `Symbol::new`, which makes the symbol with the given characters. It
/// panics on a text that no symbol can hold.
#[verifier::external_body]
pub(crate) fn symbol_new(env: &Env, text: &str) -> (r: Symbol)
    requires
        is_symbol_text(text@),
    ensures
        symbol_text(r) == text@,
{
    Symbol::new(env, text)
}

/// Calls `Ledger::sequence`, which reads the number of the current ledger. The
/// number is the host's to choose, so nothing is claimed of it.
#[verifier::external_body]
pub(crate) fn ledger_sequence(env: &Env) -> u32 {
    env.ledger().sequence()
}

/// Calls `VerifyingKey::from_bytes` and `VerifyingKey::verify_strict` of
/// `ed25519_dalek`. Their outcome depends on the three byte strings alone; a key
/// that does not decode accepts nothing.
#[verifier::external_body]
pub(crate) fn ed25519_verify_strict(key: &[u8; 32], message: &[u8], signature: &[u8; 64]) -> (r:
    bool)
    ensures
        r == ed25519_accepts(key@, message@, signature@),
{
    match ed25519_dalek::VerifyingKey::from_bytes(key) {
        Ok(vk) => vk.verify_strict(message, &ed25519_dalek::Signature::from_bytes(signature)).is_ok(),
        Err(_) => false,
    }
}

/// Calls `Crypto::ed25519_verify`, which returns if the signature is valid and
/// traps otherwise. The host decides by strict verification.
#[verifier::external_body]
pub(crate) fn ed25519_verify(env: &Env, key: &[u8; 32], message: &[u8], signature: &[u8; 64])
    requires
        message@.len() <= u32::MAX,
        ed25519_accepts(key@, message@, signature@),
{
    env.crypto().ed25519_verify(
        &BytesN::from_array(env, key),
        &Bytes::from_slice(env, message),
        &BytesN::from_array(env, signature),
    )
}

} // verus!

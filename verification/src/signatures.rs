//! Ed25519 signatures of multi-party receipts.
//!
//! A multi-party payment is authorised by several Ed25519 keys. All of them
//! commit to one canonical message; a bitmap records who was to sign, and one
//! aggregate signature is verified for the whole set. The message binds, in
//! order, the domain of the verifying contract, the receipt payload, the number
//! of signers, each signer's public key, and the bitmap.

use crate::error::Error;
use crate::host;
use soroban_sdk::{Bytes, BytesN, Env};
use vstd::prelude::*;

verus! {

/// The most participants of a multi-party receipt, one for each bit of a mask.
pub const MAX_SIGNERS: u32 = 32;

/// The big-endian encoding of `x`.
pub open spec fn be_bytes(x: u32) -> Seq<u8> {
    seq![
        (x / 0x100_0000) as u8,
        (x / 0x1_0000 % 0x100) as u8,
        (x / 0x100 % 0x100) as u8,
        (x % 0x100) as u8,
    ]
}

/// `data` behind its length.
pub open spec fn framed(data: Seq<u8>) -> Seq<u8> {
    be_bytes(data.len() as u32) + data
}

/// The parts one after another.
pub open spec fn concatenation(parts: Seq<Seq<u8>>) -> Seq<u8>
    decreases parts.len(),
{
    if parts.len() == 0 {
        Seq::empty()
    } else {
        concatenation(parts.drop_last()) + parts.last()
    }
}

/// The bytes that all participants sign.
pub open spec fn canonical_bytes(
    domain: Seq<u8>,
    payload: Seq<u8>,
    keys: Seq<Seq<u8>>,
    mask: u32,
) -> Seq<u8> {
    framed(domain) + framed(payload) + (be_bytes(keys.len() as u32) + concatenation(keys))
        + be_bytes(mask)
}

/// Each of `keys` has the length of a public key.
pub open spec fn are_keys(keys: Seq<Seq<u8>>) -> bool {
    forall|i: int| 0 <= i < keys.len() ==> (#[trigger] keys[i]).len() == 32
}

/// The length of the canonical message.
pub open spec fn canonical_len(domain: Seq<u8>, payload: Seq<u8>, signers: nat) -> nat {
    16 + domain.len() + payload.len() + 32 * signers
}

/// The public keys that `signer_pubkeys` holds.
pub open spec fn keys_of(signer_pubkeys: soroban_sdk::Vec<BytesN<32>>) -> Seq<Seq<u8>> {
    host::key_slots(signer_pubkeys).map_values(|slot: Option<Seq<u8>>| slot->0)
}

/// Every position of `signer_pubkeys` holds a public key.
pub open spec fn keys_readable(signer_pubkeys: soroban_sdk::Vec<BytesN<32>>) -> bool {
    forall|i: int|
        0 <= i < host::key_slots(signer_pubkeys).len() ==> #[trigger] host::key_slots(
            signer_pubkeys,
        )[i] is Some
}

/// The canonical message of these parts can be built: the keys can be read, and
/// the message is no longer than host bytes can be.
pub open spec fn message_buildable(
    domain: Bytes,
    payload: Bytes,
    signer_pubkeys: soroban_sdk::Vec<BytesN<32>>,
) -> bool {
    &&& keys_readable(signer_pubkeys)
    &&& canonical_len(
        host::bytes_contents(domain),
        host::bytes_contents(payload),
        host::key_slots(signer_pubkeys).len(),
    ) <= u32::MAX
}

/// Bit `i` of `mask` is set: participant `i` is to have signed.
pub open spec fn is_masked(mask: u32, i: u32) -> bool {
    (mask >> i) & 1 == 1
}

/// `mask` is well-formed for `signers` participants: there are not too many of
/// them, at least one is masked, and every set bit indexes one of them.
pub open spec fn mask_valid(signers: nat, mask: u32) -> bool {
    &&& signers <= MAX_SIGNERS
    &&& mask != 0
    &&& forall|i: u32| i < 32 && #[trigger] is_masked(mask, i) ==> i < signers
}

/// The position of the first masked participant.
pub open spec fn aggregator_index(mask: u32) -> int {
    mask.trailing_zeros() as int
}

/// The mask is well-formed for `keys`, and marks the participant at `index`, who
/// is on the list.
pub open spec fn is_participant(keys: Seq<Seq<u8>>, mask: u32, index: u32) -> bool {
    &&& mask_valid(keys.len(), mask)
    &&& index < keys.len()
    &&& is_masked(mask, index)
}

/// What verifying the aggregate signature of a receipt comes to: a malformed mask
/// is refused; otherwise the aggregator's key decides on the canonical message.
pub open spec fn aggregate_verdict(
    domain: Seq<u8>,
    payload: Seq<u8>,
    keys: Seq<Seq<u8>>,
    mask: u32,
    signature: Seq<u8>,
) -> Result<bool, Error> {
    if mask_valid(keys.len(), mask) {
        Ok(
            host::ed25519_accepts(
                keys[aggregator_index(mask)],
                canonical_bytes(domain, payload, keys, mask),
                signature,
            ),
        )
    } else {
        Err(Error::InvalidSignature)
    }
}

/// What verifying one participant's signature comes to: someone who is no masked
/// participant is refused; otherwise their key decides on the canonical message.
pub open spec fn individual_verdict(
    domain: Seq<u8>,
    payload: Seq<u8>,
    keys: Seq<Seq<u8>>,
    mask: u32,
    index: u32,
    signature: Seq<u8>,
) -> Result<bool, Error> {
    if is_participant(keys, mask, index) {
        Ok(
            host::ed25519_accepts(
                keys[index as int],
                canonical_bytes(domain, payload, keys, mask),
                signature,
            ),
        )
    } else {
        Err(Error::InvalidSignature)
    }
}

fn to_be_bytes(x: u32) -> (r: [u8; 4])
    ensures
        r@ == be_bytes(x),
{
    let r = [
        (x / 0x100_0000) as u8,
        (x / 0x1_0000 % 0x100) as u8,
        (x / 0x100 % 0x100) as u8,
        (x % 0x100) as u8,
    ];
    assert(r@ =~= be_bytes(x));
    r
}

/// Whether every position of the list holds a public key.
pub fn has_readable_keys(signer_pubkeys: &soroban_sdk::Vec<BytesN<32>>) -> (r: bool)
    ensures
        r == keys_readable(*signer_pubkeys),
        r ==> are_keys(keys_of(*signer_pubkeys)),
{
    let count: u32 = host::keys_len(signer_pubkeys);
    let mut i: u32 = 0;
    while i < count
        invariant
            i <= count,
            count == host::key_slots(*signer_pubkeys).len(),
            forall|j: int|
                0 <= j < i ==> #[trigger] host::key_slots(*signer_pubkeys)[j] is Some,
            forall|j: int| 0 <= j < i ==> (#[trigger] keys_of(*signer_pubkeys)[j]).len() == 32,
        decreases count - i,
    {
        if host::keys_try_get(signer_pubkeys, i).is_err() {
            assert(host::key_slots(*signer_pubkeys)[i as int] is None);
            return false;
        }
        i += 1;
    }
    true
}

/// Whether the canonical message of these parts can be built.
pub fn can_build_message(
    domain: &Bytes,
    payload: &Bytes,
    signer_pubkeys: &soroban_sdk::Vec<BytesN<32>>,
) -> (r: bool)
    ensures
        r == message_buildable(*domain, *payload, *signer_pubkeys),
        r ==> are_keys(keys_of(*signer_pubkeys)),
{
    let domain_len: u32 = host::bytes_len(domain);
    let payload_len: u32 = host::bytes_len(payload);
    let count: u32 = host::keys_len(signer_pubkeys);
    let len: u64 = 16 + domain_len as u64 + payload_len as u64 + 32 * (count as u64);
    len <= u32::MAX as u64 && has_readable_keys(signer_pubkeys)
}

/// The canonical message that all participants sign.
///
/// Layout: `domain_len || domain || payload_len || payload || signer_count ||
/// pubkey_1 || ... || pubkey_n || mask`, where lengths, count and mask are
/// big-endian `u32`s.
///
/// `domain` is the domain-separation prefix, normally the strkey bytes of the
/// verifying contract.
pub fn canonical_message(
    env: &Env,
    domain: &Bytes,
    payload: &Bytes,
    signer_pubkeys: &soroban_sdk::Vec<BytesN<32>>,
    signer_mask: u32,
) -> (r: Bytes)
    requires
        message_buildable(*domain, *payload, *signer_pubkeys),
    ensures
        host::bytes_contents(r) == canonical_bytes(
            host::bytes_contents(*domain),
            host::bytes_contents(*payload),
            keys_of(*signer_pubkeys),
            signer_mask,
        ),
        are_keys(keys_of(*signer_pubkeys)),
        host::bytes_contents(r).len() == canonical_len(
            host::bytes_contents(*domain),
            host::bytes_contents(*payload),
            keys_of(*signer_pubkeys).len(),
        ),
        ({
            let d = host::bytes_contents(*domain).len() as int;
            let p = host::bytes_contents(*payload).len() as int;
            let slots = host::key_slots(*signer_pubkeys);
            let m = host::bytes_contents(r);
            let a = 4 + d;
            let b = a + 4 + p;
            let c = b + 4 + 32 * slots.len();
            &&& m.len() == c + 4
            &&& m[0] * 0x100_0000 + m[1] * 0x1_0000 + m[2] * 0x100 + m[3] == d
            &&& m.subrange(4, a) == host::bytes_contents(*domain)
            &&& m[a] * 0x100_0000 + m[a + 1] * 0x1_0000 + m[a + 2] * 0x100 + m[a + 3] == p
            &&& m.subrange(a + 4, b) == host::bytes_contents(*payload)
            &&& m[b] * 0x100_0000 + m[b + 1] * 0x1_0000 + m[b + 2] * 0x100 + m[b + 3] == slots.len()
            &&& forall|k: int|
                0 <= k < slots.len() ==> #[trigger] slots[k] == Some(
                    m.subrange(b + 4 + 32 * k, b + 36 + 32 * k),
                )
            &&& m[c] * 0x100_0000 + m[c + 1] * 0x1_0000 + m[c + 2] * 0x100 + m[c + 3] == signer_mask
        }),
{
    let ghost slots = host::key_slots(*signer_pubkeys);
    let ghost keys = keys_of(*signer_pubkeys);
    let mut msg = host::bytes_new(env);
    // Domain separation: the verifying contract's strkey bytes.
    host::bytes_extend_from_slice(&mut msg, &to_be_bytes(host::bytes_len(domain)));
    host::bytes_extend_from_slice(&mut msg, host::bytes_to_vec(domain).as_slice());
    // The receipt payload, length-prefixed.
    host::bytes_extend_from_slice(&mut msg, &to_be_bytes(host::bytes_len(payload)));
    host::bytes_extend_from_slice(&mut msg, host::bytes_to_vec(payload).as_slice());
    // The participant set, enumerated in bitmap order.
    let count: u32 = host::keys_len(signer_pubkeys);
    host::bytes_extend_from_slice(&mut msg, &to_be_bytes(count));
    let ghost head = framed(host::bytes_contents(*domain)) + framed(host::bytes_contents(*payload));
    assert(host::bytes_contents(msg) =~= head + (be_bytes(count) + concatenation(keys.take(0))));
    let mut i: u32 = 0;
    while i < count
        invariant
            i <= count,
            slots == host::key_slots(*signer_pubkeys),
            keys == keys_of(*signer_pubkeys),
            count == slots.len(),
            keys_readable(*signer_pubkeys),
            head.len() + 8 + 32 * count <= u32::MAX,
            forall|j: int| 0 <= j < i ==> (#[trigger] keys[j]).len() == 32,
            concatenation(keys.take(i as int)).len() == 32 * i,
            host::bytes_contents(msg) == head + (be_bytes(count) + concatenation(
                keys.take(i as int),
            )),
        decreases count - i,
    {
        assert(slots[i as int] is Some);
        if let Some(key) = host::keys_get(signer_pubkeys, i) {
            let bytes = host::key_to_array(&key);
            host::bytes_extend_from_slice(&mut msg, &bytes);
            proof {
                assert(keys[i as int] == bytes@);
                assert(keys.take(i + 1).drop_last() =~= keys.take(i as int));
                assert(host::bytes_contents(msg) =~= head + (be_bytes(count) + concatenation(
                    keys.take(i + 1),
                )));
            }
        }
        i += 1;
    }
    assert(keys.take(count as int) =~= keys);
    // The exact participation bitmap the aggregate covers.
    host::bytes_extend_from_slice(&mut msg, &to_be_bytes(signer_mask));
    proof {
        let d = host::bytes_contents(*domain);
        let p = host::bytes_contents(*payload);
        law_message_layout(d, p, keys, signer_mask);
        let m = host::bytes_contents(msg);
        let start = 12 + d.len() + p.len();
        assert forall|k: int| 0 <= k < slots.len() implies #[trigger] slots[k] == Some(
            m.subrange(start + 32 * k, start + 32 + 32 * k),
        ) by {
            assert(keys[k] == slots[k]->0);
        }
    }
    msg
}

/// [`canonical_message`], or `None` where it cannot be built.
pub fn try_canonical_message(
    env: &Env,
    domain: &Bytes,
    payload: &Bytes,
    signer_pubkeys: &soroban_sdk::Vec<BytesN<32>>,
    signer_mask: u32,
) -> (r: Option<Bytes>)
    ensures
        r is Some <==> message_buildable(*domain, *payload, *signer_pubkeys),
        r matches Some(msg) ==> {
            &&& host::bytes_contents(msg) == canonical_bytes(
                host::bytes_contents(*domain),
                host::bytes_contents(*payload),
                keys_of(*signer_pubkeys),
                signer_mask,
            )
            &&& are_keys(keys_of(*signer_pubkeys))
            &&& host::bytes_contents(msg).len() == canonical_len(
                host::bytes_contents(*domain),
                host::bytes_contents(*payload),
                keys_of(*signer_pubkeys).len(),
            )
        },
{
    if !can_build_message(domain, payload, signer_pubkeys) {
        return None;
    }
    Some(canonical_message(env, domain, payload, signer_pubkeys, signer_mask))
}

/// Validates a mask against the participant list: too many participants, an
/// empty mask, and a set bit beyond the list are refused.
pub fn validate_mask(signer_pubkeys: &soroban_sdk::Vec<BytesN<32>>, signer_mask: u32) -> (r: Result<
    (),
    Error,
>)
    ensures
        r == if mask_valid(keys_of(*signer_pubkeys).len(), signer_mask) {
            Ok(())
        } else {
            Err(Error::InvalidSignature)
        },
        r is Ok <==> host::key_slots(*signer_pubkeys).len() <= 32 && 0 < signer_mask
            < vstd::arithmetic::power2::pow2(host::key_slots(*signer_pubkeys).len()),
        r matches Err(e) ==> e == Error::InvalidSignature,
{
    proof {
        law_mask_is_below_power_of_signers(host::key_slots(*signer_pubkeys).len(), signer_mask);
    }
    let count: u32 = host::keys_len(signer_pubkeys);
    if count > MAX_SIGNERS {
        return Err(Error::InvalidSignature);
    }
    if signer_mask == 0 {
        return Err(Error::InvalidSignature);
    }
    // Every set bit must correspond to a key in the list: mask out the valid
    // range and require nothing left over.
    let valid_bits: u32 = if count >= 32 {
        u32::MAX
    } else {
        assert(1u32 << count >= 1) by (bit_vector)
            requires
                count < 32,
        ;
        (1u32 << count) - 1
    };
    proof {
        lemma_leftover_bits(signer_mask, count, valid_bits);
    }
    if signer_mask & !valid_bits != 0 {
        return Err(Error::InvalidSignature);
    }
    Ok(())
}

/// The key that the aggregate is verified against: that of the first masked
/// participant.
pub fn aggregator_key(signer_pubkeys: &soroban_sdk::Vec<BytesN<32>>, signer_mask: u32) -> (r: Result<
    BytesN<32>,
    Error,
>)
    requires
        mask_valid(keys_of(*signer_pubkeys).len(), signer_mask) ==> host::key_slots(
            *signer_pubkeys,
        )[aggregator_index(signer_mask)] is Some,
    ensures
        match r {
            Ok(key) => {
                &&& mask_valid(keys_of(*signer_pubkeys).len(), signer_mask)
                &&& host::key_contents(key) == keys_of(*signer_pubkeys)[aggregator_index(
                    signer_mask,
                )]
            },
            Err(e) => {
                &&& !mask_valid(keys_of(*signer_pubkeys).len(), signer_mask)
                &&& e == Error::InvalidSignature
            },
        },
        r matches Ok(key) ==> exists|i: u32|
            {
                &&& i < host::key_slots(*signer_pubkeys).len()
                &&& #[trigger] (signer_mask >> i) & 1 == 1
                &&& forall|j: u32| j < i ==> #[trigger] (signer_mask >> j) & 1 == 0
                &&& host::key_slots(*signer_pubkeys)[i as int] == Some(host::key_contents(key))
            },
{
    match validate_mask(signer_pubkeys, signer_mask) {
        Ok(()) => {},
        Err(e) => return Err(e),
    }
    proof {
        law_aggregator_is_first_masked(keys_of(*signer_pubkeys).len(), signer_mask);
    }
    let first: u32 = signer_mask.trailing_zeros();
    assert((signer_mask >> first) & 1 == 1);
    host::keys_get(signer_pubkeys, first).ok_or(Error::InvalidSignature)
}

/// [`aggregator_key`], or `None` where the list holds something that is no
/// public key.
pub fn try_aggregator_key(
    signer_pubkeys: &soroban_sdk::Vec<BytesN<32>>,
    signer_mask: u32,
) -> (r: Option<Result<BytesN<32>, Error>>)
    ensures
        r is Some <==> keys_readable(*signer_pubkeys),
        r matches Some(Ok(key)) ==> {
            &&& mask_valid(keys_of(*signer_pubkeys).len(), signer_mask)
            &&& host::key_contents(key) == keys_of(*signer_pubkeys)[aggregator_index(signer_mask)]
        },
        r matches Some(Err(e)) ==> {
            &&& !mask_valid(keys_of(*signer_pubkeys).len(), signer_mask)
            &&& e == Error::InvalidSignature
        },
{
    if !has_readable_keys(signer_pubkeys) {
        return None;
    }
    proof {
        if mask_valid(keys_of(*signer_pubkeys).len(), signer_mask) {
            law_aggregator_is_first_masked(keys_of(*signer_pubkeys).len(), signer_mask);
        }
    }
    Some(aggregator_key(signer_pubkeys, signer_mask))
}

/// The key of the masked participant at `pubkey_index`.
fn masked_key(
    signer_pubkeys: &soroban_sdk::Vec<BytesN<32>>,
    signer_mask: u32,
    pubkey_index: u32,
) -> (r: Result<BytesN<32>, Error>)
    requires
        mask_valid(keys_of(*signer_pubkeys).len(), signer_mask) && pubkey_index < keys_of(
            *signer_pubkeys,
        ).len() ==> host::key_slots(*signer_pubkeys)[pubkey_index as int] is Some,
    ensures
        match r {
            Ok(key) => {
                &&& is_participant(keys_of(*signer_pubkeys), signer_mask, pubkey_index)
                &&& host::key_contents(key) == keys_of(*signer_pubkeys)[pubkey_index as int]
            },
            Err(e) => {
                &&& !is_participant(keys_of(*signer_pubkeys), signer_mask, pubkey_index)
                &&& e == Error::InvalidSignature
            },
        },
{
    match validate_mask(signer_pubkeys, signer_mask) {
        Ok(()) => {},
        Err(e) => return Err(e),
    }
    let key = match host::keys_get(signer_pubkeys, pubkey_index) {
        Some(key) => key,
        None => return Err(Error::InvalidSignature),
    };
    proof {
        lemma_bit_test(signer_mask, pubkey_index);
    }
    if signer_mask & (1u32 << pubkey_index) == 0 {
        return Err(Error::InvalidSignature);
    }
    Ok(key)
}

fn verify_message(env: &Env, key: &BytesN<32>, msg: &Bytes, sig: &BytesN<64>) -> (r: bool)
    ensures
        r == host::ed25519_accepts(
            host::key_contents(*key),
            host::bytes_contents(*msg),
            host::signature_contents(*sig),
        ),
{
    let key = host::key_to_array(key);
    let len: u32 = host::bytes_len(msg);
    let msg = host::bytes_to_vec(msg);
    let sig = host::signature_to_array(sig);
    // The host traps on an invalid signature, so only a valid one reaches it.
    if !host::ed25519_verify_strict(&key, msg.as_slice(), &sig) {
        return false;
    }
    assert(msg@.len() == len);
    host::ed25519_verify(env, &key, msg.as_slice(), &sig);
    true
}

/// Verifies the aggregate signature of a multi-party receipt.
///
/// `Ok(true)` means that the mask is well-formed and that `aggregate_sig` is the
/// aggregator's signature of the canonical message, which binds every listed key
/// and the exact mask. `Ok(false)` means that the signature is not; a malformed
/// mask is an error.
///
/// However many participants there are, the host verifies at most one signature.
/// The library verifies the same signature once itself before that, because the
/// host traps on an invalid one instead of reporting it: an accepted signature
/// costs two verifications, a rejected one costs one and no host call.
pub fn verify_aggregated_signature(
    env: &Env,
    domain: &Bytes,
    payload: &Bytes,
    signer_pubkeys: &soroban_sdk::Vec<BytesN<32>>,
    signer_mask: u32,
    aggregate_sig: &BytesN<64>,
) -> (r: Result<bool, Error>)
    requires
        mask_valid(keys_of(*signer_pubkeys).len(), signer_mask) ==> message_buildable(
            *domain,
            *payload,
            *signer_pubkeys,
        ),
    ensures
        r == aggregate_verdict(
            host::bytes_contents(*domain),
            host::bytes_contents(*payload),
            keys_of(*signer_pubkeys),
            signer_mask,
            host::signature_contents(*aggregate_sig),
        ),
{
    match validate_mask(signer_pubkeys, signer_mask) {
        Ok(()) => {},
        Err(e) => return Err(e),
    }
    proof {
        law_aggregator_is_first_masked(keys_of(*signer_pubkeys).len(), signer_mask);
    }
    let msg = canonical_message(env, domain, payload, signer_pubkeys, signer_mask);
    let key = match aggregator_key(signer_pubkeys, signer_mask) {
        Ok(key) => key,
        Err(e) => return Err(e),
    };
    Ok(verify_message(env, &key, &msg, aggregate_sig))
}

/// [`verify_aggregated_signature`], or `None` where the canonical message cannot
/// be built.
pub fn try_verify_aggregated_signature(
    env: &Env,
    domain: &Bytes,
    payload: &Bytes,
    signer_pubkeys: &soroban_sdk::Vec<BytesN<32>>,
    signer_mask: u32,
    aggregate_sig: &BytesN<64>,
) -> (r: Option<Result<bool, Error>>)
    ensures
        r == if message_buildable(*domain, *payload, *signer_pubkeys) {
            Some(
                aggregate_verdict(
                    host::bytes_contents(*domain),
                    host::bytes_contents(*payload),
                    keys_of(*signer_pubkeys),
                    signer_mask,
                    host::signature_contents(*aggregate_sig),
                ),
            )
        } else {
            None
        },
{
    if !can_build_message(domain, payload, signer_pubkeys) {
        return None;
    }
    Some(
        verify_aggregated_signature(
            env,
            domain,
            payload,
            signer_pubkeys,
            signer_mask,
            aggregate_sig,
        ),
    )
}

/// Verifies one participant's own signature, for audits.
///
/// `Ok(true)` means that `sig` is the signature of the canonical message by the
/// participant at `pubkey_index`, `Ok(false)` that it is not. Auditing someone
/// whom the mask does not mark is an error. As with the aggregate, the library
/// verifies the signature itself before the host does.
pub fn verify_individual_signature(
    env: &Env,
    domain: &Bytes,
    payload: &Bytes,
    signer_pubkeys: &soroban_sdk::Vec<BytesN<32>>,
    signer_mask: u32,
    pubkey_index: u32,
    sig: &BytesN<64>,
) -> (r: Result<bool, Error>)
    requires
        mask_valid(keys_of(*signer_pubkeys).len(), signer_mask) && pubkey_index < keys_of(
            *signer_pubkeys,
        ).len() ==> host::key_slots(*signer_pubkeys)[pubkey_index as int] is Some,
        is_participant(keys_of(*signer_pubkeys), signer_mask, pubkey_index) ==> message_buildable(
            *domain,
            *payload,
            *signer_pubkeys,
        ),
    ensures
        r == individual_verdict(
            host::bytes_contents(*domain),
            host::bytes_contents(*payload),
            keys_of(*signer_pubkeys),
            signer_mask,
            pubkey_index,
            host::signature_contents(*sig),
        ),
{
    let key = match masked_key(signer_pubkeys, signer_mask, pubkey_index) {
        Ok(key) => key,
        Err(e) => return Err(e),
    };
    let msg = canonical_message(env, domain, payload, signer_pubkeys, signer_mask);
    Ok(verify_message(env, &key, &msg, sig))
}

/// [`verify_individual_signature`], or `None` where the canonical message cannot
/// be built.
pub fn try_verify_individual_signature(
    env: &Env,
    domain: &Bytes,
    payload: &Bytes,
    signer_pubkeys: &soroban_sdk::Vec<BytesN<32>>,
    signer_mask: u32,
    pubkey_index: u32,
    sig: &BytesN<64>,
) -> (r: Option<Result<bool, Error>>)
    ensures
        r == if message_buildable(*domain, *payload, *signer_pubkeys) {
            Some(
                individual_verdict(
                    host::bytes_contents(*domain),
                    host::bytes_contents(*payload),
                    keys_of(*signer_pubkeys),
                    signer_mask,
                    pubkey_index,
                    host::signature_contents(*sig),
                ),
            )
        } else {
            None
        },
{
    if !can_build_message(domain, payload, signer_pubkeys) {
        return None;
    }
    Some(
        verify_individual_signature(
            env,
            domain,
            payload,
            signer_pubkeys,
            signer_mask,
            pubkey_index,
            sig,
        ),
    )
}

/// The canonical message binds everything in it: two receipts with the same
/// message agree in domain, payload, participants and mask.
pub proof fn law_message_binds_all_parts(
    domain: Seq<u8>,
    payload: Seq<u8>,
    keys: Seq<Seq<u8>>,
    mask: u32,
    other_domain: Seq<u8>,
    other_payload: Seq<u8>,
    other_keys: Seq<Seq<u8>>,
    other_mask: u32,
)
    requires
        are_keys(keys),
        are_keys(other_keys),
        canonical_len(domain, payload, keys.len()) <= u32::MAX,
        canonical_len(other_domain, other_payload, other_keys.len()) <= u32::MAX,
        canonical_bytes(domain, payload, keys, mask) == canonical_bytes(
            other_domain,
            other_payload,
            other_keys,
            other_mask,
        ),
    ensures
        domain == other_domain,
        payload == other_payload,
        keys == other_keys,
        mask == other_mask,
{
    let signers = be_bytes(keys.len() as u32) + concatenation(keys);
    let other_signers = be_bytes(other_keys.len() as u32) + concatenation(other_keys);
    let tail = signers + be_bytes(mask);
    let other_tail = other_signers + be_bytes(other_mask);
    assert(canonical_bytes(domain, payload, keys, mask) =~= framed(domain) + (framed(payload)
        + tail));
    assert(canonical_bytes(other_domain, other_payload, other_keys, other_mask) =~= framed(
        other_domain,
    ) + (framed(other_payload) + other_tail));
    lemma_frame_splits(domain, framed(payload) + tail, other_domain, framed(other_payload)
        + other_tail);
    lemma_frame_splits(payload, tail, other_payload, other_tail);
    lemma_split(
        signers,
        be_bytes(mask),
        other_signers,
        be_bytes(other_mask),
    );
    lemma_be_bytes_injective(mask, other_mask);
    lemma_split(
        be_bytes(keys.len() as u32),
        concatenation(keys),
        be_bytes(other_keys.len() as u32),
        concatenation(other_keys),
    );
    lemma_be_bytes_injective(keys.len() as u32, other_keys.len() as u32);
    lemma_concatenation_injective(keys, other_keys);
}

/// Messages of different domains differ, whatever else they hold: what was signed
/// for one contract is no message of another.
pub proof fn law_domains_are_separate(
    domain: Seq<u8>,
    payload: Seq<u8>,
    keys: Seq<Seq<u8>>,
    mask: u32,
    other_domain: Seq<u8>,
    other_payload: Seq<u8>,
    other_keys: Seq<Seq<u8>>,
    other_mask: u32,
)
    requires
        are_keys(keys),
        are_keys(other_keys),
        canonical_len(domain, payload, keys.len()) <= u32::MAX,
        canonical_len(other_domain, other_payload, other_keys.len()) <= u32::MAX,
        domain != other_domain,
    ensures
        canonical_bytes(domain, payload, keys, mask) != canonical_bytes(
            other_domain,
            other_payload,
            other_keys,
            other_mask,
        ),
{
    if canonical_bytes(domain, payload, keys, mask) == canonical_bytes(
        other_domain,
        other_payload,
        other_keys,
        other_mask,
    ) {
        law_message_binds_all_parts(
            domain,
            payload,
            keys,
            mask,
            other_domain,
            other_payload,
            other_keys,
            other_mask,
        );
    }
}

/// The canonical message is as long as its parts and four `u32`s.
pub proof fn law_message_length(
    domain: Seq<u8>,
    payload: Seq<u8>,
    keys: Seq<Seq<u8>>,
    mask: u32,
)
    requires
        are_keys(keys),
    ensures
        canonical_bytes(domain, payload, keys, mask).len() == canonical_len(
            domain,
            payload,
            keys.len(),
        ),
{
    lemma_concatenation_len(keys);
}

/// An accepted aggregate covers its whole mask: somebody is masked, every masked
/// bit indexes a listed participant, and the aggregator signed the message that
/// binds them all.
pub proof fn law_acceptance_covers_mask(
    domain: Seq<u8>,
    payload: Seq<u8>,
    keys: Seq<Seq<u8>>,
    mask: u32,
    signature: Seq<u8>,
)
    requires
        aggregate_verdict(domain, payload, keys, mask, signature) == Ok::<bool, Error>(true),
    ensures
        exists|i: u32| i < keys.len() && #[trigger] is_masked(mask, i),
        forall|i: u32| i < 32 && #[trigger] is_masked(mask, i) ==> i < keys.len(),
        host::ed25519_accepts(
            keys[aggregator_index(mask)],
            canonical_bytes(domain, payload, keys, mask),
            signature,
        ),
{
    law_aggregator_is_first_masked(keys.len(), mask);
}

/// Verifying the aggregate is verifying the first masked participant's own
/// signature; under a malformed mask both are refused alike.
pub proof fn law_aggregate_is_first_individual(
    domain: Seq<u8>,
    payload: Seq<u8>,
    keys: Seq<Seq<u8>>,
    mask: u32,
    signature: Seq<u8>,
)
    ensures
        aggregate_verdict(domain, payload, keys, mask, signature) == individual_verdict(
            domain,
            payload,
            keys,
            mask,
            aggregator_index(mask) as u32,
            signature,
        ),
{
    if mask_valid(keys.len(), mask) {
        law_aggregator_is_first_masked(keys.len(), mask);
    }
}

/// Under a well-formed mask exactly the masked participants can be audited:
/// everyone whose bit is set gets a verdict, everyone else is refused.
pub proof fn law_audit_follows_mask(
    domain: Seq<u8>,
    payload: Seq<u8>,
    keys: Seq<Seq<u8>>,
    mask: u32,
    index: u32,
    signature: Seq<u8>,
)
    requires
        mask_valid(keys.len(), mask),
    ensures
        individual_verdict(domain, payload, keys, mask, index, signature) is Ok <==> (index < 32
            && is_masked(mask, index)),
{
}

/// The aggregator is the first masked participant: under a well-formed mask they
/// are on the list, they are masked, and nobody before them is.
pub proof fn law_aggregator_is_first_masked(signers: nat, mask: u32)
    requires
        mask_valid(signers, mask),
    ensures
        0 <= aggregator_index(mask) < signers,
        is_masked(mask, aggregator_index(mask) as u32),
        forall|i: u32| i < aggregator_index(mask) ==> !#[trigger] is_masked(mask, i),
        (mask >> (aggregator_index(mask) as u32)) & 1 == 1,
        forall|i: u32| i < aggregator_index(mask) ==> #[trigger] (mask >> i) & 1 == 0,
{
    vstd::std_specs::bits::axiom_u32_trailing_zeros(mask);
    let first = mask.trailing_zeros();
    assert(is_masked(mask, first));
    assert forall|i: u32| i < aggregator_index(mask) implies !#[trigger] is_masked(mask, i) by {
        assert((mask >> i) & 1u32 == 0u32);
    }
}

/// A mask is well-formed exactly if it is a positive number of as many binary
/// digits as there are signers, of whom there are at most 32.
pub proof fn law_mask_is_below_power_of_signers(signers: nat, mask: u32)
    ensures
        mask_valid(signers, mask) <==> signers <= 32 && 0 < mask
            < vstd::arithmetic::power2::pow2(signers),
{
    if signers <= 32 {
        let count = signers as u32;
        vstd::arithmetic::power2::lemma2_to64();
        if count == 32 {
            lemma_leftover_bits(mask, count, u32::MAX);
            assert(mask & !0xffff_ffffu32 == 0) by (bit_vector);
        } else {
            lemma_power_is_shift(count);
            let valid_bits = ((1u32 << count) - 1) as u32;
            assert(1u32 << count >= 1) by (bit_vector)
                requires
                    count < 32,
            ;
            lemma_leftover_bits(mask, count, valid_bits);
            assert(mask & !valid_bits == 0 <==> mask <= valid_bits) by (bit_vector)
                requires
                    count < 32,
                    valid_bits == (1u32 << count) - 1,
            ;
        }
    }
}

/// Participant `i` is masked exactly if binary digit `i` of the mask, from the
/// lowest, is one.
pub proof fn law_masked_is_binary_digit(mask: u32, i: u32)
    requires
        i < 32,
    ensures
        is_masked(mask, i) <==> (mask as nat / vstd::arithmetic::power2::pow2(i as nat)) % 2 == 1,
{
    vstd::bits::lemma_u32_shr_is_div(mask, i);
    let rest = mask >> i;
    assert(rest & 1 == rest % 2) by (bit_vector);
}

/// The keys of a list are what its positions hold, in their order.
pub proof fn law_keys_are_in_list_order(signer_pubkeys: soroban_sdk::Vec<BytesN<32>>)
    ensures
        keys_of(signer_pubkeys).len() == host::key_slots(signer_pubkeys).len(),
        forall|k: int|
            0 <= k < host::key_slots(signer_pubkeys).len() && host::key_slots(signer_pubkeys)[k] is Some
                ==> host::key_slots(signer_pubkeys)[k] == Some(#[trigger] keys_of(signer_pubkeys)[k]),
{
}

/// A message can be built exactly if every position of the list holds a key and
/// the parts, with four `u32`s and 32 bytes for each key, fit into host bytes.
pub proof fn law_message_buildable_if_it_fits(
    domain: Bytes,
    payload: Bytes,
    signer_pubkeys: soroban_sdk::Vec<BytesN<32>>,
)
    ensures
        message_buildable(domain, payload, signer_pubkeys) <==> {
            &&& forall|k: int|
                0 <= k < host::key_slots(signer_pubkeys).len() ==> #[trigger] host::key_slots(
                    signer_pubkeys,
                )[k] is Some
            &&& 16 + host::bytes_contents(domain).len() + host::bytes_contents(payload).len() + 32
                * host::key_slots(signer_pubkeys).len() <= u32::MAX
        },
        keys_readable(signer_pubkeys) <==> forall|k: int|
            0 <= k < host::key_slots(signer_pubkeys).len() ==> #[trigger] host::key_slots(
                signer_pubkeys,
            )[k] is Some,
{
}

/// The layout of the canonical message, byte for byte: the domain behind its
/// length, the payload behind its length, the keys in their order behind their
/// number, and the mask, with every number as four bytes from the highest.
pub proof fn law_message_layout(
    domain: Seq<u8>,
    payload: Seq<u8>,
    keys: Seq<Seq<u8>>,
    mask: u32,
)
    requires
        forall|k: int| 0 <= k < keys.len() ==> (#[trigger] keys[k]).len() == 32,
        16 + domain.len() + payload.len() + 32 * keys.len() <= u32::MAX,
    ensures
        ({
            let m = canonical_bytes(domain, payload, keys, mask);
            let a: int = 4 + domain.len() as int;
            let b: int = a + 4 + payload.len();
            let c: int = b + 4 + 32 * keys.len();
            &&& m.len() == c + 4
            &&& m[0] * 0x100_0000 + m[1] * 0x1_0000 + m[2] * 0x100 + m[3] == domain.len()
            &&& m.subrange(4, a) == domain
            &&& m[a] * 0x100_0000 + m[a + 1] * 0x1_0000 + m[a + 2] * 0x100 + m[a + 3]
                == payload.len()
            &&& m.subrange(a + 4, b) == payload
            &&& m[b] * 0x100_0000 + m[b + 1] * 0x1_0000 + m[b + 2] * 0x100 + m[b + 3]
                == keys.len()
            &&& forall|k: int|
                0 <= k < keys.len() ==> m.subrange(b + 4 + 32 * k, b + 36 + 32 * k)
                    == #[trigger] keys[k]
            &&& m[c] * 0x100_0000 + m[c + 1] * 0x1_0000 + m[c + 2] * 0x100 + m[c + 3] == mask
        }),
{
    let m = canonical_bytes(domain, payload, keys, mask);
    let a: int = 4 + domain.len() as int;
    let b: int = a + 4 + payload.len();
    let c: int = b + 4 + 32 * keys.len();
    let all = concatenation(keys);
    let signers = be_bytes(keys.len() as u32) + all;
    lemma_concatenation_len(keys);
    lemma_four_parts(framed(domain), framed(payload), signers, be_bytes(mask));
    lemma_number_at(m, c, mask);
    lemma_numbered_part(m, 0, domain.len() as u32, domain);
    lemma_numbered_part(m, a, payload.len() as u32, payload);
    lemma_numbered_part(m, b, keys.len() as u32, all);
    assert forall|k: int| 0 <= k < keys.len() implies m.subrange(
        b + 4 + 32 * k,
        b + 36 + 32 * k,
    ) == #[trigger] keys[k] by {
        lemma_concatenation_part(keys, k);
        lemma_subrange_twice(m, b + 4, c, 32 * k, 32 * k + 32);
    }
}

/// Under a well-formed mask the key of the first masked participant decides on the
/// aggregate, whoever that is.
pub proof fn law_first_signer_decides_on_aggregate(
    domain: Seq<u8>,
    payload: Seq<u8>,
    keys: Seq<Seq<u8>>,
    mask: u32,
    signature: Seq<u8>,
    first: u32,
)
    requires
        keys.len() <= 32,
        0 < mask < vstd::arithmetic::power2::pow2(keys.len()),
        first < 32,
        (mask >> first) & 1 == 1,
        forall|j: u32| j < first ==> #[trigger] (mask >> j) & 1 == 0,
    ensures
        first < keys.len(),
        aggregate_verdict(domain, payload, keys, mask, signature) == Ok::<bool, Error>(
            host::ed25519_accepts(
                keys[first as int],
                canonical_bytes(domain, payload, keys, mask),
                signature,
            ),
        ),
{
    law_mask_is_below_power_of_signers(keys.len(), mask);
    law_aggregator_is_first_masked(keys.len(), mask);
    let other = aggregator_index(mask) as u32;
    assert(is_masked(mask, first));
    if other < first {
        assert((mask >> other) & 1 == 0);
    }
}

/// Under a well-formed mask a listed and masked participant's own key decides on
/// their signature, and everyone else is refused.
pub proof fn law_signer_decides_on_own_signature(
    domain: Seq<u8>,
    payload: Seq<u8>,
    keys: Seq<Seq<u8>>,
    mask: u32,
    index: u32,
    signature: Seq<u8>,
)
    requires
        keys.len() <= 32,
        0 < mask < vstd::arithmetic::power2::pow2(keys.len()),
    ensures
        index < keys.len() && (mask >> index) & 1 == 1 ==> individual_verdict(
            domain,
            payload,
            keys,
            mask,
            index,
            signature,
        ) == Ok::<bool, Error>(
            host::ed25519_accepts(
                keys[index as int],
                canonical_bytes(domain, payload, keys, mask),
                signature,
            ),
        ),
        index >= keys.len() || (mask >> index) & 1 != 1 ==> individual_verdict(
            domain,
            payload,
            keys,
            mask,
            index,
            signature,
        ) == Err::<bool, Error>(Error::InvalidSignature),
{
    law_mask_is_below_power_of_signers(keys.len(), mask);
}

/// Too many keys, an empty mask and a mask with a bit beyond the keys are refused,
/// whatever was signed and by whom.
pub proof fn law_malformed_mask_is_refused(
    domain: Seq<u8>,
    payload: Seq<u8>,
    keys: Seq<Seq<u8>>,
    mask: u32,
    index: u32,
    signature: Seq<u8>,
)
    requires
        keys.len() > 32 || mask == 0 || mask >= vstd::arithmetic::power2::pow2(keys.len()),
    ensures
        aggregate_verdict(domain, payload, keys, mask, signature) == Err::<bool, Error>(
            Error::InvalidSignature,
        ),
        individual_verdict(domain, payload, keys, mask, index, signature) == Err::<bool, Error>(
            Error::InvalidSignature,
        ),
{
    law_mask_is_below_power_of_signers(keys.len(), mask);
}

proof fn lemma_power_is_shift(i: u32)
    requires
        i < 32,
    ensures
        1u32 << i == vstd::arithmetic::power2::pow2(i as nat),
{
    vstd::arithmetic::power2::lemma2_to64();
    vstd::arithmetic::power2::lemma_pow2_strictly_increases(i as nat, 32);
    vstd::bits::lemma_u32_shl_is_mul(1, i);
}

proof fn lemma_concatenation_part(keys: Seq<Seq<u8>>, k: int)
    requires
        are_keys(keys),
        0 <= k < keys.len(),
    ensures
        concatenation(keys).len() == 32 * keys.len(),
        concatenation(keys).subrange(32 * k, 32 * k + 32) == keys[k],
    decreases keys.len(),
{
    lemma_concatenation_len(keys);
    let front = keys.drop_last();
    assert(are_keys(front));
    lemma_concatenation_len(front);
    if k == keys.len() - 1 {
        assert(concatenation(keys).subrange(32 * k, 32 * k + 32) =~= keys.last());
    } else {
        lemma_concatenation_part(front, k);
        assert(concatenation(keys).subrange(32 * k, 32 * k + 32) =~= concatenation(front).subrange(
            32 * k,
            32 * k + 32,
        ));
    }
}

proof fn lemma_subrange_twice(m: Seq<u8>, from: int, to: int, i: int, j: int)
    requires
        0 <= from <= to <= m.len(),
        0 <= i <= j <= to - from,
    ensures
        m.subrange(from, to).subrange(i, j) == m.subrange(from + i, from + j),
{
    assert(m.subrange(from, to).subrange(i, j) =~= m.subrange(from + i, from + j));
}

proof fn lemma_four_parts(a: Seq<u8>, b: Seq<u8>, c: Seq<u8>, d: Seq<u8>)
    ensures
        ({
            let m = a + b + c + d;
            let x: int = a.len() as int;
            let y: int = x + b.len();
            let z: int = y + c.len();
            &&& m.len() == z + d.len()
            &&& m.subrange(0, x) == a
            &&& m.subrange(x, y) == b
            &&& m.subrange(y, z) == c
            &&& m.subrange(z, z + d.len()) == d
        }),
{
    let m = a + b + c + d;
    let x: int = a.len() as int;
    let y: int = x + b.len();
    let z: int = y + c.len();
    assert(m.subrange(0, x) =~= a);
    assert(m.subrange(x, y) =~= b);
    assert(m.subrange(y, z) =~= c);
    assert(m.subrange(z, z + d.len()) =~= d);
}

proof fn lemma_number_at(m: Seq<u8>, at: int, x: u32)
    requires
        0 <= at,
        at + 4 <= m.len(),
        m.subrange(at, at + 4) == be_bytes(x),
    ensures
        m[at] * 0x100_0000 + m[at + 1] * 0x1_0000 + m[at + 2] * 0x100 + m[at + 3] == x,
{
    lemma_digits(x);
    let n = m.subrange(at, at + 4);
    assert(n[0] == m[at] && n[1] == m[at + 1] && n[2] == m[at + 2] && n[3] == m[at + 3]);
}

proof fn lemma_numbered_part(m: Seq<u8>, at: int, x: u32, data: Seq<u8>)
    requires
        0 <= at,
        at + 4 + data.len() <= m.len(),
        m.subrange(at, at + 4 + data.len()) == be_bytes(x) + data,
    ensures
        m[at] * 0x100_0000 + m[at + 1] * 0x1_0000 + m[at + 2] * 0x100 + m[at + 3] == x,
        m.subrange(at + 4, at + 4 + data.len()) == data,
{
    let part = be_bytes(x) + data;
    assert(part.subrange(0, 4) =~= be_bytes(x));
    assert(part.subrange(4, 4 + data.len() as int) =~= data);
    lemma_subrange_twice(m, at, at + 4 + data.len(), 0, 4);
    lemma_subrange_twice(m, at, at + 4 + data.len(), 4, 4 + data.len() as int);
    lemma_number_at(m, at, x);
}

proof fn lemma_split(a: Seq<u8>, b: Seq<u8>, c: Seq<u8>, d: Seq<u8>)
    requires
        a + b == c + d,
        a.len() == c.len() || b.len() == d.len(),
    ensures
        a == c,
        b == d,
{
    assert((a + b).len() == a.len() + b.len());
    assert((c + d).len() == c.len() + d.len());
    assert(a.len() == c.len());
    assert(a =~= (a + b).take(a.len() as int));
    assert(c =~= (c + d).take(a.len() as int));
    assert(b =~= (a + b).skip(a.len() as int));
    assert(d =~= (c + d).skip(a.len() as int));
}

proof fn lemma_be_bytes_injective(x: u32, y: u32)
    requires
        be_bytes(x) == be_bytes(y),
    ensures
        x == y,
{
    lemma_digits(x);
    lemma_digits(y);
    let a = be_bytes(x);
    let b = be_bytes(y);
    assert(a[0] == b[0] && a[1] == b[1] && a[2] == b[2] && a[3] == b[3]);
}

proof fn lemma_digits(x: u32)
    ensures
        x == be_bytes(x)[0] * 0x100_0000 + be_bytes(x)[1] * 0x1_0000 + be_bytes(x)[2] * 0x100
            + be_bytes(x)[3],
{
    assert(x == x / 0x100_0000 * 0x100_0000 + x / 0x1_0000 % 0x100 * 0x1_0000 + x / 0x100 % 0x100
        * 0x100 + x % 0x100);
}

proof fn lemma_frame_splits(a: Seq<u8>, rest: Seq<u8>, b: Seq<u8>, other_rest: Seq<u8>)
    requires
        framed(a) + rest == framed(b) + other_rest,
        a.len() <= u32::MAX,
        b.len() <= u32::MAX,
    ensures
        a == b,
        rest == other_rest,
{
    assert(framed(a) + rest =~= be_bytes(a.len() as u32) + (a + rest));
    assert(framed(b) + other_rest =~= be_bytes(b.len() as u32) + (b + other_rest));
    lemma_split(be_bytes(a.len() as u32), a + rest, be_bytes(b.len() as u32), b + other_rest);
    lemma_be_bytes_injective(a.len() as u32, b.len() as u32);
    lemma_split(a, rest, b, other_rest);
}

proof fn lemma_concatenation_len(keys: Seq<Seq<u8>>)
    requires
        are_keys(keys),
    ensures
        concatenation(keys).len() == 32 * keys.len(),
    decreases keys.len(),
{
    if keys.len() > 0 {
        assert(are_keys(keys.drop_last()));
        assert(keys.last().len() == 32);
        lemma_concatenation_len(keys.drop_last());
    }
}

proof fn lemma_concatenation_injective(keys: Seq<Seq<u8>>, others: Seq<Seq<u8>>)
    requires
        are_keys(keys),
        are_keys(others),
        keys.len() == others.len(),
        concatenation(keys) == concatenation(others),
    ensures
        keys == others,
    decreases keys.len(),
{
    if keys.len() > 0 {
        assert(are_keys(keys.drop_last()));
        assert(are_keys(others.drop_last()));
        assert(keys.last().len() == 32 && others.last().len() == 32);
        lemma_split(
            concatenation(keys.drop_last()),
            keys.last(),
            concatenation(others.drop_last()),
            others.last(),
        );
        lemma_concatenation_injective(keys.drop_last(), others.drop_last());
        assert(keys =~= keys.drop_last().push(keys.last()));
        assert(others =~= others.drop_last().push(others.last()));
    } else {
        assert(keys =~= others);
    }
}

proof fn lemma_bit_test(mask: u32, i: u32)
    requires
        i < 32,
    ensures
        mask & (1u32 << i) == 0 <==> !is_masked(mask, i),
{
    assert(mask & (1u32 << i) == 0 <==> (mask >> i) & 1 != 1) by (bit_vector)
        requires
            i < 32,
    ;
}

proof fn lemma_leftover_bits(mask: u32, count: u32, valid_bits: u32)
    requires
        count <= 32,
        count == 32 ==> valid_bits == u32::MAX,
        count < 32 ==> valid_bits == (1u32 << count) - 1,
    ensures
        mask & !valid_bits == 0 <==> forall|i: u32|
            i < 32 && #[trigger] is_masked(mask, i) ==> i < count,
{
    if count == 32 {
        assert(mask & !0xffff_ffffu32 == 0) by (bit_vector);
    } else {
        let rest = mask >> count;
        assert(mask & !valid_bits == 0 <==> rest == 0) by (bit_vector)
            requires
                count < 32,
                valid_bits == (1u32 << count) - 1,
                rest == mask >> count,
        ;
        if rest == 0 {
            assert forall|i: u32| i < 32 && #[trigger] is_masked(mask, i) implies i < count by {
                assert(i < count) by (bit_vector)
                    requires
                        i < 32,
                        count < 32,
                        mask >> count == 0,
                        (mask >> i) & 1 == 1,
                ;
            }
        } else {
            vstd::std_specs::bits::axiom_u32_trailing_zeros(rest);
            let t = rest.trailing_zeros();
            let i = (count + t) as u32;
            assert(i < 32 && (mask >> i) & 1 == 1) by (bit_vector)
                requires
                    count < 32,
                    t < 32,
                    i == count + t,
                    rest == mask >> count,
                    (rest >> t) & 1 == 1,
            ;
            assert(is_masked(mask, i));
        }
    }
}

} // verus!

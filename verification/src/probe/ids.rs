//! Deterministic node identities derived from provider observations.

use vstd::prelude::*;
use vstd::string::StringExecFns;

use crate::model::node::NodeId;

verus! {

/// FNV-1a 64-bit prime.
pub const FNV_PRIME: u64 = 0x0000_0100_0000_01b3;

/// Seed of the high half of a stable identity.
pub const HIGH_SEED: u64 = 0xcbf2_9ce4_8422_2325;

/// Seed of the low half of a stable identity.
pub const LOW_SEED: u64 = 0x8422_2325_cbf2_9ce4;

/// One FNV-1a step: fold a byte into the hash.
pub open spec fn fnv_step(hash: u64, byte: u8) -> u64 {
    (hash ^ (byte as u64)).wrapping_mul(FNV_PRIME)
}

/// FNV-1a of `bytes`, starting from `seed`.
pub open spec fn fnv1a_spec(seed: u64, bytes: Seq<u8>) -> u64
    decreases bytes.len(),
{
    if bytes.len() == 0 {
        seed
    } else {
        fnv1a_spec(fnv_step(seed, bytes[0]), bytes.drop_first())
    }
}

/// The key hashed for a provider object: `pdisks:{kind}:{identity}`.
pub open spec fn identity_key(kind: Seq<char>, identity: Seq<char>) -> Seq<char> {
    "pdisks:"@ + kind + ":"@ + identity
}

/// The 128-bit value of the stable identity of a provider object: the FNV-1a
/// hash of the UTF-8 key under the high seed, then under the low seed.
pub open spec fn stable_id_value(kind: Seq<char>, identity: Seq<char>) -> u128 {
    let bytes = vstd::utf8::encode_utf8(identity_key(kind, identity));
    ((fnv1a_spec(HIGH_SEED, bytes) as u128) << 64u128) | (fnv1a_spec(LOW_SEED, bytes) as u128)
}

/// Stable identity of a provider object.
pub open spec fn stable_id(kind: Seq<char>, identity: Seq<char>) -> NodeId {
    NodeId(stable_id_value(kind, identity))
}

/// Identity shared by all providers for a Linux block path.
pub open spec fn block_id(path: Seq<char>) -> NodeId {
    stable_id("block-path"@, path)
}

/// Identity shared by all providers for the content on a Linux block path.
pub open spec fn content_id(path: Seq<char>) -> NodeId {
    stable_id("content-path"@, path)
}

/// Lower-case hexadecimal digit of a value below 16.
pub open spec fn hex_digit(n: int) -> char {
    if n < 10 {
        (('0' as int) + n) as char
    } else {
        (('a' as int) + n - 10) as char
    }
}

/// Hexadecimal digit `k` (0 is the most significant) of a 128-bit value.
pub open spec fn nibble(value: u128, k: int) -> int {
    (value as int / vstd::arithmetic::power::pow(16, (31 - k) as nat)) % 16
}

/// Hyphenated lower-case text of a UUID value: 32 hexadecimal digits in
/// groups of 8, 4, 4, 4 and 12, separated by `-`.
pub open spec fn uuid_hyphenated(value: u128) -> Seq<char> {
    Seq::new(
        36,
        |i: int|
            if i == 8 || i == 13 || i == 18 || i == 23 {
                '-'
            } else {
                let k = if i < 8 {
                    i
                } else if i < 13 {
                    i - 1
                } else if i < 18 {
                    i - 2
                } else if i < 23 {
                    i - 3
                } else {
                    i - 4
                };
                hex_digit(nibble(value, k))
            },
    )
}

/// Text of a UUID value as its `Debug` form prints it (`Uuid::hyphenated`,
/// which the `uuid` crate documents as lower-case hexadecimal digits in
/// groups of 8-4-4-4-12).
#[verifier::external_body]
pub(crate) fn uuid_text(value: u128) -> (r: String)
    ensures
        r@ == uuid_hyphenated(value),
{
    uuid::Uuid::from_u128(value).hyphenated().to_string()
}

/// Value of the UUID that `Uuid::parse_str` reads from `text`, if it reads one.
pub uninterp spec fn uuid_parse(text: Seq<char>) -> Option<u128>;

/// Parses a UUID in any of the textual forms that `Uuid::parse_str` accepts
/// (simple, hyphenated, URN, braced); what is accepted is not restated here.
#[verifier::external_body]
pub(crate) fn parse_uuid(text: &str) -> (r: Option<u128>)
    ensures
        r == uuid_parse(text@),
{
    uuid::Uuid::parse_str(text).ok().map(|u| u.as_u128())
}

/// Big-endian value of 16 bytes (`Uuid::from_bytes`, then `as_u128`).
pub open spec fn be_value(bytes: Seq<u8>) -> nat
    decreases bytes.len(),
{
    if bytes.len() == 0 {
        0
    } else {
        be_value(bytes.drop_last()) * 256 + bytes.last() as nat
    }
}

/// Largest big-endian value of `n` bytes.
pub open spec fn all_ones(n: nat) -> nat
    decreases n,
{
    if n == 0 {
        0
    } else {
        all_ones((n - 1) as nat) * 256 + 255
    }
}

proof fn lemma_all_ones_monotone(a: nat, b: nat)
    requires
        a <= b,
    ensures
        all_ones(a) <= all_ones(b),
    decreases b,
{
    if a < b {
        lemma_all_ones_monotone(a, (b - 1) as nat);
    }
}

/// The UUID value of 16 big-endian bytes.
pub fn uuid_from_bytes(bytes: [u8; 16]) -> (r: u128)
    ensures
        r == be_value(bytes@),
{
    let mut v: u128 = 0;
    let mut i: usize = 0;
    assert(bytes@.take(0) =~= Seq::<u8>::empty());
    proof {
        reveal_with_fuel(all_ones, 17);
        assert(all_ones(16) == 0xffff_ffff_ffff_ffff_ffff_ffff_ffff_ffffu128);
    }
    while i < 16
        invariant
            i <= 16,
            bytes@.len() == 16,
            v == be_value(bytes@.take(i as int)),
            v <= all_ones(i as nat),
            all_ones(16) == 0xffff_ffff_ffff_ffff_ffff_ffff_ffff_ffffu128,
        decreases 16 - i,
    {
        proof {
            assert(bytes@.take(i + 1).drop_last() =~= bytes@.take(i as int));
            lemma_all_ones_monotone((i + 1) as nat, 16);
        }
        v = v * 256 + bytes[i] as u128;
        i = i + 1;
    }
    assert(bytes@.take(16) =~= bytes@);
    v
}

/// Computes a stable non-cryptographic identity component for provider keys.
pub fn fnv1a(seed: u64, bytes: &[u8]) -> (r: u64)
    ensures
        r == fnv1a_spec(seed, bytes@),
{
    let mut hash = seed;
    let mut i: usize = 0;
    assert(bytes@.skip(0) =~= bytes@);
    while i < bytes.len()
        invariant
            i <= bytes@.len(),
            fnv1a_spec(hash, bytes@.skip(i as int)) == fnv1a_spec(seed, bytes@),
        decreases bytes.len() - i,
    {
        assert(bytes@.skip(i as int).drop_first() =~= bytes@.skip(i + 1));
        hash = (hash ^ (bytes[i] as u64)).wrapping_mul(FNV_PRIME);
        i = i + 1;
    }
    hash
}

/// Returns a deterministic graph identity for provider-observed objects.
pub fn stable_node_id(kind: &str, identity: &str) -> (r: NodeId)
    ensures
        r == stable_id(kind@, identity@),
{
    let mut key = String::from_str("pdisks:");
    key.append(kind);
    key.append(":");
    key.append(identity);
    proof {
        reveal_strlit("pdisks:");
        reveal_strlit(":");
    }
    let bytes = key.as_str().as_bytes();
    let high = fnv1a(HIGH_SEED, bytes);
    let low = fnv1a(LOW_SEED, bytes);
    proof {
        assert(key@ =~= identity_key(kind@, identity@));
    }
    NodeId(((high as u128) << 64u128) | (low as u128))
}

/// Returns the shared cross-provider identity for a Linux block path.
pub fn block_node_id(path: &str) -> (r: NodeId)
    ensures
        r == block_id(path@),
{
    stable_node_id("block-path", path)
}

/// Returns the shared cross-provider identity for content on a Linux block path.
pub fn content_node_id(path: &str) -> (r: NodeId)
    ensures
        r == content_id(path@),
{
    stable_node_id("content-path", path)
}

} // verus!

//! The outcome generator: a pocket drawn from a SHA-256 digest of data
//! already committed to the chain (clock, chain identity, height, bets).

use crate::types::Bet;
use sha2::{Digest, Sha256};
use vstd::prelude::*;
use vstd::utf8::encode_utf8;

verus! {

/// Number of pockets on the wheel, 0 to 36.
pub const POCKETS: u64 = 37;

/// The SHA-256 digest of a byte string.
pub uninterp spec fn sha256_of(data: Seq<u8>) -> Seq<u8>;

/// Relies on sha2's `Sha256::digest`: the 32-byte SHA-256 digest of `data`.
#[verifier::external_body]
fn sha256(data: &Vec<u8>) -> (r: Vec<u8>)
    ensures
        r@ == sha256_of(data@),
        r@.len() == 32,
{
    Sha256::digest(data.as_slice()).to_vec()
}

/// The eight bytes of `x`, least significant first.
pub open spec fn le8(x: u64) -> Seq<u8> {
    seq![
        (x % 0x100) as u8,
        (x / 0x100 % 0x100) as u8,
        (x / 0x1_0000 % 0x100) as u8,
        (x / 0x100_0000 % 0x100) as u8,
        (x / 0x1_0000_0000 % 0x100) as u8,
        (x / 0x100_0000_0000 % 0x100) as u8,
        (x / 0x1_0000_0000_0000 % 0x100) as u8,
        (x / 0x100_0000_0000_0000 % 0x100) as u8,
    ]
}

/// The unsigned integer whose little-endian bytes are the first eight of `b`.
pub open spec fn le_value(b: Seq<u8>) -> int
    recommends
        b.len() >= 8,
{
    b[0] + 0x100 * b[1] + 0x1_0000 * b[2] + 0x100_0000 * b[3] + 0x1_0000_0000 * b[4]
        + 0x100_0000_0000 * b[5] + 0x1_0000_0000_0000 * b[6] + 0x100_0000_0000_0000 * b[7]
}

/// The pocket that a digest selects: its first eight bytes read as a
/// little-endian integer, modulo the number of pockets.
pub open spec fn pocket_of(digest: Seq<u8>) -> u8 {
    (le_value(digest) % 37) as u8
}

/// The bytes a single bet contributes to the hash input.
pub open spec fn bet_bytes(b: Bet) -> Seq<u8> {
    encode_utf8(b.player_chain_id@) + le8(b.amount) + b.numbers@
}

/// The bytes that the bets contribute, in order.
pub open spec fn bets_bytes(bets: Seq<Bet>) -> Seq<u8>
    decreases bets.len(),
{
    if bets.len() == 0 {
        Seq::empty()
    } else {
        bets_bytes(bets.drop_last()) + bet_bytes(bets.last())
    }
}

/// The whole hash input: clock, chain identity, height, every bet in order,
/// then the number of bets.
pub open spec fn seed_bytes(bets: Seq<Bet>, chain_id: Seq<char>, height: u64, micros: u64) -> Seq<
    u8,
> {
    le8(micros) + encode_utf8(chain_id) + le8(height) + bets_bytes(bets) + le8(bets.len() as u64)
}

/// The pocket drawn for a round.
pub open spec fn drawn_pocket(bets: Seq<Bet>, chain_id: Seq<char>, height: u64, micros: u64) -> u8 {
    pocket_of(sha256_of(seed_bytes(bets, chain_id, height, micros)))
}

/// The little-endian bytes of `x`.
pub fn to_le8(x: u64) -> (r: Vec<u8>)
    ensures
        r@ == le8(x),
{
    let mut r: Vec<u8> = Vec::new();
    r.push((x % 0x100) as u8);
    r.push((x / 0x100 % 0x100) as u8);
    r.push((x / 0x1_0000 % 0x100) as u8);
    r.push((x / 0x100_0000 % 0x100) as u8);
    r.push((x / 0x1_0000_0000 % 0x100) as u8);
    r.push((x / 0x100_0000_0000 % 0x100) as u8);
    r.push((x / 0x1_0000_0000_0000 % 0x100) as u8);
    r.push((x / 0x100_0000_0000_0000 % 0x100) as u8);
    assert(r@ =~= le8(x));
    r
}

fn append_bytes(out: &mut Vec<u8>, src: &[u8])
    ensures
        final(out)@ == old(out)@ + src@,
{
    let mut i: usize = 0;
    while i < src.len()
        invariant
            0 <= i <= src@.len(),
            out@ == old(out)@ + src@.subrange(0, i as int),
        decreases src@.len() - i,
    {
        out.push(src[i]);
        i = i + 1;
        assert(out@ =~= old(out)@ + src@.subrange(0, i as int));
    }
    assert(src@.subrange(0, src@.len() as int) =~= src@);
}

/// The hash input for a round; see `seed_bytes`.
pub fn seed(bets: &Vec<Bet>, chain_id: &String, height: u64, micros: u64) -> (r: Vec<u8>)
    ensures
        r@ == seed_bytes(bets@, chain_id@, height, micros),
{
    let mut out = to_le8(micros);
    append_bytes(&mut out, chain_id.as_str().as_bytes());
    append_bytes(&mut out, to_le8(height).as_slice());
    let ghost head = out@;
    let mut i: usize = 0;
    while i < bets.len()
        invariant
            0 <= i <= bets@.len(),
            out@ == head + bets_bytes(bets@.take(i as int)),
        decreases bets@.len() - i,
    {
        let b = &bets[i];
        append_bytes(&mut out, b.player_chain_id.as_str().as_bytes());
        append_bytes(&mut out, to_le8(b.amount).as_slice());
        append_bytes(&mut out, b.numbers.as_slice());
        assert(bets@.take(i + 1).drop_last() =~= bets@.take(i as int));
        i = i + 1;
        assert(out@ =~= head + bets_bytes(bets@.take(i as int)));
    }
    assert(bets@.take(bets@.len() as int) =~= bets@);
    append_bytes(&mut out, to_le8(bets.len() as u64).as_slice());
    assert(out@ =~= seed_bytes(bets@, chain_id@, height, micros));
    out
}

/// Reads a pocket from a digest: its first eight bytes as a little-endian
/// integer, modulo the number of pockets.
pub fn pocket_from_digest(digest: &[u8]) -> (r: u8)
    requires
        digest@.len() >= 8,
    ensures
        r == pocket_of(digest@),
        r < 37,
{
    let v: u64 = digest[0] as u64 + 0x100 * (digest[1] as u64) + 0x1_0000 * (digest[2] as u64)
        + 0x100_0000 * (digest[3] as u64) + 0x1_0000_0000 * (digest[4] as u64) + 0x100_0000_0000 * (
    digest[5] as u64) + 0x1_0000_0000_0000 * (digest[6] as u64) + 0x100_0000_0000_0000 * (
    digest[7] as u64);
    (v % POCKETS) as u8
}

/// Draws the winning pocket of a round from the bets, the host chain's
/// identity, the block height and the clock. Equal inputs draw equal pockets.
pub fn draw_pocket(bets: &Vec<Bet>, chain_id: &String, height: u64, micros: u64) -> (r: u8)
    ensures
        r == drawn_pocket(bets@, chain_id@, height, micros),
        r < 37,
{
    let input = seed(bets, chain_id, height, micros);
    let digest = sha256(&input);
    pocket_from_digest(digest.as_slice())
}

/// The draw is a function of its inputs: the same bets, chain identity,
/// height and clock reading always give the same pocket, and it lies on the wheel.
pub proof fn lemma_draw_deterministic(
    bets1: Seq<Bet>,
    bets2: Seq<Bet>,
    chain1: Seq<char>,
    chain2: Seq<char>,
    height1: u64,
    height2: u64,
    micros1: u64,
    micros2: u64,
)
    requires
        bets1.len() == bets2.len(),
        forall|i: int| 0 <= i < bets1.len() ==> #[trigger] bets1[i]@ == bets2[i]@,
        chain1 == chain2,
        height1 == height2,
        micros1 == micros2,
    ensures
        drawn_pocket(bets1, chain1, height1, micros1) == drawn_pocket(
            bets2,
            chain2,
            height2,
            micros2,
        ),
        drawn_pocket(bets1, chain1, height1, micros1) < 37,
{
    lemma_bets_bytes_by_view(bets1, bets2);
}

/// The bytes of the bets depend on what each bet holds, not on which value holds it.
proof fn lemma_bets_bytes_by_view(bets1: Seq<Bet>, bets2: Seq<Bet>)
    requires
        bets1.len() == bets2.len(),
        forall|i: int| 0 <= i < bets1.len() ==> #[trigger] bets1[i]@ == bets2[i]@,
    ensures
        bets_bytes(bets1) == bets_bytes(bets2),
    decreases bets1.len(),
{
    if bets1.len() > 0 {
        let n = bets1.len() - 1;
        assert(bets1[n]@ == bets2[n]@);
        lemma_bets_bytes_by_view(bets1.drop_last(), bets2.drop_last());
    }
}

} // verus!

//! Task and feature id generation.

use sha2::Digest;
use vstd::prelude::*;

use crate::dag::crud::first_free;
use crate::dag::model::{DagError, DagErrorView, Db};
use crate::text::number::{hex, hex_text, is_hex_digit, lemma_hex};

verus! {

/// The SHA-256 digest of a byte string.
pub uninterp spec fn sha256_digest(data: Seq<u8>) -> Seq<u8>;

/// `sha2::Sha256::digest` hashes the whole of `data`. The digest depends on the
/// bytes alone and is 32 bytes long.
#[verifier::external_body]
fn sha256(data: &Vec<u8>) -> (r: Vec<u8>)
    ensures
        r@ == sha256_digest(data@),
        r@.len() == 32,
{
    sha2::Sha256::digest(data.as_slice()).to_vec()
}

/// The lowest `width` bytes of `n`, least significant first.
pub open spec fn le_bytes(n: nat, width: nat) -> Seq<u8>
    decreases width,
{
    if width == 0 {
        Seq::empty()
    } else {
        seq![(n % 256) as u8] + le_bytes(n / 256, (width - 1) as nat)
    }
}

/// What is hashed for an id: the time in nanoseconds, then the counter.
pub open spec fn seed_bytes(timestamp: u128, counter: u64) -> Seq<u8> {
    le_bytes(timestamp as nat, 16) + le_bytes(counter as nat, 8)
}

/// The id made of a prefix and the first three bytes of a digest.
pub open spec fn id_text(prefix: Seq<char>, digest: Seq<u8>) -> Seq<char> {
    prefix + hex(digest[0] as nat, 2) + hex(digest[1] as nat, 2) + hex(digest[2] as nat, 2)
}

/// The ids that the seeds give, in order.
pub open spec fn seeded_ids(seeds: Seq<(u128, u64)>) -> Seq<Seq<char>> {
    seeds.map_values(|s: (u128, u64)| id_text("t-"@, sha256_digest(seed_bytes(s.0, s.1))))
}

/// An id is its prefix and six hexadecimal digits.
pub proof fn law_id_format(prefix: Seq<char>, digest: Seq<u8>)
    ensures
        id_text(prefix, digest).len() == prefix.len() + 6,
        id_text(prefix, digest).take(prefix.len() as int) == prefix,
        forall|i: int|
            prefix.len() <= i < prefix.len() + 6 ==> is_hex_digit(
                #[trigger] id_text(prefix, digest)[i],
            ),
{
    lemma_hex(digest[0] as nat, 2);
    lemma_hex(digest[1] as nat, 2);
    lemma_hex(digest[2] as nat, 2);
    assert(id_text(prefix, digest).take(prefix.len() as int) =~= prefix);
    let n = prefix.len();
    assert forall|i: int| n <= i < n + 6 implies is_hex_digit(
        #[trigger] id_text(prefix, digest)[i],
    ) by {
        if i < n + 2 {
            assert(id_text(prefix, digest)[i] == hex(digest[0] as nat, 2)[i - n]);
        } else if i < n + 4 {
            assert(id_text(prefix, digest)[i] == hex(digest[1] as nat, 2)[i - n - 2]);
        } else {
            assert(id_text(prefix, digest)[i] == hex(digest[2] as nat, 2)[i - n - 4]);
        }
    }
}

/// Appends the lowest `width` bytes of `n`, least significant first.
pub fn push_le_bytes(out: &mut Vec<u8>, n: u128, width: usize)
    ensures
        final(out)@ == old(out)@ + le_bytes(n as nat, width as nat),
    decreases width,
{
    if width == 0 {
        assert(out@ + le_bytes(n as nat, 0) =~= out@);
    } else {
        let ghost before = out@;
        out.push((n % 256) as u8);
        push_le_bytes(out, n / 256, width - 1);
        assert(before + le_bytes(n as nat, width as nat) =~= before.push((n % 256) as u8)
            + le_bytes((n / 256) as nat, (width - 1) as nat));
    }
}

/// The id made of a prefix and the first three bytes of a digest.
pub fn id_from_digest(prefix: &str, digest: &Vec<u8>) -> (r: String)
    requires
        digest@.len() >= 3,
    ensures
        r@ == id_text(prefix@, digest@),
{
    let mut r = prefix.to_owned();
    r.append(hex_text(digest[0] as u64, 2).as_str());
    r.append(hex_text(digest[1] as u64, 2).as_str());
    r.append(hex_text(digest[2] as u64, 2).as_str());
    r
}

/// The id for a prefix, a time and a counter.
fn generate_id(prefix: &str, timestamp: u128, counter: u64) -> (r: String)
    ensures
        r@ == id_text(prefix@, sha256_digest(seed_bytes(timestamp, counter))),
{
    let mut data: Vec<u8> = Vec::new();
    push_le_bytes(&mut data, timestamp, 16);
    push_le_bytes(&mut data, counter as u128, 8);
    assert(data@ =~= seed_bytes(timestamp, counter));
    let digest = sha256(&data);
    id_from_digest(prefix, &digest)
}

/// Generates a new task ID: `t-` and six hexadecimal digits of the SHA-256 of
/// the time in nanoseconds and a counter.
pub fn generate_task_id(timestamp: u128, counter: u64) -> (r: String)
    ensures
        r@ == id_text("t-"@, sha256_digest(seed_bytes(timestamp, counter))),
{
    generate_id("t-", timestamp, counter)
}

/// Generates a new feature ID: `f-` and six hexadecimal digits.
pub fn generate_feature_id(timestamp: u128, counter: u64) -> (r: String)
    ensures
        r@ == id_text("f-"@, sha256_digest(seed_bytes(timestamp, counter))),
{
    generate_id("f-", timestamp, counter)
}

impl Db {
    /// Generates task ids, one per seed, until one is not taken.
    ///
    /// Gives up once every seed has been tried.
    pub fn generate_and_insert_task_id(&self, seeds: &Vec<(u128, u64)>) -> (r: Result<
        String,
        DagError,
    >)
        requires
            seeds@.len() > 0,
        ensures
            match first_free(self@.tasks, seeded_ids(seeds@), 0) {
                Some(k) => r is Ok && r->Ok_0@ == seeded_ids(seeds@)[k],
                None => r is Err && r->Err_0@ == DagErrorView::IdsExhausted(seeds@.len()),
            },
    {
        let mut attempt: usize = 0;
        while attempt < seeds.len()
            invariant
                attempt <= seeds@.len(),
                first_free(self@.tasks, seeded_ids(seeds@), 0) == first_free(
                    self@.tasks,
                    seeded_ids(seeds@),
                    attempt as int,
                ),
            decreases seeds@.len() - attempt,
        {
            let id = generate_task_id(seeds[attempt].0, seeds[attempt].1);
            assert(seeded_ids(seeds@)[attempt as int] == id@);
            if self.find_task(id.as_str()).is_none() {
                return Ok(id);
            }
            attempt = attempt + 1;
        }
        Err(DagError::IdsExhausted(seeds.len()))
    }
}

/// How many numbers so many bytes can tell apart.
pub open spec fn room(width: nat) -> nat
    decreases width,
{
    if width == 0 {
        1
    } else {
        256 * room((width - 1) as nat)
    }
}

proof fn lemma_le_bytes(a: nat, b: nat, width: nat)
    requires
        a < room(width),
        b < room(width),
    ensures
        le_bytes(a, width).len() == width,
        le_bytes(a, width) == le_bytes(b, width) ==> a == b,
    decreases width,
{
    if width > 0 {
        let w = (width - 1) as nat;
        lemma_le_bytes(a / 256, b / 256, w);
        lemma_le_bytes(b / 256, a / 256, w);
        let x = le_bytes(a, width);
        let y = le_bytes(b, width);
        assert(x[0] == (a % 256) as u8 && y[0] == (b % 256) as u8);
        assert(x.drop_first() =~= le_bytes(a / 256, w));
        assert(y.drop_first() =~= le_bytes(b / 256, w));
    }
}

/// What is hashed for an id is 24 bytes, and it tells every time and every counter
/// apart: two calls within one nanosecond hash different bytes. The lowest bytes
/// of the time and of the counter come first.
pub proof fn law_seeds_differ(time: u128, counter: u64, other_time: u128, other_counter: u64)
    ensures
        seed_bytes(time, counter).len() == 24,
        seed_bytes(time, counter)[0] == time % 256,
        seed_bytes(time, counter)[16] == counter % 256,
        seed_bytes(time, counter) == seed_bytes(other_time, other_counter) ==> time == other_time
            && counter == other_counter,
{
    reveal_with_fuel(room, 17);
    assert(room(8) == 0x1_0000_0000_0000_0000);
    assert(room(16) == 0x1_0000_0000_0000_0000_0000_0000_0000_0000);
    lemma_le_bytes(time as nat, other_time as nat, 16);
    lemma_le_bytes(other_time as nat, time as nat, 16);
    lemma_le_bytes(counter as nat, other_counter as nat, 8);
    lemma_le_bytes(other_counter as nat, counter as nat, 8);
    let a = seed_bytes(time, counter);
    let b = seed_bytes(other_time, other_counter);
    assert(a.take(16) =~= le_bytes(time as nat, 16) && a.skip(16) =~= le_bytes(counter as nat, 8));
    assert(b.take(16) =~= le_bytes(other_time as nat, 16));
    assert(b.skip(16) =~= le_bytes(other_counter as nat, 8));
}

} // verus!

//! Cryptographically secure random data generation.
//!
//! A fast-key-erasure construction around a ChaCha20-based random number
//! generator: the first 32 bytes of the pool are the next seed, the
//! `available` bytes after them are output, handed out from the end and
//! erased once handed out. When the output is used up, the pool is
//! regenerated from the seed it holds.

use rand_chacha::rand_core::{Rng, SeedableRng};
use vstd::prelude::*;
use zeroize::Zeroize;

use crate::errno::Errno;

verus! {

/// Reseed every second.
pub const RESEED_INTERVAL: u64 = 1_000_000;
/// The number of output bytes the pool holds.
pub const POOL_SIZE: usize = 736;
/// The size of a seed.
pub const SEED_SIZE: usize = 32;
/// The number of ChaCha20 blocks one pool takes.
pub const POOL_BLOCKS: u64 = 12;

/// The ChaCha20 keystream of `seed` from the 32-bit word `word_pos` on,
/// `len` bytes long.
pub uninterp spec fn chacha20_keystream(seed: Seq<u8>, word_pos: u128, len: nat) -> Seq<u8>;

/// The number of 32-bit words in a ChaCha20 block.
pub const BLOCK_WORDS: u128 = 16;

/// The generator's word positions wrap around here: its block counter has
/// 64 bits, and a block has 16 words.
pub const WORD_POS_LIMIT: u128 = 0x10_0000_0000_0000_0000;

/// The word position at which block `block_pos` starts.
pub open spec fn word_pos_of(block_pos: u64) -> u128 {
    (block_pos * BLOCK_WORDS) as u128
}

/// Fills `dest` with the ChaCha20 keystream of `seed` from the word
/// `word_pos` on, through `ChaCha20Rng::from_seed`, `set_word_pos` and
/// `fill_bytes`, and returns the word position that `get_word_pos` reports
/// afterwards: the generator consumes whole 32-bit words, and its position
/// wraps around at 2^68. The generator's state is not erased afterwards.
#[verifier::external_body]
fn chacha20_fill(seed: [u8; 32], word_pos: u128, dest: &mut [u8]) -> (next_word_pos: u128)
    requires
        word_pos < WORD_POS_LIMIT,
    ensures
        final(dest)@ == chacha20_keystream(seed@, word_pos, old(dest)@.len()),
        next_word_pos == (word_pos + (old(dest)@.len() + 3) / 4) % WORD_POS_LIMIT as int,
    no_unwind
{
    let mut rng = rand_chacha::ChaCha20Rng::from_seed(seed);
    rng.set_word_pos(word_pos);
    rng.fill_bytes(dest);
    rng.get_word_pos()
}

/// `s` with the bytes in `start..end` set to zero.
pub open spec fn zeroed(s: Seq<u8>, start: int, end: int) -> Seq<u8> {
    Seq::new(s.len(), |i: int| if start <= i < end { 0u8 } else { s[i] })
}

/// Erases the bytes in `start..end` of `buf` with `Zeroize::zeroize`.
#[verifier::external_body]
fn zeroize_range(buf: &mut [u8; 768], start: usize, end: usize)
    requires
        start <= end <= 768,
    ensures
        final(buf)@ == zeroed(old(buf)@, start as int, end as int),
    no_unwind
{
    buf[start..end].zeroize();
}

/// Erases a seed with `Zeroize::zeroize`.
#[verifier::external_body]
fn zeroize_seed(seed: &mut [u8; 32])
    ensures
        final(seed)@ == zeroed(old(seed)@, 0, 32),
{
    seed.zeroize();
}

/// A pool's worth of keystream, 768 bytes, moves the word position on by
/// 192 words, that is the block position by [`POOL_BLOCKS`] blocks.
proof fn lemma_pool_words(bp: u64, next: u128)
    requires
        next == (bp * 16 + (768 + 3) / 4) % WORD_POS_LIMIT as int,
    ensures
        next / 16 == (bp + POOL_BLOCKS) % 0x1_0000_0000_0000_0000,
        next / 16 < 0x1_0000_0000_0000_0000,
{
    let b = bp as int;
    if b + 12 < 0x1_0000_0000_0000_0000 {
        assert(b * 16 + 192 < 0x10_0000_0000_0000_0000);
        assert(next == b * 16 + 192);
        assert((b * 16 + 192) / 16 == b + 12);
    } else {
        let c = b + 12 - 0x1_0000_0000_0000_0000;
        assert(b * 16 + 192 == 0x10_0000_0000_0000_0000 + c * 16);
        assert(next == c * 16);
        assert((c * 16) / 16 == c);
    }
}

/// The state of a pool after it was regenerated from its seed.
pub open spec fn reseeded_pool(pool: Seq<u8>, block_pos: u64) -> Seq<u8> {
    chacha20_keystream(pool.subrange(0, SEED_SIZE as int), word_pos_of(block_pos), 768)
}

/// What drawing `n` bytes from a pool holding `pool` at block position
/// `block_pos` with `avail` bytes available gives: the output, then the
/// pool's bytes, block position and available count afterwards.
pub open spec fn pool_fill(pool: Seq<u8>, block_pos: u64, avail: int, n: int) -> (
    Seq<u8>,
    Seq<u8>,
    u64,
    int,
)
    decreases n, if avail > 0 {
        0int
    } else {
        1int
    },
{
    if n <= 0 {
        (Seq::empty(), pool, block_pos, avail)
    } else if avail > 0 {
        let len = if avail <= n {
            avail
        } else {
            n
        };
        let chunk = pool.subrange(SEED_SIZE + avail - len, SEED_SIZE + avail);
        let rest = pool_fill(
            zeroed(pool, SEED_SIZE + avail - len, SEED_SIZE + avail),
            block_pos,
            avail - len,
            n - len,
        );
        (chunk + rest.0, rest.1, rest.2, rest.3)
    } else {
        pool_fill(
            reseeded_pool(pool, block_pos),
            ((block_pos + POOL_BLOCKS) % 0x1_0000_0000_0000_0000) as u64,
            POOL_SIZE as int,
            n,
        )
    }
}

/// What a pool holds: its bytes (the next seed, then the output), the
/// ChaCha20 block position it carries over, how many output bytes are left,
/// and when it was last reseeded.
pub struct PoolState {
    pub bytes: Seq<u8>,
    pub block_pos: u64,
    pub available: int,
    pub last_reseed: u64,
}

/// The random number pool.
pub struct Pool {
    seed_pool: [u8; 768],
    block_pos: u64,
    available: usize,
    last_reseed: u64,
}

impl View for Pool {
    type V = PoolState;

    closed spec fn view(&self) -> PoolState {
        PoolState {
            bytes: self.seed_pool@,
            block_pos: self.block_pos,
            available: self.available as int,
            last_reseed: self.last_reseed,
        }
    }
}

impl Pool {
    #[verifier::type_invariant]
    spec fn inv(self) -> bool {
        self.available <= POOL_SIZE
    }

    /// The invariant of every pool, as its view shows it.
    pub open spec fn wf(&self) -> bool {
        &&& self@.bytes.len() == SEED_SIZE + POOL_SIZE
        &&& 0 <= self@.available <= POOL_SIZE
    }

    /// Regenerates the pool from `seed`: the next seed and a pool's worth of
    /// output, carrying the block position over.
    pub fn reseed(&mut self, seed: &[u8; 32])
        ensures
            final(self).wf(),
            final(self)@.bytes == chacha20_keystream(seed@, word_pos_of(old(self)@.block_pos), 768),
            final(self)@.block_pos == (old(self)@.block_pos + POOL_BLOCKS)
                % 0x1_0000_0000_0000_0000,
            final(self)@.available == POOL_SIZE,
            final(self)@.last_reseed == old(self)@.last_reseed,
    {
        proof {
            use_type_invariant(&*self);
        }
        let bp = self.block_pos;
        let word_pos = (bp as u128) * BLOCK_WORDS;
        let next = chacha20_fill(*seed, word_pos, &mut self.seed_pool);
        proof {
            lemma_pool_words(bp, next);
        }
        self.block_pos = (next / BLOCK_WORDS) as u64;
        self.available = POOL_SIZE;
    }

    /// Fills `bytes` with random data from the pool, regenerating the pool
    /// whenever its output is used up.
    pub fn fill_bytes(&mut self, bytes: &mut [u8])
        ensures
            final(self).wf(),
            ({
                let f = pool_fill(
                    old(self)@.bytes,
                    old(self)@.block_pos,
                    old(self)@.available,
                    old(bytes)@.len() as int,
                );
                &&& final(bytes)@ == f.0
                &&& final(self)@.bytes == f.1
                &&& final(self)@.block_pos == f.2
                &&& final(self)@.available == f.3
            }),
            final(self)@.last_reseed == old(self)@.last_reseed,
    {
        proof {
            use_type_invariant(&*self);
        }
        let n = bytes.len();
        let mut pos: usize = 0;
        let ghost out_len = n as int;
        while pos < n
            invariant
                self.wf(),
                n == bytes@.len(),
                0 <= pos <= n,
                bytes@.len() == old(bytes)@.len(),
                self@.last_reseed == old(self)@.last_reseed,
                ({
                    let rest = pool_fill(
                        self@.bytes,
                        self@.block_pos,
                        self@.available,
                        n - pos,
                    );
                    let total = pool_fill(
                        old(self)@.bytes,
                        old(self)@.block_pos,
                        old(self)@.available,
                        n as int,
                    );
                    &&& bytes@.subrange(0, pos as int) + rest.0 == total.0
                    &&& rest.1 == total.1
                    &&& rest.2 == total.2
                    &&& rest.3 == total.3
                }),
            decreases n - pos, if self.available > 0 {
                0int
            } else {
                1int
            },
        {
            if self.available > 0 {
                let remaining = n - pos;
                let len = if self.available <= remaining {
                    self.available
                } else {
                    remaining
                };
                let start = SEED_SIZE + self.available - len;
                let ghost before = bytes@;
                let ghost pool_before = self@.bytes;
                let mut i: usize = 0;
                while i < len
                    invariant
                        0 <= i <= len,
                        pos + len <= n,
                        n == bytes@.len(),
                        start + len <= 768,
                        self.seed_pool@ == pool_before,
                        pool_before.len() == 768,
                        bytes@.len() == before.len(),
                        forall|j: int| 0 <= j < pos ==> #[trigger] bytes@[j] == before[j],
                        forall|j: int| 0 <= j < i ==> #[trigger] bytes@[pos + j] == pool_before[start + j],
                    decreases len - i,
                {
                    let b = self.seed_pool[start + i];
                    bytes[pos + i] = b;
                    i = i + 1;
                }
                zeroize_range(&mut self.seed_pool, start, start + len);
                self.available = self.available - len;
                proof {
                    let chunk = pool_before.subrange(start as int, (start + len) as int);
                    assert forall|k: int| pos <= k < pos + len implies bytes@[k] == chunk[k - pos] by {
                        let j = k - pos;
                        assert(bytes@[pos + j] == pool_before[start + j]);
                    }
                    assert(bytes@.subrange(0, (pos + len) as int) =~= before.subrange(0, pos as int) + chunk);
                    let rest_before = pool_fill(pool_before, self@.block_pos, (self.available + len) as int, n - pos);
                    let rest_after = pool_fill(self@.bytes, self@.block_pos, self@.available, n - pos - len);
                    assert(rest_before.0 == chunk + rest_after.0);
                    assert(before.subrange(0, pos as int) + (chunk + rest_after.0)
                        =~= (before.subrange(0, pos as int) + chunk) + rest_after.0);
                }
                pos = pos + len;
            } else {
                let mut seed: [u8; 32] = [0u8; 32];
                let mut k: usize = 0;
                while k < SEED_SIZE
                    invariant
                        0 <= k <= 32,
                        self.seed_pool@.len() == 768,
                        forall|j: int| 0 <= j < k ==> #[trigger] seed@[j] == self.seed_pool@[j],
                    decreases 32 - k,
                {
                    seed[k] = self.seed_pool[k];
                    k = k + 1;
                }
                assert(seed@ =~= self@.bytes.subrange(0, SEED_SIZE as int));
                self.reseed(&seed);
                zeroize_seed(&mut seed);
            }
        }
        assert(bytes@.subrange(0, n as int) =~= bytes@);
        proof {
            let rest = pool_fill(self@.bytes, self@.block_pos, self@.available, 0);
            assert(rest.0 =~= Seq::<u8>::empty());
            assert(bytes@ + Seq::<u8>::empty() =~= bytes@);
        }
    }
}

/// Options of a read. None are defined yet.
#[derive(Clone, Copy, Debug, PartialEq, Eq)]
pub struct Flags {
    bits: u32,
}

impl Flags {
    /// The empty set of options.
    pub fn empty() -> (f: Flags)
        ensures
            f.bits() == 0,
    {
        Flags { bits: 0 }
    }

    pub closed spec fn bits(&self) -> u32 {
        self.bits
    }
}

/// Whether a pool last reseeded at `last_reseed` is due for a new seed at
/// time `now`.
pub open spec fn reseed_due(last_reseed: u64, now: u64) -> bool {
    now - last_reseed > RESEED_INTERVAL
}

/// The pool a read works on: a new one from `seed` where there was none, the
/// old one regenerated from `seed` where it was due for a reseed and a seed
/// came, and the old one as it was otherwise. `None` where there is neither a
/// pool nor a seed.
pub open spec fn prepared(pool: Option<Pool>, now: u64, seed: Option<[u8; 32]>) -> Option<PoolState> {
    match pool {
        None => match seed {
            None => None,
            Some(s) => Some(
                PoolState {
                    bytes: chacha20_keystream(s@, 0u128, 768),
                    block_pos: POOL_BLOCKS,
                    available: POOL_SIZE as int,
                    last_reseed: now,
                },
            ),
        },
        Some(p) => match seed {
            Some(s) => if reseed_due(p@.last_reseed, now) {
                Some(
                    PoolState {
                        bytes: chacha20_keystream(s@, word_pos_of(p@.block_pos), 768),
                        block_pos: ((p@.block_pos + POOL_BLOCKS) % 0x1_0000_0000_0000_0000) as u64,
                        available: POOL_SIZE as int,
                        last_reseed: now,
                    },
                )
            } else {
                Some(p@)
            },
            None => Some(p@),
        },
    }
}

/// Whether a read fails: when there is neither a pool nor a seed.
pub open spec fn read_fails(pool: Option<Pool>, seed: Option<[u8; 32]>) -> bool {
    pool is None && seed is None
}

/// Once a read succeeded, every later read succeeds too: a read that finds a
/// pool never fails, whatever seed it is handed, and works on a pool again.
pub proof fn lemma_read_keeps_working(p: Pool, now: u64, seed: Option<[u8; 32]>)
    ensures
        !read_fails(Some(p), seed),
        prepared(Some(p), now, seed) is Some,
{
}

/// A read that reseeds the pool records when: where a pool was due for a
/// reseed and a seed came, or where the first pool is made from a seed, the
/// pool afterwards was last reseeded at `now` and asks for no new seed for
/// [`RESEED_INTERVAL`] ticks; a read that does not reseed keeps the time of
/// the last reseed.
pub proof fn lemma_reseed_time(pool: Option<Pool>, now: u64, seed: Option<[u8; 32]>, len: nat)
    requires
        !read_fails(pool, seed),
    ensures
        ({
            let after = read_outcome(prepared(pool, now, seed).unwrap(), len).1;
            &&& seed is Some && (pool is None || reseed_due(pool.unwrap()@.last_reseed, now)) ==> {
                &&& after.last_reseed == now
                &&& forall|t: u64|
                    now <= t <= now + RESEED_INTERVAL ==> !#[trigger] reseed_due(after.last_reseed, t)
            }
            &&& pool is Some && (seed is None || !reseed_due(pool.unwrap()@.last_reseed, now))
                ==> after.last_reseed == pool.unwrap()@.last_reseed
        }),
{
}

/// What reading `len` bytes from a pool in state `st` gives: the bytes read
/// and the state of the pool afterwards. A request up to [`POOL_SIZE`] bytes
/// is served from the pool; a larger one draws a seed from the pool and
/// expands it with ChaCha20.
pub open spec fn read_outcome(st: PoolState, len: nat) -> (Seq<u8>, PoolState) {
    let n = if len <= POOL_SIZE {
        len as int
    } else {
        SEED_SIZE as int
    };
    let f = pool_fill(st.bytes, st.block_pos, st.available, n);
    let after = PoolState {
        bytes: f.1,
        block_pos: f.2,
        available: f.3,
        last_reseed: st.last_reseed,
    };
    if len <= POOL_SIZE {
        (f.0, after)
    } else {
        (chacha20_keystream(f.0, 0u128, len), after)
    }
}

/// Fills `buf` with random data, respecting the options in `flags`.
///
/// `pool` is the random number pool, `now` the current timer tick and `seed` the
/// fresh seed the caller obtained where [`needs_seed`] asked for one. Returns
/// the number of bytes written, or [`Errno::Nosys`] when there is neither a
/// pool nor a seed: without a seed no random data can be generated. Once a
/// read succeeded, every later read succeeds too.
pub fn read(
    pool: &mut Option<Pool>,
    now: u64,
    seed: Option<[u8; 32]>,
    buf: &mut [u8],
    _flags: Flags,
) -> (r: Result<usize, Errno>)
    ensures
        r is Err <==> read_fails(*old(pool), seed),
        r is Err ==> {
            &&& r == Err::<usize, Errno>(Errno::Nosys)
            &&& *final(pool) == *old(pool)
            &&& final(buf)@ == old(buf)@
        },
        r is Ok ==> {
            let out = read_outcome(prepared(*old(pool), now, seed).unwrap(), old(buf)@.len());
            &&& r == Ok::<usize, Errno>(old(buf)@.len() as usize)
            &&& (*final(pool)) is Some
            &&& final(pool).unwrap()@ == out.1
            &&& final(buf)@ == out.0
        },
{
    let mut p = match pool.take() {
        Some(mut p) => {
            if now.saturating_sub(p.last_reseed) > RESEED_INTERVAL {
                if let Some(s) = seed {
                    let mut s = s;
                    p.reseed(&s);
                    p.last_reseed = now;
                    zeroize_seed(&mut s);
                }
            }
            p
        },
        None => match seed {
            None => {
                return Err(Errno::Nosys);
            },
            Some(s) => {
                let mut s = s;
                let mut p = Pool { seed_pool: [0u8; 768], block_pos: 0, available: 0, last_reseed: now };
                p.reseed(&s);
                zeroize_seed(&mut s);
                p
            },
        },
    };
    let len = buf.len();
    if len <= POOL_SIZE {
        p.fill_bytes(buf);
    } else {
        let mut drawn = [0u8; 32];
        p.fill_bytes(&mut drawn);
        chacha20_fill(drawn, 0, buf);
        zeroize_seed(&mut drawn);
    }
    *pool = Some(p);
    Ok(len)
}

/// Whether a read at time `now` has to ask for a new seed first: when there
/// is no pool yet, or its last reseed lies more than [`RESEED_INTERVAL`]
/// ticks back.
pub fn needs_seed(pool: &Option<Pool>, now: u64) -> (r: bool)
    ensures
        r == match pool {
            None => true,
            Some(p) => now - p@.last_reseed > RESEED_INTERVAL,
        },
{
    match pool {
        None => true,
        Some(p) => now.saturating_sub(p.last_reseed) > RESEED_INTERVAL,
    }
}

} // verus!

use vstd::prelude::*;
use vstd::bytes::spec_u64_to_le_bytes_open;
use vstd::endian::{endianness, Endian};
use std::hash::Hasher;
use twox_hash::XxHash64;

verus! {

// ---------------------------------------------------------------------------
// Integer workload
// ---------------------------------------------------------------------------

/// Division rounding toward zero, as Rust's `/` on signed integers does, for a
/// positive divisor.
pub open spec fn div_toward_zero(x: i64, d: i64) -> int {
    if x >= 0 {
        x as int / d as int
    } else {
        -((-(x as int)) / d as int)
    }
}

/// One step of the integer workload at counter `i`: add `i`, multiply by
/// `i % 100 + 1` (both wrapping) and divide by `i % 99 + 1`.
pub open spec fn integer_step(sum: i64, i: u64) -> i64 {
    let added = sum.wrapping_add(i as i64);
    let multiplied = added.wrapping_mul((i % 100 + 1) as i64);
    div_toward_zero(multiplied, (i % 99 + 1) as i64) as i64
}

/// The value of the integer workload after the steps for counters `0..n`.
pub open spec fn integer_workload(n: nat) -> i64
    decreases n,
{
    if n == 0 {
        0
    } else {
        integer_step(integer_workload((n - 1) as nat), (n - 1) as u64)
    }
}

/// Runs the integer workload for counters `0..iterations` and returns its value.
pub fn integer_kernel(iterations: u64) -> (value: i64)
    ensures
        value == integer_workload(iterations as nat),
{
    let mut sum: i64 = 0;
    let mut i: u64 = 0;
    while i < iterations
        invariant
            0 <= i <= iterations,
            sum == integer_workload(i as nat),
        decreases iterations - i,
    {
        sum = sum.wrapping_add(i as i64);
        sum = sum.wrapping_mul((i % 100 + 1) as i64);
        let divisor = (i % 99 + 1) as i64;
        sum = match sum.checked_div(divisor) {
            Some(quotient) => quotient,
            None => sum,
        };
        i = i + 1;
    }
    sum
}

// ---------------------------------------------------------------------------
// Hash workload
// ---------------------------------------------------------------------------

#[verifier::external_type_specification]
#[verifier::external_body]
pub struct ExXxHash64(XxHash64);

/// The 64-bit xxHash digest of `bytes` under `seed`, as `XxHash64::finish` gives it.
pub uninterp spec fn xxh64_digest(seed: u64, bytes: Seq<u8>) -> u64;

/// The eight bytes of `x` in the byte order of the machine (`u64::to_ne_bytes`).
pub open spec fn native_bytes(x: u64) -> Seq<u8> {
    match endianness() {
        Endian::Little => spec_u64_to_le_bytes_open(x),
        Endian::Big => spec_u64_to_le_bytes_open(x).reverse(),
    }
}

/// An `XxHash64` hasher made with seed 0, together with the bytes fed to it
/// so far. It is made only by `StreamHasher::new` and changed only by
/// `feed_bytes` and `feed_u64`, which keep `written` equal to the stream the
/// hasher has taken in.
struct StreamHasher {
    hasher: XxHash64,
    written: Ghost<Seq<u8>>,
}

/// Makes a hasher with `twox_hash::XxHash64::default()`, which the source
/// shows to be `XxHash64::with_seed(0)` with nothing taken in.
///
/// Trusted: nothing is claimed of the result; `StreamHasher::new` records
/// that it starts from the empty stream.
#[verifier::external_body]
fn fresh_hasher() -> XxHash64 {
    XxHash64::default()
}

impl StreamHasher {
    /// The bytes fed to the hasher so far, in order.
    spec fn written(&self) -> Seq<u8> {
        self.written@
    }

    /// A hasher with seed 0 that has taken in nothing.
    fn new() -> (stream: StreamHasher)
        ensures
            stream.written() == Seq::<u8>::empty(),
    {
        StreamHasher { hasher: fresh_hasher(), written: Ghost(Seq::empty()) }
    }
}

/// Feeds `bytes` to the hasher with `Hasher::write`.
///
/// Trusted: the source shows that `write` takes the bytes into the stream the
/// digest is taken over (it buffers them, folds whole 32-byte blocks into its
/// accumulators and counts them into the total length); the contract records
/// them at the end of `written`.
#[verifier::external_body]
fn feed_bytes(stream: &mut StreamHasher, bytes: &[u8])
    ensures
        final(stream).written() == old(stream).written() + bytes@,
{
    stream.hasher.write(bytes)
}

/// Feeds `x` to the hasher with `Hasher::write_u64`.
///
/// Trusted: `XxHash64` keeps std's provided `write_u64`, which passes
/// `x.to_ne_bytes()` to `write`; the contract records those eight bytes at
/// the end of `written`.
#[verifier::external_body]
fn feed_u64(stream: &mut StreamHasher, x: u64)
    ensures
        final(stream).written() == old(stream).written() + native_bytes(x),
{
    stream.hasher.write_u64(x)
}

/// Takes the digest with `Hasher::finish`.
///
/// Trusted: the contract claims the digest is the xxHash64, under seed 0, of
/// the bytes fed in, which it names (`xxh64_digest`) rather than restates.
#[verifier::external_body]
fn stream_digest(stream: &StreamHasher) -> (digest: u64)
    ensures
        digest == xxh64_digest(0, stream.written()),
{
    stream.hasher.finish()
}

/// The bytes of the text `benchmark string`.
pub open spec fn hash_marker() -> Seq<u8> {
    seq![98u8, 101, 110, 99, 104, 109, 97, 114, 107, 32, 115, 116, 114, 105, 110, 103]
}

/// The byte stream the hash workload writes for counters `0..n`: for each
/// counter its eight native-order bytes, then the text `benchmark string`.
pub open spec fn hash_stream(n: nat) -> Seq<u8>
    decreases n,
{
    if n == 0 {
        Seq::empty()
    } else {
        hash_stream((n - 1) as nat) + native_bytes((n - 1) as u64) + hash_marker()
    }
}

/// The native-order bytes of a counter are eight bytes.
proof fn lemma_native_bytes_len(x: u64)
    ensures
        native_bytes(x).len() == 8,
{
}

/// The hashed stream for `n` counters is 24 bytes per counter: counter `i`
/// takes bytes `24 * i .. 24 * i + 8` with its own native-order bytes and
/// bytes `24 * i + 8 .. 24 * i + 24` with the text `benchmark string`.
pub proof fn lemma_hash_stream_layout(n: nat)
    ensures
        hash_stream(n).len() == 24 * n,
        forall|i: int|
            0 <= i < n ==> #[trigger] hash_stream(n).subrange(24 * i, 24 * i + 8) == native_bytes(
                i as u64,
            ) && hash_stream(n).subrange(24 * i + 8, 24 * i + 24) == hash_marker(),
    decreases n,
{
    if n > 0 {
        let m = (n - 1) as nat;
        lemma_hash_stream_layout(m);
        lemma_native_bytes_len(m as u64);
        let prev = hash_stream(m);
        let whole = hash_stream(n);
        assert(whole == prev + native_bytes(m as u64) + hash_marker());
        assert(whole.len() == 24 * n);
        assert forall|i: int| 0 <= i < n implies #[trigger] whole.subrange(24 * i, 24 * i + 8)
            == native_bytes(i as u64) && whole.subrange(24 * i + 8, 24 * i + 24) == hash_marker() by {
            if i < m {
                assert(prev.subrange(24 * i, 24 * i + 8) == native_bytes(i as u64));
                assert(whole.subrange(24 * i, 24 * i + 8) =~= prev.subrange(24 * i, 24 * i + 8));
                assert(whole.subrange(24 * i + 8, 24 * i + 24) =~= prev.subrange(24 * i + 8, 24 * i + 24));
            } else {
                assert(i == m);
                assert(whole.subrange(24 * i, 24 * i + 8) =~= native_bytes(m as u64));
                assert(whole.subrange(24 * i + 8, 24 * i + 24) =~= hash_marker());
            }
        }
    }
}

/// Runs the hash workload for counters `0..iterations` with a fresh
/// `XxHash64` hasher (seed 0) and returns its digest.
pub fn hash_kernel(iterations: u64) -> (digest: u64)
    ensures
        digest == xxh64_digest(0, hash_stream(iterations as nat)),
{
    let marker: [u8; 16] = [98, 101, 110, 99, 104, 109, 97, 114, 107, 32, 115, 116, 114, 105, 110, 103];
    let marker_bytes = marker.as_slice();
    assert(marker_bytes@ =~= hash_marker());
    let mut stream = StreamHasher::new();
    let mut i: u64 = 0;
    while i < iterations
        invariant
            0 <= i <= iterations,
            marker_bytes@ == hash_marker(),
            stream.written() == hash_stream(i as nat),
        decreases iterations - i,
    {
        feed_u64(&mut stream, i);
        feed_bytes(&mut stream, marker_bytes);
        i = i + 1;
    }
    stream_digest(&stream)
}

} // verus!

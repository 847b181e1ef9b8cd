//! Content digests: SHA-256 over a stream of byte chunks, written as
//! lower-case hexadecimal.
//!
//! The compression function is the `sha2` crate's. This module feeds it,
//! tracks what has been fed, and renders the 32 bytes that come out.

use vstd::prelude::*;
use vstd::slice::slice_subrange;

verus! {

/// The running state of the `sha2` crate's SHA-256. Its type is an alias for
/// nested generic wrappers bounded by that crate's own traits, so it is held
/// here behind a private field and reached only through the three functions
/// below.
#[verifier::external_body]
pub struct Sha256State {
    inner: sha2::Sha256,
}

/// The bytes that a SHA-256 state has taken in so far, in order.
pub uninterp spec fn sha256_absorbed(s: Sha256State) -> Seq<u8>;

/// The SHA-256 digest of a byte string: what `sha2` returns from `finalize`
/// once exactly these bytes have been fed.
pub uninterp spec fn sha256(data: Seq<u8>) -> Seq<u8>;

/// `sha2::Digest::new` for `Sha256`: a state that has taken in nothing.
#[verifier::external_body]
fn sha256_start() -> (s: Sha256State)
    ensures
        sha256_absorbed(s) == Seq::<u8>::empty(),
{
    Sha256State { inner: <sha2::Sha256 as sha2::Digest>::new() }
}

/// `sha2::Digest::update` for `Sha256`: the chunk is added behind what was
/// taken in before. How the input is cut into chunks leaves no other trace.
#[verifier::external_body]
fn sha256_update(s: &mut Sha256State, chunk: &[u8])
    ensures
        sha256_absorbed(*final(s)) == sha256_absorbed(*old(s)) + chunk@,
{
    sha2::Digest::update(&mut s.inner, chunk)
}

/// `sha2::Digest::finalize` for `Sha256`: the digest of all that was taken
/// in, which is 32 bytes long.
#[verifier::external_body]
fn sha256_finalize(s: Sha256State) -> (out: Vec<u8>)
    ensures
        out@ == sha256(sha256_absorbed(s)),
        out@.len() == 32,
{
    sha2::Digest::finalize(s.inner).to_vec()
}

/// The sixteen lower-case hexadecimal digits, by value.
pub open spec fn hex_digits() -> Seq<char> {
    seq!['0', '1', '2', '3', '4', '5', '6', '7', '8', '9', 'a', 'b', 'c', 'd', 'e', 'f']
}

/// The character at position `i` of the hexadecimal form of `bytes`: the high
/// half of a byte comes before its low half.
pub open spec fn hex_char_at(bytes: Seq<u8>, i: int) -> char {
    if i % 2 == 0 {
        hex_digits()[bytes[i / 2] as int / 16]
    } else {
        hex_digits()[bytes[i / 2] as int % 16]
    }
}

/// The lower-case hexadecimal form of `bytes`: two digits for each byte.
pub open spec fn hex_of(bytes: Seq<u8>) -> Seq<char> {
    Seq::new(2 * bytes.len(), |i: int| hex_char_at(bytes, i))
}

/// Different digits are written with different characters.
proof fn lemma_digits_differ(m: int, n: int)
    requires
        0 <= m < 16,
        0 <= n < 16,
        hex_digits()[m] == hex_digits()[n],
    ensures
        m == n,
{
}

/// The hexadecimal form tells byte strings apart: two strings with the same
/// form are the same string. So files grouped by the text of their digest are
/// grouped by the digest.
pub proof fn law_hex_tells_bytes_apart(a: Seq<u8>, b: Seq<u8>)
    requires
        hex_of(a) == hex_of(b),
    ensures
        a == b,
{
    assert(hex_of(a).len() == 2 * a.len());
    assert(hex_of(b).len() == 2 * b.len());
    assert forall|i: int| 0 <= i < a.len() implies a[i] == b[i] by {
        assert(hex_of(a)[2 * i] == hex_char_at(a, 2 * i));
        assert(hex_of(b)[2 * i] == hex_char_at(b, 2 * i));
        assert(hex_of(a)[2 * i + 1] == hex_char_at(a, 2 * i + 1));
        assert(hex_of(b)[2 * i + 1] == hex_char_at(b, 2 * i + 1));
        lemma_digits_differ(a[i] as int / 16, b[i] as int / 16);
        lemma_digits_differ(a[i] as int % 16, b[i] as int % 16);
    }
    assert(a =~= b);
}

/// One hexadecimal digit as a string of length one.
fn digit_str(n: u8) -> (s: &'static str)
    requires
        n < 16,
    ensures
        s@ == seq![hex_digits()[n as int]],
{
    proof {
        reveal_strlit("0");
        reveal_strlit("1");
        reveal_strlit("2");
        reveal_strlit("3");
        reveal_strlit("4");
        reveal_strlit("5");
        reveal_strlit("6");
        reveal_strlit("7");
        reveal_strlit("8");
        reveal_strlit("9");
        reveal_strlit("a");
        reveal_strlit("b");
        reveal_strlit("c");
        reveal_strlit("d");
        reveal_strlit("e");
        reveal_strlit("f");
    }
    let s = match n {
        0 => "0",
        1 => "1",
        2 => "2",
        3 => "3",
        4 => "4",
        5 => "5",
        6 => "6",
        7 => "7",
        8 => "8",
        9 => "9",
        10 => "a",
        11 => "b",
        12 => "c",
        13 => "d",
        14 => "e",
        _ => "f",
    };
    assert(s@ =~= seq![hex_digits()[n as int]]);
    s
}

/// Writes `bytes` in lower-case hexadecimal.
pub fn to_hex(bytes: &[u8]) -> (s: String)
    ensures
        s@ == hex_of(bytes@),
{
    let mut s = String::new();
    let mut i: usize = 0;
    while i < bytes.len()
        invariant
            i <= bytes.len(),
            s@ == hex_of(bytes@.take(i as int)),
        decreases bytes.len() - i,
    {
        let b: u8 = bytes[i];
        let ghost before = s@;
        s.append(digit_str(b / 16));
        s.append(digit_str(b % 16));
        proof {
            let done = bytes@.take(i as int);
            let next = bytes@.take(i as int + 1);
            assert(s@ == before + seq![hex_digits()[b as int / 16]] + seq![
                hex_digits()[b as int % 16],
            ]);
            assert forall|k: int| 0 <= k < 2 * next.len() implies s@[k] == hex_char_at(
                next,
                k,
            ) by {
                if k < 2 * done.len() {
                    assert(s@[k] == before[k]);
                    assert(done[k / 2] == next[k / 2]);
                } else {
                    assert(k / 2 == i as int);
                    assert(next[k / 2] == b);
                }
            }
            assert(s@ =~= hex_of(next));
        }
        i += 1;
    }
    proof {
        assert(bytes@.take(bytes@.len() as int) =~= bytes@);
    }
    s
}

/// The size of the buffer through which a file is read.
pub const CHUNK_SIZE: usize = 8192;

/// A SHA-256 computation in progress. Chunks go in one by one, so the input
/// never has to be in memory as a whole.
pub struct Hasher {
    state: Sha256State,
}

impl Hasher {
    /// All the bytes fed so far, in order.
    pub closed spec fn absorbed(&self) -> Seq<u8> {
        sha256_absorbed(self.state)
    }

    /// A hasher that has been fed nothing.
    pub fn new() -> (h: Self)
        ensures
            h.absorbed() == Seq::<u8>::empty(),
    {
        Hasher { state: sha256_start() }
    }

    /// Feeds one chunk.
    pub fn update(&mut self, chunk: &[u8])
        ensures
            final(self).absorbed() == old(self).absorbed() + chunk@,
    {
        sha256_update(&mut self.state, chunk);
    }

    /// Takes in what one read of the input left in `buffer`: its first
    /// `bytes_read` bytes. A read of no bytes is the end of the input, and
    /// the answer says whether to read on.
    pub fn feed(&mut self, buffer: &[u8], bytes_read: usize) -> (more: bool)
        requires
            bytes_read <= buffer@.len(),
        ensures
            more == (bytes_read > 0),
            final(self).absorbed() == old(self).absorbed() + buffer@.take(bytes_read as int),
    {
        if bytes_read == 0 {
            proof {
                assert(self.absorbed() + buffer@.take(0) =~= self.absorbed());
            }
            false
        } else {
            self.update(slice_subrange(buffer, 0, bytes_read));
            true
        }
    }

    /// Ends the computation: the digest of all the bytes fed, as 64
    /// hexadecimal digits.
    pub fn finish(self) -> (digest: String)
        ensures
            digest@ == hex_of(sha256(self.absorbed())),
            digest@.len() == 64,
    {
        let raw = sha256_finalize(self.state);
        to_hex(raw.as_slice())
    }
}

/// The hexadecimal SHA-256 digest of `data`.
pub fn digest_hex(data: &[u8]) -> (digest: String)
    ensures
        digest@ == hex_of(sha256(data@)),
        digest@.len() == 64,
{
    let mut h = Hasher::new();
    h.update(data);
    proof {
        assert(Seq::<u8>::empty() + data@ =~= data@);
    }
    h.finish()
}

} // verus!

//! Buffers for reading a text stream in pieces: raw bytes are consumed into a small
//! byte buffer and digested into characters once they form valid UTF-8.
use vstd::prelude::*;
use vstd::string::StringSliceAdditionalSpecFns;
use vstd::utf8::{decode_utf8, encode_utf8_decode_utf8, valid_utf8};

use crate::unicode::chars_of;

verus! {

broadcast use vstd::array::group_array_axioms;

/// The capacity of the byte buffer.
pub const CONSUMED_BUFFER: usize = 8;

/// The capacity of the character buffer.
pub const DIGESTED_BUFFER: usize = 32;

/// The capacity of the buffer for the last word.
pub const LASTWORD_BUFFER: usize = 128;

/// The buffers of a stream being transliterated.
pub struct StreamProcessor {
    pub buffer_consumed: [u8; CONSUMED_BUFFER],
    pub buffer_digested: [char; DIGESTED_BUFFER],
    pub buffer_lastword: [char; LASTWORD_BUFFER],
    pub consumed: usize,
    pub digested: usize,
    pub lastword: usize,
    pub direction: Direction,
}

/// An error of the stream buffers.
#[derive(Debug)]
pub enum Error {
    EmptyDigest,
    /// The character buffer cannot take the decoded characters.
    BufferOverflow,
    /// The bytes are not UTF-8 from their start on; the number of valid bytes before
    /// the fault.
    UTFError(usize),
}

/// The direction of a stream.
#[derive(PartialEq, Eq, Structural, Clone, Copy, Debug)]
pub enum Direction {
    LatToCyr,
    CyrToLat,
}

/// The length of the longest prefix of `b`, of at most `n` bytes, that is valid UTF-8.
pub open spec fn longest_valid(b: Seq<u8>, n: int) -> int
    decreases n,
{
    if n <= 0 {
        0
    } else if valid_utf8(b.take(n)) {
        n
    } else {
        longest_valid(b, n - 1)
    }
}

proof fn lemma_longest_valid(b: Seq<u8>, n: int)
    requires
        0 <= n <= b.len(),
    ensures
        0 <= longest_valid(b, n) <= n,
        longest_valid(b, n) > 0 ==> valid_utf8(b.take(longest_valid(b, n))),
        valid_utf8(b.take(n)) ==> longest_valid(b, n) == n,
    decreases n,
{
    if n > 0 && !valid_utf8(b.take(n)) {
        lemma_longest_valid(b, n - 1);
    }
}

/// Relies on `std::str::from_utf8`, and on `Utf8Error::valid_up_to` where it fails:
/// the text that `bytes` encode, or the length of their longest valid prefix.
#[verifier::external_body]
fn from_utf8(bytes: &[u8]) -> (r: Result<&str, usize>)
    ensures
        r is Ok <==> valid_utf8(bytes@),
        r matches Ok(s) ==> s.spec_bytes() == bytes@,
        r matches Err(n) ==> n == longest_valid(bytes@, bytes@.len() as int),
{
    match std::str::from_utf8(bytes) {
        Ok(s) => Ok(s),
        Err(e) => Err(e.valid_up_to()),
    }
}

/// The first `n` bytes of `buffer`.
fn prefix(buffer: &[u8; CONSUMED_BUFFER], n: usize) -> (r: Vec<u8>)
    requires
        n <= CONSUMED_BUFFER,
    ensures
        r@ == buffer@.take(n as int),
{
    let mut r: Vec<u8> = Vec::new();
    let mut i: usize = 0;
    while i < n
        invariant
            0 <= i <= n <= CONSUMED_BUFFER,
            r@ == buffer@.take(i as int),
        decreases n - i,
    {
        r.push(buffer[i]);
        i = i + 1;
        assert(r@ =~= buffer@.take(i as int));
    }
    r
}

/// The characters that valid UTF-8 bytes encode.
fn decode(bytes: &[u8]) -> (r: Vec<char>)
    requires
        valid_utf8(bytes@),
    ensures
        r@ == decode_utf8(bytes@),
{
    match from_utf8(bytes) {
        Ok(s) => {
            proof {
                encode_utf8_decode_utf8(s@);
            }
            chars_of(s)
        },
        Err(_) => Vec::new(),
    }
}

impl StreamProcessor {
    /// The bytes consumed and not yet digested.
    pub open spec fn consumed_bytes(&self) -> Seq<u8> {
        self.buffer_consumed@.take(self.consumed as int)
    }

    /// Empty buffers for a stream in the given direction.
    pub fn new(direction: Direction) -> (r: Self)
        ensures
            r.consumed == 0,
            r.digested == 0,
            r.lastword == 0,
            r.direction == direction,
            r.buffer_consumed@ == Seq::new(CONSUMED_BUFFER as nat, |i: int| 0u8),
            r.buffer_digested@ == Seq::new(DIGESTED_BUFFER as nat, |i: int| '\0'),
            r.buffer_lastword@ == Seq::new(LASTWORD_BUFFER as nat, |i: int| '\0'),
    {
        let r = StreamProcessor {
            buffer_consumed: [0u8; CONSUMED_BUFFER],
            buffer_digested: ['\0'; DIGESTED_BUFFER],
            buffer_lastword: ['\0'; LASTWORD_BUFFER],
            consumed: 0,
            digested: 0,
            lastword: 0,
            direction,
        };
        assert(r.buffer_consumed@ =~= Seq::new(CONSUMED_BUFFER as nat, |i: int| 0u8));
        assert(r.buffer_digested@ =~= Seq::new(DIGESTED_BUFFER as nat, |i: int| '\0'));
        assert(r.buffer_lastword@ =~= Seq::new(LASTWORD_BUFFER as nat, |i: int| '\0'));
        r
    }

    /// Copies as much of `raw` as fits after the consumed bytes and returns how much
    /// was taken: `Err` where that filled the buffer, `Ok` otherwise.
    pub fn consume(&mut self, raw: &[u8]) -> (r: Result<usize, usize>)
        requires
            old(self).consumed <= CONSUMED_BUFFER,
        ensures
            ({
                let room = CONSUMED_BUFFER - old(self).consumed;
                let chunk = if raw@.len() >= room {
                    room
                } else {
                    raw@.len() as int
                };
                &&& final(self).consumed == old(self).consumed + chunk
                &&& final(self).buffer_consumed@ == old(self).consumed_bytes() + raw@.take(chunk)
                    + old(self).buffer_consumed@.skip(old(self).consumed + chunk)
                &&& r == if raw@.len() >= room {
                    Err::<usize, usize>(chunk as usize)
                } else {
                    Ok::<usize, usize>(chunk as usize)
                }
                &&& final(self).digested == old(self).digested
                &&& final(self).buffer_digested == old(self).buffer_digested
                &&& final(self).lastword == old(self).lastword
                &&& final(self).buffer_lastword == old(self).buffer_lastword
                &&& final(self).direction == old(self).direction
            }),
    {
        let room = CONSUMED_BUFFER - self.consumed;
        let (chunk, overflow) = if raw.len() >= room {
            (room, true)
        } else {
            (raw.len(), false)
        };
        let ghost start = self.buffer_consumed@;
        let base = self.consumed;
        let mut i: usize = 0;
        while i < chunk
            invariant
                0 <= i <= chunk,
                base + chunk <= CONSUMED_BUFFER,
                chunk <= raw@.len(),
                self.consumed == base,
                start.len() == CONSUMED_BUFFER,
                self.buffer_consumed@.len() == CONSUMED_BUFFER,
                self.buffer_consumed@ == start.take(base as int) + raw@.take(i as int) + start.skip(
                    base + i,
                ),
                self.digested == old(self).digested,
                self.buffer_digested == old(self).buffer_digested,
                self.lastword == old(self).lastword,
                self.buffer_lastword == old(self).buffer_lastword,
                self.direction == old(self).direction,
            decreases chunk - i,
        {
            let ghost prev = self.buffer_consumed@;
            self.buffer_consumed[base + i] = raw[i];
            assert(self.buffer_consumed@ == prev.update(base + i, raw@[i as int]));
            i = i + 1;
            let ghost want = start.take(base as int) + raw@.take(i as int) + start.skip(base + i);
            assert forall|j: int| 0 <= j < CONSUMED_BUFFER implies self.buffer_consumed@[j]
                == want[j] by {
                if j < base {
                    assert(want[j] == start[j]);
                } else if j < base + i {
                    assert(want[j] == raw@[j - base]);
                } else {
                    assert(want[j] == start[j]);
                }
            }
            assert(self.buffer_consumed@ =~= want);
        }
        self.consumed = base + chunk;
        if overflow {
            Err(chunk)
        } else {
            Ok(chunk)
        }
    }

    /// Appends `chars` to the character buffer and empties the byte buffer, unless the
    /// character buffer would then be full.
    fn store(&mut self, chars: &Vec<char>) -> (r: Result<(), Error>)
        requires
            old(self).digested <= DIGESTED_BUFFER,
        ensures
            old(self).digested + chars@.len() >= DIGESTED_BUFFER ==> (r matches Err(
                Error::BufferOverflow,
            ) && *final(self) == *old(self)),
            old(self).digested + chars@.len() < DIGESTED_BUFFER ==> (r is Ok && final(self).digested
                == old(self).digested + chars@.len() && final(self).buffer_digested@ == old(
                self,
            ).buffer_digested@.take(old(self).digested as int) + chars@ + old(
                self,
            ).buffer_digested@.skip(old(self).digested + chars@.len()) && final(self).consumed == 0
                && final(self).buffer_consumed == old(self).buffer_consumed && final(self).lastword
                == old(self).lastword && final(self).buffer_lastword == old(self).buffer_lastword
                && final(self).direction == old(self).direction),
    {
        if chars.len() >= DIGESTED_BUFFER - self.digested {
            return Err(Error::BufferOverflow);
        }
        let ghost start = self.buffer_digested@;
        let base = self.digested;
        let mut i: usize = 0;
        while i < chars.len()
            invariant
                0 <= i <= chars@.len(),
                base + chars@.len() < DIGESTED_BUFFER,
                self.digested == base,
                start.len() == DIGESTED_BUFFER,
                self.buffer_digested@.len() == DIGESTED_BUFFER,
                self.buffer_digested@ == start.take(base as int) + chars@.take(i as int)
                    + start.skip(base + i),
                self.consumed == old(self).consumed,
                self.buffer_consumed == old(self).buffer_consumed,
                self.lastword == old(self).lastword,
                self.buffer_lastword == old(self).buffer_lastword,
                self.direction == old(self).direction,
            decreases chars@.len() - i,
        {
            let ghost prev = self.buffer_digested@;
            self.buffer_digested[base + i] = chars[i];
            assert(self.buffer_digested@ == prev.update(base + i, chars@[i as int]));
            i = i + 1;
            let ghost want = start.take(base as int) + chars@.take(i as int) + start.skip(base + i);
            assert forall|j: int| 0 <= j < DIGESTED_BUFFER implies self.buffer_digested@[j]
                == want[j] by {
                if j < base {
                    assert(want[j] == start[j]);
                } else if j < base + i {
                    assert(want[j] == chars@[j - base]);
                } else {
                    assert(want[j] == start[j]);
                }
            }
            assert(self.buffer_digested@ =~= want);
        }
        assert(chars@.take(i as int) =~= chars@);
        self.digested = base + chars.len();
        self.consumed = 0;
        Ok(())
    }

    /// Decodes the consumed bytes into the character buffer. Where they end in an
    /// incomplete or invalid sequence, the valid prefix is decoded and the rest moved
    /// to the front of the byte buffer; where no prefix is valid, nothing changes.
    pub fn digest(&mut self) -> (r: Result<(), Error>)
        requires
            old(self).consumed <= CONSUMED_BUFFER,
            old(self).digested <= DIGESTED_BUFFER,
        ensures
            ({
                let b = old(self).consumed_bytes();
                let v = longest_valid(b, b.len() as int);
                let chars = decode_utf8(b.take(v));
                if v == 0 && b.len() > 0 {
                    r matches Err(Error::UTFError(n)) && n == 0 && *final(self) == *old(self)
                } else if old(self).digested + chars.len() >= DIGESTED_BUFFER {
                    r matches Err(Error::BufferOverflow) && final(self).consumed == v
                        && final(self).buffer_consumed == old(self).buffer_consumed
                        && final(self).digested == old(self).digested
                        && final(self).buffer_digested == old(self).buffer_digested
                } else {
                    &&& r is Ok
                    &&& final(self).digested == old(self).digested + chars.len()
                    &&& final(self).buffer_digested@ == old(self).buffer_digested@.take(
                        old(self).digested as int,
                    ) + chars + old(self).buffer_digested@.skip(old(self).digested + chars.len())
                    &&& final(self).consumed == b.len() - v
                    &&& final(self).buffer_consumed@ == b.skip(v) + old(
                        self,
                    ).buffer_consumed@.skip(b.len() - v)
                }
            }),
            final(self).lastword == old(self).lastword,
            final(self).buffer_lastword == old(self).buffer_lastword,
            final(self).direction == old(self).direction,
    {
        let bytes = prefix(&self.buffer_consumed, self.consumed);
        let ghost b = bytes@;
        proof {
            lemma_longest_valid(b, b.len() as int);
        }
        match from_utf8(&bytes) {
            Ok(s) => {
                proof {
                    encode_utf8_decode_utf8(s@);
                    assert(b.take(b.len() as int) =~= b);
                }
                let chars = chars_of(s);
                let r = self.store(&chars);
                proof {
                    if r is Ok {
                        assert(b.skip(b.len() as int) =~= Seq::<u8>::empty());
                        assert(final(self).buffer_consumed@ =~= b.skip(b.len() as int) + old(
                            self,
                        ).buffer_consumed@.skip(0));
                    }
                }
                r
            },
            Err(v) => {
                if v == 0 {
                    return Err(Error::UTFError(0));
                }
                let valid = prefix(&self.buffer_consumed, v);
                assert(valid@ =~= b.take(v as int));
                let chars = decode(&valid);
                let remaining = self.consumed - v;
                self.consumed = v;
                self.store(&chars)?;
                let ghost start = self.buffer_consumed@;
                let mut i: usize = 0;
                while i < remaining
                    invariant
                        0 <= i <= remaining,
                        v + remaining <= CONSUMED_BUFFER,
                        start == old(self).buffer_consumed@,
                        b == start.take(v + remaining),
                        self.buffer_consumed@ == b.subrange(v as int, v + i) + start.skip(i as int),
                        self.digested == old(self).digested + chars@.len(),
                        self.buffer_digested@ == old(self).buffer_digested@.take(
                            old(self).digested as int,
                        ) + chars@ + old(self).buffer_digested@.skip(
                            old(self).digested + chars@.len(),
                        ),
                        self.lastword == old(self).lastword,
                        self.buffer_lastword == old(self).buffer_lastword,
                        self.direction == old(self).direction,
                    decreases remaining - i,
                {
                    let x = self.buffer_consumed[i + v];
                    assert(x == b[v + i]);
                    self.buffer_consumed[i] = x;
                    i = i + 1;
                    assert(self.buffer_consumed@ =~= b.subrange(v as int, v + i) + start.skip(
                        i as int,
                    ));
                }
                self.consumed = remaining;
                assert(b.subrange(v as int, v + remaining) =~= b.skip(v as int));
                Ok(())
            },
        }
    }
}

} // verus!

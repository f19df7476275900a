//! Chunk (segment) management over an ordered key-value substrate.
//!
//! The substrate itself is outside this library: callers read and write it,
//! and hand this module the plain values involved. The manager allocates
//! strictly increasing chunk ids, says which durable record must be written
//! for each allocation (the key `".next_chunk"` holding the next id in
//! decimal ASCII), and enumerates the active chunks visible in a snapshot's
//! forward scan from the key prefix `'a'`.
//!
//! Each allocation hands back the fresh id *together with* the durable
//! record covering it, so a caller can apply the write before acting on the
//! id (write-ahead reservation); `lemma_durable_record_round_trip` shows
//! that reopening from that record resumes exactly past every id the record
//! covers.
use vstd::prelude::*;

verus! {

/// A decimal ASCII digit.
pub open spec fn is_dec_digit(b: u8) -> bool {
    48 <= b <= 57
}

/// Every byte is a decimal ASCII digit.
pub open spec fn all_dec_digits(s: Seq<u8>) -> bool {
    forall|i: int| 0 <= i < s.len() ==> is_dec_digit(s[i])
}

/// The number the digit string denotes.
pub open spec fn dec_val(s: Seq<u8>) -> int
    decreases s.len(),
{
    if s.len() == 0 {
        0
    } else {
        dec_val(s.drop_last()) * 10 + s.last() - 48
    }
}

/// What parsing a chunk id from bytes yields: the denoted number when the
/// bytes are one or more decimal digits and the number fits, nothing else.
pub open spec fn parse_u32_dec(s: Seq<u8>) -> Option<u32> {
    if s.len() > 0 && all_dec_digits(s) && dec_val(s) <= u32::MAX {
        Some(dec_val(s) as u32)
    } else {
        None
    }
}

/// The decimal ASCII digits of a number, most significant first, without
/// sign or leading zeros.
pub open spec fn dec_bytes(n: nat) -> Seq<u8>
    decreases n,
{
    if n < 10 {
        seq![(48 + n) as u8]
    } else {
        dec_bytes(n / 10).push((48 + n % 10) as u8)
    }
}

proof fn lemma_dec_val_nonneg(s: Seq<u8>)
    requires
        all_dec_digits(s),
    ensures
        dec_val(s) >= 0,
    decreases s.len(),
{
    if s.len() > 0 {
        assert(all_dec_digits(s.drop_last()));
        lemma_dec_val_nonneg(s.drop_last());
    }
}

proof fn lemma_dec_val_prefix(s: Seq<u8>, j: int)
    requires
        all_dec_digits(s),
        0 <= j <= s.len(),
    ensures
        dec_val(s) >= dec_val(s.take(j)),
    decreases s.len() - j,
{
    if j < s.len() {
        assert(all_dec_digits(s.take(j)));
        lemma_dec_val_nonneg(s.take(j));
        assert(s.take(j + 1).drop_last() =~= s.take(j));
        assert(s.take(j + 1).last() == s[j]);
        lemma_dec_val_prefix(s, j + 1);
    } else {
        assert(s.take(j) =~= s);
    }
}

proof fn lemma_dec_bytes_digits(n: nat)
    ensures
        dec_bytes(n).len() > 0,
        all_dec_digits(dec_bytes(n)),
        dec_val(dec_bytes(n)) == n,
    decreases n,
{
    if n < 10 {
        assert(dec_val(dec_bytes(n)) == n) by {
            reveal_with_fuel(dec_val, 2);
            assert((48 + n) as u8 == 48 + n);
            assert(dec_bytes(n).drop_last() =~= Seq::<u8>::empty());
            assert(dec_bytes(n).last() == (48 + n) as u8);
        }
        assert((48 + n) as u8 == 48 + n);
    } else {
        lemma_dec_bytes_digits(n / 10);
        let d = ((48 + n % 10) as u8);
        assert(dec_bytes(n).drop_last() =~= dec_bytes(n / 10));
        assert(dec_bytes(n).last() == d);
        assert(all_dec_digits(dec_bytes(n))) by {
            let s = dec_bytes(n / 10);
            assert(forall|i: int|
                0 <= i < s.len() ==> dec_bytes(n)[i] == s[i] && is_dec_digit(s[i]));
        }
    }
}

/// The durable record round-trips: reading back the decimal bytes written
/// for a counter value yields that value again.
pub proof fn lemma_durable_record_round_trip(n: u32)
    ensures
        parse_u32_dec(dec_bytes(n as nat)) == Some(n),
{
    lemma_dec_bytes_digits(n as nat);
}

/// Appends the decimal digits of a number.
fn push_dec_u32(out: &mut Vec<u8>, n: u32)
    ensures
        final(out)@ == old(out)@ + dec_bytes(n as nat),
    decreases n,
{
    if n < 10 {
        out.push(48 + n as u8);
        proof {
            assert(out@ =~= old(out)@ + dec_bytes(n as nat));
        }
    } else {
        push_dec_u32(out, n / 10);
        out.push(48 + (n % 10) as u8);
        proof {
            assert(out@ =~= old(out)@ + dec_bytes(n as nat));
        }
    }
}

/// Parses a chunk id from decimal ASCII bytes.
fn parse_u32_bytes(s: &Vec<u8>) -> (r: Option<u32>)
    ensures
        r == parse_u32_dec(s@),
{
    if s.len() == 0 {
        return None;
    }
    let mut acc: u32 = 0;
    let mut i: usize = 0;
    while i < s.len()
        invariant
            0 <= i <= s@.len(),
            all_dec_digits(s@.take(i as int)),
            acc == dec_val(s@.take(i as int)),
        decreases s@.len() - i,
    {
        let b = s[i];
        if b < 48 || b > 57 {
            assert(!all_dec_digits(s@)) by {
                assert(!is_dec_digit(s@[i as int]));
            }
            return None;
        }
        let d = (b - 48) as u32;
        proof {
            assert(s@.take(i + 1).drop_last() =~= s@.take(i as int));
            assert(s@.take(i + 1).last() == s@[i as int]);
        }
        if acc > (u32::MAX - d) / 10 {
            proof {
                if all_dec_digits(s@) {
                    assert(dec_val(s@.take(i + 1)) > u32::MAX);
                    lemma_dec_val_prefix(s@, i + 1);
                }
            }
            return None;
        }
        acc = acc * 10 + d;
        i = i + 1;
    }
    proof {
        assert(s@.take(i as int) =~= s@);
    }
    Some(acc)
}

/// The key under which the allocation counter is durably kept, as bytes:
/// the ASCII text `.next_chunk`.
pub open spec fn next_chunk_key() -> Seq<u8> {
    seq![46u8, 110u8, 101u8, 120u8, 116u8, 95u8, 99u8, 104u8, 117u8, 110u8, 107u8]
}

fn next_chunk_key_bytes() -> (r: Vec<u8>)
    ensures
        r@ == next_chunk_key(),
{
    let mut r: Vec<u8> = Vec::new();
    r.push(46u8);
    r.push(110u8);
    r.push(101u8);
    r.push(120u8);
    r.push(116u8);
    r.push(95u8);
    r.push(99u8);
    r.push(104u8);
    r.push(117u8);
    r.push(110u8);
    r.push(107u8);
    proof {
        assert(r@ =~= next_chunk_key());
    }
    r
}

/// A single-key write the caller must apply to the durable store.
#[derive(Debug)]
pub struct StorePut {
    pub key: Vec<u8>,
    pub value: Vec<u8>,
}

/// Allocates monotonically increasing chunk ids and keeps the counter
/// durable through the `StorePut` records it hands back.
#[derive(Debug)]
pub struct ChunkManager {
    /// The next id to hand out.
    pub next_chunk: u32,
}

impl ChunkManager {
    /// A manager for a fresh store: counting starts at 1, and the returned
    /// write sets the durable counter record to `"1"`.
    pub fn new() -> (r: (ChunkManager, StorePut))
        ensures
            r.0.next_chunk == 1,
            r.1.key@ == next_chunk_key(),
            r.1.value@ == dec_bytes(1),
    {
        let mut value: Vec<u8> = Vec::new();
        push_dec_u32(&mut value, 1);
        proof {
            assert(Seq::<u8>::empty() + dec_bytes(1) =~= dec_bytes(1));
        }
        (ChunkManager { next_chunk: 1 }, StorePut { key: next_chunk_key_bytes(), value })
    }

    /// A manager resuming over an existing store, from what the store holds
    /// under the counter key: counting resumes at that value when it reads
    /// as a decimal number, and falls back to 1 when the record is absent
    /// or unreadable.
    pub fn open(stored: Option<&Vec<u8>>) -> (m: ChunkManager)
        ensures
            m.next_chunk == match stored {
                Some(bytes) => match parse_u32_dec(bytes@) {
                    Some(v) => v,
                    None => 1u32,
                },
                None => 1u32,
            },
    {
        let next_chunk = match stored {
            Some(bytes) => match parse_u32_bytes(bytes) {
                Some(v) => v,
                None => 1,
            },
            None => 1,
        };
        ChunkManager { next_chunk }
    }

    /// Allocates the next chunk id: returns the counter's current value and
    /// steps the counter, together with the durable write that records the
    /// post-increment value. Ids from consecutive calls strictly increase.
    pub fn new_chunk(&mut self) -> (r: (u32, StorePut))
        requires
            old(self).next_chunk < u32::MAX,
        ensures
            r.0 == old(self).next_chunk,
            final(self).next_chunk == old(self).next_chunk + 1,
            r.1.key@ == next_chunk_key(),
            r.1.value@ == dec_bytes((old(self).next_chunk + 1) as nat),
    {
        let id = self.next_chunk;
        self.next_chunk = self.next_chunk + 1;
        let mut value: Vec<u8> = Vec::new();
        push_dec_u32(&mut value, self.next_chunk);
        proof {
            assert(Seq::<u8>::empty() + dec_bytes(self.next_chunk as nat) =~= dec_bytes(
                self.next_chunk as nat,
            ));
        }
        (id, StorePut { key: next_chunk_key_bytes(), value })
    }

    /// An enumerator over the keys a snapshot scan returned, in scan order,
    /// starting from the first key at or after the prefix `'a'`.
    pub fn iter_active(&self, keys: Vec<Vec<u8>>) -> (it: ActiveChunksIterator)
        requires
            scan_wf(keys_view(keys@)),
        ensures
            it.wf(),
            it.remaining() == active_ids(keys_view(keys@)),
    {
        let it = ActiveChunksIterator { entries: keys, pos: 0, fused: false };
        proof {
            assert(keys_view(it.entries@).skip(0) =~= keys_view(it.entries@));
        }
        it
    }
}

/// The byte sequences of a list of keys, in order.
pub open spec fn keys_view(keys: Seq<Vec<u8>>) -> Seq<Seq<u8>> {
    Seq::new(keys.len(), |i: int| keys[i]@)
}

/// An active-chunk marker key: the byte `'a'` followed by the chunk id in
/// decimal ASCII.
pub open spec fn is_marker_key(k: Seq<u8>) -> bool {
    k.len() > 0 && k[0] == 97 && parse_u32_dec(k.drop_first()) is Some
}

/// Scanned keys the enumerator can walk: along the leading run of keys with
/// the `'a'` prefix, every key is non-empty and its suffix reads as a chunk
/// id; the first key outside the run ends the walk, so nothing is asked of
/// it or of what follows.
pub open spec fn scan_wf(keys: Seq<Seq<u8>>) -> bool
    decreases keys.len(),
{
    if keys.len() == 0 {
        true
    } else if keys[0].len() == 0 {
        false
    } else if keys[0][0] == 97 {
        is_marker_key(keys[0]) && scan_wf(keys.drop_first())
    } else {
        true
    }
}

/// The chunk ids a scan yields: the ids of the leading run of marker keys,
/// in scan order, stopping at the first key without the `'a'` prefix.
pub open spec fn active_ids(keys: Seq<Seq<u8>>) -> Seq<u32>
    decreases keys.len(),
{
    if keys.len() == 0 {
        Seq::empty()
    } else if keys[0].len() > 0 && keys[0][0] == 97 {
        seq![parse_u32_dec(keys[0].drop_first()).unwrap()] + active_ids(keys.drop_first())
    } else {
        Seq::empty()
    }
}

/// Walks the keys of one snapshot scan and yields the ids of the leading
/// run of active-chunk markers; it fuses at the first key that does not
/// carry the `'a'` prefix, or at the end of the scan.
#[derive(Debug)]
pub struct ActiveChunksIterator {
    entries: Vec<Vec<u8>>,
    pos: usize,
    fused: bool,
}

impl ActiveChunksIterator {
    /// The walk's position stays inside the scanned keys, and what is left
    /// to walk is well-formed.
    pub closed spec fn wf(self) -> bool {
        &&& self.pos <= self.entries@.len()
        &&& scan_wf(keys_view(self.entries@).skip(self.pos as int))
    }

    /// The ids still to be yielded, in order.
    pub closed spec fn remaining(self) -> Seq<u32> {
        if self.fused {
            Seq::empty()
        } else {
            active_ids(keys_view(self.entries@).skip(self.pos as int))
        }
    }

    /// The next active chunk id, or nothing once the scan has left the
    /// marker-key run; after a `None` the iterator stays exhausted.
    pub fn next(&mut self) -> (r: Option<u32>)
        requires
            old(self).wf(),
        ensures
            final(self).wf(),
            match r {
                Some(id) => old(self).remaining().len() > 0 && id == old(self).remaining()[0]
                    && final(self).remaining() == old(self).remaining().drop_first(),
                None => old(self).remaining().len() == 0 && final(self).remaining().len() == 0,
            },
    {
        if self.fused {
            return None;
        }
        let ghost tail = keys_view(self.entries@).skip(self.pos as int);
        if self.pos >= self.entries.len() {
            self.fused = true;
            return None;
        }
        proof {
            assert(tail[0] == self.entries@[self.pos as int]@);
        }
        let key = &self.entries[self.pos];
        if key.len() == 0 || key[0] != 97 {
            self.fused = true;
            return None;
        }
        let mut suffix: Vec<u8> = Vec::new();
        let mut i: usize = 1;
        while i < key.len()
            invariant
                1 <= i <= key@.len(),
                suffix@ == key@.subrange(1, i as int),
            decreases key@.len() - i,
        {
            suffix.push(key[i]);
            proof {
                assert(suffix@ =~= key@.subrange(1, i + 1));
            }
            i = i + 1;
        }
        proof {
            assert(suffix@ =~= key@.drop_first());
            assert(tail[0] == key@);
            assert(is_marker_key(tail[0]));
        }
        let id = match parse_u32_bytes(&suffix) {
            Some(id) => id,
            None => unreached(),
        };
        self.pos = self.pos + 1;
        proof {
            let t2 = keys_view(self.entries@).skip(self.pos as int);
            assert(t2 =~= tail.drop_first());
            assert(scan_wf(tail.drop_first()));
            assert(active_ids(tail) == seq![id] + active_ids(tail.drop_first()));
            assert(active_ids(tail).drop_first() =~= active_ids(tail.drop_first()));
        }
        Some(id)
    }
}

} // verus!

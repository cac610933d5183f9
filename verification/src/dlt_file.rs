//! A DLT file image and its message-position index.
//!
//! The index is built by one linear scan over the bytes: a position is
//! recorded whenever the storage pattern is found there; the scan then
//! advances by the record's declared length when that length is usable,
//! and by a single byte otherwise, so garbage and corrupt length fields
//! only cost a byte-by-byte rescan until the next pattern.

use vstd::prelude::*;

use crate::codec::{
    message_matches, spec_magic_at, spec_msg, spec_parse_ok, spec_u16_le, DltMessage, MsgModel,
};
use crate::error::Error;
use crate::filter::criteria::{spec_criteria_matches, FilterCriteria};
use crate::filter::engine::{seq_has, strictly_ascending};

verus! {

/// The sequence of `usize` offsets as mathematical integers.
pub open spec fn offsets_of(v: Seq<usize>) -> Seq<int> {
    v.map_values(|x: usize| x as int)
}

/// How far the scan advances from a recorded position: by the declared
/// length when it is readable, non-zero and in bounds, else by one byte.
pub open spec fn spec_advance(b: Seq<u8>, pos: int) -> int
    recommends
        0 <= pos,
        pos + 16 <= b.len(),
{
    if pos + 20 <= b.len() {
        let l = spec_u16_le(b, pos + 18) as int;
        if l > 0 && pos + l <= b.len() {
            l
        } else {
            1
        }
    } else {
        1
    }
}

/// The positions the index scan records from `pos` on.
pub open spec fn spec_scan(b: Seq<u8>, pos: int) -> Seq<int>
    recommends
        0 <= pos <= b.len(),
    decreases b.len() - pos,
{
    if pos < 0 || pos + 16 > b.len() {
        Seq::empty()
    } else if spec_magic_at(b, pos) {
        seq![pos] + spec_scan(b, pos + spec_advance(b, pos))
    } else {
        spec_scan(b, pos + 1)
    }
}

/// Every position the scan records lies at the storage pattern, leaves
/// room for a storage header, and the recorded positions are strictly
/// ascending; moreover each next position lies at or past the previous
/// one's advance.
pub proof fn lemma_scan_props(b: Seq<u8>, pos: int)
    requires
        0 <= pos <= b.len(),
    ensures
        forall|k: int| 0 <= k < spec_scan(b, pos).len() ==> pos <= #[trigger] spec_scan(b, pos)[k],
        forall|k: int|
            0 <= k < spec_scan(b, pos).len() ==> #[trigger] spec_scan(b, pos)[k] + 16 <= b.len(),
        forall|k: int|
            0 <= k < spec_scan(b, pos).len() ==> spec_magic_at(
                b,
                #[trigger] spec_scan(b, pos)[k],
            ),
        forall|k: int|
            0 <= k && k + 1 < spec_scan(b, pos).len() ==> #[trigger] spec_scan(b, pos)[k]
                + spec_advance(b, spec_scan(b, pos)[k]) <= spec_scan(b, pos)[k + 1],
    decreases b.len() - pos,
{
    if pos + 16 > b.len() {
    } else if spec_magic_at(b, pos) {
        let adv = spec_advance(b, pos);
        lemma_scan_props(b, pos + adv);
        let cur = spec_scan(b, pos);
        let rest = spec_scan(b, pos + adv);
        assert(adv >= 1);
        assert forall|k: int| 0 <= k < cur.len() implies pos <= cur[k] && cur[k] + 16 <= b.len()
            && spec_magic_at(b, cur[k]) by {
            if k > 0 {
                assert(cur[k] == rest[k - 1]);
            }
        }
        assert forall|k: int| 0 <= k && k + 1 < cur.len() implies cur[k] + spec_advance(b, cur[k])
            <= cur[k + 1] by {
            if k == 0 {
                assert(cur[1] == rest[0]);
            } else {
                assert(cur[k] == rest[k - 1]);
                assert(cur[k + 1] == rest[k]);
            }
        }
    } else {
        lemma_scan_props(b, pos + 1);
        let cur = spec_scan(b, pos);
        assert(cur == spec_scan(b, pos + 1));
        assert forall|k: int| 0 <= k < cur.len() implies pos <= cur[k] && cur[k] + 16 <= b.len()
            && spec_magic_at(b, cur[k]) by {
            assert(cur[k] == spec_scan(b, pos + 1)[k]);
        }
    }
}

/// When the scan records a position whose advance lands directly on
/// another storage pattern, that landing point is the next recorded
/// position.
proof fn lemma_scan_adjacent(b: Seq<u8>, pos: int)
    requires
        0 <= pos <= b.len(),
    ensures
        forall|k: int|
            0 <= k && k + 1 < spec_scan(b, pos).len() && spec_magic_at(
                b,
                #[trigger] spec_scan(b, pos)[k] + spec_advance(b, spec_scan(b, pos)[k]),
            ) ==> spec_scan(b, pos)[k + 1] == spec_scan(b, pos)[k] + spec_advance(
                b,
                spec_scan(b, pos)[k],
            ),
    decreases b.len() - pos,
{
    if pos + 16 > b.len() {
    } else if spec_magic_at(b, pos) {
        let adv = spec_advance(b, pos);
        lemma_scan_adjacent(b, pos + adv);
        let cur = spec_scan(b, pos);
        let rest = spec_scan(b, pos + adv);
        assert forall|k: int|
            0 <= k && k + 1 < cur.len() && spec_magic_at(
                b,
                #[trigger] cur[k] + spec_advance(b, cur[k]),
            ) implies cur[k + 1] == cur[k] + spec_advance(b, cur[k]) by {
            if k == 0 {
                assert(cur[0] == pos);
                assert(rest.len() > 0);
                assert(pos + adv + 16 <= b.len());
                assert(rest[0] == pos + adv);
                assert(cur[1] == rest[0]);
            } else {
                assert(cur[k] == rest[k - 1]);
                assert(cur[k + 1] == rest[k]);
            }
        }
    } else {
        lemma_scan_adjacent(b, pos + 1);
        let cur = spec_scan(b, pos);
        assert forall|k: int|
            0 <= k && k + 1 < cur.len() && spec_magic_at(
                b,
                #[trigger] cur[k] + spec_advance(b, cur[k]),
            ) implies cur[k + 1] == cur[k] + spec_advance(b, cur[k]) by {
            assert(cur[k] == spec_scan(b, pos + 1)[k]);
            assert(cur[k + 1] == spec_scan(b, pos + 1)[k + 1]);
        }
    }
}

/// Whether the bytes at `off` look like one complete record: the storage
/// pattern, a readable length field at least as large as the announced
/// headers, and that many bytes available.
pub open spec fn spec_record_sane(b: Seq<u8>, off: int) -> bool {
    &&& spec_magic_at(b, off)
    &&& off + 20 <= b.len()
    &&& spec_u16_le(b, off + 18) as int >= (if (b[off + 16] & 0x01) != 0 {
        30int
    } else {
        20int
    })
    &&& off + spec_u16_le(b, off + 18) as int <= b.len()
}

/// A DLT file image: the raw bytes, their message-position index, and
/// the path the image came from.
pub struct DltFile {
    path: String,
    data: Vec<u8>,
    index: Vec<usize>,
    message_count: usize,
}

impl DltFile {
    /// The index equals the scan of the bytes, and the cached count is
    /// its length.
    #[verifier::type_invariant]
    spec fn wf(self) -> bool {
        &&& offsets_of(self.index@) == spec_scan(self.data@, 0)
        &&& self.message_count == self.index@.len()
    }

    /// The file's bytes.
    pub closed spec fn spec_bytes(self) -> Seq<u8> {
        self.data@
    }

    /// The recorded message offsets.
    pub closed spec fn spec_offsets(self) -> Seq<int> {
        offsets_of(self.index@)
    }

    /// The number of indexed messages.
    pub open spec fn spec_count(self) -> int {
        self.spec_offsets().len() as int
    }

    /// The path the image came from.
    pub closed spec fn spec_path(self) -> Seq<char> {
        self.path@
    }

    /// Where the bytes of message `i` end: at the next recorded offset,
    /// or at the end of the file for the last message.
    pub open spec fn spec_msg_end(self, i: int) -> int {
        if i + 1 < self.spec_count() {
            self.spec_offsets()[i + 1]
        } else {
            self.spec_bytes().len() as int
        }
    }

    /// The byte range of message `i`.
    pub open spec fn spec_msg_bytes(self, i: int) -> Seq<u8> {
        self.spec_bytes().subrange(self.spec_offsets()[i], self.spec_msg_end(i))
    }

    /// Whether the bytes of message `i` parse.
    pub open spec fn spec_msg_ok(self, i: int) -> bool {
        spec_parse_ok(self.spec_msg_bytes(i))
    }

    /// The model of message `i`.
    pub open spec fn spec_msg(self, i: int) -> MsgModel {
        spec_msg(self.spec_msg_bytes(i))
    }

    /// The validity relation `new` establishes: the offsets are the scan
    /// of the bytes, and the count caches their number.
    pub open spec fn spec_indexed(self) -> bool {
        &&& self.spec_offsets() == spec_scan(self.spec_bytes(), 0)
        &&& self.spec_count() == self.spec_offsets().len()
    }

    /// The recorded offsets are strictly ascending, in bounds, and each
    /// lies at the storage pattern.
    pub proof fn lemma_index_valid(self)
        requires
            self.spec_indexed(),
        ensures
            self.spec_count() == self.spec_offsets().len(),
            forall|k: int| 0 <= k < self.spec_count() ==> 0 <= #[trigger] self.spec_offsets()[k],
            forall|k: int|
                0 <= k < self.spec_count() ==> #[trigger] self.spec_offsets()[k] + 16
                    <= self.spec_bytes().len(),
            forall|k: int|
                0 <= k < self.spec_count() ==> spec_magic_at(
                    self.spec_bytes(),
                    #[trigger] self.spec_offsets()[k],
                ),
            forall|k: int|
                0 <= k && k + 1 < self.spec_count() ==> #[trigger] self.spec_offsets()[k]
                    < self.spec_offsets()[k + 1],
    {
        lemma_scan_props(self.spec_bytes(), 0);
        assert forall|k: int| 0 <= k && k + 1 < self.spec_count() implies #[trigger] self
            .spec_offsets()[k] < self.spec_offsets()[k + 1] by {
            assert(self.spec_offsets()[k] + spec_advance(self.spec_bytes(), self.spec_offsets()[k])
                <= self.spec_offsets()[k + 1]);
            assert(spec_advance(self.spec_bytes(), self.spec_offsets()[k]) >= 1);
        }
    }

    /// Builds the index of a byte image: one sequential pass, no message
    /// materialised.
    fn build_index(data: &Vec<u8>) -> (r: Vec<usize>)
        ensures
            offsets_of(r@) == spec_scan(data@, 0),
    {
        let mut index: Vec<usize> = Vec::new();
        let mut pos: usize = 0;
        let len = data.len();
        proof {
            assert(offsets_of(index@) + spec_scan(data@, 0) =~= spec_scan(data@, 0));
        }
        while len >= 16 && pos <= len - 16
            invariant
                len == data@.len(),
                pos <= len,
                spec_scan(data@, 0) == offsets_of(index@) + spec_scan(data@, pos as int),
            decreases len - pos,
        {
            let ghost prev = index@;
            let ghost gpos = pos as int;
            if data[pos] == 'D' as u8 && data[pos + 1] == 'L' as u8 && data[pos + 2] == 'T' as u8
                && data[pos + 3] == 0x01 {
                index.push(pos);
                let mut adv: usize = 1;
                if len - pos >= 20 {
                    let l = read_len_field(data, pos);
                    if l > 0 && l <= len - pos {
                        adv = l;
                    }
                }
                proof {
                    assert(spec_magic_at(data@, gpos));
                    assert(adv == spec_advance(data@, gpos));
                    assert(offsets_of(index@) =~= offsets_of(prev).push(gpos));
                    assert(offsets_of(prev) + (seq![gpos] + spec_scan(data@, gpos + adv))
                        =~= offsets_of(prev).push(gpos) + spec_scan(data@, gpos + adv));
                }
                pos = pos + adv;
            } else {
                proof {
                    assert(!spec_magic_at(data@, gpos));
                }
                pos = pos + 1;
            }
        }
        proof {
            assert(spec_scan(data@, pos as int) =~= Seq::<int>::empty());
            assert(offsets_of(index@) + Seq::<int>::empty() =~= offsets_of(index@));
        }
        index
    }

    /// Wraps a file image and builds its message index.
    pub fn new(path: String, data: Vec<u8>) -> (r: DltFile)
        ensures
            r.spec_path() == path@,
            r.spec_bytes() == data@,
            r.spec_offsets() == spec_scan(data@, 0),
            r.spec_count() == r.spec_offsets().len(),
            r.spec_indexed(),
    {
        let index = Self::build_index(&data);
        let message_count = index.len();
        DltFile { path, data, index, message_count }
    }

    /// The total number of indexed messages.
    pub fn message_count(&self) -> (r: usize)
        ensures
            r == self.spec_count(),
    {
        proof {
            use_type_invariant(&*self);
        }
        self.message_count
    }

    /// The path of the file image.
    pub fn path(&self) -> (r: &String)
        ensures
            r@ == self.spec_path(),
    {
        &self.path
    }

    /// Parses the message at index position `idx` from its byte range.
    pub fn get_message(&self, idx: usize) -> (r: Result<DltMessage, Error>)
        ensures
            r is Ok <==> idx < self.spec_count() && self.spec_msg_ok(idx as int),
            r matches Ok(m) ==> message_matches(m, self.spec_msg_bytes(idx as int)),
            r matches Err(e) ==> e == (if idx < self.spec_count() {
                Error::Format { index: idx }
            } else {
                Error::NotFound { index: idx }
            }),
    {
        proof {
            use_type_invariant(&*self);
        }
        if idx >= self.message_count {
            return Err(Error::NotFound { index: idx });
        }
        proof {
            self.lemma_index_valid();
        }
        let pos = self.index[idx];
        let next_pos = if idx + 1 < self.message_count {
            self.index[idx + 1]
        } else {
            self.data.len()
        };
        proof {
            assert(self.spec_offsets()[idx as int] == self.index@[idx as int] as int);
            if idx + 1 < self.message_count {
                assert(self.spec_offsets()[idx as int + 1] == self.index@[idx as int + 1] as int);
            }
        }
        let slice = vstd::slice::slice_subrange(self.data.as_slice(), pos, next_pos);
        proof {
            assert(slice@ == self.spec_msg_bytes(idx as int));
        }
        match DltMessage::parse(slice) {
            Ok(m) => Ok(m),
            Err(_) => Err(Error::Format { index: idx }),
        }
    }

    /// Parses the dense range of messages `start..start + count`, clipped
    /// to the end of the index.  Fails on the first message whose bytes
    /// do not parse.
    pub fn get_messages(&self, start: usize, count: usize) -> (r: Result<Vec<DltMessage>, Error>)
        ensures
            ({
                let end = spec_range_end(start as int, count as int, self.spec_count());
                &&& (r is Ok <==> forall|i: int|
                    start <= i < end ==> #[trigger] self.spec_msg_ok(i))
                &&& (r matches Ok(v) ==> start + v@.len() == end && forall|j: int|
                    0 <= j < v@.len() ==> message_matches(
                        #[trigger] v@[j],
                        self.spec_msg_bytes(start + j),
                    ))
                &&& (r matches Err(e) ==> e matches Error::Format { index } && start <= index
                    < end && !self.spec_msg_ok(index as int) && (forall|j: int|
                    start <= j < index ==> #[trigger] self.spec_msg_ok(j)))
            }),
    {
        let mc = self.message_count();
        let end: usize = if start >= mc {
            start
        } else if count > mc - start {
            mc
        } else {
            start + count
        };
        let mut out: Vec<DltMessage> = Vec::new();
        let mut i: usize = start;
        while i < end
            invariant
                start <= i <= end,
                end == spec_range_end(start as int, count as int, self.spec_count()),
                end <= self.spec_count() || end == start,
                out@.len() == i - start,
                forall|j: int|
                    0 <= j < out@.len() ==> message_matches(
                        #[trigger] out@[j],
                        self.spec_msg_bytes(start + j),
                    ),
                forall|j: int| start <= j < i ==> #[trigger] self.spec_msg_ok(j),
            decreases end - i,
        {
            match self.get_message(i) {
                Ok(m) => {
                    out.push(m);
                },
                Err(_) => {
                    assert(!self.spec_msg_ok(i as int));
                    return Err(Error::Format { index: i });
                },
            }
            i = i + 1;
        }
        Ok(out)
    }
}

impl DltFile {
    /// A sane record at an indexed offset parses; when the next record
    /// begins immediately after its declared length, that length equals
    /// the distance between the two offsets (the last record tolerates
    /// trailing slack instead).
    pub proof fn lemma_record_length(self, i: int)
        requires
            self.spec_indexed(),
            0 <= i < self.spec_count(),
            spec_record_sane(self.spec_bytes(), self.spec_offsets()[i]),
            i + 1 < self.spec_count() ==> spec_magic_at(
                self.spec_bytes(),
                self.spec_offsets()[i] + spec_u16_le(
                    self.spec_bytes(),
                    self.spec_offsets()[i] + 18,
                ) as int,
            ),
        ensures
            self.spec_msg_ok(i),
            self.spec_msg(i).length == spec_u16_le(self.spec_bytes(), self.spec_offsets()[i] + 18),
            i + 1 < self.spec_count() ==> self.spec_offsets()[i + 1] - self.spec_offsets()[i]
                == spec_u16_le(self.spec_bytes(), self.spec_offsets()[i] + 18) as int,
    {
        let b = self.spec_bytes();
        let off = self.spec_offsets()[i];
        let l = spec_u16_le(b, off + 18) as int;
        self.lemma_index_valid();
        assert(spec_advance(b, off) == l);
        if i + 1 < self.spec_count() {
            lemma_scan_adjacent(b, 0);
            assert(self.spec_offsets()[i + 1] == off + l);
        }
        let gap = self.spec_msg_end(i) - off;
        assert(gap >= l);
        let m = self.spec_msg_bytes(i);
        assert(m.len() == gap);
        assert(m[16] == b[off + 16]);
        assert(m[18] == b[off + 18]);
        assert(m[19] == b[off + 19]);
        assert(crate::codec::spec_length_field(m) == spec_u16_le(b, off + 18));
        assert(crate::codec::spec_headers_size(m) + crate::codec::spec_payload_size(m) <= l);
        assert(spec_parse_ok(m));
    }

    /// The positions whose message parses and satisfies the criteria, in
    /// ascending order; parse failures are skipped.  Unlike the filter
    /// engine, no shortcut is taken for empty criteria.
    pub fn filter(&self, criteria: &FilterCriteria) -> (r: Vec<usize>)
        ensures
            strictly_ascending(r@),
            forall|k: int|
                0 <= k < r@.len() ==> #[trigger] r@[k] < self.spec_count() && self.spec_msg_ok(
                    r@[k] as int,
                ) && spec_criteria_matches(criteria.spec_view(), self.spec_msg(r@[k] as int)),
            forall|i: int|
                0 <= i < self.spec_count() && #[trigger] self.spec_msg_ok(i)
                    && spec_criteria_matches(criteria.spec_view(), self.spec_msg(i)) ==> seq_has(
                    r@,
                    i,
                ),
    {
        let count = self.message_count();
        let mut out: Vec<usize> = Vec::new();
        let mut i: usize = 0;
        while i < count
            invariant
                i <= count,
                count == self.spec_count(),
                strictly_ascending(out@),
                forall|k: int|
                    0 <= k < out@.len() ==> #[trigger] out@[k] < i && self.spec_msg_ok(
                        out@[k] as int,
                    ) && spec_criteria_matches(criteria.spec_view(), self.spec_msg(out@[k] as int)),
                forall|j: int|
                    0 <= j < i && #[trigger] self.spec_msg_ok(j) && spec_criteria_matches(
                        criteria.spec_view(),
                        self.spec_msg(j),
                    ) ==> seq_has(out@, j),
            decreases count - i,
        {
            let ghost prev = out@;
            match self.get_message(i) {
                Ok(message) => {
                    proof {
                        crate::codec::lemma_message_model(message, self.spec_msg_bytes(i as int));
                    }
                    if criteria.matches(&message) {
                        out.push(i);
                    }
                },
                Err(_) => {},
            }
            proof {
                if self.spec_msg_ok(i as int) && spec_criteria_matches(
                    criteria.spec_view(),
                    self.spec_msg(i as int),
                ) {
                    assert(out@[out@.len() - 1] == i);
                    assert(seq_has(out@, i as int));
                }
                assert forall|j: int|
                    0 <= j < i + 1 && #[trigger] self.spec_msg_ok(j) && spec_criteria_matches(
                        criteria.spec_view(),
                        self.spec_msg(j),
                    ) implies seq_has(out@, j) by {
                    if j < i {
                        assert(seq_has(prev, j));
                        let k = choose|k: int| 0 <= k < prev.len() && prev[k] == j;
                        assert(out@[k] == j);
                    }
                }
            }
            i = i + 1;
        }
        out
    }
}

/// The clipped end of a dense range request.
pub open spec fn spec_range_end(start: int, count: int, message_count: int) -> int {
    if start >= message_count {
        start
    } else if start + count > message_count {
        message_count
    } else {
        start + count
    }
}

/// Reads the scan's length field: the little-endian 16-bit value at
/// `pos + 18`, as the advance step uses it.
fn read_len_field(data: &Vec<u8>, pos: usize) -> (r: usize)
    requires
        pos + 20 <= data@.len(),
    ensures
        r == spec_u16_le(data@, pos + 18) as int,
{
    let total = data.len();
    assert(pos + 19 < total);
    let b0 = data[pos + 18] as usize;
    let b1 = data[pos + 19] as usize;
    b0 + b1 * 0x100
}

} // verus!

use vstd::prelude::*;
use crate::bytes::{le32, read_u32, copy_range};
use crate::types::QueryError;

verus! {

/// One fragment of a response that was split over several datagrams.
#[derive(Debug)]
pub struct Fragment {
    /// Shared by the fragments of one response; the top bit marks a
    /// compressed response.
    pub id: u32,
    /// How many fragments the response has.
    pub total: u8,
    /// This fragment's place, from 0.
    pub index: u8,
    /// What the fragment carries.
    pub data: Vec<u8>,
}

/// A received datagram.
#[derive(Debug)]
pub enum Packet {
    /// A whole response; the payload starts with its header byte.
    Single(Vec<u8>),
    /// One fragment of a split response.
    Fragment(Fragment),
}

pub open spec fn is_single_marker(d: Seq<u8>) -> bool {
    d[0] == 0xFF && d[1] == 0xFF && d[2] == 0xFF && d[3] == 0xFF
}

pub open spec fn is_split_marker(d: Seq<u8>) -> bool {
    d[0] == 0xFE && d[1] == 0xFF && d[2] == 0xFF && d[3] == 0xFF
}

/// How many bytes a fragment's header takes: marker, id, total, index, and
/// the maximum fragment size where the protocol revision sends it.
pub open spec fn fragment_header_len(with_size: bool) -> int {
    if with_size {
        12
    } else {
        10
    }
}

/// Reads the framing of a datagram. `with_size` says whether fragments
/// carry the two-byte maximum fragment size.
pub fn parse_packet(d: &Vec<u8>, with_size: bool) -> (r: Result<Packet, QueryError>)
    ensures
        d@.len() < 4 ==> r == Err::<Packet, QueryError>(QueryError::PacketUnderflow),
        d@.len() >= 4 && !is_single_marker(d@) && !is_split_marker(d@) ==> r == Err::<
            Packet,
            QueryError,
        >(QueryError::UnexpectedResponseHeader),
        d@.len() >= 4 && is_single_marker(d@) ==> (r matches Ok(Packet::Single(p)) && p@ == d@.subrange(
            4,
            d@.len() as int,
        )),
        d@.len() >= 4 && is_split_marker(d@) && d@.len() < fragment_header_len(with_size) ==> r
            == Err::<Packet, QueryError>(QueryError::PacketUnderflow),
        d@.len() >= 4 && is_split_marker(d@) && d@.len() >= fragment_header_len(with_size) ==> (
        r matches Ok(Packet::Fragment(f)) && f.id as int == le32(d@, 4) && f.total == d@[8]
            && f.index == d@[9] && f.data@ == d@.subrange(
            fragment_header_len(with_size),
            d@.len() as int,
        )),
{
    let n = d.len();
    if n < 4 {
        return Err(QueryError::PacketUnderflow);
    }
    if d[0] == 0xFF && d[1] == 0xFF && d[2] == 0xFF && d[3] == 0xFF {
        return Ok(Packet::Single(copy_range(d, 4, n)));
    }
    if !(d[0] == 0xFE && d[1] == 0xFF && d[2] == 0xFF && d[3] == 0xFF) {
        return Err(QueryError::UnexpectedResponseHeader);
    }
    let h: usize = if with_size {
        12
    } else {
        10
    };
    if n < h {
        return Err(QueryError::PacketUnderflow);
    }
    let id = read_u32(d, 4);
    let total = d[8];
    let index = d[9];
    let data = copy_range(d, h, n);
    Ok(Packet::Fragment(Fragment { id, total, index, data }))
}

/// Whether a response id marks a compressed response.
pub open spec fn id_compressed(id: u32) -> bool {
    id >= 0x8000_0000
}

impl Fragment {
    /// Whether the response this fragment belongs to is compressed.
    pub fn is_compressed(&self) -> (r: bool)
        ensures
            r == id_compressed(self.id),
    {
        self.id >= 0x8000_0000
    }
}

/// The slots after fragments, given as (index, data), arrived in this
/// order: a later fragment for an index replaces an earlier one, and one
/// whose index is out of range is dropped.
pub open spec fn placed(total: nat, frags: Seq<(u8, Seq<u8>)>) -> Seq<Option<Seq<u8>>>
    decreases frags.len(),
{
    if frags.len() == 0 {
        Seq::new(total, |i: int| None)
    } else {
        let prev = placed(total, frags.drop_last());
        let f = frags.last();
        if (f.0 as nat) < total {
            prev.update(f.0 as int, Some(f.1))
        } else {
            prev
        }
    }
}

/// The data of the slots, joined in index order; an empty slot adds nothing.
pub open spec fn joined(slots: Seq<Option<Seq<u8>>>) -> Seq<u8>
    decreases slots.len(),
{
    if slots.len() == 0 {
        Seq::empty()
    } else {
        joined(slots.drop_last()) + match slots.last() {
            Some(d) => d,
            None => Seq::empty(),
        }
    }
}

pub open spec fn all_filled(slots: Seq<Option<Seq<u8>>>) -> bool {
    forall|i: int| 0 <= i < slots.len() ==> (#[trigger] slots[i]) is Some
}

pub open spec fn slot_view(o: Option<Vec<u8>>) -> Option<Seq<u8>> {
    match o {
        Some(v) => Some(v@),
        None => None,
    }
}

/// The fragments of one split response, gathered until all have come.
#[derive(Debug)]
pub struct Reassembly {
    id: u32,
    total: u8,
    slots: Vec<Option<Vec<u8>>>,
}

impl View for Reassembly {
    type V = Seq<Option<Seq<u8>>>;

    /// Slot `i` holds the data of fragment `i`, once it has come.
    closed spec fn view(&self) -> Seq<Option<Seq<u8>>> {
        self.slots@.map_values(|o: Option<Vec<u8>>| slot_view(o))
    }
}

impl Reassembly {
    pub closed spec fn spec_id(&self) -> u32 {
        self.id
    }

    pub closed spec fn spec_total(&self) -> u8 {
        self.total
    }

    pub closed spec fn wf(&self) -> bool {
        self.slots@.len() == self.total as int
    }

    /// Starts gathering the response `id` of `total` fragments.
    pub fn new(id: u32, total: u8) -> (r: Reassembly)
        ensures
            r.wf(),
            r.spec_id() == id,
            r.spec_total() == total,
            r@ == placed(total as nat, Seq::empty()),
    {
        let mut slots: Vec<Option<Vec<u8>>> = Vec::new();
        let mut i: u8 = 0;
        while i < total
            invariant
                i <= total,
                slots@.len() == i,
                forall|k: int| 0 <= k < i ==> (#[trigger] slots@[k]) is None,
            decreases total - i,
        {
            slots.push(None);
            i = i + 1;
        }
        let r = Reassembly { id, total, slots };
        assert(r@ =~= placed(total as nat, Seq::empty()));
        r
    }

    /// The response id this gathers.
    pub fn id(&self) -> (r: u32)
        ensures
            r == self.spec_id(),
    {
        self.id
    }

    /// Adds a fragment. A fragment of another response, or one that does
    /// not fit the announced count, is refused and changes nothing; a
    /// fragment whose index has already come replaces the earlier one.
    pub fn add(&mut self, f: Fragment) -> (accepted: bool)
        requires
            old(self).wf(),
        ensures
            final(self).wf(),
            final(self).spec_id() == old(self).spec_id(),
            final(self).spec_total() == old(self).spec_total(),
            accepted == (f.id == old(self).spec_id() && f.total == old(self).spec_total() && f.index
                < old(self).spec_total()),
            accepted ==> final(self)@ == old(self)@.update(f.index as int, Some(f.data@)),
            !accepted ==> final(self)@ == old(self)@,
    {
        if f.id != self.id || f.total != self.total || f.index >= self.total {
            return false;
        }
        let ghost before = self@;
        let i = f.index as usize;
        let data = f.data;
        self.slots.set(i, Some(data));
        assert(self@ =~= before.update(i as int, Some(data@)));
        true
    }

    /// Whether every fragment has come.
    pub fn is_complete(&self) -> (r: bool)
        requires
            self.wf(),
        ensures
            r == all_filled(self@),
    {
        let mut i: usize = 0;
        while i < self.slots.len()
            invariant
                i <= self.slots@.len(),
                forall|k: int| 0 <= k < i ==> (#[trigger] self@[k]) is Some,
            decreases self.slots@.len() - i,
        {
            if self.slots[i].is_none() {
                assert(self@[i as int] is None);
                return false;
            }
            i = i + 1;
        }
        true
    }

    /// The joined payload, once every fragment has come.
    pub fn assemble(&self) -> (r: Option<Vec<u8>>)
        requires
            self.wf(),
        ensures
            r is Some <==> all_filled(self@),
            r matches Some(p) ==> p@ == joined(self@),
    {
        if !self.is_complete() {
            return None;
        }
        let mut out: Vec<u8> = Vec::new();
        let mut i: usize = 0;
        while i < self.slots.len()
            invariant
                i <= self.slots@.len(),
                all_filled(self@),
                out@ == joined(self@.subrange(0, i as int)),
            decreases self.slots@.len() - i,
        {
            assert(self@.subrange(0, i as int + 1).drop_last() =~= self@.subrange(0, i as int));
            assert(self@[i as int] is Some);
            match &self.slots[i] {
                Some(d) => {
                    append_bytes(&mut out, d);
                },
                None => {},
            }
            i = i + 1;
        }
        assert(self@.subrange(0, self.slots@.len() as int) =~= self@);
        Some(out)
    }
}

/// Appends the bytes of `d`.
fn append_bytes(out: &mut Vec<u8>, d: &Vec<u8>)
    ensures
        final(out)@ == old(out)@ + d@,
{
    let mut i: usize = 0;
    while i < d.len()
        invariant
            i <= d@.len(),
            out@ == old(out)@ + d@.subrange(0, i as int),
        decreases d@.len() - i,
    {
        out.push(d[i]);
        i = i + 1;
        assert(out@ =~= old(out)@ + d@.subrange(0, i as int));
    }
    assert(d@.subrange(0, d@.len() as int) =~= d@);
}

/// Fragments that share an index carry the same data.
pub open spec fn consistent(frags: Seq<(u8, Seq<u8>)>) -> bool {
    forall|j: int, k: int|
        0 <= j < frags.len() && 0 <= k < frags.len() && (#[trigger] frags[j]).0 == (
        #[trigger] frags[k]).0 ==> frags[j] == frags[k]
}

proof fn lemma_placed_slots(total: nat, frags: Seq<(u8, Seq<u8>)>)
    requires
        consistent(frags),
    ensures
        placed(total, frags).len() == total,
        forall|k: int|
            0 <= k < total ==> ((#[trigger] placed(total, frags)[k]) is None <==> forall|j: int|
                0 <= j < frags.len() ==> frags[j].0 != k),
        forall|j: int|
            0 <= j < frags.len() && (frags[j].0 as nat) < total ==> #[trigger] placed(
                total,
                frags,
            )[frags[j].0 as int] == Some(frags[j].1),
    decreases frags.len(),
{
    if frags.len() > 0 {
        let pre = frags.drop_last();
        assert(consistent(pre)) by {
            assert forall|j: int, k: int|
                0 <= j < pre.len() && 0 <= k < pre.len() && (#[trigger] pre[j]).0 == (
                #[trigger] pre[k]).0 implies pre[j] == pre[k] by {
                assert(pre[j] == frags[j] && pre[k] == frags[k]);
            }
        }
        lemma_placed_slots(total, pre);
        let last = frags.len() - 1;
        assert forall|j: int|
            0 <= j < frags.len() && (frags[j].0 as nat) < total implies #[trigger] placed(
                total,
                frags,
            )[frags[j].0 as int] == Some(frags[j].1) by {
            if j < last {
                assert(frags[j] == pre[j]);
                if frags[j].0 == frags[last].0 {
                    assert(frags[j] == frags[last]);
                }
            }
        }
        assert forall|k: int|
            0 <= k < total implies ((#[trigger] placed(total, frags)[k]) is None <==> forall|j: int|
                0 <= j < frags.len() ==> frags[j].0 != k) by {
            if placed(total, frags)[k] is None {
                assert forall|j: int| 0 <= j < frags.len() implies frags[j].0 != k by {
                    if j < last {
                        assert(frags[j] == pre[j]);
                    }
                }
            } else {
                if k != frags[last].0 {
                    let j = choose|j: int| 0 <= j < pre.len() && pre[j].0 == k;
                    assert(frags[j] == pre[j]);
                }
            }
        }
    }
}

/// The slots, and so the joined payload, do not depend on the order in
/// which fragments arrive, as long as fragments that share an index carry
/// the same data.
pub proof fn lemma_arrival_order(
    total: nat,
    a: Seq<(u8, Seq<u8>)>,
    b: Seq<(u8, Seq<u8>)>,
)
    requires
        a.to_multiset() == b.to_multiset(),
        consistent(a),
    ensures
        placed(total, a) == placed(total, b),
        joined(placed(total, a)) == joined(placed(total, b)),
{
    assert forall|x: (u8, Seq<u8>)| a.contains(x) <==> b.contains(x) by {
        a.to_multiset_ensures();
        b.to_multiset_ensures();
        assert(a.contains(x) <==> a.to_multiset().count(x) > 0);
        assert(b.contains(x) <==> b.to_multiset().count(x) > 0);
        assert(a.to_multiset().count(x) == b.to_multiset().count(x));
    }
    assert(consistent(b)) by {
        assert forall|j: int, k: int|
            0 <= j < b.len() && 0 <= k < b.len() && (#[trigger] b[j]).0 == (#[trigger] b[k]).0 implies b[j]
            == b[k] by {
            assert(b.contains(b[j]) && b.contains(b[k]));
            assert(a.contains(b[j]) && a.contains(b[k]));
            let ja = choose|i: int| 0 <= i < a.len() && a[i] == b[j];
            let ka = choose|i: int| 0 <= i < a.len() && a[i] == b[k];
            assert(a[ja].0 == a[ka].0);
        }
    }
    lemma_placed_slots(total, a);
    lemma_placed_slots(total, b);
    assert forall|k: int| 0 <= k < total implies placed(total, a)[k] == placed(total, b)[k] by {
        if placed(total, a)[k] is None {
            if !(placed(total, b)[k] is None) {
                let j = choose|j: int| 0 <= j < b.len() && b[j].0 == k;
                assert(b.contains(b[j]));
                let i = choose|i: int| 0 <= i < a.len() && a[i] == b[j];
                assert(a[i].0 == k);
            }
        } else {
            let i = choose|i: int| 0 <= i < a.len() && a[i].0 == k;
            assert(a.contains(a[i]));
            let j = choose|j: int| 0 <= j < b.len() && b[j] == a[i];
            assert(placed(total, b)[b[j].0 as int] == Some(b[j].1));
        }
    }
    assert(placed(total, a) =~= placed(total, b));
}

/// One shift of the reflected CRC-32 (polynomial 0xEDB88320).
pub open spec fn crc_round(c: u32) -> u32 {
    if c & 1 == 1 {
        (c >> 1) ^ 0xEDB8_8320u32
    } else {
        c >> 1
    }
}

pub open spec fn crc_rounds(c: u32, k: nat) -> u32
    decreases k,
{
    if k == 0 {
        c
    } else {
        crc_round(crc_rounds(c, (k - 1) as nat))
    }
}

/// The CRC register after the bytes of `s`, starting from `c`.
pub open spec fn crc_update(c: u32, s: Seq<u8>) -> u32
    decreases s.len(),
{
    if s.len() == 0 {
        c
    } else {
        crc_rounds(crc_update(c, s.drop_last()) ^ (s.last() as u32), 8)
    }
}

/// The CRC-32 checksum of `s`.
pub open spec fn crc32(s: Seq<u8>) -> u32 {
    !crc_update(0xFFFF_FFFFu32, s)
}

/// Computes the CRC-32 checksum of `s`.
pub fn crc32_of(s: &Vec<u8>) -> (r: u32)
    ensures
        r == crc32(s@),
{
    let mut c: u32 = 0xFFFF_FFFF;
    let mut i: usize = 0;
    while i < s.len()
        invariant
            i <= s@.len(),
            c == crc_update(0xFFFF_FFFFu32, s@.subrange(0, i as int)),
        decreases s@.len() - i,
    {
        c = c ^ (s[i] as u32);
        let ghost c0 = c;
        let mut k: u32 = 0;
        while k < 8
            invariant
                k <= 8,
                c == crc_rounds(c0, k as nat),
            decreases 8 - k,
        {
            c = if c & 1 == 1 {
                (c >> 1) ^ 0xEDB8_8320u32
            } else {
                c >> 1
            };
            k = k + 1;
        }
        assert(s@.subrange(0, i as int + 1).drop_last() =~= s@.subrange(0, i as int));
        i = i + 1;
    }
    assert(s@.subrange(0, s@.len() as int) =~= s@);
    !c
}

/// The parts of a joined compressed response: the decompressed size, the
/// CRC-32 of the decompressed bytes, and the compressed bytes.
pub fn compressed_parts(joined: &Vec<u8>) -> (r: Result<(u32, u32, Vec<u8>), QueryError>)
    ensures
        joined@.len() < 8 ==> r == Err::<(u32, u32, Vec<u8>), QueryError>(
            QueryError::PacketUnderflow,
        ),
        joined@.len() >= 8 ==> (r matches Ok((size, crc, data)) && size as int == le32(joined@, 0)
            && crc as int == le32(joined@, 4) && data@ == joined@.subrange(
            8,
            joined@.len() as int,
        )),
{
    let n = joined.len();
    if n < 8 {
        return Err(QueryError::PacketUnderflow);
    }
    let size = read_u32(joined, 0);
    let crc = read_u32(joined, 4);
    let data = copy_range(joined, 8, n);
    Ok((size, crc, data))
}

/// The outcome of checking decompressed bytes against the announced size
/// and checksum.
pub open spec fn decompressed_check(out: Seq<u8>, size: u32, crc: u32) -> Option<QueryError> {
    if out.len() != size as int {
        Some(QueryError::DecompressionFailed)
    } else if crc32(out) != crc {
        Some(QueryError::ChecksumMismatch)
    } else {
        None
    }
}

/// Hands back the decompressed bytes only when their length is `size` and
/// their CRC-32 is `crc`.
pub fn check_decompressed(out: Vec<u8>, size: u32, crc: u32) -> (r: Result<Vec<u8>, QueryError>)
    ensures
        r is Ok <==> decompressed_check(out@, size, crc) is None,
        r matches Ok(v) ==> v@ == out@,
        r matches Err(e) ==> decompressed_check(out@, size, crc) == Some(e),
{
    if out.len() as u64 != size as u64 {
        return Err(QueryError::DecompressionFailed);
    }
    if crc32_of(&out) != crc {
        return Err(QueryError::ChecksumMismatch);
    }
    Ok(out)
}

/// What the bzip2 decoder makes of a byte string: the decompressed bytes,
/// or `None` where it reports an error.
pub uninterp spec fn bunzip_of(b: Seq<u8>) -> Option<Seq<u8>>;

/// Relies on `bzip2_rs::DecoderReader` read to its end over a byte slice:
/// the decompressed bytes, or an error, as a function of those bytes.
#[verifier::external_body]
fn bunzip(data: &Vec<u8>) -> (r: Option<Vec<u8>>)
    ensures
        r matches Some(o) ==> bunzip_of(data@) == Some(o@),
        r is None ==> bunzip_of(data@) is None,
{
    let mut out: Vec<u8> = Vec::new();
    let mut reader = bzip2_rs::DecoderReader::new(data.as_slice());
    match std::io::Read::read_to_end(&mut reader, &mut out) {
        Ok(_) => Some(out),
        Err(_) => None,
    }
}

/// The payload of a simple packet, or why `d` is none.
pub open spec fn single_payload(d: Seq<u8>) -> Result<Seq<u8>, QueryError> {
    if d.len() < 4 {
        Err(QueryError::PacketUnderflow)
    } else if !is_single_marker(d) {
        Err(QueryError::UnexpectedResponseHeader)
    } else {
        Ok(d.subrange(4, d.len() as int))
    }
}

/// The payload that compressed bytes stand for, given the decompressed
/// bytes `out` (`None` where the decoder failed).
pub open spec fn payload_from(out: Option<Seq<u8>>, size: u32, crc: u32) -> Result<
    Seq<u8>,
    QueryError,
> {
    match out {
        None => Err(QueryError::DecompressionFailed),
        Some(o) => match decompressed_check(o, size, crc) {
            Some(e) => Err(e),
            None => single_payload(o),
        },
    }
}

/// Decompressed bytes of the announced size whose CRC-32 is not the
/// announced one give `ChecksumMismatch`, and never a payload.
pub proof fn lemma_corrupt_checksum(out: Seq<u8>, size: u32, crc: u32)
    requires
        out.len() == size as int,
        crc32(out) != crc,
    ensures
        payload_from(Some(out), size, crc) == Err::<Seq<u8>, QueryError>(
            QueryError::ChecksumMismatch,
        ),
{
}

pub open spec fn result_view(r: Result<Vec<u8>, QueryError>) -> Result<Seq<u8>, QueryError> {
    match r {
        Ok(v) => Ok(v@),
        Err(e) => Err(e),
    }
}

/// Decompresses a compressed response and checks the result against the
/// announced size and CRC-32 before it is handed on as a payload.
pub fn decompress(size: u32, crc: u32, data: &Vec<u8>) -> (r: Result<Vec<u8>, QueryError>)
    ensures
        result_view(r) == payload_from(bunzip_of(data@), size, crc),
{
    let out = match bunzip(data) {
        Some(o) => o,
        None => {
            return Err(QueryError::DecompressionFailed);
        },
    };
    let checked = check_decompressed(out, size, crc)?;
    unwrap_single(&checked)
}

/// The payload of a simple packet: its bytes after the marker.
pub fn unwrap_single(d: &Vec<u8>) -> (r: Result<Vec<u8>, QueryError>)
    ensures
        d@.len() < 4 ==> r == Err::<Vec<u8>, QueryError>(QueryError::PacketUnderflow),
        d@.len() >= 4 && !is_single_marker(d@) ==> r == Err::<Vec<u8>, QueryError>(
            QueryError::UnexpectedResponseHeader,
        ),
        d@.len() >= 4 && is_single_marker(d@) ==> (r matches Ok(p) && p@ == d@.subrange(
            4,
            d@.len() as int,
        )),
{
    let n = d.len();
    if n < 4 {
        return Err(QueryError::PacketUnderflow);
    }
    if !(d[0] == 0xFF && d[1] == 0xFF && d[2] == 0xFF && d[3] == 0xFF) {
        return Err(QueryError::UnexpectedResponseHeader);
    }
    Ok(copy_range(d, 4, n))
}

/// What a datagram leads to.
#[derive(Debug)]
pub enum Received {
    /// A whole payload, its header byte first.
    Payload(Vec<u8>),
    /// Fragments are still missing.
    Pending(Reassembly),
}

/// Whether a gathering in progress is the one for response `id`.
pub open spec fn continues(pending: Option<Reassembly>, id: u32) -> bool {
    pending matches Some(p) && p.spec_id() == id
}

/// The slots and count of the gathering a fragment of `id` and `total`
/// joins: the one in progress if it has that id, else a fresh one.
pub open spec fn base_slots(pending: Option<Reassembly>, id: u32, total: u8) -> Seq<Option<Seq<u8>>> {
    if continues(pending, id) {
        pending.unwrap()@
    } else {
        placed(total as nat, Seq::empty())
    }
}

pub open spec fn base_total(pending: Option<Reassembly>, id: u32, total: u8) -> u8 {
    if continues(pending, id) {
        pending.unwrap().spec_total()
    } else {
        total
    }
}

/// The slots once the fragment of the datagram `d` has been added.
pub open spec fn slots_after(pending: Option<Reassembly>, d: Seq<u8>, with_size: bool) -> Seq<
    Option<Seq<u8>>,
> {
    let id = le32(d, 4) as u32;
    let base = base_slots(pending, id, d[8]);
    if d[8] == base_total(pending, id, d[8]) && d[9] < d[8] {
        base.update(d[9] as int, Some(d.subrange(fragment_header_len(with_size), d.len() as int)))
    } else {
        base
    }
}

/// Takes one datagram. A simple packet gives its payload at once; a
/// fragment joins the gathering of its response, which gives the joined
/// payload once every fragment has come, decompressed and checked where the
/// response is compressed. A fragment of another response
/// than the one in progress starts over.
pub fn receive(pending: Option<Reassembly>, d: &Vec<u8>, with_size: bool) -> (r: Result<
    Received,
    QueryError,
>)
    requires
        pending matches Some(p) ==> p.wf(),
    ensures
        d@.len() < 4 ==> r == Err::<Received, QueryError>(QueryError::PacketUnderflow),
        d@.len() >= 4 && !is_single_marker(d@) && !is_split_marker(d@) ==> r == Err::<
            Received,
            QueryError,
        >(QueryError::UnexpectedResponseHeader),
        d@.len() >= 4 && is_single_marker(d@) ==> (r matches Ok(Received::Payload(p)) && p@
            == d@.subrange(4, d@.len() as int)),
        d@.len() >= 4 && is_split_marker(d@) && d@.len() < fragment_header_len(with_size) ==> r
            == Err::<Received, QueryError>(QueryError::PacketUnderflow),
        d@.len() >= 4 && is_split_marker(d@) && d@.len() >= fragment_header_len(with_size) ==> {
            let after = slots_after(pending, d@, with_size);
            let j = joined(after);
            &&& !all_filled(after) ==> (r matches Ok(Received::Pending(q)) && q.wf() && q@
                == after && q.spec_id() == le32(d@, 4))
            &&& all_filled(after) && id_compressed(le32(d@, 4) as u32) && j.len() < 8 ==> r
                == Err::<Received, QueryError>(QueryError::PacketUnderflow)
            &&& all_filled(after) && id_compressed(le32(d@, 4) as u32) && j.len() >= 8 ==> {
                let out = payload_from(
                    bunzip_of(j.subrange(8, j.len() as int)),
                    le32(j, 0) as u32,
                    le32(j, 4) as u32,
                );
                &&& out matches Ok(p) ==> (r matches Ok(Received::Payload(q)) && q@ == p)
                &&& out matches Err(e) ==> r == Err::<Received, QueryError>(e)
            }
            &&& all_filled(after) && !id_compressed(le32(d@, 4) as u32) && j.len() < 4 ==> r
                == Err::<Received, QueryError>(QueryError::PacketUnderflow)
            &&& all_filled(after) && !id_compressed(le32(d@, 4) as u32) && j.len() >= 4
                && !is_single_marker(j) ==> r == Err::<Received, QueryError>(
                QueryError::UnexpectedResponseHeader,
            )
            &&& all_filled(after) && !id_compressed(le32(d@, 4) as u32) && j.len() >= 4
                && is_single_marker(j) ==> (r matches Ok(Received::Payload(p)) && p@
                == j.subrange(4, j.len() as int))
        },
{
    let packet = parse_packet(d, with_size)?;
    let f = match packet {
        Packet::Single(p) => {
            return Ok(Received::Payload(p));
        },
        Packet::Fragment(f) => f,
    };
    let mut q = match pending {
        Some(p) => {
            if p.id() == f.id {
                p
            } else {
                Reassembly::new(f.id, f.total)
            }
        },
        None => Reassembly::new(f.id, f.total),
    };
    let compressed = f.is_compressed();
    q.add(f);
    let joined = match q.assemble() {
        Some(j) => j,
        None => {
            return Ok(Received::Pending(q));
        },
    };
    if compressed {
        let (size, crc, data) = compressed_parts(&joined)?;
        let p = decompress(size, crc, &data)?;
        Ok(Received::Payload(p))
    } else {
        let p = unwrap_single(&joined)?;
        Ok(Received::Payload(p))
    }
}

} // verus!

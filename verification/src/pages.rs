//! Ogg pages: packets in, bytes out.
use vstd::prelude::*;
use ogg::writing::{PacketWriteEndInfo, PacketWriter};
use crate::bytes::{le32, le64};

verus! {

/// What ends with a packet.
#[derive(Clone, Copy, PartialEq, Eq, Structural, Debug)]
pub enum PacketEnd {
    /// Nothing: more packets may follow in the same page.
    Packet,
    /// The page.
    Page,
    /// The page and the whole stream.
    Stream,
}

/// A packet as it is handed to the page writer.
#[derive(Debug)]
pub struct OggPacket {
    pub data: Vec<u8>,
    pub serial: u32,
    pub end: PacketEnd,
    pub granule: u64,
}

/// The contents of an [`OggPacket`].
pub struct PacketView {
    pub data: Seq<u8>,
    pub serial: u32,
    pub end: PacketEnd,
    pub granule: u64,
}

impl View for OggPacket {
    type V = PacketView;

    open spec fn view(&self) -> PacketView {
        PacketView { data: self.data@, serial: self.serial, end: self.end, granule: self.granule }
    }
}

/// The contents of a list of packets.
pub open spec fn packet_views(packets: Seq<OggPacket>) -> Seq<PacketView> {
    packets.map_values(|p: OggPacket| p@)
}

/// How many lacing segments a packet takes: one for each 255 bytes, and one for what is left.
pub open spec fn segments(p: PacketView) -> nat {
    p.data.len() / 255 + 1
}

/// How many lacing segments the packets take together.
pub open spec fn total_segments(packets: Seq<PacketView>) -> nat
    decreases packets.len(),
{
    if packets.len() == 0 {
        0
    } else {
        total_segments(packets.drop_last()) + segments(packets.last())
    }
}

/// The packets of a stream behind the last one that ended its page.
pub open spec fn held_back(packets: Seq<PacketView>, serial: u32) -> Seq<PacketView>
    decreases packets.len(),
{
    if packets.len() == 0 {
        Seq::empty()
    } else if packets.last().serial != serial {
        held_back(packets.drop_last(), serial)
    } else if packets.last().end != PacketEnd::Packet {
        Seq::empty()
    } else {
        held_back(packets.drop_last(), serial).push(packets.last())
    }
}

/// How many packets of a stream ended their page.
pub open spec fn ended_count(packets: Seq<PacketView>, serial: u32) -> nat
    decreases packets.len(),
{
    if packets.len() == 0 {
        0
    } else {
        ended_count(packets.drop_last(), serial) + if packets.last().serial == serial
            && packets.last().end != PacketEnd::Packet {
            1nat
        } else {
            0
        }
    }
}

/// The most pages that the packets of a stream can take: those that are full, and those that a
/// packet ended.
pub open spec fn page_bound(packets: Seq<PacketView>, serial: u32) -> nat {
    total_segments(packets) / 255 + ended_count(packets, serial)
}

/// Whether no page of a stream got full before a packet ended it, so that each packet that ended
/// its page took one page.
pub open spec fn fits_pages(packets: Seq<PacketView>, serial: u32) -> bool
    decreases packets.len(),
{
    if packets.len() == 0 {
        true
    } else {
        let earlier = packets.drop_last();
        let p = packets.last();
        fits_pages(earlier, serial) && (p.serial == serial ==> total_segments(
            held_back(earlier, serial).push(p),
        ) <= if p.end == PacketEnd::Packet {
            254int
        } else {
            255
        })
    }
}

// Pages.

/// The lacing values of a packet: 255 for each 255 bytes, then what is left.
pub open spec fn lacing(p: PacketView) -> Seq<u8> {
    Seq::new(
        segments(p),
        |i: int|
            if i + 1 < segments(p) {
                255
            } else {
                (p.data.len() % 255) as u8
            },
    )
}

/// The lacing values of packets, in order.
pub open spec fn lacing_of(packets: Seq<PacketView>) -> Seq<u8>
    decreases packets.len(),
{
    if packets.len() == 0 {
        Seq::empty()
    } else {
        lacing_of(packets.drop_last()) + lacing(packets.last())
    }
}

/// The data of packets, in order.
pub open spec fn data_of(packets: Seq<PacketView>) -> Seq<u8>
    decreases packets.len(),
{
    if packets.len() == 0 {
        Seq::empty()
    } else {
        data_of(packets.drop_last()) + packets.last().data
    }
}

/// The flags of a page that begins with a packet: 2 on the first page of a stream, 4 on the last.
pub open spec fn page_flags(first: bool, last: bool) -> u8 {
    if first {
        if last {
            6
        } else {
            2
        }
    } else {
        if last {
            4
        } else {
            0
        }
    }
}

/// Whether `page` is the page of these packets, all of them whole: `OggS`, version, flags, granule
/// position and serial number of the last packet, page number and checksum (four bytes each, unsaid
/// here), the number of segments, the lacing values, the data.
pub open spec fn is_page(page: Seq<u8>, packets: Seq<PacketView>, first: bool) -> bool {
    let n = total_segments(packets) as int;
    &&& page.len() == 27 + n + data_of(packets).len()
    &&& page.subrange(0, 5) == seq![79u8, 103, 103, 83, 0]
    &&& page[5] == page_flags(first, packets.last().end == PacketEnd::Stream)
    &&& page.subrange(6, 14) == le64(packets.last().granule as nat)
    &&& page.subrange(14, 18) == le32(packets.last().serial as nat)
    &&& page[26] == n
    &&& page.subrange(27, 27 + n) == lacing_of(packets)
    &&& page.subrange(27 + n, page.len() as int) == data_of(packets)
}

/// Whether a page carries this page number.
pub open spec fn has_number(page: Seq<u8>, number: nat) -> bool {
    page.subrange(18, 22) == le32(number)
}

/// The sum of bytes.
pub open spec fn byte_sum(bytes: Seq<u8>) -> nat
    decreases bytes.len(),
{
    if bytes.len() == 0 {
        0
    } else {
        byte_sum(bytes.drop_last()) + bytes.last() as nat
    }
}

/// Whether `page` is a page, as long as its lacing values say, that `p` ends: it has the granule
/// position and the serial number of `p`, and the flag of value 4 exactly where `p` ends the
/// stream.
pub open spec fn is_ended_by(page: Seq<u8>, p: PacketView) -> bool {
    &&& page.len() >= 28
    &&& page[26] >= 1
    &&& page.len() >= 27 + page[26]
    &&& page.len() == 27 + page[26] + byte_sum(page.subrange(27, 27 + page[26]))
    &&& page.subrange(0, 5) == seq![79u8, 103, 103, 83, 0]
    &&& page[5] / 4 == if p.end == PacketEnd::Stream {
        1u8
    } else {
        0
    }
    &&& page.subrange(6, 14) == le64(p.granule as nat)
    &&& page.subrange(14, 18) == le32(p.serial as nat)
}

/// Whether bytes end with a page that `p` ends.
pub open spec fn last_page_ended_by(bytes: Seq<u8>, p: PacketView) -> bool {
    exists|at: int| 0 <= at <= bytes.len() && #[trigger] is_ended_by(bytes.skip(at), p)
}

// The page writer.

/// The page writer of the `ogg` crate, over a vector.
#[verifier::external_body]
pub struct PageWriter {
    inner: PacketWriter<'static, Vec<u8>>,
}

/// The packets that a page writer has been handed, in order.
pub uninterp spec fn packets_written(w: PageWriter) -> Seq<PacketView>;

/// The bytes in the vector of a page writer.
pub uninterp spec fn bytes_waiting(w: PageWriter) -> Seq<u8>;

/// The bytes that a page writer puts out for packets handed to it in this order.
pub uninterp spec fn pages_of(packets: Seq<PacketView>) -> Seq<u8>;

/// `PacketWriter::new` on an empty vector: no packet has been handed over, no byte put out.
#[verifier::external_body]
pub(crate) fn new_writer() -> (w: PageWriter)
    ensures
        packets_written(w) == Seq::<PacketView>::empty(),
        pages_of(packets_written(w)) == Seq::<u8>::empty(),
        bytes_waiting(w) == Seq::<u8>::empty(),
{
    PageWriter { inner: PacketWriter::new(Vec::new()) }
}

/// `PacketWriter::write_packet` on a writer over a vector, which takes every byte.
///
/// What is put out is appended to the vector. A packet that does not end its page puts out nothing
/// while it and those of its stream that are held back fill less than one page of 255 segments. A
/// packet that ends its page puts out all that is held back and itself: one page where they fill no
/// more than one, and in any case bytes that end with a page of its own granule position and serial
/// number. While no page got full before its end, pages are numbered by the packets that ended one.
/// Page numbers are 32 bits wide: hence the bound.
#[verifier::external_body]
fn write_packet(w: &mut PageWriter, p: &OggPacket)
    requires
        page_bound(packets_written(*old(w)).push(p@), p@.serial) <= u32::MAX,
    ensures
        packets_written(*final(w)) == packets_written(*old(w)).push(p@),
        pages_of(packets_written(*old(w))).is_prefix_of(pages_of(packets_written(*final(w)))),
        bytes_waiting(*final(w)) == bytes_waiting(*old(w)) + pages_of(
            packets_written(*final(w)),
        ).skip(pages_of(packets_written(*old(w))).len() as int),
        p@.end == PacketEnd::Packet && total_segments(
            held_back(packets_written(*old(w)), p@.serial).push(p@),
        ) < 255 ==> pages_of(packets_written(*final(w))) == pages_of(packets_written(*old(w))),
        p@.end != PacketEnd::Packet ==> last_page_ended_by(
            pages_of(packets_written(*final(w))).skip(
                pages_of(packets_written(*old(w))).len() as int,
            ),
            p@,
        ),
        p@.end != PacketEnd::Packet && total_segments(
            held_back(packets_written(*old(w)), p@.serial).push(p@),
        ) <= 255 ==> is_page(
            pages_of(packets_written(*final(w))).skip(
                pages_of(packets_written(*old(w))).len() as int,
            ),
            held_back(packets_written(*old(w)), p@.serial).push(p@),
            ended_count(packets_written(*old(w)), p@.serial) == 0,
        ),
        p@.end != PacketEnd::Packet && fits_pages(packets_written(*final(w)), p@.serial)
            ==> has_number(
            pages_of(packets_written(*final(w))).skip(
                pages_of(packets_written(*old(w))).len() as int,
            ),
            ended_count(packets_written(*old(w)), p@.serial),
        ),
{
    let end = match p.end {
        PacketEnd::Packet => PacketWriteEndInfo::NormalPacket,
        PacketEnd::Page => PacketWriteEndInfo::EndPage,
        PacketEnd::Stream => PacketWriteEndInfo::EndStream,
    };
    w.inner.write_packet(p.data.clone(), p.serial, end, p.granule)
        .expect("a vector takes every byte");
}

/// `PacketWriter::inner_mut`: takes the bytes out of the vector and leaves it empty. The writer
/// goes on where it stands.
#[verifier::external_body]
fn take_bytes(w: &mut PageWriter) -> (r: Vec<u8>)
    ensures
        r@ == bytes_waiting(*old(w)),
        bytes_waiting(*final(w)) == Seq::<u8>::empty(),
        packets_written(*final(w)) == packets_written(*old(w)),
{
    std::mem::take(w.inner.inner_mut())
}

// Blocks of packets.

/// Whether packets are of one stream, and the last of them ends its page and none before it does.
pub open spec fn is_block(packets: Seq<PacketView>, serial: u32) -> bool {
    &&& forall|i: int| 0 <= i < packets.len() ==> (#[trigger] packets[i]).serial == serial
    &&& forall|i: int|
        0 <= i < packets.len() ==> ((#[trigger] packets[i]).end == PacketEnd::Packet <==> i + 1
            < packets.len())
}

pub(crate) proof fn lemma_total_segments_add(a: Seq<PacketView>, b: Seq<PacketView>)
    ensures
        total_segments(a + b) == total_segments(a) + total_segments(b),
    decreases b.len(),
{
    if b.len() == 0 {
        assert(a + b =~= a);
    } else {
        lemma_total_segments_add(a, b.drop_last());
        assert((a + b).drop_last() =~= a + b.drop_last());
    }
}

pub(crate) proof fn lemma_ended_count_add(a: Seq<PacketView>, b: Seq<PacketView>, serial: u32)
    ensures
        ended_count(a + b, serial) == ended_count(a, serial) + ended_count(b, serial),
    decreases b.len(),
{
    if b.len() == 0 {
        assert(a + b =~= a);
    } else {
        lemma_ended_count_add(a, b.drop_last(), serial);
        assert((a + b).drop_last() =~= a + b.drop_last());
    }
}

proof fn lemma_page_bound_prefix(packets: Seq<PacketView>, k: int, serial: u32)
    requires
        0 <= k <= packets.len(),
    ensures
        page_bound(packets.take(k), serial) <= page_bound(packets, serial),
{
    assert(packets.take(k) + packets.skip(k) =~= packets);
    lemma_total_segments_add(packets.take(k), packets.skip(k));
    lemma_ended_count_add(packets.take(k), packets.skip(k), serial);
}

/// Nothing of a stream is held back behind a packet that ended its page.
pub(crate) proof fn lemma_nothing_held_back(packets: Seq<PacketView>, serial: u32)
    requires
        packets.len() > 0,
        packets.last().serial == serial,
        packets.last().end != PacketEnd::Packet,
    ensures
        held_back(packets, serial).len() == 0,
        ended_count(packets, serial) > 0,
{
}

proof fn lemma_block_held_back(
    written: Seq<PacketView>,
    block: Seq<PacketView>,
    k: int,
    serial: u32,
)
    requires
        is_block(block, serial),
        held_back(written, serial).len() == 0,
        0 <= k < block.len(),
    ensures
        held_back(written + block.take(k), serial) == block.take(k),
        fits_pages(written, serial) && total_segments(block) <= 255 ==> fits_pages(
            written + block.take(k),
            serial,
        ),
        ended_count(written + block.take(k), serial) == ended_count(written, serial),
    decreases k,
{
    if k == 0 {
        assert(written + block.take(0) =~= written);
        assert(held_back(written, serial) =~= block.take(0));
    } else {
        lemma_block_held_back(written, block, k - 1, serial);
        let now = written + block.take(k);
        assert(now.drop_last() =~= written + block.take(k - 1));
        assert(now.last() == block[k - 1]);
        assert(block.take(k) =~= block.take(k - 1).push(block[k - 1]));
        assert(block.take(k) + block.skip(k) =~= block);
        lemma_total_segments_add(block.take(k), block.skip(k));
        assert(total_segments(block.skip(k)) >= 1);
    }
}

/// Hands a block of packets to a writer that holds nothing back of their stream, and takes what it
/// puts out: the whole of the block.
pub(crate) fn write_block(
    w: &mut PageWriter,
    packets: &Vec<OggPacket>,
    Ghost(serial): Ghost<u32>,
) -> (r: Vec<u8>)
    requires
        is_block(packet_views(packets@), serial),
        held_back(packets_written(*old(w)), serial).len() == 0,
        bytes_waiting(*old(w)).len() == 0,
        page_bound(packets_written(*old(w)) + packet_views(packets@), serial) <= u32::MAX,
    ensures
        packets_written(*final(w)) == packets_written(*old(w)) + packet_views(packets@),
        bytes_waiting(*final(w)).len() == 0,
        pages_of(packets_written(*old(w))).is_prefix_of(pages_of(packets_written(*final(w)))),
        r@ == pages_of(packets_written(*final(w))).skip(
            pages_of(packets_written(*old(w))).len() as int,
        ),
        packets@.len() == 0 ==> r@.len() == 0,
        packets@.len() > 0 ==> last_page_ended_by(r@, packet_views(packets@).last()),
        packets@.len() > 0 && total_segments(packet_views(packets@)) <= 255 ==> is_page(
            r@,
            packet_views(packets@),
            ended_count(packets_written(*old(w)), serial) == 0,
        ),
        fits_pages(packets_written(*old(w)), serial) && total_segments(packet_views(packets@))
            <= 255 ==> fits_pages(packets_written(*final(w)), serial) && (packets@.len() > 0
            ==> has_number(r@, ended_count(packets_written(*old(w)), serial))),
{
    let ghost views = packet_views(packets@);
    let ghost written = packets_written(*w);
    let ghost before = pages_of(written);
    let n = packets.len();
    let mut i: usize = 0;
    proof {
        assert(written + views.take(0) =~= written);
        assert(before.skip(before.len() as int) =~= Seq::<u8>::empty());
        assert(bytes_waiting(*w) =~= Seq::<u8>::empty());
    }
    while i < n
        invariant
            i <= n,
            n == packets@.len(),
            views == packet_views(packets@),
            is_block(views, serial),
            held_back(written, serial).len() == 0,
            before == pages_of(written),
            page_bound(written + views, serial) <= u32::MAX,
            packets_written(*w) == written + views.take(i as int),
            before.is_prefix_of(pages_of(packets_written(*w))),
            bytes_waiting(*w) == pages_of(packets_written(*w)).skip(before.len() as int),
            i < n && total_segments(views) <= 255 ==> pages_of(packets_written(*w)) == before,
            i == 0 ==> pages_of(packets_written(*w)) == before,
            0 < i == n ==> last_page_ended_by(bytes_waiting(*w), views.last()),
            0 < i == n && total_segments(views) <= 255 ==> is_page(
                bytes_waiting(*w),
                views,
                ended_count(written, serial) == 0,
            ),
            0 < i == n && total_segments(views) <= 255 && fits_pages(written, serial)
                ==> fits_pages(packets_written(*w), serial) && has_number(
                bytes_waiting(*w),
                ended_count(written, serial),
            ),
        decreases n - i,
    {
        let p = &packets[i];
        let ghost now = packets_written(*w);
        let ghost out = pages_of(now);
        let ghost waiting = bytes_waiting(*w);
        proof {
            assert(p@ == views[i as int]);
            assert(views.take(i + 1) =~= views.take(i as int).push(p@));
            assert(now.push(p@) =~= written + views.take(i + 1));
            assert((written + views).take(written.len() + i + 1) =~= now.push(p@));
            lemma_page_bound_prefix(written + views, written.len() + i + 1, serial);
            lemma_block_held_back(written, views, i as int, serial);
            assert(views.take(i + 1) + views.skip(i + 1) =~= views);
            lemma_total_segments_add(views.take(i + 1), views.skip(i + 1));
            if i + 1 < n {
                assert(total_segments(views.skip(i + 1)) >= 1);
            }
            assert(now.push(p@).drop_last() =~= now);
        }
        write_packet(w, p);
        proof {
            let all = pages_of(packets_written(*w));
            assert(all.skip(before.len() as int) =~= out.skip(before.len() as int) + all.skip(
                out.len() as int,
            ));
            if i + 1 == n {
                assert(views.take(i + 1) =~= views);
                let added = all.skip(out.len() as int);
                let at = choose|at: int|
                    0 <= at <= added.len() && #[trigger] is_ended_by(added.skip(at), p@);
                let whole = bytes_waiting(*w);
                assert(whole.skip(waiting.len() + at) =~= added.skip(at));
                assert(is_ended_by(whole.skip(waiting.len() + at), views.last()));
                if total_segments(views) <= 255 {
                    assert(whole =~= added);
                }
            }
        }
        i = i + 1;
    }
    proof {
        assert(views.take(n as int) =~= views);
    }
    take_bytes(w)
}

} // verus!

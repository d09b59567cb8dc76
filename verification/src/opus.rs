//! Opus in Ogg: the two header packets, and samples cut into frames.
use vstd::prelude::*;
use vstd::arithmetic::div_mod::{lemma_fundamental_div_mod, lemma_fundamental_div_mod_converse};
use crate::audio::AudioConfig;
use crate::bytes::{push_all, push_le32};
use crate::pages::{OggPacket, PacketEnd, PageWriter, new_writer, write_block};
use crate::bytes::{ascii_bytes, bytes_add_up, le32, le64};
use crate::pages::{PacketView, bytes_waiting, data_of, ended_count, fits_pages, has_number};
use crate::pages::{is_block, is_page, lacing, lacing_of, last_page_ended_by};
use crate::pages::{lemma_ended_count_add, lemma_nothing_held_back, lemma_total_segments_add};
use crate::pages::{packet_views, packets_written, page_bound, pages_of, segments};
use crate::pages::total_segments;

verus! {

/// The samples of one channel in an Opus frame: 20 ms at 48 kHz.
pub const OPUS_FRAME_SIZE: usize = 960;

/// The most bytes that an encoded Opus frame may take.
pub const OPUS_PACKET_MAX: usize = 4000;

/// The identification header of RFC 7845: magic, version, channels, pre-skip, input sample rate,
/// output gain, channel mapping family.
pub open spec fn opus_head(channels: u16, sample_rate: u32) -> Seq<u8> {
    ascii_bytes("OpusHead"@) + seq![1u8, (channels % 256) as u8, 0, 0] + le32(sample_rate as nat)
        + seq![0u8, 0, 0]
}

/// The comment header of RFC 7845: magic, vendor, no user comments.
pub open spec fn opus_tags() -> Seq<u8> {
    ascii_bytes("OpusTags"@) + le32(4) + ascii_bytes("RUMP"@) + le32(0)
}

/// The two header packets, each on a page of its own.
pub open spec fn header_packets(channels: u16, sample_rate: u32, serial: u32) -> Seq<PacketView> {
    seq![head_packet(channels, sample_rate, serial), tags_packet(serial)]
}

fn magic_head() -> (r: Vec<u8>)
    ensures
        r@ == ascii_bytes("OpusHead"@),
{
    let r: Vec<u8> = vec![79u8, 112, 117, 115, 72, 101, 97, 100];
    proof {
        reveal_strlit("OpusHead");
        assert(r@ =~= ascii_bytes("OpusHead"@));
    }
    r
}

fn magic_tags() -> (r: Vec<u8>)
    ensures
        r@ == ascii_bytes("OpusTags"@),
{
    let r: Vec<u8> = vec![79u8, 112, 117, 115, 84, 97, 103, 115];
    proof {
        reveal_strlit("OpusTags");
        assert(r@ =~= ascii_bytes("OpusTags"@));
    }
    r
}

/// The packet of the identification header.
pub open spec fn head_packet(channels: u16, sample_rate: u32, serial: u32) -> PacketView {
    PacketView {
        data: opus_head(channels, sample_rate),
        serial,
        end: PacketEnd::Page,
        granule: 0,
    }
}

/// The packet of the comment header.
pub open spec fn tags_packet(serial: u32) -> PacketView {
    PacketView { data: opus_tags(), serial, end: PacketEnd::Page, granule: 0 }
}

proof fn lemma_header_sizes(channels: u16, sample_rate: u32, serial: u32)
    ensures
        opus_head(channels, sample_rate).len() == 19,
        opus_tags().len() == 20,
        ({
            let head = seq![head_packet(channels, sample_rate, serial)];
            let both = header_packets(channels, sample_rate, serial);
            &&& both == head + seq![tags_packet(serial)]
            &&& total_segments(head) == 1
            &&& total_segments(seq![tags_packet(serial)]) == 1
            &&& total_segments(both) == 2
            &&& ended_count(head, serial) == 1
            &&& ended_count(both, serial) == 2
        }),
{
    reveal_strlit("OpusHead");
    reveal_strlit("OpusTags");
    reveal_strlit("RUMP");
    reveal_with_fuel(total_segments, 2);
    reveal_with_fuel(ended_count, 2);
    let head = seq![head_packet(channels, sample_rate, serial)];
    let tags = seq![tags_packet(serial)];
    let both = header_packets(channels, sample_rate, serial);
    assert(both =~= head + tags);
    assert(head.drop_last() =~= Seq::<PacketView>::empty());
    assert(tags.drop_last() =~= Seq::<PacketView>::empty());
    lemma_total_segments_add(head, tags);
    lemma_ended_count_add(head, tags, serial);
}

/// Whether bytes are the two pages of the headers, numbered from 0: the first begins the stream.
pub open spec fn are_header_pages(
    bytes: Seq<u8>,
    channels: u16,
    sample_rate: u32,
    serial: u32,
) -> bool {
    &&& bytes.len() == 95
    &&& is_page(bytes.take(47), seq![head_packet(channels, sample_rate, serial)], true)
    &&& has_number(bytes.take(47), 0)
    &&& is_page(bytes.skip(47), seq![tags_packet(serial)], false)
    &&& has_number(bytes.skip(47), 1)
}

/// Writes the two headers with a writer that has written nothing.
fn write_headers(w: &mut PageWriter, channels: u16, sample_rate: u32, serial: u32) -> (r: Vec<u8>)
    requires
        packets_written(*old(w)).len() == 0,
        pages_of(packets_written(*old(w))).len() == 0,
        bytes_waiting(*old(w)).len() == 0,
    ensures
        packets_written(*final(w)) == header_packets(channels, sample_rate, serial),
        bytes_waiting(*final(w)).len() == 0,
        r@ == pages_of(header_packets(channels, sample_rate, serial)),
        are_header_pages(r@, channels, sample_rate, serial),
        fits_pages(header_packets(channels, sample_rate, serial), serial),
{
    let mut head: Vec<u8> = magic_head();
    head.push(1);
    head.push((channels % 256) as u8);
    head.push(0);
    head.push(0);
    push_le32(&mut head, sample_rate);
    head.push(0);
    head.push(0);
    head.push(0);
    assert(head@ =~= opus_head(channels, sample_rate));

    let mut tags: Vec<u8> = magic_tags();
    push_le32(&mut tags, 4);
    tags.push(82);
    tags.push(85);
    tags.push(77);
    tags.push(80);
    push_le32(&mut tags, 0);
    proof {
        reveal_strlit("RUMP");
        assert(tags@ =~= opus_tags());
        lemma_header_sizes(channels, sample_rate, serial);
    }

    let mut first: Vec<OggPacket> = Vec::new();
    first.push(OggPacket { data: head, serial, end: PacketEnd::Page, granule: 0 });
    let mut second: Vec<OggPacket> = Vec::new();
    second.push(OggPacket { data: tags, serial, end: PacketEnd::Page, granule: 0 });
    let ghost head_block = seq![head_packet(channels, sample_rate, serial)];
    let ghost tags_block = seq![tags_packet(serial)];
    proof {
        assert(packet_views(first@) =~= head_block);
        assert(packet_views(second@) =~= tags_block);
        assert(packets_written(*w) =~= Seq::<PacketView>::empty());
        assert(Seq::<PacketView>::empty() + head_block =~= head_block);
    }
    let mut out = write_block(w, &first, Ghost(serial));
    let ghost head_page = out@;
    proof {
        assert(pages_of(head_block).skip(0) =~= pages_of(head_block));
        assert(head_block.last() == head_packet(channels, sample_rate, serial));
        lemma_nothing_held_back(head_block, serial);
        lemma_one_packet(head_block[0]);
        lemma_one_packet(tags_block[0]);
    }
    let more = write_block(w, &second, Ghost(serial));
    push_all(&mut out, more.as_slice());
    proof {
        let all = pages_of(packets_written(*w));
        assert(all.take(head_page.len() as int) =~= head_page);
        assert(out@ =~= all);
        assert(out@.take(47) =~= head_page);
        assert(out@.skip(47) =~= more@);
    }
    out
}

proof fn lemma_one_packet(p: PacketView)
    ensures
        total_segments(seq![p]) == segments(p),
        lacing_of(seq![p]) == lacing(p),
        data_of(seq![p]) == p.data,
{
    reveal_with_fuel(total_segments, 2);
    reveal_with_fuel(lacing_of, 2);
    reveal_with_fuel(data_of, 2);
    assert(seq![p].drop_last() =~= Seq::<PacketView>::empty());
    assert(lacing_of(seq![p]) =~= lacing(p));
    assert(data_of(seq![p]) =~= p.data);
}

/// The pages that begin an Opus stream: the identification header and the comment header.
pub fn build_opus_headers(channels: u16, sample_rate: u32, serial: u32) -> (r: Vec<u8>)
    ensures
        r@ == pages_of(header_packets(channels, sample_rate, serial)),
        are_header_pages(r@, channels, sample_rate, serial),
{
    let mut w = new_writer();
    write_headers(&mut w, channels, sample_rate, serial)
}

/// The headers are two pages of 47 and 48 bytes. The first begins the stream and carries the
/// identification header, the second the comment header.
pub proof fn opus_headers_layout(r: Seq<u8>, channels: u16, sample_rate: u32, serial: u32)
    requires
        are_header_pages(r, channels, sample_rate, serial),
    ensures
        r.len() == 95,
        r.subrange(28, 47) == opus_head(channels, sample_rate),
        r.subrange(75, 95) == opus_tags(),
        r[5] == 2,
        r[52] == 0,
        r.subrange(14, 18) == le32(serial as nat),
        r.subrange(61, 65) == le32(serial as nat),
{
    lemma_header_sizes(channels, sample_rate, serial);
    lemma_one_packet(head_packet(channels, sample_rate, serial));
    lemma_one_packet(tags_packet(serial));
    let first = r.take(47);
    let second = r.skip(47);
    assert(r.subrange(28, 47) =~= first.subrange(28, 47));
    assert(r.subrange(75, 95) =~= second.subrange(28, 48));
    assert(r.subrange(14, 18) =~= first.subrange(14, 18));
    assert(r.subrange(61, 65) =~= second.subrange(14, 18));
    assert(r[5] == first[5]);
    assert(r[52] == second[5]);
}

// Samples cut into frames.

/// The whole frames at the beginning of `pcm`, each of `size` samples.
pub open spec fn whole_frames<T>(pcm: Seq<T>, size: nat) -> Seq<Seq<T>>
    decreases pcm.len(),
{
    if size == 0 || pcm.len() < size {
        Seq::empty()
    } else {
        seq![pcm.take(size as int)] + whole_frames(pcm.skip(size as int), size)
    }
}

/// What is left of `pcm` behind its whole frames.
pub open spec fn part_frame<T>(pcm: Seq<T>, size: nat) -> Seq<T>
    decreases pcm.len(),
{
    if size == 0 || pcm.len() < size {
        pcm
    } else {
        part_frame(pcm.skip(size as int), size)
    }
}

/// All samples of the frames, in order.
pub open spec fn joined<T>(frames: Seq<Seq<T>>) -> Seq<T>
    decreases frames.len(),
{
    if frames.len() == 0 {
        Seq::empty()
    } else {
        frames.first() + joined(frames.drop_first())
    }
}

/// The contents of a list of lists.
pub open spec fn frame_views<T>(frames: Seq<Vec<T>>) -> Seq<Seq<T>> {
    frames.map_values(|f: Vec<T>| f@)
}

/// Samples whose last frame is filled up where it is only begun.
pub open spec fn filled<T>(waiting: Seq<T>, size: nat, silence: T) -> Seq<T> {
    if size > 0 && part_frame(waiting, size).len() > 0 {
        waiting + Seq::new((size - part_frame(waiting, size).len()) as nat, |i: int| silence)
    } else {
        waiting
    }
}

/// The packets of encoded frames that follow each other: each moves the granule position on by
/// one frame, and the last ends what `end` says.
pub open spec fn frame_packets(data: Seq<Seq<u8>>, serial: u32, granule: u64, end: PacketEnd) -> Seq<
    PacketView,
> {
    Seq::new(
        data.len(),
        |i: int|
            PacketView {
                data: data[i],
                serial,
                end: if i + 1 == data.len() {
                    end
                } else {
                    PacketEnd::Packet
                },
                granule: (granule + OPUS_FRAME_SIZE * (i + 1)) as u64,
            },
    )
}

/// The packets that end a stream: those of the last frames, or an empty one where there are none.
pub open spec fn last_packets(data: Seq<Seq<u8>>, serial: u32, granule: u64) -> Seq<PacketView> {
    if data.len() == 0 {
        seq![PacketView { data: Seq::empty(), serial, end: PacketEnd::Stream, granule }]
    } else {
        frame_packets(data, serial, granule, PacketEnd::Stream)
    }
}

/// How many lacing segments encoded frames take together.
pub open spec fn data_segments(data: Seq<Seq<u8>>) -> nat
    decreases data.len(),
{
    if data.len() == 0 {
        0
    } else {
        data_segments(data.drop_last()) + data.last().len() / 255 + 1
    }
}

proof fn lemma_segments_of_data(packets: Seq<PacketView>, data: Seq<Seq<u8>>)
    requires
        packets.len() == data.len(),
        forall|i: int| 0 <= i < data.len() ==> (#[trigger] packets[i]).data == data[i],
    ensures
        total_segments(packets) == data_segments(data),
    decreases data.len(),
{
    if data.len() > 0 {
        lemma_segments_of_data(packets.drop_last(), data.drop_last());
        assert(packets[data.len() - 1].data == data.last());
    }
}

proof fn lemma_frame_block(data: Seq<Seq<u8>>, serial: u32, granule: u64, end: PacketEnd)
    requires
        end != PacketEnd::Packet,
    ensures
        ({
            let block = frame_packets(data, serial, granule, end);
            &&& is_block(block, serial)
            &&& total_segments(block) == data_segments(data)
            &&& ended_count(block, serial) == if data.len() == 0 {
                0nat
            } else {
                1
            }
        }),
{
    let block = frame_packets(data, serial, granule, end);
    lemma_segments_of_data(block, data);
    lemma_block_ended_count(block, serial);
}

proof fn lemma_none_ended(packets: Seq<PacketView>, serial: u32)
    requires
        forall|i: int| 0 <= i < packets.len() ==> (#[trigger] packets[i]).end == PacketEnd::Packet,
    ensures
        ended_count(packets, serial) == 0,
    decreases packets.len(),
{
    if packets.len() > 0 {
        lemma_none_ended(packets.drop_last(), serial);
    }
}

proof fn lemma_block_ended_count(block: Seq<PacketView>, serial: u32)
    requires
        is_block(block, serial),
    ensures
        ended_count(block, serial) == if block.len() == 0 {
            0nat
        } else {
            1
        },
{
    if block.len() > 0 {
        lemma_none_ended(block.drop_last(), serial);
    }
}

proof fn lemma_last_block(data: Seq<Seq<u8>>, serial: u32, granule: u64)
    ensures
        ({
            let block = last_packets(data, serial, granule);
            &&& is_block(block, serial)
            &&& block.len() > 0
            &&& total_segments(block) == segments_to_end(data)
            &&& ended_count(block, serial) == 1
            &&& block.last().end == PacketEnd::Stream
            &&& block.last().serial == serial
        }),
{
    let block = last_packets(data, serial, granule);
    if data.len() == 0 {
        lemma_one_packet(block[0]);
        lemma_block_ended_count(block, serial);
    } else {
        lemma_frame_block(data, serial, granule, PacketEnd::Stream);
    }
}

/// How many lacing segments the packets that end a stream take.
pub open spec fn segments_to_end(data: Seq<Seq<u8>>) -> nat {
    if data.len() == 0 {
        1
    } else {
        data_segments(data)
    }
}

proof fn lemma_data_segments_prefix(data: Seq<Seq<u8>>, k: int)
    requires
        0 <= k <= data.len(),
    ensures
        data_segments(data.take(k)) <= data_segments(data),
    decreases data.len(),
{
    if k < data.len() {
        lemma_data_segments_prefix(data.drop_last(), k);
        assert(data.drop_last().take(k) =~= data.take(k));
    } else {
        assert(data.take(k) =~= data);
    }
}

/// Counts the lacing segments of encoded frames, where they are no more than `max`.
fn count_segments(encoded: &Vec<Vec<u8>>, max: u64) -> (r: Option<u64>)
    requires
        max <= 0x1_0000_0000_0000,
    ensures
        (match r {
            Some(n) => n == data_segments(frame_views(encoded@)) && n <= max,
            None => data_segments(frame_views(encoded@)) > max,
        }),
{
    let ghost data = frame_views(encoded@);
    let n = encoded.len();
    let mut sum: u64 = 0;
    let mut i: usize = 0;
    while i < n
        invariant
            i <= n,
            n == encoded@.len(),
            data == frame_views(encoded@),
            sum == data_segments(data.take(i as int)),
            sum <= max,
            max <= 0x1_0000_0000_0000,
        decreases n - i,
    {
        proof {
            assert(data.take(i + 1).drop_last() =~= data.take(i as int));
            assert(data.take(i + 1).last() == encoded@[i as int]@);
            lemma_data_segments_prefix(data, i + 1);
        }
        sum = sum + encoded[i].len() as u64 / 255 + 1;
        if sum > max {
            return None;
        }
        i = i + 1;
    }
    assert(data.take(n as int) =~= data);
    Some(sum)
}

fn copy_bytes(bytes: &Vec<u8>) -> (r: Vec<u8>)
    ensures
        r@ == bytes@,
{
    let mut out: Vec<u8> = Vec::new();
    push_all(&mut out, bytes.as_slice());
    assert(out@ =~= bytes@);
    out
}

/// The samples waiting to fill a frame, how far the stream has come, and the writer of its pages.
pub struct OpusState<T> {
    pub serial: u32,
    pub granule: u64,
    pub pcm_buf: Vec<T>,
    pub channels: u16,
    /// The writer of all pages of the stream, the headers among them.
    pub writer: PageWriter,
    /// The lacing segments written.
    pub segments: u64,
    /// The packets written that ended their page.
    pub ended: u64,
}

/// Begins an Opus stream: the stream behind its headers, and the pages of the headers, which carry
/// its serial number.
pub fn opus_start<T: Copy>(config: &AudioConfig, serial: u32) -> (r: (OpusState<T>, Vec<u8>))
    ensures
        r.0.well_formed(),
        r.0.serial == serial,
        r.0.granule == 0,
        r.0.pcm_buf@.len() == 0,
        r.0.channels == config.channels,
        r.0.written() == header_packets(config.channels, config.sample_rate, serial),
        fits_pages(r.0.written(), serial),
        r.1@ == pages_of(header_packets(config.channels, config.sample_rate, serial)),
        are_header_pages(r.1@, config.channels, config.sample_rate, serial),
{
    let mut writer = new_writer();
    let headers = write_headers(&mut writer, config.channels, config.sample_rate, serial);
    proof {
        lemma_header_sizes(config.channels, config.sample_rate, serial);
    }
    let state = OpusState {
        serial,
        granule: 0,
        pcm_buf: Vec::new(),
        channels: config.channels,
        writer,
        segments: 2,
        ended: 2,
    };
    (state, headers)
}

impl<T: Copy> OpusState<T> {
    /// The samples of all channels in one frame.
    pub open spec fn frame_len(&self) -> nat {
        (OPUS_FRAME_SIZE * self.channels) as nat
    }

    /// The packets written so far, those of the headers first.
    pub open spec fn written(&self) -> Seq<PacketView> {
        packets_written(self.writer)
    }

    /// All packets written are of the stream, the last of them ended its page, all bytes put out
    /// have been taken, and segments and packets are counted.
    pub open spec fn well_formed(&self) -> bool {
        &&& self.written().len() > 0
        &&& forall|i: int|
            0 <= i < self.written().len() ==> (#[trigger] self.written()[i]).serial == self.serial
        &&& self.written().last().end != PacketEnd::Packet
        &&& bytes_waiting(self.writer).len() == 0
        &&& self.segments == total_segments(self.written())
        &&& self.ended == ended_count(self.written(), self.serial)
    }

    /// Whether this is the same stream with the same pages written.
    pub open spec fn same_stream(&self, other: Self) -> bool {
        &&& self.serial == other.serial
        &&& self.channels == other.channels
        &&& self.writer == other.writer
        &&& self.segments == other.segments
        &&& self.ended == other.ended
    }

    /// Whether the granule position and the page number of the stream can take these frames, or the
    /// end of the stream where there are none: they are 64 and 32 bits wide.
    pub open spec fn room_for(&self, data: Seq<Seq<u8>>) -> bool {
        &&& self.granule + OPUS_FRAME_SIZE * data.len() <= u64::MAX
        &&& (total_segments(self.written()) + segments_to_end(data)) / 255 + ended_count(
            self.written(),
            self.serial,
        ) + 1 <= u32::MAX
    }

    /// Whether the granule position and the page number of the stream can take these frames, or the
    /// end of the stream where there are none.
    pub fn has_room(&self, encoded: &Vec<Vec<u8>>) -> (r: bool)
        requires
            self.well_formed(),
        ensures
            r == self.room_for(frame_views(encoded@)),
    {
        let n: u128 = encoded.len() as u128;
        assert(OPUS_FRAME_SIZE * n <= 960 * u64::MAX) by (nonlinear_arith)
            requires
                n <= u64::MAX,
        ;
        if self.granule as u128 + OPUS_FRAME_SIZE as u128 * n > u64::MAX as u128 {
            return false;
        }
        let more: u64 = if encoded.len() == 0 {
            1
        } else {
            match count_segments(encoded, 0x200_0000_0000) {
                Some(count) => count,
                None => return false,
            }
        };
        (self.segments as u128 + more as u128) / 255 + self.ended as u128 + 1 <= u32::MAX as u128
    }

    /// Adds interleaved samples behind those that wait.
    pub fn add_samples(&mut self, music: &[T])
        ensures
            final(self).pcm_buf@ == old(self).pcm_buf@ + music@,
            final(self).same_stream(*old(self)),
            final(self).serial == old(self).serial,
            final(self).channels == old(self).channels,
            final(self).written() == old(self).written(),
            final(self).granule == old(self).granule,
    {
        let n = music.len();
        for i in 0..n
            invariant
                n == music@.len(),
                self.pcm_buf@ == old(self).pcm_buf@ + music@.take(i as int),
                self.same_stream(*old(self)),
                self.granule == old(self).granule,
        {
            self.pcm_buf.push(music[i]);
            assert(music@.take(i + 1) =~= music@.take(i as int).push(music@[i as int]));
        }
        assert(music@.take(n as int) =~= music@);
    }

    /// The whole frames that wait, in order. They keep waiting until [`OpusState::encode`] or
    /// [`OpusState::finish`] takes them.
    pub fn frames(&self) -> (r: Vec<Vec<T>>)
        requires
            self.channels > 0,
        ensures
            frame_views(r@) == whole_frames(self.pcm_buf@, self.frame_len()),
    {
        let size: usize = OPUS_FRAME_SIZE * self.channels as usize;
        let ghost pcm = self.pcm_buf@;
        let n = self.pcm_buf.len();
        let mut out: Vec<Vec<T>> = Vec::new();
        let mut pos: usize = 0;
        proof {
            assert(pcm.skip(0) =~= pcm);
            assert(frame_views(out@) + whole_frames(pcm, size as nat) =~= whole_frames(
                pcm,
                size as nat,
            ));
        }
        while n - pos >= size
            invariant
                pos <= n,
                n == self.pcm_buf@.len(),
                pcm == self.pcm_buf@,
                size == self.frame_len(),
                size > 0,
                whole_frames(pcm, size as nat) == frame_views(out@) + whole_frames(
                    pcm.skip(pos as int),
                    size as nat,
                ),
            decreases n - pos,
        {
            let mut frame: Vec<T> = Vec::new();
            for i in pos..pos + size
                invariant
                    pos + size <= n,
                    n == self.pcm_buf@.len(),
                    pcm == self.pcm_buf@,
                    frame@ == pcm.subrange(pos as int, i as int),
            {
                frame.push(self.pcm_buf[i]);
                assert(pcm.subrange(pos as int, i + 1) =~= pcm.subrange(pos as int, i as int).push(
                    pcm[i as int],
                ));
            }
            let ghost before = frame_views(out@);
            let ghost rest = pcm.skip(pos as int);
            proof {
                assert(frame@ =~= rest.take(size as int));
                assert(rest.skip(size as int) =~= pcm.skip(pos + size));
            }
            let ghost cut = frame@;
            out.push(frame);
            proof {
                assert(frame_views(out@) =~= before.push(cut));
                assert(before + (seq![cut] + whole_frames(rest.skip(size as int), size as nat))
                    =~= frame_views(out@) + whole_frames(pcm.skip(pos + size), size as nat));
            }
            pos = pos + size;
        }
        assert(frame_views(out@) =~= whole_frames(pcm, size as nat));
        out
    }

    /// Takes the samples of the next frame, which `data` encodes, and gives the packet.
    fn accept_frame(&mut self, data: Vec<u8>, end: PacketEnd) -> (r: OggPacket)
        requires
            old(self).frame_len() <= old(self).pcm_buf@.len(),
            old(self).granule + OPUS_FRAME_SIZE <= u64::MAX,
        ensures
            r.data == data,
            r.serial == old(self).serial,
            r.granule == old(self).granule + OPUS_FRAME_SIZE,
            r.end == end,
            final(self).pcm_buf@ == old(self).pcm_buf@.skip(old(self).frame_len() as int),
            final(self).granule == r.granule,
            final(self).same_stream(*old(self)),
    {
        let size: usize = OPUS_FRAME_SIZE * self.channels as usize;
        let mut rest: Vec<T> = Vec::new();
        let n = self.pcm_buf.len();
        for i in size..n
            invariant
                size <= n,
                n == self.pcm_buf@.len(),
                *self == *old(self),
                rest@ == self.pcm_buf@.subrange(size as int, i as int),
        {
            rest.push(self.pcm_buf[i]);
            assert(self.pcm_buf@.subrange(size as int, i + 1) =~= self.pcm_buf@.subrange(
                size as int,
                i as int,
            ).push(self.pcm_buf@[i as int]));
        }
        assert(rest@ =~= self.pcm_buf@.skip(size as int));
        self.pcm_buf = rest;
        self.granule = self.granule + OPUS_FRAME_SIZE as u64;
        OggPacket { data, serial: self.serial, end, granule: self.granule }
    }

    fn take_frames(&mut self, encoded: &Vec<Vec<u8>>, end: PacketEnd) -> (r: Vec<OggPacket>)
        requires
            old(self).channels > 0,
            encoded@.len() == whole_frames(old(self).pcm_buf@, old(self).frame_len()).len(),
            old(self).granule + OPUS_FRAME_SIZE * encoded@.len() <= u64::MAX,
        ensures
            packet_views(r@) == frame_packets(
                frame_views(encoded@),
                old(self).serial,
                old(self).granule,
                end,
            ),
            final(self).pcm_buf@ == part_frame(old(self).pcm_buf@, old(self).frame_len()),
            final(self).granule == old(self).granule + OPUS_FRAME_SIZE * encoded@.len(),
            final(self).same_stream(*old(self)),
    {
        let ghost pcm = self.pcm_buf@;
        let ghost size = self.frame_len();
        let ghost frames = whole_frames(pcm, size);
        let ghost data = frame_views(encoded@);
        let ghost all = frame_packets(data, self.serial, self.granule, end);
        let n = encoded.len();
        let mut packets: Vec<OggPacket> = Vec::new();
        proof {
            assert(frames.skip(0) =~= frames);
            assert(packet_views(packets@) =~= all.take(0));
        }
        let mut i: usize = 0;
        while i < n
            invariant
                i <= n,
                n == encoded@.len(),
                n == frames.len(),
                size == self.frame_len(),
                size > 0,
                data == frame_views(encoded@),
                all == frame_packets(data, old(self).serial, old(self).granule, end),
                old(self).granule + OPUS_FRAME_SIZE * n <= u64::MAX,
                self.granule == old(self).granule + OPUS_FRAME_SIZE * i,
                self.same_stream(*old(self)),
                whole_frames(self.pcm_buf@, size) == frames.skip(i as int),
                part_frame(self.pcm_buf@, size) == part_frame(pcm, size),
                packet_views(packets@) == all.take(i as int),
            decreases n - i,
        {
            proof {
                assert(frames.skip(i as int).len() > 0);
                assert(self.pcm_buf@.len() >= size);
                next_frame_is_first(self.pcm_buf@, size);
                assert(frames.skip(i as int).drop_first() =~= frames.skip(i + 1));
                assert(OPUS_FRAME_SIZE * (i + 1) <= OPUS_FRAME_SIZE * n) by (nonlinear_arith)
                    requires
                        i + 1 <= n,
                ;
            }
            let ghost before = packets@;
            let packet_end = if i + 1 == n {
                end
            } else {
                PacketEnd::Packet
            };
            let packet = self.accept_frame(copy_bytes(&encoded[i]), packet_end);
            let ghost view = packet@;
            packets.push(packet);
            proof {
                assert(data[i as int] == encoded@[i as int]@);
                assert(view == all[i as int]);
                assert(packet_views(packets@) =~= packet_views(before).push(view));
                assert(all.take(i + 1) =~= all.take(i as int).push(all[i as int]));
            }
            i = i + 1;
        }
        proof {
            assert(whole_frames(self.pcm_buf@, size).len() == 0);
            assert(self.pcm_buf@ == part_frame(pcm, size));
            assert(all.take(n as int) =~= all);
        }
        packets
    }

    /// Takes the whole frames that wait, of which `encoded` holds the encoded bytes, and gives
    /// their pages. The last frame ends its page, so that all of them are put out.
    pub fn encode(&mut self, encoded: Vec<Vec<u8>>) -> (r: Vec<u8>)
        requires
            old(self).well_formed(),
            old(self).channels > 0,
            encoded@.len() == whole_frames(old(self).pcm_buf@, old(self).frame_len()).len(),
            old(self).room_for(frame_views(encoded@)),
        ensures
            final(self).well_formed(),
            final(self).serial == old(self).serial,
            final(self).channels == old(self).channels,
            final(self).pcm_buf@ == part_frame(old(self).pcm_buf@, old(self).frame_len()),
            final(self).granule == old(self).granule + OPUS_FRAME_SIZE * encoded@.len(),
            ({
                let written = old(self).written();
                let serial = old(self).serial;
                let data = frame_views(encoded@);
                let block = frame_packets(data, serial, old(self).granule, PacketEnd::Page);
                &&& final(self).written() == written + block
                &&& pages_of(written).is_prefix_of(pages_of(written + block))
                &&& r@ == pages_of(written + block).skip(pages_of(written).len() as int)
                &&& encoded@.len() == 0 ==> r@.len() == 0
                &&& encoded@.len() > 0 ==> r@.len() > 0 && last_page_ended_by(r@, block.last())
                &&& encoded@.len() > 0 && data_segments(data) <= 255 ==> is_page(r@, block, false)
                &&& fits_pages(written, serial) && data_segments(data) <= 255 ==> fits_pages(
                    written + block,
                    serial,
                ) && (encoded@.len() > 0 ==> has_number(r@, ended_count(written, serial)))
            }),
    {
        let ghost data = frame_views(encoded@);
        let ghost written = self.written();
        let ghost block = frame_packets(data, self.serial, self.granule, PacketEnd::Page);
        let ghost serial = self.serial;
        if encoded.len() == 0 {
            proof {
                assert(written + block =~= written);
                assert(pages_of(written).skip(pages_of(written).len() as int) =~= Seq::empty());
                assert(self.pcm_buf@ == part_frame(self.pcm_buf@, self.frame_len()));
            }
            return Vec::new();
        }
        proof {
            lemma_frame_block(data, serial, self.granule, PacketEnd::Page);
            lemma_nothing_held_back(written, serial);
            lemma_total_segments_add(written, block);
            lemma_ended_count_add(written, block, serial);
        }
        let count: u64 = match count_segments(&encoded, 0x200_0000_0000) {
            Some(count) => count,
            None => 0,
        };
        let packets = self.take_frames(&encoded, PacketEnd::Page);
        let out = write_block(&mut self.writer, &packets, Ghost(serial));
        self.segments = self.segments + count;
        self.ended = self.ended + 1;
        proof {
            assert((written + block).last() == block.last());
            assert forall|i: int| 0 <= i < self.written().len() implies (
            #[trigger] self.written()[i]).serial == self.serial by {
                if i < written.len() {
                    assert(self.written()[i] == written[i]);
                } else {
                    assert(self.written()[i] == block[i - written.len()]);
                }
            }
        }
        out
    }

    /// Takes the last frames, of which `encoded` holds the encoded bytes, and gives their pages.
    /// The last of them ends the stream. Where there is no frame an empty packet does.
    pub fn finish(self, encoded: Vec<Vec<u8>>) -> (r: Vec<u8>)
        requires
            self.well_formed(),
            self.channels > 0,
            encoded@.len() == whole_frames(self.pcm_buf@, self.frame_len()).len(),
            self.room_for(frame_views(encoded@)),
        ensures
            ({
                let written = self.written();
                let data = frame_views(encoded@);
                let block = last_packets(data, self.serial, self.granule);
                &&& pages_of(written).is_prefix_of(pages_of(written + block))
                &&& r@ == pages_of(written + block).skip(pages_of(written).len() as int)
                &&& r@.len() > 0
                &&& block.last().end == PacketEnd::Stream
                &&& block.last().serial == self.serial
                &&& last_page_ended_by(r@, block.last())
                &&& segments_to_end(data) <= 255 ==> is_page(r@, block, false)
                &&& fits_pages(written, self.serial) && segments_to_end(data) <= 255
                    ==> has_number(r@, ended_count(written, self.serial))
            }),
    {
        let mut state = self;
        let ghost data = frame_views(encoded@);
        let ghost written = state.written();
        let ghost serial = state.serial;
        let ghost block = last_packets(data, serial, state.granule);
        proof {
            lemma_last_block(data, serial, state.granule);
            lemma_nothing_held_back(written, serial);
            lemma_total_segments_add(written, block);
            lemma_ended_count_add(written, block, serial);
        }
        let packets = if encoded.len() == 0 {
            let mut only: Vec<OggPacket> = Vec::new();
            only.push(
                OggPacket {
                    data: Vec::new(),
                    serial: state.serial,
                    end: PacketEnd::Stream,
                    granule: state.granule,
                },
            );
            assert(packet_views(only@) =~= block);
            only
        } else {
            state.take_frames(&encoded, PacketEnd::Stream)
        };
        write_block(&mut state.writer, &packets, Ghost(serial))
    }

    /// Fills a frame that is begun up with `silence`. Where none is begun, nothing is added.
    pub fn fill_last_frame(&mut self, silence: T)
        ensures
            final(self).pcm_buf@ == filled(old(self).pcm_buf@, old(self).frame_len(), silence),
            final(self).same_stream(*old(self)),
            final(self).serial == old(self).serial,
            final(self).channels == old(self).channels,
            final(self).written() == old(self).written(),
            final(self).granule == old(self).granule,
    {
        let size: usize = OPUS_FRAME_SIZE * self.channels as usize;
        if size == 0 {
            return;
        }
        let ghost waiting = self.pcm_buf@;
        let part: usize = self.pcm_buf.len() % size;
        proof {
            frames_are_pieces(waiting, size as nat);
        }
        if part == 0 {
            return;
        }
        let missing: usize = size - part;
        for i in 0..missing
            invariant
                self.pcm_buf@ == waiting + Seq::new(i as nat, |i: int| silence),
                self.same_stream(*old(self)),
                self.granule == old(self).granule,
        {
            self.pcm_buf.push(silence);
            assert(self.pcm_buf@ =~= waiting + Seq::new((i + 1) as nat, |i: int| silence));
        }
    }
}

/// The frames of samples are their consecutive pieces: as many as there are whole ones, each where
/// its number puts it, and what is left is the end behind them.
pub proof fn frames_are_pieces<T>(pcm: Seq<T>, size: nat)
    requires
        size > 0,
    ensures
        whole_frames(pcm, size).len() == pcm.len() / size,
        part_frame(pcm, size).len() == pcm.len() % size,
        part_frame(pcm, size) == pcm.skip(pcm.len() - pcm.len() % size),
        forall|k: int|
            0 <= k < whole_frames(pcm, size).len() ==> #[trigger] whole_frames(pcm, size)[k]
                == pcm.subrange(k * size, (k + 1) * size),
    decreases pcm.len(),
{
    let frames = whole_frames(pcm, size);
    if pcm.len() >= size {
        let rest = pcm.skip(size as int);
        frames_are_pieces(rest, size);
        let q = rest.len() as int / size as int;
        let m = rest.len() as int % size as int;
        lemma_fundamental_div_mod(rest.len() as int, size as int);
        assert((q + 1) * size == size * q + size) by (nonlinear_arith);
        lemma_fundamental_div_mod_converse(pcm.len() as int, size as int, q + 1, m);
        assert(rest.skip(rest.len() - m) =~= pcm.skip(pcm.len() - m));
        assert forall|k: int| 0 <= k < frames.len() implies #[trigger] frames[k] == pcm.subrange(
            k * size,
            (k + 1) * size,
        ) by {
            if k == 0 {
                assert(0 * size == 0 && 1 * size == size) by (nonlinear_arith);
                assert(frames[0] =~= pcm.subrange(0, size as int));
            } else {
                assert(frames[k] == whole_frames(rest, size)[k - 1]);
                assert(k * size == (k - 1) * size + size) by (nonlinear_arith);
                assert((k + 1) * size == k * size + size) by (nonlinear_arith);
                assert(0 <= (k - 1) * size) by (nonlinear_arith)
                    requires
                        k >= 1,
                ;
                assert(k * size <= q * size) by (nonlinear_arith)
                    requires
                        k <= q,
                ;
                assert(q * size == size * q) by (nonlinear_arith);
                assert(rest.subrange((k - 1) * size, k * size) =~= pcm.subrange(
                    k * size,
                    (k + 1) * size,
                ));
            }
        }
    } else {
        lemma_fundamental_div_mod_converse(pcm.len() as int, size as int, 0, pcm.len() as int);
        assert(pcm.skip(0) =~= pcm);
    }
}

/// Cutting into frames loses and reorders nothing, and what is left is less than a frame.
pub proof fn frames_keep_samples<T>(pcm: Seq<T>, size: nat)
    requires
        size > 0,
    ensures
        joined(whole_frames(pcm, size)) + part_frame(pcm, size) == pcm,
        part_frame(pcm, size).len() < size,
        forall|i: int|
            0 <= i < whole_frames(pcm, size).len() ==> (#[trigger] whole_frames(
                pcm,
                size,
            )[i]).len() == size,
    decreases pcm.len(),
{
    if pcm.len() >= size {
        let rest = pcm.skip(size as int);
        frames_keep_samples(rest, size);
        let tail = whole_frames(rest, size);
        let all = whole_frames(pcm, size);
        assert(all.drop_first() =~= tail);
        assert(all.first() == pcm.take(size as int));
        assert(joined(all) == pcm.take(size as int) + joined(tail));
        assert(joined(all) + part_frame(pcm, size) =~= pcm.take(size as int) + rest);
        assert(pcm.take(size as int) + rest =~= pcm);
        assert forall|i: int| 0 <= i < all.len() implies (#[trigger] all[i]).len() == size by {
            if i > 0 {
                assert(all[i] == tail[i - 1]);
            }
        }
    } else {
        assert(joined(whole_frames(pcm, size)) + pcm =~= pcm);
    }
}

/// Where the stream is cut into blocks makes no difference to its frames: the frames of two blocks
/// are those of the first, then those of what it left together with the second.
pub proof fn frames_ignore_blocks<T>(a: Seq<T>, b: Seq<T>, size: nat)
    requires
        size > 0,
    ensures
        whole_frames(a + b, size) == whole_frames(a, size) + whole_frames(
            part_frame(a, size) + b,
            size,
        ),
        part_frame(a + b, size) == part_frame(part_frame(a, size) + b, size),
    decreases a.len(),
{
    if a.len() >= size {
        let rest = a.skip(size as int);
        frames_ignore_blocks(rest, b, size);
        assert((a + b).skip(size as int) =~= rest + b);
        assert((a + b).take(size as int) =~= a.take(size as int));
        assert(whole_frames(a + b, size) =~= whole_frames(a, size) + whole_frames(
            part_frame(a, size) + b,
            size,
        ));
    } else {
        assert(whole_frames(a + b, size) =~= whole_frames(a, size) + whole_frames(a + b, size));
    }
}

/// Taking the next frame takes the first of the whole frames that wait and leaves the others.
pub proof fn next_frame_is_first<T>(pcm: Seq<T>, size: nat)
    requires
        0 < size <= pcm.len(),
    ensures
        whole_frames(pcm, size).len() > 0,
        whole_frames(pcm, size).first() == pcm.take(size as int),
        whole_frames(pcm, size).drop_first() == whole_frames(pcm.skip(size as int), size),
        part_frame(pcm.skip(size as int), size) == part_frame(pcm, size),
{
    assert(whole_frames(pcm, size).drop_first() =~= whole_frames(pcm.skip(size as int), size));
}

/// Samples that wait for the rest of their frame come out as one last frame, which is sent one
/// frame further and ends the stream, and nothing is left. Where none wait an empty packet ends the
/// stream where it stands.
pub proof fn last_frame_ends_stream<T>(
    waiting: Seq<T>,
    size: nat,
    silence: T,
    data: Seq<Seq<u8>>,
    serial: u32,
    granule: u64,
)
    requires
        waiting.len() < size,
        data.len() == whole_frames(filled(waiting, size, silence), size).len(),
        granule + OPUS_FRAME_SIZE <= u64::MAX,
    ensures
        part_frame(filled(waiting, size, silence), size).len() == 0,
        last_packets(data, serial, granule).len() == 1,
        last_packets(data, serial, granule)[0].end == PacketEnd::Stream,
        last_packets(data, serial, granule)[0].serial == serial,
        waiting.len() > 0 ==> {
            &&& whole_frames(filled(waiting, size, silence), size) == seq![
                filled(waiting, size, silence),
            ]
            &&& filled(waiting, size, silence) == waiting + Seq::new(
                (size - waiting.len()) as nat,
                |i: int| silence,
            )
            &&& last_packets(data, serial, granule)[0].data == data[0]
            &&& last_packets(data, serial, granule)[0].granule == granule + OPUS_FRAME_SIZE
        },
        waiting.len() == 0 ==> {
            &&& last_packets(data, serial, granule)[0].data.len() == 0
            &&& last_packets(data, serial, granule)[0].granule == granule
        },
{
    let all = filled(waiting, size, silence);
    assert(part_frame(waiting, size) == waiting);
    if waiting.len() > 0 {
        next_frame_is_first(all, size);
        assert(all.skip(size as int) =~= Seq::empty());
        assert(all.take(size as int) =~= all);
        assert(whole_frames(all, size) =~= seq![all]);
    }
}

/// Blocks of a stream whose frames are taken as they fill leave less than a frame waiting, so that
/// the next block adds to a frame that is begun.
pub proof fn less_than_a_frame_waits<T>(waiting: Seq<T>, music: Seq<T>, size: nat)
    requires
        size > 0,
    ensures
        part_frame(waiting + music, size).len() < size,
        whole_frames(part_frame(waiting + music, size), size).len() == 0,
{
    frames_keep_samples(waiting + music, size);
}

/// What waits after blocks whose frames were taken one block after the other.
pub open spec fn waiting_after<T>(waiting: Seq<T>, blocks: Seq<Seq<T>>, size: nat) -> Seq<T>
    decreases blocks.len(),
{
    if blocks.len() == 0 {
        waiting
    } else {
        part_frame(waiting_after(waiting, blocks.drop_last(), size) + blocks.last(), size)
    }
}

/// The frames taken from blocks one after the other.
pub open spec fn frames_after<T>(waiting: Seq<T>, blocks: Seq<Seq<T>>, size: nat) -> Seq<Seq<T>>
    decreases blocks.len(),
{
    if blocks.len() == 0 {
        Seq::empty()
    } else {
        frames_after(waiting, blocks.drop_last(), size) + whole_frames(
            waiting_after(waiting, blocks.drop_last(), size) + blocks.last(),
            size,
        )
    }
}

/// All samples of blocks, in order.
pub open spec fn all_samples<T>(blocks: Seq<Seq<T>>) -> Seq<T>
    decreases blocks.len(),
{
    if blocks.len() == 0 {
        Seq::empty()
    } else {
        all_samples(blocks.drop_last()) + blocks.last()
    }
}

/// A stream loses, repeats and reorders no sample: the frames taken from its blocks one after the
/// other are the consecutive pieces of all its samples, and what waits is the end behind them.
pub proof fn stream_keeps_samples<T>(waiting: Seq<T>, blocks: Seq<Seq<T>>, size: nat)
    requires
        size > 0,
        waiting.len() < size,
    ensures
        ({
            let all = waiting + all_samples(blocks);
            &&& frames_after(waiting, blocks, size) == whole_frames(all, size)
            &&& waiting_after(waiting, blocks, size) == part_frame(all, size)
            &&& frames_after(waiting, blocks, size).len() == all.len() / size
            &&& waiting_after(waiting, blocks, size) == all.skip(all.len() - all.len() % size)
            &&& forall|k: int|
                0 <= k < all.len() / size ==> #[trigger] frames_after(waiting, blocks, size)[k]
                    == all.subrange(k * size, (k + 1) * size)
        }),
    decreases blocks.len(),
{
    let all = waiting + all_samples(blocks);
    frames_are_pieces(all, size);
    if blocks.len() == 0 {
        assert(all =~= waiting);
    } else {
        let earlier = waiting + all_samples(blocks.drop_last());
        stream_keeps_samples(waiting, blocks.drop_last(), size);
        frames_ignore_blocks(earlier, blocks.last(), size);
        assert(all =~= earlier + blocks.last());
    }
}

/// All packets of a stream carry the serial number of its headers.
pub proof fn stream_has_one_serial<T: Copy>(state: OpusState<T>, i: int)
    requires
        state.well_formed(),
        0 <= i < state.written().len(),
    ensures
        state.written()[i].serial == state.serial,
{
}

/// The identification header is 19 bytes: its name, the version 1, the channels, no samples to
/// skip, the sample rate with its lowest byte first, no gain, and one stream of mono or stereo.
pub proof fn the_head_names_the_format(channels: u16, sample_rate: u32)
    ensures
        ({
            let h = opus_head(channels, sample_rate);
            &&& h.len() == 19
            &&& h.take(8) == seq![79u8, 112, 117, 115, 72, 101, 97, 100]
            &&& h[8] == 1
            &&& channels < 256 ==> h[9] == channels
            &&& h[9] as int == channels as int % 256
            &&& h[10] == 0 && h[11] == 0
            &&& h[12] + 0x100 * h[13] + 0x1_0000 * h[14] + 0x100_0000 * h[15] == sample_rate
            &&& h[16] == 0 && h[17] == 0 && h[18] == 0
        }),
{
    reveal_strlit("OpusHead");
    bytes_add_up(sample_rate);
    let h = opus_head(channels, sample_rate);
    assert(h.take(8) =~= seq![79u8, 112, 117, 115, 72, 101, 97, 100]);
    assert(h.subrange(12, 16) =~= le32(sample_rate as nat));
}

/// The comment header is its name, the length and the letters of the vendor, and no comments.
pub proof fn the_tags_name_the_vendor()
    ensures
        opus_tags() == seq![
            79u8,
            112,
            117,
            115,
            84,
            97,
            103,
            115,
            4,
            0,
            0,
            0,
            82,
            85,
            77,
            80,
            0,
            0,
            0,
            0,
        ],
{
    reveal_strlit("OpusTags");
    reveal_strlit("RUMP");
    bytes_add_up(4);
    bytes_add_up(0);
    assert(opus_tags() =~= seq![
        79u8,
        112,
        117,
        115,
        84,
        97,
        103,
        115,
        4,
        0,
        0,
        0,
        82,
        85,
        77,
        80,
        0,
        0,
        0,
        0,
    ]);
}

/// Each packet carries the frame of its place, and 20 ms, which are 960 samples, lie between two.
/// Only the last ends more than itself.
pub proof fn packets_follow_each_other(
    data: Seq<Seq<u8>>,
    serial: u32,
    granule: u64,
    end: PacketEnd,
    i: int,
)
    requires
        0 <= i < data.len(),
        granule + 960 * data.len() <= u64::MAX,
    ensures
        ({
            let packets = frame_packets(data, serial, granule, end);
            &&& packets.len() == data.len()
            &&& packets[i].data == data[i]
            &&& packets[i].serial == serial
            &&& packets[0].granule == granule + 960
            &&& i > 0 ==> packets[i].granule == packets[i - 1].granule + 960
            &&& packets.last().granule == granule + 960 * data.len()
            &&& packets.last().end == end
            &&& i + 1 < data.len() ==> packets[i].end == PacketEnd::Packet
        }),
{
}

/// Frames that end a stream come as those that do not, but for the end of the last.
pub proof fn last_packets_end_the_stream(data: Seq<Seq<u8>>, serial: u32, granule: u64, i: int)
    requires
        granule + 960 * data.len() <= u64::MAX,
    ensures
        ({
            let packets = last_packets(data, serial, granule);
            &&& packets.len() > 0 && packets.last().end == PacketEnd::Stream
            &&& data.len() > 0 ==> packets.len() == data.len()
            &&& packets.last().granule == granule + 960 * data.len()
            &&& 0 <= i < data.len() ==> packets[i].data == data[i] && packets[i].serial == serial
                && packets[i].granule == granule + 960 * (i + 1)
            &&& 0 <= i < packets.len() - 1 ==> packets[i].end == PacketEnd::Packet
            &&& data.len() == 0 ==> packets.len() == 1 && packets[0].data.len() == 0
        }),
{
}

/// A frame that is begun is filled up with silence behind its samples, by less than a frame, so that
/// only whole frames wait. Nothing is added where none is begun.
pub proof fn a_begun_frame_is_filled<T>(waiting: Seq<T>, size: nat, silence: T, i: int)
    requires
        size > 0,
    ensures
        ({
            let all = filled(waiting, size, silence);
            &&& all.len() % size == 0
            &&& waiting.len() <= all.len() < waiting.len() + size
            &&& all.take(waiting.len() as int) == waiting
            &&& waiting.len() <= i < all.len() ==> all[i] == silence
        }),
{
    frames_are_pieces(waiting, size);
    let all = filled(waiting, size, silence);
    let (n, m) = (waiting.len() as int, size as int);
    lemma_fundamental_div_mod(n, m);
    if n % m > 0 {
        let q = n / m;
        assert((q + 1) * m == m * q + m) by (nonlinear_arith);
        lemma_fundamental_div_mod_converse(all.len() as int, m, q + 1, 0);
    }
    assert(all.take(n) =~= waiting);
}

/// A frame is 960 samples of each channel.
pub proof fn frames_hold_960_samples<T: Copy>(state: OpusState<T>)
    ensures
        state.frame_len() == 960 * state.channels,
{
}

proof fn lemma_few_segments(data: Seq<Seq<u8>>)
    requires
        forall|i: int| 0 <= i < data.len() ==> (#[trigger] data[i]).len() <= OPUS_PACKET_MAX,
    ensures
        data_segments(data) <= 16 * data.len(),
    decreases data.len(),
{
    if data.len() > 0 {
        let rest = data.drop_last();
        assert forall|i: int| 0 <= i < rest.len() implies (#[trigger] rest[i]).len()
            <= OPUS_PACKET_MAX by {
            assert(rest[i] == data[i]);
        }
        lemma_few_segments(rest);
        assert(data[data.len() - 1].len() <= OPUS_PACKET_MAX);
    }
}

/// A stream that has not gone on for centuries has room for what an encoder can make of a block.
pub proof fn streams_have_room<T: Copy>(state: OpusState<T>, data: Seq<Seq<u8>>)
    requires
        state.granule <= 0x7FFF_FFFF_FFFF_FFFF,
        total_segments(state.written()) <= 0x7FFF_FFFF,
        ended_count(state.written(), state.serial) <= 0x7FFF_FFFF,
        data.len() <= 0x1000_0000,
        forall|i: int| 0 <= i < data.len() ==> (#[trigger] data[i]).len() <= OPUS_PACKET_MAX,
    ensures
        state.room_for(data),
{
    lemma_few_segments(data);
}

/// The pages of the headers are the first two of their stream and stand before all samples: their
/// numbers are 0 and 1, and their granule positions 0.
pub proof fn headers_come_first(r: Seq<u8>, channels: u16, sample_rate: u32, serial: u32)
    requires
        are_header_pages(r, channels, sample_rate, serial),
    ensures
        r.subrange(6, 14) == Seq::new(8, |i: int| 0u8),
        r.subrange(53, 61) == Seq::new(8, |i: int| 0u8),
        r.subrange(18, 22) == seq![0u8, 0, 0, 0],
        r.subrange(65, 69) == seq![1u8, 0, 0, 0],
{
    let first = r.take(47);
    let second = r.skip(47);
    assert(r.subrange(6, 14) =~= first.subrange(6, 14));
    assert(r.subrange(53, 61) =~= second.subrange(6, 14));
    assert(r.subrange(18, 22) =~= first.subrange(18, 22));
    assert(r.subrange(65, 69) =~= second.subrange(18, 22));
    assert(le64(0) =~= Seq::new(8, |i: int| 0u8));
    assert(le32(0) =~= seq![0u8, 0, 0, 0]);
    assert(le32(1) =~= seq![1u8, 0, 0, 0]);
}

/// There is room for frames exactly where their granule position is one of 64 bits, and where the
/// pages of all packets, should these be the last, can be counted with 32 bits.
pub proof fn room_is_for_pages<T: Copy>(state: OpusState<T>, data: Seq<Seq<u8>>)
    ensures
        state.room_for(data) <==> state.granule + 960 * data.len() < 0x1_0000_0000_0000_0000
            && page_bound(
            state.written() + last_packets(data, state.serial, state.granule),
            state.serial,
        ) < 0x1_0000_0000,
{
    let block = last_packets(data, state.serial, state.granule);
    lemma_last_block(data, state.serial, state.granule);
    lemma_total_segments_add(state.written(), block);
    lemma_ended_count_add(state.written(), block, state.serial);
}

} // verus!

use std::io::Cursor;

use ogg::reading::PacketReader;
use rump::audio::AudioConfig;
use rump::config::Codec;
use rump::opus::{build_opus_headers, opus_start, OpusState, OPUS_FRAME_SIZE, OPUS_PACKET_MAX};
use rump::samples::FloatBits;

#[test]
fn headers_are_two_pages() {
    let bytes = build_opus_headers(2, 48000, 0x0102_0304);
    assert_eq!(bytes.len(), 95);
    assert_eq!(&bytes[0..4], b"OggS");
    assert_eq!(bytes[5], 2);
    assert_eq!(&bytes[14..18], &[4, 3, 2, 1]);
    assert_eq!(&bytes[28..47], b"OpusHead\x01\x02\x00\x00\x80\xbb\x00\x00\x00\x00\x00");
    assert_eq!(&bytes[47..51], b"OggS");
    assert_eq!(bytes[52], 0);
    assert_eq!(&bytes[75..95], b"OpusTags\x04\x00\x00\x00RUMP\x00\x00\x00\x00");
}

#[test]
fn headers_can_be_read() {
    let bytes = build_opus_headers(257, 44100, 7);
    let mut reader = PacketReader::new(Cursor::new(bytes));
    let head = reader.read_packet().unwrap().unwrap();
    assert!(head.first_in_stream());
    assert_eq!(head.stream_serial(), 7);
    assert_eq!(head.absgp_page(), 0);
    assert_eq!(head.data[9], 1);
    assert_eq!(&head.data[12..16], &44100u32.to_le_bytes());
    let tags = reader.read_packet().unwrap().unwrap();
    assert_eq!(&tags.data[0..8], b"OpusTags");
    assert!(!tags.last_in_stream());
    assert!(reader.read_packet().unwrap().is_none());
}

fn start<T: Copy>(channels: u16, serial: u32) -> (OpusState<T>, Vec<u8>) {
    let config = AudioConfig {
        codec: Codec::Opus,
        sample_rate: 48000,
        channels,
        vorbis_quality: FloatBits(0),
        opus_bitrate_kbps: 128,
    };
    opus_start(&config, serial)
}

/// The flags and the number of each page.
fn pages(bytes: &[u8]) -> Vec<(u8, u32)> {
    let mut found = Vec::new();
    let mut at = 0;
    while at < bytes.len() {
        assert_eq!(&bytes[at..at + 5], b"OggS\0");
        let number = [bytes[at + 18], bytes[at + 19], bytes[at + 20], bytes[at + 21]];
        found.push((bytes[at + 5], u32::from_le_bytes(number)));
        let segments = bytes[at + 26] as usize;
        let data: usize = bytes[at + 27..at + 27 + segments].iter().map(|b| *b as usize).sum();
        at += 27 + segments + data;
    }
    assert_eq!(at, bytes.len());
    found
}

#[test]
fn a_stream_begins_with_its_headers() {
    let (state, headers) = start::<u32>(2, 77);
    assert_eq!(headers, build_opus_headers(2, 48000, 77));
    assert_eq!((state.serial, state.granule, state.channels), (77, 0, 2));
    assert!(state.pcm_buf.is_empty());
}

#[test]
fn frames_are_cut_in_order() {
    let (mut state, _) = start::<u32>(1, 5);
    let samples: Vec<u32> = (0..1000).collect();
    state.add_samples(&samples);
    let frames = state.frames();
    assert_eq!(frames.len(), 1);
    assert_eq!(frames[0], samples[..OPUS_FRAME_SIZE]);
    let encoded = vec![vec![1, 2, 3]];
    assert!(state.has_room(&encoded));
    let bytes = state.encode(encoded);
    assert_eq!(bytes.len(), 31);
    assert_eq!(&bytes[6..14], &960u64.to_le_bytes());
    assert_eq!(&bytes[26..], &[1, 3, 1, 2, 3]);
    assert_eq!(state.pcm_buf, samples[OPUS_FRAME_SIZE..]);
    assert_eq!(state.granule, 960);
    assert!(state.frames().is_empty());
    assert!(state.encode(Vec::new()).is_empty());
}

#[test]
fn a_usual_frame_is_put_out_whole() {
    let (mut state, _) = start::<u8>(2, 5);
    state.add_samples(&vec![0u8; OPUS_FRAME_SIZE * 2]);
    let packet: Vec<u8> = (0..320u32).map(|i| i as u8).collect();
    let bytes = state.encode(vec![packet.clone()]);
    assert_eq!(bytes.len(), 27 + 2 + 320);
    assert_eq!(bytes[5], 0);
    assert_eq!(&bytes[26..29], &[2, 255, 65]);
    assert_eq!(&bytes[29..], &packet[..]);
}

#[test]
fn frames_do_not_depend_on_the_blocks() {
    let samples: Vec<u32> = (0..5000).collect();
    let (mut whole, _) = start::<u32>(2, 5);
    whole.add_samples(&samples);
    let expected = whole.frames();
    let (mut cut, _) = start::<u32>(2, 5);
    let mut got: Vec<Vec<u32>> = Vec::new();
    for block in samples.chunks(700) {
        cut.add_samples(block);
        let frames = cut.frames();
        let encoded = vec![vec![0u8]; frames.len()];
        cut.encode(encoded);
        got.extend(frames);
    }
    assert_eq!(got, expected);
    assert_eq!(got.len(), 2);
    assert_eq!(got[1], samples[1920..3840]);
    assert_eq!(cut.pcm_buf, samples[3840..]);
}

#[test]
fn a_stream_is_numbered_and_read_back() {
    let (mut state, mut bytes) = start::<u8>(1, 9);
    for i in 0..3u8 {
        state.add_samples(&vec![0u8; OPUS_FRAME_SIZE + 10]);
        let count = state.frames().len();
        bytes.extend(state.encode(vec![vec![i; 300]; count]));
    }
    state.fill_last_frame(0);
    assert_eq!(state.frames().len(), 1);
    bytes.extend(state.finish(vec![vec![9; 255]]));
    assert_eq!(pages(&bytes), vec![(2, 0), (0, 1), (0, 2), (0, 3), (0, 4), (4, 5)]);

    let mut reader = PacketReader::new(Cursor::new(bytes));
    let mut packets = Vec::new();
    while let Some(packet) = reader.read_packet().unwrap() {
        assert_eq!(packet.stream_serial(), 9);
        packets.push((packet.data.len(), packet.absgp_page(), packet.last_in_stream()));
    }
    assert_eq!(
        packets,
        vec![
            (19, 0, false),
            (20, 0, false),
            (300, 960, false),
            (300, 1920, false),
            (300, 2880, false),
            (255, 3840, true),
        ]
    );
}

#[test]
fn last_frame_is_filled_and_ends_the_stream() {
    let (mut state, _) = start::<u32>(1, 9);
    state.granule = 1920;
    state.add_samples(&[7, 8]);
    state.fill_last_frame(0);
    assert_eq!(state.pcm_buf.len(), OPUS_FRAME_SIZE);
    assert_eq!(&state.pcm_buf[..3], &[7, 8, 0]);
    assert_eq!(state.frames().len(), 1);
    let bytes = state.finish(vec![vec![1, 2, 3]]);
    assert_eq!(bytes[5], 4);
    assert_eq!(&bytes[6..14], &2880u64.to_le_bytes());
    assert_eq!(&bytes[14..18], &9u32.to_le_bytes());
    assert_eq!(&bytes[26..], &[1, 3, 1, 2, 3]);
}

#[test]
fn finish_without_samples_ends_the_stream() {
    let (mut state, mut stream) = start::<u32>(2, 9);
    state.granule = 960;
    state.fill_last_frame(0);
    assert!(state.pcm_buf.is_empty());
    assert!(state.has_room(&Vec::new()));
    let bytes = state.finish(Vec::new());
    assert_eq!(bytes.len(), 28);
    assert_eq!(bytes[5], 4);
    assert_eq!(&bytes[6..14], &960u64.to_le_bytes());
    assert_eq!(&bytes[14..18], &9u32.to_le_bytes());
    stream.extend(bytes);
    let mut reader = PacketReader::new(Cursor::new(stream));
    reader.read_packet().unwrap();
    reader.read_packet().unwrap();
    let last = reader.read_packet().unwrap().unwrap();
    assert!(last.data.is_empty() && last.last_in_stream());
}

#[test]
fn every_begun_frame_is_filled() {
    let (mut state, _) = start::<u32>(1, 9);
    state.add_samples(&vec![1u32; OPUS_FRAME_SIZE + 1]);
    state.fill_last_frame(0);
    assert_eq!(state.frames().len(), 2);
    assert_eq!(state.pcm_buf.len(), 2 * OPUS_FRAME_SIZE);
    state.fill_last_frame(0);
    assert_eq!(state.pcm_buf.len(), 2 * OPUS_FRAME_SIZE);
}

#[test]
fn frames_of_more_than_a_page_are_put_out_whole() {
    let (mut state, headers) = start::<u8>(1, 3);
    state.add_samples(&vec![0u8; OPUS_FRAME_SIZE * 100]);
    let encoded = vec![vec![5u8; OPUS_PACKET_MAX / 4]; 100];
    let mut bytes = headers;
    bytes.extend(state.encode(encoded));
    assert_eq!(pages(&bytes).len(), 4);
    let mut reader = PacketReader::new(Cursor::new(bytes));
    let mut data = 0;
    while let Some(packet) = reader.read_packet().unwrap() {
        data += packet.data.len();
    }
    assert_eq!(data, 39 + 100 * OPUS_PACKET_MAX / 4);
}

#[test]
fn a_stream_can_get_too_long() {
    let (mut state, _) = start::<u8>(1, 3);
    state.granule = u64::MAX - 960;
    assert!(state.has_room(&vec![vec![0]]));
    assert!(!state.has_room(&vec![vec![0]; 2]));
    state.granule = 0;
    state.ended = u32::MAX as u64 - 1;
    assert!(state.has_room(&vec![vec![0]]));
    assert!(!state.has_room(&vec![vec![0; 255]; 130]));
}

use miniaudio::frames::ensure_frames_compat;
use miniaudio::Error;
use miniaudio::Format;
use miniaudio::Frames;
use miniaudio::FramesMut;
use miniaudio::MAX_CHANNELS;

#[test]
fn format_sizes_in_bytes() {
    assert_eq!(Format::S8.size_in_bytes(), 1);
    assert_eq!(Format::S16.size_in_bytes(), 2);
    assert_eq!(Format::S24.size_in_bytes(), 3);
    assert_eq!(Format::S32.size_in_bytes(), 4);
    assert_eq!(Format::F32.size_in_bytes(), 4);
}

#[test]
fn frames_counts_follow_format_and_channels() {
    let data = [0u8; 24];
    let f = Frames::wrap(&data, Format::S16, 2).unwrap();
    assert_eq!(f.format(), Format::S16);
    assert_eq!(f.channels(), 2);
    assert_eq!(f.byte_count(), 24);
    assert_eq!(f.frame_count(), 6);
    assert_eq!(f.sample_count(), 12);
    assert_eq!(f.as_bytes(), &data[..]);

    let f = Frames::wrap(&data, Format::S24, 4).unwrap();
    assert_eq!(f.frame_count(), 2);
    assert_eq!(f.sample_count(), 8);

    let f = Frames::wrap(&data, Format::F32, 1).unwrap();
    assert_eq!(f.frame_count(), 6);
    assert_eq!(f.sample_count(), 6);

    let empty: [u8; 0] = [];
    let f = Frames::wrap(&empty, Format::S32, 32).unwrap();
    assert_eq!(f.frame_count(), 0);
    assert_eq!(f.sample_count(), 0);
}

#[test]
fn frames_wrap_rejects_bad_layouts() {
    let data = [0u8; 24];
    assert_eq!(Frames::wrap(&data, Format::S16, 0).err(), Some(Error::InvalidArgs));
    assert_eq!(Frames::wrap(&data, Format::S8, MAX_CHANNELS + 1).err(), Some(Error::InvalidArgs));
    assert_eq!(Frames::wrap(&data, Format::S16, 5).err(), Some(Error::InvalidArgs));
    assert_eq!(Frames::wrap(&data[..23], Format::S16, 1).err(), Some(Error::InvalidArgs));
    assert!(Frames::wrap(&data, Format::S8, 24).is_ok());

    let mut data = [7u8; 10];
    assert_eq!(FramesMut::wrap(&mut data, Format::S16, 0).err(), Some(Error::InvalidArgs));
    assert_eq!(FramesMut::wrap(&mut data, Format::S32, 1).err(), Some(Error::InvalidArgs));
    assert_eq!(FramesMut::wrap(&mut data, Format::S16, 33).err(), Some(Error::InvalidArgs));
    assert_eq!(data, [7u8; 10]);
}

#[test]
fn frames_decode_sixteen_bit_samples_low_byte_first() {
    let data = [0x34u8, 0x12, 0xFF, 0xFF, 0x00, 0x80, 0xFF, 0x7F];
    let f = Frames::wrap(&data, Format::S16, 1).unwrap();
    assert_eq!(f.sample_s16(0), 0x1234);
    assert_eq!(f.sample_s16(1), -1);
    assert_eq!(f.sample_s16(2), -32768);
    assert_eq!(f.sample_s16(3), 32767);
}

#[test]
fn frames_mut_stores_sixteen_bit_samples_low_byte_first() {
    let mut data = [0u8; 8];
    {
        let mut f = FramesMut::wrap(&mut data, Format::S16, 2).unwrap();
        assert_eq!(f.format(), Format::S16);
        assert_eq!(f.channels(), 2);
        assert_eq!(f.byte_count(), 8);
        assert_eq!(f.frame_count(), 2);
        assert_eq!(f.sample_count(), 4);
        f.set_sample_s16(0, 0x1234);
        f.set_sample_s16(1, -2);
        f.set_sample_s16(3, -32768);
        assert_eq!(f.sample_s16(0), 0x1234);
        assert_eq!(f.sample_s16(1), -2);
        assert_eq!(f.sample_s16(2), 0);
        assert_eq!(f.sample_s16(3), -32768);
        assert_eq!(f.byte(0), 0x34);
        assert_eq!(f.byte(7), 0x80);
        assert_eq!(f.as_bytes(), &[0x34u8, 0x12, 0xFE, 0xFF, 0x00, 0x00, 0x00, 0x80][..]);
    }
    assert_eq!(data, [0x34, 0x12, 0xFE, 0xFF, 0x00, 0x00, 0x00, 0x80]);
}

#[test]
fn frames_mut_copies_from_frames() {
    let src = [1u8, 2, 3, 4, 5, 6];
    let mut dst = [0u8; 6];
    {
        let input = Frames::wrap(&src, Format::S24, 2).unwrap();
        let mut output = FramesMut::wrap(&mut dst, Format::S24, 2).unwrap();
        output.copy_from(&input);
    }
    assert_eq!(dst, src);
}

#[test]
fn frames_compat_tells_each_mismatch() {
    let a = [0u8; 16];
    let mut b = [0u8; 16];
    let mut c = [0u8; 8];

    let input = Frames::wrap(&a, Format::S16, 2).unwrap();
    {
        let output = FramesMut::wrap(&mut b, Format::S16, 2).unwrap();
        assert_eq!(ensure_frames_compat(&output, &input), Ok(()));
    }
    {
        let output = FramesMut::wrap(&mut b, Format::S32, 2).unwrap();
        assert_eq!(ensure_frames_compat(&output, &input), Err(Error::FormatMismatch));
    }
    {
        let output = FramesMut::wrap(&mut b, Format::S16, 4).unwrap();
        assert_eq!(ensure_frames_compat(&output, &input), Err(Error::FormatMismatch));
    }
    {
        let output = FramesMut::wrap(&mut c, Format::S16, 2).unwrap();
        assert_eq!(ensure_frames_compat(&output, &input), Err(Error::FrameCountMismatch));
    }
    {
        // same byte count, other shape: the format decides before the count does
        let output = FramesMut::wrap(&mut b, Format::S16, 1).unwrap();
        assert_eq!(ensure_frames_compat(&output, &input), Err(Error::FormatMismatch));
    }
}

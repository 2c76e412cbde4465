use miniaudio::Biquad;
use miniaudio::BiquadCoefficients;
use miniaudio::BiquadConfig;
use miniaudio::Error;
use miniaudio::Filter;
use miniaudio::Format;
use miniaudio::Frames;
use miniaudio::FramesMut;
use miniaudio::HPFCoefficients;
use miniaudio::HPFConfig;
use miniaudio::HPF1Config;
use miniaudio::HPF2Config;
use miniaudio::Notch2;
use miniaudio::Notch2Config;
use miniaudio::Peak2;
use miniaudio::Peak2Config;
use miniaudio::HPF;
use miniaudio::HPF1;
use miniaudio::HPF2;

const ONE: f64 = 16384.0;

fn bytes_of(samples: &[i16]) -> Vec<u8> {
    let mut bytes = Vec::new();
    for s in samples {
        bytes.extend_from_slice(&s.to_le_bytes());
    }
    bytes
}

fn samples_of(bytes: &[u8]) -> Vec<i16> {
    bytes.chunks(2).map(|c| i16::from_le_bytes([c[0], c[1]])).collect()
}

fn run<F: Filter>(filter: &mut F, channels: u32, input: &[i16]) -> Result<Vec<i16>, Error> {
    let src = bytes_of(input);
    let mut dst = vec![0x55u8; src.len()];
    {
        let frames_in = Frames::wrap(&src, Format::S16, channels).unwrap();
        let mut frames_out = FramesMut::wrap(&mut dst, Format::S16, channels).unwrap();
        filter.process_pcm_frames(&mut frames_out, &frames_in)?;
    }
    Ok(samples_of(&dst))
}

fn fixed(x: f64) -> i32 {
    (x * ONE) as i32
}

fn solve_hpf2(sample_rate: u32, cutoff: f64, q: f64) -> BiquadCoefficients {
    let w = 2.0 * std::f64::consts::PI * cutoff / sample_rate as f64;
    let (s, c) = (w.sin(), w.cos());
    let a = s / (2.0 * q);
    let a0 = 1.0 + a;
    BiquadCoefficients::new(
        fixed((1.0 + c) / 2.0 / a0),
        fixed(-(1.0 + c) / a0),
        fixed((1.0 + c) / 2.0 / a0),
        fixed(-2.0 * c / a0),
        fixed((1.0 - a) / a0),
    )
}

fn solve_notch2(sample_rate: u32, q: f64, frequency: f64) -> BiquadCoefficients {
    let w = 2.0 * std::f64::consts::PI * frequency / sample_rate as f64;
    let (s, c) = (w.sin(), w.cos());
    let a = s / (2.0 * q);
    let a0 = 1.0 + a;
    BiquadCoefficients::new(
        fixed(1.0 / a0),
        fixed(-2.0 * c / a0),
        fixed(1.0 / a0),
        fixed(-2.0 * c / a0),
        fixed((1.0 - a) / a0),
    )
}

fn solve_peak2(sample_rate: u32, gain_db: f64, q: f64, frequency: f64) -> BiquadCoefficients {
    let w = 2.0 * std::f64::consts::PI * frequency / sample_rate as f64;
    let (s, c) = (w.sin(), w.cos());
    let a = s / (2.0 * q);
    let big_a = 10f64.powf(gain_db / 40.0);
    let a0 = 1.0 + a / big_a;
    BiquadCoefficients::new(
        fixed((1.0 + a * big_a) / a0),
        fixed(-2.0 * c / a0),
        fixed((1.0 - a * big_a) / a0),
        fixed(-2.0 * c / a0),
        fixed((1.0 - a / big_a) / a0),
    )
}

#[test]
fn biquad_passthrough_reproduces_input() {
    let config = BiquadConfig::new(Format::S16, 2, BiquadCoefficients::passthrough());
    let mut bq = Biquad::new(&config).unwrap();
    let input = bytes_of(&[1, -2, 300, -400, 32767, -32768, 0, 7]);
    let mut output = vec![0u8; input.len()];
    {
        let frames_in = Frames::wrap(&input, Format::S16, 2).unwrap();
        let mut frames_out = FramesMut::wrap(&mut output, Format::S16, 2).unwrap();
        assert_eq!(bq.process_pcm_frames(&mut frames_out, &frames_in), Ok(()));
    }
    assert_eq!(output, input);
}

#[test]
fn biquad_rejects_frame_count_mismatch_and_leaves_output() {
    let config = BiquadConfig::new(Format::S16, 1, BiquadCoefficients::passthrough());
    let mut bq = Biquad::new(&config).unwrap();
    let input = bytes_of(&[1, 2, 3, 4]);
    let mut output = vec![0xAAu8; 6];
    {
        let frames_in = Frames::wrap(&input, Format::S16, 1).unwrap();
        let mut frames_out = FramesMut::wrap(&mut output, Format::S16, 1).unwrap();
        assert_eq!(
            bq.process_pcm_frames(&mut frames_out, &frames_in),
            Err(Error::FrameCountMismatch)
        );
    }
    assert_eq!(output, vec![0xAAu8; 6]);
}

#[test]
fn biquad_difference_equation_exact_values() {
    // b0 = 0.5, b1 = 0.25, b2 = 0.125, a1 = -0.5, a2 = 0.25 in 2.14 fixed point
    let c = BiquadCoefficients::new(8192, 4096, 2048, -8192, 4096);
    let mut bq = Biquad::new(&BiquadConfig::new(Format::S16, 1, c)).unwrap();
    let mut data = bytes_of(&[1000, 2000, -3000, 4000]);
    {
        let mut frames = FramesMut::wrap(&mut data, Format::S16, 1).unwrap();
        assert_eq!(bq.process_pcm_frames_in_place(&mut frames), Ok(()));
    }
    // y0 = 500
    // y1 = (0.5*2000 + 0.25*1000 + 0.5*500) = 1500
    // y2 = (0.5*-3000 + 0.25*2000 + 0.125*1000 + 0.5*1500 - 0.25*500) = -250
    // y3 = (0.5*4000 + 0.25*-3000 + 0.125*2000 + 0.5*-250 - 0.25*1500) = 1000
    assert_eq!(samples_of(&data), vec![500, 1500, -250, 1000]);
}

#[test]
fn biquad_new_rejects_unsupported_configurations() {
    let c = BiquadCoefficients::passthrough();
    assert_eq!(Biquad::new(&BiquadConfig::new(Format::F32, 2, c)).err(), Some(Error::InvalidArgs));
    assert_eq!(Biquad::new(&BiquadConfig::new(Format::S8, 2, c)).err(), Some(Error::InvalidArgs));
    assert_eq!(Biquad::new(&BiquadConfig::new(Format::S16, 0, c)).err(), Some(Error::InvalidArgs));
    assert_eq!(Biquad::new(&BiquadConfig::new(Format::S16, 33, c)).err(), Some(Error::InvalidArgs));
    let bq = Biquad::new(&BiquadConfig::new(Format::S16, 32, c)).unwrap();
    assert_eq!(bq.format(), Format::S16);
    assert_eq!(bq.channels(), 32);
    assert_eq!(bq.coefficients(), c);
    assert_eq!(bq.latency(), 2);
}

#[test]
fn biquad_config_accessors() {
    let c = BiquadCoefficients::new(1, 2, 3, 4, 5);
    let mut config = BiquadConfig::new(Format::S16, 2, c);
    assert_eq!(config.format(), Format::S16);
    assert_eq!(config.channels(), 2);
    assert_eq!(config.coefficients(), c);
    config.set_format(Format::S32);
    config.set_channels(7);
    config.set_coefficients(BiquadCoefficients::passthrough());
    assert_eq!(config.format(), Format::S32);
    assert_eq!(config.channels(), 7);
    assert_eq!(config.coefficients(), BiquadCoefficients::new(16384, 0, 0, 0, 0));
}

#[test]
fn biquad_rounds_down_and_saturates() {
    // b0 = 0.5
    let mut bq = Biquad::new(&BiquadConfig::new(
        Format::S16,
        1,
        BiquadCoefficients::new(8192, 0, 0, 0, 0),
    ))
    .unwrap();
    assert_eq!(run(&mut bq, 1, &[3, -3, 1, -1, 0]).unwrap(), vec![1, -2, 0, -1, 0]);
    // b0 = 4
    let mut bq = Biquad::new(&BiquadConfig::new(
        Format::S16,
        1,
        BiquadCoefficients::new(65536, 0, 0, 0, 0),
    ))
    .unwrap();
    assert_eq!(
        run(&mut bq, 1, &[20000, -20000, 8191, 8192, -8192, -8193]).unwrap(),
        vec![32767, -32768, 32764, 32767, -32768, -32768]
    );
}

#[test]
fn biquad_takes_extreme_coefficients_without_overflow() {
    let c = BiquadCoefficients::new(i32::MAX, i32::MIN, i32::MAX, i32::MIN, i32::MAX);
    let mut bq = Biquad::new(&BiquadConfig::new(Format::S16, 1, c)).unwrap();
    let input: Vec<i16> = (0..64).map(|i| if i % 2 == 0 { i16::MAX } else { i16::MIN }).collect();
    let out = run(&mut bq, 1, &input).unwrap();
    assert_eq!(out.len(), 64);
    assert_eq!(out[0], 32767);
}

#[test]
fn biquad_filters_each_channel_on_its_own() {
    let c = BiquadCoefficients::new(8192, 4096, 2048, -8192, 4096);
    let left = [1000i16, 2000, -3000, 4000];
    let right = [-5i16, 70, 900, -11000];
    let mut interleaved = Vec::new();
    for i in 0..4 {
        interleaved.push(left[i]);
        interleaved.push(right[i]);
    }
    let mut stereo = Biquad::new(&BiquadConfig::new(Format::S16, 2, c)).unwrap();
    let out = run(&mut stereo, 2, &interleaved).unwrap();
    let mut mono_l = Biquad::new(&BiquadConfig::new(Format::S16, 1, c)).unwrap();
    let mut mono_r = Biquad::new(&BiquadConfig::new(Format::S16, 1, c)).unwrap();
    let out_l = run(&mut mono_l, 1, &left).unwrap();
    let out_r = run(&mut mono_r, 1, &right).unwrap();
    assert_eq!(out_l, vec![500, 1500, -250, 1000]);
    for i in 0..4 {
        assert_eq!(out[2 * i], out_l[i]);
        assert_eq!(out[2 * i + 1], out_r[i]);
    }
}

#[test]
fn biquad_keeps_its_state_between_calls() {
    let c = BiquadCoefficients::new(8192, 4096, 2048, -8192, 4096);
    let mut whole = Biquad::new(&BiquadConfig::new(Format::S16, 1, c)).unwrap();
    let mut parts = Biquad::new(&BiquadConfig::new(Format::S16, 1, c)).unwrap();
    let all = run(&mut whole, 1, &[1000, 2000, -3000, 4000]).unwrap();
    let mut got = run(&mut parts, 1, &[1000, 2000]).unwrap();
    got.extend(run(&mut parts, 1, &[-3000, 4000]).unwrap());
    assert_eq!(got, all);
}

#[test]
fn biquad_reinit_swaps_coefficients_and_keeps_registers() {
    let c = BiquadCoefficients::new(8192, 4096, 2048, -8192, 4096);
    let config = BiquadConfig::new(Format::S16, 1, c);
    let mut whole = Biquad::new(&config).unwrap();
    let mut parts = Biquad::new(&config).unwrap();
    let all = run(&mut whole, 1, &[1000, 2000, -3000, 4000]).unwrap();
    let mut got = run(&mut parts, 1, &[1000, 2000]).unwrap();
    assert_eq!(parts.reinit(&config), Ok(()));
    got.extend(run(&mut parts, 1, &[-3000, 4000]).unwrap());
    assert_eq!(got, all);

    let half = BiquadCoefficients::new(8192, 0, 0, 0, 0);
    assert_eq!(parts.reinit(&BiquadConfig::new(Format::S16, 1, half)), Ok(()));
    assert_eq!(parts.coefficients(), half);
    parts.set_coefficients(c);
    assert_eq!(parts.coefficients(), c);

    assert_eq!(
        parts.reinit(&BiquadConfig::new(Format::S16, 2, half)),
        Err(Error::InvalidOperation)
    );
    assert_eq!(parts.reinit(&BiquadConfig::new(Format::F32, 1, half)), Err(Error::InvalidArgs));
    assert_eq!(parts.reinit(&BiquadConfig::new(Format::S16, 0, half)), Err(Error::InvalidArgs));
    assert_eq!(parts.coefficients(), c);
    assert_eq!(parts.channels(), 1);
}

#[test]
fn biquad_rejects_frames_of_another_shape() {
    let c = BiquadCoefficients::passthrough();
    let mut bq = Biquad::new(&BiquadConfig::new(Format::S16, 2, c)).unwrap();
    assert_eq!(run(&mut bq, 1, &[1, 2, 3, 4]), Err(Error::FormatMismatch));

    let src = [1u8, 2, 3, 4, 5, 6, 7, 8];
    let mut dst = [9u8; 8];
    {
        let frames_in = Frames::wrap(&src, Format::S32, 2).unwrap();
        let mut frames_out = FramesMut::wrap(&mut dst, Format::S32, 2).unwrap();
        assert_eq!(bq.process_pcm_frames(&mut frames_out, &frames_in), Err(Error::FormatMismatch));
        assert_eq!(bq.process_pcm_frames_in_place(&mut frames_out), Err(Error::FormatMismatch));
    }
    {
        let frames_in = Frames::wrap(&src, Format::S16, 2).unwrap();
        let mut frames_out = FramesMut::wrap(&mut dst, Format::S16, 4).unwrap();
        assert_eq!(bq.process_pcm_frames(&mut frames_out, &frames_in), Err(Error::FormatMismatch));
    }
    assert_eq!(dst, [9u8; 8]);
}

#[test]
fn biquad_in_place_equals_out_of_place() {
    let c = BiquadCoefficients::new(12000, -3000, 500, 2000, -1000);
    let input = [100i16, -200, 300, -400, 500, -600];
    let mut a = Biquad::new(&BiquadConfig::new(Format::S16, 3, c)).unwrap();
    let mut b = Biquad::new(&BiquadConfig::new(Format::S16, 3, c)).unwrap();
    let expected = run(&mut a, 3, &input).unwrap();
    let mut data = bytes_of(&input);
    {
        let mut frames = FramesMut::wrap(&mut data, Format::S16, 3).unwrap();
        assert_eq!(b.process_pcm_frames_in_place(&mut frames), Ok(()));
    }
    assert_eq!(samples_of(&data), expected);
}

#[test]
fn hpf1_config_accessors() {
    let mut config = HPF1Config::new(Format::S16, 2, 48000, 1000.0f64.to_bits());
    assert_eq!(config.format(), Format::S16);
    assert_eq!(config.channels(), 2);
    assert_eq!(config.sample_rate(), 48000);
    assert_eq!(f64::from_bits(config.cutoff_frequency()), 1000.0);
    assert_eq!(config.q(), 0);
    config.set_format(Format::F32);
    config.set_channels(1);
    config.set_sample_rate(44100);
    config.set_cutoff_frequency(250.5f64.to_bits());
    config.set_q(0.75f64.to_bits());
    assert_eq!(config.format(), Format::F32);
    assert_eq!(config.channels(), 1);
    assert_eq!(config.sample_rate(), 44100);
    assert_eq!(f64::from_bits(config.cutoff_frequency()), 250.5);
    assert_eq!(f64::from_bits(config.q()), 0.75);
}

#[test]
fn hpf2_config_accessors() {
    let mut config = HPF2Config::new(Format::S16, 2, 48000, 1000.0f64.to_bits(), 0.5f64.to_bits());
    assert_eq!(config.format(), Format::S16);
    assert_eq!(config.channels(), 2);
    assert_eq!(config.sample_rate(), 48000);
    assert_eq!(f64::from_bits(config.cutoff_frequency()), 1000.0);
    assert_eq!(f64::from_bits(config.q()), 0.5);
    config.set_format(Format::S24);
    config.set_channels(6);
    config.set_sample_rate(8000);
    config.set_cutoff_frequency(20.0f64.to_bits());
    config.set_q(2.0f64.to_bits());
    assert_eq!(config.format(), Format::S24);
    assert_eq!(config.channels(), 6);
    assert_eq!(config.sample_rate(), 8000);
    assert_eq!(f64::from_bits(config.cutoff_frequency()), 20.0);
    assert_eq!(f64::from_bits(config.q()), 2.0);
}

#[test]
fn hpf_config_accessors() {
    let mut config = HPFConfig::new(Format::S16, 2, 48000, 1000.0f64.to_bits(), 4);
    assert_eq!(config.format(), Format::S16);
    assert_eq!(config.channels(), 2);
    assert_eq!(config.sample_rate(), 48000);
    assert_eq!(f64::from_bits(config.cutoff_frequency()), 1000.0);
    assert_eq!(config.order(), 4);
    config.set_format(Format::S8);
    config.set_channels(3);
    config.set_sample_rate(96000);
    config.set_cutoff_frequency(80.0f64.to_bits());
    config.set_order(7);
    assert_eq!(config.format(), Format::S8);
    assert_eq!(config.channels(), 3);
    assert_eq!(config.sample_rate(), 96000);
    assert_eq!(f64::from_bits(config.cutoff_frequency()), 80.0);
    assert_eq!(config.order(), 7);
}

#[test]
fn notch2_config_accessors() {
    let mut config = Notch2Config::new(Format::S16, 2, 48000, 0.5f64.to_bits(), 60.0f64.to_bits());
    assert_eq!(config.format(), Format::S16);
    assert_eq!(config.channels(), 2);
    assert_eq!(config.sample_rate(), 48000);
    assert_eq!(f64::from_bits(config.q()), 0.5);
    assert_eq!(f64::from_bits(config.frequency()), 60.0);
    config.set_format(Format::S32);
    config.set_channels(1);
    config.set_sample_rate(22050);
    config.set_q(4.0f64.to_bits());
    config.set_frequency(50.0f64.to_bits());
    assert_eq!(config.format(), Format::S32);
    assert_eq!(config.channels(), 1);
    assert_eq!(config.sample_rate(), 22050);
    assert_eq!(f64::from_bits(config.q()), 4.0);
    assert_eq!(f64::from_bits(config.frequency()), 50.0);
}

#[test]
fn peak2_config_accessors() {
    let mut config = Peak2Config::new(
        Format::S16,
        2,
        48000,
        (-6.0f64).to_bits(),
        0.5f64.to_bits(),
        440.0f64.to_bits(),
    );
    assert_eq!(config.format(), Format::S16);
    assert_eq!(config.channels(), 2);
    assert_eq!(config.sample_rate(), 48000);
    assert_eq!(f64::from_bits(config.gain_db()), -6.0);
    assert_eq!(f64::from_bits(config.q()), 0.5);
    assert_eq!(f64::from_bits(config.frequency()), 440.0);
    config.set_format(Format::F32);
    config.set_channels(8);
    config.set_sample_rate(11025);
    config.set_gain_db(3.0f64.to_bits());
    config.set_q(1.5f64.to_bits());
    config.set_frequency(880.0f64.to_bits());
    assert_eq!(config.format(), Format::F32);
    assert_eq!(config.channels(), 8);
    assert_eq!(config.sample_rate(), 11025);
    assert_eq!(f64::from_bits(config.gain_db()), 3.0);
    assert_eq!(f64::from_bits(config.q()), 1.5);
    assert_eq!(f64::from_bits(config.frequency()), 880.0);
}

#[test]
fn hpf1_exact_values() {
    // a = 0.5: y[n] = 0.5*x[n] - 0.5*y[n-1]
    let config = HPF1Config::new(Format::S16, 1, 48000, 1000.0f64.to_bits());
    let mut hpf = HPF1::new(&config, 8192).unwrap();
    assert_eq!(hpf.latency(), 1);
    assert_eq!(hpf.coefficient(), 8192);
    assert_eq!(run(&mut hpf, 1, &[1000, 1000, 1000, -7]).unwrap(), vec![500, 250, 375, -191]);
    // the state carries over
    // -(-191) / 2 = 95.5, rounded down
    assert_eq!(run(&mut hpf, 1, &[0]).unwrap(), vec![95]);
}

#[test]
fn hpf1_saturates_and_handles_two_channels() {
    let config = HPF1Config::new(Format::S16, 2, 48000, 1000.0f64.to_bits());
    // a = 4
    let mut hpf = HPF1::new(&config, 65536).unwrap();
    // y = 4x + 3*y_prev, each channel on its own
    assert_eq!(
        run(&mut hpf, 2, &[10000, -1, 0, 0]).unwrap(),
        vec![32767, -4, 32767, -12]
    );
}

#[test]
fn hpf1_new_and_reinit_outcomes() {
    let good = HPF1Config::new(Format::S16, 2, 48000, 1000.0f64.to_bits());
    assert_eq!(
        HPF1::new(&HPF1Config::new(Format::F32, 2, 48000, 0), 1).err(),
        Some(Error::InvalidArgs)
    );
    assert_eq!(
        HPF1::new(&HPF1Config::new(Format::S16, 0, 48000, 0), 1).err(),
        Some(Error::InvalidArgs)
    );
    assert_eq!(
        HPF1::new(&HPF1Config::new(Format::S16, 33, 48000, 0), 1).err(),
        Some(Error::InvalidArgs)
    );
    let mut hpf = HPF1::new(&good, 100).unwrap();
    assert_eq!(hpf.reinit(&good, 200), Ok(()));
    assert_eq!(hpf.coefficient(), 200);
    assert_eq!(
        hpf.reinit(&HPF1Config::new(Format::S16, 1, 48000, 0), 300),
        Err(Error::InvalidOperation)
    );
    assert_eq!(
        hpf.reinit(&HPF1Config::new(Format::S32, 2, 48000, 0), 300),
        Err(Error::InvalidArgs)
    );
    assert_eq!(hpf.coefficient(), 200);
    assert_eq!(run(&mut hpf, 1, &[1, 2]), Err(Error::FormatMismatch));
}

#[test]
fn hpf1_in_place_equals_out_of_place() {
    let config = HPF1Config::new(Format::S16, 2, 48000, 1000.0f64.to_bits());
    let input = [100i16, -200, 300, -400, 500, -600];
    let mut a = HPF1::new(&config, 15000).unwrap();
    let mut b = HPF1::new(&config, 15000).unwrap();
    let expected = run(&mut a, 2, &input).unwrap();
    let mut data = bytes_of(&input);
    {
        let mut frames = FramesMut::wrap(&mut data, Format::S16, 2).unwrap();
        assert_eq!(b.process_pcm_frames_in_place(&mut frames), Ok(()));
    }
    assert_eq!(samples_of(&data), expected);
    let mut other = [0u8; 4];
    let mut frames = FramesMut::wrap(&mut other, Format::S16, 1).unwrap();
    assert_eq!(b.process_pcm_frames_in_place(&mut frames), Err(Error::FormatMismatch));
}

#[test]
fn hpf2_blocks_a_constant_signal() {
    let config = HPF2Config::new(
        Format::S16,
        1,
        48000,
        1000.0f64.to_bits(),
        std::f64::consts::FRAC_1_SQRT_2.to_bits(),
    );
    let c = solve_hpf2(48000, 1000.0, std::f64::consts::FRAC_1_SQRT_2);
    let mut hpf = HPF2::new(&config, &c).unwrap();
    assert_eq!(hpf.latency(), 2);
    assert_eq!(hpf.biquad().coefficients(), c);
    assert_eq!(hpf.biquad().channels(), 1);
    let out = run(&mut hpf, 1, &[10000i16; 2000]).unwrap();
    assert!(out[0] > 8000);
    // what is left is the rounding of the coefficients, under one percent
    for y in &out[1000..] {
        assert!(y.abs() <= 100, "a constant input should die away, got {}", y);
    }
}

#[test]
fn hpf2_is_the_biquad_with_its_coefficients() {
    let config = HPF2Config::new(Format::S16, 2, 48000, 0, 0);
    let c = BiquadCoefficients::new(9000, -18000, 9000, -20000, 7000);
    let input = [100i16, -200, 300, -400, 500, -600, 32767, -32768];
    let mut hpf = HPF2::new(&config, &c).unwrap();
    let mut bq = Biquad::new(&BiquadConfig::new(Format::S16, 2, c)).unwrap();
    assert_eq!(run(&mut hpf, 2, &input).unwrap(), run(&mut bq, 2, &input).unwrap());
    let mut data = bytes_of(&input);
    let mut frames = FramesMut::wrap(&mut data, Format::S16, 2).unwrap();
    assert_eq!(hpf.process_pcm_frames_in_place(&mut frames), Ok(()));
}

#[test]
fn hpf2_new_and_reinit_outcomes() {
    let c = BiquadCoefficients::passthrough();
    assert_eq!(
        HPF2::new(&HPF2Config::new(Format::F32, 2, 48000, 0, 0), &c).err(),
        Some(Error::InvalidArgs)
    );
    assert_eq!(
        HPF2::new(&HPF2Config::new(Format::S16, 0, 48000, 0, 0), &c).err(),
        Some(Error::InvalidArgs)
    );
    let good = HPF2Config::new(Format::S16, 2, 48000, 0, 0);
    let mut hpf = HPF2::new(&good, &c).unwrap();
    let other = BiquadCoefficients::new(1, 2, 3, 4, 5);
    assert_eq!(hpf.reinit(&good, &other), Ok(()));
    assert_eq!(hpf.biquad().coefficients(), other);
    assert_eq!(
        hpf.reinit(&HPF2Config::new(Format::S16, 3, 48000, 0, 0), &c),
        Err(Error::InvalidOperation)
    );
    assert_eq!(
        hpf.reinit(&HPF2Config::new(Format::S8, 2, 48000, 0, 0), &c),
        Err(Error::InvalidArgs)
    );
    assert_eq!(hpf.biquad().coefficients(), other);
}

fn hpf_sections(order: u32) -> HPFCoefficients {
    HPFCoefficients {
        first_order: if order % 2 == 1 { Some(12000) } else { None },
        second_order: (0..order / 2)
            .map(|i| BiquadCoefficients::new(9000 + i as i32, -18000, 9000, -20000 + i as i32, 7000))
            .collect(),
    }
}

#[test]
fn hpf_of_order_zero_is_the_identity() {
    let config = HPFConfig::new(Format::S16, 2, 48000, 1000.0f64.to_bits(), 0);
    let mut hpf = HPF::new(&config, &hpf_sections(0)).unwrap();
    assert_eq!(hpf.latency(), 0);
    assert_eq!(hpf.order(), 0);
    let input = [1i16, -2, 300, -400, 32767, -32768, 0, 7];
    assert_eq!(run(&mut hpf, 2, &input).unwrap(), input.to_vec());
    assert_eq!(run(&mut hpf, 2, &input).unwrap(), input.to_vec());
    let mut data = bytes_of(&input);
    {
        let mut frames = FramesMut::wrap(&mut data, Format::S16, 2).unwrap();
        assert_eq!(hpf.process_pcm_frames_in_place(&mut frames), Ok(()));
    }
    assert_eq!(samples_of(&data), input.to_vec());
}

#[test]
fn hpf_latency_is_the_sum_over_its_sections() {
    for order in 0..=8u32 {
        let config = HPFConfig::new(Format::S16, 1, 48000, 1000.0f64.to_bits(), order);
        let hpf = HPF::new(&config, &hpf_sections(order)).unwrap();
        let first = HPF1::new(&HPF1Config::new(Format::S16, 1, 48000, 0), 1).unwrap().latency();
        let second = HPF2::new(
            &HPF2Config::new(Format::S16, 1, 48000, 0, 0),
            &BiquadCoefficients::passthrough(),
        )
        .unwrap()
        .latency();
        assert_eq!(hpf.latency(), (order % 2) * first + (order / 2) * second);
        assert_eq!(hpf.latency(), order);
        assert_eq!(hpf.order(), order);
    }
}

#[test]
fn hpf_is_its_sections_one_after_the_other() {
    let input: Vec<i16> = (0..40).map(|i| ((i * 7919) % 2001 - 1000) as i16).collect();
    for order in 1..=8u32 {
        let sections = hpf_sections(order);
        let config = HPFConfig::new(Format::S16, 2, 48000, 1000.0f64.to_bits(), order);
        let mut hpf = HPF::new(&config, &sections).unwrap();
        let got = run(&mut hpf, 2, &input).unwrap();

        let mut expected = input.clone();
        if let Some(a) = sections.first_order {
            let mut s = HPF1::new(&HPF1Config::new(Format::S16, 2, 48000, 0), a).unwrap();
            expected = run(&mut s, 2, &expected).unwrap();
        }
        for c in &sections.second_order {
            let mut s = HPF2::new(&HPF2Config::new(Format::S16, 2, 48000, 0, 0), c).unwrap();
            expected = run(&mut s, 2, &expected).unwrap();
        }
        assert_eq!(got, expected, "order {}", order);
    }
}

#[test]
fn hpf_new_outcomes() {
    let sections = hpf_sections(3);
    let with = |format, channels, order| HPFConfig::new(format, channels, 48000, 0, order);
    assert!(HPF::new(&with(Format::S16, 2, 3), &sections).is_ok());
    assert_eq!(HPF::new(&with(Format::F32, 2, 3), &sections).err(), Some(Error::InvalidArgs));
    assert_eq!(HPF::new(&with(Format::S16, 0, 3), &sections).err(), Some(Error::InvalidArgs));
    assert_eq!(HPF::new(&with(Format::S16, 33, 3), &sections).err(), Some(Error::InvalidArgs));
    assert_eq!(HPF::new(&with(Format::S16, 2, 9), &hpf_sections(9)).err(), Some(Error::InvalidArgs));
    assert_eq!(HPF::new(&with(Format::S16, 2, 2), &sections).err(), Some(Error::InvalidArgs));
    assert_eq!(HPF::new(&with(Format::S16, 2, 5), &sections).err(), Some(Error::InvalidArgs));
    assert_eq!(HPF::new(&with(Format::S16, 2, 4), &sections).err(), Some(Error::InvalidArgs));
    assert!(HPF::new(&with(Format::S16, 2, 8), &hpf_sections(8)).is_ok());
}

#[test]
fn hpf_reinit_outcomes() {
    let with = |format, channels, order| HPFConfig::new(format, channels, 48000, 0, order);
    let input: Vec<i16> = (0..24).map(|i| (i * 331 % 977) as i16 - 400).collect();
    let mut hpf = HPF::new(&with(Format::S16, 1, 3), &hpf_sections(3)).unwrap();
    let mut twin = HPF::new(&with(Format::S16, 1, 3), &hpf_sections(3)).unwrap();
    let whole = run(&mut twin, 1, &input).unwrap();

    let mut got = run(&mut hpf, 1, &input[..10]).unwrap();
    // the same coefficients again: the state is kept, the output goes on as before
    assert_eq!(hpf.reinit(&with(Format::S16, 1, 3), &hpf_sections(3)), Ok(()));
    got.extend(run(&mut hpf, 1, &input[10..]).unwrap());
    assert_eq!(got, whole);

    assert_eq!(
        hpf.reinit(&with(Format::S16, 1, 5), &hpf_sections(5)),
        Err(Error::InvalidOperation)
    );
    assert_eq!(
        hpf.reinit(&with(Format::S16, 1, 2), &hpf_sections(2)),
        Err(Error::InvalidOperation)
    );
    assert_eq!(
        hpf.reinit(&with(Format::S16, 2, 3), &hpf_sections(3)),
        Err(Error::InvalidOperation)
    );
    assert_eq!(hpf.reinit(&with(Format::S16, 1, 3), &hpf_sections(2)), Err(Error::InvalidArgs));
    assert_eq!(hpf.reinit(&with(Format::S16, 1, 9), &hpf_sections(9)), Err(Error::InvalidArgs));
    assert_eq!(hpf.reinit(&with(Format::S24, 1, 3), &hpf_sections(3)), Err(Error::InvalidArgs));
    assert_eq!(hpf.order(), 3);

    // other coefficients take effect at once
    let plain = HPFCoefficients {
        first_order: Some(16384),
        second_order: vec![BiquadCoefficients::passthrough()],
    };
    let mut fresh = HPF::new(&with(Format::S16, 1, 3), &hpf_sections(3)).unwrap();
    assert_eq!(fresh.reinit(&with(Format::S16, 1, 3), &plain), Ok(()));
    assert_eq!(run(&mut fresh, 1, &input).unwrap(), input);
}

#[test]
fn hpf_rejects_frames_of_another_shape_or_length() {
    let config = HPFConfig::new(Format::S16, 2, 48000, 0, 0);
    let mut hpf = HPF::new(&config, &hpf_sections(0)).unwrap();
    assert_eq!(run(&mut hpf, 1, &[1, 2, 3, 4]), Err(Error::FormatMismatch));
    let src = bytes_of(&[1, 2, 3, 4]);
    let mut dst = [0x11u8; 12];
    {
        let frames_in = Frames::wrap(&src, Format::S16, 2).unwrap();
        let mut frames_out = FramesMut::wrap(&mut dst, Format::S16, 2).unwrap();
        assert_eq!(
            hpf.process_pcm_frames(&mut frames_out, &frames_in),
            Err(Error::FrameCountMismatch)
        );
    }
    assert_eq!(dst, [0x11u8; 12]);
    let mut other = [0u8; 4];
    let mut frames = FramesMut::wrap(&mut other, Format::S16, 1).unwrap();
    assert_eq!(hpf.process_pcm_frames_in_place(&mut frames), Err(Error::FormatMismatch));
}

#[test]
fn notch2_removes_its_frequency_and_keeps_a_constant() {
    let config = Notch2Config::new(Format::S16, 1, 48000, 1.0f64.to_bits(), 12000.0f64.to_bits());
    let c = solve_notch2(48000, 1.0, 12000.0);
    let mut notch = Notch2::new(&config, &c).unwrap();
    assert_eq!(notch.latency(), 2);
    assert_eq!(notch.bq().coefficients(), c);
    // a quarter of the sample rate: 0, A, 0, -A, ...
    let tone: Vec<i16> = (0..4000).map(|i| [0i16, 10000, 0, -10000][i % 4]).collect();
    let out = run(&mut notch, 1, &tone).unwrap();
    for y in &out[2000..] {
        assert!(y.abs() <= 64, "the tone should be gone, got {}", y);
    }
    let mut notch = Notch2::new(&config, &c).unwrap();
    let out = run(&mut notch, 1, &[10000i16; 4000]).unwrap();
    for y in &out[2000..] {
        assert!((y - 10000).abs() <= 64, "a constant should pass, got {}", y);
    }
}

#[test]
fn notch2_new_reinit_and_shape_outcomes() {
    let c = BiquadCoefficients::new(9000, -18000, 9000, -20000, 7000);
    assert_eq!(
        Notch2::new(&Notch2Config::new(Format::F32, 1, 48000, 0, 0), &c).err(),
        Some(Error::InvalidArgs)
    );
    assert_eq!(
        Notch2::new(&Notch2Config::new(Format::S16, 40, 48000, 0, 0), &c).err(),
        Some(Error::InvalidArgs)
    );
    let good = Notch2Config::new(Format::S16, 1, 48000, 0, 0);
    let mut notch = Notch2::new(&good, &c).unwrap();
    let mut bq = Biquad::new(&BiquadConfig::new(Format::S16, 1, c)).unwrap();
    let input = [5i16, -6, 700, -800, 9000];
    assert_eq!(run(&mut notch, 1, &input).unwrap(), run(&mut bq, 1, &input).unwrap());
    assert_eq!(notch.reinit(&good, &BiquadCoefficients::passthrough()), Ok(()));
    assert_eq!(notch.bq().coefficients(), BiquadCoefficients::passthrough());
    assert_eq!(
        notch.reinit(&Notch2Config::new(Format::S16, 2, 48000, 0, 0), &c),
        Err(Error::InvalidOperation)
    );
    assert_eq!(
        notch.reinit(&Notch2Config::new(Format::S16, 0, 48000, 0, 0), &c),
        Err(Error::InvalidArgs)
    );
    assert_eq!(run(&mut notch, 2, &[1, 2]), Err(Error::FormatMismatch));
    let mut data = bytes_of(&input);
    let mut frames = FramesMut::wrap(&mut data, Format::S16, 1).unwrap();
    assert_eq!(notch.process_pcm_frames_in_place(&mut frames), Ok(()));
}

#[test]
fn peak2_without_gain_changes_nothing() {
    let config = Peak2Config::new(
        Format::S16,
        2,
        48000,
        0.0f64.to_bits(),
        1.0f64.to_bits(),
        1000.0f64.to_bits(),
    );
    let c = solve_peak2(48000, 0.0, 1.0, 1000.0);
    assert_eq!(c.b0, 16384);
    assert_eq!(c.b1, c.a1);
    assert_eq!(c.b2, c.a2);
    let mut peak = Peak2::new(&config, &c).unwrap();
    assert_eq!(peak.latency(), 2);
    let input: Vec<i16> = (0..200).map(|i| ((i * 7919) % 20001 - 10000) as i16).collect();
    assert_eq!(run(&mut peak, 2, &input).unwrap(), input);
}

#[test]
fn peak2_boosts_its_frequency() {
    let config = Peak2Config::new(
        Format::S16,
        1,
        48000,
        6.0f64.to_bits(),
        1.0f64.to_bits(),
        12000.0f64.to_bits(),
    );
    let c = solve_peak2(48000, 6.0, 1.0, 12000.0);
    let mut peak = Peak2::new(&config, &c).unwrap();
    assert_eq!(peak.bq().coefficients(), c);
    let tone: Vec<i16> = (0..4000).map(|i| [0i16, 5000, 0, -5000][i % 4]).collect();
    let out = run(&mut peak, 1, &tone).unwrap();
    let top = out[2000..].iter().map(|y| y.abs()).max().unwrap();
    // 6 dB is a factor of 1.995
    assert!((9900..=10050).contains(&top), "got {}", top);
}

#[test]
fn peak2_new_reinit_and_shape_outcomes() {
    let c = BiquadCoefficients::new(17000, -18000, 9000, -18000, 8000);
    assert_eq!(
        Peak2::new(&Peak2Config::new(Format::S32, 1, 48000, 0, 0, 0), &c).err(),
        Some(Error::InvalidArgs)
    );
    assert_eq!(
        Peak2::new(&Peak2Config::new(Format::S16, 0, 48000, 0, 0, 0), &c).err(),
        Some(Error::InvalidArgs)
    );
    let good = Peak2Config::new(Format::S16, 1, 48000, 0, 0, 0);
    let mut peak = Peak2::new(&good, &c).unwrap();
    let mut bq = Biquad::new(&BiquadConfig::new(Format::S16, 1, c)).unwrap();
    let input = [5i16, -6, 700, -800, 9000];
    assert_eq!(run(&mut peak, 1, &input).unwrap(), run(&mut bq, 1, &input).unwrap());
    assert_eq!(peak.reinit(&good, &BiquadCoefficients::passthrough()), Ok(()));
    assert_eq!(peak.bq().coefficients(), BiquadCoefficients::passthrough());
    assert_eq!(
        peak.reinit(&Peak2Config::new(Format::S16, 2, 48000, 0, 0, 0), &c),
        Err(Error::InvalidOperation)
    );
    assert_eq!(
        peak.reinit(&Peak2Config::new(Format::F32, 1, 48000, 0, 0, 0), &c),
        Err(Error::InvalidArgs)
    );
    assert_eq!(run(&mut peak, 2, &[1, 2]), Err(Error::FormatMismatch));
    let mut data = bytes_of(&input);
    let mut frames = FramesMut::wrap(&mut data, Format::S16, 1).unwrap();
    assert_eq!(peak.process_pcm_frames_in_place(&mut frames), Ok(()));
}

#[test]
fn filters_clone_with_their_state() {
    let input: Vec<i16> = (0..30).map(|i| ((i * 7919) % 2001 - 1000) as i16).collect();
    let config = HPFConfig::new(Format::S16, 1, 48000, 0, 5);
    let mut hpf = HPF::new(&config, &hpf_sections(5)).unwrap();
    let head = run(&mut hpf, 1, &input[..12]).unwrap();
    let mut twin = hpf.clone();
    assert_eq!(twin.order(), 5);
    assert_eq!(run(&mut hpf, 1, &input[12..]).unwrap(), run(&mut twin, 1, &input[12..]).unwrap());
    let mut fresh = HPF::new(&config, &hpf_sections(5)).unwrap();
    assert_eq!(run(&mut fresh, 1, &input[..12]).unwrap(), head);

    let c = BiquadCoefficients::new(9000, -18000, 9000, -20000, 7000);
    let mut notch = Notch2::new(&Notch2Config::new(Format::S16, 1, 48000, 0, 0), &c).unwrap();
    run(&mut notch, 1, &input[..7]).unwrap();
    let mut copy = notch.clone();
    assert_eq!(run(&mut notch, 1, &input).unwrap(), run(&mut copy, 1, &input).unwrap());
    let sections = hpf_sections(3).clone();
    assert_eq!(sections.first_order, Some(12000));
    assert_eq!(sections.second_order.len(), 1);
}

fn float_bytes(samples: &[f32]) -> Vec<u8> {
    let mut bytes = Vec::new();
    for s in samples {
        bytes.extend_from_slice(&s.to_le_bytes());
    }
    bytes
}

fn floats_of(bytes: &[u8]) -> Vec<f32> {
    bytes.chunks(4).map(|c| f32::from_le_bytes([c[0], c[1], c[2], c[3]])).collect()
}

fn float_pass_through() -> HPF {
    let config = HPFConfig::new(Format::F32, 1, 48000, 1000.0f64.to_bits(), 0);
    assert!(config.is_valid());
    HPF::new(&config, &hpf_sections(0)).unwrap()
}

#[test]
fn hpf_of_order_zero_copies_float_frames() {
    let mut hpf = float_pass_through();
    assert_eq!(hpf.latency(), 0);
    assert_eq!(hpf.order(), 0);
    let src = float_bytes(&[0.5, -0.25, 1.0, 0.0]);
    let mut dst = float_bytes(&[9.0; 4]);
    {
        let input = Frames::wrap(&src, Format::F32, 1).unwrap();
        let mut output = FramesMut::wrap(&mut dst, Format::F32, 1).unwrap();
        assert_eq!(hpf.process_pcm_frames(&mut output, &input), Ok(()));
    }
    assert_eq!(floats_of(&dst), vec![0.5, -0.25, 1.0, 0.0]);
    assert_eq!(dst, src);

    let mut data = float_bytes(&[f32::MAX, f32::MIN_POSITIVE, -0.0, f32::INFINITY]);
    let before = data.clone();
    {
        let mut frames = FramesMut::wrap(&mut data, Format::F32, 1).unwrap();
        assert_eq!(hpf.process_pcm_frames_in_place(&mut frames), Ok(()));
    }
    assert_eq!(data, before);

    // no frames at all
    let empty: [u8; 0] = [];
    let mut none: [u8; 0] = [];
    let input = Frames::wrap(&empty, Format::F32, 1).unwrap();
    let mut output = FramesMut::wrap(&mut none, Format::F32, 1).unwrap();
    assert_eq!(hpf.process_pcm_frames(&mut output, &input), Ok(()));
}

#[test]
fn hpf_of_order_zero_guards_float_frames() {
    let mut hpf = float_pass_through();
    let src = float_bytes(&[1.0, 2.0]);
    let mut dst = float_bytes(&[9.0, 9.0, 9.0]);
    {
        let input = Frames::wrap(&src, Format::F32, 1).unwrap();
        let mut output = FramesMut::wrap(&mut dst, Format::F32, 1).unwrap();
        assert_eq!(
            hpf.process_pcm_frames(&mut output, &input),
            Err(Error::FrameCountMismatch)
        );
    }
    assert_eq!(floats_of(&dst), vec![9.0, 9.0, 9.0]);
    // frames of another format or channel count are not for this filter
    assert_eq!(run(&mut hpf, 1, &[1, 2, 3, 4]), Err(Error::FormatMismatch));
    let mut two = float_bytes(&[1.0, 2.0]);
    let mut frames = FramesMut::wrap(&mut two, Format::F32, 2).unwrap();
    assert_eq!(hpf.process_pcm_frames_in_place(&mut frames), Err(Error::FormatMismatch));
}

#[test]
fn hpf_takes_float_only_at_order_zero() {
    let with = |format, order| HPFConfig::new(format, 1, 48000, 1000.0f64.to_bits(), order);
    assert!(HPF::new(&with(Format::F32, 0), &hpf_sections(0)).is_ok());
    assert!(HPF::new(&with(Format::S16, 0), &hpf_sections(0)).is_ok());
    for order in 1..=8 {
        assert!(!with(Format::F32, order).is_valid());
        assert_eq!(
            HPF::new(&with(Format::F32, order), &hpf_sections(order)).err(),
            Some(Error::InvalidArgs)
        );
        assert!(with(Format::S16, order).is_valid());
    }
    for format in [Format::S8, Format::S24, Format::S32] {
        assert!(!with(format, 0).is_valid());
        assert_eq!(HPF::new(&with(format, 0), &hpf_sections(0)).err(), Some(Error::InvalidArgs));
    }
    assert!(!with(Format::S16, 9).is_valid());
    assert!(!HPFConfig::new(Format::S16, 0, 48000, 0, 2).is_valid());

    let mut hpf = float_pass_through();
    assert_eq!(hpf.reinit(&with(Format::F32, 0), &hpf_sections(0)), Ok(()));
    assert_eq!(hpf.reinit(&with(Format::S16, 0), &hpf_sections(0)), Err(Error::InvalidOperation));
    assert_eq!(hpf.reinit(&with(Format::F32, 2), &hpf_sections(2)), Err(Error::InvalidArgs));
    assert_eq!(hpf.reinit(&with(Format::S16, 2), &hpf_sections(2)), Err(Error::InvalidOperation));
    assert_eq!(hpf.latency(), 0);
}

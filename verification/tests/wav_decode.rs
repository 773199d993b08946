use chaos_core::tts::wav::{
    decode_wav_bytes_to_pcm16_mono, encode_wav_pcm16_mono, sample_i32_to_i16_exec, samples_i32_to_i16,
    WavPcm16Decode,
};
use chaos_core::tts::TtsError;

fn wav_with(spec: hound::WavSpec, write: impl Fn(&mut hound::WavWriter<&mut std::io::Cursor<Vec<u8>>>)) -> Vec<u8> {
    let mut buf = std::io::Cursor::new(Vec::<u8>::new());
    {
        let mut w = hound::WavWriter::new(&mut buf, spec).expect("writer");
        write(&mut w);
        w.finalize().expect("finalize");
    }
    buf.into_inner()
}

#[test]
fn decode_int16_wav_gives_its_samples() {
    let pcm: Vec<i16> = vec![0, 1000, -1000, 32767, -32768, 7];
    let wav = encode_wav_pcm16_mono(2000, &pcm).expect("encode");
    match decode_wav_bytes_to_pcm16_mono(&wav).expect("decode") {
        WavPcm16Decode::Pcm16(p) => {
            assert_eq!(p.sample_rate, 2000);
            assert_eq!(p.channels, 1);
            assert_eq!(p.pcm16, pcm);
            assert_eq!(p.duration_ms, 3);
        }
        other => panic!("unexpected {other:?}"),
    }
}

#[test]
fn decode_int32_wav_divides_by_65536() {
    let spec = hound::WavSpec { channels: 1, sample_rate: 1000, bits_per_sample: 32, sample_format: hound::SampleFormat::Int };
    let wav = wav_with(spec, |w| {
        for s in [65536i32, -65536, 131071, -131071, i32::MAX, i32::MIN] {
            w.write_sample(s).expect("sample");
        }
    });
    match decode_wav_bytes_to_pcm16_mono(&wav).expect("decode") {
        WavPcm16Decode::Pcm16(p) => {
            assert_eq!(p.pcm16, vec![1, -1, 1, -1, 32767, -32768]);
            assert_eq!(p.duration_ms, 6);
        }
        other => panic!("unexpected {other:?}"),
    }
}

#[test]
fn decode_float_wav_is_left_to_the_caller() {
    let spec = hound::WavSpec { channels: 1, sample_rate: 24000, bits_per_sample: 32, sample_format: hound::SampleFormat::Float };
    let wav = wav_with(spec, |w| {
        w.write_sample(0.5f32).expect("sample");
    });
    match decode_wav_bytes_to_pcm16_mono(&wav).expect("decode") {
        WavPcm16Decode::Float32 { sample_rate } => assert_eq!(sample_rate, 24000),
        other => panic!("unexpected {other:?}"),
    }
}

#[test]
fn decode_refuses_stereo_garbage_and_8_bit() {
    let stereo = hound::WavSpec { channels: 2, sample_rate: 1000, bits_per_sample: 16, sample_format: hound::SampleFormat::Int };
    let wav = wav_with(stereo, |w| {
        w.write_sample(1i16).expect("sample");
        w.write_sample(2i16).expect("sample");
    });
    assert!(matches!(decode_wav_bytes_to_pcm16_mono(&wav), Err(TtsError::NotImplemented(_))));
    assert!(matches!(decode_wav_bytes_to_pcm16_mono(b"RIFF"), Err(TtsError::Io(_))));
    let eight = hound::WavSpec { channels: 1, sample_rate: 1000, bits_per_sample: 8, sample_format: hound::SampleFormat::Int };
    let wav = wav_with(eight, |w| {
        w.write_sample(3i8).expect("sample");
    });
    assert!(matches!(decode_wav_bytes_to_pcm16_mono(&wav), Err(TtsError::NotImplemented(_))));
}

#[test]
fn sample_conversion_rounds_toward_zero() {
    assert_eq!(sample_i32_to_i16_exec(65535), 0);
    assert_eq!(sample_i32_to_i16_exec(-65535), 0);
    assert_eq!(sample_i32_to_i16_exec(-65536), -1);
    assert_eq!(samples_i32_to_i16(&[196608, -196609]), vec![3, -3]);
}

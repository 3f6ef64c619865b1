use piper::error::PiperError;
use piper::phonemes::Phonemes;
use piper::wave::{sample_bytes, PiperWaveSamples};
use piper::wave_writer::{write_wave_samples_to_buffer, WaveWriterError, WAVE_HEADER_LEN};
use piper::synth::wave_buffer_of;
use piper::wave::PiperWaveInfo;

#[test]
fn new_samples_are_mono_sixteen_bit() {
    let ws = PiperWaveSamples::new(vec![1, 2, 3], 22050, Some(12));
    assert_eq!(ws.info.sample_rate, 22050);
    assert_eq!(ws.info.num_channels, 1);
    assert_eq!(ws.info.sample_width, 2);
    assert_eq!(ws.len(), 3);
    assert!(!ws.is_empty());
    assert_eq!(ws.inference_ms(), Some(12));
    assert_eq!(ws.to_vec(), vec![1, 2, 3]);
    assert!(PiperWaveSamples::new(Vec::new(), 22050, None).is_empty());
}

#[test]
fn wave_bytes_are_little_endian() {
    let ws = PiperWaveSamples::new(vec![1, -2, 256, i16::MIN, i16::MAX], 16000, None);
    assert_eq!(ws.as_wave_bytes(), vec![1, 0, 0xfe, 0xff, 0, 1, 0, 0x80, 0xff, 0x7f]);
    assert_eq!(sample_bytes(&Vec::new()), Vec::<u8>::new());
}

#[test]
fn wave_bytes_agree_with_std() {
    let samples: Vec<i16> = (-300..300).map(|i| (i * 109) as i16).collect();
    let expected: Vec<u8> = samples.iter().flat_map(|s| s.to_le_bytes()).collect();
    assert_eq!(sample_bytes(&samples), expected);
}

#[test]
fn duration_is_samples_over_rate() {
    let ws = PiperWaveSamples::new(vec![0; 22050], 22050, None);
    let d = ws.duration_ms();
    assert_eq!(d.num, 22_050_000);
    assert_eq!(d.den, 22050);
    assert_eq!(d.num as f32 / d.den as f32, 1000.0);
    let one = PiperWaveSamples::new(vec![7], 48000, None).duration_ms();
    assert!(one.num > 0);
    let none = PiperWaveSamples::new(Vec::new(), 48000, None).duration_ms();
    assert_eq!(none.num, 0);
}

#[test]
fn real_time_factor_is_inference_over_duration() {
    let ws = PiperWaveSamples::new(vec![0; 22050], 22050, Some(500));
    let f = ws.real_time_factor().unwrap();
    assert_eq!(f.num, 11_025_000);
    assert_eq!(f.den, 22_050_000);
    assert_eq!(f.num as f32 / f.den as f32, 0.5);
    assert!(PiperWaveSamples::new(vec![0; 10], 22050, None).real_time_factor().is_none());
    let silent = PiperWaveSamples::new(Vec::new(), 22050, Some(9)).real_time_factor().unwrap();
    assert_eq!((silent.num, silent.den), (0, 1));
}

#[test]
fn wave_container_of_two_samples() {
    let bytes = write_wave_samples_to_buffer(&vec![1, -1], 22050, 1, 2).unwrap();
    let expected: Vec<u8> = vec![
        0x52, 0x49, 0x46, 0x46, 40, 0, 0, 0, 0x57, 0x41, 0x56, 0x45, 0x66, 0x6d, 0x74, 0x20, 16,
        0, 0, 0, 1, 0, 1, 0, 0x22, 0x56, 0, 0, 0x44, 0xac, 0, 0, 2, 0, 16, 0, 0x64, 0x61, 0x74,
        0x61, 4, 0, 0, 0, 1, 0, 0xff, 0xff,
    ];
    assert_eq!(bytes, expected);
}

#[test]
fn wave_container_reads_back() {
    let samples: Vec<i16> = vec![0, 1, -1, 12345, -12345, i16::MAX, i16::MIN];
    let bytes = write_wave_samples_to_buffer(&samples, 16000, 1, 2).unwrap();
    assert_eq!(bytes.len(), WAVE_HEADER_LEN + 2 * samples.len());
    let rate = u32::from_le_bytes([bytes[24], bytes[25], bytes[26], bytes[27]]);
    assert_eq!(rate, 16000);
    assert_eq!(u16::from_le_bytes([bytes[22], bytes[23]]), 1);
    assert_eq!(u16::from_le_bytes([bytes[34], bytes[35]]), 16);
    let back: Vec<i16> = bytes[WAVE_HEADER_LEN..]
        .chunks(2)
        .map(|p| i16::from_le_bytes([p[0], p[1]]))
        .collect();
    assert_eq!(back, samples);
}

#[test]
fn wave_container_of_no_samples_is_a_header() {
    let bytes = write_wave_samples_to_buffer(&Vec::new(), 22050, 1, 2).unwrap();
    assert_eq!(bytes.len(), 44);
    assert_eq!(&bytes[40..44], &[0, 0, 0, 0]);
}

#[test]
fn unsupported_formats_are_refused() {
    let samples: Vec<i16> = vec![1, 2];
    assert!(matches!(
        write_wave_samples_to_buffer(&samples, 22050, 1, 1),
        Err(WaveWriterError::UnsupportedFormat)
    ));
    assert!(matches!(
        write_wave_samples_to_buffer(&samples, 22050, 0, 2),
        Err(WaveWriterError::UnsupportedFormat)
    ));
    assert!(matches!(
        write_wave_samples_to_buffer(&samples, 22050, 0x8000, 2),
        Err(WaveWriterError::UnsupportedFormat)
    ));
    assert!(matches!(
        write_wave_samples_to_buffer(&samples, u32::MAX, 2, 2),
        Err(WaveWriterError::UnsupportedFormat)
    ));
    assert!(write_wave_samples_to_buffer(&samples, u32::MAX / 2, 1, 2).is_ok());
}

#[test]
fn writer_errors_become_operation_errors() {
    match PiperError::from(WaveWriterError::UnsupportedFormat) {
        PiperError::OperationError(m) => assert_eq!(m, "Unsupported wave format"),
        _ => panic!("a writer failure is an operation error"),
    }
    match PiperError::from(WaveWriterError::DataTooLong) {
        PiperError::OperationError(m) => assert_eq!(m, "Too many samples for a wave container"),
        _ => panic!("a writer failure is an operation error"),
    }
    assert_eq!(WaveWriterError::DataTooLong.message(), "Too many samples for a wave container");
}

#[test]
fn wave_buffer_of_samples_and_format() {
    let info = PiperWaveInfo { sample_rate: 22050, num_channels: 1, sample_width: 2 };
    let bytes = wave_buffer_of(&vec![1, -1], &info).unwrap();
    assert_eq!(bytes, write_wave_samples_to_buffer(&vec![1, -1], 22050, 1, 2).unwrap());
    let odd = PiperWaveInfo { sample_rate: 22050, num_channels: 1, sample_width: 3 };
    match wave_buffer_of(&vec![1, -1], &odd) {
        Err(PiperError::OperationError(m)) => assert_eq!(m, "Unsupported wave format"),
        _ => panic!("three bytes per sample are not supported"),
    }
    let huge = PiperWaveInfo { sample_rate: usize::MAX, num_channels: 1, sample_width: 2 };
    assert!(matches!(wave_buffer_of(&vec![1], &huge), Err(PiperError::OperationError(_))));
}

#[test]
fn error_messages() {
    assert_eq!(
        PiperError::FailedToLoadResource("x.json".to_string()).message(),
        "Failed to load resource from. Error `x.json`"
    );
    assert_eq!(PiperError::PhonemizationError("bad".to_string()).message(), "bad");
    assert_eq!(PiperError::OperationError("worse".to_string()).message(), "worse");
    match PiperError::operation("no") {
        PiperError::OperationError(m) => assert_eq!(m, "no"),
        _ => panic!("an operation error"),
    }
}

#[test]
fn phonemes_hold_sentences_in_order() {
    let p = Phonemes::from(vec!["ab".to_string(), "c".to_string(), "de".to_string()]);
    assert_eq!(p.num_sentences(), 3);
    assert_eq!(p.sentences(), &vec!["ab".to_string(), "c".to_string(), "de".to_string()]);
    assert_eq!(p.to_string(), "ab c de");
    assert_eq!(p.to_vec(), vec!["ab".to_string(), "c".to_string(), "de".to_string()]);
    assert_eq!(Phonemes(Vec::new()).to_string(), "");
    assert_eq!(Phonemes(vec!["x".to_string()]).to_string(), "x");
    assert_eq!(Phonemes(vec!["".to_string(), "y".to_string()]).to_string(), " y");
}

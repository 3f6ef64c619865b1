use piper::error::PiperError;
use piper::phonemize::{SentenceAssembler, TerminatorKind};
use piper::voice::{
    kept_samples, longest_row, pad_rows, PhonemeIds, PhonemeType, RuntimeVoiceState, Speaker,
    VoiceConfig,
};

fn voice(num_speakers: usize) -> VoiceConfig {
    let speakers = if num_speakers > 1 {
        vec![
            Speaker { name: "default".to_string(), id: 0 },
            Speaker { name: "whisper".to_string(), id: 1 },
        ]
    } else {
        Vec::new()
    };
    VoiceConfig {
        phoneme_id_map: vec![
            PhonemeIds { phoneme: '_', ids: vec![0] },
            PhonemeIds { phoneme: '^', ids: vec![1] },
            PhonemeIds { phoneme: '$', ids: vec![2] },
            PhonemeIds { phoneme: 'a', ids: vec![10] },
            PhonemeIds { phoneme: 'b', ids: vec![11, 12] },
            PhonemeIds { phoneme: 'ɛ', ids: vec![61] },
        ],
        speaker_id_map: speakers,
        sample_rate: 22050,
        num_speakers,
        pad_token_id: 0,
        bos_token_id: 1,
        eos_token_id: 2,
        noise_scale: 0.667f32.to_bits(),
        length_scale: 1.0f32.to_bits(),
        noise_w_scale: 0.8f32.to_bits(),
        phoneme_type: PhonemeType::Ipa,
    }
}

#[test]
fn wave_info_of_a_voice() {
    let info = voice(1).wave_info();
    assert_eq!(info.sample_rate, 22050);
    assert_eq!(info.num_channels, 1);
    assert_eq!(info.sample_width, 2);
}

#[test]
fn a_complete_description_is_valid() {
    assert!(voice(1).validate().is_ok());
    assert!(voice(2).validate().is_ok());
}

#[test]
fn incomplete_descriptions_fail_to_load() {
    let mut no_rate = voice(1);
    no_rate.sample_rate = 0;
    assert!(matches!(no_rate.validate(), Err(PiperError::FailedToLoadResource(_))));
    let mut no_table = voice(1);
    no_table.phoneme_id_map = Vec::new();
    assert!(matches!(no_table.validate(), Err(PiperError::FailedToLoadResource(_))));
    let mut no_pad = voice(1);
    no_pad.pad_token_id = 99;
    assert!(matches!(no_pad.validate(), Err(PiperError::FailedToLoadResource(_))));
    let mut no_bos = voice(1);
    no_bos.bos_token_id = -1;
    assert!(matches!(no_bos.validate(), Err(PiperError::FailedToLoadResource(_))));
    let mut no_eos = voice(1);
    no_eos.eos_token_id = 13;
    assert!(matches!(no_eos.validate(), Err(PiperError::FailedToLoadResource(_))));
}

#[test]
fn phonemes_are_encoded_with_pads_between() {
    let v = voice(1);
    assert_eq!(v.phonemes_to_ids("ab"), vec![1, 10, 0, 11, 12, 2]);
    assert_eq!(v.phonemes_to_ids("aɛa"), vec![1, 10, 0, 61, 0, 10, 2]);
    assert_eq!(v.phonemes_to_ids("a"), vec![1, 10, 2]);
    assert_eq!(v.phonemes_to_ids(""), vec![1, 2]);
}

#[test]
fn unknown_phonemes_are_dropped() {
    let v = voice(1);
    assert_eq!(v.phonemes_to_ids("xaxxbx"), vec![1, 10, 0, 11, 12, 2]);
    assert_eq!(v.phonemes_to_ids("xyz"), vec![1, 2]);
    assert!(v.phoneme_ids('x').is_none());
    assert_eq!(v.phoneme_ids('b'), Some(&vec![11, 12]));
}

#[test]
fn rows_are_padded_to_the_longest() {
    let rows = vec![vec![1, 2, 3], vec![4], Vec::new(), vec![5, 6, 7]];
    assert_eq!(longest_row(&rows), 3);
    assert_eq!(
        pad_rows(&rows, 9),
        vec![vec![1, 2, 3], vec![4, 9, 9], vec![9, 9, 9], vec![5, 6, 7]]
    );
    assert_eq!(longest_row(&Vec::new()), 0);
    assert_eq!(pad_rows(&Vec::new(), 0), Vec::<Vec<i64>>::new());
}

#[test]
fn the_share_of_the_padding_is_trimmed() {
    assert_eq!(kept_samples(1000, 10, 5), 500);
    assert_eq!(kept_samples(7, 3, 2), 5);
    assert_eq!(kept_samples(1000, 10, 10), 1000);
    assert_eq!(kept_samples(1000, 0, 0), 1000);
    assert_eq!(kept_samples(0, 10, 1), 0);
    assert_eq!(kept_samples(usize::MAX, usize::MAX, 1), 1);
}

#[test]
fn an_unknown_speaker_leaves_the_state() {
    let v = voice(2);
    let mut state = RuntimeVoiceState::new(&v);
    assert_eq!(state.selected_speaker_id, Some(0));
    assert!(state.set_speaker(&v, &"whisper".to_string()).is_ok());
    assert_eq!(state.selected_speaker_id, Some(1));
    assert!(matches!(
        state.set_speaker(&v, &"drunk".to_string()),
        Err(PiperError::OperationError(_))
    ));
    assert_eq!(state.selected_speaker_id, Some(1));
    assert!(state.set_speaker(&v, &"default".to_string()).is_ok());
    assert_eq!(state.selected_speaker_id, Some(0));
    assert_eq!(v.speakers().len(), 2);
    assert_eq!(v.speakers()[1].name, "whisper");
    assert_eq!(v.speaker_id(&"whisper".to_string()), Some(1));
    assert_eq!(v.speaker_id(&"drunk".to_string()), None);
}

#[test]
fn a_single_speaker_voice_has_no_speaker_to_select() {
    let v = voice(1);
    let mut state = RuntimeVoiceState::new(&v);
    assert!(v.speakers().is_empty());
    assert_eq!(state.selected_speaker_id, None);
    assert!(matches!(
        state.set_speaker(&v, &"default".to_string()),
        Err(PiperError::OperationError(_))
    ));
    assert_eq!(state.selected_speaker_id, None);
}

#[test]
fn scales_must_be_finite_and_positive() {
    let v = voice(1);
    let mut state = RuntimeVoiceState::new(&v);
    for bad in [-1.0f32, 0.0, -0.0, f32::NAN, f32::INFINITY, f32::NEG_INFINITY] {
        assert!(matches!(
            state.set_length_scale(bad.to_bits()),
            Err(PiperError::OperationError(_))
        ));
        assert!(matches!(state.set_noise_scale(bad.to_bits()), Err(PiperError::OperationError(_))));
        assert!(matches!(
            state.set_noise_w_scale(bad.to_bits()),
            Err(PiperError::OperationError(_))
        ));
    }
    assert_eq!(f32::from_bits(state.length_scale), 1.0);
    assert_eq!(f32::from_bits(state.noise_scale), 0.667);
    assert_eq!(f32::from_bits(state.noise_w_scale), 0.8);
    assert!(state.set_length_scale(1.5f32.to_bits()).is_ok());
    assert_eq!(f32::from_bits(state.length_scale), 1.5);
    assert!(state.set_noise_scale(f32::MIN_POSITIVE.to_bits()).is_ok());
    assert!(state.set_noise_w_scale(f32::MAX.to_bits()).is_ok());
    assert_eq!(f32::from_bits(state.noise_w_scale), f32::MAX);
}

#[test]
fn setting_a_scale_twice_is_setting_it_once() {
    let v = voice(2);
    let mut once = RuntimeVoiceState::new(&v);
    let mut twice = RuntimeVoiceState::new(&v);
    assert!(once.set_length_scale(1.5f32.to_bits()).is_ok());
    assert!(twice.set_length_scale(1.5f32.to_bits()).is_ok());
    assert!(twice.set_length_scale(1.5f32.to_bits()).is_ok());
    assert_eq!(once.length_scale, twice.length_scale);
    assert_eq!(once.noise_scale, twice.noise_scale);
    assert_eq!(once.noise_w_scale, twice.noise_w_scale);
    assert_eq!(once.selected_speaker_id, twice.selected_speaker_id);
}

#[test]
fn sentences_are_assembled_from_runs() {
    let mut a = SentenceAssembler::new();
    a.push("hɛ", TerminatorKind::ClauseBreak);
    a.push("loʊ", TerminatorKind::SentenceBreak);
    a.push("", TerminatorKind::SentenceBreak);
    a.push("wɜːld", TerminatorKind::ParagraphBreak);
    a.push("ɛnd", TerminatorKind::EndOfInput);
    a.push("", TerminatorKind::EndOfInput);
    let p = a.into_phonemes();
    assert_eq!(p.to_vec(), vec!["hɛ loʊ".to_string(), "wɜːld".to_string(), "ɛnd".to_string()]);
}

#[test]
fn an_open_sentence_is_not_handed_out() {
    let mut a = SentenceAssembler::new();
    a.push("a", TerminatorKind::SentenceBreak);
    a.push("b", TerminatorKind::ClauseBreak);
    assert_eq!(a.into_phonemes().to_vec(), vec!["a".to_string()]);
    assert_eq!(SentenceAssembler::new().into_phonemes().num_sentences(), 0);
}

#[test]
fn a_batch_is_encoded_row_by_row_and_padded() {
    let v = voice(1);
    let batch = v.encode_batch(&vec!["ab".to_string(), "a".to_string(), String::new()]);
    assert_eq!(
        batch.rows,
        vec![vec![1, 10, 0, 11, 12, 2], vec![1, 10, 2, 0, 0, 0], vec![1, 2, 0, 0, 0, 0]]
    );
    assert_eq!(batch.lengths, vec![6, 3, 2]);
    let none = v.encode_batch(&Vec::new());
    assert!(none.rows.is_empty());
    assert!(none.lengths.is_empty());
}

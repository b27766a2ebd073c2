use video_processor::{
    downmix, first_audio_track, resample, to_target_rate, AppError, DecodeAction, DecodeSession,
    PacketEvent, TrackInfo, TARGET_SAMPLE_RATE,
};

fn mean(frame: &Vec<f32>) -> f32 {
    frame.iter().sum::<f32>() / frame.len() as f32
}

#[test]
fn mono_target_rate_buffer_is_unchanged() {
    let samples: Vec<f32> = vec![0.25, -0.5, 0.75, 1.0, -1.0];
    let out = to_target_rate(samples.clone(), Some(16000)).unwrap();
    assert_eq!(out, samples);
    assert_eq!(TARGET_SAMPLE_RATE, 16000);
}

#[test]
fn opposite_stereo_channels_downmix_to_silence() {
    let samples: Vec<f32> = vec![1.0, 1.0, 1.0, 1.0, -1.0, -1.0, -1.0, -1.0];
    let out = downmix(&samples, 2, mean);
    assert_eq!(out, vec![0.0f32; 4]);
}

#[test]
fn downmix_reads_channels_one_after_the_other() {
    let samples: Vec<f32> = vec![0.0, 3.0, 6.0, 9.0, 1.0, 4.0, 7.0, 10.0, 2.0, 5.0, 8.0, 11.0, 99.0];
    let out = downmix(&samples, 3, mean);
    assert_eq!(out, vec![1.0f32, 4.0, 7.0, 10.0]);
}

#[test]
fn eight_khz_doubles_in_length() {
    let samples: Vec<f32> = vec![0.1, 0.2, 0.3, 0.4, 0.5];
    let out = to_target_rate(samples.clone(), Some(8000)).unwrap();
    assert_eq!(out.len(), 10);
    for (i, v) in out.iter().enumerate() {
        assert_eq!(*v, samples[i / 2]);
    }
}

#[test]
fn downsampling_picks_nearest_earlier_sample() {
    let samples: Vec<u32> = (0..441).collect();
    let out = resample(&samples, 44100, 16000);
    assert_eq!(out.len(), 160);
    for (i, v) in out.iter().enumerate() {
        assert_eq!(*v as usize, i * 44100 / 16000);
    }
    assert!(resample(&Vec::<u32>::new(), 8000, 16000).is_empty());
}

#[test]
fn unknown_rate_is_taken_as_target() {
    let samples: Vec<f32> = vec![0.5, 0.25];
    assert_eq!(to_target_rate(samples.clone(), None).unwrap(), samples);
}

#[test]
fn zero_rate_is_a_decode_error() {
    let r = to_target_rate(vec![0.5f32], Some(0));
    assert!(matches!(r, Err(AppError::DecodeError(_))));
}

#[test]
fn no_recognized_track_is_unsupported() {
    let tracks = vec![TrackInfo { id: 1, has_codec: false }, TrackInfo { id: 2, has_codec: false }];
    assert!(matches!(first_audio_track(&tracks), Err(AppError::UnsupportedFormat(_))));
    assert!(matches!(first_audio_track(&Vec::new()), Err(AppError::UnsupportedFormat(_))));
}

#[test]
fn first_recognized_track_is_chosen() {
    let tracks = vec![
        TrackInfo { id: 7, has_codec: false },
        TrackInfo { id: 3, has_codec: true },
        TrackInfo { id: 4, has_codec: true },
    ];
    assert_eq!(first_audio_track(&tracks).unwrap(), 1);
}

#[test]
fn decode_session_skips_other_tracks_and_builds_converter_once() {
    let mut s = DecodeSession::new(3);
    assert!(matches!(s.step(PacketEvent::Packet { track_id: 9 }), DecodeAction::Skip));
    assert!(matches!(s.step(PacketEvent::Packet { track_id: 3 }), DecodeAction::Decode));
    assert!(matches!(s.step(PacketEvent::Decoded), DecodeAction::CreateConverterAndAppend));
    assert!(s.converter_ready);
    assert!(matches!(s.step(PacketEvent::Packet { track_id: 3 }), DecodeAction::Decode));
    assert!(matches!(s.step(PacketEvent::Decoded), DecodeAction::Append));
    match s.step(PacketEvent::DecodeFailed { cause: "bad frame".to_string() }) {
        DecodeAction::ReportAndSkip { cause } => assert_eq!(cause, "bad frame"),
        _ => panic!("a corrupt packet is skipped"),
    }
    assert!(matches!(s.step(PacketEvent::EndOfStream), DecodeAction::Finish));
}

#[test]
fn decode_session_fails_on_read_error() {
    let mut s = DecodeSession::new(1);
    match s.step(PacketEvent::ReadFailed { cause: "broken".to_string() }) {
        DecodeAction::Fail(AppError::DecodeError(m)) => assert_eq!(m, "broken"),
        _ => panic!("a read failure is fatal"),
    }
    assert!(!s.converter_ready);
}

use padmix::command::{
    dispatch, from_decode_error, handle, play_decoded, play_file, Action, Command, EngineError,
};
use padmix::decode::DecodeError;
use padmix::event::{Event, EventQueue};
use padmix::mixer::Mixer;
use padmix::peaks::WaveformSummary;

fn mono_wav(sample_rate: u32, samples: &[i16]) -> Vec<u8> {
    let spec = hound::WavSpec {
        channels: 1,
        sample_rate,
        bits_per_sample: 16,
        sample_format: hound::SampleFormat::Int,
    };
    let mut cursor = std::io::Cursor::new(Vec::new());
    {
        let mut writer = hound::WavWriter::new(&mut cursor, spec).unwrap();
        for s in samples {
            writer.write_sample(*s).unwrap();
        }
        writer.finalize().unwrap();
    }
    cursor.into_inner()
}

#[test]
fn stop_and_volume_take_effect_at_once() {
    let mut mixer = Mixer::new();
    mixer.play(1, vec![1, 2, 3], 65536);
    assert!(matches!(dispatch(&mut mixer, Command::SetMasterVolume { volume: 98304 }), Action::Done));
    assert_eq!(mixer.master_volume(), 65536);
    assert!(matches!(dispatch(&mut mixer, Command::SetMasterVolume { volume: -13107 }), Action::Done));
    assert_eq!(mixer.master_volume(), 0);
    assert!(matches!(dispatch(&mut mixer, Command::Stop { pad_id: 1 }), Action::Done));
    assert_eq!(mixer.active_count(), 0);
    assert!(matches!(dispatch(&mut mixer, Command::Stop { pad_id: 1 }), Action::Done));
    assert_eq!(mixer.active_count(), 0);
}

#[test]
fn play_and_load_ask_for_the_file() {
    let mut mixer = Mixer::new();
    let play = Command::Play {
        pad_id: 4,
        file_path: String::from("kick.wav"),
        volume: 32768,
        pan: -65536,
    };
    match dispatch(&mut mixer, play) {
        Action::ReadAndPlay { pad_id, file_path, volume } => {
            assert_eq!(pad_id, 4);
            assert_eq!(file_path, "kick.wav");
            assert_eq!(volume, 32768);
        },
        other => panic!("unexpected action {:?}", other),
    }
    assert_eq!(mixer.active_count(), 0);
    let load = Command::Load { pad_id: 5, file_path: String::from("snare.wav") };
    match dispatch(&mut mixer, load) {
        Action::ReadAndSummarize { pad_id, file_path } => {
            assert_eq!(pad_id, 5);
            assert_eq!(file_path, "snare.wav");
        },
        other => panic!("unexpected action {:?}", other),
    }
    assert_eq!(mixer.active_count(), 0);
    assert_eq!(mixer.master_volume(), 65536);
}

#[test]
fn malformed_message_changes_nothing() {
    let mut mixer = Mixer::new();
    mixer.play(1, vec![1, 2, 3], 65536);
    mixer.set_master_volume(100);
    assert!(matches!(handle(&mut mixer, None), Err(EngineError::MalformedCommand)));
    assert_eq!(mixer.active_count(), 1);
    assert_eq!(mixer.master_volume(), 100);
    assert!(matches!(handle(&mut mixer, Some(Command::Stop { pad_id: 1 })), Ok(Action::Done)));
    assert_eq!(mixer.active_count(), 0);
}

#[test]
fn play_file_installs_the_decoded_voice() {
    let mut mixer = Mixer::new();
    let bytes = mono_wav(48000, &[16384, -16384, 8192, 0]);
    assert_eq!(play_file(&mut mixer, 3, Some(bytes), 32768, 24000), Ok(()));
    assert_eq!(mixer.active_count(), 1);
    assert_eq!(mixer.pad_at(0), 3);
    let voice = mixer.voice(3).unwrap();
    assert_eq!(voice.samples, vec![1 << 30, 1 << 29]);
    assert_eq!(voice.volume, 32768);
    assert_eq!(voice.position, 0);
    assert!(voice.playing);
}

#[test]
fn missing_file_leaves_the_table_untouched() {
    let mut mixer = Mixer::new();
    mixer.play(3, vec![9, 9], 65536);
    assert_eq!(play_file(&mut mixer, 3, None, 65536, 44100), Err(EngineError::FileNotFound));
    assert_eq!(mixer.active_count(), 1);
    assert_eq!(mixer.voice(3).unwrap().samples, vec![9, 9]);
}

#[test]
fn undecodable_file_installs_no_voice() {
    let mut mixer = Mixer::new();
    assert_eq!(
        play_file(&mut mixer, 3, Some(vec![0u8; 64]), 65536, 44100),
        Err(EngineError::Unreadable)
    );
    assert_eq!(mixer.active_count(), 0);
    assert_eq!(
        play_decoded(&mut mixer, 3, Err(DecodeError::UnsupportedFormat), 65536),
        Err(EngineError::UnsupportedFormat)
    );
    assert_eq!(mixer.active_count(), 0);
    assert_eq!(play_decoded(&mut mixer, 3, Ok(vec![1, 2]), 7), Ok(()));
    assert_eq!(mixer.voice(3).unwrap().samples, vec![1, 2]);
    assert_eq!(mixer.voice(3).unwrap().volume, 7);
}

#[test]
fn decoder_errors_map_to_engine_errors() {
    assert_eq!(from_decode_error(DecodeError::Unreadable), EngineError::Unreadable);
    assert_eq!(from_decode_error(DecodeError::UnsupportedFormat), EngineError::UnsupportedFormat);
}

#[test]
fn events_leave_in_the_order_they_came() {
    let mut queue = EventQueue::new();
    queue.emit(Event::FileDropped { path: String::from("a.wav"), x: 10, y: 20 });
    queue.complete_load(Ok(WaveformSummary { pad_id: 1, peaks: vec![1, 2], duration_micros: 5 }));
    queue.complete_load(Err(DecodeError::UnsupportedFormat));
    queue.emit(Event::FileDropped { path: String::from("b.wav"), x: -1, y: 0 });
    let events = queue.drain();
    assert_eq!(events.len(), 3);
    match &events[0] {
        Event::FileDropped { path, x, y } => {
            assert_eq!(path, "a.wav");
            assert_eq!((*x, *y), (10, 20));
        },
        other => panic!("unexpected event {:?}", other),
    }
    match &events[1] {
        Event::WaveformReady(summary) => {
            assert_eq!(summary.pad_id, 1);
            assert_eq!(summary.peaks, vec![1, 2]);
            assert_eq!(summary.duration_micros, 5);
        },
        other => panic!("unexpected event {:?}", other),
    }
    match &events[2] {
        Event::FileDropped { path, .. } => assert_eq!(path, "b.wav"),
        other => panic!("unexpected event {:?}", other),
    }
    assert_eq!(queue.drain().len(), 0);
}

use multichannel_audio::audio_class::{AudioError, AudioInstance};
use multichannel_audio::sample_rates::SampleRate;
use multichannel_audio::stream_controller::{input_callback, OutputCallback};
use multichannel_audio::time_align::tile_signal;

fn instance(outputs: u16, inputs: u16) -> AudioInstance {
    AudioInstance::with_channels(Some(SampleRate::SR48000), None, outputs, inputs)
}

#[test]
fn test_assemble_signal_with_loopback() {
    let audio_instance = instance(2, 2);
    let training_signal = vec![1, 2, 3, 4, 5];
    let duration = 5;
    let training_channel = 1;
    let timing_output = 2;
    let fs = 48000;
    let number_of_output_channels = 2;
    let chirp = vec![7, 8, 9];

    let result = audio_instance
        .assemble_signal_with_loopback(
            &training_signal,
            duration,
            training_channel,
            timing_output,
            fs,
            number_of_output_channels,
            &chirp,
        )
        .unwrap();

    assert_eq!(result.len(), 2);
    assert_eq!(result[0].len(), 24000 + chirp.len() + 240000);
    assert_eq!(result[1].len(), 24000 + chirp.len() + 240000);
}

#[test]
fn assembled_segments_stand_on_their_channels() {
    let audio_instance = instance(3, 2);
    let training_signal = vec![1, 2, 3, 4, 5];
    let chirp = vec![7, 8, 9];
    let result = audio_instance
        .assemble_signal_with_loopback(&training_signal, 1, 1, 3, 48000, 3, &chirp)
        .unwrap();
    assert_eq!(result.len(), 3);
    let gap = 24000;
    for channel in result.iter() {
        assert_eq!(channel.len(), gap + 3 + 48000);
        assert!(channel[..gap].iter().all(|&s| s == 0));
    }
    // the chirp stands on the timing channel only
    assert_eq!(&result[2][gap..gap + 3], &[7, 8, 9]);
    assert_eq!(&result[0][gap..gap + 3], &[0, 0, 0]);
    assert_eq!(&result[1][gap..gap + 3], &[0, 0, 0]);
    // the training signal is repeated on the training channel only
    let payload = &result[0][gap + 3..];
    for (i, &sample) in payload.iter().enumerate() {
        assert_eq!(sample, training_signal[i % 5]);
    }
    assert!(result[1].iter().all(|&s| s == 0));
    assert!(result[2][gap + 3..].iter().all(|&s| s == 0));
}

#[test]
fn assembled_signal_with_shared_channel_and_no_payload() {
    let audio_instance = instance(1, 1);
    let result = audio_instance
        .assemble_signal_with_loopback(&vec![], 0, 1, 1, 44100, 1, &vec![4, 5])
        .unwrap();
    assert_eq!(result.len(), 1);
    assert_eq!(result[0].len(), 22050 + 2);
    assert_eq!(&result[0][22050..], &[4, 5]);
}

#[test]
fn long_training_signal_is_cut_to_the_payload() {
    let audio_instance = instance(1, 1);
    let training: Vec<i32> = (0..50000).collect();
    let result = audio_instance
        .assemble_signal_with_loopback(&training, 1, 1, 1, 48000, 1, &vec![])
        .unwrap();
    assert_eq!(result[0].len(), 24000 + 48000);
    assert_eq!(result[0][24000], 0);
    assert_eq!(result[0][24000 + 47999], 47999);
}

#[test]
fn tile_signal_repeats_from_the_start() {
    assert_eq!(tile_signal(&vec![1, 2, 3], 7), vec![1, 2, 3, 1, 2, 3, 1]);
    assert_eq!(tile_signal(&vec![1, 2, 3], 2), vec![1, 2]);
    assert_eq!(tile_signal(&vec![], 0), Vec::<i32>::new());
}

fn single_peak(len: usize, k: usize, value: i32) -> Vec<i32> {
    let mut loopback = vec![0; len];
    loopback[k] = value;
    loopback
}

#[test]
fn find_start_single_peak() {
    let audio_instance = instance(2, 2);
    for &k in [24001usize, 30000, 95999, 96000].iter() {
        let loopback = single_peak(100000, k, i32::MAX);
        assert_eq!(audio_instance.find_start(&loopback), Ok(k + 15));
    }
}

#[test]
fn find_start_peak_at_the_end_of_the_noise_window() {
    let audio_instance = instance(2, 2);
    let loopback = single_peak(30000, 24000, 10);
    assert_eq!(audio_instance.find_start(&loopback), Ok(24015));
    let loopback = single_peak(30000, 23999, i32::MAX);
    assert_eq!(
        audio_instance.find_start(&loopback),
        Err(AudioError::CorruptedTimingSignal)
    );
}

#[test]
fn find_start_takes_the_last_sample_over_a_fifth_of_the_peak() {
    let audio_instance = instance(2, 2);
    let mut loopback = vec![0; 50000];
    loopback[25000] = 1000;
    loopback[26000] = 200; // exactly one fifth
    loopback[27000] = 199; // just below
    loopback[10] = i32::MAX; // inside the noise window
    loopback[28000] = -5000;
    assert_eq!(audio_instance.find_start(&loopback), Ok(26015));
    loopback[27000] = 201;
    assert_eq!(audio_instance.find_start(&loopback), Ok(27015));
}

#[test]
fn find_start_late_trigger_is_corrupted() {
    let audio_instance = instance(2, 2);
    let loopback = single_peak(100000, 96001, i32::MAX);
    assert_eq!(
        audio_instance.find_start(&loopback),
        Err(AudioError::CorruptedTimingSignal)
    );
    let mut loopback = single_peak(100000, 30000, 1000);
    loopback[99000] = 200;
    assert_eq!(
        audio_instance.find_start(&loopback),
        Err(AudioError::CorruptedTimingSignal)
    );
}

#[test]
fn find_start_without_trigger_is_corrupted() {
    let audio_instance = instance(2, 2);
    for loopback in [vec![], vec![5; 24000], vec![0; 50000], vec![-3; 50000]] {
        assert_eq!(
            audio_instance.find_start(&loopback),
            Err(AudioError::CorruptedTimingSignal)
        );
    }
}

#[test]
fn align_drops_the_start_from_every_channel() {
    let audio_instance = instance(2, 3);
    let len = 30000;
    let mut array: Vec<Vec<i32>> = vec![
        (0..len).collect(),
        single_peak(len as usize, 25000, 77),
        (0..len).map(|i| -i).collect(),
    ];
    let aligned = audio_instance.align_with_loopback(&mut array, 2).unwrap();
    assert_eq!(aligned.len(), 3);
    for channel in aligned.iter() {
        assert_eq!(channel.len(), 30000 - 25015);
    }
    assert_eq!(aligned[0][0], 25015);
    assert_eq!(aligned[0][4984], 29999);
    assert_eq!(aligned[2][1], -25016);
    assert!(aligned[1].iter().all(|&s| s == 0));
    assert_eq!(array, aligned);
}

#[test]
fn align_rejects_channel_zero_and_corrupted_signal() {
    let audio_instance = instance(2, 2);
    let mut array = vec![vec![1; 30000], single_peak(30000, 25000, 9)];
    let before = array.clone();
    assert_eq!(
        audio_instance.align_with_loopback(&mut array, 0),
        Err(AudioError::InvalidTimingChannel)
    );
    assert_eq!(array, before);
    let mut quiet = vec![vec![1; 30000], vec![0; 30000]];
    assert_eq!(
        audio_instance.align_with_loopback(&mut quiet, 2),
        Err(AudioError::CorruptedTimingSignal)
    );
    assert_eq!(quiet, vec![vec![1; 30000], vec![0; 30000]]);
}

#[test]
fn align_leaves_short_channels_empty() {
    let audio_instance = instance(2, 2);
    let mut array = vec![single_peak(24010, 24005, 9), vec![3; 24010]];
    let aligned = audio_instance.align_with_loopback(&mut array, 1).unwrap();
    assert_eq!(aligned, vec![Vec::<i32>::new(), Vec::<i32>::new()]);
}

/// Runs both callbacks until play and record are over, with every output
/// channel wired to the input channel of the same number and `latency`
/// frames between them.
fn run_loopback(instance: &mut AudioInstance, latency: usize, frames_per_call: usize) {
    let outputs = instance.number_of_output_channels as usize;
    let inputs = instance.number_of_input_channels as usize;
    let mut callback = OutputCallback::new();
    let mut line: Vec<i32> = vec![0; latency * inputs];
    let mut calls = 0;
    while instance.play_wait || instance.record_wait {
        let mut data = vec![0i32; frames_per_call * outputs];
        callback.fill(
            &mut instance.output_buffer,
            &mut instance.play_wait,
            &mut data[..],
        );
        for frame in data.chunks(outputs) {
            for c in 0..inputs {
                line.push(if c < outputs { frame[c] } else { 0 });
            }
        }
        let delivered: Vec<i32> = line.drain(..frames_per_call * inputs).collect();
        input_callback(
            &mut instance.input_buffer,
            &mut instance.record_wait,
            &delivered,
        );
        calls += 1;
        assert!(calls < 100000);
    }
}

#[test]
fn aligned_play_record_over_a_loopback() {
    let mut audio_instance = instance(2, 2);
    let training: Vec<i32> = (1..=48000).collect();
    let chirp = vec![0, 1000, 5000, i32::MAX / 2, 100];
    let latency = 700;
    audio_instance
        .aligned_play_record(training.clone(), 1, 2, 2, &chirp)
        .unwrap();
    assert_eq!(
        audio_instance.output_buffer.len(),
        (24000 + 5 + 48000) * 2
    );
    assert_eq!(audio_instance.input_buffer.capacity, (24000 + 5 + 48000) * 2);
    run_loopback(&mut audio_instance, latency, 512);
    assert!(!audio_instance.play_wait);
    assert!(!audio_instance.record_wait);
    assert!(audio_instance.output_buffer.is_empty());

    let recorded: Vec<Vec<i32>> = audio_instance.recorded_channels();
    assert_eq!(recorded.len(), 2);
    assert_eq!(recorded[0].len(), 24000 + 5 + 48000);
    assert_eq!(recorded[1][24000 + latency + 3], i32::MAX / 2);

    let aligned = audio_instance.aligned_recording(2).unwrap();
    let start = 24000 + latency + 3 + 15;
    assert_eq!(aligned.len(), 2);
    assert_eq!(aligned[0].len(), 24000 + 5 + 48000 - start);
    assert_eq!(aligned[1].len(), aligned[0].len());
    // the payload began 5 samples after the chirp began: 13 of its samples are cut
    for (i, &sample) in aligned[0].iter().enumerate() {
        assert_eq!(sample, training[i + 13]);
    }
    assert!(aligned[1].iter().all(|&s| s == 0));
    assert_eq!(
        audio_instance.aligned_recording(0),
        Err(AudioError::InvalidTimingChannel)
    );
}

#[test]
fn aligned_play_record_plays_the_whole_training_signal() {
    let mut audio_instance = instance(2, 1);
    let training: Vec<i32> = (1..=60000).collect();
    audio_instance
        .aligned_play_record(training, 2, 1, 2, &vec![9, 9])
        .unwrap();
    // gap, chirp and all 60000 samples of the training signal
    assert_eq!(audio_instance.output_buffer.len(), (24000 + 2 + 60000) * 2);
    assert_eq!(audio_instance.input_buffer.capacity, 24000 + 2 + 60000);
    assert_eq!(audio_instance.output_buffer[24000 * 2], 9);
    assert_eq!(audio_instance.output_buffer[24002 * 2 + 1], 1);
    assert_eq!(audio_instance.output_buffer[(24002 + 59999) * 2 + 1], 60000);
}

#[test]
fn aligned_play_record_of_less_than_a_second() {
    let mut audio_instance = instance(1, 1);
    audio_instance
        .aligned_play_record(vec![5, 6, 7], 1, 1, 1, &vec![9])
        .unwrap();
    assert_eq!(audio_instance.output_buffer.len(), 24000 + 1 + 3);
    assert_eq!(&audio_instance.output_buffer[24000..], &[9, 5, 6, 7]);
}

#[test]
fn assemble_signal_takes_a_length_in_samples() {
    let audio_instance = instance(2, 2);
    let result = audio_instance
        .assemble_signal(&vec![1, 2, 3], 7, 2, 1, 48000, 2, &vec![8])
        .unwrap();
    assert_eq!(&result[1][24001..], &[1, 2, 3, 1, 2, 3, 1]);
    assert_eq!(&result[0][24000..], &[8, 0, 0, 0, 0, 0, 0, 0]);
}

#[test]
fn aligned_play_record_checks_the_channel_count() {
    let mut audio_instance = instance(2, 2);
    let result = audio_instance.aligned_play_record(vec![1; 48000], 1, 2, 6, &vec![1]);
    assert_eq!(
        result,
        Err(AudioError::ChannelCountMismatch {
            expected: 2,
            actual: 6
        })
    );
    assert!(audio_instance.output_buffer.is_empty());
    assert!(!audio_instance.record_wait);
}

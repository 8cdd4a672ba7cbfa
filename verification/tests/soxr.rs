use media_soxr::DataType;
use media_soxr::Packed;
use media_soxr::Planar;
use media_soxr::SampleBuffer;
use media_soxr::SampleBufferMut;
use media_soxr::Soxr;

#[test]
fn test_version() {
    let version = Soxr::<Packed<i32>, Packed<i32>>::version();
    println!("soxr version: {}", version);
    assert!(!version.is_empty());
}

#[test]
fn test_new() {
    let soxr = Soxr::<Packed<i32>, Packed<i32>>::new(44100, 48000, 2, None, None);

    assert!(soxr.is_ok());

    let soxr = soxr.unwrap();

    println!("soxr engine: {:?}", soxr.engine());
}

#[test]
fn test_process() {
    let mut soxr = Soxr::<Planar<i32>, Packed<i16>>::new(44100, 48000, 2, None, None).unwrap();

    let input: Vec<Vec<i32>> = vec![vec![0; 44100], vec![0; 44100]];
    let output: Vec<i32> = vec![0; 48000 * 2];

    let input_buffer = SampleBuffer::Planar(input);
    let mut output_buffer = SampleBufferMut::Packed(output);

    let result = soxr.process(Some(&input_buffer), &mut output_buffer);

    assert!(result.is_ok());

    let (idone, odone) = result.unwrap();

    println!("input done: {}", idone);
    println!("output done: {}", odone);

    assert_eq!(idone, 44100);
}

#[test]
fn stereo_scenario_produces_nearly_full_output() {
    // 44100 Hz -> 48000 Hz, 2 channels, planar input, packed output.
    let mut soxr = Soxr::<Planar<i32>, Packed<i16>>::new(44100, 48000, 2, None, None).unwrap();

    let input = SampleBuffer::Planar(vec![vec![0; 44100], vec![0; 44100]]);
    let mut output = SampleBufferMut::Packed(vec![7; 48000 * 2]);

    let (consumed, produced) = soxr.process(Some(&input), &mut output).unwrap();
    assert_eq!(consumed, 44100);
    assert!(produced > 0);
    assert!(produced <= 48000);
    // Every produced sample is silence; the unwritten tail keeps its old value.
    match &output {
        SampleBufferMut::Packed(v) => {
            for t in 0..produced {
                assert_eq!(v[2 * t], 0);
                assert_eq!(v[2 * t + 1], 0);
            }
            for t in produced..48000 {
                assert_eq!(v[2 * t], 7);
                assert_eq!(v[2 * t + 1], 7);
            }
        }
        SampleBufferMut::Planar(_) => panic!("output buffer changed shape"),
    }
    assert_eq!(soxr.num_clips(), 0);
}

#[test]
fn round_trip_of_silence_stays_silent() {
    let mut up = Soxr::<Packed<i32>, Packed<i32>>::new(44100, 48000, 1, None, None).unwrap();
    let mut down = Soxr::<Packed<i32>, Packed<i32>>::new(48000, 44100, 1, None, None).unwrap();

    let input = SampleBuffer::Packed(vec![0; 44100]);
    let mut mid = SampleBufferMut::Packed(vec![0; 48000]);
    let (_, produced_mid) = up.process(Some(&input), &mut mid).unwrap();

    let mid_samples = match mid {
        SampleBufferMut::Packed(v) => v[..produced_mid].to_vec(),
        SampleBufferMut::Planar(_) => panic!("output buffer changed shape"),
    };
    assert!(mid_samples.iter().all(|&s| s == 0));

    let back_in = SampleBuffer::Packed(mid_samples);
    let mut back = SampleBufferMut::Packed(vec![0; 48000]);
    let (_, produced_back) = down.process(Some(&back_in), &mut back).unwrap();
    match back {
        SampleBufferMut::Packed(v) => {
            for t in 0..produced_back {
                assert_eq!(v[t], 0);
            }
        }
        SampleBufferMut::Planar(_) => panic!("output buffer changed shape"),
    }
    assert_eq!(up.num_clips(), 0);
    assert_eq!(down.num_clips(), 0);
}

#[test]
fn flush_eventually_produces_zero_and_stays_zero() {
    let mut soxr = Soxr::<Packed<i32>, Packed<i32>>::new(44100, 48000, 1, None, None).unwrap();
    let input = SampleBuffer::Packed(vec![0; 1000]);
    let mut output = SampleBufferMut::Packed(vec![0; 4096]);
    soxr.process(Some(&input), &mut output).unwrap();

    let mut drained = false;
    for _ in 0..64 {
        let (consumed, produced) = soxr.process(None, &mut output).unwrap();
        assert_eq!(consumed, 0);
        if produced == 0 {
            drained = true;
            break;
        }
    }
    assert!(drained);
    // Once drained, every further flush stays at zero.
    for _ in 0..3 {
        let (consumed, produced) = soxr.process(None, &mut output).unwrap();
        assert_eq!(consumed, 0);
        assert_eq!(produced, 0);
    }
}

#[test]
fn planar_channel_mismatch_rejected_without_write() {
    let mut soxr = Soxr::<Planar<i32>, Packed<i32>>::new(44100, 48000, 2, None, None).unwrap();
    // Three channel sequences against a two-channel engine.
    let input = SampleBuffer::Planar(vec![vec![0; 10], vec![0; 10], vec![0; 10]]);
    let mut output = SampleBufferMut::Packed(vec![5; 64]);
    let err = soxr.process(Some(&input), &mut output).unwrap_err();
    assert_eq!(err.as_str(), "invalid number of channels");
    match output {
        SampleBufferMut::Packed(v) => assert!(v.iter().all(|&s| s == 5)),
        SampleBufferMut::Planar(_) => panic!("output buffer changed shape"),
    }
}

#[test]
fn planar_unequal_lengths_rejected() {
    let mut soxr = Soxr::<Planar<i32>, Packed<i32>>::new(44100, 48000, 2, None, None).unwrap();
    let input = SampleBuffer::Planar(vec![vec![0; 10], vec![0; 9]]);
    let mut output = SampleBufferMut::Packed(vec![0; 64]);
    let err = soxr.process(Some(&input), &mut output).unwrap_err();
    assert_eq!(err.as_str(), "planar channel buffers differ in length");
}

#[test]
fn packed_misaligned_length_rejected() {
    let mut soxr = Soxr::<Packed<i32>, Packed<i32>>::new(44100, 48000, 2, None, None).unwrap();
    // 11 samples cannot be a whole number of two-channel frames.
    let input = SampleBuffer::Packed(vec![0; 11]);
    let mut output = SampleBufferMut::Packed(vec![0; 64]);
    let err = soxr.process(Some(&input), &mut output).unwrap_err();
    assert_eq!(err.as_str(), "packed buffer length not a multiple of channel count");
}

#[test]
fn channel_reconfiguration_validates_new_count() {
    let mut soxr = Soxr::<Planar<i32>, Planar<i32>>::new(44100, 48000, 2, None, None).unwrap();
    soxr.set_num_channels(3).unwrap();

    // The old channel count is now rejected...
    let two = SampleBuffer::Planar(vec![vec![0; 8], vec![0; 8]]);
    let mut out2 = SampleBufferMut::Planar(vec![vec![0; 8], vec![0; 8]]);
    assert!(soxr.process(Some(&two), &mut out2).is_err());

    // ...and the new one is accepted.
    let three = SampleBuffer::Planar(vec![vec![0; 8], vec![0; 8], vec![0; 8]]);
    let mut out3 = SampleBufferMut::Planar(vec![vec![0; 8], vec![0; 8], vec![0; 8]]);
    assert!(soxr.process(Some(&three), &mut out3).is_ok());

    assert!(soxr.set_num_channels(0).is_err());
}

#[test]
fn ratio_change_with_slew_keeps_processing() {
    let mut soxr = Soxr::<Packed<i32>, Packed<i32>>::new(44100, 48000, 1, None, None).unwrap();
    let input = SampleBuffer::Packed(vec![0; 1000]);
    let mut output = SampleBufferMut::Packed(vec![0; 2048]);
    soxr.process(Some(&input), &mut output).unwrap();

    // Slewed ratio change: no error, and processing continues.
    soxr.set_io_ratio(96000, 44100, 500).unwrap();
    let more = SampleBuffer::Packed(vec![0; 1000]);
    let (consumed, _) = soxr.process(Some(&more), &mut output).unwrap();
    assert_eq!(consumed, 1000);

    // Instantaneous change is also accepted; a zero ratio is not.
    soxr.set_io_ratio(44100, 48000, 0).unwrap();
    assert!(soxr.set_io_ratio(0, 48000, 0).is_err());
    assert!(soxr.set_io_ratio(48000, 0, 16).is_err());
}

#[test]
fn clear_restarts_the_stream() {
    let mut soxr = Soxr::<Packed<i32>, Packed<i32>>::new(44100, 48000, 1, None, None).unwrap();
    let input = SampleBuffer::Packed(vec![0; 500]);
    let mut output = SampleBufferMut::Packed(vec![0; 16]);
    soxr.process(Some(&input), &mut output).unwrap();
    assert!(soxr.delay() > 0);

    soxr.clear().unwrap();
    assert_eq!(soxr.delay(), 0);
    let (consumed, produced) = soxr.process(None, &mut output).unwrap();
    assert_eq!((consumed, produced), (0, 0));
}

#[test]
fn clip_counter_reads_and_resets() {
    let mut soxr = Soxr::<Packed<i32>, Packed<i32>>::new(44100, 48000, 2, None, None).unwrap();
    assert_eq!(soxr.num_clips(), 0);
    soxr.set_num_clips(17);
    assert_eq!(soxr.num_clips(), 17);
    soxr.set_num_clips(0);
    assert_eq!(soxr.num_clips(), 0);
    assert!(soxr.error().is_none());
    assert!(!soxr.engine().is_empty());
}

#[test]
fn construction_rejects_bad_arguments() {
    assert!(Soxr::<Packed<i32>, Packed<i32>>::new(44100, 48000, 0, None, None).is_err());
    assert!(Soxr::<Packed<i32>, Packed<i32>>::new(0, 48000, 2, None, None).is_err());
    assert!(Soxr::<Packed<i32>, Packed<i32>>::new(44100, 0, 2, None, None).is_err());
    assert!(Soxr::<media_soxr::DynamicSample, Packed<i32>>::new(44100, 48000, 2, None, None)
        .is_err());
}

#[test]
fn dynamic_mode_checks_committed_formats() {
    let mut soxr = Soxr::<media_soxr::DynamicSample, media_soxr::DynamicSample>::new_with_data_type(
        DataType::Int32I,
        DataType::Int32I,
        44100,
        48000,
        1,
        None,
        None,
    )
    .unwrap();

    let input = SampleBuffer::Packed(vec![0; 100]);
    let mut output = SampleBufferMut::Packed(vec![0; 256]);

    // Matching declared formats pass.
    let ok = soxr.process_dynamic::<Packed<i32>, Packed<i32>>(Some(&input), &mut output);
    assert!(ok.is_ok());

    // A mismatching input format is rejected before any data moves.
    let err = soxr.process_dynamic::<Packed<i16>, Packed<i32>>(Some(&input), &mut output);
    assert_eq!(err.unwrap_err().as_str(), "input data type mismatch");

    // A mismatching output format likewise.
    let err = soxr.process_dynamic::<Packed<i32>, Packed<i16>>(Some(&input), &mut output);
    assert_eq!(err.unwrap_err().as_str(), "output data type mismatch");

    // Dynamic construction rejects the sentinel itself.
    assert!(Soxr::<media_soxr::DynamicSample, media_soxr::DynamicSample>::new_with_data_type(
        DataType::Dynamic,
        DataType::Int16I,
        44100,
        48000,
        1,
        None,
        None,
    )
    .is_err());
}

#[test]
fn upsampling_interpolates_midpoints() {
    // Doubling the rate places every second output frame halfway
    // between two input frames.
    let mut soxr = Soxr::<Packed<i32>, Packed<i32>>::new(1, 2, 1, None, None).unwrap();
    let input = SampleBuffer::Packed(vec![0, 100]);
    let mut output = SampleBufferMut::Packed(vec![-1; 8]);
    let (consumed, produced) = soxr.process(Some(&input), &mut output).unwrap();
    assert_eq!(consumed, 2);
    assert_eq!(produced, 3);
    match output {
        SampleBufferMut::Packed(v) => {
            assert_eq!(&v[..3], &[0, 50, 100]);
            assert!(v[3..].iter().all(|&s| s == -1));
        }
        SampleBufferMut::Planar(_) => panic!("output buffer changed shape"),
    }
}

#[test]
fn downsampling_keeps_every_second_frame() {
    // Halving the rate emits the frames at even input positions.
    let mut soxr = Soxr::<Packed<i32>, Packed<i32>>::new(2, 1, 1, None, None).unwrap();
    let input = SampleBuffer::Packed(vec![10, 20, 30, 40]);
    let mut output = SampleBufferMut::Packed(vec![0; 4]);
    let (consumed, produced) = soxr.process(Some(&input), &mut output).unwrap();
    assert_eq!(consumed, 4);
    assert_eq!(produced, 2);
    match output {
        SampleBufferMut::Packed(v) => assert_eq!(&v[..2], &[10, 30]),
        SampleBufferMut::Planar(_) => panic!("output buffer changed shape"),
    }
}

#[test]
fn equal_rates_pass_planar_frames_through() {
    // With equal rates the conversion is the identity on frames.
    let mut soxr = Soxr::<Planar<i32>, Planar<i32>>::new(48000, 48000, 2, None, None).unwrap();
    let input = SampleBuffer::Planar(vec![vec![1, 2, 3, 4], vec![5, 6, 7, 8]]);
    let mut output = SampleBufferMut::Planar(vec![vec![9; 6], vec![9; 6]]);
    let (consumed, produced) = soxr.process(Some(&input), &mut output).unwrap();
    assert_eq!(consumed, 4);
    assert_eq!(produced, 4);
    match output {
        SampleBufferMut::Planar(v) => {
            assert_eq!(&v[0][..4], &[1, 2, 3, 4]);
            assert_eq!(&v[1][..4], &[5, 6, 7, 8]);
            assert_eq!(&v[0][4..], &[9, 9]);
            assert_eq!(&v[1][4..], &[9, 9]);
        }
        SampleBufferMut::Packed(_) => panic!("output buffer changed shape"),
    }
}

#[test]
fn validate_channels_matches_engine_count() {
    let soxr = Soxr::<Packed<i32>, Packed<i32>>::new(44100, 48000, 2, None, None).unwrap();
    assert!(soxr.validate_channels(2).is_ok());
    assert!(soxr.validate_channels(3).is_err());
    assert!(soxr.validate_channels(0).is_err());
}

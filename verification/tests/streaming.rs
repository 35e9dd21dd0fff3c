use bs2b::streaming::{pending_size_hint, validate_channel_pair, ChannelPair, StreamingError};

#[test]
fn callback_adapter_validates_channels_and_buffer_shape() {
    assert!(matches!(
        ChannelPair::new(1),
        Err(StreamingError::InvalidChannelCount(1))
    ));
    assert!(matches!(
        ChannelPair::with_channel_pair(2, 0, 0),
        Err(StreamingError::InvalidChannelPair {
            channels: 2,
            left: 0,
            right: 0
        })
    ));

    let pair = ChannelPair::new(2).expect("valid adapter config");
    assert!(matches!(
        pair.frame_count(3),
        Err(StreamingError::MisalignedCallbackBuffer {
            sample_count: 3,
            channels: 2
        })
    ));
}

#[test]
fn channel_pair_validation_order() {
    assert_eq!(validate_channel_pair(0, 5, 5), Err(StreamingError::InvalidChannelCount(0)));
    assert_eq!(
        validate_channel_pair(4, 4, 1),
        Err(StreamingError::InvalidChannelPair { channels: 4, left: 4, right: 1 })
    );
    assert_eq!(
        validate_channel_pair(4, 1, 4),
        Err(StreamingError::InvalidChannelPair { channels: 4, left: 1, right: 4 })
    );
    assert_eq!(validate_channel_pair(4, 3, 2), Ok(()));
}

#[test]
fn channel_pair_accessors() {
    let pair = ChannelPair::with_channel_pair(6, 4, 1).unwrap();
    assert_eq!(pair.channels(), 6);
    assert_eq!(pair.left_channel(), 4);
    assert_eq!(pair.right_channel(), 1);
    let stereo = ChannelPair::new(2).unwrap();
    assert_eq!((stereo.channels(), stereo.left_channel(), stereo.right_channel()), (2, 0, 1));
}

#[test]
fn selected_pair_positions_skip_other_channels() {
    let pair = ChannelPair::with_channel_pair(4, 2, 3).unwrap();
    let frames = pair.frame_count(12).unwrap();
    assert_eq!(frames, 3);
    let positions: Vec<(usize, usize)> = (0..frames).map(|f| pair.sample_positions(f, frames)).collect();
    assert_eq!(positions, vec![(2, 3), (6, 7), (10, 11)]);
}

#[test]
fn stereo_pair_walks_interleaved_order() {
    let pair = ChannelPair::new(2).unwrap();
    let frames = pair.frame_count(6).unwrap();
    let positions: Vec<(usize, usize)> = (0..frames).map(|f| pair.sample_positions(f, frames)).collect();
    assert_eq!(positions, vec![(0, 1), (2, 3), (4, 5)]);
}

#[test]
fn swapped_pair_positions() {
    let pair = ChannelPair::with_channel_pair(3, 2, 0).unwrap();
    assert_eq!(pair.frame_count(6), Ok(2));
    assert_eq!(pair.sample_positions(1, 2), (5, 3));
}

#[test]
fn pending_size_hint_adds_held_sample() {
    assert_eq!(pending_size_hint(3, Some(5), false), (3, Some(5)));
    assert_eq!(pending_size_hint(3, Some(5), true), (4, Some(6)));
    assert_eq!(pending_size_hint(0, None, true), (1, None));
    assert_eq!(pending_size_hint(usize::MAX, Some(usize::MAX), true), (usize::MAX, None));
    assert_eq!(pending_size_hint(usize::MAX, Some(usize::MAX), false), (usize::MAX, Some(usize::MAX)));
}

#[test]
fn write_frame_touches_only_the_pair() {
    let pair = ChannelPair::with_channel_pair(4, 2, 3).unwrap();
    let mut data = vec![0.7_f32, -0.7, 0.2, -0.2, 0.6, -0.6, 0.4, -0.1, 0.5, -0.5, -0.3, 0.3];
    let frames = pair.frame_count(data.len()).unwrap();
    assert_eq!(pair.read_frame(&data, 1, frames), (0.4, -0.1));
    pair.write_frame(&mut data, 1, frames, 1.0, 2.0);
    assert_eq!(
        data,
        vec![0.7_f32, -0.7, 0.2, -0.2, 0.6, -0.6, 1.0, 2.0, 0.5, -0.5, -0.3, 0.3]
    );
}

#[test]
fn read_and_write_frame_swapped_pair() {
    let pair = ChannelPair::with_channel_pair(3, 2, 0).unwrap();
    let mut data = vec![1, 2, 3, 4, 5, 6];
    assert_eq!(pair.read_frame(&data, 0, 2), (3, 1));
    pair.write_frame(&mut data, 0, 2, 30, 10);
    assert_eq!(data, vec![10, 2, 30, 4, 5, 6]);
}

#[test]
fn stereo_pair_is_interleaved_layout() {
    let pair = ChannelPair::stereo();
    assert_eq!((pair.channels(), pair.left_channel(), pair.right_channel()), (2, 0, 1));
    let mut data = vec![1_i16, 2, 3, 4];
    assert_eq!(pair.read_frame(&data, 1, 2), (3, 4));
    pair.write_frame(&mut data, 1, 2, -3, -4);
    assert_eq!(data, vec![1, 2, -3, -4]);
}

#[test]
fn writing_every_frame_crossfeeds_each_once() {
    let pair = ChannelPair::with_channel_pair(3, 0, 2).unwrap();
    let mut data = vec![1, 2, 3, 4, 5, 6, 7, 8, 9];
    let frames = pair.frame_count(data.len()).unwrap();
    for frame in 0..frames {
        let (l, r) = pair.read_frame(&data, frame, frames);
        pair.write_frame(&mut data, frame, frames, l * 10 + r, r * 10 + l);
    }
    assert_eq!(data, vec![13, 2, 31, 46, 5, 64, 79, 8, 97]);
}

use pc_remote::broadcaster::{Broadcaster, Client, Received, CHANNEL_CAPACITY};
use pc_remote::capture::{CaptureLoop, ChunkSource, FRAME_PERIOD_MS};
use pc_remote::chunk::split_chunk;
use pc_remote::frame::RawFrame;

fn take(client: &mut Client) -> Option<Vec<u8>> {
    match client.try_next() {
        Received::Chunk(chunk) => Some(chunk),
        _ => None,
    }
}

fn raw(width: u32, height: u32, value: u8) -> RawFrame {
    RawFrame::new(width, height, vec![value; (width * height * 4) as usize]).unwrap()
}

#[test]
fn a_new_registry_has_no_viewers() {
    let mut registry = Broadcaster::create();
    assert_eq!(registry.viewers(), 0);
    assert_eq!(registry.send_image(b"chunk"), Vec::<bool>::new());
    assert_eq!(registry.viewers(), 0);
}

#[test]
fn viewers_are_numbered_as_they_come() {
    let mut registry = Broadcaster::create();
    let first = registry.new_client().unwrap();
    let second = registry.new_client().unwrap();
    assert_eq!(first.id(), 0);
    assert_eq!(second.id(), 1);
    assert_eq!(registry.viewers(), 2);
    drop(first);
    assert_eq!(registry.send_image(b"x"), vec![false, true]);
    let third = registry.new_client().unwrap();
    assert_eq!(third.id(), 2);
    assert_eq!(registry.viewers(), 2);
}

#[test]
fn every_viewer_gets_every_chunk_in_order() {
    let mut registry = Broadcaster::create();
    let mut a = registry.new_client().unwrap();
    let mut b = registry.new_client().unwrap();
    assert_eq!(registry.send_image(b"one"), vec![true, true]);
    assert_eq!(registry.send_image(b"two"), vec![true, true]);
    for client in [&mut a, &mut b] {
        assert_eq!(take(client), Some(b"one".to_vec()));
        assert_eq!(take(client), Some(b"two".to_vec()));
        assert!(matches!(client.try_next(), Received::Empty));
    }
}

#[test]
fn a_channel_holds_its_capacity_and_no_more() {
    assert_eq!(CHANNEL_CAPACITY, 100);
    let mut registry = Broadcaster::create();
    let mut viewer = registry.new_client().unwrap();
    for i in 0..CHANNEL_CAPACITY {
        assert_eq!(registry.send_image(&[i as u8]), vec![true], "chunk {i}");
    }
    assert_eq!(registry.viewers(), 1);
    assert_eq!(registry.send_image(b"one too many"), vec![false]);
    assert_eq!(registry.viewers(), 0);
    // What was taken is still there to read, and then the channel is closed.
    for i in 0..CHANNEL_CAPACITY {
        assert_eq!(take(&mut viewer), Some(vec![i as u8]));
    }
    assert!(matches!(viewer.try_next(), Received::Closed));
}

#[test]
fn a_saturated_viewer_is_let_go_and_the_others_are_served() {
    let mut registry = Broadcaster::create();
    let mut before = registry.new_client().unwrap();
    let mut stuck = registry.new_client().unwrap();
    let mut after = registry.new_client().unwrap();
    for i in 0..CHANNEL_CAPACITY {
        assert_eq!(registry.send_image(&[i as u8]), vec![true, true, true]);
        assert_eq!(take(&mut before), Some(vec![i as u8]));
        assert_eq!(take(&mut after), Some(vec![i as u8]));
    }
    assert_eq!(registry.send_image(b"next"), vec![true, false, true]);
    assert_eq!(registry.viewers(), 2);
    assert_eq!(take(&mut before), Some(b"next".to_vec()));
    assert_eq!(take(&mut after), Some(b"next".to_vec()));
    // The two that stayed are served on.
    assert_eq!(registry.send_image(b"later"), vec![true, true]);
    assert_eq!(take(&mut before), Some(b"later".to_vec()));
    assert_eq!(take(&mut after), Some(b"later".to_vec()));
    // The one let go never sees the chunk that it had no room for.
    for i in 0..CHANNEL_CAPACITY {
        assert_eq!(take(&mut stuck), Some(vec![i as u8]));
    }
    assert!(matches!(stuck.try_next(), Received::Closed));
}

#[test]
fn a_viewer_that_reads_makes_room_again() {
    let mut registry = Broadcaster::create();
    let mut viewer = registry.new_client().unwrap();
    for _ in 0..CHANNEL_CAPACITY {
        assert_eq!(registry.send_image(b"x"), vec![true]);
    }
    assert_eq!(take(&mut viewer), Some(b"x".to_vec()));
    assert_eq!(registry.send_image(b"y"), vec![true]);
    assert_eq!(registry.viewers(), 1);
}

#[test]
fn a_viewer_that_left_is_let_go_at_the_next_broadcast() {
    let mut registry = Broadcaster::create();
    let gone = registry.new_client().unwrap();
    let mut stays = registry.new_client().unwrap();
    drop(gone);
    assert_eq!(registry.viewers(), 2);
    assert_eq!(registry.send_image(b"x"), vec![false, true]);
    assert_eq!(registry.viewers(), 1);
    assert_eq!(take(&mut stays), Some(b"x".to_vec()));
}

#[test]
fn the_receiving_half_can_be_taken_out() {
    let mut registry = Broadcaster::create();
    let viewer = registry.new_client().unwrap();
    assert_eq!(registry.send_image(b"x"), vec![true]);
    let mut receiver = viewer.into_receiver();
    assert_eq!(receiver.try_recv().ok(), Some(b"x".to_vec()));
}

#[test]
fn one_tick_puts_one_chunk_on_the_channel_of_a_viewer() {
    let mut registry = Broadcaster::create();
    let mut elsewhere = Broadcaster::create();
    let mut viewer = registry.new_client().unwrap();
    let mut stranger = elsewhere.new_client().unwrap();
    let mut state = CaptureLoop::new();
    let report = state.tick(Some(raw(8, 6, 120)), &mut registry);
    assert_eq!(report.source, ChunkSource::Encoded);
    assert_eq!(report.accepted, vec![true]);
    assert_eq!(report.wait_millis, 40);
    assert_eq!(FRAME_PERIOD_MS, 40);
    let chunk = take(&mut viewer).unwrap();
    assert!(matches!(viewer.try_next(), Received::Empty));
    assert!(matches!(stranger.try_next(), Received::Empty));
    let (start, end) = split_chunk(&chunk).unwrap();
    assert_eq!(end, chunk.len());
    let decoded =
        image::load_from_memory_with_format(&chunk[start..end], image::ImageFormat::Jpeg).unwrap();
    assert_eq!((decoded.width(), decoded.height()), (4, 3));
    assert_eq!(state.current(), Some(&chunk));
}

#[test]
fn a_tick_without_viewers_still_makes_its_chunk() {
    let mut registry = Broadcaster::create();
    let mut state = CaptureLoop::new();
    assert_eq!(state.current(), None);
    let report = state.tick(Some(raw(4, 4, 9)), &mut registry);
    assert_eq!(report.source, ChunkSource::Encoded);
    assert!(report.accepted.is_empty());
    assert!(state.current().is_some());
}

#[test]
fn a_failed_capture_gives_a_blank_frame_of_the_last_size() {
    let mut registry = Broadcaster::create();
    let mut viewer = registry.new_client().unwrap();
    let mut state = CaptureLoop::new();
    state.tick(Some(raw(8, 6, 200)), &mut registry);
    let seen = take(&mut viewer).unwrap();
    let report = state.tick(None, &mut registry);
    assert_eq!(report.source, ChunkSource::Encoded);
    assert_eq!(report.accepted, vec![true]);
    let blank = take(&mut viewer).unwrap();
    assert_ne!(blank, seen);
    let (start, end) = split_chunk(&blank).unwrap();
    let decoded =
        image::load_from_memory_with_format(&blank[start..end], image::ImageFormat::Jpeg).unwrap();
    assert_eq!((decoded.width(), decoded.height()), (4, 3));
    assert!(decoded.to_rgb8().pixels().all(|p| p.0.iter().all(|&c| c < 8)));
}

#[test]
fn a_failed_capture_before_any_frame_gives_a_frame_without_pixels() {
    let mut registry = Broadcaster::create();
    let mut viewer = registry.new_client().unwrap();
    let mut state = CaptureLoop::new();
    let report = state.tick(None, &mut registry);
    assert_eq!(report.source, ChunkSource::Encoded);
    let chunk = take(&mut viewer).unwrap();
    let (_, end) = split_chunk(&chunk).unwrap();
    assert_eq!(end, chunk.len());
}

#[test]
fn a_frame_that_cannot_be_encoded_repeats_the_last_chunk() {
    let mut registry = Broadcaster::create();
    let mut viewer = registry.new_client().unwrap();
    let mut state = CaptureLoop::new();
    state.tick(Some(raw(4, 4, 50)), &mut registry);
    let good = take(&mut viewer).unwrap();
    // Half of 131072 columns is one more than a JPEG image can have.
    let report = state.tick(Some(raw(131072, 2, 0)), &mut registry);
    assert_eq!(report.source, ChunkSource::Repeated);
    assert_eq!(report.accepted, vec![true]);
    assert_eq!(take(&mut viewer), Some(good.clone()));
    assert_eq!(state.current(), Some(&good));
    // The size of the frame is kept all the same, so a blank frame fails too.
    let report = state.tick(None, &mut registry);
    assert_eq!(report.source, ChunkSource::Repeated);
    assert_eq!(take(&mut viewer), Some(good));
}

#[test]
fn a_first_frame_that_cannot_be_encoded_sends_nothing() {
    let mut registry = Broadcaster::create();
    let mut viewer = registry.new_client().unwrap();
    let mut state = CaptureLoop::new();
    let report = state.tick(Some(raw(131072, 2, 0)), &mut registry);
    assert_eq!(report.source, ChunkSource::Nothing);
    assert!(report.accepted.is_empty());
    assert_eq!(report.wait_millis, FRAME_PERIOD_MS);
    assert_eq!(registry.viewers(), 1);
    assert!(matches!(viewer.try_next(), Received::Empty));
    assert_eq!(state.current(), None);
}

#[test]
fn advancing_alone_makes_the_chunk_without_sending_it() {
    let mut state = CaptureLoop::new();
    assert_eq!(state.advance(Some(raw(2, 2, 1))), ChunkSource::Encoded);
    let first = state.current().unwrap().clone();
    assert_eq!(state.advance(Some(raw(2, 2, 1))), ChunkSource::Encoded);
    assert_eq!(state.current(), Some(&first));
    assert_eq!(state.advance(Some(raw(2, 2, 250))), ChunkSource::Encoded);
    assert_ne!(state.current(), Some(&first));
}

#[test]
fn a_capture_too_wide_and_without_rows_sends_nothing() {
    let mut registry = Broadcaster::create();
    let mut viewer = registry.new_client().unwrap();
    let mut state = CaptureLoop::new();
    let capture = RawFrame::new(u32::MAX, 0, Vec::new()).unwrap();
    let report = state.tick(Some(capture), &mut registry);
    assert_eq!(report.source, ChunkSource::Nothing);
    assert!(report.accepted.is_empty());
    assert!(matches!(viewer.try_next(), Received::Empty));
}

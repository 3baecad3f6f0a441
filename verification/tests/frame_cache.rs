use peerwatch::app::{App, CACHED_FRAMES};
use peerwatch::frame_cache::FrameCache;
use peerwatch::FfmpegFrame;
use std::sync::Arc;

fn filled(stamps: &[i64]) -> FrameCache<i64> {
    let mut cache = FrameCache::new(3);
    for stamp in stamps {
        cache.insert(*stamp, Arc::new(*stamp));
    }
    cache
}

fn shown(frame: Option<Arc<i64>>) -> Option<i64> {
    frame.map(|frame| *frame)
}

#[test]
fn the_first_due_frame_is_shown() {
    let mut cache = filled(&[10, 20, 30]);
    assert_eq!(shown(cache.get_and_evict(0)), Some(10));
    assert_eq!(shown(cache.get_and_evict(10)), Some(10));
    assert_eq!(shown(cache.get_and_evict(11)), Some(20));
    assert_eq!(shown(cache.get_and_evict(0)), Some(20));
    assert_eq!(shown(cache.get_and_evict(31)), None);
    assert_eq!(shown(cache.get_and_evict(0)), None);
}

#[test]
fn frames_out_of_order_are_sorted_out_one_by_one() {
    let mut cache = filled(&[30, 10, 40, 20]);
    assert_eq!(shown(cache.get_and_evict(20)), Some(30));
    assert_eq!(shown(cache.get_and_evict(31)), Some(40));
}

#[test]
fn a_frame_is_shared_and_not_copied() {
    let frame = Arc::new(5i64);
    let mut cache = FrameCache::new(3);
    cache.insert(5, Arc::clone(&frame));
    let shown = cache.get_and_evict(0).unwrap();
    assert!(Arc::ptr_eq(&shown, &frame));
}

#[test]
fn a_full_cache_still_takes_frames() {
    let mut cache = filled(&[1, 2]);
    assert!(!cache.is_full());
    cache.insert(3, Arc::new(3));
    assert!(cache.is_full());
    cache.insert(4, Arc::new(4));
    assert!(cache.is_full());
    cache.get_and_evict(3);
    assert!(!cache.is_full());
    assert_eq!(shown(cache.get_and_evict(4)), Some(4));
    assert!(FrameCache::<i64>::new(0).is_full());
}

#[test]
fn the_texture_is_made_once() {
    let mut app: App<i64> = App::new();
    let first = app.update(0);
    assert!(first.load_texture);
    assert!(first.take_frames);
    assert_eq!(shown(first.frame), None);
    assert!(!app.update(0).load_texture);
}

#[test]
fn frames_are_taken_until_the_cache_is_full() {
    let mut app: App<i64> = App::new();
    for stamp in 0..CACHED_FRAMES as i64 {
        assert!(app.update(0).take_frames);
        app.receive(stamp, FfmpegFrame::Video(Arc::new(stamp)));
    }
    let full = app.update(0);
    assert!(!full.take_frames);
    assert_eq!(shown(full.frame), Some(0));
    let later = app.update(1);
    assert!(later.take_frames);
    assert_eq!(shown(later.frame), Some(1));
}

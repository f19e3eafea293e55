use wadio::manager::Manager;
use wadio::track::{get_length_bitrate, timing_from_seconds, TagText, Track};

fn track(name: &str) -> Track {
    Track {
        path: format!("/music/{}.mp3", name),
        name: name.to_string(),
        artist: "artist".to_string(),
        album: "album".to_string(),
        length: 1000,
        bitrate: 128_000,
    }
}

fn names(v: &Vec<Track>) -> Vec<String> {
    v.iter().map(|t| t.name.clone()).collect()
}

#[test]
fn advancing_n_times_drains_the_queue() {
    let songs = vec![track("a"), track("b"), track("c")];
    let mut m = Manager::new("/music".to_string(), songs);
    m.songs_to_queue();
    assert_eq!(m.queue().len(), 3);
    for _ in 0..3 {
        assert!(m.advance_at(5));
    }
    assert!(m.queue().is_empty());
    assert_eq!(m.current().unwrap().name, "a");
    assert_eq!(names(m.history()), vec!["c", "b"]);
    assert!(!m.advance_at(6));
    assert!(m.current().is_none());
    assert_eq!(names(m.history()), vec!["c", "b", "a"]);
}

#[test]
fn advance_on_empty_queue_reports_nothing() {
    let mut m = Manager::new("/music".to_string(), vec![]);
    assert!(!m.next());
    assert!(m.current().is_none());
    assert!(m.history().is_empty());
}

#[test]
fn shuffle_keeps_the_same_tracks() {
    let songs = vec![track("a"), track("b"), track("b"), track("c"), track("d")];
    let mut m = Manager::new("/music".to_string(), songs);
    m.songs_to_queue();
    m.shuffle();
    let mut got = names(m.queue());
    got.sort();
    assert_eq!(got, vec!["a", "b", "b", "c", "d"]);
    assert_eq!(m.songs().len(), 5);
    assert!(m.history().is_empty());
}

#[test]
fn songs_to_queue_appends_behind_what_is_queued() {
    let mut m = Manager::new("/music".to_string(), vec![track("a"), track("b")]);
    m.songs_to_queue();
    m.songs_to_queue();
    assert_eq!(names(m.queue()), vec!["a", "b", "a", "b"]);
}

#[test]
fn refresh_replaces_the_catalog_only() {
    let mut m = Manager::new("/music".to_string(), vec![track("a")]);
    m.songs_to_queue();
    m.refresh(vec![track("x"), track("y")]);
    assert_eq!(names(m.songs()), vec!["x", "y"]);
    assert_eq!(names(m.queue()), vec!["a"]);
    assert_eq!(m.path(), "/music");
}

#[test]
fn replenish_without_scan_replays_the_catalog() {
    let mut m = Manager::new("/music".to_string(), vec![track("a"), track("b")]);
    assert!(!m.next());
    m.replenish(None);
    let mut got = names(m.queue());
    got.sort();
    assert_eq!(got, vec!["a", "b"]);
    assert!(m.next());
}

#[test]
fn replenish_with_scan_takes_the_new_catalog() {
    let mut m = Manager::new("/music".to_string(), vec![track("a")]);
    m.replenish(Some(vec![track("z")]));
    assert_eq!(names(m.songs()), vec!["z"]);
    assert_eq!(names(m.queue()), vec!["z"]);
}

#[test]
fn elapsed_counts_from_the_start_of_the_track() {
    let mut m = Manager::new("/music".to_string(), vec![track("a")]);
    assert_eq!(m.elapsed_at(500), 0);
    m.songs_to_queue();
    assert!(m.advance_at(1_000));
    assert_eq!(m.elapsed_at(4_500), 3_500);
    assert_eq!(m.elapsed_at(900), 0);
}

#[test]
fn elapsed_by_the_clock_is_small_right_after_advancing() {
    let mut m = Manager::new("/music".to_string(), vec![track("a")]);
    m.songs_to_queue();
    assert!(m.next());
    assert!(m.elapsed() < 60_000);
}

#[test]
fn track_fields_default_to_unknown() {
    let tag = TagText { title: Some("Song".to_string()), artist: None, album: None };
    let t = Track::new("/m/s.mp3".to_string(), Some(tag), 2000, 96_000).unwrap();
    assert_eq!(t.name, "Song");
    assert_eq!(t.artist, "unknown");
    assert_eq!(t.album, "unknown");
    assert_eq!(t.length, 2000);
    assert_eq!(t.bitrate, 96_000);
    assert!(Track::new("/m/s.mp3".to_string(), None, 1, 1).is_none());
}

#[test]
fn duplicate_is_an_equal_copy() {
    let t = track("a");
    let d = t.duplicate();
    assert_eq!(d.path, t.path);
    assert_eq!(d.name, t.name);
    assert_eq!(d.bitrate, t.bitrate);
}

#[test]
fn timing_from_whole_seconds() {
    assert_eq!(timing_from_seconds(1_000_000, 100), Some((100_000, 80_000)));
    assert_eq!(timing_from_seconds(7, 2), Some((2_000, 28)));
    assert_eq!(timing_from_seconds(0, 0), Some((0, 0)));
    assert_eq!(timing_from_seconds(5, 0), Some((0, u64::MAX)));
    assert_eq!(timing_from_seconds(1, u64::MAX), None);
}

#[test]
fn length_and_bitrate_from_frames_and_time_base() {
    assert_eq!(
        get_length_bitrate(4_000_000, Some(441_000 * 4), Some((1, 44_100))),
        Some((40_000, 800_000))
    );
    assert_eq!(get_length_bitrate(100, Some(10), None), Some((10_000, 80)));
    assert_eq!(get_length_bitrate(100, None, None), Some((0, u64::MAX)));
    assert_eq!(get_length_bitrate(100, Some(10), Some((0, 1))), None);
    assert_eq!(get_length_bitrate(1_000, Some(44_101), Some((1, 44_100))), Some((1_000, 8_000)));
    assert_eq!(get_length_bitrate(1_000, Some(44_099), Some((1, 44_100))), Some((0, u64::MAX)));
}

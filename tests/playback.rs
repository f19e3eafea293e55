use wadio::api::{
    history, not_found, playing, playing_at, playing_cover, queue, route, song_list, Endpoint,
    Picture, Reply,
};
use wadio::engine::{chunk_len, Action, Engine, Event, Fault, Phase, CHUNK_SLACK};
use wadio::manager::Manager;
use wadio::track::Track;

fn track(name: &str, bitrate: u64) -> Track {
    Track {
        path: format!("/music/{}.mp3", name),
        name: name.to_string(),
        artist: "artist".to_string(),
        album: "album".to_string(),
        length: 3000,
        bitrate,
    }
}

fn audio(len: usize) -> Vec<u8> {
    let mut v = b"ID3".to_vec();
    v.extend_from_slice(&[4, 0, 0, 0, 0, 0, 2, 0xAB, 0xCD, 0x00, 0x00]);
    v.extend_from_slice(&[0xFF, 0xFB]);
    v.extend(std::iter::repeat(0x11).take(len - 2));
    v
}

fn load(action: Action) -> Track {
    match action {
        Action::Load(t) => t,
        other => panic!("expected a track to load, got {:?}", other),
    }
}

#[test]
fn chunk_is_byte_rate_plus_slack() {
    assert_eq!(chunk_len(128_000), 16_000 + CHUNK_SLACK as usize);
    assert_eq!(chunk_len(0), CHUNK_SLACK as usize);
}

#[test]
fn replay_without_refresh() {
    let mut m = Manager::new("/music".to_string(), vec![track("a", 8), track("b", 8)]);
    m.songs_to_queue();
    m.shuffle();
    let mut e = Engine::new(false);
    for _ in 0..2 {
        let t = load(e.step(&mut m, Event::Ready));
        assert!(matches!(e.step(&mut m, Event::Loaded(None)), Action::Skip(s, Fault::Open) if s.name == t.name));
    }
    assert!(m.queue().is_empty());
    assert!(matches!(e.step(&mut m, Event::Ready), Action::Refilled));
    assert_eq!(m.queue().len(), 2);
    let t = load(e.step(&mut m, Event::Ready));
    assert!(t.name == "a" || t.name == "b");
    assert_eq!(m.history().len(), 2);
}

#[test]
fn exhausted_queue_asks_for_a_scan_when_refreshing() {
    let mut m = Manager::new("/music".to_string(), vec![track("a", 8)]);
    let mut e = Engine::new(true);
    assert!(matches!(e.step(&mut m, Event::Ready), Action::Rescan));
    assert!(matches!(e.phase, Phase::Rescanning));
    let fresh = vec![track("x", 8), track("y", 8), track("z", 8)];
    assert!(matches!(e.step(&mut m, Event::Rescanned(Some(fresh))), Action::Refilled));
    assert_eq!(m.songs().len(), 3);
    assert_eq!(m.queue().len(), 3);
    assert!(matches!(e.step(&mut m, Event::Ready), Action::Load(_)));
}

#[test]
fn failed_scan_recycles_the_catalog() {
    let mut m = Manager::new("/music".to_string(), vec![track("a", 8)]);
    let mut e = Engine::new(true);
    assert!(matches!(e.step(&mut m, Event::Ready), Action::Rescan));
    assert!(matches!(e.step(&mut m, Event::Rescanned(None)), Action::Refilled));
    assert_eq!(m.songs().len(), 1);
    assert_eq!(m.queue().len(), 1);
}

#[test]
fn a_track_streams_in_chunks_then_finishes() {
    // 8192 bits/s: 1024 bytes a second plus the slack
    let mut m = Manager::new("/music".to_string(), vec![track("a", 8192)]);
    m.songs_to_queue();
    let mut e = Engine::new(false);
    load(e.step(&mut m, Event::Ready));
    let total = 5000;
    assert!(matches!(e.step(&mut m, Event::Loaded(Some(audio(total)))), Action::Continue));
    let per = 1024 + CHUNK_SLACK as usize;
    let mut sent = Vec::new();
    loop {
        match e.step(&mut m, Event::Ready) {
            Action::Send(c) => {
                assert!(c.len() <= per);
                if c.is_empty() {
                    break;
                }
                sent.extend(c);
            }
            other => panic!("unexpected {:?}", other),
        }
    }
    assert_eq!(sent.len(), total);
    assert_eq!(&sent[..2], &[0xFF, 0xFB]);
    assert!(matches!(e.step(&mut m, Event::Ready), Action::Finished(t) if t.name == "a"));
    assert!(matches!(e.phase, Phase::Idle));
}

#[test]
fn a_track_without_frames_is_skipped() {
    let mut m = Manager::new("/music".to_string(), vec![track("a", 8)]);
    m.songs_to_queue();
    let mut e = Engine::new(false);
    load(e.step(&mut m, Event::Ready));
    let out = e.step(&mut m, Event::Loaded(Some(vec![0u8; 64])));
    assert!(matches!(out, Action::Skip(_, Fault::Align)));
    assert!(matches!(e.phase, Phase::Idle));
}

#[test]
fn unexpected_event_changes_nothing() {
    let mut m = Manager::new("/music".to_string(), vec![track("a", 8)]);
    m.songs_to_queue();
    let mut e = Engine::new(false);
    assert!(matches!(e.step(&mut m, Event::Loaded(None)), Action::Continue));
    assert!(matches!(e.phase, Phase::Idle));
    assert_eq!(m.queue().len(), 1);
}

#[test]
fn routes_follow_the_paths() {
    assert_eq!(route(true, true, "/api/current"), Endpoint::Current);
    assert_eq!(route(true, true, "/api/cover"), Endpoint::Cover);
    assert_eq!(route(true, true, "/api/queue"), Endpoint::Queue);
    assert_eq!(route(true, true, "/api/history"), Endpoint::History);
    assert_eq!(route(true, true, "/api/other"), Endpoint::NotFound);
    assert_eq!(route(true, true, "/x/api"), Endpoint::NotFound);
    assert_eq!(route(true, false, "/api/queue"), Endpoint::Ignored);
    assert_eq!(route(false, true, "/api/queue"), Endpoint::Ignored);
    assert_eq!(route(true, true, "/mp3"), Endpoint::Stream);
    assert_eq!(route(false, false, "/mp3"), Endpoint::Stream);
    assert_eq!(route(true, true, "/"), Endpoint::Ignored);
}

#[test]
fn api_replies_show_the_schedule() {
    let mut m = Manager::new("/music".to_string(), vec![track("a", 8), track("b", 8)]);
    assert!(matches!(playing_at(&m, 10), Reply::Message(s) if s == "No current song"));
    m.songs_to_queue();
    assert!(m.advance_at(1_000));
    match playing_at(&m, 3_500) {
        Reply::Song(s) => {
            assert_eq!(s.name, "b");
            assert_eq!(s.elapsed, 2_500);
            assert_eq!(s.length, 3000);
        }
        other => panic!("unexpected {:?}", other),
    }
    assert!(matches!(playing(&m), Reply::Song(s) if s.name == "b"));
    match queue(&m) {
        Reply::Tracks(v) => {
            assert_eq!(v.len(), 1);
            assert_eq!(v[0].name, "a");
            assert_eq!(v[0].elapsed, 0);
        }
        other => panic!("unexpected {:?}", other),
    }
    assert!(m.advance_at(2_000));
    assert!(matches!(history(&m), Reply::Tracks(v) if v.len() == 1 && v[0].name == "b"));
    assert!(matches!(not_found(), Reply::Message(s) if s == "Not found"));
    assert_eq!(song_list(&vec![]).len(), 0);
}

#[test]
fn cover_falls_back_to_jpeg() {
    assert_eq!(playing_cover(None), ("image/jpeg".to_string(), vec![]));
    let p = Picture { mime: None, data: vec![1, 2] };
    assert_eq!(playing_cover(Some(p)), ("image/jpeg".to_string(), vec![1, 2]));
    let p = Picture { mime: Some("image/png".to_string()), data: vec![3] };
    assert_eq!(playing_cover(Some(p)), ("image/png".to_string(), vec![3]));
}

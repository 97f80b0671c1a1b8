use speakpractice::api::{compare, download_audio, index};
use speakpractice::ingest::{Action, Event, Ingest, Phase};
use speakpractice::session::{Registry, SessionError, Status};

fn registry() -> Registry {
    Registry::new("rec".to_string())
}

fn new_session(r: &mut Registry, now: u64) -> u64 {
    r.create("de".to_string(), 44100, None, now)
}

/// Drives a session to `Closed` through a frame and a clean end.
fn closed_session(r: &mut Registry) -> u64 {
    let id = new_session(r, 1);
    let mut ing = Ingest::new(id);
    r.ingest(&mut ing, Event::Frame(vec![1, 2, 3]));
    assert!(matches!(r.ingest(&mut ing, Event::PeerClosed), Action::Finalize));
    assert!(matches!(r.ingest(&mut ing, Event::Finalized), Action::Stop));
    id
}

#[test]
fn ids_are_distinct() {
    let mut r = registry();
    let ids: Vec<u64> = (0..20).map(|i| new_session(&mut r, i)).collect();
    for i in 0..ids.len() {
        for j in 0..i {
            assert_ne!(ids[i], ids[j]);
        }
    }
    assert_eq!(r.len(), 20);
}

#[test]
fn create_starts_connecting() {
    let mut r = registry();
    let id = r.create("fr".to_string(), 16000, Some("lesson1".to_string()), 7);
    let s = r.find_by_id(id).unwrap();
    assert_eq!(s.status, Status::Connecting);
    assert_eq!(s.language, "fr");
    assert_eq!(s.sample_rate, 16000);
    assert_eq!(s.resource, Some("lesson1".to_string()));
    assert_eq!(s.recording, "rec/0.wav");
    assert!(s.transcript.is_none());
    assert!(r.find_by_id(id + 1).is_none());
}

#[test]
fn recording_paths_follow_ids() {
    let mut r = registry();
    for i in 0..12 {
        new_session(&mut r, i);
    }
    assert_eq!(r.find_by_id(11).unwrap().recording, "rec/11.wav");
}

#[test]
fn listing_is_sorted_when_clock_goes_back() {
    let mut r = registry();
    new_session(&mut r, 50);
    new_session(&mut r, 10);
    new_session(&mut r, 70);
    let all = r.list_all();
    let times: Vec<u64> = all.iter().map(|s| s.created_at).collect();
    assert_eq!(times, vec![50, 50, 70]);
    let page = index(&r);
    assert_eq!(page.sessions.len(), 3);
}

#[test]
fn snapshot_does_not_follow_later_changes() {
    let mut r = registry();
    let id = new_session(&mut r, 1);
    let before = r.list_all();
    r.mark_for_closure(id);
    assert_eq!(before[0].status, Status::Connecting);
    assert_eq!(r.status(id), Ok(Status::ClosingRequested));
}

#[test]
fn lifecycle_of_a_clean_recording() {
    let mut r = registry();
    let id = new_session(&mut r, 1);
    let mut ing = Ingest::new(id);
    match r.ingest(&mut ing, Event::Frame(vec![9, 8, 7, 6])) {
        Action::Append(b) => assert_eq!(b, vec![9, 8, 7, 6]),
        _ => panic!("frame not appended"),
    }
    assert_eq!(r.status(id), Ok(Status::Recording));
    r.ingest(&mut ing, Event::Frame(vec![5]));
    let s = r.find_by_id(id).unwrap();
    assert_eq!((s.frames, s.bytes), (2, 5));
    assert!(matches!(r.ingest(&mut ing, Event::PeerClosed), Action::Finalize));
    assert_eq!(ing.phase, Phase::Finalizing);
    assert!(matches!(r.ingest(&mut ing, Event::Frame(vec![1])), Action::Ignore));
    assert!(matches!(r.ingest(&mut ing, Event::Finalized), Action::Stop));
    assert_eq!(r.status(id), Ok(Status::Closed));
    assert_eq!(ing.phase, Phase::Done);
    r.ingest(&mut ing, Event::Frame(vec![1]));
    assert_eq!(r.status(id), Ok(Status::Closed));
}

#[test]
fn closure_request_ends_recording_within_two_steps() {
    let mut r = registry();
    let id = new_session(&mut r, 1);
    let mut ing = Ingest::new(id);
    r.ingest(&mut ing, Event::Frame(vec![1, 2]));
    r.mark_for_closure(id);
    assert_eq!(r.status(id), Ok(Status::ClosingRequested));
    assert!(matches!(r.ingest(&mut ing, Event::Frame(vec![3])), Action::Finalize));
    assert_eq!(r.find_by_id(id).unwrap().bytes, 2);
    r.mark_for_closure(id);
    assert!(matches!(r.ingest(&mut ing, Event::Finalized), Action::Stop));
    assert_eq!(r.status(id), Ok(Status::Closed));
}

#[test]
fn closure_of_closed_or_unknown_changes_nothing() {
    let mut r = registry();
    let id = closed_session(&mut r);
    r.mark_for_closure(id);
    assert_eq!(r.status(id), Ok(Status::Closed));
    r.mark_for_closure(999);
    assert_eq!(r.status(999), Err(SessionError::NotFound));
    assert_eq!(r.len(), 1);
}

#[test]
fn malformed_frame_fails_session() {
    let mut r = registry();
    let id = new_session(&mut r, 1);
    let mut ing = Ingest::new(id);
    r.ingest(&mut ing, Event::Frame(vec![1]));
    assert!(matches!(r.ingest(&mut ing, Event::Malformed), Action::Stop));
    assert_eq!(r.status(id), Ok(Status::Errored));
    assert_eq!(r.find_by_id(id).unwrap().bytes, 1);
    assert_eq!(r.transcript(id), Err(SessionError::Failed));
    assert_eq!(r.recording_file(id), Err(SessionError::Failed));
}

#[test]
fn write_failure_while_finalizing_fails_session() {
    let mut r = registry();
    let id = new_session(&mut r, 1);
    let mut ing = Ingest::new(id);
    r.ingest(&mut ing, Event::PeerClosed);
    r.ingest(&mut ing, Event::WriteFailed);
    assert_eq!(r.status(id), Ok(Status::Errored));
}

#[test]
fn unknown_session_stops_ingest() {
    let mut r = registry();
    let mut ing = Ingest::new(3);
    assert!(matches!(r.ingest(&mut ing, Event::Frame(vec![1])), Action::Stop));
    assert_eq!(ing.phase, Phase::Done);
}

#[test]
fn transcript_before_recognition_is_not_ready() {
    let mut r = registry();
    let id = closed_session(&mut r);
    assert_eq!(r.transcript(id), Err(SessionError::NotReady));
    assert_eq!(r.set_transcript(id, "hallo welt".to_string()), Ok(()));
    assert_eq!(r.transcript(id), Ok("hallo welt".to_string()));
    assert_eq!(r.set_transcript(id, "anders".to_string()), Err(SessionError::InvalidInput));
    assert_eq!(r.transcript(id), Ok("hallo welt".to_string()));
    assert_eq!(r.transcript(id + 1), Err(SessionError::NotFound));
}

#[test]
fn transcript_of_open_session_is_refused() {
    let mut r = registry();
    let id = new_session(&mut r, 1);
    assert_eq!(r.set_transcript(id, "x".to_string()), Err(SessionError::NotReady));
    assert_eq!(r.set_transcript(id + 1, "x".to_string()), Err(SessionError::NotFound));
}

#[test]
fn recording_of_open_session_is_not_ready() {
    let mut r = registry();
    let id = new_session(&mut r, 1);
    let mut ing = Ingest::new(id);
    r.ingest(&mut ing, Event::Frame(vec![1, 2]));
    assert_eq!(r.status(id), Ok(Status::Recording));
    let e = r.recording_file(id).unwrap_err();
    assert_eq!(e, SessionError::NotReady);
    assert_ne!(e, SessionError::NotFound);
    assert_eq!(r.recording_file(id + 1), Err(SessionError::NotFound));
}

#[test]
fn download_of_closed_recording() {
    let mut r = registry();
    let id = closed_session(&mut r);
    let d = download_audio(&r, id).ok().unwrap();
    assert_eq!(d.path, "rec/0.wav");
    assert_eq!(d.disposition, "attachment; filename=\"0.wav\"");
    assert!(matches!(download_audio(&r, 5), Err(SessionError::NotFound)));
}

#[test]
fn compare_page_waits_for_transcript() {
    let mut r = registry();
    let id = closed_session(&mut r);
    assert!(matches!(compare(&r, "res".to_string(), id, "de".to_string()), Err(SessionError::NotReady)));
    r.set_transcript(id, "hallo".to_string()).unwrap();
    let c = compare(&r, "res".to_string(), id, "de".to_string()).ok().unwrap();
    assert_eq!((c.resource.as_str(), c.session, c.lang.as_str()), ("res", id, "de"));
}

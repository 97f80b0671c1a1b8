use speakpractice::api::{changes, decode_resource_path, get_resource_filename, media_type, practice, Metadata};
use speakpractice::diff::Change;
use speakpractice::ingest::{Event, Ingest};
use speakpractice::session::{Registry, SessionError};

fn metadata() -> Metadata {
    Metadata {
        script: "guten morgen".to_string(),
        audio: "morgen.mp3".to_string(),
        enclosing_directory: "data/lesson 1".to_string(),
    }
}

#[test]
fn resource_path_is_decoded() {
    assert_eq!(decode_resource_path("data%2Flesson%201"), Ok("data/lesson 1".to_string()));
    assert_eq!(decode_resource_path("plain+path"), Ok("plain+path".to_string()));
    assert_eq!(decode_resource_path("%C3%BCber"), Ok("über".to_string()));
}

#[test]
fn undecodable_resource_path_is_invalid() {
    assert_eq!(decode_resource_path("bad%FF"), Err(SessionError::InvalidInput));
}

#[test]
fn resource_filename_joins_directory_and_audio() {
    assert_eq!(get_resource_filename(&metadata()), "data/lesson 1/morgen.mp3");
}

#[test]
fn media_type_from_extension() {
    assert_eq!(media_type("data/morgen.mp3"), Ok("audio/mpeg".to_string()));
    assert_eq!(media_type("a/b.wav"), Ok("audio/wav".to_string()));
    assert_eq!(media_type("no_extension"), Err(SessionError::InvalidInput));
}

#[test]
fn practice_page_keeps_its_inputs() {
    let p = practice(metadata(), "data%2Flesson%201".to_string(), "de".to_string());
    assert_eq!(p.metadata.audio, "morgen.mp3");
    assert_eq!(p.resource_path, "data%2Flesson%201");
    assert_eq!(p.lang, "de");
}

#[test]
fn changes_compare_script_with_transcript() {
    let mut r = Registry::new("rec".to_string());
    let id = r.create("de".to_string(), 44100, None, 0);
    assert!(matches!(changes(&r, "guten morgen", id), Err(SessionError::NotReady)));
    let mut ing = Ingest::new(id);
    r.ingest(&mut ing, Event::PeerClosed);
    r.ingest(&mut ing, Event::Finalized);
    r.set_transcript(id, "guten abend".to_string()).unwrap();
    let segs = changes(&r, "guten morgen", id).ok().unwrap();
    let got: Vec<(Change, String)> = segs.iter().map(|s| (s.kind, String::from_utf8(s.text.clone()).unwrap())).collect();
    assert_eq!(
        got,
        vec![
            (Change::Equal, "guten ".to_string()),
            (Change::Delete, "morgen".to_string()),
            (Change::Insert, "abend".to_string()),
        ]
    );
    assert!(matches!(changes(&r, "x", id + 1), Err(SessionError::NotFound)));
}

#[test]
fn wav_header_of_a_short_recording() {
    let h = speakpractice::wav::wav_header(44100, 1000);
    assert_eq!(h.len(), 44);
    assert_eq!(&h[0..4], b"RIFF");
    assert_eq!(&h[4..8], &1036u32.to_le_bytes());
    assert_eq!(&h[8..16], b"WAVEfmt ");
    assert_eq!(&h[16..20], &16u32.to_le_bytes());
    assert_eq!(&h[20..24], &[1, 0, 1, 0]);
    assert_eq!(&h[24..28], &44100u32.to_le_bytes());
    assert_eq!(&h[28..32], &88200u32.to_le_bytes());
    assert_eq!(&h[32..36], &[2, 0, 16, 0]);
    assert_eq!(&h[36..40], b"data");
    assert_eq!(&h[40..44], &1000u32.to_le_bytes());
}

#[test]
fn wav_header_caps_oversized_lengths() {
    let h = speakpractice::wav::wav_header(u32::MAX, u64::MAX);
    assert_eq!(&h[4..8], &u32::MAX.to_le_bytes());
    assert_eq!(&h[28..32], &u32::MAX.to_le_bytes());
    assert_eq!(&h[40..44], &(u32::MAX - 36).to_le_bytes());
}

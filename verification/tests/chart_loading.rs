use taiko_rs::chart::{map_is_loadable, MapError, NoteOptimized, NotesInSong};
use taiko_rs::decimal::{parse_u16, parse_u32};
use taiko_rs::split::{bytes_equal, retain_unequal, split_at_byte};

fn note(x: u32, don_or_ka: bool, size: bool, type_of_note: bool, length_of_special: u16) -> NoteOptimized {
    NoteOptimized { x, don_or_ka, size, type_of_note, length_of_special }
}

fn load(text: &str) -> (Result<Vec<usize>, MapError>, Vec<NoteOptimized>) {
    let mut song = NotesInSong { notes: vec![] };
    assert!(map_is_loadable(text.as_bytes()));
    let res = song.load_from(text.as_bytes());
    (res, song.notes)
}

#[test]
fn parse_u32_accepts_plain_and_plus_signed_digits() {
    assert_eq!(parse_u32(b"0"), Some(0));
    assert_eq!(parse_u32(b"300"), Some(300));
    assert_eq!(parse_u32(b"+42"), Some(42));
    assert_eq!(parse_u32(b"007"), Some(7));
    assert_eq!(parse_u32(b"4294967295"), Some(4294967295));
}

#[test]
fn parse_u32_rejects_what_str_parse_rejects() {
    assert_eq!(parse_u32(b""), None);
    assert_eq!(parse_u32(b"+"), None);
    assert_eq!(parse_u32(b"-1"), None);
    assert_eq!(parse_u32(b"++1"), None);
    assert_eq!(parse_u32(b"1a"), None);
    assert_eq!(parse_u32(b" 1"), None);
    assert_eq!(parse_u32(b"5\n"), None);
    assert_eq!(parse_u32(b"4294967296"), None);
    assert_eq!(parse_u32(b"99999999999999999999"), None);
}

#[test]
fn parse_u16_bounds() {
    assert_eq!(parse_u16(b"65535"), Some(65535));
    assert_eq!(parse_u16(b"65536"), None);
    assert_eq!(parse_u16(b"12"), Some(12));
}

#[test]
fn parsers_agree_with_std() {
    let samples = ["", "0", "+", "-", "+0", "-0", "12", "+12", "x", "65535", "65536", "4294967295",
        "4294967296", "0000000000000000000001", "1 ", "١"];
    for s in samples.iter() {
        assert_eq!(parse_u32(s.as_bytes()), s.parse::<u32>().ok(), "u32 {:?}", s);
        assert_eq!(parse_u16(s.as_bytes()), s.parse::<u16>().ok(), "u16 {:?}", s);
    }
}

#[test]
fn split_keeps_empty_pieces() {
    let pieces = split_at_byte(b"a,,b,", b',');
    assert_eq!(pieces, vec![b"a".to_vec(), vec![], b"b".to_vec(), vec![]]);
    assert_eq!(split_at_byte(b"", b','), vec![Vec::<u8>::new()]);
    let kept = retain_unequal(pieces, b"");
    assert_eq!(kept, vec![b"a".to_vec(), b"b".to_vec()]);
    assert!(bytes_equal(b"ab", b"ab"));
    assert!(!bytes_equal(b"ab", b"abc"));
}

#[test]
fn loads_every_note_of_a_valid_map() {
    let (res, notes) = load("Title\n{0,1,0,0,0,\n{300,0,1,0,0,\n{450,1,0,1,90,\n");
    assert_eq!(res, Ok(vec![]));
    assert_eq!(notes, vec![note(0, true, false, false, 0), note(300, false, true, false, 0),
        note(450, true, false, true, 90)]);
}

#[test]
fn stops_at_the_first_invalid_note_but_reports_all() {
    let (res, notes) = load("T{5,1,0,0,0,{x,0,0,0,0,{7,0,0,0,0,{8,2,0,0,0,");
    assert_eq!(res, Ok(vec![2, 4]));
    assert_eq!(notes, vec![note(5, true, false, false, 0)]);
}

#[test]
fn last_field_with_line_feed_is_invalid() {
    let (res, notes) = load("M{1,0,0,0,5\n");
    assert_eq!(res, Ok(vec![1]));
    assert!(notes.is_empty());
}

#[test]
fn a_leading_brace_makes_the_first_note_the_metadata() {
    let (res, notes) = load("{1,1,1,1,9,{2,0,0,0,0,");
    assert_eq!(res, Ok(vec![]));
    assert_eq!(notes, vec![note(2, false, false, false, 0)]);
}

#[test]
fn lone_line_feeds_and_empty_blocks_are_skipped() {
    let (res, notes) = load("M{\n{{3,1,1,0,0,\n,");
    assert_eq!(res, Ok(vec![]));
    assert_eq!(notes, vec![note(3, true, true, false, 0)]);
}

#[test]
fn notes_are_added_after_those_already_held() {
    let mut song = NotesInSong { notes: vec![note(1, true, true, true, 1)] };
    let res = song.load_from(b"M{2,0,0,0,0,");
    assert_eq!(res, Ok(vec![]));
    assert_eq!(song.notes, vec![note(1, true, true, true, 1), note(2, false, false, false, 0)]);
}

#[test]
fn the_word_error_is_an_unreadable_map() {
    let mut song = NotesInSong { notes: vec![] };
    assert!(map_is_loadable(b"error"));
    assert_eq!(song.load_from(b"error"), Err(MapError::Unreadable));
    assert!(song.notes.is_empty());
}

#[test]
fn maps_that_would_run_off_their_end_are_not_loadable() {
    assert!(!map_is_loadable(b""));
    assert!(!map_is_loadable(b"\n"));
    assert!(!map_is_loadable(b"M{1,0,0,0"));
    assert!(!map_is_loadable(b"M{1,0,0,0,\n"));
    assert!(map_is_loadable(b"M"));
    assert!(map_is_loadable(b"M{1,0,0,0,0"));
}

use taiko_rs::chart::NoteOptimized;
use taiko_rs::notes::{is_large_note, note_kind, sprite_path, NoteTypeEnum};
use taiko_rs::path::map_path;
use taiko_rs::pause::{
    button_tone, pause_menu_visible, pause_request, previous_after_request, ButtonInteraction,
    ButtonTone, PauseEvent, PlayState,
};
use taiko_rs::play::{
    input_to_note_type, judge_note, left_side_input, right_side_input, EnumInput, HitJudgement,
    NoteOutcome, NoteZones, Score, Visibility,
};

fn note(don_or_ka: bool, size: bool, type_of_note: bool, length_of_special: u16) -> NoteOptimized {
    NoteOptimized { x: 30, don_or_ka, size, type_of_note, length_of_special }
}

fn zones(past_left_edge: bool, past_right_edge: bool, good: bool, ok: bool, bad: bool) -> NoteZones {
    NoteZones { past_left_edge, past_right_edge, in_good_window: good, in_ok_window: ok, in_bad_window: bad }
}

#[test]
fn note_kinds_follow_the_flags() {
    assert_eq!(note_kind(&note(false, false, false, 0)), NoteTypeEnum::KaSmall);
    assert_eq!(note_kind(&note(true, false, false, 0)), NoteTypeEnum::DonSmall);
    assert_eq!(note_kind(&note(false, true, false, 0)), NoteTypeEnum::KaLarge);
    assert_eq!(note_kind(&note(true, true, false, 7)), NoteTypeEnum::DonLarge);
    assert_eq!(note_kind(&note(false, true, true, 90)), NoteTypeEnum::Drumroll(90));
    assert_eq!(note_kind(&note(false, false, true, 90)), NoteTypeEnum::Drumroll(90));
    assert_eq!(note_kind(&note(true, false, true, 12)), NoteTypeEnum::Ballon(12));
}

#[test]
fn size_is_ignored_for_special_notes() {
    assert_eq!(note_kind(&note(true, true, true, 4)), note_kind(&note(true, false, true, 4)));
}

#[test]
fn sprites_and_sizes() {
    assert_eq!(sprite_path(NoteTypeEnum::KaSmall), "Sprites/Ka.png");
    assert_eq!(sprite_path(NoteTypeEnum::KaLarge), "Sprites/Ka.png");
    assert_eq!(sprite_path(NoteTypeEnum::DonSmall), "Sprites/Don.png");
    assert_eq!(sprite_path(NoteTypeEnum::Drumroll(3)), "Sprites/Don.png");
    assert!(is_large_note(NoteTypeEnum::DonLarge));
    assert!(is_large_note(NoteTypeEnum::KaLarge));
    assert!(!is_large_note(NoteTypeEnum::DonSmall));
    assert!(!is_large_note(NoteTypeEnum::Ballon(3)));
}

#[test]
fn keys_map_to_drum_sides() {
    assert_eq!(left_side_input(true, true), EnumInput::Ka);
    assert_eq!(left_side_input(false, true), EnumInput::Don);
    assert_eq!(left_side_input(false, false), EnumInput::NoInput);
    assert_eq!(right_side_input(true, false), EnumInput::Ka);
    assert_eq!(right_side_input(false, true), EnumInput::Don);
}

#[test]
fn strikes_make_notes() {
    assert_eq!(input_to_note_type(EnumInput::Don, EnumInput::Don), NoteTypeEnum::DonLarge);
    assert_eq!(input_to_note_type(EnumInput::Ka, EnumInput::Ka), NoteTypeEnum::KaLarge);
    assert_eq!(input_to_note_type(EnumInput::Don, EnumInput::NoInput), NoteTypeEnum::DonSmall);
    assert_eq!(input_to_note_type(EnumInput::NoInput, EnumInput::Don), NoteTypeEnum::DonSmall);
    assert_eq!(input_to_note_type(EnumInput::Ka, EnumInput::NoInput), NoteTypeEnum::KaSmall);
    assert_eq!(input_to_note_type(EnumInput::NoInput, EnumInput::Ka), NoteTypeEnum::KaSmall);
    assert_eq!(input_to_note_type(EnumInput::Don, EnumInput::Ka), NoteTypeEnum::DonSmall);
    assert_eq!(input_to_note_type(EnumInput::Ka, EnumInput::Don), NoteTypeEnum::KaSmall);
    assert_eq!(input_to_note_type(EnumInput::NoInput, EnumInput::NoInput), NoteTypeEnum::NoNote);
}

#[test]
fn the_narrowest_window_judges_a_matching_strike() {
    let o = judge_note(zones(false, false, true, true, true), EnumInput::Don, EnumInput::NoInput,
        NoteTypeEnum::DonSmall);
    assert_eq!(o, NoteOutcome { missed: false, visibility: Visibility::Show,
        judgement: HitJudgement::Good, despawn: true });
    let o = judge_note(zones(false, false, false, true, true), EnumInput::Ka, EnumInput::Ka,
        NoteTypeEnum::KaLarge);
    assert_eq!(o.judgement, HitJudgement::Okay);
    let o = judge_note(zones(false, false, false, false, true), EnumInput::Ka, EnumInput::Ka,
        NoteTypeEnum::KaLarge);
    assert_eq!(o.judgement, HitJudgement::Bad);
    assert!(o.despawn);
}

#[test]
fn a_wrong_strike_is_not_judged() {
    let o = judge_note(zones(false, false, true, true, true), EnumInput::Ka, EnumInput::NoInput,
        NoteTypeEnum::DonSmall);
    assert_eq!(o, NoteOutcome { missed: false, visibility: Visibility::Show,
        judgement: HitJudgement::Untouched, despawn: false });
    let o = judge_note(zones(false, false, true, true, true), EnumInput::Don, EnumInput::Don,
        NoteTypeEnum::Drumroll(30));
    assert_eq!(o.judgement, HitJudgement::Untouched);
}

#[test]
fn notes_off_screen() {
    let o = judge_note(zones(true, false, false, false, false), EnumInput::NoInput,
        EnumInput::NoInput, NoteTypeEnum::DonSmall);
    assert_eq!(o, NoteOutcome { missed: true, visibility: Visibility::Keep,
        judgement: HitJudgement::Untouched, despawn: true });
    let o = judge_note(zones(false, true, false, false, false), EnumInput::NoInput,
        EnumInput::NoInput, NoteTypeEnum::DonSmall);
    assert_eq!(o.visibility, Visibility::Hide);
    assert!(!o.despawn);
}

#[test]
fn score_counts_points_and_grades() {
    let mut s = Score::new();
    let good = NoteOutcome { missed: false, visibility: Visibility::Show,
        judgement: HitJudgement::Good, despawn: true };
    let okay = NoteOutcome { judgement: HitJudgement::Okay, ..good };
    let bad = NoteOutcome { judgement: HitJudgement::Bad, ..good };
    let miss = NoteOutcome { missed: true, visibility: Visibility::Keep,
        judgement: HitJudgement::Untouched, despawn: true };
    for o in [good, okay, okay, bad, miss].iter() {
        assert!(s.can_record(o));
        s.record(o);
    }
    assert_eq!(s, Score { score: 200, goods: 1, oks: 2, bads: 2 });
    assert_eq!(s.score as u32, 100 * s.goods + 50 * s.oks);
}

#[test]
fn score_refuses_to_overflow() {
    let s = Score { score: 65450, goods: 654, oks: 1, bads: 0 };
    let good = NoteOutcome { missed: false, visibility: Visibility::Show,
        judgement: HitJudgement::Good, despawn: true };
    assert!(!s.can_record(&good));
    let okay = NoteOutcome { judgement: HitJudgement::Okay, ..good };
    assert!(s.can_record(&okay));
}

#[test]
fn escape_pauses_and_resumes() {
    let current = PlayState::PlayMode;
    let previous = PlayState::PlayMode;
    let req = pause_request(PauseEvent::EscapePressed, current, previous);
    assert_eq!(req, Some(PlayState::Paused));
    let previous = previous_after_request(current, previous, true);
    assert_eq!(previous, PlayState::PlayMode);
    let current = PlayState::Paused;
    assert_eq!(pause_request(PauseEvent::EscapePressed, current, previous), Some(PlayState::PlayMode));
    assert_eq!(previous_after_request(current, previous, true), PlayState::Paused);
    assert_eq!(previous_after_request(current, previous, false), PlayState::PlayMode);
}

#[test]
fn focus_pauses_and_resumes() {
    assert_eq!(pause_request(PauseEvent::FocusLost, PlayState::TrainingMode, PlayState::Paused),
        Some(PlayState::Paused));
    assert_eq!(pause_request(PauseEvent::FocusLost, PlayState::Paused, PlayState::PlayMode), None);
    assert_eq!(pause_request(PauseEvent::FocusGained, PlayState::Paused, PlayState::EditorTestMode),
        Some(PlayState::EditorTestMode));
    assert_eq!(pause_request(PauseEvent::FocusGained, PlayState::PlayMode, PlayState::Paused), None);
}

#[test]
fn pause_menu() {
    assert!(pause_menu_visible(PlayState::Paused));
    assert!(!pause_menu_visible(PlayState::PlayMode));
    assert_eq!(button_tone(ButtonInteraction::Clicked), ButtonTone::Pressed);
    assert_eq!(button_tone(ButtonInteraction::Hovered), ButtonTone::Hovered);
    assert_eq!(button_tone(ButtonInteraction::Idle), ButtonTone::Normal);
}

#[test]
fn map_path_uses_the_argument_or_the_default() {
    let default = "TaikoRS/Songs/.Debug/TestSong/";
    assert_eq!(map_path(None, default), "TaikoRS/Songs/.Debug/TestSong//Map.txt");
    assert_eq!(map_path(Some("Songs/A".to_string()), default), "Songs/A/Map.txt");
    assert_eq!(map_path(Some("no path".to_string()), default), "TaikoRS/Songs/.Debug/TestSong//Map.txt");
}

#[test]
fn length_is_ignored_for_plain_notes() {
    assert_eq!(note_kind(&note(false, true, false, 0)), note_kind(&note(false, true, false, 500)));
}

#[test]
fn requests_change_the_state_unless_resuming_into_the_pause() {
    let states = [PlayState::EditorTestMode, PlayState::PlayMode, PlayState::TrainingMode, PlayState::Paused];
    let events = [PauseEvent::EscapePressed, PauseEvent::FocusLost, PauseEvent::FocusGained];
    for &current in states.iter() {
        for &previous in states.iter() {
            for &event in events.iter() {
                if let Some(target) = pause_request(event, current, previous) {
                    if previous != PlayState::Paused {
                        assert_ne!(target, current);
                    }
                }
            }
        }
    }
    assert_eq!(pause_request(PauseEvent::EscapePressed, PlayState::Paused, PlayState::Paused),
        Some(PlayState::Paused));
}

#[test]
fn only_the_counts_that_grow_must_have_room() {
    let s = Score { score: 0, goods: u32::MAX, oks: u32::MAX, bads: u32::MAX - 1 };
    let bad = NoteOutcome { missed: false, visibility: Visibility::Show,
        judgement: HitJudgement::Bad, despawn: true };
    assert!(s.can_record(&bad));
    let missed_bad = NoteOutcome { missed: true, ..bad };
    assert!(!s.can_record(&missed_bad));
    let good = NoteOutcome { judgement: HitJudgement::Good, ..bad };
    assert!(!s.can_record(&good));
}

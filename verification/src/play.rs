//! Drum input, judging notes as they reach the hit zone, and the score.
use vstd::prelude::*;

use crate::notes::{NoteTypeEnum, is_special};

verus! {

/// What one side of the drum was struck with this frame.
#[derive(Clone, Copy, Debug, PartialEq, Eq, Structural)]
pub enum EnumInput {
    Don,
    Ka,
    NoInput,
}

/// The left side: the Ka key (`D`) wins over the Don key (`F`).
pub fn left_side_input(ka_key: bool, don_key: bool) -> (input: EnumInput)
    ensures
        input == (if ka_key {
            EnumInput::Ka
        } else if don_key {
            EnumInput::Don
        } else {
            EnumInput::NoInput
        }),
{
    if ka_key {
        EnumInput::Ka
    } else if don_key {
        EnumInput::Don
    } else {
        EnumInput::NoInput
    }
}

/// The right side: the Ka key (`K`) wins over the Don key (`J`).
pub fn right_side_input(ka_key: bool, don_key: bool) -> (input: EnumInput)
    ensures
        input == (if ka_key {
            EnumInput::Ka
        } else if don_key {
            EnumInput::Don
        } else {
            EnumInput::NoInput
        }),
{
    left_side_input(ka_key, don_key)
}

/// The small note that one struck side plays.
pub open spec fn small_note_for(input: EnumInput) -> NoteTypeEnum {
    match input {
        EnumInput::Don => NoteTypeEnum::DonSmall,
        EnumInput::Ka => NoteTypeEnum::KaSmall,
        EnumInput::NoInput => NoteTypeEnum::NoNote,
    }
}

/// The large note that both sides struck alike play.
pub open spec fn large_note_for(input: EnumInput) -> NoteTypeEnum {
    match input {
        EnumInput::Don => NoteTypeEnum::DonLarge,
        EnumInput::Ka => NoteTypeEnum::KaLarge,
        EnumInput::NoInput => NoteTypeEnum::NoNote,
    }
}

/// Both sides struck alike play a large note; otherwise the left side, if
/// struck, decides, else the right side does, and the note is small.
pub open spec fn played_note(left: EnumInput, right: EnumInput) -> NoteTypeEnum {
    if left == right {
        large_note_for(left)
    } else if left != EnumInput::NoInput {
        small_note_for(left)
    } else {
        small_note_for(right)
    }
}

/// The note the player plays with the two sides of the drum.
pub fn input_to_note_type(left: EnumInput, right: EnumInput) -> (note: NoteTypeEnum)
    ensures
        note == played_note(left, right),
        !is_special(note),
        (note == NoteTypeEnum::NoNote) == (left == EnumInput::NoInput && right
            == EnumInput::NoInput),
{
    match (left, right) {
        (EnumInput::Don, EnumInput::Don) => NoteTypeEnum::DonLarge,
        (EnumInput::Ka, EnumInput::Ka) => NoteTypeEnum::KaLarge,
        (EnumInput::Don, EnumInput::NoInput) => NoteTypeEnum::DonSmall,
        (EnumInput::NoInput, EnumInput::Don) => NoteTypeEnum::DonSmall,
        (EnumInput::Ka, EnumInput::NoInput) => NoteTypeEnum::KaSmall,
        (EnumInput::NoInput, EnumInput::Ka) => NoteTypeEnum::KaSmall,
        (EnumInput::Don, EnumInput::Ka) => NoteTypeEnum::DonSmall,
        (EnumInput::Ka, EnumInput::Don) => NoteTypeEnum::KaSmall,
        (EnumInput::NoInput, EnumInput::NoInput) => NoteTypeEnum::NoNote,
    }
}

/// Where a moving note stands this frame, measured against the screen edges
/// and the hit windows around the hit zone.
#[derive(Clone, Copy, Debug, PartialEq, Eq, Structural)]
pub struct NoteZones {
    /// Left of the left edge of the screen.
    pub past_left_edge: bool,
    /// Right of the area in which notes are drawn.
    pub past_right_edge: bool,
    pub in_good_window: bool,
    pub in_ok_window: bool,
    pub in_bad_window: bool,
}

/// What becomes of a note's visibility this frame.
#[derive(Clone, Copy, Debug, PartialEq, Eq, Structural)]
pub enum Visibility {
    Show,
    Hide,
    /// Left as it was: the note has scrolled off and is removed.
    Keep,
}

/// How a strike on a note was judged.
#[derive(Clone, Copy, Debug, PartialEq, Eq, Structural)]
pub enum HitJudgement {
    Good,
    Okay,
    Bad,
    /// The note was not struck this frame.
    Untouched,
}

/// What happens to one note in one frame.
#[derive(Clone, Copy, Debug, PartialEq, Eq, Structural)]
pub struct NoteOutcome {
    /// The note scrolled off the left edge unplayed.
    pub missed: bool,
    pub visibility: Visibility,
    pub judgement: HitJudgement,
    /// The note leaves the track.
    pub despawn: bool,
}

/// The judgement of a note: the narrowest hit window that holds it, if the
/// note played matches the note's kind.
pub open spec fn judgement_of(zones: NoteZones, matches: bool) -> HitJudgement {
    if zones.in_good_window && matches {
        HitJudgement::Good
    } else if zones.in_ok_window && matches {
        HitJudgement::Okay
    } else if zones.in_bad_window && matches {
        HitJudgement::Bad
    } else {
        HitJudgement::Untouched
    }
}

/// What happens to a note of kind `kind`, given where it stands and what the
/// player strikes.
pub open spec fn outcome_of(
    zones: NoteZones,
    left: EnumInput,
    right: EnumInput,
    kind: NoteTypeEnum,
) -> NoteOutcome {
    let judgement = judgement_of(zones, played_note(left, right) == kind);
    NoteOutcome {
        missed: zones.past_left_edge,
        visibility: if zones.past_left_edge {
            Visibility::Keep
        } else if zones.past_right_edge {
            Visibility::Hide
        } else {
            Visibility::Show
        },
        judgement,
        despawn: zones.past_left_edge || judgement != HitJudgement::Untouched,
    }
}

/// Judges one note for this frame.
pub fn judge_note(zones: NoteZones, left: EnumInput, right: EnumInput, kind: NoteTypeEnum) -> (outcome:
    NoteOutcome)
    ensures
        outcome == outcome_of(zones, left, right, kind),
        outcome.judgement == HitJudgement::Good ==> zones.in_good_window,
        outcome.judgement == HitJudgement::Okay ==> zones.in_ok_window,
        outcome.judgement == HitJudgement::Bad ==> zones.in_bad_window,
        outcome.despawn == (zones.past_left_edge || outcome.judgement != HitJudgement::Untouched),
{
    let played = input_to_note_type(left, right);
    let matches = played == kind;
    let judgement = if zones.in_good_window && matches {
        HitJudgement::Good
    } else if zones.in_ok_window && matches {
        HitJudgement::Okay
    } else if zones.in_bad_window && matches {
        HitJudgement::Bad
    } else {
        HitJudgement::Untouched
    };
    let visibility = if zones.past_left_edge {
        Visibility::Keep
    } else if zones.past_right_edge {
        Visibility::Hide
    } else {
        Visibility::Show
    };
    let despawn = match judgement {
        HitJudgement::Untouched => zones.past_left_edge,
        _ => true,
    };
    NoteOutcome { missed: zones.past_left_edge, visibility, judgement, despawn }
}

/// The running score of a song.
#[derive(Clone, Copy, Debug, PartialEq, Eq, Structural)]
pub struct Score {
    pub score: u16,
    pub goods: u32,
    pub oks: u32,
    pub bads: u32,
}

/// The points a judgement earns.
pub open spec fn points_for(judgement: HitJudgement) -> nat {
    match judgement {
        HitJudgement::Good => 100,
        HitJudgement::Okay => 50,
        _ => 0,
    }
}

/// How many bads an outcome adds: one for a miss, one for a bad hit.
pub open spec fn bads_for(outcome: NoteOutcome) -> nat {
    (if outcome.missed {
        1nat
    } else {
        0nat
    }) + (if outcome.judgement == HitJudgement::Bad {
        1nat
    } else {
        0nat
    })
}

impl Score {
    /// The counts after `outcome` is recorded.
    pub open spec fn records(self, outcome: NoteOutcome, after: Score) -> bool {
        &&& after.score == self.score + points_for(outcome.judgement)
        &&& after.goods == self.goods + (if outcome.judgement == HitJudgement::Good {
            1nat
        } else {
            0nat
        })
        &&& after.oks == self.oks + (if outcome.judgement == HitJudgement::Okay {
            1nat
        } else {
            0nat
        })
        &&& after.bads == self.bads + bads_for(outcome)
    }

    /// Recording `outcome` keeps every count in range.
    pub open spec fn has_room_for(self, outcome: NoteOutcome) -> bool {
        &&& self.score + points_for(outcome.judgement) <= u16::MAX
        &&& outcome.judgement == HitJudgement::Good ==> self.goods + 1 <= u32::MAX
        &&& outcome.judgement == HitJudgement::Okay ==> self.oks + 1 <= u32::MAX
        &&& self.bads + bads_for(outcome) <= u32::MAX
    }

    /// The score is a hundred points per good and fifty per ok.
    pub open spec fn tally_consistent(self) -> bool {
        self.score == 100 * self.goods + 50 * self.oks
    }

    /// A song's score before any note has been judged.
    pub fn new() -> (s: Score)
        ensures
            s.score == 0 && s.goods == 0 && s.oks == 0 && s.bads == 0,
            s.tally_consistent(),
    {
        Score { score: 0, goods: 0, oks: 0, bads: 0 }
    }

    /// Whether `outcome` can be recorded without a count overflowing.
    pub fn can_record(&self, outcome: &NoteOutcome) -> (ok: bool)
        ensures
            ok == self.has_room_for(*outcome),
    {
        let (points, goods, oks, bad_hit): (u16, u32, u32, u32) = match outcome.judgement {
            HitJudgement::Good => (100, 1, 0, 0),
            HitJudgement::Okay => (50, 0, 1, 0),
            HitJudgement::Bad => (0, 0, 0, 1),
            HitJudgement::Untouched => (0, 0, 0, 0),
        };
        let bads: u32 = if outcome.missed {
            bad_hit + 1
        } else {
            bad_hit
        };
        self.score <= u16::MAX - points && self.goods <= u32::MAX - goods && self.oks <= u32::MAX
            - oks && self.bads <= u32::MAX - bads
    }

    /// Adds the outcome of one note to the score.
    pub fn record(&mut self, outcome: &NoteOutcome)
        requires
            old(self).has_room_for(*outcome),
        ensures
            old(self).records(*outcome, *final(self)),
    {
        if outcome.missed {
            self.bads = self.bads + 1;
        }
        match outcome.judgement {
            HitJudgement::Good => {
                self.goods = self.goods + 1;
                self.score = self.score + 100;
            },
            HitJudgement::Okay => {
                self.oks = self.oks + 1;
                self.score = self.score + 50;
            },
            HitJudgement::Bad => {
                self.bads = self.bads + 1;
            },
            HitJudgement::Untouched => {},
        }
    }
}

/// Recording an outcome keeps the score at a hundred points per good and
/// fifty per ok.
pub proof fn lemma_record_keeps_tally(before: Score, outcome: NoteOutcome, after: Score)
    requires
        before.tally_consistent(),
        before.records(outcome, after),
    ensures
        after.tally_consistent(),
{
}

/// A note is judged only when the note played matches its kind; so a
/// drumroll or a balloon is never judged, and is removed only by scrolling
/// off the screen.
pub proof fn lemma_judged_only_on_match(
    zones: NoteZones,
    left: EnumInput,
    right: EnumInput,
    kind: NoteTypeEnum,
)
    ensures
        outcome_of(zones, left, right, kind).judgement != HitJudgement::Untouched ==> played_note(
            left,
            right,
        ) == kind,
        is_special(kind) ==> outcome_of(zones, left, right, kind).judgement
            == HitJudgement::Untouched,
        is_special(kind) ==> outcome_of(zones, left, right, kind).despawn
            == zones.past_left_edge,
{
}

/// A note is judged only inside the window of its judgement: a note outside
/// every hit window is never judged, whatever is struck, and leaves the track
/// only by scrolling off the left edge. A note inside the good window struck
/// with its own kind is judged good.
pub proof fn lemma_judged_only_in_its_window(
    zones: NoteZones,
    left: EnumInput,
    right: EnumInput,
    kind: NoteTypeEnum,
)
    ensures
        outcome_of(zones, left, right, kind).judgement == HitJudgement::Good
            ==> zones.in_good_window,
        outcome_of(zones, left, right, kind).judgement == HitJudgement::Okay
            ==> zones.in_ok_window && !zones.in_good_window,
        outcome_of(zones, left, right, kind).judgement == HitJudgement::Bad ==> zones.in_bad_window
            && !zones.in_ok_window && !zones.in_good_window,
        !zones.in_good_window && !zones.in_ok_window && !zones.in_bad_window ==> {
            &&& outcome_of(zones, left, right, kind).judgement == HitJudgement::Untouched
            &&& outcome_of(zones, left, right, kind).despawn == zones.past_left_edge
        },
        zones.in_good_window && played_note(left, right) == kind ==> outcome_of(
            zones,
            left,
            right,
            kind,
        ).judgement == HitJudgement::Good,
{
}

/// A note left untouched and still on screen stays on the track and adds
/// nothing to the score.
pub proof fn lemma_untouched_note_changes_nothing(
    zones: NoteZones,
    left: EnumInput,
    right: EnumInput,
    kind: NoteTypeEnum,
    before: Score,
    after: Score,
)
    requires
        !zones.past_left_edge,
        outcome_of(zones, left, right, kind).judgement == HitJudgement::Untouched,
        before.records(outcome_of(zones, left, right, kind), after),
    ensures
        !outcome_of(zones, left, right, kind).despawn,
        after == before,
{
}

} // verus!

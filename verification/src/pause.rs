//! Pausing and resuming play, and the pause menu.
//!
//! The game keeps the state it is in and the state it was in before the last
//! change it asked for. Each pause event may ask the state machine to move to
//! a new state; once that request is accepted, the state the game was in is
//! remembered as the previous one.
use vstd::prelude::*;

verus! {

/// The states of play.
#[derive(Clone, Copy, Debug, PartialEq, Eq, Hash, Structural)]
pub enum PlayState {
    EditorTestMode,
    PlayMode,
    TrainingMode,
    Paused,
}

/// What can pause or resume play.
#[derive(Clone, Copy, Debug, PartialEq, Eq, Structural)]
pub enum PauseEvent {
    /// The escape key toggles the pause.
    EscapePressed,
    /// The window lost the focus: play pauses.
    FocusLost,
    /// The window got the focus back: paused play resumes.
    FocusGained,
}

/// The state an event asks to move to, if any.
pub open spec fn requested_state(
    event: PauseEvent,
    current: PlayState,
    previous: PlayState,
) -> Option<PlayState> {
    match event {
        PauseEvent::EscapePressed => if current != PlayState::Paused {
            Some(PlayState::Paused)
        } else {
            Some(previous)
        },
        PauseEvent::FocusLost => if current != PlayState::Paused {
            Some(PlayState::Paused)
        } else {
            None
        },
        PauseEvent::FocusGained => if current == PlayState::Paused {
            Some(previous)
        } else {
            None
        },
    }
}

/// The state that `event` asks the game to move to: pausing from any
/// state of play, resuming to the remembered state from the pause.
pub fn pause_request(event: PauseEvent, current: PlayState, previous: PlayState) -> (request:
    Option<PlayState>)
    ensures
        request == requested_state(event, current, previous),
{
    let paused = current == PlayState::Paused;
    match event {
        PauseEvent::EscapePressed => if !paused {
            Some(PlayState::Paused)
        } else {
            Some(previous)
        },
        PauseEvent::FocusLost => if !paused {
            Some(PlayState::Paused)
        } else {
            None
        },
        PauseEvent::FocusGained => if paused {
            Some(previous)
        } else {
            None
        },
    }
}

/// The state remembered as the previous one after a request: the state the
/// game was in when the request was accepted, else what was remembered.
pub open spec fn remembered_state(current: PlayState, previous: PlayState, accepted: bool) -> PlayState {
    if accepted {
        current
    } else {
        previous
    }
}

/// The state to remember as the previous one once a request has been
/// answered.
pub fn previous_after_request(current: PlayState, previous: PlayState, accepted: bool) -> (next:
    PlayState)
    ensures
        next == remembered_state(current, previous, accepted),
{
    if accepted {
        current
    } else {
        previous
    }
}

/// The pause menu is shown exactly while play is paused.
pub fn pause_menu_visible(state: PlayState) -> (visible: bool)
    ensures
        visible == (state == PlayState::Paused),
{
    match state {
        PlayState::Paused => true,
        _ => false,
    }
}

/// What the pointer does with a pause-menu button.
#[derive(Clone, Copy, Debug, PartialEq, Eq, Structural)]
pub enum ButtonInteraction {
    Clicked,
    Hovered,
    Idle,
}

/// The colour a pause-menu button is drawn in.
#[derive(Clone, Copy, Debug, PartialEq, Eq, Structural)]
pub enum ButtonTone {
    Pressed,
    Hovered,
    Normal,
}

/// A clicked button is drawn pressed, a hovered one hovered, any other
/// normal.
pub fn button_tone(interaction: ButtonInteraction) -> (tone: ButtonTone)
    ensures
        tone == (match interaction {
            ButtonInteraction::Clicked => ButtonTone::Pressed,
            ButtonInteraction::Hovered => ButtonTone::Hovered,
            ButtonInteraction::Idle => ButtonTone::Normal,
        }),
{
    match interaction {
        ButtonInteraction::Clicked => ButtonTone::Pressed,
        ButtonInteraction::Hovered => ButtonTone::Hovered,
        ButtonInteraction::Idle => ButtonTone::Normal,
    }
}

/// Escape pauses any state of play and remembers it; escape again asks to
/// return to exactly that state.
pub proof fn lemma_escape_twice_returns(state: PlayState, previous: PlayState)
    requires
        state != PlayState::Paused,
    ensures
        requested_state(PauseEvent::EscapePressed, state, previous) == Some(PlayState::Paused),
        requested_state(
            PauseEvent::EscapePressed,
            PlayState::Paused,
            remembered_state(state, previous, true),
        ) == Some(state),
{
}

/// Losing the focus pauses any state of play and remembers it; getting the
/// focus back asks to return to exactly that state.
pub proof fn lemma_focus_round_trip(state: PlayState, previous: PlayState)
    requires
        state != PlayState::Paused,
    ensures
        requested_state(PauseEvent::FocusLost, state, previous) == Some(PlayState::Paused),
        requested_state(
            PauseEvent::FocusGained,
            PlayState::Paused,
            remembered_state(state, previous, true),
        ) == Some(state),
        requested_state(PauseEvent::FocusLost, PlayState::Paused, previous) is None,
        requested_state(PauseEvent::FocusGained, state, previous) is None,
{
}

/// A request never asks for the state the game is already in, but for
/// resuming when the remembered state is the pause itself.
pub proof fn lemma_request_changes_state(
    event: PauseEvent,
    current: PlayState,
    previous: PlayState,
)
    requires
        previous != PlayState::Paused,
    ensures
        requested_state(event, current, previous) matches Some(target) ==> target != current,
{
}

} // verus!

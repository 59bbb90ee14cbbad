//! What a stored note stands for on the track.
use vstd::prelude::*;

use crate::chart::NoteOptimized;

verus! {

/// The kinds of note; `NoNote` stands for no note at all. A drumroll or balloon carries the length it was
/// stored with; a drumroll is drawn a third of that long.
#[derive(Clone, Copy, Debug, PartialEq, Eq, Structural)]
pub enum NoteTypeEnum {
    DonSmall,
    KaSmall,
    DonLarge,
    KaLarge,
    Drumroll(u16),
    Ballon(u16),
    NoNote,
}

/// The kind of note that the flags of a stored note select.
pub open spec fn kind_of(note: NoteOptimized) -> NoteTypeEnum {
    if note.type_of_note {
        if note.don_or_ka {
            NoteTypeEnum::Ballon(note.length_of_special)
        } else {
            NoteTypeEnum::Drumroll(note.length_of_special)
        }
    } else if note.don_or_ka {
        if note.size {
            NoteTypeEnum::DonLarge
        } else {
            NoteTypeEnum::DonSmall
        }
    } else if note.size {
        NoteTypeEnum::KaLarge
    } else {
        NoteTypeEnum::KaSmall
    }
}

/// A drumroll or a balloon.
pub open spec fn is_special(kind: NoteTypeEnum) -> bool {
    kind is Drumroll || kind is Ballon
}

/// A Ka note, small or large.
pub open spec fn is_ka(kind: NoteTypeEnum) -> bool {
    kind is KaSmall || kind is KaLarge
}

/// The kind of note a stored note is.
pub fn note_kind(note: &NoteOptimized) -> (kind: NoteTypeEnum)
    ensures
        kind == kind_of(*note),
        is_special(kind) == note.type_of_note,
        note.type_of_note && note.don_or_ka ==> kind == NoteTypeEnum::Ballon(note.length_of_special),
        note.type_of_note && !note.don_or_ka ==> kind == NoteTypeEnum::Drumroll(
            note.length_of_special,
        ),
{
    if note.type_of_note {
        if note.don_or_ka {
            NoteTypeEnum::Ballon(note.length_of_special)
        } else {
            NoteTypeEnum::Drumroll(note.length_of_special)
        }
    } else {
        match (note.don_or_ka, note.size) {
            (true, true) => NoteTypeEnum::DonLarge,
            (true, false) => NoteTypeEnum::DonSmall,
            (false, true) => NoteTypeEnum::KaLarge,
            (false, false) => NoteTypeEnum::KaSmall,
        }
    }
}

/// The image a note is drawn with: the Ka image for Ka notes, the Don image
/// for every other kind.
pub fn sprite_path(kind: NoteTypeEnum) -> (path: &'static str)
    ensures
        is_ka(kind) ==> path@ == "Sprites/Ka.png"@,
        !is_ka(kind) ==> path@ == "Sprites/Don.png"@,
{
    match kind {
        NoteTypeEnum::KaSmall | NoteTypeEnum::KaLarge => "Sprites/Ka.png",
        _ => "Sprites/Don.png",
    }
}

/// Whether a note is drawn at the large size.
pub fn is_large_note(kind: NoteTypeEnum) -> (large: bool)
    ensures
        large == (kind is DonLarge || kind is KaLarge),
{
    match kind {
        NoteTypeEnum::DonLarge | NoteTypeEnum::KaLarge => true,
        _ => false,
    }
}

/// A drumroll or balloon carries its stored length unchanged, whatever it
/// is; a plain note is Don or Ka as its flag says, large as its size says.
pub proof fn lemma_kind_carries_the_stored_note(note: NoteOptimized)
    ensures
        note.type_of_note && note.don_or_ka ==> kind_of(note) == NoteTypeEnum::Ballon(
            note.length_of_special,
        ),
        note.type_of_note && !note.don_or_ka ==> kind_of(note) == NoteTypeEnum::Drumroll(
            note.length_of_special,
        ),
        !note.type_of_note ==> (kind_of(note) is DonSmall || kind_of(note) is DonLarge)
            == note.don_or_ka,
        !note.type_of_note ==> (kind_of(note) is DonLarge || kind_of(note) is KaLarge)
            == note.size,
        !note.type_of_note ==> !is_special(kind_of(note)) && kind_of(note) != NoteTypeEnum::NoNote,
{
}

/// The size flag does not matter for a drumroll or a balloon.
pub proof fn lemma_size_ignored_for_special(a: NoteOptimized, b: NoteOptimized)
    requires
        a.type_of_note && b.type_of_note,
        a.don_or_ka == b.don_or_ka,
        a.length_of_special == b.length_of_special,
    ensures
        kind_of(a) == kind_of(b),
{
}

/// The length does not matter for a plain Don or Ka note.
pub proof fn lemma_length_ignored_for_plain(a: NoteOptimized, b: NoteOptimized)
    requires
        !a.type_of_note && !b.type_of_note,
        a.don_or_ka == b.don_or_ka,
        a.size == b.size,
    ensures
        kind_of(a) == kind_of(b),
{
}

/// Distinct plain notes have distinct kinds: the kind of a plain note gives
/// back its Don/Ka and size flags.
pub proof fn lemma_plain_kind_determines_flags(a: NoteOptimized, b: NoteOptimized)
    requires
        !a.type_of_note && !b.type_of_note,
        kind_of(a) == kind_of(b),
    ensures
        a.don_or_ka == b.don_or_ka,
        a.size == b.size,
{
}

} // verus!

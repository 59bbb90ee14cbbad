//! The map file: a metadata block followed by notes, each opened by `{`
//! and made of comma-separated fields `x,don_or_ka,size,type_of_note,length`.
use vstd::prelude::*;

use crate::decimal::{parse_u16, parse_u32, spec_parse_u16, spec_parse_u32};
use crate::split::{
    bytes_equal, lemma_split_at_joining_separator, lemma_split_without_separator,
    lemma_without_join, retain_unequal, split_at_byte, split_pieces, without,
};

verus! {

/// The ASCII code of `{`, which opens every note.
pub const OPEN_BRACE: u8 = 123;

/// The ASCII code of `,`, which separates the fields of a note.
pub const COMMA: u8 = 44;

/// The ASCII code of a line feed.
pub const NEWLINE: u8 = 10;

/// The ASCII code of `0`.
pub const FLAG_OFF: u8 = 48;

/// The ASCII code of `1`.
pub const FLAG_ON: u8 = 49;

/// One note as the map file stores it.
#[derive(Clone, Copy, Debug, PartialEq, Eq, Structural)]
pub struct NoteOptimized {
    /// Three times the note's position along the track, so that notes can
    /// stand closer together than one unit.
    pub x: u32,
    /// Don (`true`) or Ka (`false`); for a special note, balloon (`true`)
    /// or drumroll (`false`).
    pub don_or_ka: bool,
    /// Large (`true`) or small (`false`); ignored for special notes.
    pub size: bool,
    /// Special (drumroll or balloon, `true`) or plain Don/Ka (`false`).
    pub type_of_note: bool,
    /// How long a drumroll or balloon lasts.
    pub length_of_special: u16,
}

/// The notes of the song being played.
pub struct NotesInSong {
    pub notes: Vec<NoteOptimized>,
}

/// Why a map could not be loaded.
#[derive(Clone, Copy, Debug, PartialEq, Eq, Structural)]
pub enum MapError {
    /// The map could not be read: its text is the word `error`, which is
    /// also what the reader hands over when the file cannot be opened.
    Unreadable,
}

/// The bytes of the word `error`.
pub open spec fn error_marker() -> Seq<u8> {
    seq![101u8, 114u8, 114u8, 111u8, 114u8]
}

/// A piece that is a lone line feed.
pub open spec fn newline_piece() -> Seq<u8> {
    seq![NEWLINE]
}

/// The blocks of the map: the text cut at every `{`, with the pieces that
/// are a lone line feed or empty taken out. The first is the metadata.
pub open spec fn map_chunks(contents: Seq<u8>) -> Seq<Seq<u8>> {
    without(without(split_pieces(contents, OPEN_BRACE), newline_piece()), Seq::<u8>::empty())
}

/// The blocks of the map that describe notes: all but the metadata.
pub open spec fn note_chunks(contents: Seq<u8>) -> Seq<Seq<u8>> {
    map_chunks(contents).drop_first()
}

/// The fields of a note: its block cut at every `,`, with the pieces that
/// are a lone line feed taken out.
pub open spec fn note_fields(chunk: Seq<u8>) -> Seq<Seq<u8>> {
    without(split_pieces(chunk, COMMA), newline_piece())
}

/// A flag field is exactly `0` or `1`.
pub open spec fn parse_flag(f: Seq<u8>) -> Option<bool> {
    if f == seq![FLAG_OFF] {
        Some(false)
    } else if f == seq![FLAG_ON] {
        Some(true)
    } else {
        None
    }
}

/// The note that the first five fields describe, if each of them is valid.
pub open spec fn parse_fields(fs: Seq<Seq<u8>>) -> Option<NoteOptimized> {
    match (
        spec_parse_u32(fs[0]),
        parse_flag(fs[1]),
        parse_flag(fs[2]),
        parse_flag(fs[3]),
        spec_parse_u16(fs[4]),
    ) {
        (Some(x), Some(don_or_ka), Some(size), Some(type_of_note), Some(length_of_special)) => Some(
            NoteOptimized { x, don_or_ka, size, type_of_note, length_of_special },
        ),
        _ => None,
    }
}

/// The note a block describes, if it is valid.
pub open spec fn parse_note(chunk: Seq<u8>) -> Option<NoteOptimized> {
    parse_fields(note_fields(chunk))
}

/// A map can be read without running off its end: it has a metadata block,
/// and every note has at least five fields.
pub open spec fn map_is_well_shaped(contents: Seq<u8>) -> bool {
    &&& map_chunks(contents).len() >= 1
    &&& forall|i: int|
        0 <= i < note_chunks(contents).len() ==> #[trigger] note_fields(
            note_chunks(contents)[i],
        ).len() >= 5
}

/// `notes` are the notes of `chunks` up to, and not including, the first
/// invalid one.
pub open spec fn leading_valid_notes(chunks: Seq<Seq<u8>>, notes: Seq<NoteOptimized>) -> bool {
    &&& notes.len() <= chunks.len()
    &&& forall|i: int| 0 <= i < notes.len() ==> parse_note(#[trigger] chunks[i]) == Some(notes[i])
    &&& notes.len() < chunks.len() ==> parse_note(chunks[notes.len() as int]) is None
}

/// The positions, counted from one, of the invalid notes, in order.
pub open spec fn invalid_note_numbers(chunks: Seq<Seq<u8>>) -> Seq<int>
    decreases chunks.len(),
{
    if chunks.len() == 0 {
        Seq::empty()
    } else {
        let before = invalid_note_numbers(chunks.drop_last());
        if parse_note(chunks.last()) is None {
            before.push(chunks.len() as int)
        } else {
            before
        }
    }
}

/// The invalid note numbers are exactly the positions, counted from one, of
/// the notes that do not parse, in increasing order.
proof fn lemma_invalid_numbers_exact(chunks: Seq<Seq<u8>>)
    ensures
        forall|j: int|
            0 <= j < invalid_note_numbers(chunks).len() ==> {
                let k = #[trigger] invalid_note_numbers(chunks)[j];
                &&& 1 <= k <= chunks.len()
                &&& parse_note(chunks[k - 1]) is None
            },
        forall|a: int, b: int|
            0 <= a < b < invalid_note_numbers(chunks).len() ==> invalid_note_numbers(chunks)[a]
                < invalid_note_numbers(chunks)[b],
        forall|i: int|
            0 <= i < chunks.len() && parse_note(#[trigger] chunks[i]) is None ==> exists|j: int|
                0 <= j < invalid_note_numbers(chunks).len() && invalid_note_numbers(chunks)[j] == i
                    + 1,
    decreases chunks.len(),
{
    if chunks.len() > 0 {
        let before = chunks.drop_last();
        lemma_invalid_numbers_exact(before);
        let inv = invalid_note_numbers(chunks);
        let prev = invalid_note_numbers(before);
        assert forall|j: int| 0 <= j < inv.len() implies {
            let k = #[trigger] inv[j];
            &&& 1 <= k <= chunks.len()
            &&& parse_note(chunks[k - 1]) is None
        } by {
            if j < prev.len() {
                assert(inv[j] == prev[j]);
                assert(chunks[prev[j] - 1] == before[prev[j] - 1]);
            }
        }
        assert forall|i: int|
            0 <= i < chunks.len() && parse_note(#[trigger] chunks[i]) is None implies exists|j: int|
                0 <= j < inv.len() && inv[j] == i + 1 by {
            if i < before.len() {
                assert(before[i] == chunks[i]);
                let j = choose|j: int| 0 <= j < prev.len() && prev[j] == i + 1;
                assert(inv[j] == prev[j]);
            } else {
                assert(inv[inv.len() - 1] == chunks.len());
            }
        }
        assert forall|a: int, b: int| 0 <= a < b < inv.len() implies inv[a] < inv[b] by {
            if b < prev.len() {
                assert(inv[a] == prev[a] && inv[b] == prev[b]);
            } else {
                assert(inv[a] == prev[a]);
                assert(1 <= prev[a] <= before.len());
            }
        }
    }
}

/// Loading keeps the notes before the first invalid one: when no note is
/// invalid every note is loaded, and otherwise the notes loaded are those
/// before the first invalid note.
pub proof fn lemma_loading_stops_at_first_invalid(
    chunks: Seq<Seq<u8>>,
    notes: Seq<NoteOptimized>,
)
    requires
        leading_valid_notes(chunks, notes),
    ensures
        (invalid_note_numbers(chunks).len() == 0) == (notes.len() == chunks.len()),
        invalid_note_numbers(chunks).len() > 0 ==> notes.len() + 1 == invalid_note_numbers(
            chunks,
        )[0],
{
    lemma_invalid_numbers_exact(chunks);
    let inv = invalid_note_numbers(chunks);
    if notes.len() < chunks.len() {
        let i = notes.len() as int;
        assert(parse_note(chunks[i]) is None);
        let j = choose|j: int| 0 <= j < inv.len() && inv[j] == i + 1;
        if j > 0 {
            assert(inv[0] < inv[j]);
        }
        let k = inv[0];
        assert(parse_note(chunks[k - 1]) is None);
        if k - 1 < i {
            assert(parse_note(chunks[k - 1]) == Some(notes[k - 1]));
        }
    } else if inv.len() > 0 {
        let k = inv[0];
        assert(parse_note(chunks[k - 1]) is None);
        assert(parse_note(chunks[k - 1]) == Some(notes[k - 1]));
    }
}

/// Loadability does not depend on how many notes a map has: one more note
/// block of at least five fields after a loadable map keeps it loadable,
/// and becomes its last note.
pub proof fn lemma_another_note_keeps_map_loadable(contents: Seq<u8>, block: Seq<u8>)
    requires
        map_is_well_shaped(contents),
        forall|i: int| 0 <= i < block.len() ==> block[i] != OPEN_BRACE,
        note_fields(block).len() >= 5,
    ensures
        map_is_well_shaped(contents.push(OPEN_BRACE) + block),
        note_chunks(contents.push(OPEN_BRACE) + block) == note_chunks(contents).push(block),
{
    let longer = contents.push(OPEN_BRACE) + block;
    lemma_split_at_joining_separator(contents, block, OPEN_BRACE);
    lemma_split_without_separator(block, OPEN_BRACE);
    let pieces = split_pieces(contents, OPEN_BRACE);
    lemma_without_join(pieces, seq![block], newline_piece());
    // The block is neither empty nor a lone line feed: it has five fields.
    if block.len() == 0 {
        assert(split_pieces(block, COMMA) =~= seq![Seq::<u8>::empty()]);
        let lone = seq![Seq::<u8>::empty()];
        assert(lone.drop_last() =~= Seq::<Seq<u8>>::empty());
        assert(without(Seq::<Seq<u8>>::empty(), newline_piece()) == Seq::<Seq<u8>>::empty());
        assert(lone.last() == Seq::<u8>::empty());
        assert(Seq::<u8>::empty() != newline_piece()) by {
            assert(newline_piece().len() == 1);
        }
        assert(without(lone, newline_piece()).len() == 1);
    }
    if block == newline_piece() {
        assert(block.drop_last() =~= Seq::<u8>::empty());
        assert(split_pieces(block.drop_last(), COMMA) =~= seq![Seq::<u8>::empty()]);
        assert(split_pieces(block, COMMA) =~= seq![block]);
        assert(seq![block].drop_last() =~= Seq::<Seq<u8>>::empty());
        assert(without(Seq::<Seq<u8>>::empty(), newline_piece()) == Seq::<Seq<u8>>::empty());
        assert(seq![block].last() == block);
        assert(without(seq![block], newline_piece()) =~= Seq::<Seq<u8>>::empty());
    }
    assert(block != newline_piece());
    assert(block.len() > 0);
    assert(seq![block].drop_last() =~= Seq::<Seq<u8>>::empty());
    assert(seq![block].last() == block);
    assert(without(Seq::<Seq<u8>>::empty(), newline_piece()) == Seq::<Seq<u8>>::empty());
    assert(without(Seq::<Seq<u8>>::empty(), Seq::<u8>::empty()) == Seq::<Seq<u8>>::empty());
    assert(block != Seq::<u8>::empty());
    assert(without(seq![block], newline_piece()) =~= seq![block]);
    let once = without(pieces, newline_piece());
    lemma_without_join(once, seq![block], Seq::<u8>::empty());
    assert(without(seq![block], Seq::<u8>::empty()) =~= seq![block]);
    assert(map_chunks(longer) =~= map_chunks(contents) + seq![block]);
    assert(note_chunks(longer) =~= note_chunks(contents).push(block));
    let old_notes = note_chunks(contents);
    assert forall|i: int|
        0 <= i < note_chunks(longer).len() implies #[trigger] note_fields(
        note_chunks(longer)[i],
    ).len() >= 5 by {
        if i < old_notes.len() {
            assert(note_chunks(longer)[i] == old_notes[i]);
        }
    }
}

fn parse_flag_exec(f: &[u8]) -> (res: Option<bool>)
    ensures
        res == parse_flag(f@),
{
    if f.len() == 1 && f[0] == FLAG_OFF {
        assert(f@ =~= seq![FLAG_OFF]);
        Some(false)
    } else if f.len() == 1 && f[0] == FLAG_ON {
        assert(f@ =~= seq![FLAG_ON]);
        Some(true)
    } else {
        None
    }
}

fn parse_fields_exec(fields: &Vec<Vec<u8>>) -> (res: Option<NoteOptimized>)
    requires
        fields.len() >= 5,
    ensures
        res == parse_fields(fields@.map_values(|p: Vec<u8>| p@)),
{
    let ghost fs = fields@.map_values(|p: Vec<u8>| p@);
    assert(fs[0] == fields[0]@ && fs[1] == fields[1]@ && fs[2] == fields[2]@);
    assert(fs[3] == fields[3]@ && fs[4] == fields[4]@);
    let x = parse_u32(fields[0].as_slice());
    let don_or_ka = parse_flag_exec(fields[1].as_slice());
    let size = parse_flag_exec(fields[2].as_slice());
    let type_of_note = parse_flag_exec(fields[3].as_slice());
    let length_of_special = parse_u16(fields[4].as_slice());
    match (x, don_or_ka, size, type_of_note, length_of_special) {
        (Some(x), Some(don_or_ka), Some(size), Some(type_of_note), Some(length_of_special)) => Some(
            NoteOptimized { x, don_or_ka, size, type_of_note, length_of_special },
        ),
        _ => None,
    }
}

/// The blocks of a map, with the view of each.
fn chunks_of(contents: &[u8]) -> (chunks: Vec<Vec<u8>>)
    ensures
        chunks@.map_values(|p: Vec<u8>| p@) =~= map_chunks(contents@),
{
    let newline = vec![NEWLINE];
    assert(newline@ =~= newline_piece());
    let empty: Vec<u8> = Vec::new();
    let pieces = split_at_byte(contents, OPEN_BRACE);
    assert(pieces@.map_values(|p: Vec<u8>| p@) =~= split_pieces(contents@, OPEN_BRACE));
    let pieces = retain_unequal(pieces, newline.as_slice());
    assert(pieces@.map_values(|p: Vec<u8>| p@) =~= without(
        split_pieces(contents@, OPEN_BRACE),
        newline_piece(),
    ));
    let chunks = retain_unequal(pieces, empty.as_slice());
    assert(empty@ =~= Seq::<u8>::empty());
    chunks
}

/// The fields of a note's block, with the view of each.
fn fields_of(chunk: &[u8]) -> (fields: Vec<Vec<u8>>)
    ensures
        fields@.map_values(|p: Vec<u8>| p@) =~= note_fields(chunk@),
{
    let newline = vec![NEWLINE];
    assert(newline@ =~= newline_piece());
    let pieces = split_at_byte(chunk, COMMA);
    assert(pieces@.map_values(|p: Vec<u8>| p@) =~= split_pieces(chunk@, COMMA));
    let fields = retain_unequal(pieces, newline.as_slice());
    fields
}

/// Whether a map's text can be loaded: it is the word `error`, or it has a
/// metadata block and every note has at least five fields.
pub fn map_is_loadable(contents: &[u8]) -> (ok: bool)
    ensures
        ok == (contents@ == error_marker() || map_is_well_shaped(contents@)),
{
    let marker = vec![101u8, 114u8, 114u8, 111u8, 114u8];
    assert(marker@ =~= error_marker());
    if bytes_equal(contents, marker.as_slice()) {
        return true;
    }
    let chunks = chunks_of(contents);
    let ghost all = map_chunks(contents@);
    if chunks.len() == 0 {
        return false;
    }
    let n = chunks.len();
    assert(note_chunks(contents@) =~= all.drop_first());
    for i in 1..n
        invariant
            n == chunks.len(),
            n >= 1,
            contents@ != error_marker(),
            all == map_chunks(contents@),
            chunks@.map_values(|p: Vec<u8>| p@) == all,
            forall|j: int| 0 <= j < i - 1 ==> #[trigger] note_fields(all.drop_first()[j]).len() >= 5,
    {
        assert(all.drop_first()[i - 1] == chunks[i as int]@);
        let fields = fields_of(chunks[i].as_slice());
        if fields.len() < 5 {
            assert(note_fields(note_chunks(contents@)[i - 1]).len() < 5);
            return false;
        }
    }
    assert(map_is_well_shaped(contents@));
    true
}

impl NotesInSong {
    /// Loads the notes of a map, adding them after the notes already held.
    ///
    /// The text `error` stands for a map that could not be read, and loads
    /// nothing. Otherwise every note is checked; the valid notes are added up
    /// to the first invalid one, and the positions of all invalid notes,
    /// counted from one, are returned.
    pub fn load_from(&mut self, contents: &[u8]) -> (res: Result<Vec<usize>, MapError>)
        requires
            contents@ != error_marker() ==> map_is_well_shaped(contents@),
        ensures
            contents@ == error_marker() ==> res == Err::<Vec<usize>, MapError>(MapError::Unreadable)
                && final(self).notes@ == old(self).notes@,
            contents@ != error_marker() ==> res is Ok,
            res matches Ok(invalid) ==> {
                &&& final(self).notes@.len() >= old(self).notes@.len()
                &&& final(self).notes@.take(old(self).notes@.len() as int) == old(self).notes@
                &&& leading_valid_notes(
                    note_chunks(contents@),
                    final(self).notes@.skip(old(self).notes@.len() as int),
                )
                &&& invalid@.map_values(|v: usize| v as int) == invalid_note_numbers(
                    note_chunks(contents@),
                )
            },
    {
        let marker = vec![101u8, 114u8, 114u8, 111u8, 114u8];
        assert(marker@ =~= error_marker());
        if bytes_equal(contents, marker.as_slice()) {
            return Err(MapError::Unreadable);
        }
        let chunks = chunks_of(contents);
        let ghost notes_chunks = note_chunks(contents@);
        let ghost start = self.notes@;
        let n = chunks.len();
        assert(notes_chunks.len() == n - 1);
        let mut invalid: Vec<usize> = Vec::new();
        let mut all_valid = true;
        assert(notes_chunks.take(0) =~= Seq::<Seq<u8>>::empty());
        assert(self.notes@.skip(start.len() as int) =~= Seq::<NoteOptimized>::empty());
        for i in 1..n
            invariant
                n == chunks.len(),
                n >= 1,
                notes_chunks == note_chunks(contents@),
                notes_chunks =~= chunks@.map_values(|p: Vec<u8>| p@).drop_first(),
                map_is_well_shaped(contents@),
                self.notes@.len() >= start.len(),
                self.notes@.take(start.len() as int) == start,
                ({
                    let added = self.notes@.skip(start.len() as int);
                    &&& added.len() <= i - 1
                    &&& forall|k: int|
                        0 <= k < added.len() ==> parse_note(#[trigger] notes_chunks[k]) == Some(
                            added[k],
                        )
                    &&& all_valid ==> added.len() == i - 1
                    &&& !all_valid ==> added.len() < i - 1
                    &&& !all_valid ==> parse_note(notes_chunks[added.len() as int]) is None
                }),
                invalid@.map_values(|v: usize| v as int) == invalid_note_numbers(
                    notes_chunks.take(i - 1),
                ),
                all_valid == (invalid@.len() == 0),
        {
            let ghost k = i - 1;
            let ghost added_before = self.notes@.skip(start.len() as int);
            assert(notes_chunks[k] == chunks[i as int]@);
            assert(notes_chunks.take(k + 1).drop_last() =~= notes_chunks.take(k));
            assert(notes_chunks.take(k + 1).last() == notes_chunks[k]);
            let fields = fields_of(chunks[i].as_slice());
            assert(note_fields(notes_chunks[k]).len() >= 5);
            let note = parse_fields_exec(&fields);
            assert(note == parse_note(notes_chunks[k]));
            match note {
                Some(note) => {
                    assert(invalid_note_numbers(notes_chunks.take(k + 1)) == invalid_note_numbers(
                        notes_chunks.take(k),
                    ));
                    if all_valid {
                        self.notes.push(note);
                        assert(self.notes@.skip(start.len() as int) =~= added_before.push(note));
                        assert(self.notes@.take(start.len() as int) =~= start);
                    }
                },
                None => {
                    assert(invalid_note_numbers(notes_chunks.take(k + 1)) == invalid_note_numbers(
                        notes_chunks.take(k),
                    ).push(i as int));
                    let ghost before = invalid@;
                    invalid.push(i);
                    all_valid = false;
                    assert(invalid@.map_values(|v: usize| v as int) =~= before.map_values(
                        |v: usize| v as int,
                    ).push(i as int));
                },
            }
        }
        proof {
            assert(notes_chunks.take(n - 1) =~= notes_chunks);
        }
        Ok(invalid)
    }
}

} // verus!

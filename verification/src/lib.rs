//! Music-theory helpers: spelling of notes, intervals between notes, and
//! construction and recognition of triads.
//!
//! The two functions at the crate root take and give plain strings, so
//! that a caller on the far side of a string-only boundary can use them.

use vstd::prelude::*;

pub mod chords;
pub mod intervals;
pub mod notes;
pub mod text;

use crate::chords::{recognized_chords, triad_determinable};
use crate::text::{join_commas, split_commas};

verus! {

/// Lowers a note by a half step (see `notes::diminish`).
pub fn diminish(note: &str) -> (result: String)
    requires
        note@.len() > 0,
    ensures
        result@ == notes::diminished(note@),
{
    notes::diminish(note)
}

/// The comma-separated notes that `determine_triad` accepts: at least three
/// pieces, every two of the first three accepted by `intervals::determine`.
pub open spec fn triad_text_determinable(notes: Seq<char>) -> bool {
    let pieces = split_commas(notes);
    &&& pieces.len() >= 3
    &&& triad_determinable(pieces[0], pieces[1], pieces[2])
}

/// The chords formed by the first three of the comma-separated notes.
pub open spec fn recognized_text(notes: Seq<char>) -> Seq<char> {
    let pieces = split_commas(notes);
    join_commas(recognized_chords(pieces[0], pieces[1], pieces[2]))
}

/// Names the chords that the first three comma-separated notes form, e.g.
/// `"C Major Triad"` for `"C,E,G"`; several chords are separated by commas.
pub fn determine_triad(notes: &str) -> (result: String)
    requires
        triad_text_determinable(notes@),
    ensures
        result@ == recognized_text(notes@),
{
    let triad = text::split_at_commas(notes);
    let result_vec = chords::determine_triad(triad);
    text::join_with_commas(&result_vec)
}

/// Whether `determine_triad` accepts the text `notes`.
pub fn is_determinable_triad(notes: &str) -> (accepted: bool)
    ensures
        accepted == triad_text_determinable(notes@),
{
    let pieces = text::split_at_commas(notes);
    if pieces.len() < 3 {
        return false;
    }
    intervals::can_determine(pieces[0], pieces[1]) && intervals::can_determine(pieces[0], pieces[2])
        && intervals::can_determine(pieces[1], pieces[2])
}


/// Text whose first three comma-separated pieces each start with a natural
/// letter is accepted by `determine_triad`, whatever sharps or flats follow
/// (e.g. "Bb,D,F" or "C,Eb,G").
pub proof fn note_triads_are_determinable(notes: Seq<char>)
    requires
        split_commas(notes).len() >= 3,
        notes::valid_note(split_commas(notes)[0]),
        notes::valid_note(split_commas(notes)[1]),
        notes::valid_note(split_commas(notes)[2]),
    ensures
        triad_text_determinable(notes),
{
}

} // verus!

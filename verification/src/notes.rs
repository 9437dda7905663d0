//! Notes are written as a natural letter followed by accidentals,
//! `'#'` for a sharp and `'b'` for a flat, e.g. `"C"`, `"F#"`, `"Abb"`.

use vstd::prelude::*;
use vstd::string::StrSliceExecFns;
use vstd::string::StringExecFns;

verus! {

/// A natural note letter.
pub open spec fn is_natural(c: char) -> bool {
    c == 'A' || c == 'B' || c == 'C' || c == 'D' || c == 'E' || c == 'F' || c == 'G'
}

/// Whether `c` is a natural note letter.
pub fn is_natural_letter(c: char) -> (natural: bool)
    ensures
        natural == is_natural(c),
{
    c == 'A' || c == 'B' || c == 'C' || c == 'D' || c == 'E' || c == 'F' || c == 'G'
}

/// A note that the pitch functions accept: it starts with a natural letter.
pub open spec fn valid_note(s: Seq<char>) -> bool {
    s.len() > 0 && is_natural(s[0])
}

/// The note lowered by a half step: a trailing sharp is removed,
/// otherwise a flat is appended.
pub open spec fn diminished(s: Seq<char>) -> Seq<char> {
    if s.last() == '#' {
        s.drop_last()
    } else {
        s.push('b')
    }
}

/// The note raised by a half step: a trailing flat is removed,
/// otherwise a sharp is appended.
pub open spec fn augmented(s: Seq<char>) -> Seq<char> {
    if s.last() == 'b' {
        s.drop_last()
    } else {
        s.push('#')
    }
}

/// Lowers a note by a half step.
pub fn diminish(note: &str) -> (result: String)
    requires
        note@.len() > 0,
    ensures
        result@ == diminished(note@),
{
    let len = note.unicode_len();
    let last_char = note.get_char(len - 1);
    if last_char != '#' {
        let result = String::from_str(note);
        proof {
            reveal_strlit("b");
        }
        let result = result.concat("b");
        assert(result@ =~= note@.push('b'));
        result
    } else {
        let result = String::from_str(note.substring_char(0, len - 1));
        assert(result@ =~= note@.drop_last());
        result
    }
}


/// Raises a note by a half step.
pub fn augment(note: &str) -> (result: String)
    requires
        note@.len() > 0,
    ensures
        result@ == augmented(note@),
{
    let len = note.unicode_len();
    let last_char = note.get_char(len - 1);
    if last_char != 'b' {
        let result = String::from_str(note);
        proof {
            reveal_strlit("#");
        }
        let result = result.concat("#");
        assert(result@ =~= note@.push('#'));
        result
    } else {
        let result = String::from_str(note.substring_char(0, len - 1));
        assert(result@ =~= note@.drop_last());
        result
    }
}

/// Half steps above C of a natural letter.
pub open spec fn natural_value(c: char) -> int {
    if c == 'C' {
        0
    } else if c == 'D' {
        2
    } else if c == 'E' {
        4
    } else if c == 'F' {
        5
    } else if c == 'G' {
        7
    } else if c == 'A' {
        9
    } else {
        11
    }
}

/// What one character contributes to the pitch: a sharp raises, a flat lowers.
pub open spec fn accidental_value(c: char) -> int {
    if c == '#' {
        1
    } else if c == 'b' {
        -1
    } else {
        0
    }
}

/// Number of sharps minus number of flats in `s`.
pub open spec fn accidental_sum(s: Seq<char>) -> int
    decreases s.len(),
{
    if s.len() == 0 {
        0
    } else {
        accidental_sum(s.drop_last()) + accidental_value(s.last())
    }
}

/// The pitch class of a note, in half steps above C, between 0 and 11.
pub open spec fn pitch(s: Seq<char>) -> int {
    (natural_value(s[0]) + accidental_sum(s)) % 12
}

/// Pitch class of a note: 0 for C up to 11 for B, counting every sharp
/// up and every flat down.
pub fn note_to_int(note: &str) -> (value: i32)
    requires
        valid_note(note@),
    ensures
        value == pitch(note@),
        0 <= value < 12,
{
    let root_note = note.get_char(0);
    let mut val: i32 = if root_note == 'C' {
        0
    } else if root_note == 'D' {
        2
    } else if root_note == 'E' {
        4
    } else if root_note == 'F' {
        5
    } else if root_note == 'G' {
        7
    } else if root_note == 'A' {
        9
    } else {
        11
    };
    let len = note.unicode_len();
    let mut i: usize = 0;
    while i < len
        invariant
            len == note@.len(),
            valid_note(note@),
            root_note == note@[0],
            i <= len,
            0 <= val < 12,
            val == (natural_value(root_note) + accidental_sum(note@.take(i as int))) % 12,
        decreases len - i,
    {
        let c = note.get_char(i);
        assert(note@.take(i + 1).drop_last() =~= note@.take(i as int));
        if c == 'b' {
            if val == 0 {
                val = 11;
            } else {
                val = val - 1;
            }
        } else if c == '#' {
            if val == 11 {
                val = 0;
            } else {
                val = val + 1;
            }
        }
        i = i + 1;
    }
    assert(note@.take(len as int) =~= note@);
    val
}


/// Lowering a note by a half step keeps its letter, keeps it a valid note,
/// and lowers its pitch class by one (from C it wraps to B).
pub proof fn diminish_lowers_pitch(s: Seq<char>)
    requires
        valid_note(s),
    ensures
        valid_note(diminished(s)),
        diminished(s)[0] == s[0],
        pitch(diminished(s)) == (pitch(s) + 11) % 12,
{
    if s.last() == '#' {
        assert(s.len() >= 2);
    } else {
        assert(s.push('b').drop_last() =~= s);
    }
}

/// Raising a note by a half step keeps its letter, keeps it a valid note,
/// and raises its pitch class by one (from B it wraps to C).
pub proof fn augment_raises_pitch(s: Seq<char>)
    requires
        valid_note(s),
    ensures
        valid_note(augmented(s)),
        augmented(s)[0] == s[0],
        pitch(augmented(s)) == (pitch(s) + 1) % 12,
{
    if s.last() == 'b' {
        assert(s.len() >= 2);
    } else {
        assert(s.push('#').drop_last() =~= s);
    }
}

/// Raising a note that was lowered gives the note back, unless the note
/// ends in a flat followed by a sharp.
pub proof fn augment_undoes_diminish(s: Seq<char>)
    requires
        valid_note(s),
        !(s.last() == '#' && s[s.len() - 2] == 'b'),
    ensures
        augmented(diminished(s)) == s,
{
    if s.last() == '#' {
        assert(s.len() >= 2);
        assert(s.drop_last().last() == s[s.len() - 2]);
        assert(s.drop_last().push('#') =~= s);
    } else {
        assert(s.push('b').drop_last() =~= s);
    }
}

/// Lowering a note that was raised gives the note back, unless the note
/// ends in a sharp followed by a flat.
pub proof fn diminish_undoes_augment(s: Seq<char>)
    requires
        valid_note(s),
        !(s.last() == 'b' && s[s.len() - 2] == '#'),
    ensures
        diminished(augmented(s)) == s,
{
    if s.last() == 'b' {
        assert(s.len() >= 2);
        assert(s.drop_last().last() == s[s.len() - 2]);
        assert(s.drop_last().push('b') =~= s);
    } else {
        assert(s.push('#').drop_last() =~= s);
    }
}

} // verus!

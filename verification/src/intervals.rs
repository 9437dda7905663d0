//! Intervals between notes: letters a number of scale steps apart, the
//! number of half steps between two notes, spelling a note a given number
//! of half steps above another, and naming the interval between two notes.

use vstd::prelude::*;
use vstd::string::StrSliceExecFns;
use vstd::string::StringExecFns;

use crate::notes;
use crate::notes::{accidental_sum, augmented, diminished, is_natural, pitch, valid_note};
use crate::text::{push_repeated, repeat_char};

verus! {

/// The letters of the key of C, in scale order.
pub open spec fn key_letter(i: int) -> char {
    if i == 0 {
        'C'
    } else if i == 1 {
        'D'
    } else if i == 2 {
        'E'
    } else if i == 3 {
        'F'
    } else if i == 4 {
        'G'
    } else if i == 5 {
        'A'
    } else {
        'B'
    }
}

/// Position of a natural letter in the key of C (C is 0, B is 6).
pub open spec fn key_index(c: char) -> int {
    if c == 'C' {
        0
    } else if c == 'D' {
        1
    } else if c == 'E' {
        2
    } else if c == 'F' {
        3
    } else if c == 'G' {
        4
    } else if c == 'A' {
        5
    } else {
        6
    }
}

/// The letter `n` scale steps above the letter `root`; a root that is not
/// a natural letter gives C.
pub open spec fn interval_letter(root: char, n: int) -> char {
    if is_natural(root) {
        key_letter((key_index(root) + n) % 7)
    } else {
        'C'
    }
}

/// Half steps from `a` up to `b`, between 0 and 11.
pub open spec fn half_steps(a: Seq<char>, b: Seq<char>) -> int {
    (pitch(b) - pitch(a)) % 12
}

fn key_string(i: usize) -> (s: String)
    requires
        i < 7,
    ensures
        s@ == seq![key_letter(i as int)],
{
    proof {
        reveal_strlit("C");
        reveal_strlit("D");
        reveal_strlit("E");
        reveal_strlit("F");
        reveal_strlit("G");
        reveal_strlit("A");
        reveal_strlit("B");
    }
    let s = if i == 0 {
        String::from_str("C")
    } else if i == 1 {
        String::from_str("D")
    } else if i == 2 {
        String::from_str("E")
    } else if i == 3 {
        String::from_str("F")
    } else if i == 4 {
        String::from_str("G")
    } else if i == 5 {
        String::from_str("A")
    } else {
        String::from_str("B")
    };
    assert(s@ =~= seq![key_letter(i as int)]);
    s
}

fn key_char(i: usize) -> (c: char)
    requires
        i < 7,
    ensures
        c == key_letter(i as int),
{
    if i == 0 {
        'C'
    } else if i == 1 {
        'D'
    } else if i == 2 {
        'E'
    } else if i == 3 {
        'F'
    } else if i == 4 {
        'G'
    } else if i == 5 {
        'A'
    } else {
        'B'
    }
}

/// The letter `steps` scale steps above the letter of `start_note`,
/// counted in the key of C; a note whose letter is not a natural one gives C.
pub fn interval(start_note: &str, steps: usize) -> (result: String)
    requires
        start_note@.len() > 0,
    ensures
        result@ == seq![interval_letter(start_note@[0], steps as int)],
{
    let start_note_root = start_note.get_char(0);
    let mut index: usize = 0;
    let mut i: usize = 0;
    while i < 7
        invariant
            i <= 7,
            start_note_root == start_note@[0],
            forall|j: int| 0 <= j < i ==> key_letter(j) != start_note_root,
            index == 0,
        decreases 7 - i,
    {
        if key_char(i) == start_note_root {
            index = (i + steps % 7) % 7;
            assert(key_index(start_note_root) == i);
            return key_string(index);
        }
        i = i + 1;
    }
    assert(!is_natural(start_note_root)) by {
        assert(key_letter(0) != start_note_root);
        assert(key_letter(1) != start_note_root);
        assert(key_letter(2) != start_note_root);
        assert(key_letter(3) != start_note_root);
        assert(key_letter(4) != start_note_root);
        assert(key_letter(5) != start_note_root);
        assert(key_letter(6) != start_note_root);
    }
    key_string(index)
}

/// The letter two scale steps above the letter of `note`.
pub fn third(note: &str) -> (result: String)
    requires
        note@.len() > 0,
    ensures
        result@ == seq![interval_letter(note@[0], 2)],
{
    interval(note, 2)
}

/// The letter four scale steps above the letter of `note`.
pub fn fifth(note: &str) -> (result: String)
    requires
        note@.len() > 0,
    ensures
        result@ == seq![interval_letter(note@[0], 4)],
{
    interval(note, 4)
}

/// The number of half steps from `note1` up to `note2`, between 0 and 11.
pub fn measure(note1: &str, note2: &str) -> (result: usize)
    requires
        valid_note(note1@),
        valid_note(note2@),
    ensures
        result == half_steps(note1@, note2@),
        result < 12,
{
    let note1_int = notes::note_to_int(note1);
    let note2_int = notes::note_to_int(note2);
    let diff = note2_int - note1_int;
    let result: i32;
    if diff < 0 {
        result = 12 + diff;
    } else {
        result = diff;
    }
    result as usize
}


/// Where lowering the upper note one half step at a time stops: the first
/// distance at or below `interval`, starting one half step below `m`.
pub open spec fn lowered_until(m: int, interval: int) -> int {
    if (m - 1) % 12 <= interval {
        (m - 1) % 12
    } else {
        interval
    }
}

/// Where raising the upper note one half step at a time stops: the first
/// distance at or above `interval`, starting one half step above `m`.
pub open spec fn raised_until(m: int, interval: int) -> int {
    if (m + 1) % 12 >= interval {
        (m + 1) % 12
    } else {
        interval
    }
}

pub(crate) proof fn half_steps_step(p1: int, p2: int)
    ensures
        ((p2 + 1) % 12 - p1) % 12 == ((p2 - p1) % 12 + 1) % 12,
        ((p2 + 11) % 12 - p1) % 12 == ((p2 - p1) % 12 - 1) % 12,
{
}

proof fn raised_until_step(m: int, interval: int)
    requires
        0 <= m < 12,
        0 <= interval <= 11,
    ensures
        (m + 1) % 12 < interval ==> raised_until(m, interval) == raised_until((m + 1) % 12, interval),
        (m + 1) % 12 >= interval ==> raised_until(m, interval) == (m + 1) % 12,
{
}

/// Lowers `note2` one half step at a time, at least once, until it lies at
/// most `interval` half steps above `note1`, and returns that distance.
/// The value passed as `current` is not used.
pub fn diminish_until(note1: &str, note2: &str, interval: usize, current: usize) -> (result: usize)
    requires
        valid_note(note1@),
        valid_note(note2@),
    ensures
        result == lowered_until(half_steps(note1@, note2@), interval as int),
    decreases (half_steps(note1@, note2@) - 1) % 12,
{
    let ghost given = note2@;
    let note2 = notes::diminish(note2);
    proof {
        notes::diminish_lowers_pitch(given);
        half_steps_step(pitch(note1@), pitch(given));
        assert(half_steps(note1@, note2@) == (half_steps(note1@, given) - 1) % 12);
    }
    let mut current = measure(note1, note2.as_str());
    if current > interval {
        current = diminish_until(note1, note2.as_str(), interval, current);
    }
    current
}

/// Raises `note2` one half step at a time, at least once, until it lies at
/// least `interval` half steps above `note1`, and returns that distance.
/// The value passed as `current` is not used.
pub fn augment_until(note1: &str, note2: &str, interval: usize, current: usize) -> (result: usize)
    requires
        valid_note(note1@),
        valid_note(note2@),
        interval <= 11,
    ensures
        result == raised_until(half_steps(note1@, note2@), interval as int),
    decreases interval - (half_steps(note1@, note2@) + 1) % 12,
{
    let ghost given = note2@;
    let note2 = notes::augment(note2);
    proof {
        notes::augment_raises_pitch(given);
        half_steps_step(pitch(note1@), pitch(given));
        assert(half_steps(note1@, note2@) == (half_steps(note1@, given) + 1) % 12);
        raised_until_step(half_steps(note1@, given), interval as int);
    }
    let mut current = measure(note1, note2.as_str());
    if current < interval {
        current = augment_until(note1, note2.as_str(), interval, current);
    }
    current
}


/// `k` sharps for a positive `k`, `-k` flats for a negative one.
pub open spec fn accidentals(k: int) -> Seq<char> {
    if k >= 0 {
        repeat_char('#', k as nat)
    } else {
        repeat_char('b', (-k) as nat)
    }
}

/// A count of accidentals folded the way the spelling step folds it:
/// above 6 it becomes `-12 + n % 12`, below -6 it becomes `12 + n rem 12`
/// (the remainder taking the sign of `n`), and otherwise it is kept.
pub open spec fn folded_accidentals(n: int) -> int {
    if n > 6 {
        -12 + n % 12
    } else if n < -6 {
        12 - (-n) % 12
    } else {
        n
    }
}

/// The note raised `k` half steps one at a time for positive `k`, or lowered
/// `-k` half steps one at a time for negative `k`.
pub open spec fn shifted(s: Seq<char>, k: int) -> Seq<char>
    decreases (if k >= 0 {
        k
    } else {
        -k
    }),
{
    if k > 0 {
        shifted(augmented(s), k - 1)
    } else if k < 0 {
        shifted(diminished(s), k + 1)
    } else {
        s
    }
}

/// The spelling of a note `interval` half steps above `note1` on the letter
/// of `note2`: `note2` with as many sharps or flats appended as it lies below
/// or above that distance, then raised or lowered once more for each of the
/// (folded) accidentals that `note2` itself carried.
pub open spec fn spelled(note1: Seq<char>, note2: Seq<char>, interval: int) -> Seq<char> {
    shifted(
        note2 + accidentals(interval - half_steps(note1, note2)),
        folded_accidentals(accidental_sum(note2.drop_first())),
    )
}

/// Spells the note `interval` half steps above `note1` on the letter of
/// `note2` (see `spelled`).
pub fn augment_or_diminish_until(note1: &str, note2: &str, interval: usize) -> (result: String)
    requires
        valid_note(note1@),
        valid_note(note2@),
        interval <= 11,
    ensures
        result@ == spelled(note1@, note2@, interval as int),
{
    proof {
        reveal_strlit("b");
        reveal_strlit("#");
    }
    let diff = measure(note1, note2);
    let mut result = String::from_str(note2);
    if diff > interval {
        let current = diminish_until(note1, note2, interval, diff);
        push_repeated(&mut result, "b", diff - current);
    } else if diff < interval {
        let current = augment_until(note1, note2, interval, diff);
        push_repeated(&mut result, "#", current - diff);
    }
    assert(result@ =~= note2@ + accidentals(interval - diff));
    let ghost base = result@;

    let len = note2.unicode_len();
    let mut sharps: usize = 0;
    let mut flats: usize = 0;
    let mut i: usize = 1;
    while i < len
        invariant
            len == note2@.len(),
            1 <= i <= len,
            sharps + flats <= i - 1,
            sharps - flats == accidental_sum(note2@.subrange(1, i as int)),
        decreases len - i,
    {
        let c = note2.get_char(i);
        assert(note2@.subrange(1, i + 1).drop_last() =~= note2@.subrange(1, i as int));
        if c == '#' {
            sharps = sharps + 1;
        } else if c == 'b' {
            flats = flats + 1;
        }
        i = i + 1;
    }
    assert(note2@.subrange(1, len as int) =~= note2@.drop_first());
    let mut num_accidentals: i32 = if sharps >= flats {
        let p = sharps - flats;
        if p > 6 {
            (p % 12) as i32 - 12
        } else {
            p as i32
        }
    } else {
        let q = flats - sharps;
        if q > 6 {
            12 - (q % 12) as i32
        } else {
            0 - (q as i32)
        }
    };
    let ghost k = num_accidentals as int;
    assert(k == folded_accidentals(accidental_sum(note2@.drop_first())));

    while num_accidentals > 0
        invariant
            valid_note(result@),
            -12 <= num_accidentals <= 12,
            shifted(result@, num_accidentals as int) == shifted(base, k),
        decreases num_accidentals,
    {
        proof {
            notes::augment_raises_pitch(result@);
        }
        result = notes::augment(result.as_str());
        num_accidentals = num_accidentals - 1;
    }
    while num_accidentals < 0
        invariant
            valid_note(result@),
            -12 <= num_accidentals <= 0,
            shifted(result@, num_accidentals as int) == shifted(base, k),
        decreases 0 - num_accidentals,
    {
        proof {
            notes::diminish_lowers_pitch(result@);
        }
        result = notes::diminish(result.as_str());
        num_accidentals = num_accidentals + 1;
    }
    result
}


/// The number of sharps minus flats in `repeat_char(c, n)`.
proof fn accidental_sum_appended(s: Seq<char>, c: char, n: nat)
    ensures
        c == '#' ==> accidental_sum(s + repeat_char(c, n)) == accidental_sum(s) + n,
        c == 'b' ==> accidental_sum(s + repeat_char(c, n)) == accidental_sum(s) - n,
    decreases n,
{
    if n > 0 {
        accidental_sum_appended(s, c, (n - 1) as nat);
        assert((s + repeat_char(c, n)).drop_last() =~= s + repeat_char(c, (n - 1) as nat));
        assert((s + repeat_char(c, n)).last() == c);
    } else {
        assert(s + repeat_char(c, n) =~= s);
    }
}

/// Appending accidentals for `k` half steps to a valid note keeps its letter
/// and moves its pitch class by `k`.
proof fn accidentals_move_pitch(s: Seq<char>, k: int)
    requires
        valid_note(s),
    ensures
        valid_note(s + accidentals(k)),
        (s + accidentals(k))[0] == s[0],
        pitch(s + accidentals(k)) == (pitch(s) + k) % 12,
{
    if k >= 0 {
        accidental_sum_appended(s, '#', k as nat);
    } else {
        accidental_sum_appended(s, 'b', (-k) as nat);
    }
}

/// Raising or lowering a valid note `k` times keeps its letter and moves its
/// pitch class by `k`.
pub proof fn shifted_moves_pitch(s: Seq<char>, k: int)
    requires
        valid_note(s),
    ensures
        valid_note(shifted(s, k)),
        shifted(s, k)[0] == s[0],
        pitch(shifted(s, k)) == (pitch(s) + k) % 12,
    decreases (if k >= 0 {
        k
    } else {
        -k
    }),
{
    if k > 0 {
        notes::augment_raises_pitch(s);
        shifted_moves_pitch(augmented(s), k - 1);
    } else if k < 0 {
        notes::diminish_lowers_pitch(s);
        shifted_moves_pitch(diminished(s), k + 1);
    }
}

/// A spelled note is a valid note on the letter of `note2`, and its pitch
/// class lies `interval` half steps above `note1`, moved once more by the
/// folded accidentals of `note2`.
pub proof fn spelled_pitch(note1: Seq<char>, note2: Seq<char>, interval: int)
    requires
        valid_note(note1),
        valid_note(note2),
    ensures
        valid_note(spelled(note1, note2, interval)),
        spelled(note1, note2, interval)[0] == note2[0],
        pitch(spelled(note1, note2, interval)) == (pitch(note1) + interval + folded_accidentals(
            accidental_sum(note2.drop_first()),
        )) % 12,
{
    let base = note2 + accidentals(interval - half_steps(note1, note2));
    let k = folded_accidentals(accidental_sum(note2.drop_first()));
    accidentals_move_pitch(note2, interval - half_steps(note1, note2));
    shifted_moves_pitch(base, k);
}

/// Spelling on a natural letter lands exactly `interval` half steps above
/// `note1`, on that letter.
pub proof fn spelled_on_letter(note1: Seq<char>, letter: char, interval: int)
    requires
        valid_note(note1),
        notes::is_natural(letter),
        0 <= interval <= 11,
    ensures
        valid_note(spelled(note1, seq![letter], interval)),
        spelled(note1, seq![letter], interval)[0] == letter,
        half_steps(note1, spelled(note1, seq![letter], interval)) == interval,
{
    let note2 = seq![letter];
    assert(accidental_sum(note2.drop_first()) == 0) by {
        assert(note2.drop_first() =~= Seq::<char>::empty());
    }
    spelled_pitch(note1, note2, interval);
    let p1 = pitch(note1);
    let sp = spelled(note1, note2, interval);
    assert(pitch(sp) == (p1 + interval) % 12);
    half_steps_above(p1, interval);
}

proof fn half_steps_above(p: int, i: int)
    requires
        0 <= p < 12,
        0 <= i < 12,
    ensures
        ((p + i) % 12 - p) % 12 == i,
{
}

/// The notes built on the letter `steps` scale steps above a valid note keep
/// that letter.
pub proof fn spelled_keeps_letter(note: Seq<char>, steps: int, interval: int)
    requires
        valid_note(note),
        0 <= interval <= 11,
    ensures
        valid_note(spelled(note, seq![interval_letter(note[0], steps)], interval)),
        spelled(note, seq![interval_letter(note[0], steps)], interval)[0] == interval_letter(note[0], steps),
        half_steps(note, spelled(note, seq![interval_letter(note[0], steps)], interval)) == interval,
{
    spelled_on_letter(note, interval_letter(note[0], steps), interval);
}

/// The major third above `note`, spelled on the letter two steps up.
pub open spec fn major_third_of(note: Seq<char>) -> Seq<char> {
    spelled(note, seq![interval_letter(note[0], 2)], 4)
}

/// The minor third above `note`, spelled on the letter two steps up.
pub open spec fn minor_third_of(note: Seq<char>) -> Seq<char> {
    spelled(note, seq![interval_letter(note[0], 2)], 3)
}

/// The perfect fifth above `note`, spelled on the letter four steps up.
pub open spec fn major_fifth_of(note: Seq<char>) -> Seq<char> {
    spelled(note, seq![interval_letter(note[0], 4)], 7)
}

/// The diminished fifth above `note`, spelled on the letter four steps up.
pub open spec fn minor_fifth_of(note: Seq<char>) -> Seq<char> {
    spelled(note, seq![interval_letter(note[0], 4)], 6)
}

/// The note four half steps above `note`, spelled on the letter two steps up.
pub fn major_third(note: &str) -> (result: String)
    requires
        valid_note(note@),
    ensures
        result@ == major_third_of(note@),
{
    let note_root = note.substring_char(0, 1);
    let third = third(note_root);
    augment_or_diminish_until(note, third.as_str(), 4)
}

/// The note three half steps above `note`, spelled on the letter two steps up.
pub fn minor_third(note: &str) -> (result: String)
    requires
        valid_note(note@),
    ensures
        result@ == minor_third_of(note@),
{
    let note_root = note.substring_char(0, 1);
    let third = third(note_root);
    augment_or_diminish_until(note, third.as_str(), 3)
}

/// The note seven half steps above `note`, spelled on the letter four steps up.
pub fn major_fifth(note: &str) -> (result: String)
    requires
        valid_note(note@),
    ensures
        result@ == major_fifth_of(note@),
{
    let note_root = note.substring_char(0, 1);
    let fifth = fifth(note_root);
    augment_or_diminish_until(note, fifth.as_str(), 7)
}

/// The note six half steps above `note`, spelled on the letter four steps up.
pub fn minor_fifth(note: &str) -> (result: String)
    requires
        valid_note(note@),
    ensures
        result@ == minor_fifth_of(note@),
{
    let note_root = note.substring_char(0, 1);
    let fifth = fifth(note_root);
    augment_or_diminish_until(note, fifth.as_str(), 6)
}

/// The perfect fifth above `note`; the same as `major_fifth`.
pub fn perfect_fifth(note: &str) -> (result: String)
    requires
        valid_note(note@),
    ensures
        result@ == major_fifth_of(note@),
{
    major_fifth(note)
}


/// Position of a natural letter on the circle of fifths starting from C
/// (C, G, D, A, E, B, F).
pub open spec fn fifths_index(c: char) -> int {
    if c == 'C' {
        0
    } else if c == 'G' {
        1
    } else if c == 'D' {
        2
    } else if c == 'A' {
        3
    } else if c == 'E' {
        4
    } else if c == 'B' {
        5
    } else {
        6
    }
}

/// The interval number reached by going `steps` fifths up (0 to 6).
pub open spec fn interval_number(steps: int) -> char {
    if steps == 0 {
        '1'
    } else if steps == 1 {
        '5'
    } else if steps == 2 {
        '2'
    } else if steps == 3 {
        '6'
    } else if steps == 4 {
        '3'
    } else if steps == 5 {
        '7'
    } else {
        '4'
    }
}

/// Half steps in the major or perfect interval reached by going `steps`
/// fifths up (0 to 6).
pub open spec fn major_size(steps: int) -> int {
    if steps == 0 {
        0
    } else if steps == 1 {
        7
    } else if steps == 2 {
        2
    } else if steps == 3 {
        9
    } else if steps == 4 {
        4
    } else if steps == 5 {
        11
    } else {
        5
    }
}

/// The name of a unison from the accidental counts of its two notes.
pub open spec fn unison_name(v1: int, v2: int) -> Seq<char> {
    if v1 == v2 {
        seq!['1']
    } else if v1 < v2 {
        seq!['#', '1']
    } else {
        seq!['b', '1']
    }
}

/// The notes that `determine` accepts: both non-empty, and when their
/// letters differ, both letters natural.
pub open spec fn determinable(a: Seq<char>, b: Seq<char>) -> bool {
    &&& a.len() > 0
    &&& b.len() > 0
    &&& a[0] != b[0] ==> is_natural(a[0]) && is_natural(b[0])
}

/// The name of the interval from `a` up to `b`: for the same letter, a
/// unison compared by accidental counts; otherwise the interval number
/// found on the circle of fifths, preceded by one sharp per half step above
/// the major or perfect size, or one flat per half step below it.
pub open spec fn interval_name(a: Seq<char>, b: Seq<char>) -> Seq<char> {
    if a[0] == b[0] {
        unison_name(accidental_sum(a), accidental_sum(b))
    } else {
        let steps = (fifths_index(b[0]) - fifths_index(a[0])) % 7;
        accidentals(half_steps(a, b) - major_size(steps)).push(interval_number(steps))
    }
}

/// Whether `determine` accepts the two notes.
pub fn can_determine(note1: &str, note2: &str) -> (accepted: bool)
    ensures
        accepted == determinable(note1@, note2@),
{
    if note1.unicode_len() == 0 || note2.unicode_len() == 0 {
        return false;
    }
    let root1 = note1.get_char(0);
    let root2 = note2.get_char(0);
    root1 == root2 || (notes::is_natural_letter(root1) && notes::is_natural_letter(root2))
}

fn accidental_total(note: &str) -> (value: i128)
    ensures
        value == accidental_sum(note@),
{
    let len = note.unicode_len();
    let mut val: i128 = 0;
    let mut i: usize = 0;
    while i < len
        invariant
            len == note@.len(),
            i <= len,
            -(i as int) <= val <= i,
            val == accidental_sum(note@.take(i as int)),
        decreases len - i,
    {
        let c = note.get_char(i);
        assert(note@.take(i + 1).drop_last() =~= note@.take(i as int));
        if c == 'b' {
            val = val - 1;
        } else if c == '#' {
            val = val + 1;
        }
        i = i + 1;
    }
    assert(note@.take(len as int) =~= note@);
    val
}

fn fifths_position(c: char) -> (position: usize)
    requires
        is_natural(c),
    ensures
        position == fifths_index(c),
{
    if c == 'C' {
        0
    } else if c == 'G' {
        1
    } else if c == 'D' {
        2
    } else if c == 'A' {
        3
    } else if c == 'E' {
        4
    } else if c == 'B' {
        5
    } else {
        6
    }
}

fn fifth_steps(steps: usize) -> (entry: (&'static str, usize))
    requires
        steps < 7,
    ensures
        entry.0@ == seq![interval_number(steps as int)],
        entry.1 == major_size(steps as int),
{
    proof {
        reveal_strlit("1");
        reveal_strlit("5");
        reveal_strlit("2");
        reveal_strlit("6");
        reveal_strlit("3");
        reveal_strlit("7");
        reveal_strlit("4");
    }
    let entry = if steps == 0 {
        ("1", 0)
    } else if steps == 1 {
        ("5", 7)
    } else if steps == 2 {
        ("2", 2)
    } else if steps == 3 {
        ("6", 9)
    } else if steps == 4 {
        ("3", 4)
    } else if steps == 5 {
        ("7", 11)
    } else {
        ("4", 5)
    };
    assert(entry.0@ =~= seq![interval_number(steps as int)]);
    entry
}

/// Names the interval from `note1` up to `note2` (see `interval_name`),
/// e.g. `"3"`, `"b3"`, `"#5"`, or `"1"` for two notes on the same letter.
pub fn determine(note1: &str, note2: &str) -> (result: String)
    requires
        determinable(note1@, note2@),
    ensures
        result@ == interval_name(note1@, note2@),
{
    let note1_root = note1.get_char(0);
    let note2_root = note2.get_char(0);
    proof {
        reveal_strlit("1");
        reveal_strlit("#1");
        reveal_strlit("b1");
        reveal_strlit("b");
        reveal_strlit("#");
    }

    if note1_root == note2_root {
        let val1 = accidental_total(note1);
        let val2 = accidental_total(note2);
        let name = if val1 == val2 {
            String::from_str("1")
        } else if val1 < val2 {
            String::from_str("#1")
        } else {
            String::from_str("b1")
        };
        assert(name@ =~= unison_name(val1 as int, val2 as int));
        return name;
    }
    let n1 = fifths_position(note1_root);
    let n2 = fifths_position(note2_root);
    let number_of_fifth_steps: usize;
    if n2 < n1 {
        number_of_fifth_steps = 7 + n2 - n1;
    } else {
        number_of_fifth_steps = n2 - n1;
    }
    let num_fifths = fifth_steps(number_of_fifth_steps);
    let half_notes = measure(note1, note2);
    let major = num_fifths.1;
    let ghost number = seq![interval_number(number_of_fifth_steps as int)];
    assert(number_of_fifth_steps != 0);
    let mut result = String::new();
    if major == half_notes {
        result.append(num_fifths.0);
    } else if major + 1 <= half_notes {
        push_repeated(&mut result, "#", half_notes - major);
        result.append(num_fifths.0);
    } else if major - 1 == half_notes {
        result.append("b");
        result.append(num_fifths.0);
    } else {
        push_repeated(&mut result, "b", major - half_notes);
        result.append(num_fifths.0);
    }
    assert(result@ =~= accidentals(half_notes - major) + number);
    result
}


/// A note lies no half steps above itself.
pub proof fn measure_to_itself_is_zero(a: Seq<char>)
    ensures
        half_steps(a, a) == 0,
{
}

/// Going up from `a` to `b` and then from `b` back up to `a` covers a whole
/// number of octaves, and a distance is zero exactly when the two notes have
/// the same pitch class.
pub proof fn measure_both_ways(a: Seq<char>, b: Seq<char>)
    ensures
        (half_steps(a, b) + half_steps(b, a)) % 12 == 0,
        half_steps(a, b) == 0 <==> pitch(a) == pitch(b),
        0 <= half_steps(a, b) < 12,
{
}

/// Going `m` scale steps up and then `n` more is going `m + n` steps up.
pub proof fn interval_letters_compose(c: char, m: int, n: int)
    requires
        is_natural(c),
        m >= 0,
        n >= 0,
    ensures
        interval_letter(interval_letter(c, m), n) == interval_letter(c, m + n),
{
    let j = (key_index(c) + m) % 7;
    assert(key_index(key_letter(j)) == j);
}

/// Two notes on the same letter with the same accidentals form a unison,
/// named `"1"`.
pub proof fn same_note_is_unison(a: Seq<char>)
    requires
        a.len() > 0,
    ensures
        interval_name(a, a) == seq!['1'],
{
}

/// The letter two scale steps up from a natural letter is a different letter,
/// four fifths further along the circle of fifths; the letter four steps up
/// is one fifth further along.
proof fn letter_steps(c: char)
    requires
        is_natural(c),
    ensures
        is_natural(interval_letter(c, 2)),
        is_natural(interval_letter(c, 4)),
        interval_letter(c, 2) != c,
        interval_letter(c, 4) != c,
        interval_letter(c, 2) != interval_letter(c, 4),
        (fifths_index(interval_letter(c, 2)) - fifths_index(c)) % 7 == 4,
        (fifths_index(interval_letter(c, 4)) - fifths_index(c)) % 7 == 1,
{
}

/// The interval from a note to any note on the letter two scale steps up is
/// named as a third: sharps or flats for each half step above or below four,
/// then `'3'`.
pub proof fn named_as_third(root: Seq<char>, x: Seq<char>)
    requires
        valid_note(root),
        valid_note(x),
        x[0] == interval_letter(root[0], 2),
    ensures
        interval_name(root, x) == accidentals(half_steps(root, x) - 4).push('3'),
{
    letter_steps(root[0]);
}

/// The interval from a note to any note on the letter four scale steps up is
/// named as a fifth: sharps or flats for each half step above or below seven,
/// then `'5'`.
pub proof fn named_as_fifth(root: Seq<char>, x: Seq<char>)
    requires
        valid_note(root),
        valid_note(x),
        x[0] == interval_letter(root[0], 4),
    ensures
        interval_name(root, x) == accidentals(half_steps(root, x) - 7).push('5'),
{
    letter_steps(root[0]);
}

/// The letters two and four scale steps above a natural letter are natural
/// and differ from it and from each other.
pub proof fn third_and_fifth_letters(c: char)
    requires
        is_natural(c),
    ensures
        is_natural(interval_letter(c, 2)),
        is_natural(interval_letter(c, 4)),
        interval_letter(c, 2) != c,
        interval_letter(c, 4) != c,
        interval_letter(c, 2) != interval_letter(c, 4),
{
    letter_steps(c);
}


/// The accidentals for `k` half steps count `k`: `k` sharps or `-k` flats.
proof fn accidentals_count(k: int)
    ensures
        accidental_sum(accidentals(k)) == k,
        accidentals(k).len() == (if k >= 0 {
            k
        } else {
            -k
        }),
{
    if k >= 0 {
        accidental_sum_appended(Seq::empty(), '#', k as nat);
        assert(Seq::<char>::empty() + repeat_char('#', k as nat) =~= accidentals(k));
    } else {
        accidental_sum_appended(Seq::empty(), 'b', (-k) as nat);
        assert(Seq::<char>::empty() + repeat_char('b', (-k) as nat) =~= accidentals(k));
    }
}

/// Between two different natural letters the interval's name is only sharps
/// or only flats followed by a number that depends on the two letters alone,
/// and the name's sharps minus flats move one for one with the half steps
/// between the notes: on the same two letters, two different distances never
/// get the same name (E up to F is not named like E up to F#).
pub proof fn interval_name_follows_half_steps(a: Seq<char>, b: Seq<char>, a2: Seq<char>, b2: Seq<char>)
    requires
        valid_note(a),
        valid_note(b),
        valid_note(a2),
        valid_note(b2),
        a[0] != b[0],
        a2[0] == a[0],
        b2[0] == b[0],
    ensures
        interval_name(a, b).len() >= 1,
        interval_name(a, b).last() == interval_name(a2, b2).last(),
        interval_name(a, b).drop_last() == repeat_char('#', (interval_name(a, b).len() - 1) as nat)
            || interval_name(a, b).drop_last() == repeat_char('b', (interval_name(a, b).len() - 1) as nat),
        accidental_sum(interval_name(a, b)) - half_steps(a, b) == accidental_sum(interval_name(a2, b2))
            - half_steps(a2, b2),
        interval_name(a, b) == interval_name(a2, b2) <==> half_steps(a, b) == half_steps(a2, b2),
{
    let steps = (fifths_index(b[0]) - fifths_index(a[0])) % 7;
    let k = half_steps(a, b) - major_size(steps);
    let k2 = half_steps(a2, b2) - major_size(steps);
    let d = interval_number(steps);
    accidentals_count(k);
    accidentals_count(k2);
    assert(accidentals(k).push(d).drop_last() =~= accidentals(k));
    assert(accidentals(k2).push(d).drop_last() =~= accidentals(k2));
    assert(notes::accidental_value(d) == 0);
    if k >= 0 {
        assert(accidentals(k) =~= repeat_char('#', (accidentals(k).push(d).len() - 1) as nat));
    } else {
        assert(accidentals(k) =~= repeat_char('b', (accidentals(k).push(d).len() - 1) as nat));
    }
    if interval_name(a, b) == interval_name(a2, b2) {
        assert(accidental_sum(interval_name(a, b)) == accidental_sum(interval_name(a2, b2)));
    }
}

/// Spelling a note on a plain natural letter gives that letter followed only
/// by sharps, one for each half step the letter lies below the wanted
/// distance, or only by flats, one for each half step it lies above; so the
/// spelled note carries exactly as many accidentals as that difference.
pub proof fn spelled_on_letter_is_plain(note1: Seq<char>, letter: char, interval: int)
    requires
        is_natural(letter),
    ensures
        interval >= half_steps(note1, seq![letter]) ==> spelled(note1, seq![letter], interval)
            == seq![letter] + repeat_char('#', (interval - half_steps(note1, seq![letter])) as nat),
        interval < half_steps(note1, seq![letter]) ==> spelled(note1, seq![letter], interval)
            == seq![letter] + repeat_char('b', (half_steps(note1, seq![letter]) - interval) as nat),
        spelled(note1, seq![letter], interval).len() - 1 == (if interval >= half_steps(note1, seq![letter]) {
            interval - half_steps(note1, seq![letter])
        } else {
            half_steps(note1, seq![letter]) - interval
        }),
{
    let note2 = seq![letter];
    assert(note2.drop_first() =~= Seq::<char>::empty());
    assert(accidental_sum(note2.drop_first()) == 0);
    assert(folded_accidentals(0) == 0);
    let base = note2 + accidentals(interval - half_steps(note1, note2));
    assert(shifted(base, 0) == base);
}

/// Each note that the thirds and fifths add to a root is the letter two (for
/// thirds) or four (for fifths) steps up followed only by sharps or only by
/// flats, exactly as many as the letter lies away from the wanted distance
/// (four half steps for a major third, three for a minor third, seven for a
/// perfect fifth, six for a diminished fifth).
pub proof fn thirds_and_fifths_are_plain(root: Seq<char>)
    requires
        valid_note(root),
    ensures
        ({
            let l = interval_letter(root[0], 2);
            let m = half_steps(root, seq![l]);
            &&& 4 >= m ==> major_third_of(root) == seq![l] + repeat_char('#', (4 - m) as nat)
            &&& 4 < m ==> major_third_of(root) == seq![l] + repeat_char('b', (m - 4) as nat)
            &&& 3 >= m ==> minor_third_of(root) == seq![l] + repeat_char('#', (3 - m) as nat)
            &&& 3 < m ==> minor_third_of(root) == seq![l] + repeat_char('b', (m - 3) as nat)
        }),
        ({
            let l = interval_letter(root[0], 4);
            let m = half_steps(root, seq![l]);
            &&& 7 >= m ==> major_fifth_of(root) == seq![l] + repeat_char('#', (7 - m) as nat)
            &&& 7 < m ==> major_fifth_of(root) == seq![l] + repeat_char('b', (m - 7) as nat)
            &&& 6 >= m ==> minor_fifth_of(root) == seq![l] + repeat_char('#', (6 - m) as nat)
            &&& 6 < m ==> minor_fifth_of(root) == seq![l] + repeat_char('b', (m - 6) as nat)
        }),
{
    letter_steps(root[0]);
    spelled_on_letter_is_plain(root, interval_letter(root[0], 2), 4);
    spelled_on_letter_is_plain(root, interval_letter(root[0], 2), 3);
    spelled_on_letter_is_plain(root, interval_letter(root[0], 4), 7);
    spelled_on_letter_is_plain(root, interval_letter(root[0], 4), 6);
}

} // verus!

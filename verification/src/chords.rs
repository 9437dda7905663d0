//! Triads: building the four kinds of triad on a root, and recognizing
//! which chords three notes form.

use vstd::prelude::*;
use vstd::string::StrSliceExecFns;
use vstd::string::StringExecFns;

use crate::intervals;
use crate::intervals::{
    accidentals, determinable, half_steps, interval_letter, interval_name, major_fifth_of,
    major_third_of, minor_fifth_of, minor_third_of,
};
use crate::notes;
use crate::notes::{augmented, pitch, valid_note};
use crate::text::same_text;

verus! {

/// The views of a list of strings.
pub open spec fn views(v: Seq<String>) -> Seq<Seq<char>> {
    v.map_values(|s: String| s@)
}

/// The major triad on `root`: the root, its major third and its perfect fifth.
pub fn major_triad(root: &str) -> (triad: Vec<String>)
    requires
        valid_note(root@),
    ensures
        views(triad@) == seq![root@, major_third_of(root@), major_fifth_of(root@)],
{
    let second_note = intervals::major_third(root);
    let third_note = intervals::perfect_fifth(root);
    let triad = vec![String::from_str(root), second_note, third_note];
    assert(views(triad@) =~= seq![root@, major_third_of(root@), major_fifth_of(root@)]);
    triad
}

/// The minor triad on `root`: the root, its minor third and its perfect fifth.
pub fn minor_triad(root: &str) -> (triad: Vec<String>)
    requires
        valid_note(root@),
    ensures
        views(triad@) == seq![root@, minor_third_of(root@), major_fifth_of(root@)],
{
    let second_note = intervals::minor_third(root);
    let third_note = intervals::perfect_fifth(root);
    let triad = vec![String::from_str(root), second_note, third_note];
    assert(views(triad@) =~= seq![root@, minor_third_of(root@), major_fifth_of(root@)]);
    triad
}

/// The diminished triad on `root`: the root, its minor third and its
/// diminished fifth.
pub fn diminished_triad(root: &str) -> (triad: Vec<String>)
    requires
        valid_note(root@),
    ensures
        views(triad@) == seq![root@, minor_third_of(root@), minor_fifth_of(root@)],
{
    let second_note = intervals::minor_third(root);
    let third_note = intervals::minor_fifth(root);
    let triad = vec![String::from_str(root), second_note, third_note];
    assert(views(triad@) =~= seq![root@, minor_third_of(root@), minor_fifth_of(root@)]);
    triad
}

/// The augmented triad on `root`: the root, its major third and its perfect
/// fifth raised by a half step.
pub fn augmented_triad(root: &str) -> (triad: Vec<String>)
    requires
        valid_note(root@),
    ensures
        views(triad@) == seq![root@, major_third_of(root@), augmented(major_fifth_of(root@))],
{
    let second_note = intervals::major_third(root);
    let fifth = intervals::major_fifth(root);
    proof {
        intervals::spelled_keeps_letter(root@, 4, 7);
    }
    let third_note = notes::augment(fifth.as_str());
    let triad = vec![String::from_str(root), second_note, third_note];
    assert(views(triad@) =~= seq![
        root@,
        major_third_of(root@),
        augmented(major_fifth_of(root@)),
    ]);
    triad
}


/// The chord named by the interval names from the lowest note to the other
/// two, written one after the other (e.g. `"35"` for a third and a fifth).
pub open spec fn chord_name(code: Seq<char>) -> Option<Seq<char>> {
    if code == "25"@ {
        Some("sus2"@)
    } else if code == "3b7"@ {
        Some("dom7"@)
    } else if code == "3b5"@ {
        Some("7b5"@)
    } else if code == "35"@ {
        Some("Major Triad"@)
    } else if code == "3#5"@ {
        Some("Augmented Triad"@)
    } else if code == "36"@ {
        Some("M6"@)
    } else if code == "37"@ {
        Some("M7"@)
    } else if code == "b3b5"@ {
        Some("Diminished Triad"@)
    } else if code == "b35"@ {
        Some("Minor Triad"@)
    } else if code == "b36"@ {
        Some("m6"@)
    } else if code == "b3b7"@ {
        Some("m7"@)
    } else if code == "b37"@ {
        Some("m/M7"@)
    } else if code == "45"@ {
        Some("sus4"@)
    } else if code == "5b7"@ {
        Some("m7"@)
    } else if code == "57"@ {
        Some("M7"@)
    } else {
        None
    }
}

/// What one arrangement of three notes, `a` being the lowest, is recognized as:
/// `a`, a space and the chord name, if the two intervals above `a` name a chord.
pub open spec fn chord_entry(a: Seq<char>, b: Seq<char>, c: Seq<char>) -> Option<Seq<char>> {
    match chord_name(interval_name(a, b) + interval_name(a, c)) {
        Some(name) => Some(a + seq![' '] + name),
        None => None,
    }
}

/// A list with the value, if there is one.
pub open spec fn optional_list(o: Option<Seq<char>>) -> Seq<Seq<char>> {
    match o {
        Some(x) => seq![x],
        None => Seq::empty(),
    }
}

/// The chords recognized from arrangement number `tries` of three notes
/// on: each later arrangement puts the last note lowest, up to the third.
pub open spec fn recognized_from(a: Seq<char>, b: Seq<char>, c: Seq<char>, tries: int) -> Seq<Seq<char>>
    decreases 3 - tries,
{
    optional_list(chord_entry(a, b, c)) + if tries < 3 {
        recognized_from(c, a, b, tries + 1)
    } else {
        Seq::empty()
    }
}

/// Every chord that three notes form, trying `a`, then `c`, then `b` as
/// the lowest note.
pub open spec fn recognized_chords(a: Seq<char>, b: Seq<char>, c: Seq<char>) -> Seq<Seq<char>> {
    recognized_from(a, b, c, 1)
}

/// Three notes every two of which `determine` accepts.
pub open spec fn triad_determinable(a: Seq<char>, b: Seq<char>, c: Seq<char>) -> bool {
    &&& determinable(a, b)
    &&& determinable(a, c)
    &&& determinable(b, c)
}

/// What a list of recognized chords reads as once each is written out.
pub open spec fn written_chords(chords: Seq<(String, i32, String)>) -> Seq<Seq<char>> {
    chords.map_values(|chord: (String, i32, String)| chord.2@ + seq![' '] + chord.0@)
}

fn chord_name_of(intervals: &str) -> (name: Option<String>)
    ensures
        match name {
            Some(n) => chord_name(intervals@) == Some(n@),
            None => chord_name(intervals@) is None,
        },
{
    if same_text(intervals, "25") {
        Some(String::from_str("sus2"))
    } else if same_text(intervals, "3b7") {
        Some(String::from_str("dom7"))
    } else if same_text(intervals, "3b5") {
        Some(String::from_str("7b5"))
    } else if same_text(intervals, "35") {
        Some(String::from_str("Major Triad"))
    } else if same_text(intervals, "3#5") {
        Some(String::from_str("Augmented Triad"))
    } else if same_text(intervals, "36") {
        Some(String::from_str("M6"))
    } else if same_text(intervals, "37") {
        Some(String::from_str("M7"))
    } else if same_text(intervals, "b3b5") {
        Some(String::from_str("Diminished Triad"))
    } else if same_text(intervals, "b35") {
        Some(String::from_str("Minor Triad"))
    } else if same_text(intervals, "b36") {
        Some(String::from_str("m6"))
    } else if same_text(intervals, "b3b7") {
        Some(String::from_str("m7"))
    } else if same_text(intervals, "b37") {
        Some(String::from_str("m/M7"))
    } else if same_text(intervals, "45") {
        Some(String::from_str("sus4"))
    } else if same_text(intervals, "5b7") {
        Some(String::from_str("m7"))
    } else if same_text(intervals, "57") {
        Some(String::from_str("M7"))
    } else {
        None
    }
}

fn inversion_exhauster(triad: Vec<&str>, tries: i32, chords: Vec<(String, i32, String)>) -> (results: Vec<String>)
    requires
        triad.len() >= 3,
        1 <= tries <= 3,
        triad_determinable(triad[0]@, triad[1]@, triad[2]@),
    ensures
        views(results@) == written_chords(chords@) + recognized_from(
            triad[0]@,
            triad[1]@,
            triad[2]@,
            tries as int,
        ),
    decreases 3 - tries,
{
    let mut chords = chords;
    let ghost before = chords@;
    let interval1 = intervals::determine(triad[0], triad[1]);
    let interval2 = intervals::determine(triad[0], triad[2]);
    let intervals = interval1.concat(interval2.as_str());
    match chord_name_of(intervals.as_str()) {
        Some(name) => chords.push((name, tries, String::from_str(triad[0]))),
        None => (),
    }
    assert(written_chords(chords@) =~= written_chords(before) + optional_list(
        chord_entry(triad[0]@, triad[1]@, triad[2]@),
    ));
    if tries != 3 {
        let invert_chord = vec![triad[2], triad[0], triad[1]];
        let results = inversion_exhauster(invert_chord, tries + 1, chords);
        assert(views(results@) =~= written_chords(before) + recognized_from(
            triad[0]@,
            triad[1]@,
            triad[2]@,
            tries as int,
        ));
        return results;
    }
    let mut results: Vec<String> = Vec::new();
    let mut i: usize = 0;
    while i < chords.len()
        invariant
            i <= chords.len(),
            views(results@) == written_chords(chords@).take(i as int),
        decreases chords.len() - i,
    {
        let chord = &chords[i];
        let written = chord.2.clone().concat(" ").concat(chord.0.as_str());
        proof {
            reveal_strlit(" ");
        }
        assert(" "@ =~= seq![' ']);
        assert(written@ =~= written_chords(chords@)[i as int]);
        let ghost prev = results@;
        results.push(written);
        assert(views(results@) =~= views(prev).push(written@));
        assert(views(results@) =~= written_chords(chords@).take(i + 1));
        i = i + 1;
    }
    assert(written_chords(chords@).take(chords.len() as int) =~= written_chords(chords@));
    assert(views(results@) =~= written_chords(before) + recognized_from(
        triad[0]@,
        triad[1]@,
        triad[2]@,
        tries as int,
    ));
    results
}

/// Every chord that the first three notes form (see `recognized_chords`),
/// each written as its lowest note, a space and the chord's name, e.g.
/// `["C Minor Triad", "Eb M6"]` for C, Eb and G.
pub fn determine_triad(triad: Vec<&str>) -> (results: Vec<String>)
    requires
        triad.len() >= 3,
        triad_determinable(triad[0]@, triad[1]@, triad[2]@),
    ensures
        views(results@) == recognized_chords(triad[0]@, triad[1]@, triad[2]@),
{
    let chords: Vec<(String, i32, String)> = Vec::new();
    let results = inversion_exhauster(triad, 1, chords);
    assert(written_chords(Seq::<(String, i32, String)>::empty()) =~= Seq::<Seq<char>>::empty());
    assert(views(results@) =~= recognized_chords(triad[0]@, triad[1]@, triad[2]@));
    results
}


/// When the intervals above `a` name a chord, that chord is the first one
/// recognized.
proof fn first_recognized(a: Seq<char>, b: Seq<char>, c: Seq<char>)
    requires
        chord_name(interval_name(a, b) + interval_name(a, c)) is Some,
    ensures
        recognized_chords(a, b, c).len() >= 1,
        recognized_chords(a, b, c)[0] == a + seq![' '] + chord_name(
            interval_name(a, b) + interval_name(a, c),
        )->0,
{
    reveal_with_fuel(recognized_from, 2);
}

/// Three notes form at most three chords, one for each note as the lowest.
pub proof fn at_most_three_chords(a: Seq<char>, b: Seq<char>, c: Seq<char>)
    ensures
        recognized_chords(a, b, c).len() <= 3,
{
    reveal_with_fuel(recognized_from, 4);
}

/// The major triad on a note spans four and seven half steps on the letters two and four steps up, and is recognized first as that note's major triad.
pub proof fn major_triad_is_recognized(root: Seq<char>)
    requires
        valid_note(root),
    ensures
        half_steps(root, major_third_of(root)) == 4,
        half_steps(root, major_fifth_of(root)) == 7,
        major_third_of(root)[0] == interval_letter(root[0], 2),
        (major_fifth_of(root))[0] == interval_letter(root[0], 4),
        triad_determinable(root, major_third_of(root), major_fifth_of(root)),
        recognized_chords(root, major_third_of(root), major_fifth_of(root)).len() >= 1,
        recognized_chords(root, major_third_of(root), major_fifth_of(root))[0] == root + seq![' '] + "Major Triad"@,
        chord_entry(root, major_third_of(root), major_fifth_of(root)) == Some(root + seq![' '] + "Major Triad"@),
{
    let t = major_third_of(root);
    let f = major_fifth_of(root);
    intervals::spelled_keeps_letter(root, 2, 4);
    intervals::third_and_fifth_letters(root[0]);
    intervals::spelled_keeps_letter(root, 4, 7);
    intervals::named_as_third(root, t);
    intervals::named_as_fifth(root, f);
    reveal_strlit("25");
    reveal_strlit("3b7");
    reveal_strlit("3b5");
    reveal_strlit("35");
    reveal_strlit("3#5");
    reveal_strlit("36");
    reveal_strlit("37");
    reveal_strlit("b3b5");
    reveal_strlit("b35");
    reveal_strlit("b36");
    reveal_strlit("b3b7");
    reveal_strlit("b37");
    reveal_strlit("45");
    reveal_strlit("5b7");
    reveal_strlit("57");
    reveal_strlit("Major Triad");
    assert(accidentals(0) =~= Seq::<char>::empty());
    assert(accidentals(-1) =~= seq!['b']);
    assert(accidentals(1) =~= seq!['#']);
    assert(interval_name(root, t) + interval_name(root, f) =~= "35"@);
    assert("35"@[0] != "25"@[0]);
    first_recognized(root, t, f);
}

/// The minor triad on a note spans three and seven half steps on the letters two and four steps up, and is recognized first as that note's minor triad.
pub proof fn minor_triad_is_recognized(root: Seq<char>)
    requires
        valid_note(root),
    ensures
        half_steps(root, minor_third_of(root)) == 3,
        half_steps(root, major_fifth_of(root)) == 7,
        minor_third_of(root)[0] == interval_letter(root[0], 2),
        (major_fifth_of(root))[0] == interval_letter(root[0], 4),
        triad_determinable(root, minor_third_of(root), major_fifth_of(root)),
        recognized_chords(root, minor_third_of(root), major_fifth_of(root)).len() >= 1,
        recognized_chords(root, minor_third_of(root), major_fifth_of(root))[0] == root + seq![' '] + "Minor Triad"@,
        chord_entry(root, minor_third_of(root), major_fifth_of(root)) == Some(root + seq![' '] + "Minor Triad"@),
{
    let t = minor_third_of(root);
    let f = major_fifth_of(root);
    intervals::spelled_keeps_letter(root, 2, 3);
    intervals::third_and_fifth_letters(root[0]);
    intervals::spelled_keeps_letter(root, 4, 7);
    intervals::named_as_third(root, t);
    intervals::named_as_fifth(root, f);
    reveal_strlit("25");
    reveal_strlit("3b7");
    reveal_strlit("3b5");
    reveal_strlit("35");
    reveal_strlit("3#5");
    reveal_strlit("36");
    reveal_strlit("37");
    reveal_strlit("b3b5");
    reveal_strlit("b35");
    reveal_strlit("b36");
    reveal_strlit("b3b7");
    reveal_strlit("b37");
    reveal_strlit("45");
    reveal_strlit("5b7");
    reveal_strlit("57");
    reveal_strlit("Minor Triad");
    assert(accidentals(0) =~= Seq::<char>::empty());
    assert(accidentals(-1) =~= seq!['b']);
    assert(accidentals(1) =~= seq!['#']);
    assert(interval_name(root, t) + interval_name(root, f) =~= "b35"@);
    assert("b35"@[0] != "3b7"@[0]);
    assert("b35"@[0] != "3b5"@[0]);
    assert("b35"@[0] != "3#5"@[0]);
    first_recognized(root, t, f);
}

/// The diminished triad on a note spans three and six half steps on the letters two and four steps up, and is recognized first as that note's diminished triad.
pub proof fn diminished_triad_is_recognized(root: Seq<char>)
    requires
        valid_note(root),
    ensures
        half_steps(root, minor_third_of(root)) == 3,
        half_steps(root, minor_fifth_of(root)) == 6,
        minor_third_of(root)[0] == interval_letter(root[0], 2),
        (minor_fifth_of(root))[0] == interval_letter(root[0], 4),
        triad_determinable(root, minor_third_of(root), minor_fifth_of(root)),
        recognized_chords(root, minor_third_of(root), minor_fifth_of(root)).len() >= 1,
        recognized_chords(root, minor_third_of(root), minor_fifth_of(root))[0] == root + seq![' '] + "Diminished Triad"@,
        chord_entry(root, minor_third_of(root), minor_fifth_of(root)) == Some(root + seq![' '] + "Diminished Triad"@),
{
    let t = minor_third_of(root);
    let f = minor_fifth_of(root);
    intervals::spelled_keeps_letter(root, 2, 3);
    intervals::third_and_fifth_letters(root[0]);
    intervals::spelled_keeps_letter(root, 4, 6);
    intervals::named_as_third(root, t);
    intervals::named_as_fifth(root, f);
    reveal_strlit("25");
    reveal_strlit("3b7");
    reveal_strlit("3b5");
    reveal_strlit("35");
    reveal_strlit("3#5");
    reveal_strlit("36");
    reveal_strlit("37");
    reveal_strlit("b3b5");
    reveal_strlit("b35");
    reveal_strlit("b36");
    reveal_strlit("b3b7");
    reveal_strlit("b37");
    reveal_strlit("45");
    reveal_strlit("5b7");
    reveal_strlit("57");
    reveal_strlit("Diminished Triad");
    assert(accidentals(0) =~= Seq::<char>::empty());
    assert(accidentals(-1) =~= seq!['b']);
    assert(accidentals(1) =~= seq!['#']);
    assert(interval_name(root, t) + interval_name(root, f) =~= "b3b5"@);
    first_recognized(root, t, f);
}

/// The augmented triad on a note spans four and eight half steps on the letters two and four steps up, and is recognized first as that note's augmented triad.
pub proof fn augmented_triad_is_recognized(root: Seq<char>)
    requires
        valid_note(root),
    ensures
        half_steps(root, major_third_of(root)) == 4,
        half_steps(root, augmented(major_fifth_of(root))) == 8,
        major_third_of(root)[0] == interval_letter(root[0], 2),
        (augmented(major_fifth_of(root)))[0] == interval_letter(root[0], 4),
        triad_determinable(root, major_third_of(root), augmented(major_fifth_of(root))),
        recognized_chords(root, major_third_of(root), augmented(major_fifth_of(root))).len() >= 1,
        recognized_chords(root, major_third_of(root), augmented(major_fifth_of(root)))[0] == root + seq![' '] + "Augmented Triad"@,
        chord_entry(root, major_third_of(root), augmented(major_fifth_of(root))) == Some(root + seq![' '] + "Augmented Triad"@),
{
    let t = major_third_of(root);
    let f = augmented(major_fifth_of(root));
    intervals::spelled_keeps_letter(root, 2, 4);
    intervals::third_and_fifth_letters(root[0]);
    intervals::spelled_keeps_letter(root, 4, 7);
    notes::augment_raises_pitch(major_fifth_of(root));
    intervals::half_steps_step(pitch(root), pitch(major_fifth_of(root)));
    intervals::named_as_third(root, t);
    intervals::named_as_fifth(root, f);
    reveal_strlit("25");
    reveal_strlit("3b7");
    reveal_strlit("3b5");
    reveal_strlit("35");
    reveal_strlit("3#5");
    reveal_strlit("36");
    reveal_strlit("37");
    reveal_strlit("b3b5");
    reveal_strlit("b35");
    reveal_strlit("b36");
    reveal_strlit("b3b7");
    reveal_strlit("b37");
    reveal_strlit("45");
    reveal_strlit("5b7");
    reveal_strlit("57");
    reveal_strlit("Augmented Triad");
    assert(accidentals(0) =~= Seq::<char>::empty());
    assert(accidentals(-1) =~= seq!['b']);
    assert(accidentals(1) =~= seq!['#']);
    assert(interval_name(root, t) + interval_name(root, f) =~= "3#5"@);
    assert("3#5"@[1] != "3b7"@[1]);
    assert("3#5"@[1] != "3b5"@[1]);
    first_recognized(root, t, f);
}


/// All three arrangements are tried, whatever the notes are spelled like:
/// the chords found are those of the input order, then with the last note
/// lowest, then with the middle note lowest; and rotating the input from
/// `[a, b, c]` to `[c, a, b]` only rotates that list (the chord found with
/// `a` lowest, if any, moves from the front to the back).
pub proof fn every_arrangement_is_tried(a: Seq<char>, b: Seq<char>, c: Seq<char>)
    ensures
        recognized_chords(a, b, c) == optional_list(chord_entry(a, b, c)) + optional_list(
            chord_entry(c, a, b),
        ) + optional_list(chord_entry(b, c, a)),
        chord_entry(a, b, c) is None ==> recognized_chords(c, a, b) == recognized_chords(a, b, c),
        chord_entry(a, b, c) is Some ==> recognized_chords(c, a, b) == recognized_chords(
            a,
            b,
            c,
        ).drop_first().push(recognized_chords(a, b, c)[0]),
{
    reveal_with_fuel(recognized_from, 4);
    let o1 = optional_list(chord_entry(a, b, c));
    let o2 = optional_list(chord_entry(c, a, b));
    let o3 = optional_list(chord_entry(b, c, a));
    assert(recognized_from(b, c, a, 3) =~= o3);
    assert(recognized_from(c, a, b, 2) =~= o2 + o3);
    assert(recognized_chords(a, b, c) =~= o1 + o2 + o3);
    assert(recognized_from(a, b, c, 3) =~= o1);
    assert(recognized_from(b, c, a, 2) =~= o3 + o1);
    assert(recognized_chords(c, a, b) =~= o2 + o3 + o1);
    if chord_entry(a, b, c) is Some {
        assert((o1 + o2 + o3).drop_first().push((o1 + o2 + o3)[0]) =~= o2 + o3 + o1);
    } else {
        assert(o1 =~= Seq::<Seq<char>>::empty());
        assert(o2 + o3 + o1 =~= o1 + o2 + o3);
    }
}

proof fn found_in_second_arrangement(a: Seq<char>, b: Seq<char>, c: Seq<char>, x: Seq<char>)
    requires
        chord_entry(c, a, b) == Some(x),
    ensures
        recognized_chords(a, b, c).contains(x),
{
    every_arrangement_is_tried(a, b, c);
    let o1 = optional_list(chord_entry(a, b, c));
    let r = recognized_chords(a, b, c);
    assert(r[o1.len() as int] == x);
}

proof fn found_in_third_arrangement(a: Seq<char>, b: Seq<char>, c: Seq<char>, x: Seq<char>)
    requires
        chord_entry(b, c, a) == Some(x),
    ensures
        recognized_chords(a, b, c).contains(x),
{
    every_arrangement_is_tried(a, b, c);
    let o1 = optional_list(chord_entry(a, b, c));
    let o2 = optional_list(chord_entry(c, a, b));
    let r = recognized_chords(a, b, c);
    assert(r[(o1.len() + o2.len()) as int] == x);
}

/// The major triad on a note is recognized as that triad on its root in
/// every inversion: with the third lowest (third, fifth, root) and with the
/// fifth lowest (fifth, root, third).
pub proof fn inverted_major_triad_is_recognized(root: Seq<char>)
    requires
        valid_note(root),
    ensures
        recognized_chords(major_third_of(root), major_fifth_of(root), root).contains(root + seq![' '] + "Major Triad"@),
        recognized_chords(major_fifth_of(root), root, major_third_of(root)).contains(root + seq![' '] + "Major Triad"@),
{
    major_triad_is_recognized(root);
    found_in_second_arrangement(major_third_of(root), major_fifth_of(root), root, root + seq![' '] + "Major Triad"@);
    found_in_third_arrangement(major_fifth_of(root), root, major_third_of(root), root + seq![' '] + "Major Triad"@);
}

/// The minor triad on a note is recognized as that triad on its root in
/// every inversion: with the third lowest (third, fifth, root) and with the
/// fifth lowest (fifth, root, third).
pub proof fn inverted_minor_triad_is_recognized(root: Seq<char>)
    requires
        valid_note(root),
    ensures
        recognized_chords(minor_third_of(root), major_fifth_of(root), root).contains(root + seq![' '] + "Minor Triad"@),
        recognized_chords(major_fifth_of(root), root, minor_third_of(root)).contains(root + seq![' '] + "Minor Triad"@),
{
    minor_triad_is_recognized(root);
    found_in_second_arrangement(minor_third_of(root), major_fifth_of(root), root, root + seq![' '] + "Minor Triad"@);
    found_in_third_arrangement(major_fifth_of(root), root, minor_third_of(root), root + seq![' '] + "Minor Triad"@);
}

/// The diminished triad on a note is recognized as that triad on its root in
/// every inversion: with the third lowest (third, fifth, root) and with the
/// fifth lowest (fifth, root, third).
pub proof fn inverted_diminished_triad_is_recognized(root: Seq<char>)
    requires
        valid_note(root),
    ensures
        recognized_chords(minor_third_of(root), minor_fifth_of(root), root).contains(root + seq![' '] + "Diminished Triad"@),
        recognized_chords(minor_fifth_of(root), root, minor_third_of(root)).contains(root + seq![' '] + "Diminished Triad"@),
{
    diminished_triad_is_recognized(root);
    found_in_second_arrangement(minor_third_of(root), minor_fifth_of(root), root, root + seq![' '] + "Diminished Triad"@);
    found_in_third_arrangement(minor_fifth_of(root), root, minor_third_of(root), root + seq![' '] + "Diminished Triad"@);
}

/// The augmented triad on a note is recognized as that triad on its root in
/// every inversion: with the third lowest (third, fifth, root) and with the
/// fifth lowest (fifth, root, third).
pub proof fn inverted_augmented_triad_is_recognized(root: Seq<char>)
    requires
        valid_note(root),
    ensures
        recognized_chords(major_third_of(root), augmented(major_fifth_of(root)), root).contains(root + seq![' '] + "Augmented Triad"@),
        recognized_chords(augmented(major_fifth_of(root)), root, major_third_of(root)).contains(root + seq![' '] + "Augmented Triad"@),
{
    augmented_triad_is_recognized(root);
    found_in_second_arrangement(major_third_of(root), augmented(major_fifth_of(root)), root, root + seq![' '] + "Augmented Triad"@);
    found_in_third_arrangement(augmented(major_fifth_of(root)), root, major_third_of(root), root + seq![' '] + "Augmented Triad"@);
}

} // verus!

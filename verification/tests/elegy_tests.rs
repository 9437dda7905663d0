use elegy::chords;
use elegy::determine_triad;
use elegy::intervals;
use elegy::notes;

#[test]
fn test_determine_triad() {
    assert_eq!(determine_triad("C,E,G"), "C Major Triad");
}

#[test]
fn test_chords_major_triad() {
    assert_eq!(chords::major_triad("C"), vec!["C", "E", "G"]);
    assert_eq!(chords::major_triad("F#"), vec!["F#", "A#", "C#"]);
    assert_eq!(chords::major_triad("Db"), vec!["Db", "F", "Ab"]);
}

#[test]
fn test_chords_minor_triad() {
    assert_eq!(chords::minor_triad("C"), vec!["C", "Eb", "G"]);
    assert_eq!(chords::minor_triad("F#"), vec!["F#", "A", "C#"]);
    assert_eq!(chords::minor_triad("Db"), vec!["Db", "Fb", "Ab"]);
}

#[test]
fn test_chords_diminished_triad() {
    assert_eq!(chords::diminished_triad("C"), vec!["C", "Eb", "Gb"]);
    assert_eq!(chords::diminished_triad("F#"), vec!["F#", "A", "C"]);
    assert_eq!(chords::diminished_triad("Db"), vec!["Db", "Fb", "Abb"]);
}

#[test]
fn test_chords_augmented_triad() {
    assert_eq!(chords::augmented_triad("C"), vec!["C", "E", "G#"]);
    assert_eq!(chords::augmented_triad("F#"), vec!["F#", "A#", "C##"]);
    assert_eq!(chords::augmented_triad("Db"), vec!["Db", "F", "A"]);
}

#[test]
fn test_intervals_major_third() {
    assert_eq!(intervals::major_third("C"), "E");
    assert_eq!(intervals::major_third("C#"), "E#");
    assert_eq!(intervals::major_third("Cb"), "Eb");
}

#[test]
fn test_intervals_major_fifth() {
    assert_eq!(intervals::major_fifth("C"), "G");
    assert_eq!(intervals::major_fifth("C#"), "G#");
    assert_eq!(intervals::major_fifth("Cb"), "Gb");
}

#[test]
fn test_augment_or_diminish_until() {
    assert_eq!(intervals::augment_or_diminish_until("C", "D", 8), "D######");
    assert_eq!(intervals::augment_or_diminish_until("D", "C", 8), "Cbb");
}

#[test]
fn test_notes_augment() {
    assert_eq!(notes::augment("A"), "A#");
    assert_eq!(notes::augment("Ab"), "A");
    assert_eq!(notes::augment("A#"), "A##");
}

#[test]
fn test_notes_diminish() {
    assert_eq!(notes::diminish("A"), "Ab");
    assert_eq!(notes::diminish("Ab"), "Abb");
    assert_eq!(notes::diminish("A#"), "A");
}

#[test]
fn test_intervals_interval() {
    assert_eq!(intervals::interval("C", 2), "E");
    assert_eq!(intervals::interval("Cb", 2), "E");
    assert_eq!(intervals::interval("C#", 2), "E");
    assert_eq!(intervals::interval("G", 3), "C");
}

#[test]
fn test_chords_determine() {
    assert_eq!(chords::determine_triad(vec!["C", "E", "G"]), vec!["C Major Triad"]);
    assert_eq!(chords::determine_triad(vec!["C", "Eb", "G"]), vec!["C Minor Triad", "Eb M6"]);
    assert_eq!(chords::determine_triad(vec!["C", "Eb", "Gb"]), vec!["C Diminished Triad", "Eb m6"]);
    assert_eq!(chords::determine_triad(vec!["C", "E", "G#"]), vec!["C Augmented Triad"]);
}

#[test]
fn test_note_to_int_conversion() {
    assert_eq!(notes::note_to_int("Cb"), 11);
    assert_eq!(notes::note_to_int("C"), 0);
    assert_eq!(notes::note_to_int("C#"), 1);
    assert_eq!(notes::note_to_int("Db"), 1);
    assert_eq!(notes::note_to_int("D"), 2);
    assert_eq!(notes::note_to_int("D#"), 3);
    assert_eq!(notes::note_to_int("Eb"), 3);
    assert_eq!(notes::note_to_int("E"), 4);
    assert_eq!(notes::note_to_int("E#"), 5);
    assert_eq!(notes::note_to_int("Fb"), 4);
    assert_eq!(notes::note_to_int("F"), 5);
    assert_eq!(notes::note_to_int("F#"), 6);
    assert_eq!(notes::note_to_int("Gb"), 6);
    assert_eq!(notes::note_to_int("G"), 7);
    assert_eq!(notes::note_to_int("G#"), 8);
    assert_eq!(notes::note_to_int("Ab"), 8);
    assert_eq!(notes::note_to_int("A"), 9);
    assert_eq!(notes::note_to_int("A#"), 10);
    assert_eq!(notes::note_to_int("Bb"), 10);
    assert_eq!(notes::note_to_int("B"), 11);
    assert_eq!(notes::note_to_int("B#"), 0);
}

#[test]
fn test_interval_measure() {
    assert_eq!(intervals::measure("C", "D"), 2);
    assert_eq!(intervals::measure("B", "C"), 1);
    assert_eq!(intervals::measure("C", "B"), 11);
    assert_eq!(intervals::measure("F", "F#"), 1);
    assert_eq!(intervals::measure("Ab", "A"), 1);
    assert_eq!(intervals::measure("C", "C"), 0);
}

#[test]
fn test_interval_determine() {
    assert_eq!(intervals::determine("G", "C"), "4");
    assert_eq!(intervals::determine("C", "C"), "1");
    assert_eq!(intervals::determine("C", "C#"), "#1");
    assert_eq!(intervals::determine("C", "D"), "2");
    assert_eq!(intervals::determine("C", "D#"), "#2");
    assert_eq!(intervals::determine("C", "E"), "3");
    assert_eq!(intervals::determine("C", "E#"), "#3");
    assert_eq!(intervals::determine("C", "F"), "4");
    assert_eq!(intervals::determine("C", "F#"), "#4");
    assert_eq!(intervals::determine("C", "G"), "5");
    assert_eq!(intervals::determine("C", "G#"), "#5");
    assert_eq!(intervals::determine("C", "A"), "6");
    assert_eq!(intervals::determine("C", "A#"), "#6");
    assert_eq!(intervals::determine("C", "B"), "7");
}

use elegy::chords;
use elegy::intervals;
use elegy::notes;
use elegy::text;

#[test]
fn crate_root_diminish_lowers() {
    assert_eq!(elegy::diminish("A"), "Ab");
    assert_eq!(elegy::diminish("F#"), "F");
}

#[test]
fn crate_root_determine_triad_joins_with_commas() {
    assert_eq!(elegy::determine_triad("C,Eb,G"), "C Minor Triad,Eb M6");
    assert_eq!(elegy::determine_triad("C,Eb,Gb"), "C Diminished Triad,Eb m6");
    assert_eq!(elegy::determine_triad("C,F,G"), "C sus4,F sus2");
    assert_eq!(elegy::determine_triad("C,E,A"), "C M6,A Minor Triad");
    assert_eq!(elegy::determine_triad("C,D,F"), "D m7");
    assert_eq!(elegy::determine_triad("C,C#,D"), "");
    // only the first three notes are used
    assert_eq!(elegy::determine_triad("C,E,G,B"), "C Major Triad");
}

#[test]
fn determinable_triad_text() {
    assert!(elegy::is_determinable_triad("C,E,G"));
    assert!(elegy::is_determinable_triad("C,C#,C"));
    assert!(!elegy::is_determinable_triad("C,E"));
    assert!(!elegy::is_determinable_triad("C,,G"));
    assert!(!elegy::is_determinable_triad("C,H,G"));
    assert!(!elegy::is_determinable_triad(""));
}

#[test]
fn augment_and_diminish_undo_each_other() {
    for note in ["C", "C#", "Cb", "G##", "Abb", "F"] {
        assert_eq!(notes::diminish(&notes::augment(note)), note);
        assert_eq!(notes::augment(&notes::diminish(note)), note);
    }
    // the exception: a sharp followed by a flat
    assert_eq!(notes::diminish(&notes::augment("C#b")), "C");
}

#[test]
fn augment_and_diminish_move_pitch_by_one() {
    for note in ["C", "B", "B#", "Cb", "E", "Fb", "A##"] {
        let p = notes::note_to_int(note);
        assert_eq!(notes::note_to_int(&notes::augment(note)), (p + 1) % 12);
        assert_eq!(notes::note_to_int(&notes::diminish(note)), (p + 11) % 12);
    }
}

#[test]
fn note_to_int_counts_every_accidental() {
    assert_eq!(notes::note_to_int("C##############"), 2);
    assert_eq!(notes::note_to_int("Cbbbbbbbbbbbbb"), 11);
    assert_eq!(notes::note_to_int("C#b#b"), 0);
    assert_eq!(notes::note_to_int("Gx"), 7);
}

#[test]
fn note_checks() {
    assert!(notes::is_natural_letter('G'));
    assert!(!notes::is_natural_letter('H'));
}

#[test]
fn measure_both_ways_sums_to_octaves() {
    let notes_list = ["C", "D#", "Eb", "F", "B", "Cb", "G##"];
    for a in notes_list {
        assert_eq!(intervals::measure(a, a), 0);
        for b in notes_list {
            let up = intervals::measure(a, b);
            let down = intervals::measure(b, a);
            assert_eq!((up + down) % 12, 0);
        }
    }
}

#[test]
fn interval_letters() {
    assert_eq!(intervals::interval("B", 2), "D");
    assert_eq!(intervals::interval("A", 13), "G");
    assert_eq!(intervals::interval("X", 3), "C");
    assert_eq!(intervals::third("F#"), "A");
    assert_eq!(intervals::fifth("Bb"), "F");
    // composing steps
    assert_eq!(intervals::interval(&intervals::interval("D", 3), 5), intervals::interval("D", 8));
}

#[test]
fn diminish_and_augment_until_distances() {
    // from C up to E is 4 half steps; lowering E reaches 3 at once
    assert_eq!(intervals::diminish_until("C", "E", 3, 0), 3);
    // lowering keeps going down to the interval
    assert_eq!(intervals::diminish_until("C", "B", 2, 0), 2);
    // a large interval stops after one step
    assert_eq!(intervals::diminish_until("C", "C", 11, 0), 11);
    assert_eq!(intervals::augment_until("C", "D", 8, 0), 8);
    assert_eq!(intervals::augment_until("C", "A", 2, 0), 10);
    assert_eq!(intervals::augment_until("C", "B", 0, 0), 0);
}

#[test]
fn spelling_with_accidentals_on_the_upper_note() {
    // the upper note's own accidentals are applied once more
    assert_eq!(intervals::augment_or_diminish_until("C", "D#", 3), "D##");
    assert_eq!(intervals::augment_or_diminish_until("C", "Eb", 3), "Ebb");
    assert_eq!(intervals::augment_or_diminish_until("C", "E", 4), "E");
    // seven sharps fold to five lowerings, which remove five sharps
    assert_eq!(intervals::augment_or_diminish_until("C", "C#######", 7), "C##");
}

#[test]
fn thirds_and_fifths() {
    assert_eq!(intervals::minor_third("A"), "C");
    assert_eq!(intervals::minor_third("B"), "D");
    assert_eq!(intervals::minor_fifth("B"), "F");
    assert_eq!(intervals::perfect_fifth("Bb"), "F");
    assert_eq!(intervals::major_third("G#"), "B#");
    for root in ["C", "D#", "Gb", "B", "Fb", "A##"] {
        assert_eq!(intervals::measure(root, &intervals::major_third(root)), 4);
        assert_eq!(intervals::measure(root, &intervals::minor_third(root)), 3);
        assert_eq!(intervals::measure(root, &intervals::major_fifth(root)), 7);
        assert_eq!(intervals::measure(root, &intervals::minor_fifth(root)), 6);
    }
}

#[test]
fn interval_names() {
    assert_eq!(intervals::determine("C", "Cb"), "b1");
    assert_eq!(intervals::determine("C#", "C"), "b1");
    assert_eq!(intervals::determine("C", "Eb"), "b3");
    assert_eq!(intervals::determine("C", "Ebb"), "bb3");
    assert_eq!(intervals::determine("C", "Gb"), "b5");
    assert_eq!(intervals::determine("C", "B#"), "bbbbbbbbbbb7");
    assert_eq!(intervals::determine("E", "C"), "b6");
    // same letter: only the accidental counts matter
    assert_eq!(intervals::determine("x", "x#"), "#1");
    assert!(intervals::can_determine("x", "x#"));
    assert!(!intervals::can_determine("x", "C"));
    assert!(!intervals::can_determine("", "C"));
}

#[test]
fn triads_are_recognized() {
    for root in ["C", "F#", "Db", "B", "Ab", "E#"] {
        let major = chords::major_triad(root);
        let minor = chords::minor_triad(root);
        let dim = chords::diminished_triad(root);
        let aug = chords::augmented_triad(root);
        let names = |t: &Vec<String>| chords::determine_triad(t.iter().map(|s| s.as_str()).collect());
        assert_eq!(names(&major)[0], format!("{} Major Triad", root));
        assert_eq!(names(&minor)[0], format!("{} Minor Triad", root));
        assert_eq!(names(&dim)[0], format!("{} Diminished Triad", root));
        assert_eq!(names(&aug)[0], format!("{} Augmented Triad", root));
        assert!(names(&major).len() <= 3);
        assert_eq!(intervals::measure(root, &aug[2]), 8);
    }
}

#[test]
fn other_chord_names() {
    assert_eq!(chords::determine_triad(vec!["C", "E", "Bb"]), vec!["C dom7"]);
    assert_eq!(chords::determine_triad(vec!["C", "E", "Gb"]), vec!["C 7b5"]);
    assert_eq!(chords::determine_triad(vec!["C", "E", "B"]), vec!["C M7"]);
    assert_eq!(chords::determine_triad(vec!["C", "Eb", "Bb"]), vec!["C m7"]);
    assert_eq!(chords::determine_triad(vec!["C", "Eb", "B"]), vec!["C m/M7"]);
    assert_eq!(chords::determine_triad(vec!["C", "G", "Bb"]), vec!["C m7"]);
    assert_eq!(chords::determine_triad(vec!["C", "G", "B"]), vec!["C M7"]);
    assert_eq!(chords::determine_triad(vec!["C", "D", "G"]), vec!["C sus2", "G sus4"]);
}

#[test]
fn split_and_join() {
    assert_eq!(text::split_at_commas("C,E,G"), vec!["C", "E", "G"]);
    assert_eq!(text::split_at_commas(""), vec![""]);
    assert_eq!(text::split_at_commas(",a,"), vec!["", "a", ""]);
    let parts = vec!["x".to_string(), "".to_string(), "yz".to_string()];
    assert_eq!(text::join_with_commas(&parts), "x,,yz");
    assert_eq!(text::join_with_commas(&Vec::new()), "");
    assert!(text::same_text("abc", "abc"));
    assert!(!text::same_text("abc", "abd"));
    let mut s = String::from("D");
    text::push_repeated(&mut s, "#", 3);
    assert_eq!(s, "D###");
}

//! What holds of letter assignment and of keystroke handling, whatever the
//! entries and the settings are.

use vstd::prelude::*;
use vstd::set_lib::lemma_len_subset;
use crate::assignment::{
    all_same, exhausted, lemma_exhausted_letters, lemma_exhausted_settles,
    lemma_pass_keeps_subjects, repeat_count, resolve, same_subject, used_after,
};
use crate::entry::{eligible, lemma_first_eligible, lemma_scan_wf, EntryView, Rules};
use crate::letters::same_letter;
use crate::menu::{selected_by, selects, MenuView, OutcomeView};

verus! {

/// A scan is determined by the label, the cursor, the rules and the excluded
/// letters: two entries that agree in label and cursor get the same letter at
/// the same offset, whatever else they hold and whatever letter they had.
pub proof fn lemma_scan_is_determined(
    a: EntryView,
    b: EntryView,
    rules: Rules,
    disallowed: Seq<char>,
)
    requires
        a.label == b.label,
        a.scan_cursor == b.scan_cursor,
    ensures
        a.scan(rules, disallowed).selection_letter == b.scan(rules, disallowed).selection_letter,
        a.scan(rules, disallowed).selection_offset == b.scan(rules, disallowed).selection_offset,
{
}

/// Assignment leaves every entry well-formed: a letter it has is the
/// character of its label at the offset noted, at or after its cursor.
pub proof fn lemma_assignment_is_well_formed(menu: MenuView, entries: Seq<EntryView>)
    ensures
        menu.assigned(entries).len() == entries.len(),
        forall|i: int| 0 <= i < entries.len() ==> (#[trigger] menu.assigned(entries)[i]).wf(),
{
    let unproductive = exhausted(entries, menu.rules, Seq::empty());
    assert forall|i: int| 0 <= i < entries.len() implies (#[trigger] menu.assigned(
        entries,
    )[i]).wf() by {
        if menu.minimize_keys {
            let used = used_after(entries, menu.rules, unproductive, i as nat);
            lemma_scan_wf(entries[i], menu.rules, unproductive + used);
            lemma_scan_wf(entries[i], menu.rules, unproductive);
        } else {
            lemma_scan_wf(entries[i], menu.rules, Seq::empty());
        }
    }
}

/// Every letter that assignment gives is a character that the rules accept:
/// no space, one of the allowed characters where there are any, and matched
/// by the pattern where there is one.
pub proof fn lemma_letters_are_eligible(menu: MenuView, entries: Seq<EntryView>)
    ensures
        forall|i: int|
            0 <= i < entries.len() ==> match (
            #[trigger] menu.assigned(entries)[i]).selection_letter {
                Some(letter) => eligible(letter, menu.rules, Seq::empty()),
                None => true,
            },
{
    let unproductive = exhausted(entries, menu.rules, Seq::empty());
    assert forall|i: int| 0 <= i < entries.len() implies match (#[trigger] menu.assigned(
        entries,
    )[i]).selection_letter {
        Some(letter) => eligible(letter, menu.rules, Seq::empty()),
        None => true,
    } by {
        let entry = entries[i];
        if menu.minimize_keys {
            let used = used_after(entries, menu.rules, unproductive, i as nat);
            lemma_first_eligible(entry.label, entry.scan_cursor, menu.rules, unproductive + used);
            lemma_first_eligible(entry.label, entry.scan_cursor, menu.rules, unproductive);
        } else {
            lemma_first_eligible(entry.label, entry.scan_cursor, menu.rules, Seq::empty());
        }
    }
}

/// After a keystroke that leaves the menu open with new entries, these are
/// the entries that had the typed letter, in their order and at least two of
/// them, and the cursor of each has moved forward.
pub proof fn lemma_survivors_move_forward(menu: MenuView, key: char)
    requires
        forall|i: int| 0 <= i < menu.current_entries.len() ==> menu.current_entries[i].wf(),
        menu.filter(key).1 is Updated,
    ensures
        menu.filter(key).0.current_entries.len() == menu.survivors(key).len(),
        menu.survivors(key).len() >= 2,
        forall|i: int|
            0 <= i < menu.survivors(key).len() ==> {
                let before = #[trigger] menu.survivors(key)[i];
                let after = menu.filter(key).0.current_entries[i];
                &&& after.label == before.label
                &&& after.payload == before.payload
                &&& after.action == before.action
                &&& after.scan_cursor > before.scan_cursor
            },
{
    let shown = menu.current_entries;
    let typed = selected_by(key, menu.rules.match_selection_case);
    let kept = menu.survivors(key);
    let moved = crate::menu::advance_all(kept);
    lemma_pass_keeps_subjects(
        moved,
        menu.rules,
        exhausted(moved, menu.rules, Seq::empty()),
    );
    assert forall|i: int| 0 <= i < kept.len() implies {
        let before = #[trigger] kept[i];
        let after = menu.filter(key).0.current_entries[i];
        &&& after.label == before.label
        &&& after.payload == before.payload
        &&& after.action == before.action
        &&& after.scan_cursor > before.scan_cursor
    } by {
        shown.lemma_filter_pred(typed, i);
        assert(kept.contains(kept[i]));
        shown.lemma_filter_contains_rev(typed, kept[i]);
        assert(kept[i].wf());
        assert(same_subject(menu.assigned(moved)[i], moved[i]));
    }
}

/// Minimize-keys resolution repeats its pass at most once for each letter of
/// the alphabet that the labels are written in, so it makes at most one pass
/// more than the alphabet has letters.
pub proof fn lemma_repeats_are_bounded(entries: Seq<EntryView>, rules: Rules, alphabet: Set<char>)
    requires
        alphabet.finite(),
        forall|i: int, j: int|
            0 <= i < entries.len() && 0 <= j < entries[i].label.len() ==> alphabet.contains(
                #[trigger] entries[i].label[j],
            ),
    ensures
        repeat_count(entries, rules) <= alphabet.len(),
{
    let found = exhausted(entries, rules, Seq::empty());
    if entries.len() > 0 {
        lemma_exhausted_letters(entries, rules, Seq::empty());
        assert forall|i: int, j: int| 0 <= i < found.len() && 0 <= j < found.len() && i
            != j implies found[i] != found[j] by {
            assert(same_letter(found[i], found[i], rules.match_selection_case));
            if i < j {
                assert(!same_letter(found[i], found[j], rules.match_selection_case));
            } else {
                assert(!same_letter(found[j], found[i], rules.match_selection_case));
            }
        }
        found.unique_seq_to_set();
        assert forall|c: char| found.to_set().contains(c) implies alphabet.contains(c) by {
            let i = choose|i: int| 0 <= i < found.len() && found[i] == c;
            assert(entries[0].label.contains(found[i]));
            let j = choose|j: int| 0 <= j < entries[0].label.len() && entries[0].label[j] == c;
            assert(alphabet.contains(entries[0].label[j]));
        }
        lemma_len_subset(found.to_set(), alphabet);
    }
}

/// Minimize-keys resolution never ends with one letter for all entries: at
/// least one entry has a letter of its own or, where the labels have nothing
/// left to offer, no letter.
pub proof fn lemma_resolution_tells_apart(entries: Seq<EntryView>, rules: Rules)
    ensures
        !all_same(resolve(entries, rules), rules.match_selection_case),
{
    lemma_exhausted_settles(entries, rules, Seq::empty());
}

/// A keystroke that selects no entry on display is ignored: the menu is what
/// it was, letters and cursors included.
pub proof fn lemma_unmatched_key_changes_nothing(menu: MenuView, key: char)
    requires
        forall|i: int|
            0 <= i < menu.current_entries.len() ==> !selects(
                key,
                menu.current_entries[i],
                menu.rules.match_selection_case,
            ),
    ensures
        menu.filter(key) == (menu, OutcomeView::Ignored),
{
    let typed = selected_by(key, menu.rules.match_selection_case);
    let kept = menu.survivors(key);
    if kept.len() > 0 {
        menu.current_entries.lemma_filter_pred(typed, 0);
        assert(kept.contains(kept[0]));
        menu.current_entries.lemma_filter_contains_rev(typed, kept[0]);
    }
}

} // verus!

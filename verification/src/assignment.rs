//! Letter assignment over a whole list of entries: the plain pass, and the
//! resolution that repeats a pass while it tells no two entries apart.

use vstd::prelude::*;
use crate::entry::{eligible, first_eligible, lemma_first_eligible, Entry, EntryView, Rules};
use crate::letters::{holds_letter, is_same_letter, lowercase_of, same_letter, to_lower};
use crate::pattern::Pattern;

verus! {

/// The settings of a menu that govern its selection letters. They stay as
/// they are for as long as the menu is open.
pub struct Settings {
    /// Where not empty, the only letters that may select an entry.
    pub allowed_chars: String,
    /// Whether label characters are compared with `allowed_chars` by their
    /// exact case.
    pub match_allowed_chars_case: bool,
    /// Where present, a pattern that a selection letter must match.
    pub allowed_regex: Option<Pattern>,
    /// Whether selection letters and keystrokes are compared by their exact
    /// case.
    pub match_selection_case: bool,
    /// Whether assignment avoids letters that tell no two entries apart.
    pub minimize_keys: bool,
}

impl Settings {
    /// The rules of eligibility that these settings stand for.
    pub open spec fn rules(&self) -> Rules {
        Rules {
            allowed_chars: self.allowed_chars@,
            match_allowed_case: self.match_allowed_chars_case,
            pattern: self.allowed_regex.deep_view(),
            match_selection_case: self.match_selection_case,
        }
    }
}

/// Every entry scanned on its own, with the letters of `disallowed` excluded.
pub open spec fn assign_all(entries: Seq<EntryView>, rules: Rules, disallowed: Seq<char>) -> Seq<
    EntryView,
> {
    Seq::new(entries.len(), |i: int| entries[i].scan(rules, disallowed))
}

/// The form in which a letter is remembered as used: itself where case
/// matters, its lowercase where it does not.
pub open spec fn used_form(letter: char, match_case: bool) -> char {
    if match_case {
        letter
    } else {
        lowercase_of(letter)
    }
}

/// One entry's turn in a pass. The entry is scanned with the unproductive and
/// the used letters excluded; a letter found that way joins the used ones.
/// With none found, the entry is scanned again with the unproductive letters
/// alone excluded, so that it may share a letter rather than have none.
pub open spec fn turn(
    entry: EntryView,
    rules: Rules,
    unproductive: Seq<char>,
    used: Seq<char>,
) -> (EntryView, Seq<char>) {
    let fresh = entry.scan(rules, unproductive + used);
    match fresh.selection_letter {
        Some(letter) => (fresh, used.push(used_form(letter, rules.match_selection_case))),
        None => (entry.scan(rules, unproductive), used),
    }
}

/// The used letters after the first `n` entries have had their turn.
pub open spec fn used_after(
    entries: Seq<EntryView>,
    rules: Rules,
    unproductive: Seq<char>,
    n: nat,
) -> Seq<char>
    decreases n,
{
    if n == 0 {
        Seq::empty()
    } else {
        turn(
            entries[n - 1],
            rules,
            unproductive,
            used_after(entries, rules, unproductive, (n - 1) as nat),
        ).1
    }
}

/// One pass: every entry has its turn, in order.
pub open spec fn pass(entries: Seq<EntryView>, rules: Rules, unproductive: Seq<char>) -> Seq<
    EntryView,
> {
    Seq::new(
        entries.len(),
        |i: int|
            turn(
                entries[i],
                rules,
                unproductive,
                used_after(entries, rules, unproductive, i as nat),
            ).0,
    )
}

/// Whether both entries have a letter, and the same one.
pub open spec fn shares_letter(a: EntryView, b: EntryView, match_case: bool) -> bool {
    match (a.selection_letter, b.selection_letter) {
        (Some(x), Some(y)) => same_letter(x, y, match_case),
        _ => false,
    }
}

/// Whether there are entries and all of them have the letter of the first:
/// typing it would tell no two of them apart.
pub open spec fn all_same(entries: Seq<EntryView>, match_case: bool) -> bool {
    &&& entries.len() > 0
    &&& forall|i: int|
        0 <= i < entries.len() ==> shares_letter(#[trigger] entries[i], entries[0], match_case)
}

/// How far the first entry's scan is from the end of its label while
/// `unproductive` is excluded: what a rejected pass makes smaller.
pub open spec fn reserve(entries: Seq<EntryView>, rules: Rules, unproductive: Seq<char>) -> nat {
    if entries.len() == 0 {
        0
    } else {
        match first_eligible(entries[0].label, entries[0].scan_cursor, rules, unproductive) {
            Some(at) => (entries[0].label.len() - at) as nat,
            None => 0,
        }
    }
}

/// The letters that resolution ends with as unproductive, starting from
/// `unproductive`: after each pass in which all entries have one letter, that
/// letter is added and the pass repeated.
pub open spec fn exhausted(entries: Seq<EntryView>, rules: Rules, unproductive: Seq<char>) -> Seq<
    char,
>
    decreases reserve(entries, rules, unproductive),
    via exhausted_decreases
{
    let assigned = pass(entries, rules, unproductive);
    if all_same(assigned, rules.match_selection_case) {
        exhausted(entries, rules, unproductive.push(assigned[0].selection_letter.unwrap()))
    } else {
        unproductive
    }
}

#[via_fn]
proof fn exhausted_decreases(entries: Seq<EntryView>, rules: Rules, unproductive: Seq<char>) {
    let assigned = pass(entries, rules, unproductive);
    if all_same(assigned, rules.match_selection_case) {
        lemma_rejected_pass_shrinks_reserve(entries, rules, unproductive);
    }
}

/// The assignment that minimize-keys resolution settles on: the first pass
/// in which not all entries have one letter.
pub open spec fn resolve(entries: Seq<EntryView>, rules: Rules) -> Seq<EntryView> {
    pass(entries, rules, exhausted(entries, rules, Seq::empty()))
}

/// Excluding one more letter excludes all that were excluded before.
proof fn lemma_eligible_shrinks(c: char, rules: Rules, disallowed: Seq<char>, letter: char)
    requires
        eligible(c, rules, disallowed.push(letter)),
    ensures
        eligible(c, rules, disallowed),
{
    if holds_letter(disallowed, c, rules.match_selection_case) {
        let i = choose|i: int|
            0 <= i < disallowed.len() && same_letter(
                #[trigger] disallowed[i],
                c,
                rules.match_selection_case,
            );
        assert(disallowed.push(letter)[i] == disallowed[i]);
    }
}

/// The first entry's letter in a pass is the one its scan finds with the
/// unproductive letters excluded.
pub proof fn lemma_first_turn(entries: Seq<EntryView>, rules: Rules, unproductive: Seq<char>)
    requires
        entries.len() > 0,
    ensures
        pass(entries, rules, unproductive)[0] == entries[0].scan(rules, unproductive),
{
    assert(unproductive + Seq::<char>::empty() =~= unproductive);
}

/// After a pass in which all entries have one letter, excluding that letter
/// moves the first entry's scan forward.
pub proof fn lemma_rejected_pass_shrinks_reserve(
    entries: Seq<EntryView>,
    rules: Rules,
    unproductive: Seq<char>,
)
    requires
        all_same(pass(entries, rules, unproductive), rules.match_selection_case),
    ensures
        reserve(
            entries,
            rules,
            unproductive.push(pass(entries, rules, unproductive)[0].selection_letter.unwrap()),
        ) < reserve(entries, rules, unproductive),
{
    let assigned = pass(entries, rules, unproductive);
    let label = entries[0].label;
    let from = entries[0].scan_cursor;
    lemma_first_turn(entries, rules, unproductive);
    assert(shares_letter(assigned[0], assigned[0], rules.match_selection_case));
    let at = first_eligible(label, from, rules, unproductive).unwrap();
    let letter = label[at as int];
    let more = unproductive.push(letter);
    lemma_first_eligible(label, from, rules, unproductive);
    lemma_first_eligible(label, from, rules, more);
    match first_eligible(label, from, rules, more) {
        Some(next) => {
            if next <= at {
                lemma_eligible_shrinks(label[next as int], rules, unproductive, letter);
                assert(more[unproductive.len() as int] == letter);
                assert(same_letter(letter, letter, rules.match_selection_case));
            }
        },
        None => {},
    }
}

/// Gives every entry the first eligible character of its label, from its
/// cursor on, as its selection letter; an entry without one has no letter.
pub fn assign(entries: &mut Vec<Entry>, settings: &Settings, disallowed: &str)
    ensures
        final(entries).deep_view() == assign_all(
            old(entries).deep_view(),
            settings.rules(),
            disallowed@,
        ),
{
    let n = entries.len();
    let mut i: usize = 0;
    while i < n
        invariant
            i <= n,
            n == entries@.len(),
            n == old(entries)@.len(),
            forall|j: int|
                0 <= j < i ==> (#[trigger] entries@[j])@ == old(entries)@[j]@.scan(
                    settings.rules(),
                    disallowed@,
                ),
            forall|j: int| i <= j < n ==> (#[trigger] entries@[j])@ == old(entries)@[j]@,
        decreases n - i,
    {
        entries[i].get_selection(
            settings.allowed_chars.as_str(),
            &settings.allowed_regex,
            disallowed,
            settings.match_allowed_chars_case,
            settings.match_selection_case,
        );
        i += 1;
    }
    assert(entries.deep_view() =~= assign_all(
        old(entries).deep_view(),
        settings.rules(),
        disallowed@,
    ));
}

/// A scan reads only the label and the cursor of an entry.
pub open spec fn same_subject(a: EntryView, b: EntryView) -> bool {
    &&& a.label == b.label
    &&& a.payload == b.payload
    &&& a.action == b.action
    &&& a.scan_cursor == b.scan_cursor
}

/// A pass does not depend on the letters that the entries had before.
pub proof fn lemma_pass_ignores_letters(
    a: Seq<EntryView>,
    b: Seq<EntryView>,
    rules: Rules,
    unproductive: Seq<char>,
)
    requires
        a.len() == b.len(),
        forall|i: int| 0 <= i < a.len() ==> same_subject(#[trigger] a[i], b[i]),
    ensures
        pass(a, rules, unproductive) == pass(b, rules, unproductive),
        assign_all(a, rules, unproductive) == assign_all(b, rules, unproductive),
        reserve(a, rules, unproductive) == reserve(b, rules, unproductive),
{
    assert forall|n: nat| n <= a.len() implies used_after(a, rules, unproductive, n)
        == used_after(b, rules, unproductive, n) by {
        lemma_used_ignores_letters(a, b, rules, unproductive, n);
    }
    assert(pass(a, rules, unproductive) =~= pass(b, rules, unproductive));
    assert(assign_all(a, rules, unproductive) =~= assign_all(b, rules, unproductive));
    if a.len() > 0 {
        assert(same_subject(a[0], b[0]));
    }
}

proof fn lemma_used_ignores_letters(
    a: Seq<EntryView>,
    b: Seq<EntryView>,
    rules: Rules,
    unproductive: Seq<char>,
    n: nat,
)
    requires
        a.len() == b.len(),
        n <= a.len(),
        forall|i: int| 0 <= i < a.len() ==> same_subject(#[trigger] a[i], b[i]),
    ensures
        used_after(a, rules, unproductive, n) == used_after(b, rules, unproductive, n),
    decreases n,
{
    if n > 0 {
        lemma_used_ignores_letters(a, b, rules, unproductive, (n - 1) as nat);
        assert(same_subject(a[n - 1], b[n - 1]));
    }
}

/// A pass keeps every entry's label, payload, action and cursor.
pub proof fn lemma_pass_keeps_subjects(
    entries: Seq<EntryView>,
    rules: Rules,
    unproductive: Seq<char>,
)
    ensures
        pass(entries, rules, unproductive).len() == entries.len(),
        forall|i: int|
            0 <= i < entries.len() ==> same_subject(
                #[trigger] pass(entries, rules, unproductive)[i],
                entries[i],
            ),
{
}

/// One pass of minimize-keys assignment: the entries take their turns in
/// order, each avoiding the unproductive letters and, where it can, the
/// letters that entries before it have taken.
pub fn assign_pass(entries: &mut Vec<Entry>, settings: &Settings, unproductive: &str)
    ensures
        final(entries).deep_view() == pass(
            old(entries).deep_view(),
            settings.rules(),
            unproductive@,
        ),
{
    let ghost before = old(entries).deep_view();
    let ghost rules = settings.rules();
    let n = entries.len();
    let mut used = String::new();
    let mut i: usize = 0;
    while i < n
        invariant
            i <= n,
            n == entries@.len(),
            n == before.len(),
            before == old(entries).deep_view(),
            rules == settings.rules(),
            used@ == used_after(before, rules, unproductive@, i as nat),
            forall|j: int|
                0 <= j < i ==> (#[trigger] entries@[j])@ == pass(before, rules, unproductive@)[j],
            forall|j: int| i <= j < n ==> (#[trigger] entries@[j])@ == before[j],
        decreases n - i,
    {
        let mut disallowed = unproductive.to_owned();
        disallowed.append(used.as_str());
        entries[i].get_selection(
            settings.allowed_chars.as_str(),
            &settings.allowed_regex,
            disallowed.as_str(),
            settings.match_allowed_chars_case,
            settings.match_selection_case,
        );
        match entries[i].selection_letter() {
            Some(letter) => {
                if settings.match_selection_case {
                    used.push(letter);
                } else {
                    used.push(to_lower(letter));
                }
            },
            None => {
                entries[i].get_selection(
                    settings.allowed_chars.as_str(),
                    &settings.allowed_regex,
                    unproductive,
                    settings.match_allowed_chars_case,
                    settings.match_selection_case,
                );
            },
        }
        i += 1;
    }
    assert(entries.deep_view() =~= pass(before, rules, unproductive@));
}

/// The letter that all entries have, if there are entries and all of them
/// have the letter of the first.
pub fn shared_letter(entries: &Vec<Entry>, match_case: bool) -> (shared: Option<char>)
    ensures
        shared is Some == all_same(entries.deep_view(), match_case),
        shared is Some ==> shared == entries.deep_view()[0].selection_letter,
{
    let ghost shown = entries.deep_view();
    let n = entries.len();
    if n == 0 {
        return None;
    }
    let first = match entries[0].selection_letter() {
        Some(letter) => letter,
        None => {
            assert(!shares_letter(shown[0], shown[0], match_case));
            return None;
        },
    };
    let mut i: usize = 1;
    while i < n
        invariant
            1 <= i <= n,
            n == entries@.len(),
            shown == entries.deep_view(),
            shown[0].selection_letter == Some(first),
            forall|j: int| 0 <= j < i ==> shares_letter(#[trigger] shown[j], shown[0], match_case),
        decreases n - i,
    {
        let same = match entries[i].selection_letter() {
            Some(letter) => is_same_letter(letter, first, match_case),
            None => false,
        };
        if !same {
            assert(!shares_letter(shown[i as int], shown[0], match_case));
            return None;
        }
        i += 1;
    }
    Some(first)
}

/// How often resolution repeats its pass: once for each letter that it finds
/// unproductive. The pass that it settles on comes on top of these.
pub open spec fn repeat_count(entries: Seq<EntryView>, rules: Rules) -> nat {
    exhausted(entries, rules, Seq::empty()).len()
}

/// Whether no two of the letters are the same letter.
pub open spec fn apart(letters: Seq<char>, match_case: bool) -> bool {
    forall|i: int, j: int|
        0 <= i < j < letters.len() ==> !same_letter(letters[i], letters[j], match_case)
}

/// The pass that resolution settles on does not give all entries one letter.
pub proof fn lemma_exhausted_settles(
    entries: Seq<EntryView>,
    rules: Rules,
    unproductive: Seq<char>,
)
    ensures
        !all_same(
            pass(entries, rules, exhausted(entries, rules, unproductive)),
            rules.match_selection_case,
        ),
    decreases reserve(entries, rules, unproductive),
{
    let assigned = pass(entries, rules, unproductive);
    if all_same(assigned, rules.match_selection_case) {
        lemma_rejected_pass_shrinks_reserve(entries, rules, unproductive);
        lemma_exhausted_settles(
            entries,
            rules,
            unproductive.push(assigned[0].selection_letter.unwrap()),
        );
    }
}

/// Every letter that resolution finds unproductive is a character of the
/// first entry's label, no two of them are the same letter, and there are
/// never more of them than the label has characters left to scan.
pub proof fn lemma_exhausted_letters(
    entries: Seq<EntryView>,
    rules: Rules,
    unproductive: Seq<char>,
)
    requires
        entries.len() > 0,
        apart(unproductive, rules.match_selection_case),
        forall|i: int|
            0 <= i < unproductive.len() ==> entries[0].label.contains(#[trigger] unproductive[i]),
    ensures
        apart(exhausted(entries, rules, unproductive), rules.match_selection_case),
        forall|i: int|
            0 <= i < exhausted(entries, rules, unproductive).len() ==> entries[0].label.contains(
                #[trigger] exhausted(entries, rules, unproductive)[i],
            ),
        exhausted(entries, rules, unproductive).len() <= unproductive.len() + reserve(
            entries,
            rules,
            unproductive,
        ),
    decreases reserve(entries, rules, unproductive),
{
    let assigned = pass(entries, rules, unproductive);
    if all_same(assigned, rules.match_selection_case) {
        let label = entries[0].label;
        lemma_first_turn(entries, rules, unproductive);
        assert(shares_letter(assigned[0], assigned[0], rules.match_selection_case));
        lemma_first_eligible(label, entries[0].scan_cursor, rules, unproductive);
        let at = first_eligible(label, entries[0].scan_cursor, rules, unproductive).unwrap();
        let letter = label[at as int];
        let more = unproductive.push(letter);
        assert(label.contains(letter));
        assert forall|i: int, j: int| 0 <= i < j < more.len() implies !same_letter(
            more[i],
            more[j],
            rules.match_selection_case,
        ) by {
            if j == unproductive.len() {
                assert(same_letter(unproductive[i], letter, rules.match_selection_case)
                    ==> holds_letter(unproductive, letter, rules.match_selection_case));
            }
        }
        lemma_rejected_pass_shrinks_reserve(entries, rules, unproductive);
        lemma_exhausted_letters(entries, rules, more);
    }
}

/// Minimize-keys assignment: passes are repeated, each with the shared letter
/// of the one before added to the unproductive letters, until a pass leaves
/// the entries without one letter common to all. Returns how often the pass
/// had to be repeated.
pub fn resolve_letters(entries: &mut Vec<Entry>, settings: &Settings) -> (repeats: usize)
    ensures
        final(entries).deep_view() == resolve(old(entries).deep_view(), settings.rules()),
        repeats == repeat_count(old(entries).deep_view(), settings.rules()),
        !all_same(final(entries).deep_view(), settings.match_selection_case),
{
    let ghost before = old(entries).deep_view();
    let ghost rules = settings.rules();
    let room = if entries.len() > 0 {
        entries[0].label_len()
    } else {
        0
    };
    let mut unproductive = String::new();
    let mut repeats: usize = 0;
    proof {
        if before.len() > 0 {
            lemma_first_eligible(before[0].label, before[0].scan_cursor, rules, Seq::empty());
        }
    }
    loop
        invariant_except_break
            entries@.len() == before.len(),
            forall|i: int|
                0 <= i < before.len() ==> same_subject(
                    #[trigger] entries.deep_view()[i],
                    before[i],
                ),
            rules == settings.rules(),
            exhausted(before, rules, unproductive@) == exhausted(before, rules, Seq::empty()),
            repeats == unproductive@.len(),
            before.len() > 0 ==> room == before[0].label.len(),
            unproductive@.len() + reserve(before, rules, unproductive@) <= room,
        ensures
            entries.deep_view() == resolve(before, rules),
            repeats == repeat_count(before, rules),
        decreases reserve(before, rules, unproductive@),
    {
        let ghost current = entries.deep_view();
        assign_pass(entries, settings, unproductive.as_str());
        proof {
            lemma_pass_ignores_letters(current, before, rules, unproductive@);
            lemma_pass_keeps_subjects(before, rules, unproductive@);
        }
        match shared_letter(entries, settings.match_selection_case) {
            Some(letter) => {
                proof {
                    lemma_rejected_pass_shrinks_reserve(before, rules, unproductive@);
                }
                unproductive.push(letter);
                repeats += 1;
            },
            None => {
                break ;
            },
        }
    }
    proof {
        lemma_exhausted_settles(before, rules, Seq::empty());
    }
    repeats
}

} // verus!

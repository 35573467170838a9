//! Environment variables that have an older name.
//!
//! The current name wins. Where only the older name is set its value counts,
//! and the operator is told once for each older name.
use vstd::prelude::*;

use crate::text;

verus! {

/// The older names that the operator was told about.
#[derive(Debug)]
pub struct DeprecationNotes {
    told: Vec<String>,
}

impl View for DeprecationNotes {
    type V = Set<Seq<char>>;

    closed spec fn view(&self) -> Set<Seq<char>> {
        text::views(self.told@).to_set()
    }
}

/// What an environment variable resolved to.
#[derive(Debug)]
pub struct EnvReading {
    /// The value, where either name is set.
    pub value: Option<String>,
    /// A note for the operator.
    pub note: Option<String>,
}

/// What an [`EnvReading`] stands for.
pub struct EnvReadingView {
    pub value: Option<Seq<char>>,
    pub note: Option<Seq<char>>,
}

impl View for EnvReading {
    type V = EnvReadingView;

    open spec fn view(&self) -> EnvReadingView {
        EnvReadingView { value: text::opt_view(self.value), note: text::opt_view(self.note) }
    }
}

/// The note on an older name.
pub open spec fn deprecation_note(canonical: Seq<char>, legacy: Seq<char>) -> Seq<char> {
    "note: "@ + legacy + " is deprecated, use "@ + canonical
}

/// What the two names resolve to, and the older names told about afterwards.
pub open spec fn resolved(
    canonical: Seq<char>,
    legacy: Seq<char>,
    canonical_value: Option<Seq<char>>,
    legacy_value: Option<Seq<char>>,
    told: Set<Seq<char>>,
) -> (EnvReadingView, Set<Seq<char>>) {
    if canonical_value is Some {
        (EnvReadingView { value: canonical_value, note: None }, told)
    } else if legacy_value is Some {
        (
            EnvReadingView {
                value: legacy_value,
                note: if told.contains(legacy) {
                    None
                } else {
                    Some(deprecation_note(canonical, legacy))
                },
            },
            told.insert(legacy),
        )
    } else {
        (EnvReadingView { value: None, note: None }, told)
    }
}

impl DeprecationNotes {
    /// Nobody was told anything yet.
    pub fn new() -> (notes: Self)
        ensures
            notes@ == Set::<Seq<char>>::empty(),
    {
        let notes = DeprecationNotes { told: Vec::new() };
        assert(notes@ =~= Set::<Seq<char>>::empty());
        notes
    }

    /// Marks an older name, and tells whether it was new.
    fn insert(&mut self, legacy: &str) -> (new: bool)
        ensures
            new == !old(self)@.contains(legacy@),
            final(self)@ == old(self)@.insert(legacy@),
    {
        let wanted: String = legacy.to_owned();
        let ghost before = text::views(self.told@);
        let mut i: usize = 0;
        while i < self.told.len()
            invariant
                i <= self.told@.len(),
                wanted@ == legacy@,
                before == text::views(self.told@),
                forall|j: int| 0 <= j < i ==> #[trigger] before[j] != legacy@,
                *self == *old(self),
            decreases self.told@.len() - i,
        {
            if self.told[i] == wanted {
                proof {
                    assert(before[i as int] == legacy@);
                    assert(before.contains(legacy@));
                    assert(self@.insert(legacy@) =~= self@);
                }
                return false;
            }
            i += 1;
        }
        self.told.push(wanted);
        proof {
            text::lemma_views_push(old(self).told@, wanted);
            let after = text::views(self.told@);
            assert(after == before.push(legacy@));
            assert forall|s: Seq<char>| after.to_set().contains(s) <==> before.to_set().insert(
                legacy@,
            ).contains(s) by {
                if before.contains(s) {
                    let j = choose|j: int| 0 <= j < before.len() && before[j] == s;
                    assert(after[j] == s);
                }
                if after.contains(s) {
                    let j = choose|j: int| 0 <= j < after.len() && after[j] == s;
                    if j < before.len() {
                        assert(before[j] == s);
                    }
                }
                assert(after[before.len() as int] == legacy@);
            }
            assert(self@ =~= old(self)@.insert(legacy@));
        }
        true
    }
}

/// Resolves a variable from the values of its two names.
pub fn env_or_legacy(
    canonical: &str,
    legacy: &str,
    canonical_value: Option<String>,
    legacy_value: Option<String>,
    notes: &mut DeprecationNotes,
) -> (reading: EnvReading)
    ensures
        (reading@, final(notes)@) == resolved(
            canonical@,
            legacy@,
            text::opt_view(canonical_value),
            text::opt_view(legacy_value),
            old(notes)@,
        ),
{
    if canonical_value.is_some() {
        return EnvReading { value: canonical_value, note: None };
    }
    if legacy_value.is_none() {
        return EnvReading { value: None, note: None };
    }
    let note = if notes.insert(legacy) {
        let mut note = "note: ".to_owned();
        note.append(legacy);
        note.append(" is deprecated, use ");
        note.append(canonical);
        Some(note)
    } else {
        None
    };
    EnvReading { value: legacy_value, note }
}

/// The operator is told about an older name at most once: a second reading that
/// falls back to it has the same value and no note.
pub proof fn law_told_once(
    canonical: Seq<char>,
    legacy: Seq<char>,
    legacy_value: Option<Seq<char>>,
    told: Set<Seq<char>>,
)
    ensures
        ({
            let (first, after) = resolved(canonical, legacy, None, legacy_value, told);
            let (second, later) = resolved(canonical, legacy, None, legacy_value, after);
            second.note is None && second.value == first.value && later == after
        }),
{
    let (first, after) = resolved(canonical, legacy, None, legacy_value, told);
    assert(legacy_value is Some ==> after.insert(legacy) =~= after);
}

/// The current name wins; the older one counts only where the current one is
/// not set, and then the operator is told of it, once. Nothing is made up.
pub proof fn law_current_name_wins(
    canonical: Seq<char>,
    legacy: Seq<char>,
    value: Seq<char>,
    older: Option<Seq<char>>,
    told: Set<Seq<char>>,
)
    ensures
        ({
            let (reading, after) = resolved(canonical, legacy, Some(value), older, told);
            reading.value == Some(value) && reading.note is None && after == told
        }),
        ({
            let (reading, after) = resolved(canonical, legacy, None, Some(value), told);
            &&& reading.value == Some(value)
            &&& reading.note is Some <==> !told.contains(legacy)
            &&& after.contains(legacy)
            &&& reading.note is Some ==> reading.note->0 == "note: "@ + legacy
                + " is deprecated, use "@ + canonical
        }),
        ({
            let (reading, after) = resolved(canonical, legacy, None, None, told);
            reading.value is None && reading.note is None && after == told
        }),
{
}

} // verus!

//! The sentences of a session and which text of each is shown.
use std::collections::BTreeMap;

use vstd::prelude::*;

use crate::orchestrator::types::{SentenceSelection, SentenceVariant};

verus! {

broadcast use vstd::std_specs::btree::group_btree_axioms;

/// What is known of one sentence.
pub struct SentenceRecord {
    pub polished_text: Option<String>,
    pub polished_within_sla: Option<bool>,
    pub active_variant: SentenceVariant,
    pub user_override: bool,
}

/// The sentences of a session, by identifier.
pub struct SentenceStore {
    next_sentence_id: u64,
    records: BTreeMap<u64, SentenceRecord>,
}

/// A sentence as it is first registered.
pub open spec fn fresh_record() -> SentenceRecord {
    SentenceRecord {
        polished_text: None,
        polished_within_sla: None,
        active_variant: SentenceVariant::Raw,
        user_override: false,
    }
}

/// `r` with a polished text. The text is shown unless the user asked for the
/// raw one.
pub open spec fn polished_record(r: SentenceRecord, text: String, within_sla: bool) -> SentenceRecord {
    SentenceRecord {
        polished_text: Some(text),
        polished_within_sla: Some(within_sla),
        active_variant: if r.user_override {
            r.active_variant
        } else {
            SentenceVariant::Polished
        },
        user_override: r.user_override,
    }
}

/// Whether a selection can be carried out: the sentence is known, and the
/// polished text exists if it is asked for.
pub open spec fn selectable(records: Map<u64, SentenceRecord>, s: SentenceSelection) -> bool {
    &&& records.contains_key(s.sentence_id)
    &&& s.active_variant == SentenceVariant::Raw || records[s.sentence_id].polished_text is Some
}

/// The sentences once `s` is carried out, if it can be.
pub open spec fn select_one(
    records: Map<u64, SentenceRecord>,
    s: SentenceSelection,
) -> Map<u64, SentenceRecord> {
    if selectable(records, s) {
        records.insert(
            s.sentence_id,
            SentenceRecord {
                active_variant: s.active_variant,
                user_override: s.active_variant == SentenceVariant::Raw,
                ..records[s.sentence_id]
            },
        )
    } else {
        records
    }
}

/// The sentences once all of `list` are carried out, in order.
pub open spec fn select_all(
    records: Map<u64, SentenceRecord>,
    list: Seq<SentenceSelection>,
) -> Map<u64, SentenceRecord>
    decreases list.len(),
{
    if list.len() == 0 {
        records
    } else {
        select_one(select_all(records, list.drop_last()), list.last())
    }
}

/// Those of `list` that can be carried out when their turn comes.
pub open spec fn selections_applied(
    records: Map<u64, SentenceRecord>,
    list: Seq<SentenceSelection>,
) -> Seq<SentenceSelection>
    decreases list.len(),
{
    if list.len() == 0 {
        Seq::empty()
    } else {
        let before = selections_applied(records, list.drop_last());
        if selectable(records, list.last()) {
            before.push(list.last())
        } else {
            before
        }
    }
}

/// Carrying out selections makes no sentence appear and no polished text come
/// or go.
pub proof fn lemma_select_keeps_texts(
    records: Map<u64, SentenceRecord>,
    list: Seq<SentenceSelection>,
)
    ensures
        select_all(records, list).dom() == records.dom(),
        forall|id: u64| #[trigger]
            records.contains_key(id) ==> select_all(records, list)[id].polished_text
                == records[id].polished_text && select_all(records, list)[id].polished_within_sla
                == records[id].polished_within_sla,
    decreases list.len(),
{
    if list.len() > 0 {
        lemma_select_keeps_texts(records, list.drop_last());
        let before = select_all(records, list.drop_last());
        assert(select_one(before, list.last()).dom() =~= records.dom());
    }
}

/// While the user insists on the raw text, a polished text that arrives later
/// is kept but not shown; asking for the polished one shows it and takes the
/// insistence back.
pub proof fn law_user_choice_outlasts_polishing(r: SentenceRecord, text: String, within_sla: bool)
    ensures
        r.user_override ==> polished_record(r, text, within_sla).active_variant
            == r.active_variant,
        !r.user_override ==> polished_record(r, text, within_sla).active_variant
            == SentenceVariant::Polished,
        polished_record(r, text, within_sla).polished_text == Some(text),
{
}

/// Choosing raw and then polished, once a polished text exists, ends with the
/// polished text shown and later polishing shown again.
pub proof fn law_selection_round_trip(records: Map<u64, SentenceRecord>, id: u64)
    requires
        records.contains_key(id),
        records[id].polished_text is Some,
    ensures
        ({
            let raw = SentenceSelection { sentence_id: id, active_variant: SentenceVariant::Raw };
            let polished = SentenceSelection {
                sentence_id: id,
                active_variant: SentenceVariant::Polished,
            };
            let after = select_all(records, seq![raw, polished]);
            &&& selections_applied(records, seq![raw, polished]) == seq![raw, polished]
            &&& after[id].active_variant == SentenceVariant::Polished
            &&& !after[id].user_override
            &&& after[id].polished_text == records[id].polished_text
        }),
{
    reveal_with_fuel(select_all, 3);
    reveal_with_fuel(selections_applied, 3);
    let raw = SentenceSelection { sentence_id: id, active_variant: SentenceVariant::Raw };
    let polished = SentenceSelection { sentence_id: id, active_variant: SentenceVariant::Polished };
    let list = seq![raw, polished];
    assert(list.drop_last() =~= seq![raw]);
    assert(seq![raw].drop_last() =~= Seq::<SentenceSelection>::empty());
    assert(selections_applied(records, list) =~= list);
}

impl SentenceStore {
    /// The sentences, by identifier.
    pub closed spec fn records(&self) -> Map<u64, SentenceRecord> {
        self.records@
    }

    /// The identifier given out last.
    pub closed spec fn last_id(&self) -> u64 {
        self.next_sentence_id
    }

    /// Identifiers count up from one, and every known sentence has one of them.
    pub open spec fn wf(&self) -> bool {
        forall|id: u64| #[trigger] self.records().contains_key(id) ==> 0 < id <= self.last_id()
    }

    pub fn new() -> (r: Self)
        ensures
            r.wf(),
            r.last_id() == 0,
            r.records() == Map::<u64, SentenceRecord>::empty(),
    {
        SentenceStore { next_sentence_id: 0, records: BTreeMap::new() }
    }

    /// Registers a sentence with its raw text shown and returns its identifier.
    /// Identifiers stop growing at the largest number.
    pub fn register_raw_sentence(&mut self) -> (id: u64)
        requires
            old(self).wf(),
        ensures
            final(self).wf(),
            id == if old(self).last_id() < u64::MAX {
                (old(self).last_id() + 1) as u64
            } else {
                u64::MAX
            },
            final(self).last_id() == id,
            final(self).records() == old(self).records().insert(id, fresh_record()),
            old(self).last_id() < u64::MAX ==> !old(self).records().contains_key(id),
    {
        self.next_sentence_id = self.next_sentence_id.saturating_add(1);
        let sentence_id = self.next_sentence_id;
        let record = SentenceRecord {
            polished_text: None,
            polished_within_sla: None,
            active_variant: SentenceVariant::Raw,
            user_override: false,
        };
        self.records.insert(sentence_id, record);
        assert forall|id: u64| #[trigger] self.records().contains_key(id) implies 0 < id
            <= self.last_id() by {
            if id != sentence_id {
                assert(old(self).records().contains_key(id));
            }
        }
        sentence_id
    }

    /// Notes the polished text of a sentence and returns the variant shown, or
    /// nothing if there is no such sentence.
    pub fn record_polished(&mut self, sentence_id: u64, text: String, within_sla: bool) -> (r:
        Option<SentenceVariant>)
        ensures
            final(self).last_id() == old(self).last_id(),
            match r {
                Some(shown) => {
                    let record = polished_record(
                        old(self).records()[sentence_id],
                        text,
                        within_sla,
                    );
                    &&& old(self).records().contains_key(sentence_id)
                    &&& shown == record.active_variant
                    &&& final(self).records() == old(self).records().insert(sentence_id, record)
                },
                None => {
                    &&& !old(self).records().contains_key(sentence_id)
                    &&& final(self).records() == old(self).records()
                },
            },
            old(self).wf() ==> final(self).wf(),
    {
        let ghost before = self.records@;
        match self.records.remove(&sentence_id) {
            Some(mut record) => {
                record.polished_text = Some(text);
                record.polished_within_sla = Some(within_sla);
                if !record.user_override {
                    record.active_variant = SentenceVariant::Polished;
                }
                let shown = record.active_variant;
                self.records.insert(sentence_id, record);
                assert(self.records@ =~= before.insert(
                    sentence_id,
                    polished_record(before[sentence_id], text, within_sla),
                ));
                Some(shown)
            },
            None => {
                assert(self.records@ =~= before);
                None
            },
        }
    }

    /// Carries out the selections that can be, in order, and returns those.
    pub fn apply_selection(&mut self, selections: &[SentenceSelection]) -> (applied: Vec<
        SentenceSelection,
    >)
        ensures
            final(self).last_id() == old(self).last_id(),
            final(self).records() == select_all(old(self).records(), selections@),
            applied@ == selections_applied(old(self).records(), selections@),
            old(self).wf() ==> final(self).wf(),
    {
        let ghost before = self.records@;
        let mut applied: Vec<SentenceSelection> = Vec::new();
        let mut i: usize = 0;
        while i < selections.len()
            invariant
                i <= selections@.len(),
                self.next_sentence_id == old(self).next_sentence_id,
                before == old(self).records@,
                self.records@ == select_all(before, selections@.take(i as int)),
                applied@ == selections_applied(before, selections@.take(i as int)),
            decreases selections.len() - i,
        {
            let selection = selections[i];
            let ghost now = self.records@;
            proof {
                lemma_select_keeps_texts(before, selections@.take(i as int));
                assert(selections@.take(i + 1).drop_last() =~= selections@.take(i as int));
                assert(selectable(now, selection) == selectable(before, selection)) by {
                    assert(now.contains_key(selection.sentence_id) == before.contains_key(
                        selection.sentence_id,
                    ));
                }
            }
            match self.records.remove(&selection.sentence_id) {
                Some(mut record) => {
                    match selection.active_variant {
                        SentenceVariant::Raw => {
                            record.active_variant = SentenceVariant::Raw;
                            record.user_override = true;
                            applied.push(selection);
                        },
                        SentenceVariant::Polished => {
                            if record.polished_text.is_some() {
                                record.active_variant = SentenceVariant::Polished;
                                record.user_override = false;
                                applied.push(selection);
                            }
                        },
                    }
                    self.records.insert(selection.sentence_id, record);
                    assert(self.records@ =~= select_one(now, selection));
                },
                None => {
                    assert(self.records@ =~= now);
                },
            }
            i += 1;
        }
        proof {
            assert(selections@.take(selections@.len() as int) =~= selections@);
            lemma_select_keeps_texts(before, selections@);
            assert forall|id: u64| #[trigger]
                self.records().contains_key(id) && old(self).wf() implies 0 < id
                <= self.last_id() by {
                assert(old(self).records().dom().contains(id));
                assert(old(self).records().contains_key(id));
            }
        }
        applied
    }
}

/// A selection concerns its sentence alone, and is carried out only where there
/// is something to show: the raw text of a known sentence, or a polished text
/// that has come. Whoever asks for the raw text keeps it when a polished one
/// comes later; whoever does not is shown the polished one.
pub proof fn law_selection_shows_what_is_asked_for(
    records: Map<u64, SentenceRecord>,
    s: SentenceSelection,
    other: u64,
    text: String,
    within_sla: bool,
)
    ensures
        ({
            let after = select_one(records, s);
            let known = records.contains_key(s.sentence_id);
            let possible = known && (s.active_variant == SentenceVariant::Raw
                || records[s.sentence_id].polished_text is Some);
            &&& !possible ==> after == records
            &&& possible ==> after[s.sentence_id].active_variant == s.active_variant
            &&& possible && s.active_variant == SentenceVariant::Raw ==> polished_record(
                after[s.sentence_id],
                text,
                within_sla,
            ).active_variant == SentenceVariant::Raw
            &&& possible && s.active_variant == SentenceVariant::Polished ==> polished_record(
                after[s.sentence_id],
                text,
                within_sla,
            ).active_variant == SentenceVariant::Polished
            &&& possible ==> after[s.sentence_id].polished_text
                == records[s.sentence_id].polished_text
                && after[s.sentence_id].polished_within_sla
                == records[s.sentence_id].polished_within_sla
            &&& other != s.sentence_id ==> after.contains_key(other) == records.contains_key(other)
            &&& other != s.sentence_id && records.contains_key(other) ==> after[other]
                == records[other]
            &&& after.contains_key(s.sentence_id) == known
        }),
        fresh_record().active_variant == SentenceVariant::Raw,
        fresh_record().polished_text is None,
        polished_record(fresh_record(), text, within_sla).active_variant
            == SentenceVariant::Polished,
        polished_record(fresh_record(), text, within_sla).polished_within_sla == Some(within_sla),
{
}

/// Of several selections exactly those take effect that can, in their order, and
/// the last one for a sentence is what it shows.
pub proof fn law_possible_selections_take_effect(
    records: Map<u64, SentenceRecord>,
    list: Seq<SentenceSelection>,
    last: SentenceSelection,
)
    ensures
        ({
            let possible = records.contains_key(last.sentence_id) && (last.active_variant
                == SentenceVariant::Raw || records[last.sentence_id].polished_text is Some);
            let all = list.push(last);
            &&& selections_applied(records, all) == if possible {
                selections_applied(records, list).push(last)
            } else {
                selections_applied(records, list)
            }
            &&& possible ==> select_all(records, all)[last.sentence_id].active_variant
                == last.active_variant
            &&& !possible ==> select_all(records, all) == select_all(records, list)
        }),
        selections_applied(records, Seq::empty()) == Seq::<SentenceSelection>::empty(),
        select_all(records, Seq::empty()) == records,
{
    let all = list.push(last);
    assert(all.drop_last() =~= list);
    lemma_select_keeps_texts(records, list);
    if records.contains_key(last.sentence_id) {
        assert(select_all(records, list)[last.sentence_id].polished_text
            == records[last.sentence_id].polished_text);
    }
}

} // verus!

//! Importing dictionary records into the question store.
//!
//! A record that is no verb is turned into its question at once, so such questions
//! stand in the store in the order of their records. A verb is handed back to be
//! worked on elsewhere; the questions of each verb are appended as a group when its
//! work is done, in the order in which the groups arrive.

use crate::builder::{build_non_verb, non_verb_question};
use crate::model::{all_well_formed, Question, QuestionView, Record, RecordView};
use crate::text::{contains, contains_text};
use vstd::prelude::*;

verus! {

/// What marks the part of speech of a verb.
pub const VERB_TAG: &'static str = "verb";

/// Whether a part-of-speech tag is that of a verb: it holds [`VERB_TAG`] somewhere.
pub open spec fn is_verb_tag(part_of_speech: Seq<char>) -> bool {
    contains(part_of_speech, VERB_TAG@)
}

/// Tests whether a part-of-speech tag is that of a verb.
pub fn is_verb(part_of_speech: &str) -> (verb: bool)
    ensures
        verb == is_verb_tag(part_of_speech@),
{
    contains_text(part_of_speech, VERB_TAG)
}

/// The questions of the records that are no verbs, in the order of the records.
pub open spec fn non_verb_questions(records: Seq<RecordView>) -> Seq<QuestionView> {
    records.filter(|record: RecordView| !is_verb_tag(record.part_of_speech)).map_values(
        |record: RecordView| non_verb_question(record.greek, record.english),
    )
}

/// The records that are verbs, in the order of the records.
pub open spec fn verb_records(records: Seq<RecordView>) -> Seq<RecordView> {
    records.filter(|record: RecordView| is_verb_tag(record.part_of_speech))
}

/// Takes in one record. A record that is no verb is turned into its question, which
/// is appended to the store, and nothing is handed back. A verb is handed back for
/// its own work and the store stays as it is.
pub fn import_record(questions: &mut Vec<Question>, record: Record) -> (dispatched: Option<Record>)
    ensures
        is_verb_tag(record@.part_of_speech) ==> dispatched == Some(record) && final(questions).deep_view() == old(questions).deep_view(),
        !is_verb_tag(record@.part_of_speech) ==> dispatched is None && final(questions).deep_view() == old(questions).deep_view().push(
            non_verb_question(record@.greek, record@.english),
        ),
{
    if is_verb(record.part_of_speech.as_str()) {
        Some(record)
    } else {
        build_non_verb(questions, record.greek, record.english);
        None
    }
}

/// Takes in all records in order. The questions of the records that are no verbs are
/// appended to the store in the order of their records; the verbs are handed back in
/// that order.
pub fn import(questions: &mut Vec<Question>, records: Vec<Record>) -> (verbs: Vec<Record>)
    ensures
        final(questions).deep_view() == old(questions).deep_view() + non_verb_questions(
            records.deep_view(),
        ),
        verbs.deep_view() == verb_records(records.deep_view()),
{
    let ghost all = records.deep_view();
    let ghost plain = |record: RecordView| !is_verb_tag(record.part_of_speech);
    let ghost verbal = |record: RecordView| is_verb_tag(record.part_of_speech);
    let ghost asking = |record: RecordView| non_verb_question(record.greek, record.english);
    let ghost before = questions.deep_view();
    let mut verbs: Vec<Record> = Vec::new();
    let mut records = records;
    let mut done: Ghost<Seq<RecordView>> = Ghost(Seq::empty());
    proof {
        reveal(Seq::filter);
        assert(done@.filter(plain) =~= Seq::<RecordView>::empty());
        assert(done@.filter(verbal) =~= Seq::<RecordView>::empty());
        assert(before + done@.filter(plain).map_values(asking) =~= before);
        assert(done@ + records.deep_view() =~= all);
    }
    while records.len() > 0
        invariant
            plain == |record: RecordView| !is_verb_tag(record.part_of_speech),
            verbal == |record: RecordView| is_verb_tag(record.part_of_speech),
            asking == |record: RecordView| non_verb_question(record.greek, record.english),
            done@ + records.deep_view() == all,
            questions.deep_view() == before + done@.filter(plain).map_values(asking),
            verbs.deep_view() == done@.filter(verbal),
        decreases records.len(),
    {
        let ghost rest = records.deep_view();
        let ghost seen = done@;
        let ghost kept = verbs.deep_view();
        let ghost stored = questions.deep_view();
        let record = records.remove(0);
        proof {
            assert(rest =~= seq![record@] + records.deep_view());
            assert(seen.push(record@) + records.deep_view() =~= all);
            seen.lemma_filter_push(record@, plain);
            seen.lemma_filter_push(record@, verbal);
            seen.filter(plain).lemma_push_map_commute(asking, record@);
        }
        match import_record(questions, record) {
            Some(verb) => {
                verbs.push(verb);
                assert(verbs.deep_view() =~= kept.push(verb@));
            },
            None => {
                assert(questions.deep_view() =~= before + seen.filter(plain).map_values(
                    asking,
                ).push(asking(record@)));
            },
        }
        proof {
            done@ = seen.push(record@);
        }
    }
    proof {
        assert(records.deep_view() =~= Seq::<RecordView>::empty());
        assert(done@ + Seq::<RecordView>::empty() =~= done@);
    }
    verbs
}

/// Appends the questions of one finished verb to the store, in their order. Returns
/// how many questions were taken in: one progress signal is due for each.
pub fn merge_verb_questions(questions: &mut Vec<Question>, verb_questions: Vec<Question>) -> (signals:
    usize)
    ensures
        final(questions).deep_view() == old(questions).deep_view() + verb_questions.deep_view(),
        signals == verb_questions.len(),
        all_well_formed(old(questions).deep_view()) && all_well_formed(verb_questions.deep_view())
            ==> all_well_formed(final(questions).deep_view()),
{
    let ghost before = questions.deep_view();
    let ghost group = verb_questions.deep_view();
    let signals = verb_questions.len();
    let mut verb_questions = verb_questions;
    assert(before + group.take(0) =~= before);
    while verb_questions.len() > 0
        invariant
            signals == group.len(),
            verb_questions.len() <= group.len(),
            verb_questions.deep_view() == group.skip(group.len() - verb_questions.len()),
            questions.deep_view() == before + group.take(group.len() - verb_questions.len()),
        decreases verb_questions.len(),
    {
        let ghost at = group.len() - verb_questions.len();
        let ghost rest = verb_questions.deep_view();
        let ghost stored = questions.deep_view();
        let verb_question = verb_questions.remove(0);
        assert(verb_question@ == rest[0]);
        assert(verb_questions.deep_view() =~= rest.skip(1));
        assert(rest.skip(1) =~= group.skip(at + 1));
        questions.push(verb_question);
        assert(questions.deep_view() =~= stored.push(group[at]));
        assert(questions.deep_view() =~= before + group.take(at + 1));
    }
    assert(group.take(group.len() as int) =~= group);
    signals
}

} // verus!

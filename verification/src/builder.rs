//! Building questions from dictionary records.
//!
//! A record that is no verb gives one question whose answers are its translations. A
//! verb gives one question per tense slot of its Greek field, each answered by the
//! matching form of every English verb with a wildcard pattern for partial credit.

use crate::model::{
    all_well_formed, AnswerOption, AnswerOptionView, Question, QuestionView, VerbForms,
    VerbFormsView,
};
use crate::normalize::{normalize, normalized};
use crate::text::{join_text, split, split_on, strip_prefix, trim, trimmed, without_prefix};
use vstd::prelude::*;

verus! {

/// The feedback for a fully correct answer.
pub const WELL_DONE: &'static str = "Well done!";

/// The feedback for an answer that matches the wildcard pattern of a verb.
pub const CLOSE: &'static str = "Close! What part of the verb is this?";

/// The subject that is stripped from the start of a verb's translation.
pub const SUBJECT: &'static str = "I ";

/// The answer option that gives full credit for `answer`.
pub open spec fn full_credit(answer: Seq<char>) -> AnswerOptionView {
    AnswerOptionView { mark: 100, answer, feedback: WELL_DONE@ }
}

/// The answer option that gives half credit for the wildcard `pattern`.
pub open spec fn partial_credit(pattern: Seq<char>) -> AnswerOptionView {
    AnswerOptionView { mark: 50, answer: pattern, feedback: CLOSE@ }
}

/// The comma-separated segments of `source`, each without surrounding white space.
pub open spec fn segments(source: Seq<char>) -> Seq<Seq<char>> {
    split(source, ',').map_values(|piece: Seq<char>| trimmed(piece))
}

/// The segments of `source` that are not empty.
pub open spec fn non_empty_segments(source: Seq<char>) -> Seq<Seq<char>> {
    segments(source).filter(|segment: Seq<char>| segment.len() > 0)
}

/// One full-credit answer option for each non-empty segment of `cleaned`.
pub open spec fn translation_answers(cleaned: Seq<char>) -> Seq<AnswerOptionView> {
    non_empty_segments(cleaned).map_values(|segment: Seq<char>| full_credit(segment))
}

/// The question for a record that is no verb.
pub open spec fn non_verb_question(greek: Seq<char>, english: Seq<char>) -> QuestionView {
    QuestionView { greek, answers: translation_answers(normalized(english)) }
}

/// Splits `source` at its commas and trims every segment.
pub fn trimmed_segments(source: &str) -> (parts: Vec<String>)
    ensures
        parts.deep_view() == segments(source@),
{
    let pieces = split_on(source, ',');
    let mut parts: Vec<String> = Vec::new();
    let mut i: usize = 0;
    while i < pieces.len()
        invariant
            i <= pieces.len(),
            pieces.deep_view() == split(source@, ','),
            parts.deep_view() =~= pieces.deep_view().take(i as int).map_values(
                |piece: Seq<char>| trimmed(piece),
            ),
        decreases pieces.len() - i,
    {
        let part = trim(pieces[i].as_str());
        let ghost before = parts.deep_view();
        assert(part@ == trimmed(pieces.deep_view()[i as int]));
        parts.push(part);
        assert(parts.deep_view() =~= before.push(trimmed(pieces.deep_view()[i as int])));
        i += 1;
    }
    assert(pieces.deep_view().take(pieces.len() as int) =~= pieces.deep_view());
    parts
}

/// The answer options for an already cleaned translation text: one full-credit option
/// for each non-empty segment, in order.
pub fn translation_options(cleaned: &str) -> (answers: Vec<AnswerOption>)
    ensures
        answers.deep_view() == translation_answers(cleaned@),
        answers.len() == non_empty_segments(cleaned@).len(),
        forall|i: int|
            0 <= i < answers.len() ==> (#[trigger] answers[i]).mark == 100 && answers[i].feedback@
                == WELL_DONE@,
{
    let parts = trimmed_segments(cleaned);
    let mut answers: Vec<AnswerOption> = Vec::new();
    let mut i: usize = 0;
    let ghost kept = |segment: Seq<char>| segment.len() > 0;
    let ghost credit = |segment: Seq<char>| full_credit(segment);
    proof {
        assert(parts.deep_view().take(0) =~= Seq::<Seq<char>>::empty());
        reveal(Seq::filter);
        assert(parts.deep_view().take(0).filter(kept) =~= Seq::<Seq<char>>::empty());
    }
    while i < parts.len()
        invariant
            i <= parts.len(),
            kept == |segment: Seq<char>| segment.len() > 0,
            credit == |segment: Seq<char>| full_credit(segment),
            answers.deep_view() =~= parts.deep_view().take(i as int).filter(kept).map_values(
                credit,
            ),
        decreases parts.len() - i,
    {
        let ghost seen = parts.deep_view().take(i as int);
        let ghost segment = parts.deep_view()[i as int];
        proof {
            assert(parts.deep_view().take(i as int + 1) =~= seen.push(segment));
            seen.lemma_filter_push(segment, kept);
            seen.filter(kept).lemma_push_map_commute(credit, segment);
        }
        let text = parts[i].clone();
        if !text.as_str().is_empty() {
            let ghost before = answers.deep_view();
            answers.push(
                AnswerOption { mark: 100, answer: text, feedback: WELL_DONE.to_string() },
            );
            assert(answers.deep_view() =~= before.push(full_credit(segment)));
        }
        i += 1;
    }
    proof {
        assert(parts.deep_view().take(parts.len() as int) =~= parts.deep_view());
        assert forall|i: int| 0 <= i < answers.len() implies (#[trigger] answers[i]).mark == 100
            && answers[i].feedback@ == WELL_DONE@ by {
            assert(answers.deep_view()[i] == answers[i]@);
        }
    }
    answers
}

/// Builds the question for a record that is no verb and appends it to `questions`.
///
/// The prompt is the Greek field as it stands. The translation is cleaned and split at
/// commas; each segment that is not empty after trimming becomes one answer option with
/// full credit. So the question has as many options as the cleaned translation has
/// non-empty segments, and is well formed exactly when it has one.
pub fn build_non_verb(questions: &mut Vec<Question>, greek: String, english: String)
    ensures
        final(questions).deep_view() == old(questions).deep_view().push(
            non_verb_question(greek@, english@),
        ),
        non_verb_question(greek@, english@).answers.len() == non_empty_segments(
            normalized(english@),
        ).len(),
        forall|i: int|
            0 <= i < non_verb_question(greek@, english@).answers.len() ==> {
                let option = #[trigger] non_verb_question(greek@, english@).answers[i];
                option.mark == 100 && option.feedback == WELL_DONE@
            },
        non_verb_question(greek@, english@).well_formed() <==> non_empty_segments(
            normalized(english@),
        ).len() >= 1,
{
    let cleaned = normalize(english.as_str());
    let answer_options = translation_options(cleaned.as_str());
    let question = Question { greek, answers: answer_options };
    let ghost before = questions.deep_view();
    questions.push(question);
    assert(questions.deep_view() =~= before.push(non_verb_question(greek@, english@)));
}

/// The English verb phrases of a verb record: the translation without a leading
/// subject, cleaned, split at commas and trimmed. Each is to be looked up.
pub open spec fn verb_phrases_of(english: Seq<char>) -> Seq<Seq<char>> {
    segments(normalized(without_prefix(english, SUBJECT@)))
}

/// The verb phrases to look up for the translation `english` of a verb.
pub fn verb_phrases(english: &str) -> (phrases: Vec<String>)
    ensures
        phrases.deep_view() == verb_phrases_of(english@),
        phrases.len() >= 1,
{
    let bare = strip_prefix(english, SUBJECT);
    let cleaned = normalize(bare.as_str());
    let phrases = trimmed_segments(cleaned.as_str());
    proof {
        crate::text::lemma_split_nonempty(cleaned@, ',');
        assert(phrases.deep_view().len() == split(cleaned@, ',').len());
    }
    phrases
}

/// The tense that a slot of a verb's Greek field stands for.
#[derive(Clone, Copy, Debug, PartialEq, Eq)]
pub enum Tense {
    Present,
    Future,
    Aorist,
    AoristPassive,
}

/// The tense of the slot at position `slot`: present, future, aorist, aorist passive.
pub open spec fn slot_tense(slot: int) -> Tense {
    if slot == 0 {
        Tense::Present
    } else if slot == 1 {
        Tense::Future
    } else if slot == 2 {
        Tense::Aorist
    } else {
        Tense::AoristPassive
    }
}

/// The phrase that leads the full-credit answer of a tense.
pub open spec fn lead_of(tense: Tense) -> Seq<char> {
    match tense {
        Tense::Present => "I "@,
        Tense::Future => "I'll "@,
        Tense::Aorist => "I "@,
        Tense::AoristPassive => "I was "@,
    }
}

/// The form of `verb` that a tense is answered with.
pub open spec fn form_of(tense: Tense, verb: VerbFormsView) -> Seq<char> {
    match tense {
        Tense::Present => verb.present,
        Tense::Future => verb.present,
        Tense::Aorist => verb.past_simple,
        Tense::AoristPassive => verb.past_part,
    }
}

/// The full-credit answer for `verb` in a tense: the lead and the form.
pub open spec fn tense_answer(tense: Tense, verb: VerbFormsView) -> Seq<char> {
    lead_of(tense) + form_of(tense, verb)
}

/// The answer options of a tense: for each verb in turn its full-credit answer and
/// then its wildcard pattern.
pub open spec fn tense_answers(tense: Tense, verbs: Seq<VerbFormsView>) -> Seq<AnswerOptionView> {
    Seq::new(
        2 * verbs.len(),
        |i: int|
            if i % 2 == 0 {
                full_credit(tense_answer(tense, verbs[i / 2]))
            } else {
                partial_credit(verbs[i / 2].asterisked)
            },
    )
}

/// The number of questions that a Greek field with `slots` segments gives: one per
/// slot, and none beyond the fourth.
pub open spec fn slot_count(slots: nat) -> nat {
    if slots <= 4 {
        slots
    } else {
        4
    }
}

/// The questions of a verb: one per tense slot of `greek`, in slot order.
pub open spec fn verb_questions(greek: Seq<char>, verbs: Seq<VerbFormsView>) -> Seq<QuestionView> {
    Seq::new(
        slot_count(segments(greek).len()),
        |k: int|
            QuestionView { greek: segments(greek)[k], answers: tense_answers(slot_tense(k), verbs) },
    )
}

fn tense_at(slot: usize) -> (tense: Tense)
    ensures
        tense == slot_tense(slot as int),
{
    if slot == 0 {
        Tense::Present
    } else if slot == 1 {
        Tense::Future
    } else if slot == 2 {
        Tense::Aorist
    } else {
        Tense::AoristPassive
    }
}

/// The full-credit answer text for `verb` in `tense`.
pub fn answer_for(tense: Tense, verb: &VerbForms) -> (answer: String)
    ensures
        answer@ == tense_answer(tense, verb@),
{
    match tense {
        Tense::Present => join_text("I ", verb.present.as_str()),
        Tense::Future => join_text("I'll ", verb.present.as_str()),
        Tense::Aorist => join_text("I ", verb.past_simple.as_str()),
        Tense::AoristPassive => join_text("I was ", verb.past_part.as_str()),
    }
}

/// The answer options of one tense for the looked-up `verbs`.
pub fn tense_options(tense: Tense, verbs: &Vec<VerbForms>) -> (answers: Vec<AnswerOption>)
    ensures
        answers.deep_view() == tense_answers(tense, verbs.deep_view()),
{
    let mut answer_options: Vec<AnswerOption> = Vec::new();
    let mut j: usize = 0;
    while j < verbs.len()
        invariant
            j <= verbs.len(),
            answer_options.len() == 2 * j,
            forall|i: int|
                0 <= i < 2 * j ==> (#[trigger] answer_options.deep_view()[i]) == tense_answers(
                    tense,
                    verbs.deep_view(),
                )[i],
        decreases verbs.len() - j,
    {
        let verb = &verbs[j];
        assert(verbs.deep_view()[j as int] == verb@);
        let answer_option = AnswerOption {
            mark: 100,
            answer: answer_for(tense, verb),
            feedback: WELL_DONE.to_string(),
        };
        let answer_option_close = AnswerOption {
            mark: 50,
            answer: verb.asterisked.clone(),
            feedback: CLOSE.to_string(),
        };
        let ghost before = answer_options.deep_view();
        answer_options.push(answer_option);
        answer_options.push(answer_option_close);
        proof {
            assert(answer_options.deep_view() =~= before.push(
                full_credit(tense_answer(tense, verb@)),
            ).push(partial_credit(verb@.asterisked)));
            assert((2 * j) / 2 == j && (2 * j + 1) / 2 == j);
        }
        j += 1;
    }
    assert(answer_options.deep_view() =~= tense_answers(tense, verbs.deep_view()));
    answer_options
}

/// Builds the questions of a verb from its Greek field and the looked-up forms of its
/// English verb phrases.
///
/// The Greek field is split at commas into tense slots: present, future, aorist and
/// aorist passive. Each slot that is there, up to the fourth, gives one question whose
/// prompt is the trimmed slot. Its options are, for each verb in turn, the full-credit
/// answer of that tense and the verb's wildcard pattern with half credit. So `k` slots
/// (`k` at most 4) and `m` verbs give `k` questions of `2 * m` options each.
pub fn build_verb(greek: String, verbs: Vec<VerbForms>) -> (questions: Vec<Question>)
    ensures
        questions.deep_view() == verb_questions(greek@, verbs.deep_view()),
        questions.len() == slot_count(segments(greek@).len()),
        questions.len() >= 1,
        forall|k: int|
            0 <= k < questions.len() ==> (#[trigger] questions[k])@.answers.len() == 2
                * verbs.len(),
        forall|k: int, j: int|
            0 <= k < questions.len() && 0 <= j < verbs.len() ==> {
                let answers = (#[trigger] questions[k])@.answers;
                &&& answers[2 * j] == full_credit(
                    tense_answer(slot_tense(k), (#[trigger] verbs[j])@),
                )
                &&& answers[2 * j + 1] == partial_credit(verbs[j]@.asterisked)
            },
        verbs.len() >= 1 ==> all_well_formed(questions.deep_view()),
{
    let mut questions: Vec<Question> = Vec::new();
    let greek_parts = trimmed_segments(greek.as_str());
    proof {
        crate::text::lemma_split_nonempty(greek@, ',');
    }
    let count: usize = if greek_parts.len() <= 4 {
        greek_parts.len()
    } else {
        4
    };
    let mut k: usize = 0;
    while k < count
        invariant
            k <= count <= greek_parts.len(),
            count == slot_count(segments(greek@).len()),
            greek_parts.deep_view() == segments(greek@),
            questions.len() == k,
            forall|i: int|
                0 <= i < k ==> (#[trigger] questions.deep_view()[i]) == verb_questions(
                    greek@,
                    verbs.deep_view(),
                )[i],
        decreases count - k,
    {
        let answer_options = tense_options(tense_at(k), &verbs);
        let prompt = greek_parts[k].clone();
        assert(prompt@ == greek_parts.deep_view()[k as int]);
        let ghost before = questions.deep_view();
        questions.push(Question { greek: prompt, answers: answer_options });
        assert(questions.deep_view() =~= before.push(
            verb_questions(greek@, verbs.deep_view())[k as int],
        ));
        k += 1;
    }
    proof {
        assert(questions.deep_view() =~= verb_questions(greek@, verbs.deep_view()));
        assert forall|k: int| 0 <= k < questions.len() implies (#[trigger] questions[k])@
            == verb_questions(greek@, verbs.deep_view())[k] by {
            assert(questions.deep_view()[k] == questions[k]@);
        }
        assert forall|k: int, j: int| 0 <= k < questions.len() && 0 <= j < verbs.len() implies {
            let answers = (#[trigger] questions[k])@.answers;
            &&& answers[2 * j] == full_credit(tense_answer(slot_tense(k), (#[trigger] verbs[j])@))
            &&& answers[2 * j + 1] == partial_credit(verbs[j]@.asterisked)
        } by {
            assert((2 * j) / 2 == j && (2 * j + 1) / 2 == j);
            assert((2 * j) % 2 == 0 && (2 * j + 1) % 2 == 1);
            assert(verbs.deep_view()[j] == verbs[j]@);
        }
    }
    questions
}

} // verus!

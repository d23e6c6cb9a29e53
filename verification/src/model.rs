//! The data that the library works on: answer options, questions and dictionary records.

use vstd::prelude::*;

verus! {

/// One accepted answer of a question with its credit and the feedback shown for it.
#[derive(Debug, PartialEq, Eq)]
pub struct AnswerOption {
    /// Credit in percent; by convention 0, 50 or 100.
    pub mark: u8,
    pub answer: String,
    pub feedback: String,
}

/// What an [`AnswerOption`] holds, as mathematical values.
pub struct AnswerOptionView {
    pub mark: u8,
    pub answer: Seq<char>,
    pub feedback: Seq<char>,
}

impl View for AnswerOption {
    type V = AnswerOptionView;

    open spec fn view(&self) -> AnswerOptionView {
        AnswerOptionView { mark: self.mark, answer: self.answer@, feedback: self.feedback@ }
    }
}

impl DeepView for AnswerOption {
    type V = AnswerOptionView;

    open spec fn deep_view(&self) -> AnswerOptionView {
        self@
    }
}

impl Clone for AnswerOption {
    fn clone(&self) -> (r: Self)
        ensures
            r@ == self@,
    {
        let mark = self.mark;
        let answer = self.answer.clone();
        let feedback = self.feedback.clone();
        AnswerOption { mark, answer, feedback }
    }
}

/// A prompt with its answer options in display and scoring order.
#[derive(Debug, PartialEq, Eq)]
pub struct Question {
    pub greek: String,
    pub answers: Vec<AnswerOption>,
}

/// What a [`Question`] holds, as mathematical values.
pub struct QuestionView {
    pub greek: Seq<char>,
    pub answers: Seq<AnswerOptionView>,
}

impl QuestionView {
    /// A question has at least one answer option.
    pub open spec fn well_formed(self) -> bool {
        self.answers.len() >= 1
    }
}

/// Whether every question of a store has at least one answer option.
pub open spec fn all_well_formed(store: Seq<QuestionView>) -> bool {
    forall|i: int| 0 <= i < store.len() ==> (#[trigger] store[i]).well_formed()
}

impl View for Question {
    type V = QuestionView;

    open spec fn view(&self) -> QuestionView {
        QuestionView { greek: self.greek@, answers: self.answers.deep_view() }
    }
}

impl DeepView for Question {
    type V = QuestionView;

    open spec fn deep_view(&self) -> QuestionView {
        self@
    }
}

impl Clone for Question {
    /// A deep copy: the answer options are copied one by one.
    fn clone(&self) -> (r: Self)
        ensures
            r@ == self@,
    {
        let greek = self.greek.clone();
        let mut answers: Vec<AnswerOption> = Vec::new();
        let mut i: usize = 0;
        while i < self.answers.len()
            invariant
                i <= self.answers.len(),
                answers.deep_view() =~= self.answers.deep_view().take(i as int),
            decreases self.answers.len() - i,
        {
            let ao_dup = self.answers[i].clone();
            let ghost copied = answers.deep_view();
            assert(ao_dup@ == self.answers[i as int]@);
            answers.push(ao_dup);
            assert(answers.deep_view() =~= copied.push(self.answers[i as int]@));
            i += 1;
        }
        assert(self.answers.deep_view().take(self.answers.len() as int)
            =~= self.answers.deep_view());
        Question { greek, answers }
    }
}

/// One row of the dictionary: the Greek entry, its part of speech and its English translations.
#[derive(Debug, PartialEq, Eq)]
pub struct Record {
    pub greek: String,
    pub part_of_speech: String,
    pub english: String,
}

/// What a [`Record`] holds, as mathematical values.
pub struct RecordView {
    pub greek: Seq<char>,
    pub part_of_speech: Seq<char>,
    pub english: Seq<char>,
}

impl View for Record {
    type V = RecordView;

    open spec fn view(&self) -> RecordView {
        RecordView {
            greek: self.greek@,
            part_of_speech: self.part_of_speech@,
            english: self.english@,
        }
    }
}

impl DeepView for Record {
    type V = RecordView;

    open spec fn deep_view(&self) -> RecordView {
        self@
    }
}

/// The forms of one English verb that the answers of a verb question are built from.
#[derive(Debug, PartialEq, Eq)]
pub struct VerbForms {
    pub present: String,
    pub past_simple: String,
    pub past_part: String,
    /// The wildcard pattern that earns partial credit.
    pub asterisked: String,
}

/// What a [`VerbForms`] holds, as mathematical values.
pub struct VerbFormsView {
    pub present: Seq<char>,
    pub past_simple: Seq<char>,
    pub past_part: Seq<char>,
    pub asterisked: Seq<char>,
}

impl View for VerbForms {
    type V = VerbFormsView;

    open spec fn view(&self) -> VerbFormsView {
        VerbFormsView {
            present: self.present@,
            past_simple: self.past_simple@,
            past_part: self.past_part@,
            asterisked: self.asterisked@,
        }
    }
}

impl DeepView for VerbForms {
    type V = VerbFormsView;

    open spec fn deep_view(&self) -> VerbFormsView {
        self@
    }
}

} // verus!

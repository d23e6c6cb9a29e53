//! Editing the question store: choosing by number, duplicating and deleting questions,
//! and changing, adding, deleting, moving and rewriting the answers of a question.

use crate::commands::ReorderCommand;
use crate::model::{all_well_formed, AnswerOption, AnswerOptionView, Question, QuestionView};
use crate::text::{parse_number, parse_usize, replace_all, replaced, same_text};
use vstd::prelude::*;

verus! {

/// Why an edit was refused.
#[derive(Clone, Copy, Debug, PartialEq, Eq, Structural)]
pub enum EditError {
    /// The store has no question at the given position.
    NoSuchQuestion,
    /// The question has no answer option at the given position.
    NoSuchAnswer,
    /// The answer option is the only one of its question, which must keep one.
    LastAnswer,
}

/// What a typed line chooses among the numbers `min + 1` to `max + 1`.
#[derive(Clone, Copy, Debug, PartialEq, Eq, Structural)]
pub enum Selection {
    /// The zero-based position that the number stands for.
    Chosen(usize),
    /// A number outside the range: say so and ask again.
    OutOfRange,
    /// No number at all: ask again.
    NotANumber,
}

/// What the line `input` chooses. A number `n` with `min < n <= max + 1` chooses the
/// position `n - 1`; any other number is out of range.
pub open spec fn selection_of(input: Seq<char>, min: usize, max: usize) -> Selection {
    match parse_number(input) {
        Some(n) => if n > usize::MAX {
            Selection::NotANumber
        } else if min < n <= max + 1 {
            Selection::Chosen((n - 1) as usize)
        } else {
            Selection::OutOfRange
        },
        None => Selection::NotANumber,
    }
}

/// Reads the line that answers a request for a number from `min + 1` to `max + 1`.
pub fn read_selection(input: &str, min: usize, max: usize) -> (selection: Selection)
    ensures
        selection == selection_of(input@, min, max),
        selection matches Selection::Chosen(index) ==> min <= index <= max,
{
    match parse_usize(input) {
        Some(num) => {
            if num > min && num - 1 <= max {
                Selection::Chosen(num - 1)
            } else {
                Selection::OutOfRange
            }
        },
        None => Selection::NotANumber,
    }
}

/// The part of a question that a position in its numbered display stands for.
#[derive(Clone, Copy, Debug, PartialEq, Eq, Structural)]
pub enum EditTarget {
    /// The prompt, shown first.
    Prompt,
    /// The answer option at the given position.
    Answer(usize),
}

/// The part of a question at `position` of its display: the prompt at 0, then the
/// answer options in order.
pub open spec fn target_at(position: usize) -> EditTarget {
    if position == 0 {
        EditTarget::Prompt
    } else {
        EditTarget::Answer((position - 1) as usize)
    }
}

/// Tells which part of a question a chosen display position stands for.
pub fn edit_target(position: usize) -> (target: EditTarget)
    ensures
        target == target_at(position),
{
    if position == 0 {
        EditTarget::Prompt
    } else {
        EditTarget::Answer(position - 1)
    }
}

/// The mark that leaves the mark of an edited answer as it is.
pub const KEEP_MARK: u8 = 0;

/// The feedback that leaves the feedback of an edited answer as it is.
pub const KEEP_FEEDBACK: &'static str = "XXXX";

/// The feedback offered for a correct answer.
pub const FEEDBACK_WELL_DONE: &'static str = "Well done!";

/// The feedback offered for an answer in the wrong tense.
pub const FEEDBACK_TENSE: &'static str = "Close! What tense is this?";

/// The mark that the menu line `choice` stands for: full credit for `1`, half for `2`,
/// none for anything else.
pub open spec fn mark_of(choice: Seq<char>) -> u8 {
    if choice == seq!['1'] {
        100
    } else if choice == seq!['2'] {
        50
    } else {
        0
    }
}

/// Reads the line that answers the mark menu.
pub fn mark_for(choice: &str) -> (mark: u8)
    ensures
        mark == mark_of(choice@),
{
    proof {
        reveal_strlit("1");
        reveal_strlit("2");
        assert("1"@ =~= seq!['1']);
        assert("2"@ =~= seq!['2']);
    }
    if same_text(choice, "1") {
        100
    } else if same_text(choice, "2") {
        50
    } else {
        0
    }
}

/// What the feedback menu offers.
#[derive(Clone, Copy, Debug, PartialEq, Eq, Structural)]
pub enum FeedbackChoice {
    WellDone,
    Tense,
    /// The user types the feedback.
    Custom,
    /// No entry of the menu: the feedback stays as it is.
    Keep,
}

/// The entry of the feedback menu that the line `choice` stands for.
pub open spec fn feedback_choice_of(choice: Seq<char>) -> FeedbackChoice {
    if choice == seq!['1'] {
        FeedbackChoice::WellDone
    } else if choice == seq!['2'] {
        FeedbackChoice::Tense
    } else if choice == seq!['3'] {
        FeedbackChoice::Custom
    } else {
        FeedbackChoice::Keep
    }
}

/// Reads the line that answers the feedback menu.
pub fn feedback_choice(choice: &str) -> (entry: FeedbackChoice)
    ensures
        entry == feedback_choice_of(choice@),
{
    proof {
        reveal_strlit("1");
        reveal_strlit("2");
        reveal_strlit("3");
        assert("1"@ =~= seq!['1']);
        assert("2"@ =~= seq!['2']);
        assert("3"@ =~= seq!['3']);
    }
    if same_text(choice, "1") {
        FeedbackChoice::WellDone
    } else if same_text(choice, "2") {
        FeedbackChoice::Tense
    } else if same_text(choice, "3") {
        FeedbackChoice::Custom
    } else {
        FeedbackChoice::Keep
    }
}

/// The feedback text of a menu entry; `custom` is what the user typed for `Custom`.
pub open spec fn feedback_text_of(entry: FeedbackChoice, custom: Seq<char>) -> Seq<char> {
    match entry {
        FeedbackChoice::WellDone => FEEDBACK_WELL_DONE@,
        FeedbackChoice::Tense => FEEDBACK_TENSE@,
        FeedbackChoice::Custom => custom,
        FeedbackChoice::Keep => KEEP_FEEDBACK@,
    }
}

/// The feedback text of a menu entry.
pub fn feedback_text(entry: FeedbackChoice, custom: String) -> (text: String)
    ensures
        text@ == feedback_text_of(entry, custom@),
{
    match entry {
        FeedbackChoice::WellDone => FEEDBACK_WELL_DONE.to_string(),
        FeedbackChoice::Tense => FEEDBACK_TENSE.to_string(),
        FeedbackChoice::Custom => custom,
        FeedbackChoice::Keep => KEEP_FEEDBACK.to_string(),
    }
}

/// Inserts a deep copy of the question at `index` immediately before it.
pub fn duplicate(questions: &mut Vec<Question>, index: usize) -> (r: Result<(), EditError>)
    ensures
        index < old(questions).len() ==> r is Ok && final(questions).deep_view() == old(
            questions,
        ).deep_view().insert(index as int, old(questions).deep_view()[index as int]),
        index >= old(questions).len() ==> r == Err::<(), EditError>(EditError::NoSuchQuestion)
            && final(questions).deep_view() == old(questions).deep_view(),
        all_well_formed(old(questions).deep_view()) ==> all_well_formed(
            final(questions).deep_view(),
        ),
{
    if index >= questions.len() {
        return Err(EditError::NoSuchQuestion);
    }
    let dup = questions[index].clone();
    let ghost before = questions.deep_view();
    questions.insert(index, dup);
    assert(questions.deep_view() =~= before.insert(index as int, before[index as int]));
    Ok(())
}

/// Removes the question at `index`.
pub fn remove_question(questions: &mut Vec<Question>, index: usize) -> (r: Result<
    (),
    EditError,
>)
    ensures
        index < old(questions).len() ==> r is Ok && final(questions).deep_view() == old(
            questions,
        ).deep_view().remove(index as int),
        index >= old(questions).len() ==> r == Err::<(), EditError>(EditError::NoSuchQuestion)
            && final(questions).deep_view() == old(questions).deep_view(),
        all_well_formed(old(questions).deep_view()) ==> all_well_formed(
            final(questions).deep_view(),
        ),
{
    if index >= questions.len() {
        return Err(EditError::NoSuchQuestion);
    }
    let ghost before = questions.deep_view();
    questions.remove(index);
    assert(questions.deep_view() =~= before.remove(index as int));
    Ok(())
}

/// Replaces the prompt of a question.
pub fn edit_prompt(question: &mut Question, greek: String)
    ensures
        final(question)@ == (QuestionView { greek: greek@, answers: old(question)@.answers }),
        old(question)@.well_formed() ==> final(question)@.well_formed(),
{
    question.greek = greek;
}

/// An answer option after an edit: the new text, and the new mark and feedback unless
/// they say to keep the old ones.
pub open spec fn edited_option(
    option: AnswerOptionView,
    answer: Seq<char>,
    mark: u8,
    feedback: Seq<char>,
) -> AnswerOptionView {
    AnswerOptionView {
        mark: if mark == KEEP_MARK {
            option.mark
        } else {
            mark
        },
        answer,
        feedback: if feedback == KEEP_FEEDBACK@ {
            option.feedback
        } else {
            feedback
        },
    }
}

/// Edits the answer option at `index`: its text becomes `answer`; its mark becomes
/// `mark` unless that is [`KEEP_MARK`]; its feedback becomes `feedback` unless that is
/// [`KEEP_FEEDBACK`]. The other options and the prompt stay.
pub fn edit_answer(
    question: &mut Question,
    index: usize,
    answer: String,
    mark: u8,
    feedback: String,
) -> (r: Result<(), EditError>)
    ensures
        index < old(question).answers.len() ==> r is Ok && final(question)@ == (QuestionView {
            greek: old(question)@.greek,
            answers: old(question)@.answers.update(
                index as int,
                edited_option(old(question)@.answers[index as int], answer@, mark, feedback@),
            ),
        }),
        index >= old(question).answers.len() ==> r == Err::<(), EditError>(
            EditError::NoSuchAnswer,
        ) && final(question)@ == old(question)@,
        old(question)@.well_formed() ==> final(question)@.well_formed(),
{
    if index >= question.answers.len() {
        return Err(EditError::NoSuchAnswer);
    }
    let ghost before = question@.answers;
    let current = question.answers.remove(index);
    assert(current@ == before[index as int]);
    let new_mark = if mark == KEEP_MARK {
        current.mark
    } else {
        mark
    };
    let new_feedback = if same_text(feedback.as_str(), KEEP_FEEDBACK) {
        current.feedback
    } else {
        feedback
    };
    let edited = AnswerOption { mark: new_mark, answer, feedback: new_feedback };
    question.answers.insert(index, edited);
    assert(question@.answers =~= before.update(
        index as int,
        edited_option(before[index as int], answer@, mark, feedback@),
    ));
    Ok(())
}

/// Appends a new answer option to a question.
pub fn add_answer(question: &mut Question, answer: String, mark: u8, feedback: String)
    ensures
        final(question)@ == (QuestionView {
            greek: old(question)@.greek,
            answers: old(question)@.answers.push(
                AnswerOptionView { mark, answer: answer@, feedback: feedback@ },
            ),
        }),
        final(question)@.well_formed(),
{
    let ghost before = question@.answers;
    let answeroption = AnswerOption { mark, answer, feedback };
    question.answers.push(answeroption);
    assert(question@.answers =~= before.push(
        AnswerOptionView { mark, answer: answer@, feedback: feedback@ },
    ));
}

/// Removes the answer option at `index`, unless it is the only one: a question keeps
/// at least one answer option.
pub fn delete_answer(question: &mut Question, index: usize) -> (r: Result<(), EditError>)
    ensures
        match r {
            Ok(_) => {
                &&& index < old(question).answers.len()
                &&& old(question).answers.len() >= 2
                &&& final(question)@ == (QuestionView {
                    greek: old(question)@.greek,
                    answers: old(question)@.answers.remove(index as int),
                })
                &&& final(question)@.well_formed()
            },
            Err(e) => {
                &&& final(question)@ == old(question)@
                &&& e == if index >= old(question).answers.len() {
                    EditError::NoSuchAnswer
                } else {
                    EditError::LastAnswer
                }
                &&& index >= old(question).answers.len() || old(question).answers.len() == 1
            },
        },
        old(question)@.well_formed() ==> final(question)@.well_formed(),
{
    if index >= question.answers.len() {
        return Err(EditError::NoSuchAnswer);
    }
    if question.answers.len() == 1 {
        return Err(EditError::LastAnswer);
    }
    let ghost before = question@.answers;
    question.answers.remove(index);
    assert(question@.answers =~= before.remove(index as int));
    Ok(())
}

/// The answer options with those at `i` and `j` exchanged.
pub open spec fn swapped(answers: Seq<AnswerOptionView>, i: int, j: int) -> Seq<
    AnswerOptionView,
> {
    answers.update(i, answers[j]).update(j, answers[i])
}

/// Moving the answer at `index` one place up: it changes places with the one before
/// it and is then found one position earlier. The first answer stays where it is.
pub open spec fn moved_up(answers: Seq<AnswerOptionView>, index: int) -> (
    Seq<AnswerOptionView>,
    int,
) {
    if 0 < index < answers.len() {
        (swapped(answers, index - 1, index), index - 1)
    } else {
        (answers, index)
    }
}

/// Moving the answer at `index` one place down: it changes places with the one after
/// it and is then found one position later. The last answer stays where it is.
pub open spec fn moved_down(answers: Seq<AnswerOptionView>, index: int) -> (
    Seq<AnswerOptionView>,
    int,
) {
    if 0 <= index && index + 1 < answers.len() {
        (swapped(answers, index, index + 1), index + 1)
    } else {
        (answers, index)
    }
}

/// Moving an answer up and then down puts every answer back where it was, from any
/// position but the first: in particular from an interior one.
pub proof fn lemma_up_then_down_restores(answers: Seq<AnswerOptionView>, index: int)
    requires
        0 < index < answers.len(),
    ensures
        moved_down(moved_up(answers, index).0, moved_up(answers, index).1) == (answers, index),
{
    let up = moved_up(answers, index);
    assert(moved_down(up.0, up.1).0 =~= answers);
}

/// Moving an answer down and then up puts every answer back where it was, from any
/// position but the last: in particular from an interior one.
pub proof fn lemma_down_then_up_restores(answers: Seq<AnswerOptionView>, index: int)
    requires
        0 <= index < answers.len() - 1,
    ensures
        moved_up(moved_down(answers, index).0, moved_down(answers, index).1) == (answers, index),
{
    let down = moved_down(answers, index);
    assert(moved_up(down.0, down.1).0 =~= answers);
}

/// Moves the answer option at `index` one place up and returns where it now stands.
pub fn move_up(question: &mut Question, index: usize) -> (now: usize)
    ensures
        final(question)@.greek == old(question)@.greek,
        (final(question)@.answers, now as int) == moved_up(old(question)@.answers, index as int),
        old(question)@.well_formed() ==> final(question)@.well_formed(),
{
    if index > 0 && index < question.answers.len() {
        let ghost before = question@.answers;
        let moving = question.answers.remove(index);
        question.answers.insert(index - 1, moving);
        assert(question@.answers =~= swapped(before, index - 1, index as int));
        index - 1
    } else {
        index
    }
}

/// Moves the answer option at `index` one place down and returns where it now stands.
pub fn move_down(question: &mut Question, index: usize) -> (now: usize)
    ensures
        final(question)@.greek == old(question)@.greek,
        (final(question)@.answers, now as int) == moved_down(
            old(question)@.answers,
            index as int,
        ),
        old(question)@.well_formed() ==> final(question)@.well_formed(),
{
    if index < question.answers.len() && index + 1 < question.answers.len() {
        let ghost before = question@.answers;
        let moving = question.answers.remove(index);
        question.answers.insert(index + 1, moving);
        assert(question@.answers =~= swapped(before, index as int, index + 1));
        index + 1
    } else {
        index
    }
}

/// One step of moving an answer: applies `command` to the answer at `index`. Returns
/// the position to go on with, or `None` when the order is accepted.
pub fn reorder_answers(question: &mut Question, index: usize, command: ReorderCommand) -> (next:
    Option<usize>)
    ensures
        final(question)@.greek == old(question)@.greek,
        match command {
            ReorderCommand::Up => next is Some && (final(question)@.answers, next->0 as int)
                == moved_up(old(question)@.answers, index as int),
            ReorderCommand::Down => next is Some && (final(question)@.answers, next->0 as int)
                == moved_down(old(question)@.answers, index as int),
            ReorderCommand::Accept => next is None && final(question)@ == old(question)@,
        },
        old(question)@.well_formed() ==> final(question)@.well_formed(),
{
    match command {
        ReorderCommand::Up => Some(move_up(question, index)),
        ReorderCommand::Down => Some(move_down(question, index)),
        ReorderCommand::Accept => None,
    }
}

/// An answer option with every occurrence of `find` in its text replaced by `replacement`.
pub open spec fn substituted(
    option: AnswerOptionView,
    find: Seq<char>,
    replacement: Seq<char>,
) -> AnswerOptionView {
    AnswerOptionView {
        mark: option.mark,
        answer: replaced(option.answer, find, replacement),
        feedback: option.feedback,
    }
}

/// Replaces `find` by `replacement`, literally, in the text of every answer option of
/// a question. Marks, feedback, order and prompt stay.
pub fn subs_answers(question: &mut Question, findtext: &str, replacement: &str)
    ensures
        final(question)@ == (QuestionView {
            greek: old(question)@.greek,
            answers: old(question)@.answers.map_values(
                |option: AnswerOptionView| substituted(option, findtext@, replacement@),
            ),
        }),
        old(question)@.well_formed() ==> final(question)@.well_formed(),
{
    let ghost before = question@.answers;
    let ghost rewrite = |option: AnswerOptionView| substituted(option, findtext@, replacement@);
    let mut i: usize = 0;
    while i < question.answers.len()
        invariant
            i <= question.answers.len(),
            question@.greek == old(question)@.greek,
            before == old(question)@.answers,
            question@.answers.len() == before.len(),
            rewrite == |option: AnswerOptionView| substituted(option, findtext@, replacement@),
            forall|k: int| 0 <= k < i ==> (#[trigger] question@.answers[k]) == rewrite(before[k]),
            forall|k: int| i <= k < before.len() ==> (#[trigger] question@.answers[k]) == before[k],
        decreases question.answers.len() - i,
    {
        let ghost current = question@.answers;
        let option = question.answers.remove(i);
        assert(option@ == current[i as int]);
        let ans = replace_all(option.answer.as_str(), findtext, replacement);
        let rewritten = AnswerOption { mark: option.mark, answer: ans, feedback: option.feedback };
        question.answers.insert(i, rewritten);
        assert(question@.answers =~= current.update(i as int, rewrite(before[i as int])));
        i += 1;
    }
    assert(question@.answers =~= before.map_values(rewrite));
}

} // verus!

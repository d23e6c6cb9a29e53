//! The quiz document: a category block, one cloze question block per stored question,
//! and a closing line.

use crate::model::{AnswerOption, AnswerOptionView, Question, QuestionView};
use crate::text::{decimal, push_text, replace_all, replaced, to_decimal};
use vstd::prelude::*;

verus! {

/// The folder path that the export offers to begin with.
pub const DEFAULT_STAGE_PATH: &'static str = "top/Vocabulary/A_";

/// The part of a stage path that the offered base name leaves out.
pub const STAGE_FOLDER: &'static str = "top/Vocabulary/";

/// The number of the first exported question.
pub const FIRST_NUMBER: u128 = 1001;

/// The document up to the stage path.
pub const HEADER_OPEN: &'static str =
    "<?xml version=\"1.0\" encoding=\"utf-8\"?>\n<quiz>\n<!-- question: 0  -->\n<question type=\"category\">\n<category>\n<text>$course$/";

/// The category block after the stage path.
pub const HEADER_CLOSE: &'static str = "</text>\n</category>\n</question>\n";

/// A question block up to its number.
pub const BLOCK_OPEN: &'static str = "<!-- question: ";

/// A question block between its number and its name.
pub const BLOCK_NAME: &'static str = "  -->\n<question type=\"cloze\" > \n<name>\n<text>";

/// A question block between its name and its prompt.
pub const BLOCK_PROMPT: &'static str = "</text>\n</name>\n<questiontext>\n<text>\n<![CDATA[<p>";

/// A question block between its prompt and its cloze field.
pub const BLOCK_CODE: &'static str =
    "</p>\n<p><font size=\"4\" face=\"times new roman,times,serif\">";

/// A question block after its cloze field.
pub const BLOCK_CLOSE: &'static str =
    ".</font></p>]]>\n</text>\n</questiontext>\n<generalfeedback>\n<text></text>\n</generalfeedback>\n<shuffleanswers>0</shuffleanswers>\n</question>\n";

/// The line that ends the document.
pub const FOOTER: &'static str = "</quiz>\n";

/// What separates the base name from the number in a question's name.
pub const NAME_INFIX: &'static str = "_q_";

/// How a cloze field begins.
pub const CLOZE_OPEN: &'static str = "{1:SHORTANSWER:";

/// How a cloze field ends.
pub const CLOZE_CLOSE: &'static str = "}";

/// The base name that the export offers for a stage path: the path without its folder.
pub open spec fn base_name_of(stage_path: Seq<char>) -> Seq<char> {
    replaced(stage_path, STAGE_FOLDER@, Seq::empty())
}

/// The base name to offer for questions exported under `stage_path`.
pub fn default_basename(stage_path: &str) -> (name: String)
    ensures
        name@ == base_name_of(stage_path@),
{
    proof {
        reveal_strlit("");
        assert(""@ =~= Seq::<char>::empty());
    }
    replace_all(stage_path, STAGE_FOLDER, "")
}

/// One answer option in a cloze field: `~%mark%answer#feedback`.
pub open spec fn option_text(option: AnswerOptionView) -> Seq<char> {
    "~%"@ + decimal(option.mark as nat) + "%"@ + option.answer + "#"@ + option.feedback
}

/// The cloze field of a question: every answer option in order, between the opening
/// and the closing of a short-answer field.
pub open spec fn cloze(answers: Seq<AnswerOptionView>) -> Seq<char> {
    CLOZE_OPEN@ + answers.map_values(|option: AnswerOptionView| option_text(option)).flatten()
        + CLOZE_CLOSE@
}

/// Writes the cloze field for the answer options of a question.
pub fn moodle_shortanswer(answers: &Vec<AnswerOption>) -> (field: String)
    ensures
        field@ == cloze(answers.deep_view()),
{
    let mut question_string = CLOZE_OPEN.to_string();
    let ghost writing = |option: AnswerOptionView| option_text(option);
    let mut i: usize = 0;
    assert(answers.deep_view().take(0).map_values(writing) =~= Seq::<Seq<char>>::empty());
    assert(CLOZE_OPEN@ + Seq::<char>::empty() =~= CLOZE_OPEN@);
    while i < answers.len()
        invariant
            i <= answers.len(),
            writing == |option: AnswerOptionView| option_text(option),
            question_string@ == CLOZE_OPEN@ + answers.deep_view().take(i as int).map_values(
                writing,
            ).flatten(),
        decreases answers.len() - i,
    {
        let answer = &answers[i];
        let ghost written = answers.deep_view().take(i as int).map_values(writing);
        let ghost before = question_string@;
        proof {
            assert(answers.deep_view()[i as int] == answer@);
            assert(answers.deep_view().take(i + 1).map_values(writing) =~= written.push(
                option_text(answer@),
            ));
            written.lemma_flatten_push(option_text(answer@));
        }
        push_text(&mut question_string, "~%");
        push_text(&mut question_string, to_decimal(answer.mark as u128).as_str());
        push_text(&mut question_string, "%");
        push_text(&mut question_string, answer.answer.as_str());
        push_text(&mut question_string, "#");
        push_text(&mut question_string, answer.feedback.as_str());
        assert(question_string@ =~= before + option_text(answer@));
        assert(question_string@ =~= CLOZE_OPEN@ + (written.flatten() + option_text(answer@)));
        i += 1;
    }
    assert(answers.deep_view().take(answers.len() as int) =~= answers.deep_view());
    push_text(&mut question_string, CLOZE_CLOSE);
    question_string
}

/// The number of the question exported at `position`: numbering starts at
/// [`FIRST_NUMBER`] and goes up by one per question, in store order.
pub open spec fn question_number(position: nat) -> nat {
    FIRST_NUMBER as nat + position
}

/// The name of the question numbered `number`.
pub open spec fn question_name(basename: Seq<char>, number: nat) -> Seq<char> {
    basename + NAME_INFIX@ + decimal(number)
}

/// The block of a question exported at `position`.
pub open spec fn question_block(question: QuestionView, basename: Seq<char>, position: nat) -> Seq<
    char,
> {
    BLOCK_OPEN@ + decimal(question_number(position)) + BLOCK_NAME@ + question_name(
        basename,
        question_number(position),
    ) + BLOCK_PROMPT@ + question.greek + BLOCK_CODE@ + " "@ + cloze(question.answers)
        + BLOCK_CLOSE@
}

/// The blocks of the stored questions, each numbered by its position in the store.
pub open spec fn question_blocks(store: Seq<QuestionView>, basename: Seq<char>) -> Seq<Seq<char>> {
    Seq::new(store.len(), |i: int| question_block(store[i], basename, i as nat))
}

/// The category block, which carries the stage path.
pub open spec fn category_block(stage_path: Seq<char>) -> Seq<char> {
    HEADER_OPEN@ + stage_path + HEADER_CLOSE@
}

/// The whole document for a store.
pub open spec fn document(
    store: Seq<QuestionView>,
    stage_path: Seq<char>,
    basename: Seq<char>,
) -> Seq<char> {
    category_block(stage_path) + question_blocks(store, basename).flatten() + FOOTER@
}

/// Numbering goes by position alone. The first exported question has the number 1001
/// and each next one the number after it; and with any question deleted from the
/// store, the questions that are left are again numbered 1001, 1002 and so on.
pub proof fn lemma_numbering_by_position(
    store: Seq<QuestionView>,
    basename: Seq<char>,
    deleted: int,
    position: int,
)
    requires
        0 <= deleted < store.len(),
        0 <= position < store.len() - 1,
    ensures
        question_number(0) == 1001,
        question_number(position as nat + 1) == question_number(position as nat) + 1,
        question_blocks(store.remove(deleted), basename)[position] == question_block(
            store.remove(deleted)[position],
            basename,
            position as nat,
        ),
        question_blocks(store.remove(deleted), basename).len() == store.len() - 1,
{
}

/// Writes the block of one question exported at `position`.
pub fn export_question(question: &Question, basename: &str, position: usize) -> (block: String)
    ensures
        block@ == question_block(question@, basename@, position as nat),
{
    let numbered: u128 = FIRST_NUMBER + position as u128;
    let number = to_decimal(numbered);
    let mut block = BLOCK_OPEN.to_string();
    push_text(&mut block, number.as_str());
    push_text(&mut block, BLOCK_NAME);
    push_text(&mut block, basename);
    push_text(&mut block, NAME_INFIX);
    push_text(&mut block, number.as_str());
    let ghost named = block@;
    push_text(&mut block, BLOCK_PROMPT);
    push_text(&mut block, question.greek.as_str());
    push_text(&mut block, BLOCK_CODE);
    push_text(&mut block, " ");
    push_text(&mut block, moodle_shortanswer(&question.answers).as_str());
    push_text(&mut block, BLOCK_CLOSE);
    proof {
        assert(named =~= BLOCK_OPEN@ + decimal(question_number(position as nat)) + BLOCK_NAME@
            + question_name(basename@, question_number(position as nat)));
    }
    block
}

/// Writes the quiz document for the store: the category block with the stage path,
/// then one block per question in store order, then the closing line.
pub fn export(questions: &Vec<Question>, stage_path: &str, basename: &str) -> (text: String)
    ensures
        text@ == document(questions.deep_view(), stage_path@, basename@),
{
    let mut text = HEADER_OPEN.to_string();
    push_text(&mut text, stage_path);
    push_text(&mut text, HEADER_CLOSE);
    let ghost blocks = question_blocks(questions.deep_view(), basename@);
    let mut i: usize = 0;
    assert(blocks.take(0) =~= Seq::<Seq<char>>::empty());
    assert(text@ + Seq::<char>::empty() =~= text@);
    while i < questions.len()
        invariant
            i <= questions.len(),
            blocks == question_blocks(questions.deep_view(), basename@),
            text@ == category_block(stage_path@) + blocks.take(i as int).flatten(),
        decreases questions.len() - i,
    {
        let ghost before = text@;
        let ghost written = blocks.take(i as int);
        let block = export_question(&questions[i], basename, i);
        proof {
            assert(questions.deep_view()[i as int] == questions[i as int]@);
            assert(blocks.take(i + 1) =~= written.push(block@));
            written.lemma_flatten_push(block@);
        }
        push_text(&mut text, block.as_str());
        assert(text@ =~= category_block(stage_path@) + (written.flatten() + block@));
        i += 1;
    }
    assert(blocks.take(questions.len() as int) =~= blocks);
    push_text(&mut text, FOOTER);
    text
}

} // verus!

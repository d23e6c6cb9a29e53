use greek_vocab_test_maker::commands::ReorderCommand;
use greek_vocab_test_maker::editor::{
    add_answer, delete_answer, duplicate, edit_answer, edit_prompt, edit_target, feedback_choice,
    feedback_text, mark_for, move_down, move_up, read_selection, remove_question, reorder_answers,
    subs_answers, EditError, EditTarget, FeedbackChoice, Selection, KEEP_FEEDBACK, KEEP_MARK,
};
use greek_vocab_test_maker::{AnswerOption, Question};

fn option(mark: u8, answer: &str, feedback: &str) -> AnswerOption {
    AnswerOption { mark, answer: answer.to_string(), feedback: feedback.to_string() }
}

fn question(greek: &str, answers: &[&str]) -> Question {
    Question {
        greek: greek.to_string(),
        answers: answers.iter().map(|a| option(100, a, "Well done!")).collect(),
    }
}

fn texts(question: &Question) -> Vec<&str> {
    question.answers.iter().map(|a| a.answer.as_str()).collect()
}

fn prompts(questions: &Vec<Question>) -> Vec<&str> {
    questions.iter().map(|q| q.greek.as_str()).collect()
}

#[test]
fn selection_accepts_numbers_in_range() {
    assert_eq!(read_selection("1", 0, 5), Selection::Chosen(0));
    assert_eq!(read_selection("3", 0, 5), Selection::Chosen(2));
    assert_eq!(read_selection("6", 0, 5), Selection::Chosen(5));
    assert_eq!(read_selection("+2", 0, 5), Selection::Chosen(1));
    assert_eq!(read_selection("2", 1, 4), Selection::Chosen(1));
    assert_eq!(read_selection("5", 1, 4), Selection::Chosen(4));
}

#[test]
fn selection_rejects_numbers_out_of_range() {
    assert_eq!(read_selection("0", 0, 5), Selection::OutOfRange);
    assert_eq!(read_selection("7", 0, 5), Selection::OutOfRange);
    assert_eq!(read_selection("1", 1, 4), Selection::OutOfRange);
    assert_eq!(read_selection("6", 1, 4), Selection::OutOfRange);
    assert_eq!(read_selection("1", 0, 0), Selection::Chosen(0));
    assert_eq!(read_selection("2", 0, 0), Selection::OutOfRange);
    assert_eq!(read_selection("3", 5, 2), Selection::OutOfRange);
}

#[test]
fn selection_ignores_what_is_no_number() {
    assert_eq!(read_selection("", 0, 5), Selection::NotANumber);
    assert_eq!(read_selection("abc", 0, 5), Selection::NotANumber);
    assert_eq!(read_selection(" 2", 0, 5), Selection::NotANumber);
    assert_eq!(read_selection("-1", 0, 5), Selection::NotANumber);
    assert_eq!(read_selection("2.0", 0, 5), Selection::NotANumber);
    assert_eq!(read_selection("99999999999999999999999999", 0, 5), Selection::NotANumber);
}

#[test]
fn selection_at_the_largest_numbers() {
    let max = usize::MAX.to_string();
    assert_eq!(read_selection(&max, 0, usize::MAX), Selection::Chosen(usize::MAX - 1));
    assert_eq!(read_selection(&max, 0, usize::MAX - 1), Selection::Chosen(usize::MAX - 1));
    assert_eq!(read_selection(&max, 0, usize::MAX - 2), Selection::OutOfRange);
    assert_eq!(read_selection(&max, usize::MAX, usize::MAX), Selection::OutOfRange);
}

#[test]
fn edit_target_of_a_position() {
    assert_eq!(edit_target(0), EditTarget::Prompt);
    assert_eq!(edit_target(1), EditTarget::Answer(0));
    assert_eq!(edit_target(4), EditTarget::Answer(3));
}

#[test]
fn mark_menu() {
    assert_eq!(mark_for("1"), 100);
    assert_eq!(mark_for("2"), 50);
    assert_eq!(mark_for("3"), 0);
    assert_eq!(mark_for(""), 0);
    assert_eq!(mark_for("11"), 0);
    assert_eq!(mark_for(" 1"), 0);
    assert_eq!(KEEP_MARK, 0);
}

#[test]
fn feedback_menu() {
    assert_eq!(feedback_choice("1"), FeedbackChoice::WellDone);
    assert_eq!(feedback_choice("2"), FeedbackChoice::Tense);
    assert_eq!(feedback_choice("3"), FeedbackChoice::Custom);
    assert_eq!(feedback_choice("4"), FeedbackChoice::Keep);
    assert_eq!(feedback_choice(""), FeedbackChoice::Keep);
    assert_eq!(feedback_text(FeedbackChoice::WellDone, String::new()), "Well done!");
    assert_eq!(feedback_text(FeedbackChoice::Tense, String::new()), "Close! What tense is this?");
    assert_eq!(feedback_text(FeedbackChoice::Custom, "Nearly".to_string()), "Nearly");
    assert_eq!(feedback_text(FeedbackChoice::Keep, "Nearly".to_string()), "XXXX");
    assert_eq!(KEEP_FEEDBACK, "XXXX");
}

#[test]
fn duplicate_inserts_a_copy_before_the_question() {
    let mut questions = vec![question("α", &["a"]), question("β", &["b", "c"]), question("γ", &["d"])];
    assert_eq!(duplicate(&mut questions, 1), Ok(()));
    assert_eq!(prompts(&questions), vec!["α", "β", "β", "γ"]);
    assert_eq!(questions[1], questions[2]);
    assert_eq!(texts(&questions[1]), vec!["b", "c"]);
    assert_eq!(duplicate(&mut questions, 0), Ok(()));
    assert_eq!(prompts(&questions), vec!["α", "α", "β", "β", "γ"]);
    assert_eq!(duplicate(&mut questions, 4), Ok(()));
    assert_eq!(prompts(&questions), vec!["α", "α", "β", "β", "γ", "γ"]);
}

#[test]
fn duplicate_copies_deeply() {
    let mut questions = vec![question("α", &["a"])];
    assert_eq!(duplicate(&mut questions, 0), Ok(()));
    add_answer(&mut questions[0], "x".to_string(), 50, "f".to_string());
    assert_eq!(texts(&questions[0]), vec!["a", "x"]);
    assert_eq!(texts(&questions[1]), vec!["a"]);
}

#[test]
fn duplicate_refuses_a_position_beyond_the_store() {
    let mut questions = vec![question("α", &["a"])];
    assert_eq!(duplicate(&mut questions, 1), Err(EditError::NoSuchQuestion));
    assert_eq!(prompts(&questions), vec!["α"]);
    let mut none: Vec<Question> = Vec::new();
    assert_eq!(duplicate(&mut none, 0), Err(EditError::NoSuchQuestion));
    assert!(none.is_empty());
}

#[test]
fn remove_question_removes_by_position() {
    let mut questions = vec![question("α", &["a"]), question("β", &["b"]), question("γ", &["c"])];
    assert_eq!(remove_question(&mut questions, 1), Ok(()));
    assert_eq!(prompts(&questions), vec!["α", "γ"]);
    assert_eq!(remove_question(&mut questions, 2), Err(EditError::NoSuchQuestion));
    assert_eq!(prompts(&questions), vec!["α", "γ"]);
    assert_eq!(remove_question(&mut questions, 1), Ok(()));
    assert_eq!(remove_question(&mut questions, 0), Ok(()));
    assert!(questions.is_empty());
    assert_eq!(remove_question(&mut questions, 0), Err(EditError::NoSuchQuestion));
}

#[test]
fn edit_prompt_replaces_the_prompt() {
    let mut q = question("α", &["a", "b"]);
    edit_prompt(&mut q, "ω".to_string());
    assert_eq!(q, question("ω", &["a", "b"]));
}

#[test]
fn edit_answer_changes_all_fields() {
    let mut q = question("α", &["a", "b", "c"]);
    assert_eq!(edit_answer(&mut q, 1, "B".to_string(), 50, "Close".to_string()), Ok(()));
    assert_eq!(
        q.answers,
        vec![option(100, "a", "Well done!"), option(50, "B", "Close"), option(100, "c", "Well done!")]
    );
    assert_eq!(q.greek, "α");
}

#[test]
fn edit_answer_keeps_mark_and_feedback_on_request() {
    let mut q = question("α", &["a"]);
    assert_eq!(edit_answer(&mut q, 0, "A".to_string(), 0, "XXXX".to_string()), Ok(()));
    assert_eq!(q.answers, vec![option(100, "A", "Well done!")]);
    assert_eq!(edit_answer(&mut q, 0, "A".to_string(), 50, "XXXX".to_string()), Ok(()));
    assert_eq!(q.answers, vec![option(50, "A", "Well done!")]);
    assert_eq!(edit_answer(&mut q, 0, "A2".to_string(), 0, "XXX".to_string()), Ok(()));
    assert_eq!(q.answers, vec![option(50, "A2", "XXX")]);
}

#[test]
fn edit_answer_refuses_a_position_beyond_the_answers() {
    let mut q = question("α", &["a"]);
    assert_eq!(
        edit_answer(&mut q, 1, "B".to_string(), 50, "f".to_string()),
        Err(EditError::NoSuchAnswer)
    );
    assert_eq!(q, question("α", &["a"]));
}

#[test]
fn add_answer_appends() {
    let mut q = question("α", &["a"]);
    add_answer(&mut q, "b".to_string(), 0, "XXXX".to_string());
    assert_eq!(q.answers, vec![option(100, "a", "Well done!"), option(0, "b", "XXXX")]);
    let mut empty = Question { greek: "β".to_string(), answers: Vec::new() };
    add_answer(&mut empty, "c".to_string(), 100, "Well done!".to_string());
    assert_eq!(empty, question("β", &["c"]));
}

#[test]
fn delete_answer_removes_by_position() {
    let mut q = question("α", &["a", "b", "c"]);
    assert_eq!(delete_answer(&mut q, 1), Ok(()));
    assert_eq!(texts(&q), vec!["a", "c"]);
    assert_eq!(delete_answer(&mut q, 1), Ok(()));
    assert_eq!(texts(&q), vec!["a"]);
}

#[test]
fn delete_answer_keeps_the_last_answer() {
    let mut q = question("α", &["a"]);
    assert_eq!(delete_answer(&mut q, 0), Err(EditError::LastAnswer));
    assert_eq!(texts(&q), vec!["a"]);
}

#[test]
fn delete_answer_refuses_a_position_beyond_the_answers() {
    let mut q = question("α", &["a", "b"]);
    assert_eq!(delete_answer(&mut q, 2), Err(EditError::NoSuchAnswer));
    assert_eq!(texts(&q), vec!["a", "b"]);
    let mut one = question("α", &["a"]);
    assert_eq!(delete_answer(&mut one, 1), Err(EditError::NoSuchAnswer));
    let mut none = Question { greek: "β".to_string(), answers: Vec::new() };
    assert_eq!(delete_answer(&mut none, 0), Err(EditError::NoSuchAnswer));
}

#[test]
fn move_up_swaps_with_the_answer_before() {
    let mut q = question("α", &["a", "b", "c"]);
    assert_eq!(move_up(&mut q, 2), 1);
    assert_eq!(texts(&q), vec!["a", "c", "b"]);
    assert_eq!(move_up(&mut q, 1), 0);
    assert_eq!(texts(&q), vec!["c", "a", "b"]);
    assert_eq!(move_up(&mut q, 0), 0);
    assert_eq!(texts(&q), vec!["c", "a", "b"]);
    assert_eq!(move_up(&mut q, 3), 3);
    assert_eq!(texts(&q), vec!["c", "a", "b"]);
}

#[test]
fn move_down_swaps_with_the_answer_after() {
    let mut q = question("α", &["a", "b", "c"]);
    assert_eq!(move_down(&mut q, 0), 1);
    assert_eq!(texts(&q), vec!["b", "a", "c"]);
    assert_eq!(move_down(&mut q, 1), 2);
    assert_eq!(texts(&q), vec!["b", "c", "a"]);
    assert_eq!(move_down(&mut q, 2), 2);
    assert_eq!(texts(&q), vec!["b", "c", "a"]);
    assert_eq!(move_down(&mut q, usize::MAX), usize::MAX);
    assert_eq!(texts(&q), vec!["b", "c", "a"]);
}

#[test]
fn up_then_down_restores_the_order() {
    for index in 1..4 {
        let mut q = question("α", &["a", "b", "c", "d", "e"]);
        let up = move_up(&mut q, index);
        assert_eq!(up, index - 1);
        assert_ne!(q, question("α", &["a", "b", "c", "d", "e"]));
        assert_eq!(move_down(&mut q, up), index);
        assert_eq!(q, question("α", &["a", "b", "c", "d", "e"]));
    }
}

#[test]
fn down_then_up_restores_the_order() {
    for index in 1..4 {
        let mut q = question("α", &["a", "b", "c", "d", "e"]);
        let down = move_down(&mut q, index);
        assert_eq!(down, index + 1);
        assert_eq!(move_up(&mut q, down), index);
        assert_eq!(q, question("α", &["a", "b", "c", "d", "e"]));
    }
}

#[test]
fn reorder_follows_the_commands() {
    let mut q = question("α", &["a", "b", "c"]);
    assert_eq!(reorder_answers(&mut q, 1, ReorderCommand::Up), Some(0));
    assert_eq!(texts(&q), vec!["b", "a", "c"]);
    assert_eq!(reorder_answers(&mut q, 0, ReorderCommand::Up), Some(0));
    assert_eq!(reorder_answers(&mut q, 0, ReorderCommand::Down), Some(1));
    assert_eq!(reorder_answers(&mut q, 1, ReorderCommand::Down), Some(2));
    assert_eq!(texts(&q), vec!["a", "c", "b"]);
    assert_eq!(reorder_answers(&mut q, 2, ReorderCommand::Accept), None);
    assert_eq!(texts(&q), vec!["a", "c", "b"]);
}

#[test]
fn substitute_rewrites_every_answer() {
    let mut q = Question {
        greek: "run".to_string(),
        answers: vec![
            option(100, "I run", "run well"),
            option(50, "r*n", "Close"),
            option(100, "I run and run", "Well done!"),
        ],
    };
    subs_answers(&mut q, "run", "walk");
    assert_eq!(
        q,
        Question {
            greek: "run".to_string(),
            answers: vec![
                option(100, "I walk", "run well"),
                option(50, "r*n", "Close"),
                option(100, "I walk and walk", "Well done!"),
            ],
        }
    );
}

#[test]
fn substitute_edge_cases() {
    let mut q = question("α", &["ab", ""]);
    subs_answers(&mut q, "", "-");
    assert_eq!(texts(&q), vec!["-a-b-", "-"]);
    subs_answers(&mut q, "-", "");
    assert_eq!(texts(&q), vec!["ab", ""]);
    let mut none = Question { greek: "β".to_string(), answers: Vec::new() };
    subs_answers(&mut none, "a", "b");
    assert!(none.answers.is_empty());
}

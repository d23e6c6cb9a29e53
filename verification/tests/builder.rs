use greek_vocab_test_maker::builder::{
    answer_for, build_non_verb, build_verb, tense_options, translation_options, trimmed_segments,
    verb_phrases, Tense, CLOSE, WELL_DONE,
};
use greek_vocab_test_maker::{AnswerOption, Question, VerbForms};

fn option(mark: u8, answer: &str, feedback: &str) -> AnswerOption {
    AnswerOption { mark, answer: answer.to_string(), feedback: feedback.to_string() }
}

fn forms(present: &str, past_simple: &str, past_part: &str, asterisked: &str) -> VerbForms {
    VerbForms {
        present: present.to_string(),
        past_simple: past_simple.to_string(),
        past_part: past_part.to_string(),
        asterisked: asterisked.to_string(),
    }
}

#[test]
fn feedback_texts() {
    assert_eq!(WELL_DONE, "Well done!");
    assert_eq!(CLOSE, "Close! What part of the verb is this?");
}

#[test]
fn trimmed_segments_splits_and_trims() {
    assert_eq!(trimmed_segments("τρέχω, θα τρέξω"), vec!["τρέχω", "θα τρέξω"]);
    assert_eq!(trimmed_segments(" a ,, b "), vec!["a", "", "b"]);
    assert_eq!(trimmed_segments(""), vec![""]);
}

#[test]
fn translation_options_skip_empty_segments() {
    let answers = translation_options("house , home , dwelling, , ");
    assert_eq!(
        answers,
        vec![
            option(100, "house", "Well done!"),
            option(100, "home", "Well done!"),
            option(100, "dwelling", "Well done!"),
        ]
    );
    assert_eq!(translation_options(""), vec![]);
    assert_eq!(translation_options(" , ,"), vec![]);
}

#[test]
fn non_verb_record_gives_one_question() {
    let mut questions: Vec<Question> = Vec::new();
    build_non_verb(&mut questions, "σπίτι".to_string(), "house".to_string());
    assert_eq!(
        questions,
        vec![Question {
            greek: "σπίτι".to_string(),
            answers: vec![option(100, "house", "Well done!")],
        }]
    );
}

#[test]
fn non_verb_answers_are_the_non_empty_cleaned_segments() {
    let mut questions = vec![Question { greek: "x".to_string(), answers: vec![option(0, "y", "z")] }];
    build_non_verb(
        &mut questions,
        " σκύλος ".to_string(),
        "dog (animal); hound / cur GEN, ;".to_string(),
    );
    assert_eq!(questions.len(), 2);
    assert_eq!(questions[0].greek, "x");
    assert_eq!(questions[1].greek, " σκύλος ");
    assert_eq!(
        questions[1].answers,
        vec![
            option(100, "dog", "Well done!"),
            option(100, "hound", "Well done!"),
            option(100, "cur", "Well done!"),
        ]
    );
}

#[test]
fn non_verb_without_translation_has_no_answers() {
    let mut questions: Vec<Question> = Vec::new();
    build_non_verb(&mut questions, "και".to_string(), "(particle)".to_string());
    assert_eq!(questions.len(), 1);
    assert_eq!(questions[0].greek, "και");
    assert!(questions[0].answers.is_empty());
}

#[test]
fn verb_phrases_strip_the_leading_subject() {
    assert_eq!(verb_phrases("I run"), vec!["run"]);
    assert_eq!(verb_phrases("run"), vec!["run"]);
    assert_eq!(verb_phrases("I run; flee (from danger)"), vec!["run", "flee"]);
    assert_eq!(verb_phrases("I run, I sprint"), vec!["run", "I sprint"]);
    assert_eq!(verb_phrases(""), vec![""]);
}

#[test]
fn answer_for_each_tense() {
    let run = forms("run", "ran", "run", "r*n");
    assert_eq!(answer_for(Tense::Present, &run), "I run");
    assert_eq!(answer_for(Tense::Future, &run), "I'll run");
    assert_eq!(answer_for(Tense::Aorist, &run), "I ran");
    assert_eq!(answer_for(Tense::AoristPassive, &run), "I was run");
}

#[test]
fn tense_options_alternate_full_and_partial_credit() {
    let verbs = vec![forms("go", "went", "gone", "*"), forms("walk", "walked", "walked", "walk*")];
    assert_eq!(
        tense_options(Tense::Aorist, &verbs),
        vec![
            option(100, "I went", "Well done!"),
            option(50, "*", "Close! What part of the verb is this?"),
            option(100, "I walked", "Well done!"),
            option(50, "walk*", "Close! What part of the verb is this?"),
        ]
    );
    assert_eq!(tense_options(Tense::Present, &Vec::new()), vec![]);
}

#[test]
fn verb_record_with_two_slots_gives_two_questions() {
    let phrases = verb_phrases("I run");
    assert_eq!(phrases, vec!["run"]);
    let verbs = vec![forms("run", "ran", "run", "r*n")];
    let questions = build_verb("τρέχω, θα τρέξω".to_string(), verbs);
    assert_eq!(
        questions,
        vec![
            Question {
                greek: "τρέχω".to_string(),
                answers: vec![
                    option(100, "I run", "Well done!"),
                    option(50, "r*n", "Close! What part of the verb is this?"),
                ],
            },
            Question {
                greek: "θα τρέξω".to_string(),
                answers: vec![
                    option(100, "I'll run", "Well done!"),
                    option(50, "r*n", "Close! What part of the verb is this?"),
                ],
            },
        ]
    );
}

#[test]
fn verb_record_gives_one_question_per_slot() {
    let verbs = || vec![forms("see", "saw", "seen", "s*"), forms("look", "looked", "looked", "look*")];
    for (greek, slots) in [("α", 1), ("α,β", 2), ("α, β , γ", 3), ("α,β,γ,δ", 4)] {
        let questions = build_verb(greek.to_string(), verbs());
        assert_eq!(questions.len(), slots);
        for question in &questions {
            assert_eq!(question.answers.len(), 4);
            assert_eq!(question.answers[0].mark, 100);
            assert_eq!(question.answers[1], option(50, "s*", CLOSE));
            assert_eq!(question.answers[2].mark, 100);
            assert_eq!(question.answers[3], option(50, "look*", CLOSE));
        }
    }
    let questions = build_verb("α, β , γ,δ".to_string(), verbs());
    let prompts: Vec<&str> = questions.iter().map(|q| q.greek.as_str()).collect();
    assert_eq!(prompts, vec!["α", "β", "γ", "δ"]);
    let firsts: Vec<&str> = questions.iter().map(|q| q.answers[0].answer.as_str()).collect();
    assert_eq!(firsts, vec!["I see", "I'll see", "I saw", "I was seen"]);
    let thirds: Vec<&str> = questions.iter().map(|q| q.answers[2].answer.as_str()).collect();
    assert_eq!(thirds, vec!["I look", "I'll look", "I looked", "I was looked"]);
}

#[test]
fn verb_record_ignores_slots_beyond_the_fourth() {
    let questions = build_verb("α,β,γ,δ,ε,ζ".to_string(), vec![forms("go", "went", "gone", "*")]);
    assert_eq!(questions.len(), 4);
    assert_eq!(questions[3].greek, "δ");
}

#[test]
fn verb_record_without_verbs_gives_questions_without_answers() {
    let questions = build_verb("α,β".to_string(), Vec::new());
    assert_eq!(questions.len(), 2);
    assert!(questions[0].answers.is_empty());
    assert!(questions[1].answers.is_empty());
}

#[test]
fn verb_record_with_empty_greek_field_gives_one_question() {
    let questions = build_verb("".to_string(), vec![forms("go", "went", "gone", "*")]);
    assert_eq!(questions.len(), 1);
    assert_eq!(questions[0].greek, "");
    assert_eq!(questions[0].answers[0], option(100, "I go", WELL_DONE));
}

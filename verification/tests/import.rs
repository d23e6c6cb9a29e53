use greek_vocab_test_maker::builder::{build_verb, verb_phrases};
use greek_vocab_test_maker::export::moodle_shortanswer;
use greek_vocab_test_maker::import::{import, import_record, is_verb, merge_verb_questions, VERB_TAG};
use greek_vocab_test_maker::{AnswerOption, Question, Record, VerbForms};

fn record(greek: &str, part_of_speech: &str, english: &str) -> Record {
    Record {
        greek: greek.to_string(),
        part_of_speech: part_of_speech.to_string(),
        english: english.to_string(),
    }
}

fn option(mark: u8, answer: &str, feedback: &str) -> AnswerOption {
    AnswerOption { mark, answer: answer.to_string(), feedback: feedback.to_string() }
}

fn looked_up(phrase: &str) -> VerbForms {
    assert_eq!(phrase, "run");
    VerbForms {
        present: "run".to_string(),
        past_simple: "ran".to_string(),
        past_part: "run".to_string(),
        asterisked: "r*n".to_string(),
    }
}

#[test]
fn verb_tag() {
    assert_eq!(VERB_TAG, "verb");
    assert!(is_verb("verb"));
    assert!(is_verb("adverb"));
    assert!(is_verb("verb (irregular)"));
    assert!(!is_verb("noun"));
    assert!(!is_verb("Verb"));
    assert!(!is_verb(""));
}

#[test]
fn importing_one_non_verb_record() {
    let mut questions: Vec<Question> = Vec::new();
    let verbs = import(&mut questions, vec![record("σπίτι", "noun", "house")]);
    assert!(verbs.is_empty());
    assert_eq!(
        questions,
        vec![Question {
            greek: "σπίτι".to_string(),
            answers: vec![option(100, "house", "Well done!")],
        }]
    );
    assert_eq!(moodle_shortanswer(&questions[0].answers), "{1:SHORTANSWER:~%100%house#Well done!}");
}

#[test]
fn importing_one_verb_record() {
    let mut questions: Vec<Question> = Vec::new();
    let verbs = import(&mut questions, vec![record("τρέχω, θα τρέξω", "verb", "I run")]);
    assert!(questions.is_empty());
    assert_eq!(verbs, vec![record("τρέχω, θα τρέξω", "verb", "I run")]);
    let mut signals = 0;
    for verb in verbs {
        let forms: Vec<VerbForms> =
            verb_phrases(&verb.english).iter().map(|phrase| looked_up(phrase)).collect();
        let group = build_verb(verb.greek, forms);
        signals += merge_verb_questions(&mut questions, group);
    }
    assert_eq!(signals, 2);
    let close = "Close! What part of the verb is this?";
    assert_eq!(
        questions,
        vec![
            Question {
                greek: "τρέχω".to_string(),
                answers: vec![option(100, "I run", "Well done!"), option(50, "r*n", close)],
            },
            Question {
                greek: "θα τρέξω".to_string(),
                answers: vec![option(100, "I'll run", "Well done!"), option(50, "r*n", close)],
            },
        ]
    );
}

#[test]
fn import_record_takes_non_verbs_and_hands_verbs_back() {
    let mut questions: Vec<Question> = Vec::new();
    assert_eq!(import_record(&mut questions, record("σκύλος", "noun", "dog; hound")), None);
    assert_eq!(questions.len(), 1);
    assert_eq!(questions[0].greek, "σκύλος");
    assert_eq!(
        questions[0].answers,
        vec![option(100, "dog", "Well done!"), option(100, "hound", "Well done!")]
    );
    assert_eq!(
        import_record(&mut questions, record("τρέχω", "verb", "I run")),
        Some(record("τρέχω", "verb", "I run"))
    );
    assert_eq!(questions.len(), 1);
    assert_eq!(
        import_record(&mut questions, record("γρήγορα", "adverb", "quickly")),
        Some(record("γρήγορα", "adverb", "quickly"))
    );
    assert_eq!(questions.len(), 1);
}

#[test]
fn import_keeps_non_verbs_in_order_before_verb_groups() {
    let mut questions = vec![Question { greek: "old".to_string(), answers: vec![option(0, "o", "f")] }];
    let verbs = import(
        &mut questions,
        vec![
            record("v1", "verb", "I go"),
            record("n1", "noun", "one"),
            record("v2", "verb", "I see"),
            record("n2", "adjective", "two"),
            record("n3", "", "three"),
        ],
    );
    let prompts: Vec<&str> = questions.iter().map(|q| q.greek.as_str()).collect();
    assert_eq!(prompts, vec!["old", "n1", "n2", "n3"]);
    let handed_back: Vec<&str> = verbs.iter().map(|r| r.greek.as_str()).collect();
    assert_eq!(handed_back, vec!["v1", "v2"]);
    let second = vec![
        Question { greek: "v2a".to_string(), answers: vec![option(100, "I see", "Well done!")] },
        Question { greek: "v2b".to_string(), answers: vec![option(100, "I'll see", "Well done!")] },
    ];
    let first = vec![Question { greek: "v1a".to_string(), answers: vec![option(100, "I go", "Well done!")] }];
    assert_eq!(merge_verb_questions(&mut questions, second), 2);
    assert_eq!(merge_verb_questions(&mut questions, first), 1);
    assert_eq!(merge_verb_questions(&mut questions, Vec::new()), 0);
    let prompts: Vec<&str> = questions.iter().map(|q| q.greek.as_str()).collect();
    assert_eq!(prompts, vec!["old", "n1", "n2", "n3", "v2a", "v2b", "v1a"]);
}

#[test]
fn import_of_nothing_changes_nothing() {
    let mut questions: Vec<Question> = Vec::new();
    assert!(import(&mut questions, Vec::new()).is_empty());
    assert!(questions.is_empty());
}

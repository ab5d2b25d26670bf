use ante_gateway::protocol::{QuestionAnswer, QuestionOption, QuestionReply, QuestionSpec};
use ante_gateway::question::{option_picks, question_prompt, question_reply};

fn questions(count: usize) -> Vec<QuestionSpec> {
    (0..count)
        .map(|n| QuestionSpec {
            header: format!("Q{n}"),
            question: format!("Question {n}?"),
            multi_select: false,
            options: ["A", "B"]
                .iter()
                .map(|label| QuestionOption {
                    label: label.to_string(),
                    description: String::new(),
                    preview: None,
                })
                .collect(),
        })
        .collect()
}

#[test]
fn option_numbers_answer_one_question_each() {
    let QuestionReply::Answered(answers) = question_reply("2", &questions(1)) else {
        panic!("a valid pick answers");
    };
    assert_eq!(answers[0].selected, vec!["B".to_string()]);
    let QuestionReply::Answered(answers) = question_reply("1, 2", &questions(2)) else {
        panic!("one pick per question answers");
    };
    assert_eq!(answers[0].selected, vec!["A".to_string()]);
    assert_eq!(answers[1].selected, vec!["B".to_string()]);
}

#[test]
fn anything_else_is_the_users_words() {
    let one = questions(1);
    // Out of range, 0-based, too many picks, and prose all ride back as
    // the user's words rather than picking anything.
    for reply in ["3", "0", "1 2", "actually, do neither"] {
        assert_eq!(
            question_reply(reply, &one),
            QuestionReply::Discuss { message: Some(reply.to_string()) },
            "{reply:?}"
        );
    }
}

#[test]
fn prompt_numbers_options_and_invites_words() {
    let text = question_prompt(&questions(1));
    assert!(text.contains("Question 0?"), "{text}");
    assert!(text.contains("\n  1. A"), "{text}");
    assert!(text.contains("in your own words"), "{text}");
}

#[test]
fn prompts_show_one_question() {
    let mut one = questions(1);
    one[0].options[1].description = "the second".to_string();
    assert_eq!(
        question_prompt(&one),
        "❓ The agent has a question:\n\nQuestion 0?\n  1. A\n  2. B — the second\n\n\
         Reply with an option number, or in your own words."
    );
    assert_eq!(
        question_prompt(&Vec::new()),
        "❓ The agent has a question:\n\nReply with an option number, or in your own words."
    );
}

#[test]
fn prompts_number_several_questions() {
    assert_eq!(
        question_prompt(&questions(2)),
        "❓ The agent has a question:\n\n1. Question 0?\n  1. A\n  2. B\n\n2. Question 1?\n  1. A\n  2. B\n\n\
         Reply with one option number per question (e.g. `1 2`), or in your own words."
    );
}

#[test]
fn prompts_count_past_nine_options() {
    let mut one = questions(1);
    let option = one[0].options[0].clone();
    one[0].options = vec![option; 12];
    let text = question_prompt(&one);
    assert!(text.contains("\n  10. A\n  11. A\n  12. A\n\n"), "{text}");
    one[0].options[11].label = "L".to_string();
    assert_eq!(
        option_picks("12", &one),
        Some(vec![QuestionAnswer { selected: vec!["L".to_string()], note: None }])
    );
}

#[test]
fn picks_stand_between_white_space_and_commas() {
    let two = questions(2);
    for reply in ["1 2", "1,2", " ,1,\t,\n2, ", "+1 02", "1\u{3000}2"] {
        let picks = option_picks(reply, &two).unwrap();
        assert_eq!(picks[0].selected, ["A"], "{reply:?}");
        assert_eq!(picks[1].selected, ["B"], "{reply:?}");
        assert_eq!(picks[0].note, None);
    }
    for reply in ["", "1", "1 2 1", "1;2", "-1 2", "1 2.", "1 ++2", "+ 1 2", "1 ٢",
        "1 99999999999999999999999999"] {
        assert_eq!(option_picks(reply, &two), None, "{reply:?}");
    }
}

#[test]
fn no_questions_are_answered_by_no_picks() {
    assert_eq!(option_picks(" , ", &Vec::new()), Some(Vec::new()));
    assert_eq!(option_picks("1", &Vec::new()), None);
}

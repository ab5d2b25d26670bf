//! Questions that the agent asks the user: how a chat channel shows them, and
//! what a chat reply answers.

use crate::protocol::{
    answer_views, question_views, QuestionAnswer, QuestionAnswerView, QuestionOptionView,
    QuestionReply, QuestionReplyView, QuestionSpec, QuestionSpecView,
};
use crate::text::{
    all_clean, decimal, decimal_of, decimal_reads_back, joined, number_of, occurs, occurs_within,
    only_separators, parse_number, parts_hold_every_character, separates, spaced, split_tokens,
    texts, tokens, tokens_of_joined, tokens_of_spaced, tokens_skip_separators, unbroken,
    white_space,
};
use vstd::prelude::*;
use vstd::string::*;

verus! {

/// The line that shows an option: its number, counted from one, its label, and
/// its description if it has one.
pub open spec fn option_line(index: nat, option: QuestionOptionView) -> Seq<char> {
    let line = "\n  "@ + decimal(index + 1) + ". "@ + option.label;
    if option.description.len() == 0 {
        line
    } else {
        line + " — "@ + option.description
    }
}

/// The lines that show the first `n` options.
pub open spec fn option_lines(options: Seq<QuestionOptionView>, n: nat) -> Seq<char>
    decreases n,
{
    if n == 0 {
        Seq::empty()
    } else {
        option_lines(options, (n - 1) as nat) + option_line((n - 1) as nat, options[n - 1])
    }
}

/// What shows a question: a number, counted from one, if there are several
/// questions, its text, and its options.
pub open spec fn question_block(index: nat, question: QuestionSpecView, several: bool) -> Seq<
    char,
> {
    let number = if several {
        decimal(index + 1) + ". "@
    } else {
        Seq::empty()
    };
    "\n\n"@ + number + question.question + option_lines(question.options, question.options.len())
}

/// What shows the first `n` questions.
pub open spec fn question_blocks(questions: Seq<QuestionSpecView>, n: nat) -> Seq<char>
    decreases n,
{
    if n == 0 {
        Seq::empty()
    } else {
        question_blocks(questions, (n - 1) as nat) + question_block(
            (n - 1) as nat,
            questions[n - 1],
            questions.len() > 1,
        )
    }
}

/// How a chat channel shows questions.
pub open spec fn prompt(questions: Seq<QuestionSpecView>) -> Seq<char> {
    "❓ The agent has a question:"@ + question_blocks(questions, questions.len()) + (
    if questions.len() > 1 {
        "\n\nReply with one option number per question (e.g. `1 2`), or in your own words."@
    } else {
        "\n\nReply with an option number, or in your own words."@
    })
}

/// Appends the options of a question to `out`.
fn push_options(out: &mut String, question: &QuestionSpec)
    ensures
        final(out)@ == old(out)@ + option_lines(question@.options, question@.options.len()),
{
    let ghost before = out@;
    let mut i: usize = 0;
    assert(before + option_lines(question@.options, 0) =~= before);
    while i < question.options.len()
        invariant
            i <= question.options@.len(),
            out@ == before + option_lines(question@.options, i as nat),
        decreases question.options@.len() - i,
    {
        let option = &question.options[i];
        assert(question@.options[i as int] == option@);
        let ghost start = out@;
        let number = decimal_of(i as u64 + 1);
        out.append("\n  ");
        out.append(number.as_str());
        out.append(". ");
        out.append(option.label.as_str());
        if !option.description.as_str().is_empty() {
            out.append(" — ");
            out.append(option.description.as_str());
        }
        assert(out@ =~= start + option_line(i as nat, option@));
        i = i + 1;
        assert(out@ =~= before + option_lines(question@.options, i as nat));
    }
}

/// Render a pending `AskUser` prompt for a chat channel.
pub fn question_prompt(questions: &Vec<QuestionSpec>) -> (r: String)
    ensures
        r@ == prompt(question_views(questions@)),
{
    let ghost views = question_views(questions@);
    let several = questions.len() > 1;
    let mut text = "❓ The agent has a question:".to_owned();
    let ghost head = text@;
    let mut i: usize = 0;
    assert(head + question_blocks(views, 0) =~= head);
    while i < questions.len()
        invariant
            i <= questions@.len(),
            views == question_views(questions@),
            several == (questions@.len() > 1),
            text@ == head + question_blocks(views, i as nat),
        decreases questions@.len() - i,
    {
        let question = &questions[i];
        let ghost start = text@;
        text.append("\n\n");
        if several {
            let number = decimal_of(i as u64 + 1);
            text.append(number.as_str());
            text.append(". ");
        }
        text.append(question.question.as_str());
        push_options(&mut text, question);
        assert(views[i as int] == question@);
        assert(text@ =~= start + question_block(i as nat, question@, several));
        i = i + 1;
        assert(text@ =~= head + question_blocks(views, i as nat));
    }
    text.append(
        if several {
            "\n\nReply with one option number per question (e.g. `1 2`), or in your own words."
        } else {
            "\n\nReply with an option number, or in your own words."
        },
    );
    text
}

/// Whether `token` is the number of one of the question's options, counted
/// from one.
pub open spec fn picks(token: Seq<char>, question: QuestionSpecView) -> bool {
    number_of(token) is Some && 1 <= number_of(token)->0 <= question.options.len()
}

/// The answer that selects the option with the number `token`.
pub open spec fn picked(token: Seq<char>, question: QuestionSpecView) -> QuestionAnswerView {
    QuestionAnswerView {
        selected: seq![question.options[number_of(token)->0 - 1].label],
        note: None,
    }
}

/// The answers that a reply gives: one for each question, where the reply is as
/// many option numbers as there are questions, with white space or commas
/// between them.
pub open spec fn answers(reply: Seq<char>, questions: Seq<QuestionSpecView>) -> Option<
    Seq<QuestionAnswerView>,
> {
    let numbers = tokens(reply, true);
    if numbers.len() == questions.len() && forall|i: int|
        0 <= i < numbers.len() ==> picks(#[trigger] numbers[i], questions[i]) {
        Some(Seq::new(numbers.len(), |i: int| picked(numbers[i], questions[i])))
    } else {
        None
    }
}

/// Option numbers, one per question, or `None` when the reply is not that.
pub fn option_picks(reply: &str, questions: &Vec<QuestionSpec>) -> (r: Option<Vec<QuestionAnswer>>)
    ensures
        match r {
            Some(given) => answers(reply@, question_views(questions@)) == Some(
                answer_views(given@),
            ),
            None => answers(reply@, question_views(questions@)) is None,
        },
{
    let ghost views = question_views(questions@);
    let numbers = split_tokens(reply, true);
    if numbers.len() != questions.len() {
        return None;
    }
    let mut given: Vec<QuestionAnswer> = Vec::new();
    let mut i: usize = 0;
    while i < numbers.len()
        invariant
            i <= numbers@.len() == questions@.len() == views.len(),
            views == question_views(questions@),
            texts(numbers@) == tokens(reply@, true),
            given@.len() == i,
            forall|k: int| 0 <= k < i ==> picks(#[trigger] tokens(reply@, true)[k], views[k]),
            forall|k: int|
                0 <= k < i ==> (#[trigger] given@[k])@ == picked(
                    tokens(reply@, true)[k],
                    views[k],
                ),
        decreases numbers@.len() - i,
    {
        let question = &questions[i];
        let ghost token = tokens(reply@, true)[i as int];
        assert(texts(numbers@)[i as int] == numbers@[i as int]@);
        assert(views[i as int] == question@);
        let count: usize = question.options.len();
        let pick: usize = match parse_number(numbers[i].as_str()) {
            Some(pick) => pick,
            None => {
                assert(!picks(token, views[i as int]));
                return None;
            },
        };
        if pick < 1 || pick > count {
            assert(!picks(token, views[i as int]));
            return None;
        }
        let label = question.options[pick - 1].label.clone();
        let answer = QuestionAnswer { selected: vec![label], note: None };
        assert(answer@.selected =~= picked(token, views[i as int]).selected);
        given.push(answer);
        i = i + 1;
    }
    assert(answer_views(given@) =~= Seq::new(
        tokens(reply@, true).len(),
        |k: int| picked(tokens(reply@, true)[k], views[k]),
    ));
    Some(given)
}

/// What a chat reply says to pending questions: its answers, or else the user's
/// own words.
pub open spec fn reply_to(reply: Seq<char>, questions: Seq<QuestionSpecView>) -> QuestionReplyView {
    match answers(reply, questions) {
        Some(given) => QuestionReplyView::Answered(given),
        None => QuestionReplyView::Discuss { message: Some(reply) },
    }
}

/// Map a chat reply onto the pending question: option numbers, one per
/// question, answer it; anything else is the user talking about it and rides
/// back as their words, so the model reads them instead of racing a default.
pub fn question_reply(reply: &str, questions: &Vec<QuestionSpec>) -> (r: QuestionReply)
    ensures
        r@ == reply_to(reply@, question_views(questions@)),
{
    match option_picks(reply, questions) {
        Some(given) => QuestionReply::Answered(given),
        None => QuestionReply::Discuss { message: Some(reply.to_owned()) },
    }
}

/// Whether an answer selects exactly one option of the question, by its label.
pub open spec fn offered(answer: QuestionAnswerView, question: QuestionSpecView) -> bool {
    exists|k: int|
        0 <= k < question.options.len() && answer.selected == seq![
            #[trigger] question.options[k].label,
        ]
}

/// A reply answers only with what was offered: one answer per question, each of
/// them one option of that question.
pub proof fn answers_are_offered(reply: Seq<char>, questions: Seq<QuestionSpecView>)
    requires
        answers(reply, questions) is Some,
    ensures
        answers(reply, questions)->0.len() == questions.len(),
        forall|i: int|
            0 <= i < questions.len() ==> offered(
                #[trigger] answers(reply, questions)->0[i],
                questions[i],
            ),
{
    let given = answers(reply, questions)->0;
    let numbers = tokens(reply, true);
    assert forall|i: int| 0 <= i < questions.len() implies offered(
        #[trigger] given[i],
        questions[i],
    ) by {
        assert(picks(numbers[i], questions[i]));
        let k = number_of(numbers[i])->0 - 1;
        assert(given[i].selected == seq![questions[i].options[k].label]);
    }
}

/// The numbers under which options are shown are the numbers that pick them:
/// the numbers of one option per question, written one after the other with the
/// same white space or commas between any two of them, answer with the labels of
/// those options.
pub proof fn shown_numbers_pick(
    questions: Seq<QuestionSpecView>,
    chosen: Seq<nat>,
    separator: Seq<char>,
)
    requires
        chosen.len() == questions.len(),
        forall|i: int|
            0 <= i < chosen.len() ==> (#[trigger] chosen[i]) < questions[i].options.len(),
        separator.len() > 0,
        forall|i: int| 0 <= i < separator.len() ==> separates(#[trigger] separator[i], true),
    ensures
        answers(
            joined(chosen.map_values(|k: nat| decimal(k + 1)), separator),
            questions,
        ) == Some(
            Seq::new(
                chosen.len(),
                |i: int|
                    QuestionAnswerView {
                        selected: seq![questions[i].options[chosen[i] as int].label],
                        note: None,
                    },
            ),
        ),
{
    let numbers = chosen.map_values(|k: nat| decimal(k + 1));
    assert forall|i: int| 0 <= i < numbers.len() implies (#[trigger] numbers[i]).len() > 0
        && unbroken(numbers[i], true) && picks(numbers[i], questions[i]) && number_of(
        numbers[i],
    ) == Some(chosen[i] + 1) by {
        decimal_reads_back(chosen[i] + 1);
        assert(numbers[i] == decimal(chosen[i] + 1));
    }
    assert(all_clean(numbers, true));
    tokens_of_joined(numbers, separator, true);
    let given = answers(joined(numbers, separator), questions);
    assert(given->0 =~= Seq::new(
        chosen.len(),
        |i: int|
            QuestionAnswerView {
                selected: seq![questions[i].options[chosen[i] as int].label],
                note: None,
            },
    ));
}

/// However they are spaced, the numbers of one option per question answer with
/// the labels of those options: with any white space or commas in front of them,
/// behind them and, not always the same, between neighbours.
pub proof fn shown_numbers_pick_however_spaced(
    questions: Seq<QuestionSpecView>,
    chosen: Seq<nat>,
    front: Seq<char>,
    gaps: Seq<Seq<char>>,
)
    requires
        chosen.len() == questions.len(),
        forall|i: int|
            0 <= i < chosen.len() ==> (#[trigger] chosen[i]) < questions[i].options.len(),
        only_separators(front, true),
        gaps.len() == chosen.len(),
        forall|i: int| 0 <= i < gaps.len() ==> only_separators(#[trigger] gaps[i], true),
        forall|i: int| 0 <= i < gaps.len() - 1 ==> (#[trigger] gaps[i]).len() > 0,
    ensures
        answers(
            front + spaced(chosen.map_values(|k: nat| decimal(k + 1)), gaps),
            questions,
        ) == Some(
            Seq::new(
                chosen.len(),
                |i: int|
                    QuestionAnswerView {
                        selected: seq![questions[i].options[chosen[i] as int].label],
                        note: None,
                    },
            ),
        ),
{
    let numbers = chosen.map_values(|k: nat| decimal(k + 1));
    numbers_pick(questions, chosen, numbers, front, gaps);
    let given = answers(front + spaced(numbers, gaps), questions);
    assert(given->0 =~= Seq::new(
        chosen.len(),
        |i: int|
            QuestionAnswerView {
                selected: seq![questions[i].options[chosen[i] as int].label],
                note: None,
            },
    ));
}

proof fn numbers_pick(
    questions: Seq<QuestionSpecView>,
    chosen: Seq<nat>,
    numbers: Seq<Seq<char>>,
    front: Seq<char>,
    gaps: Seq<Seq<char>>,
)
    requires
        chosen.len() == questions.len(),
        forall|i: int|
            0 <= i < chosen.len() ==> (#[trigger] chosen[i]) < questions[i].options.len(),
        numbers.len() == chosen.len(),
        forall|i: int| 0 <= i < numbers.len() ==> #[trigger] numbers[i] == decimal(chosen[i] + 1),
        only_separators(front, true),
        gaps.len() == chosen.len(),
        forall|i: int| 0 <= i < gaps.len() ==> only_separators(#[trigger] gaps[i], true),
        forall|i: int| 0 <= i < gaps.len() - 1 ==> (#[trigger] gaps[i]).len() > 0,
    ensures
        answers(front + spaced(numbers, gaps), questions) is Some,
        answers(front + spaced(numbers, gaps), questions)->0.len() == chosen.len(),
        forall|i: int|
            0 <= i < chosen.len() ==> #[trigger] answers(
                front + spaced(numbers, gaps),
                questions,
            )->0[i] == (QuestionAnswerView {
                selected: seq![questions[i].options[chosen[i] as int].label],
                note: None,
            }),
{
    assert forall|i: int| 0 <= i < numbers.len() implies (#[trigger] numbers[i]).len() > 0
        && unbroken(numbers[i], true) && picks(numbers[i], questions[i]) && number_of(
        numbers[i],
    ) == Some(chosen[i] + 1) by {
        decimal_reads_back(chosen[i] + 1);
    }
    assert(all_clean(numbers, true));
    tokens_of_spaced(numbers, gaps, true);
    tokens_skip_separators(front, spaced(numbers, gaps), true);
}

/// A reply that is not one option number per question loses nothing: it rides
/// back whole, as the user's words.
pub proof fn other_replies_are_the_users_words(
    reply: Seq<char>,
    questions: Seq<QuestionSpecView>,
)
    requires
        tokens(reply, true).len() != questions.len() || exists|i: int|
            0 <= i < questions.len() && !picks(#[trigger] tokens(reply, true)[i], questions[i]),
    ensures
        reply_to(reply, questions) == (QuestionReplyView::Discuss { message: Some(reply) }),
{
}

/// Every text occurs in itself.
proof fn occurs_in_itself(text: Seq<char>)
    ensures
        occurs(text, text),
{
    assert(text.subrange(0, 0 + text.len() as int) =~= text);
}

proof fn lines_show_option(options: Seq<QuestionOptionView>, n: nat, k: nat)
    requires
        k < n <= options.len(),
    ensures
        occurs(option_line(k, options[k as int]), option_lines(options, n)),
    decreases n,
{
    let line = option_line(k, options[k as int]);
    let front = option_lines(options, (n - 1) as nat);
    let last = option_line((n - 1) as nat, options[n - 1]);
    if k == n - 1 {
        occurs_in_itself(line);
        occurs_within(line, front, last, Seq::empty());
        assert(front + last + Seq::<char>::empty() =~= option_lines(options, n));
    } else {
        lines_show_option(options, (n - 1) as nat, k);
        occurs_within(line, Seq::empty(), front, last);
        assert(Seq::<char>::empty() + front + last =~= option_lines(options, n));
    }
}

proof fn blocks_show_question(questions: Seq<QuestionSpecView>, n: nat, i: nat)
    requires
        i < n <= questions.len(),
    ensures
        occurs(
            question_block(i, questions[i as int], questions.len() > 1),
            question_blocks(questions, n),
        ),
    decreases n,
{
    let several = questions.len() > 1;
    let block = question_block(i, questions[i as int], several);
    let front = question_blocks(questions, (n - 1) as nat);
    let last = question_block((n - 1) as nat, questions[n - 1], several);
    if i == n - 1 {
        occurs_in_itself(block);
        occurs_within(block, front, last, Seq::empty());
        assert(front + last + Seq::<char>::empty() =~= question_blocks(questions, n));
    } else {
        blocks_show_question(questions, (n - 1) as nat, i);
        occurs_within(block, Seq::empty(), front, last);
        assert(Seq::<char>::empty() + front + last =~= question_blocks(questions, n));
    }
}

/// What occurs in what occurs in a text occurs in the text.
proof fn occurs_through(needle: Seq<char>, part: Seq<char>, text: Seq<char>)
    requires
        occurs(needle, part),
        occurs(part, text),
    ensures
        occurs(needle, text),
{
    let i = choose|i: int|
        0 <= i <= text.len() - part.len() && #[trigger] text.subrange(i, i + part.len()) == part;
    let front = text.subrange(0, i);
    let back = text.subrange(i + part.len(), text.len() as int);
    occurs_within(needle, front, part, back);
    assert(front + part + back =~= text);
}

/// A prompt shows everything there is to choose from: the text of each question
/// and, under its number, each of its options.
pub proof fn prompts_show_every_option(questions: Seq<QuestionSpecView>, i: nat, k: nat)
    requires
        i < questions.len(),
    ensures
        occurs(questions[i as int].question, prompt(questions)),
        k < questions[i as int].options.len() ==> occurs(
            option_line(k, questions[i as int].options[k as int]),
            prompt(questions),
        ),
{
    let several = questions.len() > 1;
    let question = questions[i as int];
    let blocks = question_blocks(questions, questions.len());
    let block = question_block(i, question, several);
    let head = "❓ The agent has a question:"@;
    let foot = if several {
        "\n\nReply with one option number per question (e.g. `1 2`), or in your own words."@
    } else {
        "\n\nReply with an option number, or in your own words."@
    };
    let number = if several {
        decimal(i + 1) + ". "@
    } else {
        Seq::empty()
    };
    let lines = option_lines(question.options, question.options.len());
    blocks_show_question(questions, questions.len(), i);
    occurs_within(block, head, blocks, foot);
    assert(occurs(block, prompt(questions)));
    occurs_in_itself(question.question);
    occurs_within(question.question, "\n\n"@ + number, question.question, lines);
    occurs_through(question.question, block, prompt(questions));
    if k < question.options.len() {
        let line = option_line(k, question.options[k as int]);
        lines_show_option(question.options, question.options.len(), k);
        occurs_within(line, "\n\n"@ + number + question.question, lines, Seq::empty());
        assert("\n\n"@ + number + question.question + lines + Seq::<char>::empty() =~= block);
        occurs_through(line, block, prompt(questions));
    }
}

/// A prompt shows each question on a line of its own, numbered where there are
/// several, and each option beside the number that picks it, with its
/// description behind it where it has one.
pub proof fn prompts_number_what_they_show(
    questions: &Vec<QuestionSpec>,
    i: int,
    k: int,
    shown: String,
)
    requires
        call_ensures(question_prompt, (questions,), shown),
        0 <= i < questions@.len(),
    ensures
        questions@.len() == 1 ==> occurs("\n\n"@ + questions@[i].question@, shown@),
        questions@.len() > 1 ==> occurs(
            "\n\n"@ + decimal((i + 1) as nat) + ". "@ + questions@[i].question@,
            shown@,
        ),
        0 <= k < questions@[i].options@.len() ==> {
            let option = questions@[i].options@[k];
            let line = "\n  "@ + decimal((k + 1) as nat) + ". "@ + option.label@;
            &&& occurs(line, shown@)
            &&& option.description@.len() > 0 ==> occurs(
                line + " — "@ + option.description@,
                shown@,
            )
        },
{
    let views = question_views(questions@);
    prompts_show_the_title(views, i as nat);
    if 0 <= k < questions@[i].options@.len() {
        prompts_show_the_option(views, i as nat, k as nat);
    }
}

proof fn prompts_show_the_title(questions: Seq<QuestionSpecView>, i: nat)
    requires
        i < questions.len(),
    ensures
        questions.len() == 1 ==> occurs(
            "\n\n"@ + questions[i as int].question,
            prompt(questions),
        ),
        questions.len() > 1 ==> occurs(
            "\n\n"@ + decimal(i + 1) + ". "@ + questions[i as int].question,
            prompt(questions),
        ),
{
    let question = questions[i as int];
    let several = questions.len() > 1;
    let block = question_block(i, question, several);
    let number = if several {
        decimal(i + 1) + ". "@
    } else {
        Seq::empty()
    };
    let lines = option_lines(question.options, question.options.len());
    let titled = "\n\n"@ + number + question.question;
    assert(occurs(titled, prompt(questions))) by {
        assert(block == titled + lines);
        occurs_at_the_front(titled, lines);
        prompts_show_the_block(questions, i);
        occurs_through(titled, block, prompt(questions));
    }
    if several {
        assert(titled == "\n\n"@ + decimal(i + 1) + ". "@ + question.question) by {
            assert(titled =~= "\n\n"@ + decimal(i + 1) + ". "@ + question.question);
        }
    } else {
        assert(titled == "\n\n"@ + question.question) by {
            assert("\n\n"@ + Seq::<char>::empty() =~= "\n\n"@);
        }
    }
}

/// A text occurs at the front of what it begins.
proof fn occurs_at_the_front(text: Seq<char>, rest: Seq<char>)
    ensures
        occurs(text, text + rest),
{
    assert((text + rest).subrange(0, 0 + text.len() as int) =~= text);
}

proof fn prompts_show_the_block(questions: Seq<QuestionSpecView>, i: nat)
    requires
        i < questions.len(),
    ensures
        occurs(
            question_block(i, questions[i as int], questions.len() > 1),
            prompt(questions),
        ),
{
    let block = question_block(i, questions[i as int], questions.len() > 1);
    let blocks = question_blocks(questions, questions.len());
    let foot = if questions.len() > 1 {
        "\n\nReply with one option number per question (e.g. `1 2`), or in your own words."@
    } else {
        "\n\nReply with an option number, or in your own words."@
    };
    blocks_show_question(questions, questions.len(), i);
    occurs_within(block, "❓ The agent has a question:"@, blocks, foot);
}

proof fn prompts_show_the_option(questions: Seq<QuestionSpecView>, i: nat, k: nat)
    requires
        i < questions.len(),
        k < questions[i as int].options.len(),
    ensures
        ({
            let option = questions[i as int].options[k as int];
            let line = "\n  "@ + decimal(k + 1) + ". "@ + option.label;
            &&& occurs(line, prompt(questions))
            &&& option.description.len() > 0 ==> occurs(
                line + " — "@ + option.description,
                prompt(questions),
            )
        }),
{
    let option = questions[i as int].options[k as int];
    let line = "\n  "@ + decimal(k + 1) + ". "@ + option.label;
    let whole = option_line(k, option);
    let rest = if option.description.len() == 0 {
        Seq::empty()
    } else {
        " — "@ + option.description
    };
    assert(whole =~= line + rest);
    assert(line + " — "@ + option.description =~= line + (" — "@ + option.description));
    prompts_show_every_option(questions, i, k);
    assert(occurs(line, prompt(questions))) by {
        occurs_at_the_front(line, rest);
        occurs_through(line, whole, prompt(questions));
    }
}

proof fn lines_look_at_the_front(a: Seq<QuestionOptionView>, b: Seq<QuestionOptionView>, n: nat)
    requires
        n <= a.len(),
        n <= b.len(),
        forall|k: int| 0 <= k < n ==> a[k] == b[k],
    ensures
        option_lines(a, n) == option_lines(b, n),
    decreases n,
{
    if n > 0 {
        lines_look_at_the_front(a, b, (n - 1) as nat);
    }
}

proof fn blocks_look_at_the_front(a: Seq<QuestionSpecView>, b: Seq<QuestionSpecView>, n: nat)
    requires
        n <= a.len(),
        n <= b.len(),
        a.len() > 1 <==> b.len() > 1,
        forall|k: int| 0 <= k < n ==> a[k] == b[k],
    ensures
        question_blocks(a, n) == question_blocks(b, n),
    decreases n,
{
    if n > 0 {
        blocks_look_at_the_front(a, b, (n - 1) as nat);
    }
}

/// A question without options is shown by its text alone, between the same first
/// and last lines.
pub proof fn prompts_of_open_questions(questions: &Vec<QuestionSpec>, shown: String)
    requires
        call_ensures(question_prompt, (questions,), shown),
        questions@.len() == 1,
        questions@[0].options@.len() == 0,
    ensures
        shown@ == "❓ The agent has a question:\n\n"@ + questions@[0].question@
            + "\n\nReply with an option number, or in your own words."@,
{
    let views = question_views(questions@);
    reveal_with_fuel(question_blocks, 2);
    reveal_strlit("❓ The agent has a question:\n\n");
    reveal_strlit("❓ The agent has a question:");
    reveal_strlit("\n\n");
    assert("❓ The agent has a question:\n\n"@ =~= "❓ The agent has a question:"@ + "\n\n"@);
    assert(question_block(0, views[0], false) =~= "\n\n"@ + views[0].question);
    assert(shown@ =~= "❓ The agent has a question:\n\n"@ + questions@[0].question@
        + "\n\nReply with an option number, or in your own words."@);
}

/// Whether `more` is `text` with `line` before its last line `foot`.
pub open spec fn gains(more: Seq<char>, text: Seq<char>, line: Seq<char>, foot: Seq<char>) -> bool {
    exists|body: Seq<char>| text == #[trigger] (body + foot) && more == body + line + foot
}

/// One more option adds one line to the prompt, behind all other options: its
/// number, one more than there were, its label, and its description if it has
/// one. Nothing else changes.
pub proof fn one_more_option_adds_one_line(
    some: &Vec<QuestionSpec>,
    more: &Vec<QuestionSpec>,
    shown: String,
    grown: String,
)
    requires
        call_ensures(question_prompt, (some,), shown),
        call_ensures(question_prompt, (more,), grown),
        some@.len() == 1,
        more@.len() == 1,
        more@[0].question@ == some@[0].question@,
        more@[0].options@.len() == some@[0].options@.len() + 1,
        forall|k: int|
            0 <= k < some@[0].options@.len() ==> (#[trigger] more@[0].options@[k])@
                == some@[0].options@[k]@,
    ensures
        ({
            let n = more@[0].options@.len();
            let option = more@[0].options@.last();
            let line = "\n  "@ + decimal(n) + ". "@ + option.label@ + (
            if option.description@.len() == 0 {
                Seq::empty()
            } else {
                " — "@ + option.description@
            });
            gains(grown@, shown@, line, "\n\nReply with an option number, or in your own words."@)
        }),
{
    let a = question_views(some@);
    let b = question_views(more@);
    let foot = "\n\nReply with an option number, or in your own words."@;
    let n = more@[0].options@.len();
    let option = more@[0].options@.last();
    let line = "\n  "@ + decimal(n) + ". "@ + option.label@ + (if option.description@.len() == 0 {
        Seq::empty()
    } else {
        " — "@ + option.description@
    });
    reveal_with_fuel(question_blocks, 2);
    assert forall|k: int| 0 <= k < n - 1 implies a[0].options[k] == b[0].options[k] by {
        assert(more@[0].options@[k]@ == some@[0].options@[k]@);
    }
    lines_look_at_the_front(a[0].options, b[0].options, (n - 1) as nat);
    assert(line =~= option_line((n - 1) as nat, b[0].options[n - 1]));
    let body = "❓ The agent has a question:"@ + ("\n\n"@ + some@[0].question@ + option_lines(
        a[0].options,
        (n - 1) as nat,
    ));
    assert(shown@ =~= body + foot);
    assert(grown@ =~= body + line + foot);
}

/// A question that joins at least two others adds, behind them all, its number
/// and what its own prompt shows between the first and the last line. Nothing
/// else changes.
pub proof fn one_more_question_adds_itself(
    one: &Vec<QuestionSpec>,
    some: &Vec<QuestionSpec>,
    more: &Vec<QuestionSpec>,
    alone: String,
    shown: String,
    grown: String,
)
    requires
        call_ensures(question_prompt, (one,), alone),
        call_ensures(question_prompt, (some,), shown),
        call_ensures(question_prompt, (more,), grown),
        one@.len() == 1,
        some@.len() >= 2,
        more@.len() == some@.len() + 1,
        forall|i: int| 0 <= i < some@.len() ==> (#[trigger] more@[i])@ == some@[i]@,
        more@.last()@ == one@[0]@,
    ensures
        exists|own: Seq<char>|
            {
                &&& alone@ == "❓ The agent has a question:\n\n"@ + own
                    + "\n\nReply with an option number, or in your own words."@
                &&& #[trigger] gains(
                    grown@,
                    shown@,
                    "\n\n"@ + decimal(more@.len()) + ". "@ + own,
                    "\n\nReply with one option number per question (e.g. `1 2`), or in your own words."@,
                )
            },
{
    let a = question_views(some@);
    let b = question_views(more@);
    let c = question_views(one@);
    let n = some@.len();
    let foot =
        "\n\nReply with one option number per question (e.g. `1 2`), or in your own words."@;
    let own = c[0].question + option_lines(c[0].options, c[0].options.len());
    reveal_strlit("❓ The agent has a question:\n\n");
    reveal_strlit("❓ The agent has a question:");
    reveal_strlit("\n\n");
    assert("❓ The agent has a question:\n\n"@ =~= "❓ The agent has a question:"@ + "\n\n"@);
    assert forall|i: int| 0 <= i < n implies a[i] == b[i] by {
        assert(more@[i]@ == some@[i]@);
    }
    assert(b[n as int] == c[0]);
    blocks_look_at_the_front(a, b, n);
    reveal_with_fuel(question_blocks, 2);
    assert(question_blocks(c, 1) =~= "\n\n"@ + own);
    assert(alone@ =~= "❓ The agent has a question:\n\n"@ + own
        + "\n\nReply with an option number, or in your own words."@);
    let line = "\n\n"@ + decimal(more@.len()) + ". "@ + own;
    let body = "❓ The agent has a question:"@ + question_blocks(a, n);
    assert(question_block(n, c[0], true) =~= line);
    assert(shown@ =~= body + foot);
    assert(grown@ =~= body + line + foot);
    assert(gains(grown@, shown@, line, foot));
}

/// Two questions are shown one after the other, each behind its number, as their
/// own prompts show them, and no questions show the first and the last line.
pub proof fn two_questions_stand_in_order(
    none: &Vec<QuestionSpec>,
    first: &Vec<QuestionSpec>,
    second: &Vec<QuestionSpec>,
    both: &Vec<QuestionSpec>,
    nothing: String,
    one: String,
    other: String,
    shown: String,
)
    requires
        call_ensures(question_prompt, (none,), nothing),
        call_ensures(question_prompt, (first,), one),
        call_ensures(question_prompt, (second,), other),
        call_ensures(question_prompt, (both,), shown),
        none@.len() == 0,
        first@.len() == 1,
        second@.len() == 1,
        both@.len() == 2,
        both@[0]@ == first@[0]@,
        both@[1]@ == second@[0]@,
    ensures
        nothing@ == "❓ The agent has a question:"@
            + "\n\nReply with an option number, or in your own words."@,
        exists|a: Seq<char>, b: Seq<char>|
            {
                &&& one@ == "❓ The agent has a question:\n\n"@ + a
                    + "\n\nReply with an option number, or in your own words."@
                &&& other@ == "❓ The agent has a question:\n\n"@ + b
                    + "\n\nReply with an option number, or in your own words."@
                &&& shown@ == #[trigger] ("❓ The agent has a question:\n\n1. "@ + a + "\n\n2. "@ + b)
                    + "\n\nReply with one option number per question (e.g. `1 2`), or in your own words."@
            },
{
    let x = question_views(first@);
    let y = question_views(second@);
    let z = question_views(both@);
    let a = x[0].question + option_lines(x[0].options, x[0].options.len());
    let b = y[0].question + option_lines(y[0].options, y[0].options.len());
    let head = "❓ The agent has a question:"@;
    reveal_strlit("❓ The agent has a question:\n\n1. ");
    reveal_strlit("❓ The agent has a question:\n\n");
    reveal_strlit("❓ The agent has a question:");
    reveal_strlit("\n\n2. ");
    reveal_strlit("\n\n");
    reveal_strlit(". ");
    reveal_with_fuel(question_blocks, 3);
    assert(head + "\n\n"@ =~= "❓ The agent has a question:\n\n"@);
    assert(decimal(1) =~= seq!['1']);
    assert(decimal(2) =~= seq!['2']);
    assert(head + ("\n\n"@ + decimal(1) + ". "@) =~= "❓ The agent has a question:\n\n1. "@);
    assert("\n\n"@ + decimal(2) + ". "@ =~= "\n\n2. "@);
    assert(z[0] == x[0] && z[1] == y[0]);
    assert(question_blocks(x, 1) =~= "\n\n"@ + a);
    assert(question_blocks(y, 1) =~= "\n\n"@ + b);
    assert(question_block(0, z[0], true) =~= ("\n\n"@ + decimal(1) + ". "@) + a);
    assert(question_block(1, z[1], true) =~= "\n\n2. "@ + b);
    assert(one@ =~= "❓ The agent has a question:\n\n"@ + a
        + "\n\nReply with an option number, or in your own words."@);
    assert(other@ =~= "❓ The agent has a question:\n\n"@ + b
        + "\n\nReply with an option number, or in your own words."@);
    assert(shown@ =~= ("❓ The agent has a question:\n\n1. "@ + a + "\n\n2. "@ + b)
        + "\n\nReply with one option number per question (e.g. `1 2`), or in your own words."@);
}

/// Whether an answer selects just the option `k` of a question, and says nothing
/// more.
pub open spec fn selects(answer: QuestionAnswer, question: QuestionSpec, k: int) -> bool {
    &&& 0 <= k < question.options@.len()
    &&& answer.selected@.len() == 1
    &&& answer.selected@[0]@ == question.options@[k].label@
    &&& answer.note is None
}

/// The number that a prompt shows beside an option is the number that selects
/// it: one such number per question, however they are spaced, is answered with
/// just those options.
pub proof fn shown_numbers_select(
    reply: &str,
    questions: &Vec<QuestionSpec>,
    chosen: Seq<nat>,
    numbers: Seq<Seq<char>>,
    front: Seq<char>,
    gaps: Seq<Seq<char>>,
    said: QuestionReply,
)
    requires
        call_ensures(question_reply, (reply, questions), said),
        reply@ == front + spaced(numbers, gaps),
        numbers.len() == chosen.len(),
        forall|i: int| 0 <= i < numbers.len() ==> #[trigger] numbers[i] == decimal(chosen[i] + 1),
        chosen.len() == questions@.len(),
        forall|i: int|
            0 <= i < chosen.len() ==> (#[trigger] chosen[i]) < questions@[i].options@.len(),
        only_separators(front, true),
        gaps.len() == chosen.len(),
        forall|i: int| 0 <= i < gaps.len() ==> only_separators(#[trigger] gaps[i], true),
        forall|i: int| 0 <= i < gaps.len() - 1 ==> (#[trigger] gaps[i]).len() > 0,
    ensures
        said matches QuestionReply::Answered(given) && given@.len() == questions@.len() && forall|
            i: int,
        |
            0 <= i < given@.len() ==> {
                &&& (#[trigger] given@[i]).selected@.len() == 1
                &&& given@[i].selected@[0]@ == questions@[i].options@[chosen[i] as int].label@
                &&& given@[i].note is None
            },
{
    let views = question_views(questions@);
    numbers_pick(views, chosen, numbers, front, gaps);
    let expected = answers(reply@, views)->0;
    if let QuestionReply::Answered(given) = said {
        assert(answer_views(given@) == expected);
        assert forall|i: int| 0 <= i < given@.len() implies {
            &&& (#[trigger] given@[i]).selected@.len() == 1
            &&& given@[i].selected@[0]@ == questions@[i].options@[chosen[i] as int].label@
            &&& given@[i].note is None
        } by {
            assert(answer_views(given@)[i] == expected[i]);
            assert(chosen[i] < questions@[i].options@.len());
            assert(texts(given@[i].selected@) == expected[i].selected);
            assert(texts(given@[i].selected@)[0] == given@[i].selected@[0]@);
        }
    }
}

/// Whether `token` is a number, counted from one, of an option of the question.
pub open spec fn numbers_an_option(token: Seq<char>, question: QuestionSpec) -> bool {
    number_of(token) is Some && 1 <= number_of(token)->0 <= question.options@.len()
}

/// A reply answers if and only if it is one option number per question, and then
/// each number selects its option. Any other reply goes back whole.
pub proof fn replies_answer_or_are_words(
    reply: &str,
    questions: &Vec<QuestionSpec>,
    said: QuestionReply,
)
    requires
        call_ensures(question_reply, (reply, questions), said),
    ensures
        ({
            let numbers = tokens(reply@, true);
            if numbers.len() == questions@.len() && forall|i: int|
                0 <= i < numbers.len() ==> numbers_an_option(
                    #[trigger] numbers[i],
                    questions@[i],
                ) {
                said matches QuestionReply::Answered(given) && given@.len() == numbers.len()
                    && forall|i: int|
                    0 <= i < given@.len() ==> selects(
                        #[trigger] given@[i],
                        questions@[i],
                        number_of(numbers[i])->0 - 1,
                    )
            } else {
                said matches QuestionReply::Discuss { message } && message is Some && message->0@
                    == reply@
            }
        }),
{
    let views = question_views(questions@);
    let numbers = tokens(reply@, true);
    assert(views.len() == questions@.len());
    assert forall|i: int| 0 <= i < numbers.len() && i < views.len() implies picks(
        #[trigger] numbers[i],
        views[i],
    ) == numbers_an_option(numbers[i], questions@[i]) by {}
    match said {
        QuestionReply::Answered(given) => {
            let expected = answers(reply@, views)->0;
            assert(answer_views(given@) == expected);
            assert forall|i: int| 0 <= i < given@.len() implies selects(
                #[trigger] given@[i],
                questions@[i],
                number_of(numbers[i])->0 - 1,
            ) by {
                assert(picks(numbers[i], views[i]));
                assert(answer_views(given@)[i] == expected[i]);
                assert(texts(given@[i].selected@) == expected[i].selected);
                assert(texts(given@[i].selected@)[0] == given@[i].selected@[0]@);
            }
            assert forall|i: int| 0 <= i < numbers.len() implies numbers_an_option(
                #[trigger] numbers[i],
                questions@[i],
            ) by {
                assert(picks(numbers[i], views[i]));
            }
        },
        QuestionReply::Discuss { message } => {
            assert(answers(reply@, views) is None);
            if numbers.len() == questions@.len() && forall|i: int|
                0 <= i < numbers.len() ==> numbers_an_option(
                    #[trigger] numbers[i],
                    questions@[i],
                ) {
                assert forall|i: int| 0 <= i < numbers.len() implies picks(
                    #[trigger] numbers[i],
                    views[i],
                ) by {
                    assert(numbers_an_option(numbers[i], questions@[i]));
                }
                assert(false);
            }
        },
    }
}

/// A reply with anything in it but digits, plus signs, white space and commas is
/// the user's words, and goes back whole.
pub proof fn words_are_never_picks(
    reply: &str,
    questions: &Vec<QuestionSpec>,
    at: int,
    said: QuestionReply,
)
    requires
        call_ensures(question_reply, (reply, questions), said),
        0 <= at < reply@.len(),
        !white_space(reply@[at]),
        reply@[at] != ',',
        !('0' <= reply@[at] <= '9'),
        reply@[at] != '+',
    ensures
        said matches QuestionReply::Discuss { message } && message is Some && message->0@ == reply@,
{
    let numbers = tokens(reply@, true);
    let c = reply@[at];
    parts_hold_every_character(reply@, true, at);
    let i = choose|i: int| 0 <= i < numbers.len() && (#[trigger] numbers[i]).contains(c);
    let token = numbers[i];
    let j = choose|j: int| 0 <= j < token.len() && token[j] == c;
    let digits = if token[0] == '+' {
        token.drop_first()
    } else {
        token
    };
    if token[0] == '+' {
        assert(digits[j - 1] == c);
    } else {
        assert(digits[j] == c);
    }
    assert(number_of(token) is None);
    if i < questions@.len() {
        assert(!numbers_an_option(token, questions@[i]));
    }
    replies_answer_or_are_words(reply, questions, said);
}

}

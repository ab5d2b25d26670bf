//! Mentions of users in message text.

use crate::text::{join, joined, occurs, split_tokens, tokens, tokens_are_clean, tokens_of_joined};
use vstd::prelude::*;
use vstd::string::*;

verus! {

/// How a platform writes the mention of a user.
pub enum MentionForm {
    /// `<@` and then anything up to the next `>`, as in `<@U123>`.
    Named,
    /// `<@` or `<@!`, digits, and `>`, as in `<@123>` and `<@!123>`.
    Numbered,
}

/// The characters of Unicode's general category `Nd`, decimal numbers.
pub open spec fn decimal_number(c: char) -> bool {
    ||| '\u{30}' <= c <= '\u{39}'
    ||| '\u{660}' <= c <= '\u{669}'
    ||| '\u{6f0}' <= c <= '\u{6f9}'
    ||| '\u{7c0}' <= c <= '\u{7c9}'
    ||| '\u{966}' <= c <= '\u{96f}'
    ||| '\u{9e6}' <= c <= '\u{9ef}'
    ||| '\u{a66}' <= c <= '\u{a6f}'
    ||| '\u{ae6}' <= c <= '\u{aef}'
    ||| '\u{b66}' <= c <= '\u{b6f}'
    ||| '\u{be6}' <= c <= '\u{bef}'
    ||| '\u{c66}' <= c <= '\u{c6f}'
    ||| '\u{ce6}' <= c <= '\u{cef}'
    ||| '\u{d66}' <= c <= '\u{d6f}'
    ||| '\u{de6}' <= c <= '\u{def}'
    ||| '\u{e50}' <= c <= '\u{e59}'
    ||| '\u{ed0}' <= c <= '\u{ed9}'
    ||| '\u{f20}' <= c <= '\u{f29}'
    ||| '\u{1040}' <= c <= '\u{1049}'
    ||| '\u{1090}' <= c <= '\u{1099}'
    ||| '\u{17e0}' <= c <= '\u{17e9}'
    ||| '\u{1810}' <= c <= '\u{1819}'
    ||| '\u{1946}' <= c <= '\u{194f}'
    ||| '\u{19d0}' <= c <= '\u{19d9}'
    ||| '\u{1a80}' <= c <= '\u{1a89}'
    ||| '\u{1a90}' <= c <= '\u{1a99}'
    ||| '\u{1b50}' <= c <= '\u{1b59}'
    ||| '\u{1bb0}' <= c <= '\u{1bb9}'
    ||| '\u{1c40}' <= c <= '\u{1c49}'
    ||| '\u{1c50}' <= c <= '\u{1c59}'
    ||| '\u{a620}' <= c <= '\u{a629}'
    ||| '\u{a8d0}' <= c <= '\u{a8d9}'
    ||| '\u{a900}' <= c <= '\u{a909}'
    ||| '\u{a9d0}' <= c <= '\u{a9d9}'
    ||| '\u{a9f0}' <= c <= '\u{a9f9}'
    ||| '\u{aa50}' <= c <= '\u{aa59}'
    ||| '\u{abf0}' <= c <= '\u{abf9}'
    ||| '\u{ff10}' <= c <= '\u{ff19}'
    ||| '\u{104a0}' <= c <= '\u{104a9}'
    ||| '\u{10d30}' <= c <= '\u{10d39}'
    ||| '\u{10d40}' <= c <= '\u{10d49}'
    ||| '\u{11066}' <= c <= '\u{1106f}'
    ||| '\u{110f0}' <= c <= '\u{110f9}'
    ||| '\u{11136}' <= c <= '\u{1113f}'
    ||| '\u{111d0}' <= c <= '\u{111d9}'
    ||| '\u{112f0}' <= c <= '\u{112f9}'
    ||| '\u{11450}' <= c <= '\u{11459}'
    ||| '\u{114d0}' <= c <= '\u{114d9}'
    ||| '\u{11650}' <= c <= '\u{11659}'
    ||| '\u{116c0}' <= c <= '\u{116c9}'
    ||| '\u{116d0}' <= c <= '\u{116e3}'
    ||| '\u{11730}' <= c <= '\u{11739}'
    ||| '\u{118e0}' <= c <= '\u{118e9}'
    ||| '\u{11950}' <= c <= '\u{11959}'
    ||| '\u{11bf0}' <= c <= '\u{11bf9}'
    ||| '\u{11c50}' <= c <= '\u{11c59}'
    ||| '\u{11d50}' <= c <= '\u{11d59}'
    ||| '\u{11da0}' <= c <= '\u{11da9}'
    ||| '\u{11f50}' <= c <= '\u{11f59}'
    ||| '\u{16130}' <= c <= '\u{16139}'
    ||| '\u{16a60}' <= c <= '\u{16a69}'
    ||| '\u{16ac0}' <= c <= '\u{16ac9}'
    ||| '\u{16b50}' <= c <= '\u{16b59}'
    ||| '\u{16d70}' <= c <= '\u{16d79}'
    ||| '\u{1ccf0}' <= c <= '\u{1ccf9}'
    ||| '\u{1d7ce}' <= c <= '\u{1d7ff}'
    ||| '\u{1e140}' <= c <= '\u{1e149}'
    ||| '\u{1e2f0}' <= c <= '\u{1e2f9}'
    ||| '\u{1e4f0}' <= c <= '\u{1e4f9}'
    ||| '\u{1e5f1}' <= c <= '\u{1e5fa}'
    ||| '\u{1e950}' <= c <= '\u{1e959}'
    ||| '\u{1fbf0}' <= c <= '\u{1fbf9}'
}

/// How many characters stand before the first `>`.
pub open spec fn before_close(text: Seq<char>) -> nat
    decreases text.len(),
{
    if text.len() == 0 || text[0] == '>' {
        0
    } else {
        1 + before_close(text.drop_first())
    }
}

/// How many decimal numbers stand at the front.
pub open spec fn number_run(text: Seq<char>) -> nat
    decreases text.len(),
{
    if text.len() == 0 || !decimal_number(text[0]) {
        0
    } else {
        1 + number_run(text.drop_first())
    }
}

/// The length of the mention that `text` begins with; zero where it begins
/// with none.
pub open spec fn mention_len(text: Seq<char>, form: MentionForm) -> nat {
    if text.len() < 2 || text[0] != '<' || text[1] != '@' {
        0
    } else {
        match form {
            MentionForm::Named => {
                let name = before_close(text.skip(2));
                if 0 < name < text.len() - 2 {
                    name + 3
                } else {
                    0
                }
            },
            MentionForm::Numbered => {
                let front: nat = if text.len() > 2 && text[2] == '!' {
                    3
                } else {
                    2
                };
                let number = number_run(text.skip(front as int));
                if 0 < number < text.len() - front && text[(front + number) as int] == '>' {
                    front + number + 1
                } else {
                    0
                }
            },
        }
    }
}

/// `text` without its mentions, which are looked for from the front.
pub open spec fn without_mentions(text: Seq<char>, form: MentionForm) -> Seq<char>
    decreases text.len(),
{
    let n = mention_len(text, form);
    if text.len() == 0 {
        Seq::empty()
    } else if 0 < n <= text.len() {
        without_mentions(text.skip(n as int), form)
    } else {
        seq![text[0]] + without_mentions(text.drop_first(), form)
    }
}

/// The words of `text` that are left without its mentions, with one space
/// between neighbours.
pub open spec fn stripped(text: Seq<char>, form: MentionForm) -> Seq<char> {
    joined(tokens(without_mentions(text, form), false), " "@)
}

/// `Regex::replace_all` of the `regex` crate, with nothing as the replacement.
/// It removes the matches of the pattern, found from the front and without
/// overlaps, for either of two patterns: in `<@[^>]+>` the class matches every
/// character but `>`, and in `<@!?\d+>` the class `\d` is the general category
/// `Nd`. Any other pattern is left out: one that is no regular expression makes
/// `Regex::new` fail.
#[verifier::external_body]
fn remove_matches(pattern: &str, text: &str) -> (r: String)
    requires
        pattern@ == "<@[^>]+>"@ || pattern@ == "<@!?\\d+>"@,
    ensures
        pattern@ == "<@[^>]+>"@ ==> r@ == without_mentions(text@, MentionForm::Named),
        pattern@ == "<@!?\\d+>"@ ==> r@ == without_mentions(text@, MentionForm::Numbered),
{
    regex::Regex::new(pattern).unwrap().replace_all(text, "").into_owned()
}

/// Strips the mentions from `text` and normalizes its white space.
pub fn strip(text: &str, form: MentionForm) -> (r: String)
    ensures
        r@ == stripped(text@, form),
{
    let bare = match form {
        MentionForm::Named => remove_matches("<@[^>]+>", text),
        MentionForm::Numbered => remove_matches("<@!?\\d+>", text),
    };
    let words = split_tokens(bare.as_str(), false);
    join(&words, " ")
}

/// Stripped text is normalized: splitting it into words and joining them again
/// changes nothing, so it has no white space at its ends and single spaces
/// between words.
pub proof fn stripped_is_normalized(text: Seq<char>, form: MentionForm)
    ensures
        joined(tokens(stripped(text, form), false), " "@) == stripped(text, form),
        tokens(stripped(text, form), false) == tokens(without_mentions(text, form), false),
{
    let words = tokens(without_mentions(text, form), false);
    reveal_strlit(" ");
    tokens_are_clean(without_mentions(text, form), false);
    tokens_of_joined(words, " "@, false);
}

/// A text in which `<@` does not occur loses nothing but white space.
pub proof fn nothing_to_strip(text: Seq<char>, form: MentionForm)
    requires
        !occurs("<@"@, text),
    ensures
        without_mentions(text, form) == text,
        stripped(text, form) == joined(tokens(text, false), " "@),
    decreases text.len(),
{
    reveal_strlit("<@");
    if text.len() > 0 {
        let rest = text.drop_first();
        let at = "<@"@.len();
        assert forall|i: int| 0 <= i <= rest.len() - at implies #[trigger] rest.subrange(i, i + at)
            != "<@"@ by {
            assert(rest.subrange(i, i + at) =~= text.subrange(i + 1, i + 1 + at));
        }
        nothing_to_strip(rest, form);
        if text.len() >= 2 && text[0] == '<' && text[1] == '@' {
            assert(text.subrange(0, 0int + at) =~= "<@"@);
        }
        assert(seq![text[0]] + rest =~= text);
    }
}

/// Whether `c` does not stand in `text`.
pub open spec fn free_of(text: Seq<char>, c: char) -> bool {
    forall|i: int| 0 <= i < text.len() ==> #[trigger] text[i] != c
}

proof fn front_is_kept(front: Seq<char>, rest: Seq<char>, form: MentionForm)
    requires
        free_of(front, '<'),
    ensures
        without_mentions(front + rest, form) == front + without_mentions(rest, form),
    decreases front.len(),
{
    let text = front + rest;
    if front.len() == 0 {
        assert(text =~= rest);
        assert(front + without_mentions(rest, form) =~= without_mentions(rest, form));
    } else {
        assert(text[0] == front[0]);
        assert(text.drop_first() =~= front.drop_first() + rest);
        assert forall|i: int| 0 <= i < front.len() - 1 implies #[trigger] front.drop_first()[i]
            != '<' by {
            assert(front.drop_first()[i] == front[i + 1]);
        }
        front_is_kept(front.drop_first(), rest, form);
        assert(seq![front[0]] + (front.drop_first() + without_mentions(rest, form)) =~= front
            + without_mentions(rest, form));
    }
}

proof fn before_close_of(name: Seq<char>, rest: Seq<char>)
    requires
        free_of(name, '>'),
        rest.len() > 0,
        rest[0] == '>',
    ensures
        before_close(name + rest) == name.len(),
    decreases name.len(),
{
    let text = name + rest;
    if name.len() > 0 {
        assert(text[0] == name[0]);
        assert(text.drop_first() =~= name.drop_first() + rest);
        assert forall|i: int| 0 <= i < name.len() - 1 implies #[trigger] name.drop_first()[i]
            != '>' by {
            assert(name.drop_first()[i] == name[i + 1]);
        }
        before_close_of(name.drop_first(), rest);
    } else {
        assert(text =~= rest);
    }
}

/// Whether `text` is made of decimal numbers.
pub open spec fn all_numbers(text: Seq<char>) -> bool {
    forall|i: int| 0 <= i < text.len() ==> decimal_number(#[trigger] text[i])
}

proof fn number_run_of(number: Seq<char>, rest: Seq<char>)
    requires
        all_numbers(number),
        rest.len() > 0,
        rest[0] == '>',
    ensures
        number_run(number + rest) == number.len(),
    decreases number.len(),
{
    let text = number + rest;
    if number.len() > 0 {
        assert(text[0] == number[0]);
        assert(text.drop_first() =~= number.drop_first() + rest);
        assert forall|i: int| 0 <= i < number.len() - 1 implies decimal_number(
            #[trigger] number.drop_first()[i],
        ) by {
            assert(number.drop_first()[i] == number[i + 1]);
        }
        number_run_of(number.drop_first(), rest);
    } else {
        assert(text =~= rest);
    }
}

/// A mention by name is stripped wherever it stands, and what is before and
/// behind it is kept.
pub proof fn named_mentions_are_stripped(front: Seq<char>, name: Seq<char>, back: Seq<char>)
    requires
        free_of(front, '<'),
        name.len() > 0,
        free_of(name, '>'),
    ensures
        without_mentions(front + ("<@"@ + name + ">"@ + back), MentionForm::Named) == front
            + without_mentions(back, MentionForm::Named),
{
    reveal_strlit("<@");
    reveal_strlit(">");
    let text = "<@"@ + name + ">"@ + back;
    front_is_kept(front, text, MentionForm::Named);
    assert(text[0] == '<' && text[1] == '@');
    assert(text.skip(2) =~= name + (">"@ + back));
    before_close_of(name, ">"@ + back);
    assert(text.skip(name.len() as int + 3) =~= back);
}

/// A mention by number is stripped wherever it stands, with an exclamation mark
/// or without, and what is before and behind it is kept.
pub proof fn numbered_mentions_are_stripped(front: Seq<char>, number: Seq<char>, back: Seq<char>)
    requires
        free_of(front, '<'),
        number.len() > 0,
        all_numbers(number),
    ensures
        without_mentions(front + ("<@"@ + number + ">"@ + back), MentionForm::Numbered) == front
            + without_mentions(back, MentionForm::Numbered),
        without_mentions(front + ("<@!"@ + number + ">"@ + back), MentionForm::Numbered) == front
            + without_mentions(back, MentionForm::Numbered),
{
    reveal_strlit("<@");
    reveal_strlit("<@!");
    reveal_strlit(">");
    let plain = "<@"@ + number + ">"@ + back;
    let nick = "<@!"@ + number + ">"@ + back;
    front_is_kept(front, plain, MentionForm::Numbered);
    front_is_kept(front, nick, MentionForm::Numbered);
    number_run_of(number, ">"@ + back);
    assert(plain[0] == '<' && plain[1] == '@' && plain[2] == number[0]);
    assert(decimal_number(number[0]));
    assert(plain.skip(2) =~= number + (">"@ + back));
    assert(plain.skip(number.len() as int + 3) =~= back);
    assert(nick[0] == '<' && nick[1] == '@' && nick[2] == '!');
    assert(nick.skip(3) =~= number + (">"@ + back));
    assert(nick.skip(number.len() as int + 4) =~= back);
}

proof fn before_close_is_all(text: Seq<char>)
    requires
        free_of(text, '>'),
    ensures
        before_close(text) == text.len(),
    decreases text.len(),
{
    if text.len() > 0 {
        assert forall|i: int| 0 <= i < text.len() - 1 implies #[trigger] text.drop_first()[i]
            != '>' by {
            assert(text.drop_first()[i] == text[i + 1]);
        }
        before_close_is_all(text.drop_first());
    }
}

/// What is never closed is no mention, and is kept.
pub proof fn open_mentions_are_kept(text: Seq<char>, form: MentionForm)
    requires
        free_of(text, '>'),
    ensures
        without_mentions(text, form) == text,
    decreases text.len(),
{
    if text.len() > 0 {
        let rest = text.drop_first();
        assert forall|i: int| 0 <= i < rest.len() implies #[trigger] rest[i] != '>' by {
            assert(rest[i] == text[i + 1]);
        }
        open_mentions_are_kept(rest, form);
        if text.len() >= 2 {
            let name = text.skip(2);
            assert forall|i: int| 0 <= i < name.len() implies #[trigger] name[i] != '>' by {
                assert(name[i] == text[i + 2]);
            }
            before_close_is_all(name);
        }
        assert(mention_len(text, form) == 0);
        assert(seq![text[0]] + rest =~= text);
    }
}

/// Stripping keeps the words that are left without the mentions, in order, with
/// a single space between neighbours and none at the ends.
pub proof fn stripping_keeps_the_words(text: &str, form: MentionForm, kept: String)
    requires
        call_ensures(strip, (text, form), kept),
    ensures
        tokens(kept@, false) == tokens(without_mentions(text@, form), false),
        kept@ == joined(tokens(kept@, false), " "@),
{
    stripped_is_normalized(text@, form);
}

/// Where a word is left, what is stripped is not empty.
pub proof fn words_make_text(text: Seq<char>, form: MentionForm)
    ensures
        tokens(without_mentions(text, form), false).len() > 0 <==> stripped(text, form).len() > 0,
{
    let words = tokens(without_mentions(text, form), false);
    tokens_are_clean(without_mentions(text, form), false);
    if words.len() > 0 {
        assert(words[0].len() > 0);
    }
}

}

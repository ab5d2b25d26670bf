//! Text as sequences of characters: comparing, searching, splitting, joining,
//! and writing and reading decimal numbers.

use vstd::prelude::*;
use vstd::string::*;

verus! {

/// `String::push` appends the given character to the end of the string.
pub assume_specification[ String::push ](s: &mut String, c: char)
    ensures
        final(s)@ == old(s)@.push(c),
;

/// The characters with Unicode's `White_Space` property.
pub open spec fn white_space(c: char) -> bool {
    ||| '\u{9}' <= c <= '\u{d}'
    ||| c == ' '
    ||| c == '\u{85}'
    ||| c == '\u{a0}'
    ||| c == '\u{1680}'
    ||| '\u{2000}' <= c <= '\u{200a}'
    ||| c == '\u{2028}'
    ||| c == '\u{2029}'
    ||| c == '\u{202f}'
    ||| c == '\u{205f}'
    ||| c == '\u{3000}'
}

/// `char::is_whitespace` tells whether a character has the `White_Space`
/// property, which the Unicode Character Database gives to the characters of
/// [`white_space`] and to no others.
pub assume_specification[ char::is_whitespace ](c: char) -> (r: bool)
    ensures
        r == white_space(c),
;

/// The lowercase equivalent of a text, as `str::to_lowercase` gives it.
pub uninterp spec fn lowercase(text: Seq<char>) -> Seq<char>;

/// The lowercase equivalent of an ASCII character; any other character itself.
pub open spec fn ascii_lower(c: char) -> char {
    if 'A' <= c <= 'Z' {
        (c as int + 32) as char
    } else {
        c
    }
}

/// `str::to_lowercase` gives the lowercase equivalent of a text, which depends
/// on the text alone. Of an ASCII text it lowers the letters `A` to `Z` and
/// keeps the rest.
pub assume_specification[ str::to_lowercase ](s: &str) -> (r: String)
    ensures
        r@ == lowercase(s@),
        (forall|i: int| 0 <= i < s@.len() ==> (#[trigger] s@[i]) < '\u{80}') ==> r@
            == s@.map_values(|c: char| ascii_lower(c)),
;

/// The views of a vector's strings.
pub open spec fn texts(strings: Seq<String>) -> Seq<Seq<char>> {
    strings.map_values(|s: String| s@)
}

/// The view of an optional string.
pub open spec fn text_option(text: Option<String>) -> Option<Seq<char>> {
    match text {
        Some(s) => Some(s@),
        None => None,
    }
}

/// The view of an optional text.
pub open spec fn str_option(text: Option<&str>) -> Option<Seq<char>> {
    match text {
        Some(s) => Some(s@),
        None => None,
    }
}

/// The characters of `text`, in order.
pub fn chars_of(text: &str) -> (r: Vec<char>)
    ensures
        r@ == text@,
{
    let mut done: Vec<char> = Vec::new();
    for c in letters: text.chars()
        invariant
            letters.seq() == text@,
            done@ == text@.take(letters.index()),
    {
        done.push(c);
        assert(text@.take(letters.index() + 1) == text@.take(letters.index()).push(c));
    }
    assert(text@.take(text@.len() as int) == text@);
    done
}

/// The string that holds `chars[from..to]`.
pub fn string_of(chars: &Vec<char>, from: usize, to: usize) -> (r: String)
    requires
        from <= to <= chars@.len(),
    ensures
        r@ == chars@.subrange(from as int, to as int),
{
    let mut out = String::new();
    let mut i: usize = from;
    while i < to
        invariant
            from <= i <= to <= chars@.len(),
            out@ == chars@.subrange(from as int, i as int),
        decreases to - i,
    {
        out.push(chars[i]);
        i = i + 1;
        assert(chars@.subrange(from as int, i as int) == chars@.subrange(
            from as int,
            i - 1,
        ).push(chars@[i - 1]));
    }
    out
}

/// Whether two texts hold the same characters.
pub fn same_text(a: &str, b: &str) -> (r: bool)
    ensures
        r == (a@ == b@),
{
    let x = chars_of(a);
    let y = chars_of(b);
    if x.len() != y.len() {
        return false;
    }
    let mut i: usize = 0;
    while i < x.len()
        invariant
            x@ == a@,
            y@ == b@,
            x@.len() == y@.len(),
            i <= x@.len(),
            forall|k: int| 0 <= k < i ==> x@[k] == y@[k],
        decreases x@.len() - i,
    {
        if x[i] != y[i] {
            return false;
        }
        i = i + 1;
    }
    assert(x@ =~= y@);
    true
}

/// Whether `text` holds `needle` as a contiguous run of characters.
pub open spec fn occurs(needle: Seq<char>, text: Seq<char>) -> bool {
    exists|i: int|
        0 <= i <= text.len() - needle.len() && #[trigger] text.subrange(i, i + needle.len())
            == needle
}

/// What occurs in a part of a text occurs in the text.
pub proof fn occurs_within(needle: Seq<char>, front: Seq<char>, part: Seq<char>, back: Seq<char>)
    requires
        occurs(needle, part),
    ensures
        occurs(needle, front + part + back),
{
    let whole = front + part + back;
    let i = choose|i: int|
        0 <= i <= part.len() - needle.len() && #[trigger] part.subrange(i, i + needle.len())
            == needle;
    let at = front.len() + i;
    assert(whole.subrange(at, at + needle.len()) =~= part.subrange(i, i + needle.len()));
}

/// Whether `needle` stands in `text` at position `at`.
fn stands_at(text: &Vec<char>, needle: &Vec<char>, at: usize) -> (r: bool)
    requires
        at + needle@.len() <= text@.len(),
    ensures
        r == (text@.subrange(at as int, at + needle@.len()) == needle@),
{
    let size: usize = text.len();
    let mut k: usize = 0;
    while k < needle.len()
        invariant
            at + needle@.len() <= text@.len() == size,
            k <= needle@.len(),
            forall|m: int| 0 <= m < k ==> text@[at + m] == needle@[m],
        decreases needle@.len() - k,
    {
        if text[at + k] != needle[k] {
            assert(text@.subrange(at as int, at + needle@.len())[k as int] != needle@[k as int]);
            return false;
        }
        k = k + 1;
    }
    assert(text@.subrange(at as int, at + needle@.len()) =~= needle@);
    true
}

/// Whether `needle` occurs in `text`.
pub fn contains(text: &str, needle: &str) -> (r: bool)
    ensures
        r == occurs(needle@, text@),
{
    let hay = chars_of(text);
    let pin = chars_of(needle);
    if pin.len() > hay.len() {
        return false;
    }
    let last: usize = hay.len() - pin.len();
    let mut i: usize = 0;
    loop
        invariant
            hay@ == text@,
            pin@ == needle@,
            last == hay@.len() - pin@.len(),
            i <= last,
            forall|k: int| 0 <= k < i ==> #[trigger] hay@.subrange(k, k + pin@.len()) != pin@,
        decreases last - i,
    {
        if stands_at(&hay, &pin, i) {
            return true;
        }
        if i == last {
            return false;
        }
        i = i + 1;
    }
}

/// What is left of `text` behind `prefix`, where `text` begins with it.
pub fn strip_prefix(text: &str, prefix: &str) -> (r: Option<String>)
    ensures
        match r {
            Some(rest) => text@ == prefix@ + rest@,
            None => !prefix@.is_prefix_of(text@),
        },
{
    let whole = chars_of(text);
    let front = chars_of(prefix);
    if front.len() <= whole.len() && stands_at(&whole, &front, 0) {
        let rest = string_of(&whole, front.len(), whole.len());
        assert(text@ =~= prefix@ + rest@);
        Some(rest)
    } else {
        None
    }
}

/// `text` without the white space at its front.
pub open spec fn trimmed_front(text: Seq<char>) -> Seq<char>
    decreases text.len(),
{
    if text.len() > 0 && white_space(text[0]) {
        trimmed_front(text.drop_first())
    } else {
        text
    }
}

/// `text` without the white space at its back.
pub open spec fn trimmed_back(text: Seq<char>) -> Seq<char>
    decreases text.len(),
{
    if text.len() > 0 && white_space(text.last()) {
        trimmed_back(text.drop_last())
    } else {
        text
    }
}

/// `text` without the white space at either end.
pub open spec fn trimmed(text: Seq<char>) -> Seq<char> {
    trimmed_back(trimmed_front(text))
}

/// Where the text without the white space at its front begins.
fn front_of(chars: &Vec<char>) -> (from: usize)
    ensures
        from <= chars@.len(),
        chars@.skip(from as int) == trimmed_front(chars@),
{
    let mut from: usize = 0;
    assert(chars@.skip(0) =~= chars@);
    while from < chars.len() && chars[from].is_whitespace()
        invariant
            from <= chars@.len(),
            trimmed_front(chars@) == trimmed_front(chars@.skip(from as int)),
        decreases chars@.len() - from,
    {
        assert(chars@.skip(from as int)[0] == chars@[from as int]);
        assert(chars@.skip(from as int).drop_first() =~= chars@.skip(from + 1));
        from = from + 1;
    }
    from
}

/// Where the text from `from` on, without the white space at its back, ends.
fn back_of(chars: &Vec<char>, from: usize) -> (to: usize)
    requires
        from <= chars@.len(),
    ensures
        from <= to <= chars@.len(),
        chars@.subrange(from as int, to as int) == trimmed_back(chars@.skip(from as int)),
{
    let ghost front = chars@.skip(from as int);
    let mut to: usize = chars.len();
    assert(chars@.subrange(from as int, to as int) =~= front);
    while from < to && chars[to - 1].is_whitespace()
        invariant
            from <= to <= chars@.len(),
            trimmed_back(front) == trimmed_back(chars@.subrange(from as int, to as int)),
        decreases to,
    {
        let ghost text = chars@.subrange(from as int, to as int);
        assert(text.last() == chars@[to - 1]);
        assert(text.drop_last() =~= chars@.subrange(from as int, to - 1));
        to = to - 1;
    }
    to
}

/// `text` without the white space at either end.
pub fn trim(text: &str) -> (r: String)
    ensures
        r@ == trimmed(text@),
{
    let chars = chars_of(text);
    let from: usize = front_of(&chars);
    let to: usize = back_of(&chars, from);
    string_of(&chars, from, to)
}

/// Whether `c` stands between tokens: white space does, and a comma where
/// `commas` says so.
pub open spec fn separates(c: char, commas: bool) -> bool {
    white_space(c) || (commas && c == ',')
}

/// How many characters at the front of `text` come before the first separator.
pub open spec fn token_len(text: Seq<char>, commas: bool) -> nat
    decreases text.len(),
{
    if text.len() == 0 || separates(text[0], commas) {
        0
    } else {
        1 + token_len(text.drop_first(), commas)
    }
}

/// A token is no longer than the text that it begins.
pub proof fn token_len_bounded(text: Seq<char>, commas: bool)
    ensures
        token_len(text, commas) <= text.len(),
    decreases text.len(),
{
    if text.len() > 0 && !separates(text[0], commas) {
        token_len_bounded(text.drop_first(), commas);
    }
}

/// The maximal runs of characters of `text` that are no separators, in order.
pub open spec fn tokens(text: Seq<char>, commas: bool) -> Seq<Seq<char>>
    decreases text.len(),
{
    let n = token_len(text, commas);
    if text.len() == 0 {
        Seq::empty()
    } else if n == 0 {
        tokens(text.drop_first(), commas)
    } else {
        proof {
            token_len_bounded(text, commas);
        }
        seq![text.take(n as int)] + tokens(text.skip(n as int), commas)
    }
}

/// The tokens of `text`.
pub fn split_tokens(text: &str, commas: bool) -> (r: Vec<String>)
    ensures
        texts(r@) == tokens(text@, commas),
{
    let chars = chars_of(text);
    let mut done: Vec<String> = Vec::new();
    let mut i: usize = 0;
    assert(chars@.skip(0) =~= chars@);
    assert(texts(done@) + tokens(chars@, commas) =~= tokens(chars@, commas));
    while i < chars.len()
        invariant
            i <= chars@.len(),
            tokens(chars@, commas) == texts(done@) + tokens(chars@.skip(i as int), commas),
        decreases chars@.len() - i,
    {
        let c = chars[i];
        assert(chars@.skip(i as int).drop_first() =~= chars@.skip(i + 1));
        if c.is_whitespace() || (commas && c == ',') {
            i = i + 1;
        } else {
            let start: usize = i;
            let ghost from = chars@.skip(start as int);
            while i < chars.len() && !(chars[i].is_whitespace() || (commas && chars[i] == ','))
                invariant
                    start <= i <= chars@.len(),
                    from == chars@.skip(start as int),
                    token_len(from, commas) == (i - start) + token_len(
                        chars@.skip(i as int),
                        commas,
                    ),
                decreases chars@.len() - i,
            {
                assert(chars@.skip(i as int).drop_first() =~= chars@.skip(i + 1));
                i = i + 1;
            }
            let ghost before = texts(done@);
            assert(token_len(from, commas) == i - start);
            assert(i > start);
            assert(from.skip(i - start) =~= chars@.skip(i as int));
            assert(from.take(i - start) =~= chars@.subrange(start as int, i as int));
            done.push(string_of(&chars, start, i));
            assert(texts(done@) =~= before.push(chars@.subrange(start as int, i as int)));
            assert(before + (seq![from.take(i - start)] + tokens(chars@.skip(i as int), commas))
                =~= texts(done@) + tokens(chars@.skip(i as int), commas));
        }
    }
    assert(texts(done@) + tokens(chars@.skip(i as int), commas) =~= texts(done@));
    done
}

/// Whether no character of `part` is a separator.
pub open spec fn unbroken(part: Seq<char>, commas: bool) -> bool {
    forall|i: int| 0 <= i < part.len() ==> !separates(#[trigger] part[i], commas)
}

/// Whether every part is not empty and holds no separator.
pub open spec fn all_clean(parts: Seq<Seq<char>>, commas: bool) -> bool {
    forall|i: int|
        0 <= i < parts.len() ==> (#[trigger] parts[i]).len() > 0 && unbroken(parts[i], commas)
}

/// A token is not empty and holds no separator.
pub proof fn tokens_are_clean(text: Seq<char>, commas: bool)
    ensures
        all_clean(tokens(text, commas), commas),
    decreases text.len(),
{
    if text.len() > 0 {
        let n = token_len(text, commas);
        token_len_bounded(text, commas);
        if n == 0 {
            tokens_are_clean(text.drop_first(), commas);
        } else {
            let first = text.take(n as int);
            let rest = tokens(text.skip(n as int), commas);
            token_is_unbroken(text, commas);
            tokens_are_clean(text.skip(n as int), commas);
            let all = seq![first] + rest;
            assert(tokens(text, commas) == all);
            assert forall|i: int| 0 <= i < all.len() implies (#[trigger] all[i]).len() > 0
                && unbroken(all[i], commas) by {
                if i > 0 {
                    assert(all[i] == rest[i - 1]);
                }
            }
        }
    }
}

proof fn token_is_unbroken(text: Seq<char>, commas: bool)
    ensures
        unbroken(text.take(token_len(text, commas) as int), commas),
    decreases text.len(),
{
    let n = token_len(text, commas);
    token_len_bounded(text, commas);
    if n > 0 {
        let rest = text.drop_first();
        token_is_unbroken(rest, commas);
        token_len_bounded(rest, commas);
        assert forall|i: int| 0 <= i < n implies !separates(
            #[trigger] text.take(n as int)[i],
            commas,
        ) by {
            if i > 0 {
                assert(rest.take(n - 1)[i - 1] == text[i]);
            }
        }
    }
}

/// `parts` one after the other, with `separator` between neighbours.
pub open spec fn joined(parts: Seq<Seq<char>>, separator: Seq<char>) -> Seq<char>
    decreases parts.len(),
{
    if parts.len() == 0 {
        Seq::empty()
    } else if parts.len() == 1 {
        parts[0]
    } else {
        parts[0] + separator + joined(parts.drop_first(), separator)
    }
}

/// `parts` one after the other, with `separator` between neighbours.
pub fn join(parts: &Vec<String>, separator: &str) -> (r: String)
    ensures
        r@ == joined(texts(parts@), separator@),
{
    let ghost views = texts(parts@);
    let mut out = String::new();
    if parts.len() == 0 {
        return out;
    }
    out.append(parts[0].as_str());
    let mut i: usize = 1;
    proof {
        assert(views.skip(1) =~= views.drop_first());
        assert(views.skip(0) =~= views);
    }
    while i < parts.len()
        invariant
            1 <= i <= parts@.len(),
            views == texts(parts@),
            joined(views, separator@) == out@ + (if i < parts@.len() {
                separator@ + joined(views.skip(i as int), separator@)
            } else {
                Seq::empty()
            }),
        decreases parts@.len() - i,
    {
        let ghost before = out@;
        out.append(separator);
        out.append(parts[i].as_str());
        i = i + 1;
        assert(views.skip(i - 1).drop_first() =~= views.skip(i as int));
        assert(views.skip(i - 1)[0] == views[i - 1]);
        assert(joined(views, separator@) =~= out@ + (if i < parts@.len() {
            separator@ + joined(views.skip(i as int), separator@)
        } else {
            Seq::empty()
        }));
    }
    out
}

/// A run without separators, at the end of the text or before a separator, is
/// the text's first token.
proof fn token_len_of_front(front: Seq<char>, rest: Seq<char>, commas: bool)
    requires
        unbroken(front, commas),
        rest.len() == 0 || separates(rest[0], commas),
    ensures
        token_len(front + rest, commas) == front.len(),
    decreases front.len(),
{
    let text = front + rest;
    if front.len() > 0 {
        assert(text[0] == front[0]);
        assert(text.drop_first() =~= front.drop_first() + rest);
        assert forall|i: int| 0 <= i < front.len() - 1 implies !separates(
            #[trigger] front.drop_first()[i],
            commas,
        ) by {
            assert(front.drop_first()[i] == front[i + 1]);
        }
        token_len_of_front(front.drop_first(), rest, commas);
    } else {
        assert(text =~= rest);
    }
}

/// Separators at the front of a text do not change its tokens.
pub proof fn tokens_skip_separators(front: Seq<char>, rest: Seq<char>, commas: bool)
    requires
        forall|i: int| 0 <= i < front.len() ==> separates(#[trigger] front[i], commas),
    ensures
        tokens(front + rest, commas) == tokens(rest, commas),
    decreases front.len(),
{
    if front.len() > 0 {
        assert((front + rest)[0] == front[0]);
        assert((front + rest).drop_first() =~= front.drop_first() + rest);
        assert forall|i: int| 0 <= i < front.len() - 1 implies separates(
            #[trigger] front.drop_first()[i],
            commas,
        ) by {
            assert(front.drop_first()[i] == front[i + 1]);
        }
        tokens_skip_separators(front.drop_first(), rest, commas);
    } else {
        assert(front + rest =~= rest);
    }
}

/// Parts that are not empty and hold no separators, joined by separators, are
/// the tokens of what they were joined to.
pub proof fn tokens_of_joined(parts: Seq<Seq<char>>, separator: Seq<char>, commas: bool)
    requires
        all_clean(parts, commas),
        separator.len() > 0,
        forall|i: int| 0 <= i < separator.len() ==> separates(#[trigger] separator[i], commas),
    ensures
        tokens(joined(parts, separator), commas) == parts,
    decreases parts.len(),
{
    if parts.len() == 0 {
        assert(parts =~= Seq::empty());
    } else {
        let first = parts[0];
        let tail = parts.drop_first();
        let whole = joined(parts, separator);
        assert forall|i: int| 0 <= i < tail.len() implies (#[trigger] tail[i]).len() > 0
            && unbroken(tail[i], commas) by {
            assert(tail[i] == parts[i + 1]);
        }
        tokens_of_joined(tail, separator, commas);
        let rest = if tail.len() == 0 {
            Seq::<char>::empty()
        } else {
            separator + joined(tail, separator)
        };
        assert(whole =~= first + rest);
        token_len_of_front(first, rest, commas);
        assert(whole.take(first.len() as int) =~= first);
        assert(whole.skip(first.len() as int) =~= rest);
        if tail.len() > 0 {
            tokens_skip_separators(separator, joined(tail, separator), commas);
        }
        assert(tokens(whole, commas) =~= seq![first] + tail);
        assert(seq![first] + tail =~= parts);
    }
}

/// Whether every character of `gap` is a separator.
pub open spec fn only_separators(gap: Seq<char>, commas: bool) -> bool {
    forall|i: int| 0 <= i < gap.len() ==> separates(#[trigger] gap[i], commas)
}

/// `parts` one after the other, each with its own gap behind it.
pub open spec fn spaced(parts: Seq<Seq<char>>, gaps: Seq<Seq<char>>) -> Seq<char>
    decreases parts.len(),
{
    if parts.len() == 0 {
        Seq::empty()
    } else {
        parts[0] + (gaps[0] + spaced(parts.drop_first(), gaps.drop_first()))
    }
}

/// Parts that are not empty and hold no separators are the tokens of what they
/// make with gaps of separators between neighbours and, perhaps, at the end.
pub proof fn tokens_of_spaced(parts: Seq<Seq<char>>, gaps: Seq<Seq<char>>, commas: bool)
    requires
        all_clean(parts, commas),
        gaps.len() == parts.len(),
        forall|i: int| 0 <= i < gaps.len() ==> only_separators(#[trigger] gaps[i], commas),
        forall|i: int| 0 <= i < gaps.len() - 1 ==> (#[trigger] gaps[i]).len() > 0,
    ensures
        tokens(spaced(parts, gaps), commas) == parts,
    decreases parts.len(),
{
    if parts.len() == 0 {
        assert(parts =~= Seq::empty());
    } else {
        let first = parts[0];
        let tail = parts.drop_first();
        let later = gaps.drop_first();
        let whole = spaced(parts, gaps);
        let rest = gaps[0] + spaced(tail, later);
        assert forall|i: int| 0 <= i < tail.len() implies (#[trigger] tail[i]).len() > 0
            && unbroken(tail[i], commas) by {
            assert(tail[i] == parts[i + 1]);
        }
        assert forall|i: int| 0 <= i < later.len() implies only_separators(
            #[trigger] later[i],
            commas,
        ) by {
            assert(later[i] == gaps[i + 1]);
        }
        assert forall|i: int| 0 <= i < later.len() - 1 implies (#[trigger] later[i]).len() > 0 by {
            assert(later[i] == gaps[i + 1]);
        }
        tokens_of_spaced(tail, later, commas);
        assert(only_separators(gaps[0], commas));
        tokens_skip_separators(gaps[0], spaced(tail, later), commas);
        if gaps[0].len() > 0 {
            assert(rest[0] == gaps[0][0]);
        } else {
            assert(rest.len() == 0);
        }
        token_len_of_front(first, rest, commas);
        assert(whole.take(first.len() as int) =~= first);
        assert(whole.skip(first.len() as int) =~= rest);
        assert(seq![first] + tail =~= parts);
    }
}

/// The three texts one after the other.
pub fn chained(first: &str, second: &str, third: &str) -> (r: String)
    ensures
        r@ == first@ + second@ + third@,
{
    let mut out = first.to_owned();
    out.append(second);
    out.append(third);
    out
}

/// The decimal digit for `d`.
pub open spec fn digit(d: nat) -> char
    recommends
        d < 10,
{
    ('0' as int + d) as char
}

/// `n` written in decimal, without leading zeros.
pub open spec fn decimal(n: nat) -> Seq<char>
    decreases n,
{
    if n < 10 {
        seq![digit(n)]
    } else {
        decimal(n / 10).push(digit(n % 10))
    }
}

/// `n` written in decimal.
pub fn decimal_of(n: u64) -> (r: String)
    ensures
        r@ == decimal(n as nat),
    decreases n,
{
    let last: u8 = (n % 10) as u8;
    let c: char = (48u8 + last) as char;
    let mut out = if n < 10 {
        String::new()
    } else {
        decimal_of(n / 10)
    };
    out.push(c);
    assert(n < 10 ==> seq![c] =~= out@);
    out
}

/// Whether every character of `text` is an ASCII decimal digit.
pub open spec fn all_digits(text: Seq<char>) -> bool {
    forall|i: int| 0 <= i < text.len() ==> '0' <= #[trigger] text[i] <= '9'
}

/// The number that a run of decimal digits writes.
pub open spec fn digits_value(text: Seq<char>) -> nat
    decreases text.len(),
{
    if text.len() == 0 {
        0
    } else {
        digits_value(text.drop_last()) * 10 + (text.last() as nat - '0' as nat) as nat
    }
}

/// The number that `text` writes: an optional plus sign and then at least one
/// digit, and nothing else.
pub open spec fn number_of(text: Seq<char>) -> Option<nat> {
    let digits = if text.len() > 0 && text[0] == '+' {
        text.drop_first()
    } else {
        text
    };
    if digits.len() > 0 && all_digits(digits) {
        Some(digits_value(digits))
    } else {
        None
    }
}

/// A longer run of digits writes no smaller a number.
proof fn digits_value_grows(text: Seq<char>, n: int)
    requires
        0 <= n <= text.len(),
    ensures
        digits_value(text.take(n)) <= digits_value(text),
    decreases text.len(),
{
    if n < text.len() {
        digits_value_grows(text.drop_last(), n);
        assert(text.drop_last().take(n) =~= text.take(n));
    } else {
        assert(text.take(n) =~= text);
    }
}

/// The number that `text` writes, where it fits.
pub fn parse_number(text: &str) -> (r: Option<usize>)
    ensures
        match r {
            Some(n) => number_of(text@) == Some(n as nat),
            None => match number_of(text@) {
                Some(n) => n > usize::MAX,
                None => true,
            },
        },
{
    let chars = chars_of(text);
    let start: usize = if chars.len() > 0 && chars[0] == '+' {
        1
    } else {
        0
    };
    let ghost digits = chars@.skip(start as int);
    proof {
        assert(start == 0 ==> digits =~= chars@);
        assert(start == 1 ==> digits =~= chars@.drop_first());
    }
    if start == chars.len() {
        return None;
    }
    let mut value: usize = 0;
    let mut i: usize = start;
    while i < chars.len()
        invariant
            chars@ == text@,
            start <= i <= chars@.len(),
            start < chars@.len(),
            digits == chars@.skip(start as int),
            digits == (if text@.len() > 0 && text@[0] == '+' {
                text@.drop_first()
            } else {
                text@
            }),
            all_digits(digits.take(i - start)),
            value == digits_value(digits.take(i - start)),
        decreases chars@.len() - i,
    {
        let c = chars[i];
        assert(digits[i - start] == c);
        if c < '0' || c > '9' {
            assert(!all_digits(digits));
            return None;
        }
        let d: usize = c as usize - 48;
        proof {
            let next = digits.take(i - start + 1);
            assert(next.drop_last() =~= digits.take(i - start));
            assert(digits_value(next) == value * 10 + d);
            digits_value_grows(digits, i - start + 1);
        }
        if value > (usize::MAX - d) / 10 {
            return None;
        }
        value = value * 10 + d;
        i = i + 1;
    }
    assert(digits.take(i - start) =~= digits);
    Some(value)
}

/// What is written in decimal reads back as the number that was written.
pub proof fn decimal_reads_back(n: nat)
    ensures
        decimal(n).len() > 0,
        all_digits(decimal(n)),
        digits_value(decimal(n)) == n,
        number_of(decimal(n)) == Some(n),
    decreases n,
{
    if n >= 10 {
        decimal_reads_back(n / 10);
        assert(decimal(n).drop_last() =~= decimal(n / 10));
    } else {
        assert(decimal(n).drop_last() =~= Seq::<char>::empty());
        assert(digits_value(decimal(n).drop_last()) == 0);
    }
    assert(decimal(n)[0] != '+');
}

/// Whether `text` is `needle` with something before and behind it.
pub open spec fn surrounds(text: Seq<char>, needle: Seq<char>) -> bool {
    exists|front: Seq<char>, back: Seq<char>| text == #[trigger] (front + needle + back)
}

/// What occurs in a text is what the text surrounds.
pub proof fn occurring_is_being_surrounded(needle: Seq<char>, text: Seq<char>)
    ensures
        occurs(needle, text) == surrounds(text, needle),
{
    if occurs(needle, text) {
        let i = choose|i: int|
            0 <= i <= text.len() - needle.len() && #[trigger] text.subrange(i, i + needle.len())
                == needle;
        let front = text.subrange(0, i);
        let back = text.subrange(i + needle.len(), text.len() as int);
        assert(text =~= front + needle + back);
    }
    if surrounds(text, needle) {
        let (front, back) = choose|front: Seq<char>, back: Seq<char>|
            text == #[trigger] (front + needle + back);
        let at = front.len() as int;
        assert(text.subrange(at, at + needle.len()) =~= needle);
    }
}

/// A search finds a text wherever it stands, and finds nothing that is not
/// there.
pub proof fn searches_find_what_is_there(text: &str, needle: &str, found: bool)
    requires
        call_ensures(contains, (text, needle), found),
    ensures
        found == surrounds(text@, needle@),
{
    occurring_is_being_surrounded(needle@, text@);
}

/// A prefix that is put before a text is what is taken off it, and nothing is
/// taken off a text that does not begin with the prefix.
pub proof fn prefixes_come_off(text: &str, prefix: &str, rest: Option<String>)
    requires
        call_ensures(strip_prefix, (text, prefix), rest),
    ensures
        forall|tail: Seq<char>| text@ == #[trigger] (prefix@ + tail) ==> rest is Some && rest->0@
            == tail,
        rest is Some ==> text@ == prefix@ + rest->0@,
{
    assert forall|tail: Seq<char>| text@ == #[trigger] (prefix@ + tail) implies rest is Some
        && rest->0@ == tail by {
        if rest is Some {
            assert((prefix@ + tail).skip(prefix@.len() as int) =~= tail);
            assert((prefix@ + rest->0@).skip(prefix@.len() as int) =~= rest->0@);
        }
    }
}

/// Whether every character of `text` is white space.
pub open spec fn blank(text: Seq<char>) -> bool {
    forall|i: int| 0 <= i < text.len() ==> white_space(#[trigger] text[i])
}

/// Whether `text` is `kept` with nothing but white space before and behind it.
pub open spec fn pads(text: Seq<char>, kept: Seq<char>) -> bool {
    exists|front: Seq<char>, back: Seq<char>|
        text == #[trigger] (front + kept + back) && blank(front) && blank(back)
}

proof fn front_is_blank(text: Seq<char>) -> (front: Seq<char>)
    ensures
        blank(front),
        text == front + trimmed_front(text),
        trimmed_front(text).len() > 0 ==> !white_space(trimmed_front(text)[0]),
    decreases text.len(),
{
    if text.len() > 0 && white_space(text[0]) {
        let rest = front_is_blank(text.drop_first());
        let front = seq![text[0]] + rest;
        let kept = trimmed_front(text);
        assert(text =~= seq![text[0]] + text.drop_first());
        assert(text =~= front + kept);
        front
    } else {
        assert(text =~= Seq::<char>::empty() + text);
        Seq::empty()
    }
}

proof fn back_is_blank(text: Seq<char>) -> (back: Seq<char>)
    ensures
        blank(back),
        text == trimmed_back(text) + back,
        trimmed_back(text).len() > 0 ==> !white_space(trimmed_back(text).last()),
    decreases text.len(),
{
    if text.len() > 0 && white_space(text.last()) {
        let rest = back_is_blank(text.drop_last());
        let back = rest.push(text.last());
        let kept = trimmed_back(text);
        assert(text =~= text.drop_last().push(text.last()));
        assert(text =~= kept + back);
        back
    } else {
        assert(text =~= text + Seq::<char>::empty());
        Seq::empty()
    }
}

/// Trimming takes off white space and nothing else, and leaves none at either
/// end.
pub proof fn trimming_takes_off_white_space(text: &str, kept: String)
    requires
        call_ensures(trim, (text,), kept),
    ensures
        pads(text@, kept@),
        kept@.len() > 0 ==> !white_space(kept@[0]) && !white_space(kept@.last()),
{
    let front = front_is_blank(text@);
    let rest = trimmed_front(text@);
    let back = back_is_blank(rest);
    assert(text@ =~= front + kept@ + back);
    if kept@.len() > 0 {
        assert(rest[0] == kept@[0]);
    }
}

/// However a text is spaced, splitting it gives its parts in order.
pub proof fn splitting_gives_the_parts(
    text: &str,
    commas: bool,
    parts: Seq<Seq<char>>,
    front: Seq<char>,
    gaps: Seq<Seq<char>>,
    split: Vec<String>,
)
    requires
        call_ensures(split_tokens, (text, commas), split),
        text@ == front + spaced(parts, gaps),
        all_clean(parts, commas),
        only_separators(front, commas),
        gaps.len() == parts.len(),
        forall|i: int| 0 <= i < gaps.len() ==> only_separators(#[trigger] gaps[i], commas),
        forall|i: int| 0 <= i < gaps.len() - 1 ==> (#[trigger] gaps[i]).len() > 0,
    ensures
        split@.len() == parts.len(),
        forall|i: int| 0 <= i < parts.len() ==> (#[trigger] split@[i])@ == parts[i],
{
    tokens_of_spaced(parts, gaps, commas);
    tokens_skip_separators(front, spaced(parts, gaps), commas);
    assert(texts(split@) == parts);
    assert forall|i: int| 0 <= i < parts.len() implies (#[trigger] split@[i])@ == parts[i] by {
        assert(texts(split@)[i] == split@[i]@);
    }
}

/// Every character that is no separator stands in a part.
pub proof fn parts_hold_every_character(text: Seq<char>, commas: bool, at: int)
    requires
        0 <= at < text.len(),
        !separates(text[at], commas),
    ensures
        exists|i: int|
            0 <= i < tokens(text, commas).len() && (#[trigger] tokens(text, commas)[i]).contains(
                text[at],
            ),
    decreases text.len(),
{
    let n = token_len(text, commas);
    let all = tokens(text, commas);
    token_len_bounded(text, commas);
    if n == 0 {
        let rest = text.drop_first();
        assert(at > 0);
        assert(rest[at - 1] == text[at]);
        parts_hold_every_character(rest, commas, at - 1);
    } else if at < n {
        assert(all[0] == text.take(n as int));
        assert(all[0][at] == text[at]);
        assert(all[0].contains(text[at]));
    } else {
        let rest = text.skip(n as int);
        let later = tokens(rest, commas);
        assert(rest[at - n] == text[at]);
        parts_hold_every_character(rest, commas, at - n);
        let i = choose|i: int| 0 <= i < later.len() && (#[trigger] later[i]).contains(text[at]);
        assert(all[i + 1] == later[i]);
    }
}

proof fn joined_grows(parts: Seq<Seq<char>>, last: Seq<char>, separator: Seq<char>)
    requires
        parts.len() > 0,
    ensures
        joined(parts.push(last), separator) == joined(parts, separator) + separator + last,
    decreases parts.len(),
{
    let more = parts.push(last);
    if parts.len() == 1 {
        assert(more.drop_first() =~= seq![last]);
        assert(joined(more.drop_first(), separator) == last);
    } else {
        assert(more.drop_first() =~= parts.drop_first().push(last));
        joined_grows(parts.drop_first(), last, separator);
        assert(joined(more, separator) =~= joined(parts, separator) + separator + last);
    }
}

/// Joining nothing gives nothing, joining one part gives the part, and one more
/// part comes at the end, behind one more separator.
pub proof fn joining_puts_separators_between(
    parts: &Vec<String>,
    more: &Vec<String>,
    separator: &str,
    text: String,
    longer: String,
)
    requires
        call_ensures(join, (parts, separator), text),
        call_ensures(join, (more, separator), longer),
        more@.len() == parts@.len() + 1,
        forall|i: int| 0 <= i < parts@.len() ==> (#[trigger] more@[i])@ == parts@[i]@,
    ensures
        parts@.len() == 0 ==> text@.len() == 0 && longer@ == more@[0]@,
        parts@.len() > 0 ==> longer@ == text@ + separator@ + more@.last()@,
{
    assert(texts(more@) =~= texts(parts@).push(more@.last()@));
    if parts@.len() > 0 {
        joined_grows(texts(parts@), more@.last()@, separator@);
    }
}

/// A digit is written as itself, and a number of more digits as the number
/// without its last digit and then that digit.
pub proof fn numbers_are_written_digit_by_digit(n: u64, front: String, d: u64, text: String)
    requires
        d < 10,
        n * 10 + d <= u64::MAX,
        call_ensures(decimal_of, (n,), front),
        call_ensures(decimal_of, ((n * 10 + d) as u64,), text),
    ensures
        n == 0 ==> text@ == seq![('0' as int + d) as char],
        n > 0 ==> text@ == front@.push(('0' as int + d) as char),
{
    if n > 0 {
        assert((n * 10 + d) / 10 == n);
        assert((n * 10 + d) % 10 == d);
    }
}

proof fn number_grows(text: Seq<char>, c: char)
    requires
        '0' <= c <= '9',
        text.len() > 0,
        text != seq!['+'],
    ensures
        number_of(text) is Some == number_of(text.push(c)) is Some,
        number_of(text) is Some ==> number_of(text.push(c))->0 == number_of(text)->0 * 10 + (
        c as nat - '0' as nat),
{
    let more = text.push(c);
    let digits = if text[0] == '+' {
        text.drop_first()
    } else {
        text
    };
    let longer = if more[0] == '+' {
        more.drop_first()
    } else {
        more
    };
    assert(more[0] == text[0]);
    assert(longer =~= digits.push(c));
    assert(longer.drop_last() =~= digits);
    if digits.len() == 0 {
        assert(text =~= seq!['+']);
    }
    if all_digits(digits) {
        assert(all_digits(longer));
    }
    if all_digits(longer) {
        assert forall|i: int| 0 <= i < digits.len() implies '0' <= #[trigger] digits[i] <= '9' by {
            assert(longer[i] == digits[i]);
        }
    }
}

/// One more digit makes ten times the number and the digit, where that fits.
/// Where it does not, or where there was no number, there is none.
pub proof fn numbers_are_read_digit_by_digit(
    text: &str,
    more: &str,
    d: nat,
    number: Option<usize>,
    larger: Option<usize>,
)
    requires
        d < 10,
        text@.len() > 0,
        text@ != seq!['+'],
        more@ == text@.push(('0' as int + d) as char),
        call_ensures(parse_number, (text,), number),
        call_ensures(parse_number, (more,), larger),
    ensures
        number is Some && number->0 * 10 + d <= usize::MAX ==> larger is Some && larger->0
            == number->0 * 10 + d,
        number is None || number->0 * 10 + d > usize::MAX ==> larger is None,
{
    number_grows(text@, ('0' as int + d) as char);
}

/// A digit is read as itself, with a plus sign before it or not.
pub proof fn digits_are_read(text: &str, d: nat, number: Option<usize>)
    requires
        d < 10,
        text@ == seq![('0' as int + d) as char] || text@ == seq!['+', ('0' as int + d) as char],
        call_ensures(parse_number, (text,), number),
    ensures
        number is Some && number->0 == d,
{
    let c = ('0' as int + d) as char;
    let digits = seq![c];
    assert(seq!['+', c].drop_first() =~= digits);
    assert(digits.drop_last() =~= Seq::<char>::empty());
    assert(digits_value(digits.drop_last()) == 0);
    assert(digits_value(digits) == d);
    assert(all_digits(digits));
    assert(number_of(text@) == Some(d));
}

/// Nothing is a number that is empty, a plus sign alone, or holds anything but
/// digits behind an optional plus sign.
pub proof fn only_digits_are_numbers(text: &str, at: int, number: Option<usize>)
    requires
        text@.len() == 0 || text@ == seq!['+'] || (0 <= at < text@.len() && !('0' <= text@[at]
            <= '9') && (at > 0 || text@[0] != '+')),
        call_ensures(parse_number, (text,), number),
    ensures
        number is None,
{
    let digits = if text@.len() > 0 && text@[0] == '+' {
        text@.drop_first()
    } else {
        text@
    };
    if text@.len() > 0 && text@ != seq!['+'] {
        if text@[0] == '+' {
            assert(digits[at - 1] == text@[at]);
        }
        assert(!all_digits(digits));
    }
}

/// What a list of strings, or an optional one, holds.
pub proof fn views_of_strings(strings: Seq<String>, some: String, slice: &str)
    ensures
        texts(strings).len() == strings.len(),
        forall|i: int| 0 <= i < strings.len() ==> (#[trigger] texts(strings)[i]) == strings[i]@,
        text_option(None) is None,
        text_option(Some(some)) == Some(some@),
        str_option(None) is None,
        str_option(Some(slice)) == Some(slice@),
{
}

/// What separates parts is white space, and a comma where commas do, and nothing
/// else: no part holds such a character or is empty, and every other character
/// stands in a part.
pub proof fn only_white_space_and_commas_separate(
    text: &str,
    commas: bool,
    split: Vec<String>,
    i: int,
    k: int,
    at: int,
)
    requires
        call_ensures(split_tokens, (text, commas), split),
    ensures
        0 <= i < split@.len() ==> split@[i]@.len() > 0,
        0 <= i < split@.len() && 0 <= k < split@[i]@.len() ==> !white_space(split@[i]@[k]) && !(
        commas && split@[i]@[k] == ','),
        0 <= at < text@.len() && !white_space(text@[at]) && !(commas && text@[at] == ',')
            ==> exists|j: int|
            0 <= j < split@.len() && (#[trigger] split@[j])@.contains(text@[at]),
{
    let parts = tokens(text@, commas);
    assert(texts(split@) == parts);
    tokens_are_clean(text@, commas);
    if 0 <= i < split@.len() {
        assert(texts(split@)[i] == split@[i]@);
        assert(parts[i].len() > 0 && unbroken(parts[i], commas));
        if 0 <= k < split@[i]@.len() {
            assert(!separates(parts[i][k], commas));
        }
    }
    if 0 <= at < text@.len() && !white_space(text@[at]) && !(commas && text@[at] == ',') {
        parts_hold_every_character(text@, commas, at);
        let j = choose|j: int| 0 <= j < parts.len() && (#[trigger] parts[j]).contains(text@[at]);
        assert(texts(split@)[j] == split@[j]@);
        assert(split@[j]@.contains(text@[at]));
    }
}

}

//! How texts are taken apart and put together.
use vstd::prelude::*;
use crate::text;

verus! {

/// What is left of a text without the white space around it is a part of it:
/// everything before that part and behind it is white space, and the part
/// neither starts nor ends with any.
pub proof fn trimming_takes_white_space_off_both_ends(t: Seq<char>)
    ensures
        exists|from: int, to: int|
            {
                &&& 0 <= from <= to <= t.len()
                &&& text::trimmed(t) == #[trigger] t.subrange(from, to)
                &&& forall|i: int| 0 <= i < from ==> text::white(#[trigger] t[i])
                &&& forall|i: int| to <= i < t.len() ==> text::white(#[trigger] t[i])
            },
        text::trimmed(t).len() > 0 ==> !text::white(text::trimmed(t)[0]) && !text::white(
            text::trimmed(t).last(),
        ),
        text::trimmed(t).len() == 0 <==> forall|i: int|
            0 <= i < t.len() ==> text::white(#[trigger] t[i]),
{
    let from = the_start_is_taken_off(t);
    let rest = text::without_lead(t);
    let to = the_end_is_taken_off(rest);
    assert(text::trimmed(t) =~= t.subrange(from, from + to));
    assert forall|i: int| from + to <= i < t.len() implies text::white(#[trigger] t[i]) by {
        assert(rest[i - from] == t[i]);
    }
    if rest.len() > 0 {
        assert(!text::white(rest[0]));
        assert(to > 0) by {
            if to == 0 {
                assert(text::white(rest[0]));
            }
        }
        assert(text::trimmed(t)[0] == rest[0]);
        assert(t[from] == rest[0]);
    } else {
        assert(from == t.len());
    }
}

proof fn the_start_is_taken_off(t: Seq<char>) -> (from: int)
    ensures
        0 <= from <= t.len(),
        text::without_lead(t) == t.skip(from),
        forall|i: int| 0 <= i < from ==> text::white(#[trigger] t[i]),
        from < t.len() ==> !text::white(t[from]),
    decreases t.len(),
{
    if t.len() > 0 && text::white(t[0]) {
        let rest = t.drop_first();
        let from = the_start_is_taken_off(rest);
        assert(rest.skip(from) =~= t.skip(from + 1));
        assert forall|i: int| 0 <= i < from + 1 implies text::white(#[trigger] t[i]) by {
            if i > 0 {
                assert(rest[i - 1] == t[i]);
            }
        }
        if from < rest.len() {
            assert(rest[from] == t[from + 1]);
        }
        from + 1
    } else {
        assert(t.skip(0) =~= t);
        0
    }
}

proof fn the_end_is_taken_off(t: Seq<char>) -> (to: int)
    ensures
        0 <= to <= t.len(),
        text::without_trail(t) == t.take(to),
        forall|i: int| to <= i < t.len() ==> text::white(#[trigger] t[i]),
        to > 0 ==> !text::white(t[to - 1]),
    decreases t.len(),
{
    if t.len() > 0 && text::white(t.last()) {
        let rest = t.drop_last();
        let to = the_end_is_taken_off(rest);
        assert(rest.take(to) =~= t.take(to));
        assert forall|i: int| to <= i < t.len() implies text::white(#[trigger] t[i]) by {
            if i < rest.len() {
                assert(rest[i] == t[i]);
            }
        }
        if to > 0 {
            assert(rest[to - 1] == t[to - 1]);
        }
        to
    } else {
        assert(t.take(t.len() as int) =~= t);
        t.len() as int
    }
}

/// Of the ASCII characters, the tab, the line feed, the vertical tab, the form
/// feed, the carriage return and the space are white space, and no other is;
/// beyond ASCII, so are the other separators and the next-line character.
pub proof fn white_space_is_what_separates(c: char)
    ensures
        c as u32 <= 0x7f ==> (text::white(c) <==> c == '\t' || c == '\n' || c as u32 == 0xb
            || c as u32 == 0xc || c == '\r' || c == ' '),
        c as u32 > 0x7f ==> (text::white(c) <==> c == '\u{85}' || c == '\u{a0}' || c == '\u{1680}'
            || '\u{2000}' <= c <= '\u{200a}' || c == '\u{2028}' || c == '\u{2029}' || c
            == '\u{202f}' || c == '\u{205f}' || c == '\u{3000}'),
{
}

/// Pieces are put together with the separator between any two of them, and
/// neither before the first nor behind the last.
pub proof fn pieces_are_joined_in_order(
    first: Seq<Seq<char>>,
    second: Seq<Seq<char>>,
    piece: Seq<char>,
    separator: Seq<char>,
)
    ensures
        text::joined(Seq::empty(), separator).len() == 0,
        text::joined(seq![piece], separator) == piece,
        first.len() > 0 && second.len() > 0 ==> text::joined(first + second, separator)
            == text::joined(first, separator) + separator + text::joined(second, separator),
    decreases second.len(),
{
    if first.len() > 0 && second.len() > 0 {
        let all = first + second;
        assert(all.drop_last() =~= first + second.drop_last());
        assert(all.last() == second.last());
        if second.len() == 1 {
            assert(first + second.drop_last() =~= first);
            assert(second[0] == second.last());
            assert(text::joined(second, separator) == second[0]);
        } else {
            pieces_are_joined_in_order(first, second.drop_last(), piece, separator);
            assert(text::joined(all, separator) =~= text::joined(first, separator) + separator
                + text::joined(second, separator));
        }
    }
}

/// A number is written with its last digit last: a further digit multiplies
/// what is before it by ten.
pub proof fn numbers_are_written_in_decimal(n: nat, d: nat)
    requires
        d < 10,
    ensures
        text::decimal(d).len() == 1,
        text::decimal(d)[0] as nat == '0' as nat + d,
        n > 0 ==> text::decimal(n * 10 + d) == text::decimal(n) + text::decimal(d),
{
    assert(n > 0 ==> (n * 10 + d) / 10 == n && (n * 10 + d) % 10 == d);
    assert(text::decimal(d) =~= seq![text::digit(d)]);
    if n > 0 {
        assert(text::decimal(n * 10 + d) =~= text::decimal(n) + text::decimal(d));
    }
}

/// Digits stand for the number they write: a further digit counts once, and
/// what is before it ten times.
pub proof fn digits_are_read_in_decimal(digits: Seq<char>, c: char)
    requires
        '0' <= c <= '9',
    ensures
        text::digits_value(Seq::empty()) == 0,
        text::digits_value(digits.push(c)) == text::digits_value(digits) * 10 + (c as nat
            - '0' as nat),
{
    assert(digits.push(c).drop_last() =~= digits);
}

/// Digits stand for their number, with a plus sign for the same and with a
/// minus sign for the opposite; nothing else stands for a number.
pub proof fn numbers_are_read_with_their_sign(t: Seq<char>)
    ensures
        text::is_digits(t) <==> t.len() > 0 && forall|i: int|
            0 <= i < t.len() ==> '0' <= #[trigger] t[i] <= '9',
        text::is_digits(t) ==> text::integer_in(t) == Some(text::digits_value(t) as int)
            && text::natural_in(t) == Some(text::digits_value(t)),
        text::is_digits(t) ==> text::integer_in(seq!['-'] + t) == Some(
            -(text::digits_value(t) as int),
        ) && text::natural_in(seq!['-'] + t) is None,
        text::is_digits(t) ==> text::integer_in(seq!['+'] + t) == Some(
            text::digits_value(t) as int,
        ) && text::natural_in(seq!['+'] + t) == Some(text::digits_value(t)),
        !text::is_digits(t) && (t.len() == 0 || (t[0] != '+' && t[0] != '-')) ==> text::integer_in(
            t,
        ) is None && text::natural_in(t) is None,
        t.len() > 0 && !text::is_digits(t.skip(1)) && !text::is_digits(t) ==> text::integer_in(t)
            is None && text::natural_in(t) is None,
{
    let minus = seq!['-'] + t;
    let plus = seq!['+'] + t;
    assert(minus.skip(1) =~= t);
    assert(plus.skip(1) =~= t);
    assert(minus[0] == '-' && plus[0] == '+');
}

/// A text is filled up with spaces to the width asked for, behind what it says;
/// one that is as long or longer is left as it is.
pub proof fn texts_are_filled_up_on_the_right(t: Seq<char>, width: nat)
    ensures
        text::padded(t, width).take(t.len() as int) == t,
        text::padded(t, width).len() == if t.len() < width {
            width
        } else {
            t.len()
        },
        forall|i: int|
            t.len() <= i < text::padded(t, width).len() ==> #[trigger] text::padded(t, width)[i]
                == ' ',
{
    assert(text::padded(t, width).take(t.len() as int) =~= t);
}

/// A name is put behind a path with one slash between them, which the path may
/// have already.
pub proof fn paths_are_joined_with_one_slash(path: Seq<char>, name: Seq<char>)
    ensures
        text::path_join(path + seq!['/'], name) == path + seq!['/'] + name,
        path.len() > 0 && path.last() != '/' ==> text::path_join(path, name) == path + seq!['/']
            + name,
        path.len() == 0 ==> text::path_join(path, name) == name,
{
    let p = path + seq!['/'];
    assert(p.last() == '/');
    reveal_strlit("/");
    assert("/"@ =~= seq!['/']);
    if path.len() == 0 {
        assert(text::path_join(path, name) =~= name);
    }
}

/// White space in front of a text adds no word. A word that white space ends is
/// the first, and the others are those of what follows it; at the end of a text
/// nothing has to end it.
pub proof fn words_are_what_white_space_separates(word: Seq<char>, c: char, t: Seq<char>)
    requires
        text::white(c),
    ensures
        text::words_of(Seq::empty()) == Seq::<Seq<char>>::empty(),
        text::words_of(seq![c] + t) == text::words_of(t),
        word.len() > 0 && (forall|i: int| 0 <= i < word.len() ==> !text::white(#[trigger] word[i]))
            ==> text::words_of(word) == seq![word] && text::words_of(word + seq![c] + t)
            == seq![word] + text::words_of(t),
{
    let empty = Seq::<char>::empty();
    assert(text::words_of(empty) =~= Seq::<Seq<char>>::empty());
    let led = seq![c] + t;
    assert(led.drop_first() =~= t);
    assert(text::without_lead(led) == text::without_lead(t));
    if word.len() > 0 && (forall|i: int|
        0 <= i < word.len() ==> !text::white(#[trigger] word[i])) {
        let all = word + seq![c] + t;
        assert(all[0] == word[0]);
        a_word_ends_at_white_space(word, seq![c] + t);
        assert(word + (seq![c] + t) =~= all);
        assert(all.take(word.len() as int) =~= word);
        assert(all.skip(word.len() as int) =~= led);
        assert(text::words_of(all) == seq![word] + text::words_of(led));
        a_word_ends_at_white_space(word, empty);
        assert(word + empty =~= word);
        assert(word.take(word.len() as int) =~= word);
        assert(word.skip(word.len() as int) =~= empty);
        assert(text::words_of(word) =~= seq![word]);
    }
}

proof fn a_word_ends_at_white_space(word: Seq<char>, rest: Seq<char>)
    requires
        forall|i: int| 0 <= i < word.len() ==> !text::white(#[trigger] word[i]),
        rest.len() == 0 || text::white(rest[0]),
    ensures
        text::word_length(word + rest) == word.len(),
    decreases word.len(),
{
    let all = word + rest;
    if word.len() > 0 {
        assert(all[0] == word[0]);
        assert(all.drop_first() =~= word.drop_first() + rest);
        assert forall|i: int| 0 <= i < word.drop_first().len() implies !text::white(
            #[trigger] word.drop_first()[i],
        ) by {
            assert(word.drop_first()[i] == word[i + 1]);
        }
        a_word_ends_at_white_space(word.drop_first(), rest);
    } else {
        assert(all =~= rest);
    }
}

/// A line ends at a line feed, with which a carriage return before it goes; the
/// others are those of what follows it. The last line may lack its line feed,
/// and is then left as it is.
pub proof fn lines_end_at_line_feeds(line: Seq<char>, t: Seq<char>)
    requires
        forall|i: int| 0 <= i < line.len() ==> #[trigger] line[i] != '\n',
    ensures
        text::lines_of(Seq::empty()) == Seq::<Seq<char>>::empty(),
        line.len() > 0 ==> text::lines_of(line) == seq![line],
        line.len() == 0 || line.last() != '\r' ==> text::lines_of(line + seq!['\n'] + t)
            == seq![line] + text::lines_of(t),
        text::lines_of(line + seq!['\r', '\n'] + t) == seq![line] + text::lines_of(t),
{
    let empty = Seq::<char>::empty();
    assert(text::lines_of(empty) =~= Seq::<Seq<char>>::empty());
    if line.len() > 0 {
        a_line_ends_at_a_line_feed(line, empty);
        assert(line + empty =~= line);
        assert(line.take(line.len() as int) =~= line);
        assert(line.skip(line.len() as int) =~= empty);
        assert(line.last() != '\n');
        assert(text::lines_of(line) =~= seq![line]);
    }
    let fed = line + seq!['\n'] + t;
    a_line_ends_at_a_line_feed(line, seq!['\n'] + t);
    assert(line + (seq!['\n'] + t) =~= fed);
    let first = line + seq!['\n'];
    assert(fed.take(line.len() as int + 1) =~= first);
    assert(fed.skip(line.len() as int + 1) =~= t);
    assert(first.last() == '\n');
    assert(first.drop_last() =~= line);
    let returned = line + seq!['\r', '\n'] + t;
    let more = line.push('\r');
    assert forall|i: int| 0 <= i < more.len() implies #[trigger] more[i] != '\n' by {}
    a_line_ends_at_a_line_feed(more, seq!['\n'] + t);
    assert(more + (seq!['\n'] + t) =~= returned);
    let second = line + seq!['\r', '\n'];
    assert(returned.take(line.len() as int + 2) =~= second);
    assert(returned.skip(line.len() as int + 2) =~= t);
    assert(second.last() == '\n');
    assert(second.drop_last() =~= more);
    assert(more.last() == '\r');
    assert(more.drop_last() =~= line);
}

proof fn a_line_ends_at_a_line_feed(line: Seq<char>, rest: Seq<char>)
    requires
        forall|i: int| 0 <= i < line.len() ==> #[trigger] line[i] != '\n',
        rest.len() == 0 || rest[0] == '\n',
    ensures
        text::line_length(line + rest) == if rest.len() == 0 {
            line.len()
        } else {
            line.len() + 1
        },
    decreases line.len(),
{
    let all = line + rest;
    if line.len() > 0 {
        assert(all[0] == line[0]);
        assert(all.drop_first() =~= line.drop_first() + rest);
        assert forall|i: int| 0 <= i < line.drop_first().len() implies #[trigger] line.drop_first()[i]
            != '\n' by {
            assert(line.drop_first()[i] == line[i + 1]);
        }
        a_line_ends_at_a_line_feed(line.drop_first(), rest);
    } else {
        assert(all =~= rest);
    }
}

/// What follows a mark is everything behind the first of them; a text without
/// the mark has nothing behind it.
pub proof fn the_first_mark_counts(front: Seq<char>, mark: char, t: Seq<char>)
    requires
        forall|i: int| 0 <= i < front.len() ==> #[trigger] front[i] != mark,
    ensures
        text::after_first(front + seq![mark] + t, mark) == Some(t),
        text::after_first(front, mark) is None,
    decreases front.len(),
{
    let all = front + seq![mark] + t;
    if front.len() > 0 {
        let rest = front.drop_first();
        assert(all[0] == front[0]);
        assert(all.drop_first() =~= rest + seq![mark] + t);
        assert forall|i: int| 0 <= i < rest.len() implies #[trigger] rest[i] != mark by {
            assert(rest[i] == front[i + 1]);
        }
        the_first_mark_counts(rest, mark, t);
    } else {
        assert(all.drop_first() =~= t);
    }
}

/// Texts are ordered by the first character in which they differ; a text comes
/// before every longer one that starts with it.
pub proof fn the_first_difference_decides(
    common: Seq<char>,
    a: char,
    b: char,
    s: Seq<char>,
    t: Seq<char>,
)
    ensures
        (a as u32) < (b as u32) ==> text::before(common + seq![a] + s, common + seq![b] + t)
            && !text::before(common + seq![b] + t, common + seq![a] + s),
        text::before(common, common + seq![b] + t),
        !text::before(common + seq![b] + t, common),
        !text::before(common, common),
    decreases common.len(),
{
    let x = common + seq![a] + s;
    let y = common + seq![b] + t;
    if common.len() > 0 {
        let rest = common.drop_first();
        the_first_difference_decides(rest, a, b, s, t);
        assert(x.drop_first() =~= rest + seq![a] + s);
        assert(y.drop_first() =~= rest + seq![b] + t);
        assert(x[0] == common[0] && y[0] == common[0]);
    }
}

/// A negative number is written with a sign, any other without one.
pub proof fn only_negative_numbers_have_a_sign(n: nat)
    ensures
        text::signed_decimal(n as int) == text::decimal(n),
        n > 0 ==> text::signed_decimal(-(n as int)) == "-"@ + text::decimal(n),
{
}

/// A list of texts is shown in brackets, each text in quotes, with a comma
/// between any two of them.
pub proof fn lists_are_shown_in_brackets(texts: Seq<Seq<char>>)
    ensures
        text::quoted_list(texts) == "["@ + text::joined(
            Seq::new(texts.len(), |i: int| text::quoted_text(texts[i])),
            ", "@,
        ) + "]"@,
{
    assert(texts.map_values(|t: Seq<char>| text::quoted_text(t)) =~= Seq::new(
        texts.len(),
        |i: int| text::quoted_text(texts[i]),
    ));
}

} // verus!

//! Text as sequences of characters: comparison, rendering and the parts of
//! `std` the rest of the crate reads text with.
use vstd::prelude::*;
use vstd::string::*;

verus! {

/// `a` comes before `b`, character by character.
pub open spec fn before(a: Seq<char>, b: Seq<char>) -> bool
    decreases a.len(),
{
    if b.len() == 0 {
        false
    } else if a.len() == 0 {
        true
    } else if a[0] != b[0] {
        (a[0] as int) < (b[0] as int)
    } else {
        before(a.drop_first(), b.drop_first())
    }
}

/// `needle` occurs in `text` at position `at`.
pub open spec fn occurs_at(text: Seq<char>, needle: Seq<char>, at: int) -> bool {
    &&& 0 <= at
    &&& at + needle.len() <= text.len()
    &&& text.subrange(at, at + needle.len()) == needle
}

/// `needle` occurs somewhere in `text`.
pub open spec fn occurs(text: Seq<char>, needle: Seq<char>) -> bool {
    exists|at: int| occurs_at(text, needle, at)
}

/// The pieces with `separator` between them.
pub open spec fn joined(pieces: Seq<Seq<char>>, separator: Seq<char>) -> Seq<char>
    decreases pieces.len(),
{
    if pieces.len() == 0 {
        Seq::empty()
    } else if pieces.len() == 1 {
        pieces[0]
    } else {
        joined(pieces.drop_last(), separator) + separator + pieces.last()
    }
}

/// The decimal digit for a number below ten.
pub open spec fn digit(n: nat) -> char {
    ('0' as u32 + n) as char
}

/// A number in decimal, without leading zeros.
pub open spec fn decimal(n: nat) -> Seq<char>
    decreases n,
{
    if n < 10 {
        seq![digit(n)]
    } else {
        decimal(n / 10).push(digit(n % 10))
    }
}

/// An integer in decimal, with a sign only when it is negative.
pub open spec fn signed_decimal(n: int) -> Seq<char> {
    if n < 0 {
        "-"@ + decimal((-n) as nat)
    } else {
        decimal(n as nat)
    }
}

/// `text` followed by spaces up to `width` characters.
pub open spec fn padded(text: Seq<char>, width: nat) -> Seq<char> {
    if text.len() < width {
        text + Seq::new((width - text.len()) as nat, |i: int| ' ')
    } else {
        text
    }
}

/// `path` extended by the relative component `name`.
pub open spec fn path_join(path: Seq<char>, name: Seq<char>) -> Seq<char> {
    if path.len() == 0 || path.last() == '/' {
        path + name
    } else {
        path + "/"@ + name
    }
}

/// Whether a character is white space: whether it has the `White_Space` property
/// of Unicode.
pub open spec fn white(c: char) -> bool {
    let code = c as u32;
    ||| 0x9 <= code <= 0xd
    ||| code == 0x20
    ||| code == 0x85
    ||| code == 0xa0
    ||| code == 0x1680
    ||| 0x2000 <= code <= 0x200a
    ||| 0x2028 <= code <= 0x2029
    ||| code == 0x202f
    ||| code == 0x205f
    ||| code == 0x3000
}

/// A text without the white space at its start.
pub open spec fn without_lead(text: Seq<char>) -> Seq<char>
    decreases text.len(),
{
    if text.len() > 0 && white(text[0]) {
        without_lead(text.drop_first())
    } else {
        text
    }
}

/// A text without the white space at its end.
pub open spec fn without_trail(text: Seq<char>) -> Seq<char>
    decreases text.len(),
{
    if text.len() > 0 && white(text.last()) {
        without_trail(text.drop_last())
    } else {
        text
    }
}

/// A text without the white space around it.
pub open spec fn trimmed(text: Seq<char>) -> Seq<char> {
    without_trail(without_lead(text))
}

proof fn leading_digits_stay_before_the_end(text: Seq<char>, n: int)
    requires
        0 < n <= text.len(),
        is_digits(text.take(n)),
    ensures
        n <= without_trail(text).len() <= text.len(),
        without_trail(text) == text.take(without_trail(text).len() as int),
    decreases text.len(),
{
    if white(text.last()) {
        if n == text.len() {
            assert(text.take(n)[n - 1] == text.last());
        } else {
            assert(text.drop_last().take(n) =~= text.take(n));
            leading_digits_stay_before_the_end(text.drop_last(), n);
            let kept = without_trail(text.drop_last());
            assert(text.drop_last().take(kept.len() as int) =~= text.take(kept.len() as int));
        }
    } else {
        assert(text.take(text.len() as int) =~= text);
    }
}

/// A text that starts with digits still does without the white space around it.
pub proof fn leading_digits_stay(text: Seq<char>, n: int)
    requires
        0 < n <= text.len(),
        is_digits(text.take(n)),
    ensures
        n <= trimmed(text).len(),
        trimmed(text) == text.take(trimmed(text).len() as int),
{
    assert(text.take(n)[0] == text[0]);
    leading_digits_stay_before_the_end(text, n);
}

/// The number of characters up to the first white space.
pub open spec fn word_length(text: Seq<char>) -> nat
    decreases text.len(),
{
    if text.len() == 0 || white(text[0]) {
        0
    } else {
        1 + word_length(text.drop_first())
    }
}

/// What follows the white space at the start of a text is no longer than the
/// text, and starts with a word if it is not empty.
pub proof fn words_are_bounded(text: Seq<char>)
    ensures
        without_lead(text).len() <= text.len(),
        word_length(text) <= text.len(),
        without_lead(text).len() > 0 ==> word_length(without_lead(text)) > 0,
    decreases text.len(),
{
    if text.len() > 0 {
        words_are_bounded(text.drop_first());
    }
}

/// The words of a text: its longest pieces without white space.
pub open spec fn words_of(text: Seq<char>) -> Seq<Seq<char>>
    decreases text.len(),
{
    let rest = without_lead(text);
    if rest.len() == 0 {
        Seq::empty()
    } else {
        proof {
            words_are_bounded(text);
            words_are_bounded(rest);
        }
        seq![rest.take(word_length(rest) as int)] + words_of(rest.skip(word_length(rest) as int))
    }
}

/// What `str::to_lowercase` makes of a text.
pub uninterp spec fn lowercase(text: Seq<char>) -> Seq<char>;

/// A text as `{:?}` shows it, in quotes and with escapes.
pub uninterp spec fn quoted_text(text: Seq<char>) -> Seq<char>;

/// A path as `{:?}` shows it, in quotes and with escapes.
pub uninterp spec fn quoted_path_text(path: Seq<char>) -> Seq<char>;

/// The text of some bytes, with a mark in place of what is not UTF-8.
pub uninterp spec fn lossy_text(bytes: Seq<u8>) -> Seq<char>;

/// The number of characters up to the first line feed and with it; all of them
/// where there is none.
pub open spec fn line_length(text: Seq<char>) -> nat
    decreases text.len(),
{
    if text.len() == 0 {
        0
    } else if text[0] == '\n' {
        1
    } else {
        1 + line_length(text.drop_first())
    }
}

/// A text that is not empty has a first line, which is no longer than the text.
pub proof fn line_length_is_bounded(text: Seq<char>)
    ensures
        line_length(text) <= text.len(),
        text.len() > 0 ==> line_length(text) > 0,
    decreases text.len(),
{
    if text.len() > 0 {
        line_length_is_bounded(text.drop_first());
    }
}

/// A line without the line feed at its end and the carriage return before it.
pub open spec fn unbroken(line: Seq<char>) -> Seq<char> {
    if line.len() > 0 && line.last() == '\n' {
        let line = line.drop_last();
        if line.len() > 0 && line.last() == '\r' {
            line.drop_last()
        } else {
            line
        }
    } else {
        line
    }
}

/// The lines of a text.
pub open spec fn lines_of(text: Seq<char>) -> Seq<Seq<char>>
    decreases text.len(),
{
    if text.len() == 0 {
        Seq::empty()
    } else {
        proof {
            line_length_is_bounded(text);
        }
        seq![unbroken(text.take(line_length(text) as int))] + lines_of(
            text.skip(line_length(text) as int),
        )
    }
}

/// What follows the first `mark` in a text, if there is one.
pub open spec fn after_first(text: Seq<char>, mark: char) -> Option<Seq<char>>
    decreases text.len(),
{
    if text.len() == 0 {
        None
    } else if text[0] == mark {
        Some(text.drop_first())
    } else {
        after_first(text.drop_first(), mark)
    }
}

/// Texts as `{:?}` shows a list of them.
pub open spec fn quoted_list(texts: Seq<Seq<char>>) -> Seq<char> {
    "["@ + joined(texts.map_values(|t: Seq<char>| quoted_text(t)), ", "@) + "]"@
}

/// The number a sequence of decimal digits stands for.
pub open spec fn digits_value(digits: Seq<char>) -> nat
    decreases digits.len(),
{
    if digits.len() == 0 {
        0
    } else {
        digits_value(digits.drop_last()) * 10 + (digits.last() as nat - '0' as nat) as nat
    }
}

/// One or more decimal digits.
pub open spec fn is_digits(text: Seq<char>) -> bool {
    &&& text.len() > 0
    &&& forall|i: int| 0 <= i < text.len() ==> '0' <= #[trigger] text[i] <= '9'
}

/// The integer a text stands for: digits with an optional sign.
pub open spec fn integer_in(text: Seq<char>) -> Option<int> {
    if is_digits(text) {
        Some(digits_value(text) as int)
    } else if text.len() > 0 && text[0] == '+' && is_digits(text.skip(1)) {
        Some(digits_value(text.skip(1)) as int)
    } else if text.len() > 0 && text[0] == '-' && is_digits(text.skip(1)) {
        Some(-(digits_value(text.skip(1)) as int))
    } else {
        None
    }
}

/// The natural number a text stands for: digits, possibly after a plus sign.
pub open spec fn natural_in(text: Seq<char>) -> Option<nat> {
    if is_digits(text) {
        Some(digits_value(text))
    } else if text.len() > 0 && text[0] == '+' && is_digits(text.skip(1)) {
        Some(digits_value(text.skip(1)))
    } else {
        None
    }
}

/// The characters of a text, one after the other.
fn characters(text: &str) -> (r: Vec<char>)
    ensures
        r@ == text@,
{
    broadcast use vstd::string::axiom_spec_iter;

    let mut out: Vec<char> = Vec::new();
    for c in iter: text.chars()
        invariant
            iter.seq() == text@,
            out@ == text@.take(iter.index()),
    {
        out.push(c);
        assert(text@.take(iter.index() + 1) =~= text@.take(iter.index()).push(c));
    }
    assert(text@.take(text@.len() as int) =~= text@);
    out
}

/// Whether two texts hold the same characters.
pub(crate) fn same(a: &str, b: &str) -> (r: bool)
    ensures
        r == (a@ == b@),
{
    let x = characters(a);
    let y = characters(b);
    if x.len() != y.len() {
        return false;
    }
    assert(x@.subrange(0, y@.len() as int) =~= x@);
    found_at(&x, &y, 0)
}

/// Whether the second text occurs in the first at a position.
fn found_at(text: &Vec<char>, needle: &Vec<char>, at: usize) -> (r: bool)
    requires
        at + needle@.len() <= text@.len(),
    ensures
        r == occurs_at(text@, needle@, at as int),
{
    let n: usize = text.len();
    let mut i: usize = 0;
    while i < needle.len()
        invariant
            i <= needle@.len(),
            at + needle@.len() <= n,
            n == text@.len(),
            forall|j: int| 0 <= j < i ==> text@[at + j] == #[trigger] needle@[j],
        decreases needle.len() - i,
    {
        if text[at + i] != needle[i] {
            assert(text@.subrange(at as int, at + needle@.len())[i as int] != needle@[i as int]);
            return false;
        }
        i = i + 1;
    }
    assert(text@.subrange(at as int, at + needle@.len()) =~= needle@);
    true
}

/// Whether `needle` is a part of `text`.
pub(crate) fn contains(text: &str, needle: &str) -> (r: bool)
    ensures
        r == occurs(text@, needle@),
{
    let whole = characters(text);
    let part = characters(needle);
    if whole.len() < part.len() {
        return false;
    }
    let last: usize = whole.len() - part.len();
    let mut at: usize = 0;
    while at <= last
        invariant
            whole@ == text@,
            part@ == needle@,
            last + part@.len() == whole@.len(),
            at <= last + 1,
            forall|k: int| 0 <= k < at ==> !occurs_at(text@, needle@, k),
        decreases last + 1 - at,
    {
        if found_at(&whole, &part, at) {
            return true;
        }
        if at == last {
            return false;
        }
        at = at + 1;
    }
    false
}

fn is_white(c: char) -> (r: bool)
    ensures
        r == white(c),
{
    let code: u32 = c as u32;
    (0x9 <= code && code <= 0xd) || code == 0x20 || code == 0x85 || code == 0xa0 || code == 0x1680
        || (0x2000 <= code && code <= 0x200a) || code == 0x2028 || code == 0x2029 || code == 0x202f
        || code == 0x205f || code == 0x3000
}

/// The text without the white space around it.
pub fn trim(text: &str) -> (r: &str)
    ensures
        r@ == trimmed(text@),
        r@.len() <= text@.len(),
{
    let n: usize = text.unicode_len();
    let mut start: usize = 0;
    assert(text@.skip(0) =~= text@);
    while start < n && is_white(text.get_char(start))
        invariant
            n == text@.len(),
            start <= n,
            without_lead(text@) == without_lead(text@.skip(start as int)),
        ensures
            n == text@.len(),
            start <= n,
            without_lead(text@) == text@.skip(start as int),
        decreases n - start,
    {
        assert(text@.skip(start as int)[0] == text@[start as int]);
        assert(text@.skip(start as int).drop_first() =~= text@.skip(start + 1));
        start = start + 1;
    }
    let mut end: usize = n;
    assert(text@.subrange(start as int, n as int) =~= text@.skip(start as int));
    while start < end && is_white(text.get_char(end - 1))
        invariant
            n == text@.len(),
            start <= end <= n,
            trimmed(text@) == without_trail(text@.subrange(start as int, end as int)),
        ensures
            n == text@.len(),
            start <= end <= n,
            trimmed(text@) == text@.subrange(start as int, end as int),
        decreases end,
    {
        let ghost left = text@.subrange(start as int, end as int);
        assert(left.last() == text@[end - 1]);
        assert(left.drop_last() =~= text@.subrange(start as int, end - 1));
        end = end - 1;
    }
    text.substring_char(start, end)
}

/// `str::to_lowercase`: the lower case of the text, as Unicode defines it.
#[verifier::external_body]
pub(crate) fn to_lowercase(text: &str) -> (r: String)
    ensures
        r@ == lowercase(text@),
{
    text.to_lowercase()
}

/// The `Debug` form of `str`: the text in quotes, escaped.
#[verifier::external_body]
pub(crate) fn quoted(text: &str) -> (r: String)
    ensures
        r@ == quoted_text(text@),
{
    format!("{text:?}")
}

/// The `Debug` form of `std::path::Path`: the path in quotes, escaped. What is
/// escaped is left to `std`; it is not the same as in a text.
#[verifier::external_body]
pub(crate) fn quoted_path(path: &str) -> (r: String)
    ensures
        r@ == quoted_path_text(path@),
{
    format!("{:?}", std::path::Path::new(path))
}

/// The words of the text, in order.
pub fn words(text: &str) -> (r: Vec<String>)
    ensures
        r.deep_view() == words_of(text@),
{
    let n: usize = text.unicode_len();
    let mut out: Vec<String> = Vec::new();
    let mut i: usize = 0;
    assert(text@.skip(0) =~= text@);
    assert(out.deep_view() =~= Seq::<Seq<char>>::empty());
    assert(words_of(text@) =~= out.deep_view() + words_of(text@.skip(0)));
    while i < n
        invariant
            n == text@.len(),
            i <= n,
            words_of(text@) == out.deep_view() + words_of(text@.skip(i as int)),
        decreases n - i,
    {
        let ghost rest = text@.skip(i as int);
        assert(rest[0] == text@[i as int]);
        assert(rest.drop_first() =~= text@.skip(i + 1));
        if is_white(text.get_char(i)) {
            i = i + 1;
        } else {
            let mut end: usize = i + 1;
            while end < n && !is_white(text.get_char(end))
                invariant
                    n == text@.len(),
                    i < end <= n,
                    rest == text@.skip(i as int),
                    word_length(rest) == end - i + word_length(text@.skip(end as int)),
                ensures
                    n == text@.len(),
                    i < end <= n,
                    word_length(rest) == end - i,
                decreases n - end,
            {
                assert(text@.skip(end as int)[0] == text@[end as int]);
                assert(text@.skip(end as int).drop_first() =~= text@.skip(end + 1));
                end = end + 1;
            }
            let word = text.substring_char(i, end).to_owned();
            let ghost before = out.deep_view();
            assert(without_lead(rest) == rest);
            assert(word@ =~= rest.take(end - i));
            assert(rest.skip(end - i) =~= text@.skip(end as int));
            out.push(word);
            assert(out.deep_view() =~= before.push(word@));
            assert(words_of(text@) =~= out.deep_view() + words_of(text@.skip(end as int)));
            i = end;
        }
    }
    assert(text@.skip(n as int) =~= Seq::empty());
    assert(words_of(text@) =~= out.deep_view());
    out
}

/// `String::from_utf8_lossy`: the text of some bytes, with `U+FFFD` in place of
/// sequences that are not UTF-8. How much each mark stands for is left to `std`.
#[verifier::external_body]
pub(crate) fn decode(bytes: &Vec<u8>) -> (r: String)
    ensures
        r@ == lossy_text(bytes@),
{
    String::from_utf8_lossy(bytes).into_owned()
}

/// The lines of a text, which end at a line feed, or at a carriage return and a
/// line feed; neither is part of the line.
pub(crate) fn lines(text: &str) -> (r: Vec<String>)
    ensures
        r.deep_view() == lines_of(text@),
{
    let all = characters(text);
    let mut out: Vec<String> = Vec::new();
    let mut start: usize = 0;
    assert(text@.skip(0) =~= text@);
    assert(out.deep_view() + lines_of(text@) =~= lines_of(text@));
    while start < all.len()
        invariant
            all@ == text@,
            start <= all@.len(),
            lines_of(text@) == out.deep_view() + lines_of(text@.skip(start as int)),
        decreases all.len() - start,
    {
        let ghost rest = text@.skip(start as int);
        proof {
            line_length_is_bounded(rest);
        }
        let end = line_end(&all, start);
        assert(rest.take(end - start) =~= text@.subrange(start as int, end as int));
        let mut stop: usize = end;
        if all[end - 1] == '\n' {
            stop = end - 1;
            if stop > start && all[stop - 1] == '\r' {
                stop = stop - 1;
            }
        }
        let line = text.substring_char(start, stop);
        let ghost before = out.deep_view();
        assert(line@ =~= unbroken(rest.take(end - start)));
        assert(rest.skip(end - start) =~= text@.skip(end as int));
        out.push(line.to_owned());
        assert(out.deep_view() =~= before.push(line@));
        assert(lines_of(text@) =~= out.deep_view() + lines_of(text@.skip(end as int)));
        start = end;
    }
    assert(text@.skip(start as int) =~= Seq::empty());
    assert(lines_of(text@) =~= out.deep_view());
    out
}

/// Where the line that starts at a position ends, with its line feed.
fn line_end(text: &Vec<char>, start: usize) -> (r: usize)
    requires
        start < text@.len(),
    ensures
        r == start + line_length(text@.skip(start as int)),
        start < r <= text@.len(),
{
    let mut i: usize = start;
    loop
        invariant
            start <= i < text@.len(),
            line_length(text@.skip(start as int)) == (i - start) + line_length(
                text@.skip(i as int),
            ),
        decreases text.len() - i,
    {
        assert(text@.skip(i as int)[0] == text@[i as int]);
        assert(text@.skip(i as int).drop_first() =~= text@.skip(i + 1));
        if text[i] == '\n' {
            return i + 1;
        }
        assert(line_length(text@.skip(i as int)) == 1 + line_length(text@.skip(i + 1)));
        i = i + 1;
        if i == text.len() {
            assert(text@.skip(i as int).len() == 0);
            assert(line_length(text@.skip(i as int)) == 0);
            return i;
        }
    }
}

/// What follows the first `mark` in a text, if there is one.
pub fn after(text: &str, mark: char) -> (r: Option<String>)
    ensures
        r.deep_view() == after_first(text@, mark),
{
    let n: usize = text.unicode_len();
    let mut i: usize = 0;
    assert(text@.skip(0) =~= text@);
    while i < n
        invariant
            n == text@.len(),
            i <= n,
            after_first(text@, mark) == after_first(text@.skip(i as int), mark),
        decreases n - i,
    {
        assert(text@.skip(i as int)[0] == text@[i as int]);
        assert(text@.skip(i as int).drop_first() =~= text@.skip(i + 1));
        if text.get_char(i) == mark {
            return Some(text.substring_char(i + 1, n).to_owned());
        }
        i = i + 1;
    }
    None
}

/// Whether `a` comes before `b` in the order texts are sorted by.
pub fn less(a: &str, b: &str) -> (r: bool)
    ensures
        r == before(a@, b@),
{
    let m: usize = a.unicode_len();
    let n: usize = b.unicode_len();
    let mut i: usize = 0;
    assert(a@.skip(0) =~= a@);
    assert(b@.skip(0) =~= b@);
    while i < m && i < n
        invariant
            m == a@.len(),
            n == b@.len(),
            i <= m,
            i <= n,
            before(a@, b@) == before(a@.skip(i as int), b@.skip(i as int)),
        decreases m - i,
    {
        let x: char = a.get_char(i);
        let y: char = b.get_char(i);
        assert(a@.skip(i as int)[0] == x);
        assert(b@.skip(i as int)[0] == y);
        if x != y {
            return (x as u32) < (y as u32);
        }
        assert(a@.skip(i as int).drop_first() =~= a@.skip(i + 1));
        assert(b@.skip(i as int).drop_first() =~= b@.skip(i + 1));
        i = i + 1;
    }
    i < n
}

/// The pieces with `separator` between them.
pub fn join(pieces: &[String], separator: &str) -> (r: String)
    ensures
        r@ == joined(pieces.deep_view(), separator@),
{
    let ghost all = pieces.deep_view();
    let mut text = String::new();
    let mut i: usize = 0;
    assert(all.take(0) =~= Seq::empty());
    while i < pieces.len()
        invariant
            i <= pieces@.len(),
            all == pieces.deep_view(),
            text@ == joined(all.take(i as int), separator@),
        decreases pieces.len() - i,
    {
        proof {
            assert(all.take(i + 1).drop_last() =~= all.take(i as int));
            assert(all.take(i + 1).last() == pieces[i as int]@);
        }
        if i > 0 {
            text.append(separator);
        } else {
            assert(text@ + pieces[0]@ =~= pieces[0]@);
        }
        text.append(pieces[i].as_str());
        i = i + 1;
    }
    assert(all.take(pieces@.len() as int) =~= all);
    text
}

/// Texts as `{:?}` shows a list of them.
pub fn list(texts: &[String]) -> (r: String)
    ensures
        r@ == quoted_list(texts.deep_view()),
{
    let ghost f = |t: Seq<char>| quoted_text(t);
    let mut shown: Vec<String> = Vec::new();
    let mut i: usize = 0;
    while i < texts.len()
        invariant
            i <= texts@.len(),
            shown.deep_view() =~= texts.deep_view().take(i as int).map_values(f),
            f == (|t: Seq<char>| quoted_text(t)),
        decreases texts.len() - i,
    {
        let ghost before = shown.deep_view();
        shown.push(quoted(texts[i].as_str()));
        assert(shown.deep_view() =~= before.push(quoted_text(texts.deep_view()[i as int])));
        i = i + 1;
    }
    assert(texts.deep_view().take(i as int) =~= texts.deep_view());
    let mut out = "[".to_owned();
    out.append(join(shown.as_slice(), ", ").as_str());
    out.append("]");
    out
}

/// A number is read back from its decimal form.
pub proof fn decimals_are_read_back(n: nat)
    ensures
        is_digits(decimal(n)),
        digits_value(decimal(n)) == n,
    decreases n,
{
    let text = decimal(n);
    if n < 10 {
        assert(text.drop_last() =~= Seq::empty());
        assert(digits_value(text.drop_last()) == 0);
        assert(text.last() == digit(n));
    } else {
        decimals_are_read_back(n / 10);
        assert(text.drop_last() =~= decimal(n / 10));
        assert(text.last() == digit(n % 10));
    }
}

proof fn digits_value_grows(digits: Seq<char>, n: int)
    requires
        0 <= n <= digits.len(),
    ensures
        digits_value(digits.take(n)) <= digits_value(digits),
    decreases digits.len() - n,
{
    if n == digits.len() {
        assert(digits.take(n) =~= digits);
    } else {
        digits_value_grows(digits, n + 1);
        assert(digits.take(n + 1).drop_last() =~= digits.take(n));
    }
}

/// The number written in digits from position `from` on, where it fits.
fn read_digits(text: &str, from: usize) -> (r: Option<u64>)
    requires
        from <= text@.len(),
    ensures
        r is Some <==> is_digits(text@.skip(from as int)) && digits_value(
            text@.skip(from as int),
        ) <= u64::MAX,
        r matches Some(n) ==> n == digits_value(text@.skip(from as int)),
{
    let n: usize = text.unicode_len();
    let ghost digits = text@.skip(from as int);
    if from == n {
        return None;
    }
    let mut value: u64 = 0;
    let mut i: usize = from;
    assert(digits.take(0) =~= Seq::empty());
    while i < n
        invariant
            from <= i <= n,
            n == text@.len(),
            digits == text@.skip(from as int),
            value == digits_value(digits.take(i - from)),
            forall|j: int| 0 <= j < i - from ==> '0' <= #[trigger] digits[j] <= '9',
        decreases n - i,
    {
        let c: char = text.get_char(i);
        assert(digits[i - from] == c);
        if !('0' <= c && c <= '9') {
            return None;
        }
        let d: u64 = (c as u32 - '0' as u32) as u64;
        let next: u128 = value as u128 * 10 + d as u128;
        proof {
            assert(digits.take(i - from + 1).drop_last() =~= digits.take(i - from));
            assert(digits.take(i - from + 1).last() == c);
            digits_value_grows(digits, i - from + 1);
        }
        if next > u64::MAX as u128 {
            return None;
        }
        value = next as u64;
        i = i + 1;
    }
    assert(digits.take(n - from) =~= digits);
    Some(value)
}

/// The number a text stands for, where a `u64` holds it.
pub fn read_number(text: &str) -> (r: Option<u64>)
    ensures
        r == (match natural_in(text@) {
            Some(n) => if n <= u64::MAX {
                Some(n as u64)
            } else {
                None
            },
            None => None,
        }),
{
    if text.unicode_len() == 0 {
        return None;
    }
    assert(text@.skip(0) =~= text@);
    if text.get_char(0) == '+' {
        read_digits(text, 1)
    } else {
        read_digits(text, 0)
    }
}

/// The integer a text stands for, where an `i32` holds it.
pub fn read_integer(text: &str) -> (r: Option<i32>)
    ensures
        r == (match integer_in(text@) {
            Some(n) => if i32::MIN <= n <= i32::MAX {
                Some(n as i32)
            } else {
                None
            },
            None => None,
        }),
{
    if text.unicode_len() == 0 {
        return None;
    }
    assert(text@.skip(0) =~= text@);
    let first: char = text.get_char(0);
    let start: usize = if first == '+' || first == '-' {
        1
    } else {
        0
    };
    match read_digits(text, start) {
        None => None,
        Some(n) => {
            if first == '-' {
                if n <= 0x8000_0000 {
                    Some((-(n as i64)) as i32)
                } else {
                    None
                }
            } else if n <= 0x7fff_ffff {
                Some(n as i32)
            } else {
                None
            }
        },
    }
}

fn digit_text(n: u64) -> (r: &'static str)
    requires
        n < 10,
    ensures
        r@ == seq![digit(n as nat)],
{
    proof {
        reveal_strlit("0");
        reveal_strlit("1");
        reveal_strlit("2");
        reveal_strlit("3");
        reveal_strlit("4");
        reveal_strlit("5");
        reveal_strlit("6");
        reveal_strlit("7");
        reveal_strlit("8");
        reveal_strlit("9");
    }
    let text = if n == 0 {
        "0"
    } else if n == 1 {
        "1"
    } else if n == 2 {
        "2"
    } else if n == 3 {
        "3"
    } else if n == 4 {
        "4"
    } else if n == 5 {
        "5"
    } else if n == 6 {
        "6"
    } else if n == 7 {
        "7"
    } else if n == 8 {
        "8"
    } else {
        "9"
    };
    assert(text@ =~= seq![digit(n as nat)]);
    text
}

/// A number in decimal.
pub fn number(n: u64) -> (r: String)
    ensures
        r@ == decimal(n as nat),
    decreases n,
{
    if n < 10 {
        digit_text(n).to_owned()
    } else {
        let mut text = number(n / 10);
        text.append(digit_text(n % 10));
        assert(decimal((n / 10) as nat) + seq![digit((n % 10) as nat)] =~= decimal(n as nat));
        text
    }
}

/// An integer in decimal.
pub fn integer(n: i32) -> (r: String)
    ensures
        r@ == signed_decimal(n as int),
{
    if n < 0 {
        let wide: i64 = n as i64;
        let mut text = "-".to_owned();
        text.append(number((-wide) as u64).as_str());
        text
    } else {
        number(n as u64)
    }
}

/// `text` followed by spaces up to `width` characters.
pub fn pad(text: &str, width: usize) -> (r: String)
    ensures
        r@ == padded(text@, width as nat),
{
    let mut out = text.to_owned();
    let mut n: usize = text.unicode_len();
    let ghost start = text@.len();
    proof {
        reveal_strlit(" ");
        assert(text@ + Seq::new(0, |i: int| ' ') =~= text@);
    }
    while n < width
        invariant
            start == text@.len(),
            start <= n,
            n <= width || n == start,
            out@ == text@ + Seq::new((n - start) as nat, |i: int| ' '),
        decreases width - n,
    {
        proof {
            reveal_strlit(" ");
        }
        out.append(" ");
        assert(out@ =~= text@ + Seq::new((n + 1 - start) as nat, |i: int| ' '));
        n = n + 1;
    }
    out
}

/// `path` extended by the relative component `name`.
pub fn join_path(path: &str, name: &str) -> (r: String)
    ensures
        r@ == path_join(path@, name@),
{
    let n: usize = path.unicode_len();
    let mut out = path.to_owned();
    if n > 0 && path.get_char(n - 1) != '/' {
        out.append("/");
    }
    out.append(name);
    out
}

// The order of texts.

/// No text comes before itself.
pub proof fn before_is_irreflexive(a: Seq<char>)
    ensures
        !before(a, a),
    decreases a.len(),
{
    if a.len() > 0 {
        before_is_irreflexive(a.drop_first());
    }
}

/// Of two different texts one comes before the other.
pub proof fn before_is_total(a: Seq<char>, b: Seq<char>)
    ensures
        a == b || before(a, b) || before(b, a),
    decreases a.len(),
{
    if a.len() > 0 && b.len() > 0 && a[0] == b[0] {
        before_is_total(a.drop_first(), b.drop_first());
        if a.drop_first() == b.drop_first() {
            assert(a =~= seq![a[0]] + a.drop_first());
            assert(b =~= seq![b[0]] + b.drop_first());
        }
    } else if a.len() == 0 && b.len() == 0 {
        assert(a =~= b);
    }
}

/// What comes before a text comes before everything behind that text.
pub proof fn before_is_transitive(a: Seq<char>, b: Seq<char>, c: Seq<char>)
    requires
        before(a, b),
        before(b, c),
    ensures
        before(a, c),
    decreases a.len(),
{
    if a.len() > 0 && a[0] == b[0] && b[0] == c[0] {
        before_is_transitive(a.drop_first(), b.drop_first(), c.drop_first());
    }
}

} // verus!

//! Text, character by character.
//!
//! A text is modelled by the sequence of its characters. What the rest of the crate says about
//! texts (where a pattern occurs, what is left after trimming, how a number is written) is
//! defined here, next to the functions that compute it.

use vstd::prelude::*;
use vstd::slice::slice_subrange;
use vstd::string::*;

verus! {

// ---------------------------------------------------------------------------------------------
// Outside functions
// ---------------------------------------------------------------------------------------------

/// `String::push` appends one character and changes nothing else.
pub assume_specification[ String::push ](s: &mut String, c: char)
    ensures
        final(s)@ == old(s)@.push(c),
;

/// `str`'s equality compares the two texts character by character.
pub assume_specification[ <str as PartialEq>::eq ](s: &str, other: &str) -> (res: bool)
    ensures
        res == (s@ == other@),
;

/// The lowercase equivalent of a text, as `str::to_lowercase` gives it.
pub uninterp spec fn lowercase(text: Seq<char>) -> Seq<char>;

/// `str::to_lowercase`. The result is a function of the text alone; of a text that is all ASCII it
/// is the text with each of `A` to `Z` replaced by its small letter.
#[verifier::external_body]
fn lowercased(text: &str) -> (r: String)
    ensures
        r@ == lowercase(text@),
        all_ascii(text@) ==> r@ == ascii_lowercase(text@),
{
    text.to_lowercase()
}

/// A text in small letters.
pub fn in_small_letters(text: &str) -> (r: String)
    ensures
        r@ == small_letters(text@),
{
    lowercased(text)
}

/// How `String::from_utf8` words its complaint about bytes that are no UTF-8.
pub uninterp spec fn utf8_complaint(bytes: Seq<u8>) -> Seq<char>;

/// `String::from_utf8`: the text that bytes of UTF-8 are. Other bytes are an error, worded as it
/// is displayed.
#[verifier::external_body]
pub(crate) fn utf8_text(bytes: Vec<u8>) -> (r: Result<String, String>)
    ensures
        match r {
            Ok(text) => vstd::utf8::valid_utf8(bytes@) && text@ == vstd::utf8::decode_utf8(bytes@),
            Err(problem) => !vstd::utf8::valid_utf8(bytes@) && problem@ == utf8_complaint(bytes@),
        },
{
    String::from_utf8(bytes).map_err(|e| e.to_string())
}

/// The text that `String::from_utf8_lossy` makes of bytes.
pub uninterp spec fn lossy_utf8(bytes: Seq<u8>) -> Seq<char>;

/// `String::from_utf8_lossy`: a text for any bytes, and the text that they are where they are UTF-8.
/// What stands for bytes that are none is a function of the bytes alone.
#[verifier::external_body]
fn decoded_lossily(bytes: &[u8]) -> (r: String)
    ensures
        r@ == lossy_utf8(bytes@),
        vstd::utf8::valid_utf8(bytes@) ==> r@ == vstd::utf8::decode_utf8(bytes@),
{
    String::from_utf8_lossy(bytes).into_owned()
}

/// The text that bytes are meant to be.
pub fn text_meant(bytes: &[u8]) -> (r: String)
    ensures
        r@ == meant(bytes@),
{
    decoded_lossily(bytes)
}

// ---------------------------------------------------------------------------------------------
// Model
// ---------------------------------------------------------------------------------------------

/// Every character is ASCII.
pub open spec fn all_ascii(text: Seq<char>) -> bool {
    forall|i: int| 0 <= i < text.len() ==> (#[trigger] text[i] as u32) < 128
}

/// The small letter of an ASCII capital; any other character itself.
pub open spec fn ascii_lower(c: char) -> char {
    if 'A' <= c && c <= 'Z' {
        ((c as u32 + 32) as u32) as char
    } else {
        c
    }
}

/// A text with its ASCII capitals made small.
pub open spec fn ascii_lowercase(text: Seq<char>) -> Seq<char> {
    Seq::new(text.len(), |i: int| ascii_lower(text[i]))
}

/// A text in small letters: letter by letter where it is all ASCII, and otherwise as
/// [`lowercase`] says.
pub open spec fn small_letters(text: Seq<char>) -> Seq<char> {
    if all_ascii(text) {
        ascii_lowercase(text)
    } else {
        lowercase(text)
    }
}

/// The text that bytes are meant to be: the one that they are where they are UTF-8, and otherwise
/// as [`lossy_utf8`] says.
pub open spec fn meant(bytes: Seq<u8>) -> Seq<char> {
    if vstd::utf8::valid_utf8(bytes) {
        vstd::utf8::decode_utf8(bytes)
    } else {
        lossy_utf8(bytes)
    }
}

/// The Unicode `White_Space` property.
pub open spec fn is_white_space(c: char) -> bool {
    let u = c as u32;
    ||| 0x9 <= u <= 0xd
    ||| u == 0x20
    ||| u == 0x85
    ||| u == 0xa0
    ||| u == 0x1680
    ||| 0x2000 <= u <= 0x200a
    ||| u == 0x2028
    ||| u == 0x2029
    ||| u == 0x202f
    ||| u == 0x205f
    ||| u == 0x3000
}

/// `pattern` stands in `text` at position `i`.
pub open spec fn occurs_at(text: Seq<char>, pattern: Seq<char>, i: int) -> bool {
    &&& 0 <= i
    &&& i + pattern.len() <= text.len()
    &&& text.subrange(i, i + pattern.len()) == pattern
}

/// `pattern` stands somewhere in `text`.
pub open spec fn occurs_in(text: Seq<char>, pattern: Seq<char>) -> bool {
    exists|i: int| occurs_at(text, pattern, i)
}

/// The first position, not before `from`, at which `pattern` stands in `text`.
pub open spec fn find_from(text: Seq<char>, pattern: Seq<char>, from: int) -> Option<int>
    decreases text.len() + 1 - from,
{
    if from < 0 || from + pattern.len() > text.len() {
        None
    } else if occurs_at(text, pattern, from) {
        Some(from)
    } else {
        find_from(text, pattern, from + 1)
    }
}

/// `text` ends with `suffix`.
pub open spec fn has_suffix(text: Seq<char>, suffix: Seq<char>) -> bool {
    suffix.len() <= text.len() && text.skip(text.len() - suffix.len()) == suffix
}

/// A text without its leading white space.
pub open spec fn trim_start(text: Seq<char>) -> Seq<char>
    decreases text.len(),
{
    if text.len() > 0 && is_white_space(text[0]) {
        trim_start(text.drop_first())
    } else {
        text
    }
}

/// A text without its trailing white space.
pub open spec fn trim_end(text: Seq<char>) -> Seq<char>
    decreases text.len(),
{
    if text.len() > 0 && is_white_space(text.last()) {
        trim_end(text.drop_last())
    } else {
        text
    }
}

/// A text without the white space around it.
pub open spec fn trim(text: Seq<char>) -> Seq<char> {
    trim_end(trim_start(text))
}

/// How many characters stand before the first white space.
pub open spec fn word_length(text: Seq<char>) -> nat
    decreases text.len(),
{
    if text.len() == 0 || is_white_space(text[0]) {
        0
    } else {
        1 + word_length(text.drop_first())
    }
}

/// `word_length` stays within the text.
pub proof fn word_length_bound(text: Seq<char>)
    ensures
        word_length(text) <= text.len(),
        text.len() > 0 && !is_white_space(text[0]) ==> word_length(text) > 0,
    decreases text.len(),
{
    if text.len() > 0 && !is_white_space(text[0]) {
        word_length_bound(text.drop_first());
    }
}

/// `trim_start` drops a prefix of white space, and only that.
pub proof fn trim_start_shape(text: Seq<char>)
    ensures
        trim_start(text).len() <= text.len(),
        trim_start(text) == text.skip(text.len() - trim_start(text).len()),
        forall|i: int|
            0 <= i < text.len() - trim_start(text).len() ==> is_white_space(#[trigger] text[i]),
        trim_start(text).len() > 0 ==> !is_white_space(trim_start(text)[0]),
    decreases text.len(),
{
    if text.len() > 0 && is_white_space(text[0]) {
        let rest = text.drop_first();
        trim_start_shape(rest);
        let dropped = rest.len() - trim_start(rest).len();
        assert(rest.skip(dropped) == text.skip(dropped + 1));
        assert forall|i: int| 0 <= i < dropped + 1 implies is_white_space(#[trigger] text[i]) by {
            if i > 0 {
                assert(text[i] == rest[i - 1]);
            }
        }
    } else {
        assert(text.skip(0) == text);
    }
}

/// The words of a text: its longest stretches without white space, in order.
pub open spec fn words(text: Seq<char>) -> Seq<Seq<char>>
    decreases text.len(),
    via words_decreases
{
    let rest = trim_start(text);
    if rest.len() == 0 {
        Seq::empty()
    } else {
        let n = word_length(rest) as int;
        seq![rest.take(n)] + words(rest.skip(n))
    }
}

#[via_fn]
proof fn words_decreases(text: Seq<char>) {
    trim_start_shape(text);
    word_length_bound(trim_start(text));
}

/// The words of two texts with a space between them are those of the first and those of the
/// second.
pub proof fn words_of_both(a: Seq<char>, b: Seq<char>)
    ensures
        words(a + " "@ + b) == words(a) + words(b),
    decreases a.len(),
{
    reveal_strlit(" ");
    let both = a + " "@ + b;
    assert(" "@ == seq![' ']);
    assert(is_white_space(' '));
    if a.len() == 0 {
        assert(both.drop_first() == b);
        assert(both[0] == ' ');
        assert(trim_start(both) == trim_start(b));
        assert(words(a) + words(b) == words(b));
    } else if is_white_space(a[0]) {
        assert(both[0] == a[0]);
        assert(both.drop_first() == a.drop_first() + " "@ + b);
        words_of_both(a.drop_first(), b);
        assert(trim_start(both) == trim_start(both.drop_first()));
        assert(trim_start(a) == trim_start(a.drop_first()));
    } else {
        assert(both[0] == a[0]);
        word_length_bound(a);
        word_ends_in_front(a, b);
        let n = word_length(a) as int;
        assert(both.take(n) == a.take(n));
        assert(both.skip(n) == a.skip(n) + " "@ + b);
        words_of_both(a.skip(n), b);
        assert(seq![a.take(n)] + (words(a.skip(n)) + words(b)) == words(a) + words(b));
    }
}

proof fn word_ends_in_front(a: Seq<char>, b: Seq<char>)
    ensures
        word_length(a + " "@ + b) == word_length(a),
    decreases a.len(),
{
    reveal_strlit(" ");
    let both = a + " "@ + b;
    assert(" "@ == seq![' ']);
    assert(is_white_space(' '));
    if a.len() == 0 {
        assert(both[0] == ' ');
    } else {
        assert(both[0] == a[0]);
        assert(both.drop_first() == a.drop_first() + " "@ + b);
        word_ends_in_front(a.drop_first(), b);
    }
}

/// The words of an ASCII text are ASCII.
pub proof fn words_are_ascii(text: Seq<char>)
    requires
        all_ascii(text),
    ensures
        forall|i: int| 0 <= i < words(text).len() ==> all_ascii(#[trigger] words(text)[i]),
    decreases text.len(),
{
    let rest = trim_start(text);
    trim_start_shape(text);
    assert forall|i: int| 0 <= i < rest.len() implies (#[trigger] rest[i] as u32) < 128 by {
        assert(rest[i] == text[i + text.len() - rest.len()]);
    }
    if rest.len() > 0 {
        word_length_bound(rest);
        let n = word_length(rest) as int;
        let tail = rest.skip(n);
        assert forall|i: int| 0 <= i < tail.len() implies (#[trigger] tail[i] as u32) < 128 by {
            assert(tail[i] == rest[i + n]);
        }
        words_are_ascii(tail);
        assert forall|i: int| 0 <= i < words(text).len() implies all_ascii(
            #[trigger] words(text)[i],
        ) by {
            if i > 0 {
                assert(words(text)[i] == words(tail)[i - 1]);
            } else {
                assert(words(text)[0] == rest.take(n));
            }
        }
    }
}

/// The parts with `separator` between each two.
pub open spec fn join(parts: Seq<Seq<char>>, separator: Seq<char>) -> Seq<char>
    decreases parts.len(),
{
    if parts.len() == 0 {
        Seq::empty()
    } else if parts.len() == 1 {
        parts[0]
    } else {
        join(parts.drop_last(), separator) + separator + parts.last()
    }
}

/// A number that tells short names apart: their length, their first two letters and their last.
pub open spec fn mark(text: Seq<char>) -> int {
    text.len() + 100 * (text[0] as int) + 100000 * (text[1] as int) + 100000000 * (
    text.last() as int)
}

/// The decimal digit of a number below ten.
pub open spec fn digit(n: nat) -> char {
    ((48 + n) as u32) as char
}

/// A number in decimal.
pub open spec fn decimal(n: nat) -> Seq<char>
    decreases n,
{
    if n < 10 {
        seq![digit(n)]
    } else {
        decimal(n / 10).push(digit(n % 10))
    }
}

/// A number in decimal, with a minus sign where it is negative.
pub open spec fn signed_decimal(n: int) -> Seq<char> {
    if n < 0 {
        seq!['-'] + decimal((-n) as nat)
    } else {
        decimal(n as nat)
    }
}

/// The views of a list of strings.
pub open spec fn texts(list: Seq<String>) -> Seq<Seq<char>> {
    Seq::new(list.len(), |i: int| list[i]@)
}

/// The view of an optional string.
pub open spec fn opt_text(o: Option<String>) -> Option<Seq<char>> {
    match o {
        Some(s) => Some(s@),
        None => None,
    }
}

/// The view of an optional borrowed text.
pub open spec fn opt_str(o: Option<&str>) -> Option<Seq<char>> {
    match o {
        Some(s) => Some(s@),
        None => None,
    }
}

// ---------------------------------------------------------------------------------------------
// Facts
// ---------------------------------------------------------------------------------------------

/// Every character is a decimal digit.
pub open spec fn all_digits(text: Seq<char>) -> bool {
    forall|i: int| 0 <= i < text.len() ==> '0' <= #[trigger] text[i] && text[i] <= '9'
}

/// A number in decimal is made of digits, at least one.
pub proof fn decimal_is_digits(n: nat)
    ensures
        decimal(n).len() > 0,
        all_digits(decimal(n)),
    decreases n,
{
    if n >= 10 {
        decimal_is_digits(n / 10);
    }
}

/// Different numbers differ in decimal.
pub proof fn decimal_is_injective(a: nat, b: nat)
    requires
        decimal(a) == decimal(b),
    ensures
        a == b,
    decreases a,
{
    decimal_is_digits(a);
    decimal_is_digits(b);
    if a >= 10 && b >= 10 {
        decimal_is_digits(a / 10);
        decimal_is_digits(b / 10);
        assert(decimal(a).drop_last() == decimal(a / 10));
        assert(decimal(b).drop_last() == decimal(b / 10));
        assert(decimal(a).last() == digit(a % 10));
        assert(decimal(b).last() == digit(b % 10));
        decimal_is_injective(a / 10, b / 10);
        assert(a % 10 == b % 10);
    } else if a >= 10 {
        decimal_is_digits(a / 10);
        assert(decimal(a).len() > 1);
    } else if b >= 10 {
        decimal_is_digits(b / 10);
        assert(decimal(b).len() > 1);
    } else {
        assert(decimal(a)[0] == digit(a));
        assert(decimal(b)[0] == digit(b));
    }
}

/// Two texts of digits, each followed by the same character that is no digit, are told apart by
/// what follows: where the wholes agree, so do the parts.
pub proof fn digits_end_at(a: Seq<char>, b: Seq<char>, c: Seq<char>, d: Seq<char>, mark: char)
    requires
        all_digits(a),
        all_digits(c),
        !('0' <= mark && mark <= '9'),
        a + seq![mark] + b == c + seq![mark] + d,
    ensures
        a == c,
        b == d,
{
    let left = a + seq![mark] + b;
    let right = c + seq![mark] + d;
    assert(left[a.len() as int] == mark);
    assert(right[c.len() as int] == mark);
    if a.len() < c.len() {
        assert(right[a.len() as int] == c[a.len() as int]);
    }
    if c.len() < a.len() {
        assert(left[c.len() as int] == a[c.len() as int]);
    }
    assert(left.take(a.len() as int) == a);
    assert(right.take(c.len() as int) == c);
    assert(left.skip(a.len() as int + 1) == b);
    assert(right.skip(c.len() as int + 1) == d);
}

/// White space is what Unicode counts as such: the control characters from tab to carriage return,
/// the space, and 18 others.
pub proof fn white_space_is_that_of_unicode(c: char)
    ensures
        is_white_space(c) <==> seq![
            '\u{9}',
            '\u{a}',
            '\u{b}',
            '\u{c}',
            '\u{d}',
            '\u{20}',
            '\u{85}',
            '\u{a0}',
            '\u{1680}',
            '\u{2000}',
            '\u{2001}',
            '\u{2002}',
            '\u{2003}',
            '\u{2004}',
            '\u{2005}',
            '\u{2006}',
            '\u{2007}',
            '\u{2008}',
            '\u{2009}',
            '\u{200a}',
            '\u{2028}',
            '\u{2029}',
            '\u{202f}',
            '\u{205f}',
            '\u{3000}',
        ].contains(c),
{
    let all = seq![
        '\u{9}',
        '\u{a}',
        '\u{b}',
        '\u{c}',
        '\u{d}',
        '\u{20}',
        '\u{85}',
        '\u{a0}',
        '\u{1680}',
        '\u{2000}',
        '\u{2001}',
        '\u{2002}',
        '\u{2003}',
        '\u{2004}',
        '\u{2005}',
        '\u{2006}',
        '\u{2007}',
        '\u{2008}',
        '\u{2009}',
        '\u{200a}',
        '\u{2028}',
        '\u{2029}',
        '\u{202f}',
        '\u{205f}',
        '\u{3000}',
    ];
    let u = c as u32;
    if is_white_space(c) {
        let k: int = if u <= 0xd {
            u - 9
        } else if u == 0x20 {
            5
        } else if u == 0x85 {
            6
        } else if u == 0xa0 {
            7
        } else if u == 0x1680 {
            8
        } else if u <= 0x200a {
            u - 0x2000 + 9
        } else if u == 0x2028 {
            20
        } else if u == 0x2029 {
            21
        } else if u == 0x202f {
            22
        } else if u == 0x205f {
            23
        } else {
            24
        };
        assert(all[k] == c);
    }
    if all.contains(c) {
        let k = choose|k: int| 0 <= k < all.len() && all[k] == c;
        assert(all[k] == c);
    }
}

/// A letter is made small just where it is one of `A` to `Z`, and then it is the letter of the same
/// number from `a` on.
pub proof fn capitals_are_made_small(text: Seq<char>, i: int)
    requires
        0 <= i < text.len(),
    ensures
        ascii_lowercase(text).len() == text.len(),
        'A' <= text[i] <= 'Z' ==> ascii_lowercase(text)[i] as int - 'a' as int == text[i] as int
            - 'A' as int,
        !('A' <= text[i] <= 'Z') ==> ascii_lowercase(text)[i] == text[i],
        all_ascii(text) ==> small_letters(text) == ascii_lowercase(text),
{
}

/// A text without the white space around it: what is taken away is white space, and what is left
/// neither begins nor ends with it.
pub proof fn trimmed_text_stands_between_white_space(text: Seq<char>)
    ensures
        exists|before: Seq<char>, behind: Seq<char>|
            #![trigger before + trim(text) + behind]
            {
                &&& text == before + trim(text) + behind
                &&& is_blank_text(before)
                &&& is_blank_text(behind)
            },
        trim(text).len() > 0 ==> !is_white_space(trim(text)[0]) && !is_white_space(
            trim(text).last(),
        ),
{
    let front = trim_start(text);
    trim_start_shape(text);
    trim_end_shape(front);
    let a = text.len() - front.len();
    let before = text.take(a);
    let behind = front.skip(trim(text).len() as int);
    assert forall|i: int| 0 <= i < behind.len() implies is_white_space(#[trigger] behind[i]) by {
        assert(behind[i] == front[i + trim(text).len()]);
    }
    assert(front =~= trim(text) + behind);
    assert(text =~= before + trim(text) + behind);
    assert(is_blank_text(before));
}

/// Nothing but white space.
pub open spec fn is_blank_text(text: Seq<char>) -> bool {
    forall|i: int| 0 <= i < text.len() ==> is_white_space(#[trigger] text[i])
}

/// `trim_end` drops a suffix of white space, and only that.
proof fn trim_end_shape(text: Seq<char>)
    ensures
        trim_end(text).len() <= text.len(),
        trim_end(text) == text.take(trim_end(text).len() as int),
        forall|i: int|
            trim_end(text).len() <= i < text.len() ==> is_white_space(#[trigger] text[i]),
        trim_end(text).len() > 0 ==> !is_white_space(trim_end(text).last()),
    decreases text.len(),
{
    if text.len() > 0 && is_white_space(text.last()) {
        let rest = text.drop_last();
        trim_end_shape(rest);
        let n = trim_end(rest).len() as int;
        assert(rest.take(n) == text.take(n));
        assert forall|i: int| n <= i < text.len() implies is_white_space(#[trigger] text[i]) by {
            if i < rest.len() {
                assert(text[i] == rest[i]);
            }
        }
    } else {
        assert(text.take(text.len() as int) == text);
    }
}

/// A text that neither begins nor ends with white space stays what it is when white space around it
/// is taken away.
pub proof fn white_space_around_is_taken_away(
    before: Seq<char>,
    text: Seq<char>,
    behind: Seq<char>,
)
    requires
        is_blank_text(before),
        is_blank_text(behind),
        text.len() > 0 ==> !is_white_space(text[0]) && !is_white_space(text.last()),
    ensures
        trim(before + text + behind) == text,
{
    let whole = before + text + behind;
    let front = trim_start(whole);
    trim_start_shape(whole);
    let a = whole.len() - front.len();
    if text.len() == 0 {
        if front.len() > 0 {
            assert(front[0] == whole[a]);
            assert(is_white_space(whole[a])) by {
                if a < before.len() {
                    assert(whole[a] == before[a]);
                } else {
                    assert(whole[a] == behind[a - before.len()]);
                }
            }
        }
        assert(front =~= Seq::<char>::empty());
        assert(trim(whole) =~= text);
    } else {
        if a < before.len() {
            assert(front[0] == whole[a] && whole[a] == before[a]);
        }
        if a > before.len() {
            assert(whole[before.len() as int] == text[0]);
        }
        assert(a == before.len());
        assert(front =~= text + behind);
        trim_end_shape(front);
        let n = trim_end(front).len() as int;
        if n < text.len() {
            assert(front[text.len() - 1] == text.last());
        }
        if n > text.len() {
            assert(trim_end(front).last() == front[n - 1]);
            assert(front[n - 1] == behind[n - 1 - text.len()]);
        }
        assert(front.take(n) =~= text);
    }
}

/// A word stands in a text from a place on: a stretch without white space, as long as it can be.
pub open spec fn is_word_at(text: Seq<char>, word: Seq<char>, i: int) -> bool {
    &&& 0 <= i
    &&& 0 < word.len()
    &&& i + word.len() <= text.len()
    &&& text.subrange(i, i + word.len()) == word
    &&& forall|k: int| 0 <= k < word.len() ==> !is_white_space(#[trigger] word[k])
    &&& i == 0 || is_white_space(text[i - 1])
    &&& i + word.len() == text.len() || is_white_space(text[(i + word.len()) as int])
}

/// The words of a text are its stretches without white space, as long as they can be, and no others.
pub proof fn words_are_the_longest_stretches(text: Seq<char>, word: Seq<char>)
    ensures
        words(text).contains(word) <==> exists|i: int| is_word_at(text, word, i),
    decreases text.len(),
{
    let rest = trim_start(text);
    trim_start_shape(text);
    let k = text.len() - rest.len();
    if rest.len() == 0 {
        assert forall|i: int| !is_word_at(text, word, i) by {
            if is_word_at(text, word, i) {
                assert(word[0] == text[i]);
            }
        }
    } else {
        word_length_bound(rest);
        word_length_shape(rest);
        let n = word_length(rest) as int;
        let tail = rest.skip(n);
        words_are_the_longest_stretches(tail, word);
        let all = words(text);
        let others = words(tail);
        assert(all == seq![rest.take(n)] + others);
        if all.contains(word) {
            let at = choose|at: int| 0 <= at < all.len() && all[at] == word;
            if at == 0 {
                assert(text.subrange(k, k + n) =~= rest.take(n));
                assert(is_word_at(text, word, k));
            } else {
                assert(others[at - 1] == word);
                let j = choose|j: int| is_word_at(tail, word, j);
                assert(tail[j] == word[0]);
                assert(tail[0] == rest[n]);
                assert(j > 0);
                let i = k + n + j;
                assert(text.subrange(i, i + word.len()) =~= tail.subrange(j, j + word.len()));
                assert(text[i - 1] == tail[j - 1]);
                if j + word.len() < tail.len() {
                    assert(text[(i + word.len()) as int] == tail[(j + word.len()) as int]);
                }
                assert(is_word_at(text, word, i));
            }
        }
        if exists|i: int| is_word_at(text, word, i) {
            let i = choose|i: int| is_word_at(text, word, i);
            assert(text[i] == word[0]);
            assert(i >= k);
            if i == k {
                if word.len() < n {
                    assert(text[(i + word.len()) as int] == rest[word.len() as int]);
                }
                if word.len() > n {
                    assert(word[n] == rest[n]) by {
                        assert(word[n] == text[i + n]);
                    }
                }
                assert(word =~= rest.take(n)) by {
                    assert(text.subrange(i, i + word.len()) =~= rest.take(n));
                }
                assert(all[0] == word);
            } else {
                if i - 1 < k + n {
                    assert(text[i - 1] == rest[i - 1 - k]);
                }
                let j = i - k - n;
                assert(tail.subrange(j, j + word.len()) =~= text.subrange(i, i + word.len()));
                assert(tail[j - 1] == text[i - 1]);
                if i + word.len() < text.len() {
                    assert(tail[(j + word.len()) as int] == text[(i + word.len()) as int]);
                }
                assert(is_word_at(tail, word, j));
                let at = choose|at: int| 0 <= at < others.len() && others[at] == word;
                assert(all[at + 1] == word);
            }
        }
    }
}

proof fn word_length_shape(text: Seq<char>)
    ensures
        forall|i: int| 0 <= i < word_length(text) ==> !is_white_space(#[trigger] text[i]),
        word_length(text) < text.len() ==> is_white_space(text[word_length(text) as int]),
    decreases text.len(),
{
    if text.len() > 0 && !is_white_space(text[0]) {
        let rest = text.drop_first();
        word_length_bound(rest);
        word_length_shape(rest);
        assert forall|i: int| 0 <= i < word_length(text) implies !is_white_space(
            #[trigger] text[i],
        ) by {
            if i > 0 {
                assert(text[i] == rest[i - 1]);
            }
        }
        if word_length(text) < text.len() {
            assert(text[word_length(text) as int] == rest[word_length(rest) as int]);
        }
    }
}

/// Parts that are joined: none make nothing, one stays what it is, and a list behind another has the
/// separator in front of it, once.
pub proof fn joined_parts_stand_apart(a: Seq<Seq<char>>, b: Seq<Seq<char>>, separator: Seq<char>)
    ensures
        join(Seq::empty(), separator) == Seq::<char>::empty(),
        a.len() == 1 ==> join(a, separator) == a[0],
        a.len() > 0 && b.len() > 0 ==> join(a + b, separator) == join(a, separator) + separator
            + join(b, separator),
    decreases b.len(),
{
    if a.len() > 0 && b.len() == 1 {
        assert((a + b).drop_last() =~= a);
        assert((a + b).last() == b[0]);
    } else if a.len() > 0 && b.len() > 1 {
        joined_parts_stand_apart(a, b.drop_last(), separator);
        assert((a + b).drop_last() =~= a + b.drop_last());
        assert((a + b).last() == b.last());
        assert(join(a + b, separator) =~= join(a, separator) + separator + join(b, separator));
    }
}

/// A number in decimal has the digits that it is written with in the usual way: the last is what is
/// left of it below ten, and those in front of it are the number of its tens.
pub proof fn decimal_is_written_in_tens(n: nat)
    ensures
        n < 10 ==> decimal(n).len() == 1,
        n >= 10 ==> decimal(n).drop_last() == decimal(n / 10),
        decimal(n).last() as int == '0' as int + n % 10,
{
    if n >= 10 {
        assert(decimal(n).drop_last() =~= decimal(n / 10));
    }
}

// ---------------------------------------------------------------------------------------------
// Functions
// ---------------------------------------------------------------------------------------------

/// Whether two texts are the same.
pub fn same_text(a: &str, b: &str) -> (r: bool)
    ensures
        r == (a@ == b@),
{
    str::eq(a, b)
}

/// The characters of a text.
pub fn chars_of(text: &str) -> (r: Vec<char>)
    ensures
        r@ == text@,
{
    let mut out: Vec<char> = Vec::new();
    for c in iter: text.chars()
        invariant
            iter.seq() == text@,
            out@ == text@.take(iter.index() as int),
    {
        out.push(c);
    }
    out
}

/// The text made of the given characters.
pub fn string_of(chars: &[char]) -> (r: String)
    ensures
        r@ == chars@,
{
    let mut out = String::new();
    for i in 0..chars.len()
        invariant
            out@ == chars@.take(i as int),
    {
        out.push(chars[i]);
        assert(chars@.take(i + 1) == chars@.take(i as int).push(chars@[i as int]));
    }
    assert(chars@.take(chars.len() as int) == chars@);
    out
}

/// Whether a character is white space.
pub fn white_space(c: char) -> (r: bool)
    ensures
        r == is_white_space(c),
{
    let u: u32 = c as u32;
    (0x9 <= u && u <= 0xd) || u == 0x20 || u == 0x85 || u == 0xa0 || u == 0x1680 || (0x2000 <= u
        && u <= 0x200a) || u == 0x2028 || u == 0x2029 || u == 0x202f || u == 0x205f || u == 0x3000
}

/// Whether `pattern` stands in `text` at position `at`.
pub fn matches_at(text: &[char], pattern: &[char], at: usize) -> (r: bool)
    ensures
        r == occurs_at(text@, pattern@, at as int),
{
    if at > text.len() || pattern.len() > text.len() - at {
        return false;
    }
    for k in 0..pattern.len()
        invariant
            at + pattern.len() <= text.len(),
            forall|j: int| 0 <= j < k ==> text@[at + j] == #[trigger] pattern@[j],
    {
        if text[at + k] != pattern[k] {
            assert(text@.subrange(at as int, at + pattern@.len())[k as int] != pattern@[k as int]);
            return false;
        }
    }
    assert(text@.subrange(at as int, at + pattern@.len()) == pattern@);
    true
}

/// The first position, not before `from`, at which `pattern` stands in `text`.
pub fn find_chars(text: &[char], pattern: &[char], from: usize) -> (r: Option<usize>)
    ensures
        r is Some == find_from(text@, pattern@, from as int) is Some,
        r matches Some(i) ==> find_from(text@, pattern@, from as int) == Some(i as int),
        r matches Some(i) ==> from <= i && occurs_at(text@, pattern@, i as int),
        r matches Some(i) ==> i + pattern.len() <= text.len(),
{
    let mut at: usize = from;
    while at <= text.len() && pattern.len() <= text.len() - at
        invariant
            from <= at,
            find_from(text@, pattern@, from as int) == find_from(text@, pattern@, at as int),
        decreases text@.len() + 1 - at,
    {
        if matches_at(text, pattern, at) {
            return Some(at);
        }
        if at == text.len() {
            assert(find_from(text@, pattern@, at + 1) is None);
            return None;
        }
        at = at + 1;
    }
    None
}

/// What `find_from` says, put without recursion: the position it gives is the first one at which
/// the pattern stands, and where it gives none the pattern stands nowhere.
pub proof fn find_from_is_first(text: Seq<char>, pattern: Seq<char>, from: int)
    requires
        0 <= from,
    ensures
        match find_from(text, pattern, from) {
            Some(i) => from <= i && occurs_at(text, pattern, i) && forall|j: int|
                from <= j < i ==> !occurs_at(text, pattern, j),
            None => forall|j: int| from <= j ==> !occurs_at(text, pattern, j),
        },
    decreases text.len() + 1 - from,
{
    if from + pattern.len() > text.len() {
    } else if occurs_at(text, pattern, from) {
    } else {
        find_from_is_first(text, pattern, from + 1);
    }
}

/// Whether `pattern` stands somewhere in `text`.
pub fn contains_chars(text: &[char], pattern: &[char]) -> (r: bool)
    ensures
        r == occurs_in(text@, pattern@),
{
    proof {
        find_from_is_first(text@, pattern@, 0);
    }
    match find_chars(text, pattern, 0) {
        Some(_) => true,
        None => {
            assert forall|i: int| !occurs_at(text@, pattern@, i) by {
                if i >= 0 {
                    assert(0 <= i ==> !occurs_at(text@, pattern@, i));
                }
            }
            false
        },
    }
}

/// Whether `pattern` stands somewhere in `text`.
pub fn contains_text(text: &str, pattern: &str) -> (r: bool)
    ensures
        r == occurs_in(text@, pattern@),
{
    let t = chars_of(text);
    let p = chars_of(pattern);
    contains_chars(t.as_slice(), p.as_slice())
}

/// Whether `text` ends with `suffix`.
pub fn ends_with(text: &str, suffix: &str) -> (r: bool)
    ensures
        r == has_suffix(text@, suffix@),
{
    let t = chars_of(text);
    let s = chars_of(suffix);
    if s.len() > t.len() {
        return false;
    }
    let at: usize = t.len() - s.len();
    assert(t@.subrange(at as int, at + s@.len()) == t@.skip(at as int));
    matches_at(t.as_slice(), s.as_slice(), at)
}

/// The text without its leading white space.
pub fn trim_start_chars(text: &[char]) -> (r: &[char])
    ensures
        r@ == trim_start(text@),
{
    let mut lo: usize = 0;
    assert(text@.skip(0) == text@);
    while lo < text.len() && white_space(text[lo])
        invariant
            lo <= text@.len(),
            trim_start(text@) == trim_start(text@.skip(lo as int)),
        decreases text@.len() - lo,
    {
        assert(text@.skip(lo as int).drop_first() == text@.skip(lo + 1));
        lo = lo + 1;
    }
    assert(text@.subrange(lo as int, text@.len() as int) == text@.skip(lo as int));
    slice_subrange(text, lo, text.len())
}

/// The text without the white space around it.
pub fn trim_chars(text: &[char]) -> (r: &[char])
    ensures
        r@ == trim(text@),
{
    let front = trim_start_chars(text);
    let mut hi: usize = front.len();
    assert(front@.take(hi as int) == front@);
    while hi > 0 && white_space(front[hi - 1])
        invariant
            hi <= front@.len(),
            trim_end(front@) == trim_end(front@.take(hi as int)),
        decreases hi,
    {
        assert(front@.take(hi as int).drop_last() == front@.take(hi - 1));
        hi = hi - 1;
    }
    assert(front@.subrange(0, hi as int) == front@.take(hi as int));
    slice_subrange(front, 0, hi)
}

/// Whether nothing but white space stands in `text`.
pub fn is_blank(text: &str) -> (r: bool)
    ensures
        r == (trim(text@).len() == 0),
{
    let t = chars_of(text);
    trim_chars(t.as_slice()).len() == 0
}

/// A text with its ASCII capitals made small.
pub fn ascii_lowered(text: &str) -> (r: String)
    ensures
        r@ == ascii_lowercase(text@),
{
    let t = chars_of(text);
    let mut out = String::new();
    for i in 0..t.len()
        invariant
            t@ == text@,
            out@ == ascii_lowercase(text@).take(i as int),
    {
        out.push(small_letter(t[i]));
        assert(ascii_lowercase(text@).take(i + 1) == ascii_lowercase(text@).take(i as int).push(
            ascii_lower(t@[i as int]),
        ));
    }
    assert(ascii_lowercase(text@).take(t@.len() as int) == ascii_lowercase(text@));
    out
}

/// The small letter of an ASCII capital; any other character itself.
fn small_letter(c: char) -> (r: char)
    ensures
        r == ascii_lower(c),
{
    if 'A' <= c && c <= 'Z' {
        let u: u8 = c as u8;
        (u + 32) as char
    } else {
        c
    }
}

/// The words of a text.
pub fn split_words(text: &str) -> (r: Vec<String>)
    ensures
        texts(r@) == words(text@),
{
    let t = chars_of(text);
    let mut out: Vec<String> = Vec::new();
    let mut rest: &[char] = t.as_slice();
    assert(texts(out@) + words(rest@) == words(text@));
    loop
        invariant
            texts(out@) + words(rest@) == words(text@),
        ensures
            texts(out@) == words(text@),
        decreases rest@.len(),
    {
        let front = trim_start_chars(rest);
        proof {
            trim_start_shape(rest@);
            word_length_bound(front@);
        }
        if front.len() == 0 {
            assert(texts(out@) + words(rest@) == texts(out@));
            break;
        }
        let mut n: usize = 0;
        assert(front@.skip(0) == front@);
        while n < front.len() && !white_space(front[n])
            invariant
                n <= front@.len(),
                word_length(front@) == n + word_length(front@.skip(n as int)),
            decreases front@.len() - n,
        {
            assert(front@.skip(n as int).drop_first() == front@.skip(n + 1));
            n = n + 1;
        }
        let ghost before = out@;
        let ghost left = rest@;
        out.push(string_of(slice_subrange(front, 0, n)));
        rest = slice_subrange(front, n, front.len());
        proof {
            assert(front@.subrange(0, n as int) == front@.take(n as int));
            assert(front@.subrange(n as int, front@.len() as int) == front@.skip(n as int));
            assert(texts(out@) == texts(before) + seq![front@.take(n as int)]);
            assert(words(left) == seq![front@.take(n as int)] + words(rest@));
            assert(texts(out@) + words(rest@) == texts(before) + words(left));
        }
    }
    out
}

/// The parts with `separator` between each two.
pub fn join_texts(parts: &Vec<String>, separator: &str) -> (r: String)
    ensures
        r@ == join(texts(parts@), separator@),
{
    let mut out = String::new();
    let ghost all = texts(parts@);
    for i in 0..parts.len()
        invariant
            all == texts(parts@),
            out@ == join(all.take(i as int), separator@),
    {
        if i > 0 {
            out.append(separator);
        }
        out.append(parts[i].as_str());
        assert(all.take(i + 1).drop_last() == all.take(i as int));
        assert(all.take(i + 1).last() == parts@[i as int]@);
    }
    assert(all.take(parts@.len() as int) == all);
    out
}

/// A text of one's own, where there is one.
pub fn owned_text(text: &Option<String>) -> (r: Option<String>)
    ensures
        opt_text(r) == opt_text(*text),
{
    match text {
        Some(t) => Some(t.as_str().to_owned()),
        None => None,
    }
}

/// Two texts, one after the other.
pub fn concat(a: &str, b: &str) -> (r: String)
    ensures
        r@ == a@ + b@,
{
    let mut out = a.to_owned();
    out.append(b);
    out
}

/// The decimal digit of a number below ten.
fn digit_char(n: u64) -> (r: char)
    requires
        n < 10,
    ensures
        r == digit(n as nat),
{
    match n {
        0 => '0',
        1 => '1',
        2 => '2',
        3 => '3',
        4 => '4',
        5 => '5',
        6 => '6',
        7 => '7',
        8 => '8',
        _ => '9',
    }
}

/// A number in decimal.
pub fn decimal_text(n: u64) -> (r: String)
    ensures
        r@ == decimal(n as nat),
    decreases n,
{
    if n < 10 {
        let mut out = String::new();
        out.push(digit_char(n));
        assert(out@ == decimal(n as nat));
        out
    } else {
        let mut out = decimal_text(n / 10);
        out.push(digit_char(n % 10));
        out
    }
}

/// A number in decimal, with a minus sign where it is negative.
pub fn signed_decimal_text(n: i64) -> (r: String)
    ensures
        r@ == signed_decimal(n as int),
{
    if n < 0 {
        let magnitude: u64 = if n == i64::MIN {
            0x8000_0000_0000_0000u64
        } else {
            (-n) as u64
        };
        let digits = decimal_text(magnitude);
        let mut out = String::new();
        out.push('-');
        out.append(digits.as_str());
        assert(out@ == seq!['-'] + decimal(magnitude as nat));
        out
    } else {
        decimal_text(n as u64)
    }
}

/// A pattern stands in a place just where each of its characters stands there in its turn.
pub proof fn pattern_stands_letter_by_letter(text: Seq<char>, pattern: Seq<char>, i: int)
    ensures
        occurs_at(text, pattern, i) <==> 0 <= i && i + pattern.len() <= text.len() && forall|k: int|
            0 <= k < pattern.len() ==> text[i + k] == #[trigger] pattern[k],
{
    if 0 <= i && i + pattern.len() <= text.len() {
        let part = text.subrange(i, i + pattern.len());
        if part == pattern {
            assert forall|k: int| 0 <= k < pattern.len() implies text[i + k]
                == #[trigger] pattern[k] by {
                assert(part[k] == text[i + k]);
            }
        }
        if forall|k: int| 0 <= k < pattern.len() ==> text[i + k] == #[trigger] pattern[k] {
            assert(part =~= pattern);
        }
    }
}

/// A pattern occurs in a text just where the text is something in front of it, the pattern, and
/// something behind it.
pub proof fn pattern_has_a_front_and_a_back(text: Seq<char>, pattern: Seq<char>)
    ensures
        occurs_in(text, pattern) <==> exists|front: Seq<char>, back: Seq<char>|
            text == #[trigger] (front + pattern + back),
{
    if occurs_in(text, pattern) {
        let i = choose|i: int| occurs_at(text, pattern, i);
        let front = text.take(i);
        let back = text.skip(i + pattern.len());
        assert(text =~= front + pattern + back);
    }
    if exists|front: Seq<char>, back: Seq<char>| text == #[trigger] (front + pattern + back) {
        let (front, back) = choose|front: Seq<char>, back: Seq<char>|
            text == #[trigger] (front + pattern + back);
        assert(text.subrange(front.len() as int, (front.len() + pattern.len()) as int)
            =~= pattern);
        assert(occurs_at(text, pattern, front.len() as int));
    }
}

/// A text ends with a suffix just where it is something in front of it and the suffix.
pub proof fn suffix_stands_at_the_end(text: Seq<char>, suffix: Seq<char>)
    ensures
        has_suffix(text, suffix) <==> exists|front: Seq<char>|
            text == #[trigger] (front + suffix),
{
    if has_suffix(text, suffix) {
        let front = text.take(text.len() - suffix.len());
        assert(text =~= front + suffix);
    }
    if exists|front: Seq<char>| text == #[trigger] (front + suffix) {
        let front = choose|front: Seq<char>| text == #[trigger] (front + suffix);
        assert(text.skip(text.len() - suffix.len()) =~= suffix);
    }
}

} // verus!

//! What holds of every text: joining, trimming, and numbers.

use crate::text::{
    decimal, decimal_is_digits, digits_value, is_digit, is_white, joined_texts, texts, trimmed, u16_value,
    without_leading_white, without_plus, without_trailing_white, written_number_reads_back,
};
use vstd::prelude::*;

verus! {

// ---- several texts --------------------------------------------------------

/// There is one text for each string, and it is what that string holds.
pub proof fn texts_are_those_of_the_strings(strings: Seq<String>)
    ensures
        texts(strings).len() == strings.len(),
        forall|i: int| 0 <= i < strings.len() ==> #[trigger] texts(strings)[i] == strings[i]@,
{
}

/// Joining nothing gives nothing, joining one text gives that text, and joining
/// two runs of texts puts one separator between them.
pub proof fn joined_runs_have_one_separator_between(
    front: Seq<Seq<char>>,
    back: Seq<Seq<char>>,
    separator: char,
)
    ensures
        joined_texts(Seq::empty(), separator) == Seq::<char>::empty(),
        front.len() == 1 ==> joined_texts(front, separator) == front[0],
        front.len() > 0 && back.len() > 0 ==> joined_texts(front + back, separator) == joined_texts(
            front,
            separator,
        ) + seq![separator] + joined_texts(back, separator),
    decreases back.len(),
{
    let whole = front + back;
    if front.len() > 0 && back.len() > 0 {
        assert(whole.last() == back.last());
        assert(whole.drop_last() =~= front + back.drop_last());
        if back.len() == 1 {
            assert(front + back.drop_last() =~= front);
        } else {
            joined_runs_have_one_separator_between(front, back.drop_last(), separator);
        }
        assert(joined_texts(whole, separator) =~= joined_texts(front, separator) + seq![separator]
            + joined_texts(back, separator));
    }
}

/// Joined texts are as long as the texts together, and one separator between
/// each two.
pub proof fn joining_adds_separators_only(parts: Seq<Seq<char>>, last: Seq<char>, separator: char)
    requires
        parts.len() > 0,
    ensures
        joined_texts(parts.push(last), separator).len() == joined_texts(parts, separator).len() + 1
            + last.len(),
        joined_texts(parts, separator).is_prefix_of(joined_texts(parts.push(last), separator)),
        last.is_suffix_of(joined_texts(parts.push(last), separator)),
{
    let longer = joined_texts(parts.push(last), separator);
    assert(parts.push(last).drop_last() =~= parts);
    assert(joined_texts(parts, separator) =~= longer.subrange(
        0,
        joined_texts(parts, separator).len() as int,
    ));
    assert(last =~= longer.subrange(longer.len() - last.len(), longer.len() as int));
}

// ---- white space ----------------------------------------------------------

/// White space is what Unicode counts as such, and nothing else.
pub proof fn white_space_is_that_of_unicode(c: char)
    ensures
        is_white(c) <==> {
            let n = c as int;
            ||| 9 <= n <= 13
            ||| n == 32
            ||| n == 133
            ||| n == 160
            ||| n == 5760
            ||| 8192 <= n <= 8202
            ||| n == 8232 || n == 8233 || n == 8239 || n == 8287 || n == 12288
        },
{
}

proof fn lemma_leading_white_goes(white: Seq<char>, rest: Seq<char>)
    requires
        forall|i: int| 0 <= i < white.len() ==> is_white(#[trigger] white[i]),
    ensures
        without_leading_white(white + rest) == without_leading_white(rest),
    decreases white.len(),
{
    let whole = white + rest;
    if white.len() == 0 {
        assert(whole =~= rest);
    } else {
        assert(whole[0] == white[0]);
        assert(whole.skip(1) =~= white.skip(1) + rest);
        assert forall|i: int| 0 <= i < white.skip(1).len() implies is_white(
            #[trigger] white.skip(1)[i],
        ) by {
            assert(white.skip(1)[i] == white[i + 1]);
        }
        lemma_leading_white_goes(white.skip(1), rest);
    }
}

proof fn lemma_trailing_white_goes(rest: Seq<char>, white: Seq<char>)
    requires
        forall|i: int| 0 <= i < white.len() ==> is_white(#[trigger] white[i]),
    ensures
        without_trailing_white(rest + white) == without_trailing_white(rest),
    decreases white.len(),
{
    let whole = rest + white;
    if white.len() == 0 {
        assert(whole =~= rest);
    } else {
        assert(whole.last() == white[white.len() - 1]);
        assert(whole.drop_last() =~= rest + white.drop_last());
        assert forall|i: int| 0 <= i < white.drop_last().len() implies is_white(
            #[trigger] white.drop_last()[i],
        ) by {
            assert(white.drop_last()[i] == white[i]);
        }
        lemma_trailing_white_goes(rest, white.drop_last());
    }
}

/// Trimming takes off the white space before and behind a text, however much
/// there is, and leaves everything else, white space inside the text included.
pub proof fn trimming_takes_off_just_the_surroundings(
    before: Seq<char>,
    text: Seq<char>,
    behind: Seq<char>,
)
    requires
        forall|i: int| 0 <= i < before.len() ==> is_white(#[trigger] before[i]),
        forall|i: int| 0 <= i < behind.len() ==> is_white(#[trigger] behind[i]),
        text.len() > 0 ==> !is_white(text[0]) && !is_white(text[text.len() - 1]),
    ensures
        trimmed(before + text + behind) == text,
{
    assert(before + text + behind =~= before + (text + behind));
    lemma_leading_white_goes(before, text + behind);
    if text.len() > 0 {
        assert((text + behind)[0] == text[0]);
        lemma_trailing_white_goes(text, behind);
    } else {
        let nothing = Seq::<char>::empty();
        assert(text + behind =~= behind + nothing);
        lemma_leading_white_goes(behind, nothing);
        assert(text =~= nothing);
    }
}

// ---- numbers --------------------------------------------------------------

/// Whether a text is made of decimal digits alone.
pub open spec fn all_digits(s: Seq<char>) -> bool {
    forall|i: int| 0 <= i < s.len() ==> '0' <= #[trigger] s[i] <= '9'
}

proof fn lemma_digits_stand_alone(s: Seq<char>)
    requires
        all_digits(s),
    ensures
        without_plus(s) == s,
        u16_value(s) == if s.len() > 0 && digits_value(s) <= 65535 {
            Some(digits_value(s) as u16)
        } else {
            None
        },
{
    if s.len() > 0 {
        assert('0' <= s[0] <= '9');
    }
    assert(forall|i: int| 0 <= i < s.len() ==> is_digit(#[trigger] s[i]));
}

/// A digit stands for its value, and each further digit makes the number ten
/// times as large and adds its own value, up to what fits in 16 bits.
pub proof fn numbers_grow_digit_by_digit(s: Seq<char>, c: char)
    requires
        all_digits(s),
        '0' <= c <= '9',
    ensures
        s.len() == 0 ==> u16_value(s.push(c)) == Some((c as int - '0' as int) as u16),
        s.len() > 0 && u16_value(s) is Some ==> ({
            let n = u16_value(s)->0 * 10 + (c as int - '0' as int);
            u16_value(s.push(c)) == if n <= 65535 {
                Some(n as u16)
            } else {
                None
            }
        }),
        s.len() > 0 && u16_value(s) is None ==> u16_value(s.push(c)) is None,
{
    let longer = s.push(c);
    assert(longer.drop_last() =~= s);
    assert forall|i: int| 0 <= i < longer.len() implies '0' <= #[trigger] longer[i] <= '9' by {
        if i < s.len() {
            assert(longer[i] == s[i]);
        }
    }
    lemma_digits_stand_alone(s);
    lemma_digits_stand_alone(longer);
    if s.len() == 0 {
        assert(digits_value(s) == 0);
    }
}

/// One plus sign before the digits changes nothing.
pub proof fn plus_sign_changes_nothing(s: Seq<char>)
    requires
        all_digits(s),
    ensures
        u16_value(seq!['+'] + s) == u16_value(s),
{
    lemma_digits_stand_alone(s);
    assert((seq!['+'] + s).skip(1) =~= s);
    assert(forall|i: int| 0 <= i < s.len() ==> is_digit(#[trigger] s[i]));
}

/// Nothing but digits, with at most a plus sign before them, is a number.
pub proof fn only_digits_are_numbers(s: Seq<char>)
    requires
        u16_value(s) is Some,
    ensures
        s.len() > 0,
        all_digits(s) || (s[0] == '+' && s.len() > 1 && all_digits(s.skip(1))),
{
    let digits = without_plus(s);
    assert(forall|i: int| 0 <= i < digits.len() ==> is_digit(#[trigger] digits[i]));
}

/// No digits are no number.
pub proof fn nothing_is_no_number()
    ensures
        u16_value(Seq::empty()) is None,
{
}

proof fn lemma_unique_digits(s: Seq<char>)
    requires
        s.len() > 0,
        all_digits(s),
        s.len() == 1 || s[0] != '0',
    ensures
        s == decimal(digits_value(s)),
        s.len() > 1 ==> digits_value(s) >= 10,
        s[0] != '0' ==> digits_value(s) > 0,
    decreases s.len(),
{
    let front = s.drop_last();
    let last = s.last();
    assert('0' <= s[s.len() - 1] <= '9');
    assert('0' <= s[0] <= '9');
    let d = (last as nat - '0' as nat) as nat;
    assert(crate::text::digit(d) == last);
    if s.len() == 1 {
        assert(front =~= Seq::<char>::empty());
        assert(digits_value(front) == 0);
        assert(digits_value(s) == d);
        assert(decimal(d) =~= s);
    } else {
        assert forall|i: int| 0 <= i < front.len() implies '0' <= #[trigger] front[i] <= '9' by {
            assert(front[i] == s[i]);
        }
        assert(front[0] == s[0]);
        lemma_unique_digits(front);
        let n = digits_value(s);
        assert(n == digits_value(front) * 10 + d);
        assert(n / 10 == digits_value(front) && n % 10 == d);
        assert(decimal(n) =~= s);
    }
}

/// A number is written in decimal digits without leading zeros, and it is read
/// back from them.
pub proof fn written_numbers_are_plain(n: u16)
    ensures
        decimal(n as nat).len() > 0,
        all_digits(decimal(n as nat)),
        decimal(n as nat).len() > 1 ==> decimal(n as nat)[0] != '0',
        u16_value(decimal(n as nat)) == Some(n),
{
    decimal_is_digits(n as nat);
    written_number_reads_back(n);
    lemma_no_leading_zero(n as nat);
    let s = decimal(n as nat);
    assert forall|i: int| 0 <= i < s.len() implies '0' <= #[trigger] s[i] <= '9' by {
        assert(is_digit(s[i]));
    }
}

proof fn lemma_no_leading_zero(n: nat)
    ensures
        decimal(n).len() > 0,
        n > 0 ==> decimal(n)[0] != '0',
        decimal(n).len() > 1 ==> n >= 10,
    decreases n,
{
    if n >= 10 {
        lemma_no_leading_zero(n / 10);
        assert(decimal(n)[0] == decimal(n / 10)[0]);
    }
}

/// Among the texts that stand for a number, the written one is the only one
/// without a plus sign or leading zeros.
pub proof fn written_form_is_the_only_plain_one(s: Seq<char>, n: u16)
    requires
        u16_value(s) == Some(n),
        s[0] != '+',
        s.len() > 1 ==> s[0] != '0',
    ensures
        s == decimal(n as nat),
{
    only_digits_are_numbers(s);
    lemma_digits_stand_alone(s);
    lemma_unique_digits(s);
}

} // verus!

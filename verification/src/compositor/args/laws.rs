//! How a command line is read, told by command lines that differ in one place.

use vstd::prelude::*;

use super::{
    digits_end, exponent_from, fraction_text, is_digit, is_fraction_text, lowered, no_args,
    parse_nested_args, parse_whole_number, parsed, spells, whole_number, NestedArgs,
    NestedArgsView,
};
use crate::error::{Error, ErrorView};
use crate::json::unique::lemma_decimal_digits;
use crate::testing::texts;
use crate::text::{decimal, law_decimal_spells_its_number};

verus! {

/// A whole number is read as it is written, with or without a plus sign; a text that holds
/// anything but digits after the sign, or nothing, is none.
pub proof fn law_whole_number_is_read_as_written(text: &str, r: Option<u64>, n: u64, at: int)
    requires
        call_ensures(parse_whole_number, (text,), r),
    ensures
        text@ == decimal(n as nat) ==> r == Some(n),
        text@ == seq!['+'] + decimal(n as nat) ==> r == Some(n),
        text@.len() == 0 ==> r is None,
        text@ == seq!['+'] ==> r is None,
        0 <= at < text@.len() && !('0' <= text@[at] && text@[at] <= '9') && !(at == 0 && text@[0]
            == '+') ==> r is None,
{
    law_decimal_spells_its_number(n as nat);
    lemma_decimal_digits(n as nat);
    let digits = super::without_plus(text@);
    if text@ == seq!['+'] + decimal(n as nat) {
        assert(digits =~= decimal(n as nat));
    }
    if 0 <= at < text@.len() && !('0' <= text@[at] && text@[at] <= '9') && !(at == 0 && text@[0]
        == '+') {
        if text@[0] == '+' {
            assert(digits[at - 1] == text@[at]);
        } else {
            assert(digits[at] == text@[at]);
        }
    }
}

proof fn lemma_digits_end(s: Seq<char>, from: int, end: int)
    requires
        0 <= from <= end <= s.len(),
        forall|i: int| from <= i < end ==> '0' <= #[trigger] s[i] && s[i] <= '9',
        end < s.len() ==> !('0' <= s[end] && s[end] <= '9'),
    ensures
        digits_end(s, from) == end,
    decreases end - from,
{
    if from < end {
        assert('0' <= s[from] && s[from] <= '9');
        lemma_digits_end(s, from + 1, end);
    }
}

/// Digits are a number, and so are digits with a point among them or at either end; a point
/// alone and nothing at all are none.
pub proof fn law_digits_and_a_point_are_a_number(
    text: &str,
    r: bool,
    whole: Seq<char>,
    part: Seq<char>,
)
    requires
        call_ensures(is_fraction_text, (text,), r),
        forall|i: int| 0 <= i < whole.len() ==> '0' <= #[trigger] whole[i] && whole[i] <= '9',
        forall|i: int| 0 <= i < part.len() ==> '0' <= #[trigger] part[i] && part[i] <= '9',
    ensures
        text@ == whole && whole.len() > 0 ==> r,
        text@ == whole + seq!['.'] + part && (whole.len() > 0 || part.len() > 0) ==> r,
        text@ == seq!['.'] ==> !r,
        text@.len() == 0 ==> !r,
{
    let s = text@;
    let w = whole.len() as int;
    if s == whole && w > 0 {
        assert('0' <= s[0]);
        lemma_digits_end(s, 0, w);
    }
    if s == whole + seq!['.'] + part && (w > 0 || part.len() > 0) {
        assert forall|i: int| 0 <= i < w implies '0' <= #[trigger] s[i] && s[i] <= '9' by {
            assert(s[i] == whole[i]);
        }
        assert(s[w] == '.');
        lemma_digits_end(s, 0, w);
        assert forall|i: int| w + 1 <= i < s.len() implies '0' <= #[trigger] s[i] && s[i]
            <= '9' by {
            assert(s[i] == part[i - w - 1]);
        }
        lemma_digits_end(s, w + 1, s.len() as int);
        if w > 0 {
            assert(s[0] == whole[0]);
            assert('0' <= whole[0]);
        }
    }
    if s == seq!['.'] {
        reveal_strlit("inf");
        reveal_strlit("infinity");
        reveal_strlit("nan");
        assert(s.skip(0) =~= s);
        lemma_digits_end(s, 0, 0);
        lemma_digits_end(s, 1, 1);
    }
}

proof fn lemma_digits_end_shifts(s: Seq<char>, c: char, from: int)
    requires
        0 <= from <= s.len(),
    ensures
        digits_end(seq![c] + s, from + 1) == digits_end(s, from) + 1,
        from <= digits_end(s, from) <= s.len(),
    decreases s.len() - from,
{
    let t = seq![c] + s;
    if from < s.len() {
        assert(t[from + 1] == s[from]);
        lemma_digits_end_shifts(s, c, from + 1);
    }
}

proof fn lemma_exponent_shifts(s: Seq<char>, c: char, from: int)
    requires
        0 <= from <= s.len(),
    ensures
        exponent_from(seq![c] + s, from + 1) == exponent_from(s, from),
{
    let t = seq![c] + s;
    if from < s.len() {
        assert(t[from + 1] == s[from]);
        if from + 1 < s.len() {
            assert(t[from + 2] == s[from + 1]);
            lemma_digits_end_shifts(s, c, from + 1);
        }
        if from + 2 <= s.len() {
            lemma_digits_end_shifts(s, c, from + 2);
        }
    }
}

/// A sign before a text that has none changes nothing of whether it is a number.
pub proof fn law_sign_may_stand_before_a_number(
    plain: &str,
    signed: &str,
    sign: char,
    r: bool,
    with_sign: bool,
)
    requires
        call_ensures(is_fraction_text, (plain,), r),
        call_ensures(is_fraction_text, (signed,), with_sign),
        sign == '+' || sign == '-',
        signed@ == seq![sign] + plain@,
        plain@.len() > 0 ==> plain@[0] != '+' && plain@[0] != '-',
    ensures
        with_sign == r,
{
    let s = plain@;
    let t = signed@;
    assert(t[0] == sign);
    assert(t.skip(1) =~= s);
    assert(s.skip(0) =~= s);
    if s.len() > 0 {
        lemma_digits_end_shifts(s, sign, 0);
        let whole = digits_end(s, 0);
        lemma_exponent_shifts(s, sign, whole);
        if whole < s.len() {
            assert(t[whole + 1] == s[whole]);
            lemma_digits_end_shifts(s, sign, whole + 1);
            lemma_exponent_shifts(s, sign, digits_end(s, whole + 1));
        }
    }
}

/// Digits with an exponent are a number: the letter e, small or large, a sign or none, and
/// digits. Without digits after the letter they are none.
pub proof fn law_exponent_needs_digits(
    text: &str,
    r: bool,
    whole: Seq<char>,
    letter: char,
    sign: Seq<char>,
    power: Seq<char>,
)
    requires
        call_ensures(is_fraction_text, (text,), r),
        whole.len() > 0,
        forall|i: int| 0 <= i < whole.len() ==> '0' <= #[trigger] whole[i] && whole[i] <= '9',
        letter == 'e' || letter == 'E',
        sign == Seq::<char>::empty() || sign == seq!['+'] || sign == seq!['-'],
        forall|i: int| 0 <= i < power.len() ==> '0' <= #[trigger] power[i] && power[i] <= '9',
        text@ == whole + seq![letter] + sign + power,
    ensures
        r <==> power.len() > 0,
{
    reveal_strlit("inf");
    reveal_strlit("infinity");
    reveal_strlit("nan");
    let s = text@;
    let w = whole.len() as int;
    let start = w + 1 + sign.len();
    assert(s[0] == whole[0] && '0' <= whole[0]);
    assert forall|i: int| 0 <= i < w implies '0' <= #[trigger] s[i] && s[i] <= '9' by {
        assert(s[i] == whole[i]);
    }
    assert(s[w] == letter);
    assert(s.skip(0)[0] == s[0]);
    lemma_digits_end(s, 0, w);
    if sign.len() > 0 {
        assert(s[w + 1] == sign[0]);
    } else if power.len() > 0 {
        assert(s[w + 1] == power[0] && '0' <= power[0]);
    }
    if power.len() > 0 {
        assert forall|i: int| start <= i < s.len() implies '0' <= #[trigger] s[i] && s[i]
            <= '9' by {
            assert(s[i] == power[i - start]);
        }
        lemma_digits_end(s, start, s.len() as int);
    }
    assert(!spells(s.skip(0), "inf"@)) by {
        if s.len() == 3 {
            assert(lowered(s.skip(0)[0]) == s[0]);
        }
    }
    assert(!spells(s.skip(0), "infinity"@)) by {
        if s.len() == 8 {
            assert(lowered(s.skip(0)[0]) == s[0]);
        }
    }
    assert(!spells(s.skip(0), "nan"@)) by {
        if s.len() == 3 {
            assert(lowered(s.skip(0)[0]) == s[0]);
        }
    }
}

/// Whether a character is a small letter or the large one that belongs to it.
pub open spec fn either_case(c: char, small: char) -> bool {
    c == small || c as u32 + 32 == small as u32
}

/// The words for infinity and for no number are numbers, in small and large letters.
pub proof fn law_words_are_numbers_in_either_case(text: &str, r: bool, word: Seq<char>)
    requires
        call_ensures(is_fraction_text, (text,), r),
        word == "inf"@ || word == "infinity"@ || word == "nan"@,
        text@.len() == word.len(),
        forall|i: int| 0 <= i < word.len() ==> either_case(#[trigger] text@[i], word[i]),
    ensures
        r,
{
    reveal_strlit("inf");
    reveal_strlit("infinity");
    reveal_strlit("nan");
    let s = text@;
    assert(s.skip(0) =~= s);
    assert(either_case(s[0], word[0]));
    assert forall|i: int| 0 <= i < s.len() implies lowered(#[trigger] s[i]) == word[i] by {
        assert(either_case(s[i], word[i]));
        assert('a' <= word[i] && word[i] <= 'z');
    }
    assert(spells(s.skip(0), word));
}

proof fn lemma_digits_lie_before_the_end(s: Seq<char>, from: int)
    requires
        0 <= from <= s.len(),
    ensures
        from <= digits_end(s, from) <= s.len(),
        forall|i: int| from <= i < digits_end(s, from) ==> '0' <= #[trigger] s[i] && s[i] <= '9',
    decreases s.len() - from,
{
    if from < s.len() && is_digit(s[from]) {
        lemma_digits_lie_before_the_end(s, from + 1);
    }
}

/// A number that begins with a digit or a point is made of digits, one point at most, and the
/// signs and letters of an exponent: nothing else stands in it.
pub proof fn law_number_is_made_of_its_characters(text: &str, r: bool, i: int)
    requires
        call_ensures(is_fraction_text, (text,), r),
        r,
        text@.len() > 0,
        '0' <= text@[0] && text@[0] <= '9' || text@[0] == '.',
        0 <= i < text@.len(),
    ensures
        ({
            let c = text@[i];
            '0' <= c && c <= '9' || c == '.' || c == 'e' || c == 'E' || c == '+' || c == '-'
        }),
{
    reveal_strlit("inf");
    reveal_strlit("infinity");
    reveal_strlit("nan");
    let s = text@;
    assert(s.skip(0) =~= s);
    assert(lowered(s[0]) == s[0]);
    assert(!spells(s, "inf"@) && !spells(s, "infinity"@) && !spells(s, "nan"@)) by {
        if s.len() == 3 || s.len() == 8 {
            assert(lowered(s[0]) != 'i' && lowered(s[0]) != 'n');
        }
    }
    let whole = digits_end(s, 0);
    lemma_digits_lie_before_the_end(s, 0);
    let at = if whole < s.len() && s[whole] == '.' {
        lemma_digits_lie_before_the_end(s, whole + 1);
        digits_end(s, whole + 1)
    } else {
        whole
    };
    if at < s.len() {
        let sign = if at + 1 < s.len() && (s[at + 1] == '+' || s[at + 1] == '-') {
            at + 2
        } else {
            at + 1
        };
        lemma_digits_lie_before_the_end(s, sign);
    }
}

/// What comes of options that are read after others: the later of two values stands.
spec fn merged(first: NestedArgsView, then: NestedArgsView) -> NestedArgsView {
    NestedArgsView {
        run_for_secs: if then.run_for_secs is Some {
            then.run_for_secs
        } else {
            first.run_for_secs
        },
        scale: if then.scale is Some {
            then.scale
        } else {
            first.scale
        },
        title: if then.title is Some {
            then.title
        } else {
            first.title
        },
        client: if then.client.len() > 0 {
            then.client
        } else {
            first.client
        },
    }
}

spec fn merged_result(first: NestedArgsView, then: Result<NestedArgsView, ErrorView>) -> Result<
    NestedArgsView,
    ErrorView,
> {
    match then {
        Ok(v) => Ok(merged(first, v)),
        Err(e) => Err(e),
    }
}

proof fn lemma_parsed_later(args: Seq<Seq<char>>, from: int, so_far: NestedArgsView)
    requires
        0 <= from <= args.len(),
        so_far.client.len() == 0,
    ensures
        parsed(args, from, so_far) == merged_result(so_far, parsed(args, from, no_args())),
    decreases args.len() - from,
{
    let none = no_args();
    if from == args.len() {
        assert(merged(so_far, none).client =~= so_far.client);
    } else if from + 1 < args.len() && (args[from] == "--run-for"@ || args[from] == "--scale"@
        || args[from] == "--title"@) {
        let value = args[from + 1];
        if args[from] == "--run-for"@ {
            let n = whole_number(value);
            if n is Some {
                lemma_parsed_later(args, from + 2, NestedArgsView { run_for_secs: n, ..so_far });
                lemma_parsed_later(args, from + 2, NestedArgsView { run_for_secs: n, ..none });
                lemma_merged_twice(
                    so_far,
                    NestedArgsView { run_for_secs: n, ..none },
                    parsed(args, from + 2, none),
                );
                assert(merged(so_far, NestedArgsView { run_for_secs: n, ..none }) =~= (
                NestedArgsView { run_for_secs: n, ..so_far }));
            }
        } else if args[from] == "--scale"@ {
            if fraction_text(value) {
                lemma_parsed_later(args, from + 2, NestedArgsView { scale: Some(value), ..so_far });
                lemma_parsed_later(args, from + 2, NestedArgsView { scale: Some(value), ..none });
                lemma_merged_twice(
                    so_far,
                    NestedArgsView { scale: Some(value), ..none },
                    parsed(args, from + 2, none),
                );
            }
        } else {
            lemma_parsed_later(args, from + 2, NestedArgsView { title: Some(value), ..so_far });
            lemma_parsed_later(args, from + 2, NestedArgsView { title: Some(value), ..none });
            lemma_merged_twice(
                so_far,
                NestedArgsView { title: Some(value), ..none },
                parsed(args, from + 2, none),
            );
        }
    } else if args[from] == "--client"@ {
        let client = args.skip(from + 1);
        if client.len() == 0 {
            assert(client =~= so_far.client);
            assert(client =~= none.client);
        }
    }
}

proof fn lemma_merged_twice(
    a: NestedArgsView,
    b: NestedArgsView,
    c: Result<NestedArgsView, ErrorView>,
)
    requires
        a.client.len() == 0,
        b.client.len() == 0,
    ensures
        merged_result(a, merged_result(b, c)) == merged_result(
            NestedArgsView { client: b.client, ..merged(a, b) },
            c,
        ),
{
    if let Ok(v) = c {
        let left = merged(a, merged(b, v));
        let right = merged(NestedArgsView { client: b.client, ..merged(a, b) }, v);
        assert(left.client =~= right.client);
    }
}

proof fn lemma_parsed_shifted(
    args: Seq<Seq<char>>,
    rest: Seq<Seq<char>>,
    shift: int,
    from: int,
    so_far: NestedArgsView,
)
    requires
        0 <= shift <= args.len(),
        rest == args.skip(shift),
        0 <= from <= rest.len(),
    ensures
        parsed(args, shift + from, so_far) == parsed(rest, from, so_far),
    decreases rest.len() - from,
{
    if from < rest.len() {
        assert(args[shift + from] == rest[from]);
        if from + 1 < rest.len() {
            assert(args[shift + from + 1] == rest[from + 1]);
            let value = rest[from + 1];
            lemma_parsed_shifted(
                args,
                rest,
                shift,
                from + 2,
                NestedArgsView { run_for_secs: whole_number(value), ..so_far },
            );
            lemma_parsed_shifted(
                args,
                rest,
                shift,
                from + 2,
                NestedArgsView { scale: Some(value), ..so_far },
            );
            lemma_parsed_shifted(
                args,
                rest,
                shift,
                from + 2,
                NestedArgsView { title: Some(value), ..so_far },
            );
        }
        assert(args.skip(shift + from + 1) =~= rest.skip(from + 1));
    }
}

/// An option with its value before other arguments sets that value, unless one of them sets
/// it again, and changes nothing else of what they ask for. A value that is no number is
/// refused where a number is wanted.
pub proof fn law_option_before_others_sets_its_value(
    args: &[String],
    rest: &[String],
    whole: Result<NestedArgs, Error>,
    others: Result<NestedArgs, Error>,
)
    requires
        call_ensures(parse_nested_args, (args,), whole),
        call_ensures(parse_nested_args, (rest,), others),
        args@.len() == rest@.len() + 2,
        texts(rest@) == texts(args@).skip(2),
    ensures
        ({
            let option = args@[0]@;
            let value = args@[1]@;
            &&& option == "--title"@ ==> (whole is Ok <==> others is Ok)
            &&& option == "--run-for"@ ==> (whole is Ok <==> others is Ok && whole_number(value)
                is Some)
            &&& option == "--scale"@ ==> (whole is Ok <==> others is Ok && fraction_text(value))
            &&& whole is Ok && (option == "--title"@ || option == "--run-for"@ || option
                == "--scale"@) ==> {
                let a = whole->Ok_0@;
                let b = others->Ok_0@;
                &&& a.client == b.client
                &&& a.title == (if b.title is None && option == "--title"@ {
                    Some(value)
                } else {
                    b.title
                })
                &&& a.run_for_secs == (if b.run_for_secs is None && option == "--run-for"@ {
                    whole_number(value)
                } else {
                    b.run_for_secs
                })
                &&& a.scale == (if b.scale is None && option == "--scale"@ {
                    Some(value)
                } else {
                    b.scale
                })
            }
        }),
{
    let all = texts(args@);
    let tail = texts(rest@);
    let none = no_args();
    assert(all[0] == args@[0]@ && all[1] == args@[1]@);
    let value = all[1];
    reveal_strlit("--title");
    reveal_strlit("--run-for");
    reveal_strlit("--scale");
    assert("--title"@.len() != "--run-for"@.len());
    assert("--scale"@[2] != "--title"@[2]);
    assert("--scale"@.len() != "--run-for"@.len());
    lemma_parsed_shifted(all, tail, 2, 0, none);
    lemma_parsed_later(all, 2, NestedArgsView { run_for_secs: whole_number(value), ..none });
    lemma_parsed_later(all, 2, NestedArgsView { scale: Some(value), ..none });
    lemma_parsed_later(all, 2, NestedArgsView { title: Some(value), ..none });
    if others is Ok {
        let b = others->Ok_0@;
        if b.client.len() == 0 {
            assert(b.client =~= none.client);
        }
    }
}

/// Everything after `--client` is the client, in order, whatever it looks like; an argument
/// that nobody knows is refused; and no arguments ask for nothing.
pub proof fn law_client_takes_the_rest(args: &[String], r: Result<NestedArgs, Error>)
    requires
        call_ensures(parse_nested_args, (args,), r),
    ensures
        args@.len() == 0 ==> r is Ok && r->Ok_0@ == no_args(),
        args@.len() > 0 && args@[0]@ == "--client"@ ==> {
            &&& r is Ok
            &&& seq!["--client"@] + texts(r->Ok_0.client@) == texts(args@)
            &&& r->Ok_0@.title is None
            &&& r->Ok_0@.scale is None
            &&& r->Ok_0@.run_for_secs is None
        },
        args@.len() > 0 && args@[0]@ != "--client"@ && args@[0]@ != "--title"@ && args@[0]@
            != "--scale"@ && args@[0]@ != "--run-for"@ ==> r is Err,
        args@.len() == 1 && args@[0]@ != "--client"@ ==> r is Err,
{
    let all = texts(args@);
    if args@.len() > 0 {
        assert(all[0] == args@[0]@);
        if all[0] == "--client"@ {
            reveal_strlit("--title");
            reveal_strlit("--run-for");
            reveal_strlit("--scale");
            reveal_strlit("--client");
            assert(all[0].len() == 8);
            assert("--run-for"@.len() == 9);
            assert(seq!["--client"@] + all.skip(1) =~= all);
        }
    }
}

} // verus!

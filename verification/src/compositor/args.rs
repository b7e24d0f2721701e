//! The command line of the nested run.

use vstd::prelude::*;

use crate::error::{plain_error, Error, ErrorCode, ErrorView};
use crate::id::TraceId;
use crate::testing::texts;
use crate::text::{chars_of, same_text};

pub mod laws;

verus! {

/// Whether a character is a decimal digit.
pub open spec fn is_digit(c: char) -> bool {
    '0' <= c && c <= '9'
}

/// Whether every character is a decimal digit.
pub open spec fn all_digits(s: Seq<char>) -> bool {
    forall|i: int| 0 <= i < s.len() ==> is_digit(#[trigger] s[i])
}

/// `s` without a plus sign before it.
pub open spec fn without_plus(s: Seq<char>) -> Seq<char> {
    if s.len() > 0 && s[0] == '+' {
        s.skip(1)
    } else {
        s
    }
}

/// The number that a text spells, where it spells one that fits: digits, with or without
/// a plus sign.
pub open spec fn whole_number(s: Seq<char>) -> Option<u64> {
    let digits = without_plus(s);
    if digits.len() > 0 && all_digits(digits) && crate::text::digits_value(digits) <= u64::MAX {
        Some(crate::text::digits_value(digits) as u64)
    } else {
        None
    }
}

proof fn lemma_value_grows(s: Seq<char>, n: int)
    requires
        0 <= n <= s.len(),
    ensures
        crate::text::digits_value(s.take(n)) <= crate::text::digits_value(s),
    decreases s.len() - n,
{
    if n < s.len() {
        lemma_value_grows(s, n + 1);
        assert(s.take(n + 1).drop_last() =~= s.take(n));
    } else {
        assert(s.take(n) =~= s);
    }
}

/// The number that a text spells, where it spells one that fits.
pub fn parse_whole_number(text: &str) -> (r: Option<u64>)
    ensures
        r == whole_number(text@),
{
    let chars = chars_of(text);
    let start: usize = if chars.len() > 0 && chars[0] == '+' {
        1
    } else {
        0
    };
    let ghost digits = without_plus(text@);
    assert(digits =~= text@.skip(start as int));
    if start == chars.len() {
        return None;
    }
    let mut value: u64 = 0;
    let mut i: usize = start;
    assert(digits.take(0) =~= Seq::<char>::empty());
    while i < chars.len()
        invariant
            start <= i <= chars.len(),
            chars@ == text@,
            digits == text@.skip(start as int),
            digits == without_plus(text@),
            digits.len() > 0,
            value == crate::text::digits_value(digits.take(i - start)),
            forall|j: int| 0 <= j < i - start ==> is_digit(#[trigger] digits[j]),
        decreases chars.len() - i,
    {
        let c = chars[i];
        let ghost n = i - start;
        proof {
            assert(digits[n] == c);
            assert(digits.take(n + 1).drop_last() =~= digits.take(n));
            assert(digits.take(n + 1).last() == c);
            lemma_value_grows(digits, n + 1);
        }
        if !(c >= '0' && c <= '9') {
            assert(!is_digit(digits[n]));
            return None;
        }
        let d: u64 = (c as u32 - '0' as u32) as u64;
        let scaled: u64 = match value.checked_mul(10) {
            Some(v) => v,
            None => return None,
        };
        value = match scaled.checked_add(d) {
            Some(v) => v,
            None => return None,
        };
        i = i + 1;
    }
    assert(digits.take(i - start) =~= digits);
    Some(value)
}

/// A character in lower case, for the letters of the Latin alphabet.
pub open spec fn lowered(c: char) -> char {
    if 'A' <= c && c <= 'Z' {
        (c as u32 + 32) as char
    } else {
        c
    }
}

/// Whether `s` is `word`, upper and lower case alike.
pub open spec fn spells(s: Seq<char>, word: Seq<char>) -> bool {
    &&& s.len() == word.len()
    &&& forall|i: int| 0 <= i < s.len() ==> lowered(#[trigger] s[i]) == word[i]
}

/// Where the digits from `from` on end.
pub open spec fn digits_end(s: Seq<char>, from: int) -> int
    decreases s.len() - from,
{
    if 0 <= from < s.len() && is_digit(s[from]) {
        digits_end(s, from + 1)
    } else {
        from
    }
}

/// Whether what stands from `from` on is empty, or an exponent: the letter e, a sign or
/// none, and digits.
pub open spec fn exponent_from(s: Seq<char>, from: int) -> bool {
    if from >= s.len() {
        from == s.len()
    } else {
        let sign = if from + 1 < s.len() && (s[from + 1] == '+' || s[from + 1] == '-') {
            from + 2
        } else {
            from + 1
        };
        &&& s[from] == 'e' || s[from] == 'E'
        &&& sign < s.len()
        &&& digits_end(s, sign) == s.len()
    }
}

/// Whether what stands from `from` on is a number without a sign: digits with a point
/// among them or none, at least one digit, and an exponent or none.
pub open spec fn unsigned_number_from(s: Seq<char>, from: int) -> bool {
    let whole = digits_end(s, from);
    if whole < s.len() && s[whole] == '.' {
        let part = digits_end(s, whole + 1);
        &&& whole > from || part > whole + 1
        &&& exponent_from(s, part)
    } else {
        whole > from && exponent_from(s, whole)
    }
}

/// Whether a text spells a number that may have a fraction: a sign or none, and then a
/// number, or the word for infinity or for no number.
pub open spec fn fraction_text(s: Seq<char>) -> bool {
    let from: int = if s.len() > 0 && (s[0] == '+' || s[0] == '-') {
        1
    } else {
        0
    };
    &&& from < s.len()
    &&& unsigned_number_from(s, from) || spells(s.skip(from), "inf"@) || spells(
        s.skip(from),
        "infinity"@,
    ) || spells(s.skip(from), "nan"@)
}

fn end_of_digits(s: &Vec<char>, from: usize) -> (r: usize)
    requires
        from <= s@.len(),
    ensures
        r == digits_end(s@, from as int),
        from <= r <= s@.len(),
{
    let mut i: usize = from;
    while i < s.len() && s[i] >= '0' && s[i] <= '9'
        invariant
            from <= i <= s@.len(),
            digits_end(s@, from as int) == digits_end(s@, i as int),
        decreases s.len() - i,
    {
        i = i + 1;
    }
    i
}

fn exponent_at(s: &Vec<char>, from: usize) -> (r: bool)
    requires
        from <= s@.len(),
    ensures
        r == exponent_from(s@, from as int),
{
    if from == s.len() {
        return true;
    }
    if !(s[from] == 'e' || s[from] == 'E') {
        return false;
    }
    let after_letter: usize = from + 1;
    let start: usize = if after_letter < s.len() && (s[after_letter] == '+' || s[after_letter]
        == '-') {
        after_letter + 1
    } else {
        after_letter
    };
    start < s.len() && end_of_digits(s, start) == s.len()
}

fn spelled(s: &Vec<char>, from: usize, word: &str) -> (r: bool)
    requires
        from <= s@.len(),
    ensures
        r == spells(s@.skip(from as int), word@),
{
    let letters = chars_of(word);
    if s.len() - from != letters.len() {
        return false;
    }
    let mut i: usize = 0;
    while i < letters.len()
        invariant
            i <= letters.len(),
            letters@ == word@,
            from <= s.len(),
            s.len() - from == letters.len(),
            forall|j: int|
                0 <= j < i ==> lowered(#[trigger] s@.skip(from as int)[j]) == letters@[j],
        decreases letters.len() - i,
    {
        let c = s[from + i];
        let low: char = if c >= 'A' && c <= 'Z' {
            let code: u8 = c as u8;
            (code + 32) as char
        } else {
            c
        };
        assert(s@.skip(from as int)[i as int] == c);
        if low != letters[i] {
            assert(lowered(s@.skip(from as int)[i as int]) != word@[i as int]);
            return false;
        }
        i = i + 1;
    }
    true
}

/// Whether a text spells a number that may have a fraction.
pub fn is_fraction_text(text: &str) -> (r: bool)
    ensures
        r == fraction_text(text@),
{
    let s = chars_of(text);
    let from: usize = if s.len() > 0 && (s[0] == '+' || s[0] == '-') {
        1
    } else {
        0
    };
    if from >= s.len() {
        return false;
    }
    let whole: usize = end_of_digits(&s, from);
    let number = if whole < s.len() && s[whole] == '.' {
        let part: usize = end_of_digits(&s, whole + 1);
        (whole > from || part > whole + 1) && exponent_at(&s, part)
    } else {
        whole > from && exponent_at(&s, whole)
    };
    number || spelled(&s, from, "inf") || spelled(&s, from, "infinity") || spelled(&s, from, "nan")
}

/// What the command line asks for.
#[derive(Debug)]
pub struct NestedArgs {
    /// Seconds after which the run ends.
    pub run_for_secs: Option<u64>,
    /// The scale of the view, as it was written.
    pub scale: Option<String>,
    /// The title of the window.
    pub title: Option<String>,
    /// The client to start, with its arguments.
    pub client: Vec<String>,
}

/// What a [`NestedArgs`] holds.
pub struct NestedArgsView {
    pub run_for_secs: Option<u64>,
    pub scale: Option<Seq<char>>,
    pub title: Option<Seq<char>>,
    pub client: Seq<Seq<char>>,
}

/// The text of an optional string.
pub open spec fn text_of(s: Option<String>) -> Option<Seq<char>> {
    match s {
        Some(t) => Some(t@),
        None => None,
    }
}

impl View for NestedArgs {
    type V = NestedArgsView;

    open spec fn view(&self) -> NestedArgsView {
        NestedArgsView {
            run_for_secs: self.run_for_secs,
            scale: text_of(self.scale),
            title: text_of(self.title),
            client: texts(self.client@),
        }
    }
}

/// The error of a command line that cannot be understood.
pub open spec fn bad_argument_error(message: Seq<char>) -> ErrorView {
    plain_error(ErrorCode::InvalidArgument, message)
}

/// The error of a command line that cannot be understood.
pub fn bad_argument(message: &str) -> (r: Error)
    ensures
        r@ == bad_argument_error(message@),
{
    Error::new(ErrorCode::InvalidArgument, message, TraceId::unattributed())
}

/// What the arguments from `from` on ask for, beside what was asked for before them. A
/// later value stands in place of an earlier one, and everything after `--client` is the
/// client.
pub open spec fn parsed(args: Seq<Seq<char>>, from: int, so_far: NestedArgsView) -> Result<
    NestedArgsView,
    ErrorView,
>
    decreases args.len() - from,
{
    if from < 0 || from >= args.len() {
        Ok(so_far)
    } else if args[from] == "--run-for"@ {
        if from + 1 < args.len() && whole_number(args[from + 1]) is Some {
            parsed(
                args,
                from + 2,
                NestedArgsView { run_for_secs: whole_number(args[from + 1]), ..so_far },
            )
        } else {
            Err(bad_argument_error("--run-for wants a whole number of seconds"@))
        }
    } else if args[from] == "--scale"@ {
        if from + 1 < args.len() && fraction_text(args[from + 1]) {
            parsed(args, from + 2, NestedArgsView { scale: Some(args[from + 1]), ..so_far })
        } else {
            Err(bad_argument_error("--scale wants a number"@))
        }
    } else if args[from] == "--title"@ {
        if from + 1 < args.len() {
            parsed(args, from + 2, NestedArgsView { title: Some(args[from + 1]), ..so_far })
        } else {
            Err(bad_argument_error("--title wants a string"@))
        }
    } else if args[from] == "--client"@ {
        Ok(NestedArgsView { client: args.skip(from + 1), ..so_far })
    } else {
        Err(bad_argument_error("unknown argument "@ + args[from]))
    }
}

/// Nothing asked for.
pub open spec fn no_args() -> NestedArgsView {
    NestedArgsView { run_for_secs: None, scale: None, title: None, client: Seq::empty() }
}

/// What the arguments after the program's name ask for.
pub fn parse_nested_args(args: &[String]) -> (r: Result<NestedArgs, Error>)
    ensures
        match parsed(texts(args@), 0, no_args()) {
            Ok(v) => r is Ok && r->Ok_0@ == v,
            Err(e) => r is Err && r->Err_0@ == e,
        },
{
    let ghost all = texts(args@);
    let mut out = NestedArgs { run_for_secs: None, scale: None, title: None, client: Vec::new() };
    assert(texts(out.client@) =~= Seq::<Seq<char>>::empty());
    let mut i: usize = 0;
    while i < args.len()
        invariant
            i <= args.len(),
            all == texts(args@),
            out.client@.len() == 0,
            parsed(all, 0, no_args()) == parsed(all, i as int, out@),
        decreases args.len() - i,
    {
        let arg = args[i].as_str();
        assert(all[i as int] == arg@);
        let has_value = args.len() - i > 1;
        if has_value {
            assert(all[i + 1] == args@[i + 1]@);
        }
        assert(texts(out.client@) =~= Seq::<Seq<char>>::empty());
        if same_text(arg, "--run-for") {
            let secs = if has_value {
                parse_whole_number(args[i + 1].as_str())
            } else {
                None
            };
            match secs {
                Some(n) => {
                    out.run_for_secs = Some(n);
                    i = i + 2;
                },
                None => return Err(bad_argument("--run-for wants a whole number of seconds")),
            }
        } else if same_text(arg, "--scale") {
            if !has_value || !is_fraction_text(args[i + 1].as_str()) {
                return Err(bad_argument("--scale wants a number"));
            }
            out.scale = Some(args[i + 1].clone());
            i = i + 2;
        } else if same_text(arg, "--title") {
            if !has_value {
                return Err(bad_argument("--title wants a string"));
            }
            out.title = Some(args[i + 1].clone());
            i = i + 2;
        } else if same_text(arg, "--client") {
            let mut client: Vec<String> = Vec::new();
            let mut j: usize = i + 1;
            while j < args.len()
                invariant
                    i + 1 <= j <= args.len(),
                    client@.len() == j - i - 1,
                    forall|k: int|
                        0 <= k < client@.len() ==> (#[trigger] client@[k])@ == args@[i + 1 + k]@,
                decreases args.len() - j,
            {
                client.push(args[j].clone());
                j = j + 1;
            }
            assert(texts(client@) =~= all.skip(i + 1));
            out.client = client;
            return Ok(out);
        } else {
            let mut message = "unknown argument ".to_owned();
            message.append(arg);
            return Err(bad_argument(message.as_str()));
        }
    }
    Ok(out)
}

} // verus!

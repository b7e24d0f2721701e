//! What is asked of the host, and what its answers are read as.

use vstd::prelude::*;

use super::{
    calls_since, create_outcome, create_run, first_line_of, fresh_names, hertz_text,
    lemma_fresh_names, listed_names, mode_keyword, monitor_keyword_value, name_in_line,
    names_in_lines, object_body, parse_instance_signature, parse_monitor_names, release_run,
    request_view, signature_in, string_field, CallView, CommandOutput, CommandRunner,
    HyprlandHeadlessOutputProvider, RequestView,
};
use crate::display::{OutputRequest, VirtualOutput, VirtualOutputProvider};
use crate::error::{Error, ErrorCode, ErrorView};
use crate::json::unique::{is_digit, lemma_decimal_digits, lemma_same_decimal, lemma_same_rest};
use crate::scan::{
    all_white, first_position, first_word, law_found_position_is_the_first,
    law_separator_begins_a_piece, law_text_is_parted_at_its_mark,
    law_text_without_separator_is_one_piece, law_trimming_takes_white_space_alone,
    lemma_pieces_not_empty, pieces, stands_at, trimmed, white,
};
use crate::testing::texts;
use crate::text::{decimal, digit_char, digits_value, law_decimal_spells_its_number};

verus! {

broadcast use vstd::seq::group_seq_axioms;

/// Whether every character is a decimal digit.
pub open spec fn all_digits(text: Seq<char>) -> bool {
    forall|i: int| 0 <= i < text.len() ==> '0' <= #[trigger] text[i] && text[i] <= '9'
}

/// Whether a text is a whole number as people write it: digits, none of them a zero before
/// the others, that are worth `n`.
pub open spec fn spells(text: Seq<char>, n: nat) -> bool {
    &&& text.len() > 0
    &&& all_digits(text)
    &&& text.len() > 1 ==> text[0] != '0'
    &&& digits_value(text) == n
}

/// Whether a text is the fraction of so many thousandths: nothing where there are none, else
/// a point and up to three digits, the last of which is no zero.
pub open spec fn spells_thousandths(text: Seq<char>, n: nat) -> bool {
    if n == 0 {
        text.len() == 0
    } else {
        &&& 2 <= text.len() <= 4
        &&& text[0] == '.'
        &&& all_digits(text.skip(1))
        &&& text.last() != '0'
        &&& text.len() == 2 ==> digits_value(text.skip(1)) * 100 == n
        &&& text.len() == 3 ==> digits_value(text.skip(1)) * 10 == n
        &&& text.len() == 4 ==> digits_value(text.skip(1)) == n
    }
}

/// Whether a text sets the output `name` to an extent and a rate: the name, the width and the
/// height in pixels, and the rate in hertz, to the thousandth.
pub open spec fn sets_mode(
    text: Seq<char>,
    name: Seq<char>,
    width_px: nat,
    height_px: nat,
    refresh_millihz: nat,
) -> bool {
    exists|width: Seq<char>, height: Seq<char>, whole: Seq<char>, fraction: Seq<char>|
        {
            &&& #[trigger] spells(width, width_px)
            &&& #[trigger] spells(height, height_px)
            &&& #[trigger] spells(whole, refresh_millihz / 1000)
            &&& #[trigger] spells_thousandths(fraction, refresh_millihz % 1000)
            &&& text == name + ","@ + width + "x"@ + height + "@"@ + whole + fraction + ",auto,1"@
        }
}

pub(crate) proof fn lemma_decimal_is_spelled(n: nat)
    ensures
        spells(decimal(n), n),
    decreases n,
{
    law_decimal_spells_its_number(n);
    lemma_decimal_digits(n);
    if n >= 10 {
        lemma_decimal_is_spelled(n / 10);
        let head = decimal(n / 10);
        assert(decimal(n)[0] == head[0]);
        if head.len() == 1 {
            assert(n / 10 < 10) by {
                if n / 10 >= 10 {
                    lemma_decimal_digits(n / 10 / 10);
                }
            }
            assert(head[0] == digit_char(n / 10));
        }
    }
}

proof fn lemma_hertz(millihz: nat) -> (fraction: Seq<char>)
    ensures
        spells_thousandths(fraction, millihz % 1000),
        hertz_text(millihz) == decimal(millihz / 1000) + fraction,
{
    let whole = decimal(millihz / 1000);
    let rest = millihz % 1000;
    let fraction = hertz_text(millihz).skip(whole.len() as int);
    assert(hertz_text(millihz) =~= whole + fraction);
    reveal_with_fuel(digits_value, 4);
    if rest > 0 {
        let digits = fraction.skip(1);
        assert(fraction[0] == '.');
        assert(digits[0] == digit_char(rest / 100));
        if rest % 100 == 0 {
            assert(digits =~= seq![digit_char(rest / 100)]);
            assert(digits.drop_last() =~= Seq::<char>::empty());
        } else if rest % 10 == 0 {
            assert(digits =~= seq![digit_char(rest / 100), digit_char(rest / 10 % 10)]);
            assert(digits.drop_last() =~= seq![digit_char(rest / 100)]);
            assert(digits.drop_last().drop_last() =~= Seq::<char>::empty());
        } else {
            assert(digits =~= seq![
                digit_char(rest / 100),
                digit_char(rest / 10 % 10),
                digit_char(rest % 10),
            ]);
            assert(digits.drop_last() =~= seq![digit_char(rest / 100), digit_char(rest / 10 % 10)]);
            assert(digits.drop_last().drop_last() =~= seq![digit_char(rest / 100)]);
            assert(digits.drop_last().drop_last().drop_last() =~= Seq::<char>::empty());
        }
    } else {
        assert(fraction =~= Seq::<char>::empty());
    }
    fraction
}

proof fn lemma_mode(name: Seq<char>, width_px: nat, height_px: nat, refresh_millihz: nat)
    ensures
        sets_mode(
            mode_keyword(name, width_px, height_px, refresh_millihz),
            name,
            width_px,
            height_px,
            refresh_millihz,
        ),
{
    lemma_decimal_is_spelled(width_px);
    lemma_decimal_is_spelled(height_px);
    lemma_decimal_is_spelled(refresh_millihz / 1000);
    let fraction = lemma_hertz(refresh_millihz);
    assert(mode_keyword(name, width_px, height_px, refresh_millihz) =~= name + ","@ + decimal(
        width_px,
    ) + "x"@ + decimal(height_px) + "@"@ + decimal(refresh_millihz / 1000) + fraction + ",auto,1"@);
}

/// The mode of an output says its name, its extent and its rate exactly, whatever they are:
/// read as decimal numbers, the texts between the marks are the width, the height and the
/// rate in hertz.
pub proof fn law_mode_says_the_numbers(
    name: &str,
    width_px: u32,
    height_px: u32,
    refresh_millihz: u32,
    r: String,
)
    requires
        call_ensures(monitor_keyword_value, (name, width_px, height_px, refresh_millihz), r),
    ensures
        sets_mode(r@, name@, width_px as nat, height_px as nat, refresh_millihz as nat),
{
    lemma_mode(name@, width_px as nat, height_px as nat, refresh_millihz as nat);
}

/// Different extents or rates are set by different texts.
#[verifier::spinoff_prover]
#[verifier::rlimit(60)]
pub proof fn law_modes_are_told_apart(
    name: &str,
    a: (u32, u32, u32),
    b: (u32, u32, u32),
    first: String,
    second: String,
)
    requires
        call_ensures(monitor_keyword_value, (name, a.0, a.1, a.2), first),
        call_ensures(monitor_keyword_value, (name, b.0, b.1, b.2), second),
        first@ == second@,
    ensures
        a == b,
{
    reveal_strlit(",");
    reveal_strlit("x");
    reveal_strlit("@");
    reveal_strlit(",auto,1");
    let end = ",auto,1"@;
    let ha = hertz_text(a.2 as nat) + end;
    let hb = hertz_text(b.2 as nat) + end;
    let ra = decimal(a.1 as nat) + (seq!['@'] + ha);
    let rb = decimal(b.1 as nat) + (seq!['@'] + hb);
    let wa = decimal(a.0 as nat) + (seq!['x'] + ra);
    let wb = decimal(b.0 as nat) + (seq!['x'] + rb);
    let head = name@ + ","@;
    assert(first@ =~= head + wa);
    assert(second@ =~= head + wb);
    assert(wa =~= first@.skip(head.len() as int));
    assert(wb =~= second@.skip(head.len() as int));
    lemma_same_decimal(a.0 as nat, seq!['x'] + ra, b.0 as nat, seq!['x'] + rb);
    lemma_same_rest('x', ra, 'x', rb);
    lemma_same_decimal(a.1 as nat, seq!['@'] + ha, b.1 as nat, seq!['@'] + hb);
    lemma_same_rest('@', ha, '@', hb);
    let fa = lemma_hertz(a.2 as nat);
    let fb = lemma_hertz(b.2 as nat);
    assert(ha =~= decimal(a.2 as nat / 1000) + (fa + end));
    assert(hb =~= decimal(b.2 as nat / 1000) + (fb + end));
    assert(!is_digit((fa + end)[0])) by {
        assert(fa.len() == 0 ==> (fa + end)[0] == ',');
    }
    assert(!is_digit((fb + end)[0])) by {
        assert(fb.len() == 0 ==> (fb + end)[0] == ',');
    }
    lemma_same_decimal(a.2 as nat / 1000, fa + end, b.2 as nat / 1000, fb + end);
    assert((fa + end).len() == (fb + end).len());
    assert(fa =~= (fa + end).take(fa.len() as int));
    assert(fb =~= (fb + end).take(fb.len() as int));
    assert(fa == fb);
}

/// An output is made by four commands of the host, in this order and with these words: its
/// outputs are listed, a headless one is created, they are listed again, and the mode of the
/// one that is new is set as the request asks. Each of them succeeded, and no other output
/// appeared meanwhile.
pub proof fn law_output_is_made_by_these_commands(
    request: RequestView,
    served: Seq<Seq<char>>,
    calls: Seq<CallView>,
    name: Seq<char>,
)
    requires
        create_run(request, served, calls, Ok::<Seq<char>, ErrorView>(name)),
    ensures
        calls.len() == 4,
        forall|i: int|
            0 <= i < 4 ==> {
                &&& (#[trigger] calls[i]).program == "hyprctl"@
                &&& calls[i].reply is Ok
                &&& calls[i].reply->Ok_0.status_code == Some(0i32)
            },
        calls[0].args == seq!["monitors"@],
        calls[1].args == seq!["output"@, "create"@, "headless"@],
        calls[2].args == seq!["monitors"@],
        calls[3].args.len() == 3,
        calls[3].args[0] == "keyword"@,
        calls[3].args[1] == "monitor"@,
        sets_mode(
            calls[3].args[2],
            name,
            request.width_px,
            request.height_px,
            request.refresh_millihz,
        ),
        !listed_names(calls[0].reply->Ok_0.stdout).contains(name),
        listed_names(calls[2].reply->Ok_0.stdout).contains(name),
        forall|other: Seq<char>| #[trigger]
            listed_names(calls[2].reply->Ok_0.stdout).contains(other) ==> other == name
                || listed_names(calls[0].reply->Ok_0.stdout).contains(other),
{
    let earlier = listed_names(calls[0].reply->Ok_0.stdout);
    let later = listed_names(calls[2].reply->Ok_0.stdout);
    assert(calls.skip(1)[0] == calls[1]);
    assert(calls.skip(1).skip(1)[0] == calls[2]);
    assert(calls.skip(1).skip(1).skip(1)[0] == calls[3]);
    lemma_fresh_names(later, earlier);
    lemma_all_fresh(later, earlier);
    lemma_mode(name, request.width_px, request.height_px, request.refresh_millihz);
    let fresh = fresh_names(later, earlier);
    assert(fresh[0] == name);
    assert forall|other: Seq<char>| #[trigger] later.contains(other) implies other == name
        || earlier.contains(other) by {
        if !earlier.contains(other) {
            assert(fresh.contains(other));
        }
    }
}

proof fn lemma_all_fresh(later: Seq<Seq<char>>, earlier: Seq<Seq<char>>)
    ensures
        forall|other: Seq<char>| #[trigger]
            later.contains(other) && !earlier.contains(other) ==> fresh_names(
                later,
                earlier,
            ).contains(other),
    decreases later.len(),
{
    if later.len() > 0 {
        let shorter = later.drop_last();
        lemma_all_fresh(shorter, earlier);
        let fresh = fresh_names(later, earlier);
        let before = fresh_names(shorter, earlier);
        assert forall|other: Seq<char>| #[trigger]
            later.contains(other) && !earlier.contains(other) implies fresh.contains(other) by {
            let i = choose|i: int| 0 <= i < later.len() && later[i] == other;
            if i < shorter.len() {
                assert(shorter[i] == other);
                assert(shorter.contains(other));
                let j = choose|j: int| 0 <= j < before.len() && before[j] == other;
                assert(fresh[j] == other);
            } else {
                assert(fresh[fresh.len() - 1] == other);
            }
        }
    }
}

/// A request without an extent, without a rate, or with a key that was used before asks
/// nothing of the host and fails; any other begins by listing the outputs, and creates one
/// only after a listing that succeeded.
pub proof fn law_host_is_asked_for_good_requests_alone(
    request: RequestView,
    served: Seq<Seq<char>>,
    calls: Seq<CallView>,
    outcome: Result<Seq<char>, ErrorView>,
)
    requires
        create_run(request, served, calls, outcome),
    ensures
        calls.len() == 0 <==> {
            ||| request.width_px == 0
            ||| request.height_px == 0
            ||| request.refresh_millihz == 0
            ||| served.contains(request.key)
        },
        calls.len() == 0 ==> outcome is Err,
        calls.len() >= 1 ==> calls[0].program == "hyprctl"@ && calls[0].args == seq!["monitors"@],
        calls.len() >= 2 ==> {
            &&& calls[0].reply is Ok
            &&& calls[0].reply->Ok_0.status_code == Some(0i32)
            &&& calls[1].program == "hyprctl"@
            &&& calls[1].args == seq!["output"@, "create"@, "headless"@]
        },
        calls.len() == 1 ==> outcome is Err,
        calls.len() == 1 && calls[0].reply is Err ==> outcome == Err::<Seq<char>, ErrorView>(
            calls[0].reply->Err_0,
        ),
{
    if calls.len() > 1 {
        assert(calls.skip(1)[0] == calls[1]);
    }
}

/// An output is given back by listing the outputs and, unless the list came and does not name
/// it, removing it by its own name. That it is gone already is as good as that it was removed;
/// anything else is told.
pub proof fn law_output_is_given_back_by_its_name(
    name: Seq<char>,
    calls: Seq<CallView>,
    outcome: Result<(), ErrorView>,
)
    requires
        release_run(name, calls, outcome),
    ensures
        1 <= calls.len() <= 2,
        calls[0].program == "hyprctl"@,
        calls[0].args == seq!["monitors"@],
        calls[0].reply is Err ==> calls.len() == 1 && outcome == Err::<(), ErrorView>(
            calls[0].reply->Err_0,
        ),
        calls[0].reply is Ok ==> {
            let listed = calls[0].reply->Ok_0;
            calls.len() == 1 <==> listed.status_code == Some(0i32) && !listed_names(
                listed.stdout,
            ).contains(name)
        },
        calls.len() == 2 ==> {
            &&& calls[1].program == "hyprctl"@
            &&& calls[1].args == seq!["output"@, "remove"@, name]
            &&& calls[1].reply is Err ==> outcome == Err::<(), ErrorView>(calls[1].reply->Err_0)
            &&& calls[1].reply is Ok ==> (outcome is Ok <==> calls[1].reply->Ok_0.status_code
                == Some(0i32))
        },
        calls.len() == 1 && calls[0].reply is Ok ==> outcome is Ok,
{
}

/// Where every command succeeds and one output is new, the request succeeds and names it.
pub proof fn law_one_new_output_is_enough(
    request: RequestView,
    served: Seq<Seq<char>>,
    calls: Seq<CallView>,
    outcome: Result<Seq<char>, ErrorView>,
    name: Seq<char>,
)
    requires
        create_run(request, served, calls, outcome),
        calls.len() >= 4,
        forall|i: int|
            0 <= i < 4 ==> {
                &&& (#[trigger] calls[i]).reply is Ok
                &&& calls[i].reply->Ok_0.status_code == Some(0i32)
            },
        listed_names(calls[2].reply->Ok_0.stdout).contains(name),
        !listed_names(calls[0].reply->Ok_0.stdout).contains(name),
    ensures
        outcome == Ok::<Seq<char>, ErrorView>(name),
        calls.len() == 4,
{
    let earlier = listed_names(calls[0].reply->Ok_0.stdout);
    let later = listed_names(calls[2].reply->Ok_0.stdout);
    assert(calls[0].reply is Ok && calls[1].reply is Ok && calls[2].reply is Ok
        && calls[3].reply is Ok);
    assert(calls.skip(1)[0] == calls[1]);
    assert(calls.skip(1).skip(1)[0] == calls[2]);
    assert(calls.skip(1).skip(1).skip(1)[0] == calls[3]);
    lemma_all_fresh(later, earlier);
    assert(fresh_names(later, earlier).contains(name));
}

/// A request fails before any mode is set where making the output fails, where the outputs
/// cannot be listed again, and where not exactly one of them is new.
pub proof fn law_mode_is_set_on_the_one_new_output(
    request: RequestView,
    served: Seq<Seq<char>>,
    calls: Seq<CallView>,
    outcome: Result<Seq<char>, ErrorView>,
)
    requires
        create_run(request, served, calls, outcome),
        calls.len() >= 2,
    ensures
        calls[1].reply is Err ==> calls.len() == 2 && outcome == Err::<Seq<char>, ErrorView>(
            calls[1].reply->Err_0,
        ),
        calls[1].reply is Ok && calls[1].reply->Ok_0.status_code != Some(0i32) ==> calls.len() == 2
            && outcome is Err,
        calls.len() == 2 <==> calls[1].reply is Err || calls[1].reply->Ok_0.status_code != Some(
            0i32,
        ),
        calls.len() >= 3 ==> calls[2].program == "hyprctl"@ && calls[2].args == seq!["monitors"@],
        calls.len() == 3 ==> outcome is Err,
        calls.len() >= 3 && calls[2].reply is Err ==> calls.len() == 3 && outcome == Err::<
            Seq<char>,
            ErrorView,
        >(calls[2].reply->Err_0),
        calls.len() >= 4 ==> {
            let earlier = listed_names(calls[0].reply->Ok_0.stdout);
            let later = listed_names(calls[2].reply->Ok_0.stdout);
            &&& calls[2].reply is Ok
            &&& calls[2].reply->Ok_0.status_code == Some(0i32)
            &&& calls[3].program == "hyprctl"@
            &&& calls[3].args.len() == 3
            &&& calls[3].args[0] == "keyword"@
            &&& calls[3].args[1] == "monitor"@
            &&& exists|name: Seq<char>|
                {
                    &&& later.contains(name)
                    &&& !earlier.contains(name)
                    &&& #[trigger] sets_mode(
                        calls[3].args[2],
                        name,
                        request.width_px,
                        request.height_px,
                        request.refresh_millihz,
                    )
                }
        },
{
    let rest = calls.skip(1);
    assert(rest[0] == calls[1]);
    if calls.len() >= 3 {
        assert(rest.skip(1)[0] == calls[2]);
    }
    if calls.len() >= 4 {
        assert(rest.skip(1).skip(1)[0] == calls[3]);
        let earlier = listed_names(calls[0].reply->Ok_0.stdout);
        let later = listed_names(calls[2].reply->Ok_0.stdout);
        lemma_fresh_names(later, earlier);
        let name = fresh_names(later, earlier)[0];
        lemma_mode(name, request.width_px, request.height_px, request.refresh_millihz);
        assert(later.contains(name) && !earlier.contains(name));
    }
}

/// An output whose mode could not be set is given back, by its own name, before the error of
/// setting it is told. Where the host still lists it, or cannot be listed, it is removed.
pub proof fn law_output_that_was_not_set_up_is_given_back(
    request: RequestView,
    served: Seq<Seq<char>>,
    calls: Seq<CallView>,
    outcome: Result<Seq<char>, ErrorView>,
    name: Seq<char>,
)
    requires
        create_run(request, served, calls, outcome),
        calls.len() >= 4,
        calls[3].reply is Err || calls[3].reply->Ok_0.status_code != Some(0i32),
        listed_names(calls[2].reply->Ok_0.stdout).contains(name),
        !listed_names(calls[0].reply->Ok_0.stdout).contains(name),
    ensures
        outcome is Err,
        calls[3].reply is Err ==> outcome == Err::<Seq<char>, ErrorView>(calls[3].reply->Err_0),
        calls[3].reply is Ok ==> outcome->Err_0.code == ErrorCode::HostRefused,
        5 <= calls.len() <= 6,
        calls[4].program == "hyprctl"@,
        calls[4].args == seq!["monitors"@],
        calls.len() == 6 ==> calls[5].program == "hyprctl"@ && calls[5].args == seq![
            "output"@,
            "remove"@,
            name,
        ],
        calls[4].reply is Ok ==> (calls.len() == 5 <==> calls[4].reply->Ok_0.status_code == Some(
            0i32,
        ) && !listed_names(calls[4].reply->Ok_0.stdout).contains(name)),
{
    let rest = calls.skip(1).skip(1).skip(1);
    let earlier = listed_names(calls[0].reply->Ok_0.stdout);
    let later = listed_names(calls[2].reply->Ok_0.stdout);
    assert(calls.skip(1)[0] == calls[1]);
    assert(calls.skip(1).skip(1)[0] == calls[2]);
    assert(rest[0] == calls[3]);
    lemma_all_fresh(later, earlier);
    let fresh = fresh_names(later, earlier);
    assert(fresh.contains(name));
    assert(fresh[0] == name);
    let last = rest.skip(1);
    let told = choose|told: Result<(), ErrorView>| release_run(name, last, told);
    law_output_is_given_back_by_its_name(name, last, told);
    assert(last[0] == calls[4]);
    if last.len() == 2 {
        assert(last[1] == calls[5]);
    }
}

/// A command succeeded exactly where it ended with status zero.
pub proof fn law_status_zero_is_success(output: CommandOutput, r: bool)
    requires
        call_ensures(CommandOutput::is_success, (&output,), r),
    ensures
        r <==> output.status_code == Some(0i32),
{
}

proof fn lemma_pieces_of_a_line(text: Seq<char>, line: Seq<char>)
    requires
        text.len() == 0 || text.last() == '\n',
        forall|i: int| 0 <= i < line.len() ==> line[i] != '\n',
    ensures
        pieces(text, '\n').len() > 0,
        pieces(text, '\n').last() == Seq::<char>::empty(),
        pieces(text + line, '\n') == pieces(text, '\n').drop_last().push(line),
    decreases line.len(),
{
    lemma_pieces_not_empty(text, '\n');
    if line.len() == 0 {
        assert(text + line =~= text);
        assert(line =~= Seq::<char>::empty());
        assert(pieces(text, '\n') =~= pieces(text, '\n').drop_last().push(line));
    } else {
        let shorter = line.drop_last();
        lemma_pieces_of_a_line(text, shorter);
        assert((text + line).drop_last() =~= text + shorter);
        assert(line =~= shorter.push(line.last()));
        assert(pieces(text + line, '\n') =~= pieces(text, '\n').drop_last().push(line));
    }
}

proof fn lemma_listed_line(text: Seq<char>, line: Seq<char>)
    requires
        text.len() == 0 || text.last() == '\n',
        forall|i: int| 0 <= i < line.len() ==> line[i] != '\n',
    ensures
        listed_names(text + line + seq!['\n']) == (match name_in_line(line) {
            Some(name) => listed_names(text).push(name),
            None => listed_names(text),
        }),
{
    reveal_strlit("Monitor ");
    let none = Seq::<char>::empty();
    let before = pieces(text, '\n');
    let whole = text + line + seq!['\n'];
    lemma_pieces_of_a_line(text, line);
    assert(whole.drop_last() =~= text + line);
    let lines = pieces(whole, '\n');
    assert(lines == before.drop_last().push(line).push(none));
    assert(name_in_line(none) is None);
    assert(before.last() == none);
    assert(names_in_lines(before) == names_in_lines(before.drop_last()));
    assert(lines.drop_last() =~= before.drop_last().push(line));
    assert(lines.drop_last().drop_last() =~= before.drop_last());
    assert(lines.last() == none);
    assert(names_in_lines(lines) == names_in_lines(lines.drop_last()));
    assert(lines.drop_last().last() == line);
}

proof fn lemma_first_word_stands_first(word: Seq<char>, rest: Seq<char>)
    requires
        forall|i: int| 0 <= i < word.len() ==> ' ' < #[trigger] word[i] && word[i] <= '~',
        rest.len() == 0 || rest[0] == ' ',
    ensures
        crate::scan::leading_word(word + rest) == word,
    decreases word.len(),
{
    let all = word + rest;
    if word.len() == 0 {
        assert(all =~= rest);
        assert(crate::scan::leading_word(all) =~= word);
    } else {
        assert(' ' < word[0] && word[0] <= '~');
        assert(!white(all.first()));
        assert(all.drop_first() =~= word.drop_first() + rest);
        assert forall|i: int| 0 <= i < word.drop_first().len() implies ' '
            < #[trigger] word.drop_first()[i] && word.drop_first()[i] <= '~' by {
            assert(word.drop_first()[i] == word[i + 1]);
        }
        lemma_first_word_stands_first(word.drop_first(), rest);
        assert(crate::scan::leading_word(all) =~= word);
    }
}

/// A listing is read line by line: a line that begins with `Monitor ` and a name adds that
/// name after those of the lines before it, a line that begins otherwise adds nothing, and an
/// empty listing names nothing.
pub proof fn law_listing_is_read_line_by_line(
    before: &str,
    after: &str,
    names: Vec<String>,
    more: Vec<String>,
    line: Seq<char>,
    name: Seq<char>,
    rest: Seq<char>,
)
    requires
        call_ensures(parse_monitor_names, (before,), names),
        call_ensures(parse_monitor_names, (after,), more),
        before@.len() == 0 || before@.last() == '\n',
        forall|i: int| 0 <= i < line.len() ==> line[i] != '\n',
        after@ == before@ + line + seq!['\n'],
    ensures
        before@.len() == 0 ==> names@.len() == 0,
        !"Monitor "@.is_prefix_of(line) ==> texts(more@) == texts(names@),
        ({
            &&& line == "Monitor "@ + name + rest
            &&& name.len() > 0
            &&& forall|i: int| 0 <= i < name.len() ==> ' ' < #[trigger] name[i] && name[i] <= '~'
            &&& rest.len() == 0 || rest[0] == ' '
        }) ==> texts(more@) == texts(names@).push(name),
{
    reveal_strlit("Monitor ");
    lemma_listed_line(before@, line);
    if before@.len() == 0 {
        reveal_with_fuel(names_in_lines, 2);
        assert(pieces(before@, '\n') == seq![Seq::<char>::empty()]);
        assert(texts(names@).len() == 0);
    }
    let head = "Monitor "@;
    if line == head + name + rest && name.len() > 0 && (forall|i: int|
        0 <= i < name.len() ==> ' ' < #[trigger] name[i] && name[i] <= '~') && (rest.len() == 0
        || rest[0] == ' ') {
        assert(line.subrange(0, head.len() as int) =~= head);
        assert(line.skip(head.len() as int) =~= name + rest);
        lemma_first_word_stands_first(name, rest);
        assert(' ' < name[0] && name[0] <= '~');
        assert(!white((name + rest).first()));
        assert(first_word(name + rest) == Some(name));
    }
}

/// What a request comes to, by the host's own record. Where it makes an output, that one is
/// held by whoever asked, four commands were run for it, and the last of them set the extent
/// and the rate that the request asks for, on the output that is new. A request without an
/// extent or a rate, or with a key that was used before, runs nothing.
pub proof fn law_request_is_carried_out<R: CommandRunner>(
    provider: &mut HyprlandHeadlessOutputProvider<R>,
    request: OutputRequest,
    r: Result<VirtualOutput, Error>,
)
    requires
        call_ensures(
            <HyprlandHeadlessOutputProvider<R> as VirtualOutputProvider>::create,
            (provider, &request),
            r,
        ),
    ensures
        ({
            let before = old(provider).calls().len() as int;
            let calls = final(provider).calls();
            let served = old(provider).served();
            let key = request.idempotency_key@.text;
            let bad = request.width_px == 0 || request.height_px == 0 || request.refresh_millihz
                == 0 || served.contains(key);
            &&& calls.len() >= before
            &&& calls.take(before) == old(provider).calls()
            &&& bad <==> calls.len() == before
            &&& bad ==> r is Err && final(provider).served() == served
            &&& !bad ==> final(provider).served() == served.push(key)
            &&& r matches Ok(output) ==> {
                &&& output.held()
                &&& calls.len() == before + 4
                &&& calls[before].args == seq!["monitors"@]
                &&& calls[before + 1].args == seq!["output"@, "create"@, "headless"@]
                &&& calls[before + 2].args == seq!["monitors"@]
                &&& calls[before + 3].args.len() == 3
                &&& calls[before + 3].args[0] == "keyword"@
                &&& calls[before + 3].args[1] == "monitor"@
                &&& sets_mode(
                    calls[before + 3].args[2],
                    output.name(),
                    request.width_px as nat,
                    request.height_px as nat,
                    request.refresh_millihz as nat,
                )
            }
        }),
{
    let before = provider.calls().len() as int;
    let calls = calls_since(final(provider).calls(), before as nat);
    let request_asks = request_view(request);
    let served = provider.served();
    assert(final(provider).calls().take(before) =~= provider.calls());
    law_host_is_asked_for_good_requests_alone(request_asks, served, calls, create_outcome(r));
    if r is Ok {
        law_output_is_made_by_these_commands(request_asks, served, calls, r->Ok_0.name());
        assert(calls[0] == final(provider).calls()[before]);
        assert(calls[1] == final(provider).calls()[before + 1]);
        assert(calls[2] == final(provider).calls()[before + 2]);
        assert(calls[3] == final(provider).calls()[before + 3]);
    }
}

/// Whether a flat object says of a key what its text is: the quoted key, a colon and the quoted
/// text follow each other, and the quoted key stands nowhere further to the left.
pub open spec fn says(body: Seq<char>, key: Seq<char>, text: Seq<char>) -> bool {
    exists|head: Seq<char>, gap: Seq<char>, space: Seq<char>, tail: Seq<char>|
        #[trigger] says_between(body, key, text, head, gap, space, tail)
}

/// Whether a flat object is made of these parts around a key and its text.
pub open spec fn says_between(
    body: Seq<char>,
    key: Seq<char>,
    text: Seq<char>,
    head: Seq<char>,
    gap: Seq<char>,
    space: Seq<char>,
    tail: Seq<char>,
) -> bool {
    let quoted_key = seq!['"'] + key + seq!['"'];
    &&& body == head + quoted_key + (gap + seq![':'] + (space + seq!['"'] + (text + seq!['"']
        + tail)))
    &&& forall|j: int| 0 <= j < head.len() ==> !#[trigger] stands_at(body, quoted_key, j)
    &&& !gap.contains(':')
    &&& !space.contains('"')
    &&& !text.contains('"')
}

proof fn lemma_said_is_read(body: Seq<char>, key: Seq<char>, text: Seq<char>)
    requires
        says(body, key, text),
    ensures
        string_field(body, key) == Some(text),
{
    let (head, gap, space, tail) = choose|
        head: Seq<char>,
        gap: Seq<char>,
        space: Seq<char>,
        tail: Seq<char>,
    |
        #[trigger] says_between(body, key, text, head, gap, space, tail);
    let quoted_key = seq!['"'] + key + seq!['"'];
    let last = text + seq!['"'] + tail;
    let value = space + seq!['"'] + last;
    let rest = gap + seq![':'] + value;
    let at = head.len() as int;
    assert(body.subrange(at, at + quoted_key.len()) =~= quoted_key);
    assert(stands_at(body, quoted_key, at));
    law_found_position_is_the_first(body, quoted_key, 0);
    assert(first_position(body, quoted_key, 0) == Some(at));
    assert(body.skip(at + quoted_key.len()) =~= rest);
    law_text_is_parted_at_its_mark(gap, ':', value);
    law_text_is_parted_at_its_mark(space, '"', last);
    law_text_is_parted_at_its_mark(text, '"', tail);
}

/// An instance of a listing: what its object says, and the text between it and the next.
pub struct ListedInstance {
    pub body: Seq<char>,
    pub gap: Seq<char>,
    pub name: Seq<char>,
    pub socket: Seq<char>,
}

impl ListedInstance {
    /// A flat object that says the name and the socket of the instance.
    pub open spec fn is_flat(self) -> bool {
        &&& !self.body.contains('{')
        &&& !self.body.contains('}')
        &&& !self.gap.contains('{')
        &&& says(self.body, "instance"@, self.name)
        &&& says(self.body, "wl_socket"@, self.socket)
    }
}

/// The text of a listing.
pub open spec fn listing(head: Seq<char>, instances: Seq<ListedInstance>) -> Seq<char>
    decreases instances.len(),
{
    if instances.len() == 0 {
        head
    } else {
        let last = instances.last();
        listing(head, instances.drop_last()) + seq!['{'] + (last.body + seq!['}'] + last.gap)
    }
}

spec fn bodies(instances: Seq<ListedInstance>) -> Seq<Seq<char>> {
    Seq::new(
        instances.len(),
        |i: int| instances[i].body + seq!['}'] + instances[i].gap,
    )
}

proof fn lemma_listing_is_parted(head: Seq<char>, instances: Seq<ListedInstance>)
    requires
        !head.contains('{'),
        forall|i: int| 0 <= i < instances.len() ==> (#[trigger] instances[i]).is_flat(),
    ensures
        pieces(listing(head, instances), '{') == seq![head] + bodies(instances),
    decreases instances.len(),
{
    if instances.len() == 0 {
        law_text_without_separator_is_one_piece(head, '{');
        assert(seq![head] + bodies(instances) =~= seq![head]);
    } else {
        let less = instances.drop_last();
        let last = instances.last();
        assert(last == instances[instances.len() - 1]);
        assert forall|i: int| 0 <= i < less.len() implies (#[trigger] less[i]).is_flat() by {
            assert(less[i] == instances[i]);
        }
        lemma_listing_is_parted(head, less);
        let tail = last.body + seq!['}'] + last.gap;
        assert forall|k: int| 0 <= k < tail.len() implies tail[k] != '{' by {
            if k < last.body.len() {
                assert(last.body.contains(last.body[k]));
            } else if k > last.body.len() {
                assert(last.gap.contains(last.gap[k - last.body.len() - 1]));
            }
        }
        law_separator_begins_a_piece(listing(head, less), '{', tail);
        assert(seq![head] + bodies(instances) =~= (seq![head] + bodies(less)).push(tail));
    }
}

proof fn lemma_signature_of_the_first(instances: Seq<ListedInstance>, display: Seq<char>)
    requires
        forall|i: int| 0 <= i < instances.len() ==> (#[trigger] instances[i]).is_flat(),
    ensures
        (forall|i: int| 0 <= i < instances.len() ==> (#[trigger] instances[i]).socket != display)
            ==> signature_in(bodies(instances), display) is None,
        forall|at: int|
            0 <= at < instances.len() && (#[trigger] instances[at]).socket == display && (forall|
                i: int,
            |
                0 <= i < at ==> (#[trigger] instances[i]).socket != display) ==> signature_in(
                bodies(instances),
                display,
            ) == Some(instances[at].name),
    decreases instances.len(),
{
    if instances.len() > 0 {
        let first = instances[0];
        let rest = instances.drop_first();
        assert forall|i: int| 0 <= i < rest.len() implies (#[trigger] rest[i]).is_flat() by {
            assert(rest[i] == instances[i + 1]);
        }
        lemma_signature_of_the_first(rest, display);
        assert(bodies(instances).drop_first() =~= bodies(rest));
        law_text_is_parted_at_its_mark(first.body, '}', first.gap);
        assert(object_body(bodies(instances).first()) == first.body);
        lemma_said_is_read(first.body, "instance"@, first.name);
        lemma_said_is_read(first.body, "wl_socket"@, first.socket);
        if first.socket != display {
            if forall|i: int|
                0 <= i < instances.len() ==> (#[trigger] instances[i]).socket != display {
                assert forall|i: int| 0 <= i < rest.len() implies (#[trigger] rest[i]).socket
                    != display by {
                    assert(rest[i] == instances[i + 1]);
                }
            }
            assert forall|at: int|
                0 <= at < instances.len() && (#[trigger] instances[at]).socket == display && (
                forall|i: int|
                    0 <= i < at ==> (#[trigger] instances[i]).socket != display) implies signature_in(
                bodies(instances),
                display,
            ) == Some(instances[at].name) by {
                assert(rest[at - 1] == instances[at]);
                assert forall|i: int| 0 <= i < at - 1 implies (#[trigger] rest[i]).socket
                    != display by {
                    assert(rest[i] == instances[i + 1]);
                }
            }
        }
    }
}

/// The signature of a display is the name of the first listed instance that serves it. Where
/// no instance serves it there is none.
pub proof fn law_instance_is_found_by_its_socket(
    stdout: &str,
    wayland_display: &str,
    r: Option<String>,
    head: Seq<char>,
    instances: Seq<ListedInstance>,
)
    requires
        call_ensures(parse_instance_signature, (stdout, wayland_display), r),
        stdout@ == listing(head, instances),
        !head.contains('{'),
        forall|i: int| 0 <= i < instances.len() ==> (#[trigger] instances[i]).is_flat(),
    ensures
        (forall|i: int|
            0 <= i < instances.len() ==> (#[trigger] instances[i]).socket != wayland_display@)
            ==> r is None,
        forall|at: int|
            0 <= at < instances.len() && (#[trigger] instances[at]).socket == wayland_display@ && (
            forall|i: int| 0 <= i < at ==> (#[trigger] instances[i]).socket != wayland_display@)
                ==> r is Some && r->0@ == instances[at].name,
{
    lemma_listing_is_parted(head, instances);
    lemma_signature_of_the_first(instances, wayland_display@);
    assert((seq![head] + bodies(instances)).skip(1) =~= bodies(instances));
}

/// The first line of a text is what stands before its first line feed, or all of it, without
/// white space at its ends.
pub proof fn law_first_line_is_what_stands_before_the_feed(
    text: Seq<char>,
    line: Seq<char>,
    rest: Seq<char>,
)
    requires
        text == line || text == line + seq!['\n'] + rest,
        !line.contains('\n'),
    ensures
        exists|head: Seq<char>, tail: Seq<char>|
            all_white(head) && all_white(tail) && line == #[trigger] (head + first_line_of(text)
                + tail),
        first_line_of(text).len() > 0 ==> !white(first_line_of(text).first()) && !white(
            first_line_of(text).last(),
        ),
{
    if text == line {
        law_text_without_separator_is_one_piece(line, '\n');
    } else {
        lemma_first_piece(line, '\n', rest);
    }
    assert(first_line_of(text) == trimmed(line));
    law_trimming_takes_white_space_alone(line);
}

proof fn lemma_first_piece(line: Seq<char>, separator: char, rest: Seq<char>)
    requires
        !line.contains(separator),
    ensures
        pieces(line + seq![separator] + rest, separator).first() == line,
        pieces(line + seq![separator] + rest, separator).len() > 1,
    decreases rest.len(),
{
    let whole = line + seq![separator] + rest;
    if rest.len() == 0 {
        law_text_without_separator_is_one_piece(line, separator);
        assert(whole.drop_last() =~= line);
        assert(whole.last() == separator);
    } else {
        lemma_first_piece(line, separator, rest.drop_last());
        assert(whole.drop_last() =~= line + seq![separator] + rest.drop_last());
    }
}

} // verus!

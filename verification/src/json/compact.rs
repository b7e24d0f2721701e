//! A rendered document holds no blank that its texts and keys do not hold.

use vstd::prelude::*;

use super::{
    escaped, escaped_char, field_text, fields_text, items_text, json_text, quoted, JsonView,
};
use crate::text::{decimal, digit_char, int_text};

verus! {

broadcast use vstd::seq::group_seq_axioms;

/// How many blanks a text holds.
pub open spec fn blanks(s: Seq<char>) -> nat
    decreases s.len(),
{
    if s.len() == 0 {
        0
    } else {
        blanks(s.drop_last()) + if s.last() == ' ' {
            1nat
        } else {
            0nat
        }
    }
}

/// How many blanks the texts and keys of a document hold.
pub open spec fn blanks_within(value: JsonView) -> nat
    decreases value,
{
    match value {
        JsonView::Text(s) => blanks(s),
        JsonView::Array(items) => blanks_in_items(items),
        JsonView::Object(fields) => blanks_in_fields(fields),
        _ => 0,
    }
}

/// How many blanks the texts and keys of some items hold.
pub open spec fn blanks_in_items(items: Seq<JsonView>) -> nat
    decreases items,
{
    if items.len() == 0 {
        0
    } else {
        blanks_in_items(items.drop_last()) + blanks_within(items.last())
    }
}

/// How many blanks the keys and values of some fields hold.
pub open spec fn blanks_in_fields(fields: Seq<(Seq<char>, JsonView)>) -> nat
    decreases fields,
{
    if fields.len() == 0 {
        0
    } else {
        let last = fields.last();
        blanks_in_fields(fields.drop_last()) + blanks(last.0) + blanks_within(last.1)
    }
}

proof fn lemma_blanks_join(a: Seq<char>, b: Seq<char>)
    ensures
        blanks(a + b) == blanks(a) + blanks(b),
    decreases b.len(),
{
    if b.len() == 0 {
        assert(a + b =~= a);
    } else {
        assert((a + b).drop_last() =~= a + b.drop_last());
        lemma_blanks_join(a, b.drop_last());
    }
}

proof fn lemma_no_blank(s: Seq<char>)
    requires
        forall|i: int| 0 <= i < s.len() ==> s[i] != ' ',
    ensures
        blanks(s) == 0,
    decreases s.len(),
{
    if s.len() > 0 {
        lemma_no_blank(s.drop_last());
    }
}

proof fn lemma_between(open: char, inner: Seq<char>, close: char)
    requires
        open != ' ',
        close != ' ',
    ensures
        blanks(seq![open] + inner + seq![close]) == blanks(inner),
{
    lemma_no_blank(seq![open]);
    lemma_no_blank(seq![close]);
    lemma_blanks_join(seq![open], inner);
    lemma_blanks_join(seq![open] + inner, seq![close]);
}

proof fn lemma_joined_by(a: Seq<char>, mark: char, b: Seq<char>)
    requires
        mark != ' ',
    ensures
        blanks(a + seq![mark] + b) == blanks(a) + blanks(b),
{
    lemma_no_blank(seq![mark]);
    lemma_blanks_join(a, seq![mark]);
    lemma_blanks_join(a + seq![mark], b);
}

proof fn lemma_decimal_has_no_blank(n: nat)
    ensures
        blanks(decimal(n)) == 0,
    decreases n,
{
    if n < 10 {
        assert(digit_char(n) != ' ');
        lemma_no_blank(decimal(n));
    } else {
        lemma_decimal_has_no_blank(n / 10);
        assert(digit_char(n % 10) != ' ');
        assert(decimal(n).drop_last() =~= decimal(n / 10));
    }
}

proof fn lemma_escaped_char_blanks(c: char)
    ensures
        blanks(escaped_char(c)) == if c == ' ' {
            1nat
        } else {
            0nat
        },
{
    let written = escaped_char(c);
    if c == ' ' {
        reveal_with_fuel(blanks, 2);
        assert(written == seq![' ']);
        assert(written.drop_last() =~= Seq::<char>::empty());
    } else {
        assert forall|i: int| 0 <= i < written.len() implies written[i] != ' ' by {
            if written.len() == 6 {
                let high = c as nat / 16;
                let low = c as nat % 16;
                assert(high < 2 && low < 16);
                assert(digit_char(high) as u32 == '0' as u32 + high);
                assert(digit_char(low) as u32 >= '0' as u32);
                assert(written[4] == digit_char(high) && written[5] == digit_char(low));
            }
        }
        lemma_no_blank(written);
    }
}

proof fn lemma_escaped_blanks(s: Seq<char>)
    ensures
        blanks(escaped(s)) == blanks(s),
    decreases s.len(),
{
    if s.len() > 0 {
        lemma_escaped_blanks(s.drop_last());
        lemma_escaped_char_blanks(s.last());
        lemma_blanks_join(escaped(s.drop_last()), escaped_char(s.last()));
    }
}

proof fn lemma_quoted_blanks(s: Seq<char>)
    ensures
        blanks(quoted(s)) == blanks(s),
{
    lemma_escaped_blanks(s);
    lemma_between('"', escaped(s), '"');
}

/// No blank stands outside the texts and keys: a rendering holds as many blanks as they do.
pub proof fn law_rendering_adds_no_blank(value: JsonView)
    ensures
        blanks(json_text(value)) == blanks_within(value),
    decreases value,
{
    match value {
        JsonView::Null => {
            reveal_strlit("null");
            lemma_no_blank("null"@);
        },
        JsonView::Bool(b) => {
            reveal_strlit("true");
            reveal_strlit("false");
            lemma_no_blank("true"@);
            lemma_no_blank("false"@);
        },
        JsonView::Int(n) => {
            if n < 0 {
                lemma_decimal_has_no_blank(-n as nat);
                lemma_no_blank(seq!['-']);
                lemma_blanks_join(seq!['-'], decimal(-n as nat));
            } else {
                lemma_decimal_has_no_blank(n as nat);
            }
        },
        JsonView::Text(s) => {
            lemma_quoted_blanks(s);
        },
        JsonView::Array(items) => {
            lemma_items_add_no_blank(items);
            lemma_between('[', items_text(items), ']');
        },
        JsonView::Object(fields) => {
            lemma_fields_add_no_blank(fields);
            lemma_between('{', fields_text(fields), '}');
        },
    }
}

proof fn lemma_items_add_no_blank(items: Seq<JsonView>)
    ensures
        blanks(items_text(items)) == blanks_in_items(items),
    decreases items,
{
    if items.len() > 0 {
        law_rendering_adds_no_blank(items.last());
        lemma_items_add_no_blank(items.drop_last());
        if items.len() > 1 {
            lemma_joined_by(items_text(items.drop_last()), ',', json_text(items.last()));
        }
    }
}

proof fn lemma_fields_add_no_blank(fields: Seq<(Seq<char>, JsonView)>)
    ensures
        blanks(fields_text(fields)) == blanks_in_fields(fields),
    decreases fields,
{
    if fields.len() > 0 {
        let last = fields.last();
        lemma_quoted_blanks(last.0);
        law_rendering_adds_no_blank(last.1);
        lemma_joined_by(quoted(last.0), ':', json_text(last.1));
        assert(blanks(field_text(last)) == blanks(last.0) + blanks_within(last.1));
        lemma_fields_add_no_blank(fields.drop_last());
        if fields.len() > 1 {
            lemma_joined_by(fields_text(fields.drop_last()), ',', field_text(last));
        }
    }
}

} // verus!

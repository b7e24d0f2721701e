//! A rendered document can be read back in one way only.

use vstd::prelude::*;

use super::{
    escaped, escaped_char, field_text, fields_text, items_text, json_text,
    lemma_escaped_from_the_front, lemma_first_character_is_known, quoted, JsonView,
};
use crate::text::{decimal, digit_char, int_text, law_decimal_spells_its_number};

verus! {

broadcast use vstd::seq::group_seq_axioms;

/// Whether a character is a decimal digit.
pub open spec fn is_digit(c: char) -> bool {
    '0' <= c && c <= '9'
}

/// Whether a number that stands before this text has ended.
pub open spec fn ends_number(rest: Seq<char>) -> bool {
    rest.len() == 0 || !is_digit(rest[0])
}

/// Whether a document can begin with this character.
spec fn leads(c: char) -> bool {
    is_digit(c) || c == '-' || c == 'n' || c == 't' || c == 'f' || c == '"' || c == '[' || c == '{'
}

pub(crate) proof fn lemma_same_rest(a: char, x: Seq<char>, b: char, y: Seq<char>)
    requires
        seq![a] + x == seq![b] + y,
    ensures
        a == b,
        x == y,
{
    assert((seq![a] + x)[0] == a && (seq![b] + y)[0] == b);
    assert(x =~= (seq![a] + x).skip(1));
    assert(y =~= (seq![b] + y).skip(1));
}

pub(crate) proof fn lemma_decimal_digits(n: nat)
    ensures
        decimal(n).len() > 0,
        forall|i: int| 0 <= i < decimal(n).len() ==> is_digit(#[trigger] decimal(n)[i]),
    decreases n,
{
    if n >= 10 {
        lemma_decimal_digits(n / 10);
        assert(is_digit(digit_char(n % 10)));
    } else {
        assert(is_digit(digit_char(n)));
    }
}

pub(crate) proof fn lemma_same_decimal(m: nat, x: Seq<char>, n: nat, y: Seq<char>)
    requires
        decimal(m) + x == decimal(n) + y,
        ends_number(x),
        ends_number(y),
    ensures
        m == n,
        x == y,
{
    let a = decimal(m);
    let b = decimal(n);
    lemma_decimal_digits(m);
    lemma_decimal_digits(n);
    if a.len() < b.len() {
        assert((b + y)[a.len() as int] == b[a.len() as int]);
        assert((a + x)[a.len() as int] == x[0]);
    } else if b.len() < a.len() {
        assert((a + x)[b.len() as int] == a[b.len() as int]);
        assert((b + y)[b.len() as int] == y[0]);
    }
    assert(a =~= (a + x).take(a.len() as int));
    assert(b =~= (b + y).take(b.len() as int));
    assert(x =~= (a + x).skip(a.len() as int));
    assert(y =~= (b + y).skip(b.len() as int));
    law_decimal_spells_its_number(m);
    law_decimal_spells_its_number(n);
}

proof fn lemma_same_int(m: int, x: Seq<char>, n: int, y: Seq<char>)
    requires
        int_text(m) + x == int_text(n) + y,
        ends_number(x),
        ends_number(y),
    ensures
        m == n,
        x == y,
{
    let left = int_text(m) + x;
    let right = int_text(n) + y;
    let p = decimal(if m < 0 { -m as nat } else { m as nat });
    let q = decimal(if n < 0 { -n as nat } else { n as nat });
    lemma_decimal_digits(if m < 0 { -m as nat } else { m as nat });
    lemma_decimal_digits(if n < 0 { -n as nat } else { n as nat });
    assert(left[0] == if m < 0 { '-' } else { p[0] });
    assert(right[0] == if n < 0 { '-' } else { q[0] });
    assert(m < 0 <==> n < 0);
    if m < 0 {
        assert(left =~= seq!['-'] + (p + x));
        assert(right =~= seq!['-'] + (q + y));
        lemma_same_rest('-', p + x, '-', q + y);
        lemma_same_decimal(-m as nat, x, -n as nat, y);
    } else {
        lemma_same_decimal(m as nat, x, n as nat, y);
    }
}

proof fn lemma_same_escaped(s: Seq<char>, x: Seq<char>, t: Seq<char>, y: Seq<char>)
    requires
        escaped(s) + (seq!['"'] + x) == escaped(t) + (seq!['"'] + y),
    ensures
        s == t,
        x == y,
    decreases s.len(),
{
    let xx = seq!['"'] + x;
    let yy = seq!['"'] + y;
    let left = escaped(s) + xx;
    let right = escaped(t) + yy;
    if s.len() > 0 {
        lemma_escaped_from_the_front(s);
        assert(left[0] == escaped_char(s[0])[0]);
        assert(escaped_char(s[0])[0] != '"');
    } else {
        assert(left =~= xx);
    }
    if t.len() > 0 {
        lemma_escaped_from_the_front(t);
        assert(right[0] == escaped_char(t[0])[0]);
        assert(escaped_char(t[0])[0] != '"');
    } else {
        assert(right =~= yy);
    }
    if s.len() > 0 {
        assert(t.len() > 0);
        let more = escaped(s.drop_first()) + xx;
        let rest = escaped(t.drop_first()) + yy;
        assert(left =~= escaped_char(s[0]) + more);
        assert(right =~= escaped_char(t[0]) + rest);
        lemma_first_character_is_known(s[0], more, t[0], rest);
        lemma_same_escaped(s.drop_first(), x, t.drop_first(), y);
        assert(s =~= seq![s[0]] + s.drop_first());
        assert(t =~= seq![t[0]] + t.drop_first());
    } else {
        assert(t.len() == 0);
        assert(s =~= t);
        lemma_same_rest('"', x, '"', y);
    }
}

proof fn lemma_same_quoted(s: Seq<char>, x: Seq<char>, t: Seq<char>, y: Seq<char>)
    requires
        quoted(s) + x == quoted(t) + y,
    ensures
        s == t,
        x == y,
{
    let more = escaped(s) + (seq!['"'] + x);
    let rest = escaped(t) + (seq!['"'] + y);
    assert(quoted(s) + x =~= seq!['"'] + more);
    assert(quoted(t) + y =~= seq!['"'] + rest);
    lemma_same_rest('"', more, '"', rest);
    lemma_same_escaped(s, x, t, y);
}

proof fn lemma_leads(v: JsonView)
    ensures
        json_text(v).len() > 0,
        leads(json_text(v)[0]),
        match v {
            JsonView::Null => json_text(v)[0] == 'n',
            JsonView::Bool(b) => json_text(v)[0] == (if b {
                't'
            } else {
                'f'
            }),
            JsonView::Int(_) => is_digit(json_text(v)[0]) || json_text(v)[0] == '-',
            JsonView::Text(_) => json_text(v)[0] == '"',
            JsonView::Array(_) => json_text(v)[0] == '[',
            JsonView::Object(_) => json_text(v)[0] == '{',
        },
{
    reveal_strlit("null");
    reveal_strlit("true");
    reveal_strlit("false");
    if let JsonView::Int(n) = v {
        lemma_decimal_digits(if n < 0 { -n as nat } else { n as nat });
    }
}

/// What follows the first of some items, up to the end of the array and beyond.
spec fn after_first_item(items: Seq<JsonView>, x: Seq<char>) -> Seq<char> {
    if items.len() == 1 {
        seq![']'] + x
    } else {
        seq![','] + (items_text(items.drop_first()) + (seq![']'] + x))
    }
}

proof fn lemma_items_from_the_front(items: Seq<JsonView>)
    requires
        items.len() > 1,
    ensures
        items_text(items) == json_text(items[0]) + (seq![','] + items_text(items.drop_first())),
    decreases items.len(),
{
    let front = items.drop_last();
    if items.len() == 2 {
        assert(front.last() == items[0]);
        assert(items.drop_first().last() == items.last());
        assert(items_text(front) == json_text(items[0]));
        assert(items_text(items) =~= json_text(items[0]) + (seq![','] + items_text(
            items.drop_first(),
        )));
    } else {
        lemma_items_from_the_front(front);
        assert(front.drop_first() =~= items.drop_first().drop_last());
        assert(items.drop_first().last() == items.last());
        assert(items_text(items) =~= json_text(items[0]) + (seq![','] + items_text(
            items.drop_first(),
        )));
    }
}

proof fn lemma_items_split(items: Seq<JsonView>, x: Seq<char>)
    requires
        items.len() > 0,
    ensures
        items_text(items) + (seq![']'] + x) == json_text(items[0]) + after_first_item(items, x),
{
    if items.len() > 1 {
        lemma_items_from_the_front(items);
    }
    assert(items_text(items) + (seq![']'] + x) =~= json_text(items[0]) + after_first_item(
        items,
        x,
    ));
}

/// What follows the value of the first of some fields.
spec fn after_first_field(fields: Seq<(Seq<char>, JsonView)>, x: Seq<char>) -> Seq<char> {
    if fields.len() == 1 {
        seq!['}'] + x
    } else {
        seq![','] + (fields_text(fields.drop_first()) + (seq!['}'] + x))
    }
}

proof fn lemma_fields_from_the_front(fields: Seq<(Seq<char>, JsonView)>)
    requires
        fields.len() > 1,
    ensures
        fields_text(fields) == field_text(fields[0]) + (seq![','] + fields_text(
            fields.drop_first(),
        )),
    decreases fields.len(),
{
    let front = fields.drop_last();
    if fields.len() == 2 {
        assert(front.last() == fields[0]);
        assert(fields.drop_first().last() == fields.last());
        assert(fields_text(front) == field_text(fields[0]));
        assert(fields_text(fields) =~= field_text(fields[0]) + (seq![','] + fields_text(
            fields.drop_first(),
        )));
    } else {
        lemma_fields_from_the_front(front);
        assert(front.drop_first() =~= fields.drop_first().drop_last());
        assert(fields.drop_first().last() == fields.last());
        assert(fields_text(fields) =~= field_text(fields[0]) + (seq![','] + fields_text(
            fields.drop_first(),
        )));
    }
}

proof fn lemma_fields_split(fields: Seq<(Seq<char>, JsonView)>, x: Seq<char>)
    requires
        fields.len() > 0,
    ensures
        fields_text(fields) + (seq!['}'] + x) == quoted(fields[0].0) + (seq![':'] + (json_text(
            fields[0].1,
        ) + after_first_field(fields, x))),
{
    if fields.len() > 1 {
        lemma_fields_from_the_front(fields);
    }
    let first = fields[0];
    let more = after_first_field(fields, x);
    assert(fields_text(fields) + (seq!['}'] + x) =~= field_text(first) + more);
    assert(field_text(first) == quoted(first.0) + seq![':'] + json_text(first.1));
    assert(field_text(first) + more =~= quoted(first.0) + (seq![':'] + (json_text(first.1)
        + more)));
}

proof fn lemma_same_items(a: Seq<JsonView>, x: Seq<char>, b: Seq<JsonView>, y: Seq<char>)
    requires
        items_text(a) + (seq![']'] + x) == items_text(b) + (seq![']'] + y),
    ensures
        a == b,
        x == y,
    decreases a,
{
    let left = items_text(a) + (seq![']'] + x);
    let right = items_text(b) + (seq![']'] + y);
    if a.len() > 0 {
        lemma_items_split(a, x);
        lemma_leads(a[0]);
        assert(left[0] == json_text(a[0])[0]);
    } else {
        assert(left =~= seq![']'] + x);
    }
    if b.len() > 0 {
        lemma_items_split(b, y);
        lemma_leads(b[0]);
        assert(right[0] == json_text(b[0])[0]);
    } else {
        assert(right =~= seq![']'] + y);
    }
    if a.len() == 0 {
        assert(b.len() == 0);
        assert(a =~= b);
        lemma_same_rest(']', x, ']', y);
    } else {
        assert(b.len() > 0);
        let more = after_first_item(a, x);
        let rest = after_first_item(b, y);
        assert(more[0] == if a.len() == 1 { ']' } else { ',' });
        assert(rest[0] == if b.len() == 1 { ']' } else { ',' });
        lemma_same_value(a[0], more, b[0], rest);
        if a.len() == 1 {
            assert(b.len() == 1);
            lemma_same_rest(']', x, ']', y);
            assert(a =~= b);
        } else {
            assert(b.len() > 1);
            lemma_same_rest(
                ',',
                items_text(a.drop_first()) + (seq![']'] + x),
                ',',
                items_text(b.drop_first()) + (seq![']'] + y),
            );
            lemma_same_items(a.drop_first(), x, b.drop_first(), y);
            assert(a =~= seq![a[0]] + a.drop_first());
            assert(b =~= seq![b[0]] + b.drop_first());
        }
    }
}

proof fn lemma_same_fields(
    a: Seq<(Seq<char>, JsonView)>,
    x: Seq<char>,
    b: Seq<(Seq<char>, JsonView)>,
    y: Seq<char>,
)
    requires
        fields_text(a) + (seq!['}'] + x) == fields_text(b) + (seq!['}'] + y),
    ensures
        a == b,
        x == y,
    decreases a,
{
    let left = fields_text(a) + (seq!['}'] + x);
    let right = fields_text(b) + (seq!['}'] + y);
    if a.len() > 0 {
        lemma_fields_split(a, x);
        assert(left[0] == '"');
    } else {
        assert(left =~= seq!['}'] + x);
    }
    if b.len() > 0 {
        lemma_fields_split(b, y);
        assert(right[0] == '"');
    } else {
        assert(right =~= seq!['}'] + y);
    }
    if a.len() == 0 {
        assert(b.len() == 0);
        assert(a =~= b);
        lemma_same_rest('}', x, '}', y);
    } else {
        assert(b.len() > 0);
        let more = after_first_field(a, x);
        let rest = after_first_field(b, y);
        assert(more[0] == if a.len() == 1 { '}' } else { ',' });
        assert(rest[0] == if b.len() == 1 { '}' } else { ',' });
        lemma_same_quoted(
            a[0].0,
            seq![':'] + (json_text(a[0].1) + more),
            b[0].0,
            seq![':'] + (json_text(b[0].1) + rest),
        );
        lemma_same_rest(':', json_text(a[0].1) + more, ':', json_text(b[0].1) + rest);
        assert(decreases_to!(a => a[0]));
        lemma_same_value(a[0].1, more, b[0].1, rest);
        if a.len() == 1 {
            assert(b.len() == 1);
            lemma_same_rest('}', x, '}', y);
            assert(a =~= b);
        } else {
            assert(b.len() > 1);
            lemma_same_rest(
                ',',
                fields_text(a.drop_first()) + (seq!['}'] + x),
                ',',
                fields_text(b.drop_first()) + (seq!['}'] + y),
            );
            lemma_same_fields(a.drop_first(), x, b.drop_first(), y);
            assert(a =~= seq![a[0]] + a.drop_first());
            assert(b =~= seq![b[0]] + b.drop_first());
        }
    }
}

proof fn lemma_same_value(a: JsonView, x: Seq<char>, b: JsonView, y: Seq<char>)
    requires
        json_text(a) + x == json_text(b) + y,
        ends_number(x),
        ends_number(y),
    ensures
        a == b,
        x == y,
    decreases a,
{
    let left = json_text(a) + x;
    let right = json_text(b) + y;
    lemma_leads(a);
    lemma_leads(b);
    assert(left[0] == json_text(a)[0]);
    assert(right[0] == json_text(b)[0]);
    match (a, b) {
        (JsonView::Int(m), JsonView::Int(n)) => {
            lemma_same_int(m, x, n, y);
        },
        (JsonView::Text(s), JsonView::Text(t)) => {
            lemma_same_quoted(s, x, t, y);
        },
        (JsonView::Array(p), JsonView::Array(q)) => {
            let more = items_text(p) + (seq![']'] + x);
            let rest = items_text(q) + (seq![']'] + y);
            assert(left =~= seq!['['] + more);
            assert(right =~= seq!['['] + rest);
            lemma_same_rest('[', more, '[', rest);
            lemma_same_items(p, x, q, y);
        },
        (JsonView::Object(p), JsonView::Object(q)) => {
            let more = fields_text(p) + (seq!['}'] + x);
            let rest = fields_text(q) + (seq!['}'] + y);
            assert(left =~= seq!['{'] + more);
            assert(right =~= seq!['{'] + rest);
            lemma_same_rest('{', more, '{', rest);
            lemma_same_fields(p, x, q, y);
        },
        _ => {
            assert(a == b);
            let n = json_text(a).len() as int;
            assert(x =~= left.skip(n));
            assert(y =~= right.skip(n));
        },
    }
}

/// A document can be read back from its rendering: two documents with the same text
/// have the same scalars, the same items in the same order, and the same fields in the
/// order in which they were declared, a key that comes twice included. What follows the
/// text is told apart from it, unless it goes on with a digit.
pub proof fn law_rendering_reads_back(a: JsonView, x: Seq<char>, b: JsonView, y: Seq<char>)
    requires
        json_text(a) + x == json_text(b) + y,
        ends_number(x),
        ends_number(y),
    ensures
        a == b,
        x == y,
{
    lemma_same_value(a, x, b, y);
}

/// Different documents are rendered differently.
pub proof fn law_rendering_loses_nothing(a: JsonView, b: JsonView)
    requires
        json_text(a) == json_text(b),
    ensures
        a == b,
{
    let none = Seq::<char>::empty();
    assert(json_text(a) + none =~= json_text(a));
    assert(json_text(b) + none =~= json_text(b));
    lemma_same_value(a, none, b, none);
}

} // verus!

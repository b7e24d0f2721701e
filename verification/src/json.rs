//! A small JSON document model and its one-line rendering.
//!
//! Fields keep the order in which they were declared, and rendered text holds
//! no raw control character, so a rendered document is always a single line.

use vstd::prelude::*;

use crate::text::{chars_of, decimal, digit, digit_char, int_text, push_int};

pub mod compact;
pub mod unique;

verus! {

broadcast use vstd::seq::group_seq_axioms;

/// A JSON document. Numbers are integers.
#[derive(Debug, PartialEq)]
pub enum JsonValue {
    Null,
    Bool(bool),
    Int(i64),
    Text(String),
    Array(Vec<JsonValue>),
    Object(Vec<(String, JsonValue)>),
}

/// What a [`JsonValue`] stands for.
pub enum JsonView {
    Null,
    Bool(bool),
    Int(int),
    Text(Seq<char>),
    Array(Seq<JsonView>),
    Object(Seq<(Seq<char>, JsonView)>),
}

/// The document that `value` stands for.
pub open spec fn json_view(value: JsonValue) -> JsonView
    decreases value,
{
    match value {
        JsonValue::Null => JsonView::Null,
        JsonValue::Bool(b) => JsonView::Bool(b),
        JsonValue::Int(n) => JsonView::Int(n as int),
        JsonValue::Text(s) => JsonView::Text(s@),
        JsonValue::Array(items) => JsonView::Array(
            Seq::new(
                items@.len(),
                |i: int|
                    if 0 <= i < items.len() {
                        json_view(items[i])
                    } else {
                        JsonView::Null
                    },
            ),
        ),
        JsonValue::Object(fields) => JsonView::Object(
            Seq::new(
                fields@.len(),
                |i: int|
                    if 0 <= i < fields.len() {
                        (fields[i].0@, json_view(fields[i].1))
                    } else {
                        (Seq::empty(), JsonView::Null)
                    },
            ),
        ),
    }
}

impl View for JsonValue {
    type V = JsonView;

    open spec fn view(&self) -> JsonView {
        json_view(*self)
    }
}

/// How one character is written inside a JSON string.
pub open spec fn escaped_char(c: char) -> Seq<char> {
    if c == '"' {
        seq!['\\', '"']
    } else if c == '\\' {
        seq!['\\', '\\']
    } else if c == '\n' {
        seq!['\\', 'n']
    } else if c == '\r' {
        seq!['\\', 'r']
    } else if c == '\t' {
        seq!['\\', 't']
    } else if c == '\u{08}' {
        seq!['\\', 'b']
    } else if c == '\u{0c}' {
        seq!['\\', 'f']
    } else if (c as u32) < 0x20 {
        seq!['\\', 'u', '0', '0', digit_char(c as nat / 16), digit_char(c as nat % 16)]
    } else {
        seq![c]
    }
}

/// The characters of `s`, each written as inside a JSON string.
pub open spec fn escaped(s: Seq<char>) -> Seq<char>
    decreases s.len(),
{
    if s.len() == 0 {
        Seq::empty()
    } else {
        escaped(s.drop_last()) + escaped_char(s.last())
    }
}

/// `s` as a JSON string, quotation marks included.
pub open spec fn quoted(s: Seq<char>) -> Seq<char> {
    seq!['"'] + escaped(s) + seq!['"']
}

/// The one-line rendering of a document.
pub open spec fn json_text(value: JsonView) -> Seq<char>
    decreases value,
{
    match value {
        JsonView::Null => "null"@,
        JsonView::Bool(b) => if b {
            "true"@
        } else {
            "false"@
        },
        JsonView::Int(n) => int_text(n),
        JsonView::Text(s) => quoted(s),
        JsonView::Array(items) => seq!['['] + items_text(items) + seq![']'],
        JsonView::Object(fields) => seq!['{'] + fields_text(fields) + seq!['}'],
    }
}

/// Array items, separated by commas.
pub open spec fn items_text(items: Seq<JsonView>) -> Seq<char>
    decreases items,
{
    if items.len() == 0 {
        Seq::empty()
    } else if items.len() == 1 {
        json_text(items.last())
    } else {
        items_text(items.drop_last()) + seq![','] + json_text(items.last())
    }
}

/// One object field: its key, a colon, its value.
pub open spec fn field_text(field: (Seq<char>, JsonView)) -> Seq<char>
    decreases field,
{
    quoted(field.0) + seq![':'] + json_text(field.1)
}

/// Object fields in order, separated by commas.
pub open spec fn fields_text(fields: Seq<(Seq<char>, JsonView)>) -> Seq<char>
    decreases fields,
{
    if fields.len() == 0 {
        Seq::empty()
    } else if fields.len() == 1 {
        field_text(fields.last())
    } else {
        fields_text(fields.drop_last()) + seq![','] + field_text(fields.last())
    }
}

/// A character that a line of output can hold.
pub open spec fn is_plain(c: char) -> bool {
    c as u32 >= 0x20
}

/// Whether a text holds no control character, and so no line break.
pub open spec fn is_one_line(s: Seq<char>) -> bool {
    forall|i: int| 0 <= i < s.len() ==> is_plain(#[trigger] s[i])
}

proof fn lemma_escaped_char_is_one_line(c: char)
    ensures
        is_one_line(escaped_char(c)),
{
    let text = escaped_char(c);
    assert forall|i: int| 0 <= i < text.len() implies is_plain(#[trigger] text[i]) by {
        if text.len() == 6 {
            let high = c as nat / 16;
            let low = c as nat % 16;
            assert(high < 2 && low < 16);
            assert(digit_char(high) as u32 == '0' as u32 + high);
            assert(is_plain(digit_char(low)));
            assert(text[0] == '\\' && text[1] == 'u' && text[2] == '0' && text[3] == '0');
            assert(text[4] == digit_char(high) && text[5] == digit_char(low));
        }
    }
}

proof fn lemma_escaped_is_one_line(s: Seq<char>)
    ensures
        is_one_line(escaped(s)),
    decreases s.len(),
{
    if s.len() > 0 {
        lemma_escaped_is_one_line(s.drop_last());
        let last = escaped_char(s.last());
        lemma_escaped_char_is_one_line(s.last());
        let rest = escaped(s.drop_last());
        assert forall|i: int| 0 <= i < (rest + last).len() implies is_plain(
            #[trigger] (rest + last)[i],
        ) by {
            if i < rest.len() {
                assert(is_plain(rest[i]));
            } else {
                assert(is_plain(last[i - rest.len()]));
            }
        }
    }
}

proof fn lemma_decimal_is_one_line(n: nat)
    ensures
        is_one_line(decimal(n)),
    decreases n,
{
    if n >= 10 {
        lemma_decimal_is_one_line(n / 10);
    }
}

proof fn lemma_join_is_one_line(a: Seq<char>, b: Seq<char>)
    requires
        is_one_line(a),
        is_one_line(b),
    ensures
        is_one_line(a + b),
{
    assert forall|i: int| 0 <= i < (a + b).len() implies is_plain(#[trigger] (a + b)[i]) by {
        if i < a.len() {
            assert(is_plain(a[i]));
        } else {
            assert(is_plain(b[i - a.len()]));
        }
    }
}

proof fn lemma_quoted_is_one_line(s: Seq<char>)
    ensures
        is_one_line(quoted(s)),
{
    lemma_escaped_is_one_line(s);
    lemma_join_is_one_line(seq!['"'], escaped(s));
    lemma_join_is_one_line(seq!['"'] + escaped(s), seq!['"']);
}

/// A document is rendered on one line, whatever its texts hold.
pub proof fn law_rendering_is_one_line(value: JsonView)
    ensures
        is_one_line(json_text(value)),
    decreases value,
{
    reveal_strlit("null");
    reveal_strlit("true");
    reveal_strlit("false");
    match value {
        JsonView::Null => {},
        JsonView::Bool(b) => {},
        JsonView::Int(n) => {
            lemma_decimal_is_one_line(if n < 0 {
                -n as nat
            } else {
                n as nat
            });
            if n < 0 {
                lemma_join_is_one_line(seq!['-'], decimal(-n as nat));
            }
        },
        JsonView::Text(s) => {
            lemma_quoted_is_one_line(s);
        },
        JsonView::Array(items) => {
            lemma_items_are_one_line(items);
            lemma_join_is_one_line(seq!['['], items_text(items));
            lemma_join_is_one_line(seq!['['] + items_text(items), seq![']']);
        },
        JsonView::Object(fields) => {
            lemma_fields_are_one_line(fields);
            lemma_join_is_one_line(seq!['{'], fields_text(fields));
            lemma_join_is_one_line(seq!['{'] + fields_text(fields), seq!['}']);
        },
    }
}

proof fn lemma_items_are_one_line(items: Seq<JsonView>)
    ensures
        is_one_line(items_text(items)),
    decreases items,
{
    if items.len() > 0 {
        law_rendering_is_one_line(items.last());
        if items.len() > 1 {
            lemma_items_are_one_line(items.drop_last());
            lemma_join_is_one_line(items_text(items.drop_last()), seq![',']);
            lemma_join_is_one_line(
                items_text(items.drop_last()) + seq![','],
                json_text(items.last()),
            );
        }
    }
}

proof fn lemma_fields_are_one_line(fields: Seq<(Seq<char>, JsonView)>)
    ensures
        is_one_line(fields_text(fields)),
    decreases fields,
{
    if fields.len() > 0 {
        let last = fields.last();
        lemma_quoted_is_one_line(last.0);
        law_rendering_is_one_line(last.1);
        lemma_join_is_one_line(quoted(last.0), seq![':']);
        lemma_join_is_one_line(quoted(last.0) + seq![':'], json_text(last.1));
        assert(is_one_line(field_text(last)));
        if fields.len() > 1 {
            lemma_fields_are_one_line(fields.drop_last());
            lemma_join_is_one_line(fields_text(fields.drop_last()), seq![',']);
            lemma_join_is_one_line(fields_text(fields.drop_last()) + seq![','], field_text(last));
        }
    }
}

proof fn lemma_escaped_from_the_front(s: Seq<char>)
    requires
        s.len() > 0,
    ensures
        escaped(s) == escaped_char(s[0]) + escaped(s.drop_first()),
    decreases s.len(),
{
    if s.len() == 1 {
        assert(s.drop_last() =~= Seq::<char>::empty());
        assert(s.drop_first() =~= Seq::<char>::empty());
        assert(escaped(s) =~= escaped_char(s[0]) + escaped(s.drop_first()));
    } else {
        lemma_escaped_from_the_front(s.drop_last());
        assert(s.drop_last().drop_first() =~= s.drop_first().drop_last());
        assert(escaped(s) =~= escaped_char(s[0]) + escaped(s.drop_first()));
    }
}

proof fn lemma_first_character_is_known(a: char, x: Seq<char>, b: char, y: Seq<char>)
    requires
        escaped_char(a) + x == escaped_char(b) + y,
    ensures
        a == b,
        x == y,
{
    let left = escaped_char(a) + x;
    let right = escaped_char(b) + y;
    let p = escaped_char(a);
    let q = escaped_char(b);
    assert(left[0] == p[0] && right[0] == q[0]);
    if p.len() > 1 && q.len() > 1 {
        assert(left[1] == p[1] && right[1] == q[1]);
        if p.len() > 2 && q.len() > 2 {
            assert(left[4] == p[4] && right[4] == q[4]);
            assert(left[5] == p[5] && right[5] == q[5]);
        }
    }
    assert(a == b);
    assert(x =~= left.skip(p.len() as int));
    assert(y =~= right.skip(q.len() as int));
}

/// Escaping loses nothing: different texts are written differently.
pub proof fn law_escaping_loses_nothing(a: Seq<char>, b: Seq<char>)
    requires
        escaped(a) == escaped(b),
    ensures
        a == b,
    decreases a.len(),
{
    if a.len() > 0 {
        lemma_escaped_from_the_front(a);
    }
    if b.len() > 0 {
        lemma_escaped_from_the_front(b);
    }
    if a.len() > 0 && b.len() > 0 {
        lemma_first_character_is_known(
            a[0],
            escaped(a.drop_first()),
            b[0],
            escaped(b.drop_first()),
        );
        law_escaping_loses_nothing(a.drop_first(), b.drop_first());
        assert(a =~= seq![a[0]] + a.drop_first());
        assert(b =~= seq![b[0]] + b.drop_first());
    } else if a.len() > 0 {
        assert(escaped(a).len() > 0);
    } else if b.len() > 0 {
        assert(escaped(b).len() > 0);
    } else {
        assert(a =~= b);
    }
}

/// The number that a hexadecimal digit spells, letters in lower case.
pub open spec fn hex_value(c: char) -> Option<nat> {
    if '0' <= c <= '9' {
        Some((c as nat - '0' as nat) as nat)
    } else if 'a' <= c <= 'f' {
        Some((c as nat - 'a' as nat + 10) as nat)
    } else {
        None
    }
}

/// The code of the character that a reader of JSON takes from what stands for one character
/// inside a string.
pub open spec fn read_code(s: Seq<char>) -> Option<nat> {
    if s.len() == 1 && s[0] != '"' && s[0] != '\\' && s[0] as nat >= 0x20 {
        Some(s[0] as nat)
    } else if s.len() == 2 && s[0] == '\\' {
        match s[1] {
            '"' => Some('"' as nat),
            '\\' => Some('\\' as nat),
            '/' => Some('/' as nat),
            'b' => Some(0x08),
            'f' => Some(0x0c),
            'n' => Some(0x0a),
            'r' => Some(0x0d),
            't' => Some(0x09),
            _ => None,
        }
    } else if s.len() == 6 && s[0] == '\\' && s[1] == 'u' {
        match (hex_value(s[2]), hex_value(s[3]), hex_value(s[4]), hex_value(s[5])) {
            (Some(a), Some(b), Some(c), Some(d)) => Some(a * 4096 + b * 256 + c * 16 + d),
            _ => None,
        }
    } else {
        None
    }
}

/// What is written for a character is read as that character, and every character that may
/// stand for itself does.
pub proof fn law_written_character_is_read_back(c: char)
    ensures
        read_code(escaped_char(c)) == Some(c as nat),
        c != '"' && c != '\\' && c as nat >= 0x20 ==> escaped_char(c) == seq![c],
{
    let text = escaped_char(c);
    if text.len() == 6 {
        let high = c as nat / 16;
        let low = c as nat % 16;
        assert(high < 2 && low < 16);
        assert(hex_value('0') == Some(0nat));
        assert(hex_value(digit_char(high)) == Some(high));
        assert(hex_value(digit_char(low)) == Some(low));
        assert(high * 16 + low == c as nat);
    }
}

/// Texts are written one after the other, between two quotation marks.
pub proof fn law_texts_are_written_in_order(a: Seq<char>, b: Seq<char>)
    ensures
        escaped(a + b) == escaped(a) + escaped(b),
        quoted(a) == seq!['"'] + escaped(a) + seq!['"'],
    decreases b.len(),
{
    if b.len() == 0 {
        assert(a + b =~= a);
        assert(escaped(a) + escaped(b) =~= escaped(a));
    } else {
        law_texts_are_written_in_order(a, b.drop_last());
        assert((a + b).drop_last() =~= a + b.drop_last());
        assert(escaped(a + b) =~= escaped(a) + escaped(b));
    }
}

/// Appends `value` as a JSON string, quotation marks included.
pub fn escape_into(value: &str, out: &mut String)
    ensures
        final(out)@ == old(out)@ + quoted(value@),
{
    let chars = chars_of(value);
    out.push('"');
    let mut i: usize = 0;
    while i < chars.len()
        invariant
            i <= chars.len(),
            chars@ == value@,
            out@ == old(out)@.push('"') + escaped(value@.take(i as int)),
        decreases chars.len() - i,
    {
        let c = chars[i];
        let ghost before = out@;
        escape_char_into(c, out);
        proof {
            let done = value@.take(i as int + 1);
            assert(done.drop_last() =~= value@.take(i as int));
            assert(out@ =~= old(out)@.push('"') + escaped(done));
        }
        i = i + 1;
    }
    out.push('"');
    proof {
        assert(value@.take(i as int) =~= value@);
        assert(out@ =~= old(out)@ + quoted(value@));
    }
}

/// Appends one character as it is written inside a JSON string.
fn escape_char_into(c: char, out: &mut String)
    ensures
        final(out)@ == old(out)@ + escaped_char(c),
{
    let code: u32 = c as u32;
    let ghost start = out@;
    if c == '"' {
        out.push('\\');
        out.push('"');
    } else if c == '\\' {
        out.push('\\');
        out.push('\\');
    } else if c == '\n' {
        out.push('\\');
        out.push('n');
    } else if c == '\r' {
        out.push('\\');
        out.push('r');
    } else if c == '\t' {
        out.push('\\');
        out.push('t');
    } else if c == '\u{08}' {
        out.push('\\');
        out.push('b');
    } else if c == '\u{0c}' {
        out.push('\\');
        out.push('f');
    } else if code < 0x20 {
        out.push('\\');
        out.push('u');
        out.push('0');
        out.push('0');
        out.push(digit((code / 16) as u8));
        out.push(digit((code % 16) as u8));
    } else {
        out.push(c);
    }
    assert(out@ =~= start + escaped_char(c));
}

impl JsonValue {
    /// A string value.
    pub fn text(value: &str) -> (r: Self)
        ensures
            r@ == JsonView::Text(value@),
    {
        JsonValue::Text(value.to_owned())
    }

    /// A number.
    pub(crate) fn number(value: i64) -> (r: Self)
        ensures
            r@ == JsonView::Int(value as int),
    {
        JsonValue::Int(value)
    }

    /// A truth value.
    pub(crate) fn boolean(value: bool) -> (r: Self)
        ensures
            r@ == JsonView::Bool(value),
    {
        JsonValue::Bool(value)
    }

    /// The document on one line.
    pub fn render(&self) -> (r: String)
        ensures
            r@ == json_text(self@),
    {
        let mut out = String::new();
        self.render_into(&mut out);
        assert(out@ =~= json_text(self@));
        out
    }

    /// Appends the document, on one line.
    pub fn render_into(&self, out: &mut String)
        ensures
            final(out)@ == old(out)@ + json_text(self@),
        decreases self,
    {
        match self {
            JsonValue::Null => out.append("null"),
            JsonValue::Bool(b) => if *b {
                out.append("true")
            } else {
                out.append("false")
            },
            JsonValue::Int(n) => push_int(out, *n),
            JsonValue::Text(s) => escape_into(s.as_str(), out),
            JsonValue::Array(items) => {
                let ghost all = self@->Array_0;
                out.push('[');
                let mut i: usize = 0;
                while i < items.len()
                    invariant
                        i <= items.len(),
                        *self == JsonValue::Array(*items),
                        self@ == JsonView::Array(all),
                        all.len() == items.len(),
                        forall|j: int| 0 <= j < items.len() ==> all[j] == items@[j]@,
                        out@ == old(out)@.push('[') + items_text(all.take(i as int)),
                    decreases items.len() - i,
                {
                    let ghost done = all.take(i as int + 1);
                    assert(done.drop_last() =~= all.take(i as int));
                    assert(done.last() == items@[i as int]@);
                    if i > 0 {
                        out.push(',');
                    }
                    let item = &items[i];
                    item.render_into(out);
                    assert(out@ =~= old(out)@.push('[') + items_text(done));
                    i = i + 1;
                }
                out.push(']');
                proof {
                    assert(all.take(i as int) =~= all);
                    assert(out@ =~= old(out)@ + json_text(self@));
                }
            },
            JsonValue::Object(fields) => {
                let ghost all = self@->Object_0;
                out.push('{');
                let mut i: usize = 0;
                while i < fields.len()
                    invariant
                        i <= fields.len(),
                        *self == JsonValue::Object(*fields),
                        self@ == JsonView::Object(all),
                        all.len() == fields.len(),
                        forall|j: int|
                            0 <= j < fields.len() ==> all[j] == (fields@[j].0@, fields@[j].1@),
                        out@ == old(out)@.push('{') + fields_text(all.take(i as int)),
                    decreases fields.len() - i,
                {
                    let ghost done = all.take(i as int + 1);
                    assert(done.drop_last() =~= all.take(i as int));
                    assert(done.last() == all[i as int]);
                    if i > 0 {
                        out.push(',');
                    }
                    let field = &fields[i];
                    escape_into(field.0.as_str(), out);
                    out.push(':');
                    field.1.render_into(out);
                    assert(field_text(done.last()) == quoted(field.0@) + seq![':'] + json_text(
                        field.1@,
                    ));
                    assert(out@ =~= old(out)@.push('{') + fields_text(done));
                    i = i + 1;
                }
                out.push('}');
                proof {
                    assert(all.take(i as int) =~= all);
                    assert(out@ =~= old(out)@ + json_text(self@));
                }
            },
        }
    }
}

/// The fields of an object under construction.
pub struct JsonFields {
    fields: Vec<(String, JsonValue)>,
}

impl View for JsonFields {
    type V = Seq<(Seq<char>, JsonView)>;

    closed spec fn view(&self) -> Seq<(Seq<char>, JsonView)> {
        Seq::new(self.fields@.len(), |i: int| (self.fields@[i].0@, self.fields@[i].1@))
    }
}

impl JsonFields {
    /// No field yet.
    pub fn new() -> (r: Self)
        ensures
            r@ == Seq::<(Seq<char>, JsonView)>::empty(),
    {
        let r = JsonFields { fields: Vec::new() };
        assert(r@ =~= Seq::<(Seq<char>, JsonView)>::empty());
        r
    }

    /// The fields so far and one more at the end.
    pub fn with(self, key: &str, value: JsonValue) -> (r: Self)
        ensures
            r@ == self@.push((key@, value@)),
    {
        let mut fields = self.fields;
        fields.push((key.to_owned(), value));
        let r = JsonFields { fields };
        assert(r@ =~= self@.push((key@, value@)));
        r
    }

    /// The object with these fields.
    pub fn into_object(self) -> (r: JsonValue)
        ensures
            r@ == JsonView::Object(self@),
    {
        let r = JsonValue::Object(self.fields);
        assert(r@->Object_0 =~= self@);
        r
    }
}

/// The array of the given values.
pub(crate) fn array_of(items: Vec<JsonValue>) -> (r: JsonValue)
    ensures
        r@ == JsonView::Array(Seq::new(items@.len(), |i: int| items@[i]@)),
{
    let r = JsonValue::Array(items);
    assert(r@->Array_0 =~= Seq::new(items@.len(), |i: int| items@[i]@));
    r
}

} // verus!

//! Scanning text: pieces between separators, what stands before and after a
//! pattern, words between white space.

use vstd::prelude::*;

verus! {

/// White space, as the Unicode property `White_Space` has it.
pub open spec fn white(c: char) -> bool {
    let n = c as u32;
    ||| 0x09 <= n <= 0x0d
    ||| n == 0x20
    ||| n == 0x85
    ||| n == 0xa0
    ||| n == 0x1680
    ||| 0x2000 <= n <= 0x200a
    ||| n == 0x2028
    ||| n == 0x2029
    ||| n == 0x202f
    ||| n == 0x205f
    ||| n == 0x3000
}

/// Whether a character is white space.
pub fn is_white(c: char) -> (r: bool)
    ensures
        r == white(c),
{
    let n: u32 = c as u32;
    (0x09 <= n && n <= 0x0d) || n == 0x20 || n == 0x85 || n == 0xa0 || n == 0x1680 || (0x2000 <= n
        && n <= 0x200a) || n == 0x2028 || n == 0x2029 || n == 0x202f || n == 0x205f || n == 0x3000
}

/// Whether `pattern` stands in `s` at position `at`.
pub open spec fn stands_at(s: Seq<char>, pattern: Seq<char>, at: int) -> bool {
    &&& 0 <= at
    &&& at + pattern.len() <= s.len()
    &&& s.subrange(at, at + pattern.len()) == pattern
}

/// The first position of `pattern` in `s`, from `from` on.
pub open spec fn first_position(s: Seq<char>, pattern: Seq<char>, from: int) -> Option<int>
    decreases s.len() - from,
{
    if from + pattern.len() > s.len() {
        None
    } else if stands_at(s, pattern, from) {
        Some(from)
    } else if from < s.len() {
        first_position(s, pattern, from + 1)
    } else {
        None
    }
}

/// What stands before the first `pattern` in `s`.
pub open spec fn before(s: Seq<char>, pattern: Seq<char>) -> Option<Seq<char>> {
    match first_position(s, pattern, 0) {
        Some(at) => Some(s.take(at)),
        None => None,
    }
}

/// What stands after the first `pattern` in `s`.
pub open spec fn after(s: Seq<char>, pattern: Seq<char>) -> Option<Seq<char>> {
    match first_position(s, pattern, 0) {
        Some(at) => Some(s.skip(at + pattern.len())),
        None => None,
    }
}

/// A found position is the first at which the pattern stands, and where none is found it
/// stands nowhere.
pub proof fn law_found_position_is_the_first(s: Seq<char>, pattern: Seq<char>, from: int)
    requires
        0 <= from,
    ensures
        match first_position(s, pattern, from) {
            Some(at) => {
                &&& from <= at
                &&& stands_at(s, pattern, at)
                &&& forall|j: int| from <= j < at ==> !#[trigger] stands_at(s, pattern, j)
            },
            None => forall|j: int| from <= j ==> !#[trigger] stands_at(s, pattern, j),
        },
    decreases s.len() - from,
{
    if from == s.len() && pattern.len() == 0 {
        assert(s.subrange(from, from) =~= pattern);
    }
    if from + pattern.len() <= s.len() && !stands_at(s, pattern, from) {
        law_found_position_is_the_first(s, pattern, from + 1);
    }
}

pub(crate) fn stands_here(s: &Vec<char>, pattern: &Vec<char>, at: usize) -> (r: bool)
    requires
        at + pattern@.len() <= s@.len(),
    ensures
        r == stands_at(s@, pattern@, at as int),
{
    let total: usize = s.len();
    let mut i: usize = 0;
    while i < pattern.len()
        invariant
            i <= pattern.len(),
            at + pattern@.len() <= total,
            total == s@.len(),
            forall|j: int| 0 <= j < i ==> s@[at + j] == pattern@[j],
        decreases pattern.len() - i,
    {
        if s[at + i] != pattern[i] {
            assert(s@.subrange(at as int, at + pattern@.len())[i as int] != pattern@[i as int]);
            return false;
        }
        i = i + 1;
    }
    assert(s@.subrange(at as int, at + pattern@.len()) =~= pattern@);
    true
}

fn find(s: &Vec<char>, pattern: &Vec<char>) -> (r: Option<usize>)
    ensures
        r is Some <==> first_position(s@, pattern@, 0) is Some,
        r matches Some(at) ==> first_position(s@, pattern@, 0) == Some(at as int) && stands_at(
            s@,
            pattern@,
            at as int,
        ),
{
    let mut at: usize = 0;
    while at <= s.len() && s.len() - at >= pattern.len()
        invariant
            at <= s.len() + 1,
            first_position(s@, pattern@, 0) == first_position(s@, pattern@, at as int),
        decreases s.len() + 1 - at,
    {
        if stands_here(s, pattern, at) {
            return Some(at);
        }
        if at == s.len() {
            return None;
        }
        at = at + 1;
    }
    None
}

/// The characters of `s` from `from` up to, not with, `to`.
fn part(s: &Vec<char>, from: usize, to: usize) -> (r: Vec<char>)
    requires
        from <= to <= s@.len(),
    ensures
        r@ == s@.subrange(from as int, to as int),
{
    let mut r: Vec<char> = Vec::new();
    let mut i: usize = from;
    while i < to
        invariant
            from <= i <= to <= s@.len(),
            r@ == s@.subrange(from as int, i as int),
        decreases to - i,
    {
        r.push(s[i]);
        assert(r@ =~= s@.subrange(from as int, i as int + 1));
        i = i + 1;
    }
    r
}

/// What stands before the first `pattern` in `s`.
pub(crate) fn text_before(s: &Vec<char>, pattern: &Vec<char>) -> (r: Option<Vec<char>>)
    ensures
        r is Some <==> before(s@, pattern@) is Some,
        r matches Some(v) ==> before(s@, pattern@) == Some(v@),
{
    match find(s, pattern) {
        Some(at) => {
            let v = part(s, 0, at);
            assert(v@ =~= s@.take(at as int));
            Some(v)
        },
        None => None,
    }
}

/// What stands after the first `pattern` in `s`.
pub(crate) fn text_after(s: &Vec<char>, pattern: &Vec<char>) -> (r: Option<Vec<char>>)
    ensures
        r is Some <==> after(s@, pattern@) is Some,
        r matches Some(v) ==> after(s@, pattern@) == Some(v@),
{
    match find(s, pattern) {
        Some(at) => {
            let total: usize = s.len();
            let v = part(s, at + pattern.len(), total);
            assert(v@ =~= s@.skip(at + pattern@.len()));
            Some(v)
        },
        None => None,
    }
}

/// The pieces of `s` between the separators: one more than there are separators.
pub open spec fn pieces(s: Seq<char>, separator: char) -> Seq<Seq<char>>
    decreases s.len(),
{
    if s.len() == 0 {
        seq![Seq::empty()]
    } else {
        let done = pieces(s.drop_last(), separator);
        if s.last() == separator {
            done.push(Seq::empty())
        } else {
            done.drop_last().push(done.last().push(s.last()))
        }
    }
}

/// There is always a piece.
pub proof fn lemma_pieces_not_empty(s: Seq<char>, separator: char)
    ensures
        pieces(s, separator).len() > 0,
    decreases s.len(),
{
    if s.len() > 0 {
        lemma_pieces_not_empty(s.drop_last(), separator);
    }
}

/// The rows of characters that a vector of vectors holds.
pub open spec fn rows(v: Seq<Vec<char>>) -> Seq<Seq<char>> {
    Seq::new(v.len(), |i: int| v[i]@)
}

/// The pieces of `s` between the separators.
pub(crate) fn split_pieces(s: &Vec<char>, separator: char) -> (r: Vec<Vec<char>>)
    ensures
        rows(r@) == pieces(s@, separator),
{
    let mut done: Vec<Vec<char>> = Vec::new();
    let mut open: Vec<char> = Vec::new();
    let mut i: usize = 0;
    assert(pieces(s@.take(0), separator) =~= rows(done@).push(open@));
    while i < s.len()
        invariant
            i <= s.len(),
            pieces(s@.take(i as int), separator) == rows(done@).push(open@),
        decreases s.len() - i,
    {
        let c = s[i];
        let ghost so_far = s@.take(i as int + 1);
        let ghost earlier = rows(done@).push(open@);
        assert(so_far.drop_last() =~= s@.take(i as int));
        if c == separator {
            done.push(open);
            open = Vec::new();
            assert(rows(done@) =~= earlier);
            assert(open@ =~= Seq::<char>::empty());
        } else {
            open.push(c);
            assert(earlier.drop_last() =~= rows(done@));
        }
        assert(pieces(so_far, separator) =~= rows(done@).push(open@));
        i = i + 1;
    }
    assert(s@.take(i as int) =~= s@);
    let ghost earlier = rows(done@).push(open@);
    done.push(open);
    assert(rows(done@) =~= earlier);
    done
}

/// `s` from its first character that is no white space.
pub open spec fn skip_white(s: Seq<char>) -> Seq<char>
    decreases s.len(),
{
    if s.len() > 0 && white(s.first()) {
        skip_white(s.drop_first())
    } else {
        s
    }
}

/// `s` up to its last character that is no white space.
pub open spec fn drop_white(s: Seq<char>) -> Seq<char>
    decreases s.len(),
{
    if s.len() > 0 && white(s.last()) {
        drop_white(s.drop_last())
    } else {
        s
    }
}

/// `s` without white space at either end.
pub open spec fn trimmed(s: Seq<char>) -> Seq<char> {
    drop_white(skip_white(s))
}

/// The characters of `s` before its first white space.
pub open spec fn leading_word(s: Seq<char>) -> Seq<char>
    decreases s.len(),
{
    if s.len() == 0 || white(s.first()) {
        Seq::empty()
    } else {
        seq![s.first()] + leading_word(s.drop_first())
    }
}

/// The first word of `s`, where there is one.
pub open spec fn first_word(s: Seq<char>) -> Option<Seq<char>> {
    let word = leading_word(skip_white(s));
    if word.len() == 0 {
        None
    } else {
        Some(word)
    }
}

/// Where the white space at the start of `s`, from `from` on, ends.
fn white_end(s: &Vec<char>, from: usize) -> (r: usize)
    requires
        from <= s@.len(),
    ensures
        from <= r <= s@.len(),
        skip_white(s@.skip(from as int)) == s@.skip(r as int),
        r < s@.len() ==> !white(s@[r as int]),
{
    let mut i: usize = from;
    while i < s.len() && is_white(s[i])
        invariant
            from <= i <= s@.len(),
            skip_white(s@.skip(from as int)) == skip_white(s@.skip(i as int)),
        decreases s.len() - i,
    {
        assert(s@.skip(i as int).drop_first() =~= s@.skip(i as int + 1));
        i = i + 1;
    }
    i
}

/// The first word of `s` from position `from` on.
pub(crate) fn word_from(s: &Vec<char>, from: usize) -> (r: Option<Vec<char>>)
    requires
        from <= s@.len(),
    ensures
        r is Some <==> first_word(s@.skip(from as int)) is Some,
        r matches Some(w) ==> first_word(s@.skip(from as int)) == Some(w@),
{
    let start: usize = white_end(s, from);
    let mut end: usize = start;
    assert(s@.subrange(start as int, start as int) =~= Seq::<char>::empty());
    assert(leading_word(s@.skip(start as int)) =~= Seq::<char>::empty() + leading_word(
        s@.skip(start as int),
    ));
    while end < s.len() && !is_white(s[end])
        invariant
            start <= end <= s@.len(),
            leading_word(s@.skip(start as int)) == s@.subrange(start as int, end as int)
                + leading_word(s@.skip(end as int)),
        decreases s.len() - end,
    {
        proof {
            let here = s@.skip(end as int);
            assert(here.drop_first() =~= s@.skip(end as int + 1));
            assert(leading_word(here) == seq![here.first()] + leading_word(here.drop_first()));
            assert(s@.subrange(start as int, end as int) + leading_word(here) =~= s@.subrange(
                start as int,
                end as int + 1,
            ) + leading_word(s@.skip(end as int + 1)));
        }
        end = end + 1;
    }
    assert(leading_word(s@.skip(end as int)) =~= Seq::<char>::empty());
    assert(leading_word(s@.skip(start as int)) =~= s@.subrange(start as int, end as int));
    if start < end {
        Some(part(s, start, end))
    } else {
        None
    }
}

/// `s` without white space at either end.
pub(crate) fn trim(s: &Vec<char>) -> (r: Vec<char>)
    ensures
        r@ == trimmed(s@),
{
    let start: usize = white_end(s, 0);
    assert(s@.skip(0) =~= s@);
    let mut end: usize = s.len();
    assert(s@.subrange(start as int, end as int) =~= s@.skip(start as int));
    while end > start && is_white(s[end - 1])
        invariant
            start <= end <= s@.len(),
            drop_white(s@.skip(start as int)) == drop_white(s@.subrange(start as int, end as int)),
        decreases end,
    {
        assert(s@.subrange(start as int, end as int).drop_last() =~= s@.subrange(
            start as int,
            end as int - 1,
        ));
        end = end - 1;
    }
    part(s, start, end)
}

/// A word holds no white space, and at least one character.
pub proof fn law_word_is_solid(s: Seq<char>)
    ensures
        first_word(s) matches Some(w) ==> w.len() > 0 && forall|i: int|
            0 <= i < w.len() ==> !white(#[trigger] w[i]),
{
    lemma_leading_word_is_solid(skip_white(s));
}

proof fn lemma_leading_word_is_solid(s: Seq<char>)
    ensures
        forall|i: int| 0 <= i < leading_word(s).len() ==> !white(#[trigger] leading_word(s)[i]),
    decreases s.len(),
{
    if s.len() > 0 && !white(s.first()) {
        lemma_leading_word_is_solid(s.drop_first());
        let rest = leading_word(s.drop_first());
        assert forall|i: int| 0 <= i < leading_word(s).len() implies !white(
            #[trigger] leading_word(s)[i],
        ) by {
            if i > 0 {
                assert(leading_word(s)[i] == rest[i - 1]);
            }
        }
    }
}

/// What stands before a pattern, the pattern and what stands after it make up the whole text,
/// and the pattern stands nowhere further to the left. A text without the pattern has neither
/// part.
pub proof fn law_text_is_parted_at_the_first_pattern(s: Seq<char>, pattern: Seq<char>)
    ensures
        match (before(s, pattern), after(s, pattern)) {
            (Some(head), Some(tail)) => {
                &&& s == head + pattern + tail
                &&& forall|j: int| 0 <= j < head.len() ==> !#[trigger] stands_at(s, pattern, j)
            },
            (None, None) => forall|j: int| 0 <= j ==> !#[trigger] stands_at(s, pattern, j),
            _ => false,
        },
{
    law_found_position_is_the_first(s, pattern, 0);
    match first_position(s, pattern, 0) {
        Some(at) => {
            assert(s =~= s.take(at) + s.subrange(at, at + pattern.len()) + s.skip(
                at + pattern.len(),
            ));
        },
        None => {},
    }
}

/// A mark that does not stand in the head parts a text where the head ends.
pub proof fn law_text_is_parted_at_its_mark(head: Seq<char>, mark: char, tail: Seq<char>)
    requires
        !head.contains(mark),
    ensures
        before(head + seq![mark] + tail, seq![mark]) == Some(head),
        after(head + seq![mark] + tail, seq![mark]) == Some(tail),
{
    let s = head + seq![mark] + tail;
    let pattern = seq![mark];
    let at = head.len() as int;
    law_found_position_is_the_first(s, pattern, 0);
    assert(s.subrange(at, at + 1) =~= pattern);
    assert(stands_at(s, pattern, at));
    assert forall|j: int| 0 <= j < at implies !#[trigger] stands_at(s, pattern, j) by {
        if stands_at(s, pattern, j) {
            assert(s.subrange(j, j + 1)[0] == mark);
            assert(head[j] == mark);
        }
    }
    let found = first_position(s, pattern, 0)->0;
    assert(found == at);
    assert(s.take(at) =~= head);
    assert(s.skip(at + 1) =~= tail);
}

/// A row of pieces with a separator between each two of them.
pub open spec fn joined(parts: Seq<Seq<char>>, separator: char) -> Seq<char>
    decreases parts.len(),
{
    if parts.len() == 0 {
        Seq::empty()
    } else if parts.len() == 1 {
        parts[0]
    } else {
        joined(parts.drop_last(), separator) + seq![separator] + parts.last()
    }
}

/// The pieces of a text, joined by the separator, are the text, and no piece holds a separator.
pub proof fn law_pieces_make_up_the_text(s: Seq<char>, separator: char)
    ensures
        joined(pieces(s, separator), separator) == s,
        forall|i: int|
            0 <= i < pieces(s, separator).len() ==> !(#[trigger] pieces(s, separator)[i]).contains(
                separator,
            ),
    decreases s.len(),
{
    let all = pieces(s, separator);
    if s.len() == 0 {
        assert(all[0] =~= s);
    } else {
        let done = pieces(s.drop_last(), separator);
        lemma_pieces_not_empty(s.drop_last(), separator);
        law_pieces_make_up_the_text(s.drop_last(), separator);
        if s.last() == separator {
            assert(all.drop_last() =~= done);
            assert(joined(all, separator) =~= s);
        } else {
            assert(all.drop_last() =~= done.drop_last());
            assert(!done.last().contains(separator)) by {
                assert(done.last() == done[done.len() - 1]);
            }
            assert(all.last() == done.last().push(s.last()));
            assert forall|k: int| 0 <= k < all.last().len() implies all.last()[k] != separator by {
                if k < done.last().len() {
                    assert(done.last().contains(done.last()[k]));
                }
            }
            assert(joined(all, separator) =~= s) by {
                if done.len() == 1 {
                    assert(all.len() == 1);
                    assert(all[0] =~= s);
                } else {
                    let first = joined(done.drop_last(), separator) + seq![separator];
                    assert(first + done.last() == s.drop_last());
                    assert(joined(all, separator) == first + done.last().push(s.last()));
                    assert(first + done.last().push(s.last()) =~= (first + done.last()).push(
                        s.last(),
                    ));
                    assert(s.drop_last().push(s.last()) =~= s);
                }
            }
        }
        assert forall|i: int| 0 <= i < all.len() implies !(#[trigger] all[i]).contains(
            separator,
        ) by {
            if i < all.len() - 1 {
                assert(all[i] == done[i]);
            }
        }
    }
}

/// A text without the separator is one piece.
pub proof fn law_text_without_separator_is_one_piece(s: Seq<char>, separator: char)
    requires
        !s.contains(separator),
    ensures
        pieces(s, separator) == seq![s],
    decreases s.len(),
{
    if s.len() > 0 {
        assert(!s.drop_last().contains(separator)) by {
            assert forall|k: int| 0 <= k < s.len() - 1 implies s.drop_last()[k] != separator by {
                assert(s.contains(s[k]));
            }
        }
        law_text_without_separator_is_one_piece(s.drop_last(), separator);
        assert(s.contains(s.last()));
        assert(s.drop_last().push(s.last()) =~= s);
        assert(pieces(s, separator) =~= seq![s]);
    } else {
        assert(s =~= Seq::empty());
    }
}

/// A separator ends the pieces before it, and what follows up to the end is one more.
pub proof fn law_separator_begins_a_piece(s: Seq<char>, separator: char, tail: Seq<char>)
    requires
        !tail.contains(separator),
    ensures
        pieces(s + seq![separator] + tail, separator) == pieces(s, separator).push(tail),
    decreases tail.len(),
{
    let whole = s + seq![separator] + tail;
    if tail.len() == 0 {
        assert(whole.drop_last() =~= s);
        assert(tail =~= Seq::empty());
    } else {
        let less = tail.drop_last();
        assert(!less.contains(separator)) by {
            assert forall|k: int| 0 <= k < less.len() implies less[k] != separator by {
                assert(tail.contains(tail[k]));
            }
        }
        law_separator_begins_a_piece(s, separator, less);
        assert(whole.drop_last() =~= s + seq![separator] + less);
        assert(tail.contains(tail.last()));
        assert(whole.last() == tail.last());
        assert(less.push(tail.last()) =~= tail);
        assert(pieces(s, separator).push(less).drop_last() =~= pieces(s, separator));
    }
}

/// Whether a text holds nothing but white space.
pub open spec fn all_white(s: Seq<char>) -> bool {
    forall|i: int| 0 <= i < s.len() ==> white(#[trigger] s[i])
}

proof fn lemma_skipped_is_white(s: Seq<char>)
    ensures
        skip_white(s).len() <= s.len(),
        skip_white(s) == s.skip(s.len() - skip_white(s).len()),
        all_white(s.take(s.len() - skip_white(s).len())),
        skip_white(s).len() > 0 ==> !white(skip_white(s).first()),
    decreases s.len(),
{
    if s.len() > 0 && white(s.first()) {
        let rest = s.drop_first();
        lemma_skipped_is_white(rest);
        let n = s.len() - skip_white(s).len();
        assert(rest.skip(n - 1) =~= s.skip(n));
        assert forall|i: int| 0 <= i < n implies white(#[trigger] s.take(n)[i]) by {
            if i > 0 {
                assert(white(rest.take(n - 1)[i - 1]));
            }
        }
    } else {
        assert(s.skip(0) =~= s);
    }
}

proof fn lemma_dropped_is_white(s: Seq<char>)
    ensures
        drop_white(s).len() <= s.len(),
        drop_white(s) == s.take(drop_white(s).len() as int),
        all_white(s.skip(drop_white(s).len() as int)),
        drop_white(s).len() > 0 ==> !white(drop_white(s).last()),
    decreases s.len(),
{
    if s.len() > 0 && white(s.last()) {
        let rest = s.drop_last();
        lemma_dropped_is_white(rest);
        let n = drop_white(s).len() as int;
        assert(rest.take(n) =~= s.take(n));
        assert forall|i: int| 0 <= i < s.len() - n implies white(#[trigger] s.skip(n)[i]) by {
            if i < s.len() - n - 1 {
                assert(white(rest.skip(n)[i]));
            }
        }
    } else {
        assert(s.take(s.len() as int) =~= s);
    }
}

/// A trimmed text lacks white space at both ends and nothing else.
pub proof fn law_trimming_takes_white_space_alone(s: Seq<char>)
    ensures
        exists|head: Seq<char>, tail: Seq<char>|
            all_white(head) && all_white(tail) && s == #[trigger] (head + trimmed(s) + tail),
        trimmed(s).len() > 0 ==> !white(trimmed(s).first()) && !white(trimmed(s).last()),
{
    let kept = skip_white(s);
    lemma_skipped_is_white(s);
    lemma_dropped_is_white(kept);
    let head = s.take(s.len() - kept.len());
    let tail = kept.skip(trimmed(s).len() as int);
    assert(s =~= head + trimmed(s) + tail);
    if trimmed(s).len() > 0 {
        assert(trimmed(s).first() == kept.first());
    }
}

proof fn lemma_leading_word_ends_at_white(s: Seq<char>)
    ensures
        leading_word(s).len() <= s.len(),
        leading_word(s) == s.take(leading_word(s).len() as int),
        leading_word(s).len() < s.len() ==> white(s[leading_word(s).len() as int]),
    decreases s.len(),
{
    if s.len() > 0 && !white(s.first()) {
        let rest = s.drop_first();
        lemma_leading_word_ends_at_white(rest);
        let n = leading_word(s).len() as int;
        assert(seq![s.first()] + rest.take(n - 1) =~= s.take(n));
    } else {
        assert(s.take(0) =~= Seq::empty());
    }
}

/// A word of `s` between white space at the start and white space, or nothing, behind it.
pub open spec fn set_apart(
    s: Seq<char>,
    head: Seq<char>,
    word: Seq<char>,
    tail: Seq<char>,
) -> bool {
    &&& s == head + word + tail
    &&& all_white(head)
    &&& tail.len() > 0 ==> white(tail.first())
}

/// The first word of a text has white space alone before it, and ends at white space or with
/// the text. A text without a word is white space alone.
pub proof fn law_first_word_stands_first(s: Seq<char>)
    ensures
        first_word(s) is Some ==> exists|head: Seq<char>, tail: Seq<char>|
            #[trigger] set_apart(s, head, first_word(s)->0, tail),
        first_word(s) is None ==> all_white(s),
{
    let kept = skip_white(s);
    lemma_skipped_is_white(s);
    lemma_leading_word_ends_at_white(kept);
    let word = leading_word(kept);
    let head = s.take(s.len() - kept.len());
    let tail = kept.skip(word.len() as int);
    assert(s =~= head + word + tail);
    if word.len() == 0 {
        assert(kept.len() == 0);
        assert(head =~= s);
    } else {
        assert(first_word(s) == Some(word));
        if tail.len() > 0 {
            assert(tail.first() == kept[word.len() as int]);
        }
        assert(set_apart(s, head, first_word(s)->0, tail));
    }
}

/// White space is a tabulator, a line feed, a vertical tabulator, a form feed, a carriage
/// return, a next line, or one of the spaces and separators.
pub proof fn law_white_space_is_these_characters(c: char)
    ensures
        white(c) <==> seq![
            '\t',
            '\n',
            '\u{b}',
            '\u{c}',
            '\r',
            ' ',
            '\u{85}',
            '\u{a0}',
            '\u{1680}',
            '\u{2000}',
            '\u{2001}',
            '\u{2002}',
            '\u{2003}',
            '\u{2004}',
            '\u{2005}',
            '\u{2006}',
            '\u{2007}',
            '\u{2008}',
            '\u{2009}',
            '\u{200a}',
            '\u{2028}',
            '\u{2029}',
            '\u{202f}',
            '\u{205f}',
            '\u{3000}',
        ].contains(c),
{
    let list = seq![
        '\t',
        '\n',
        '\u{b}',
        '\u{c}',
        '\r',
        ' ',
        '\u{85}',
        '\u{a0}',
        '\u{1680}',
        '\u{2000}',
        '\u{2001}',
        '\u{2002}',
        '\u{2003}',
        '\u{2004}',
        '\u{2005}',
        '\u{2006}',
        '\u{2007}',
        '\u{2008}',
        '\u{2009}',
        '\u{200a}',
        '\u{2028}',
        '\u{2029}',
        '\u{202f}',
        '\u{205f}',
        '\u{3000}',
    ];
    let n = c as u32;
    if white(c) {
        let at: int = if 0x09 <= n <= 0x0d {
            n - 0x09
        } else if n == 0x20 {
            5
        } else if n == 0x85 {
            6
        } else if n == 0xa0 {
            7
        } else if n == 0x1680 {
            8
        } else if 0x2000 <= n <= 0x200a {
            9 + n - 0x2000
        } else if n == 0x2028 {
            20
        } else if n == 0x2029 {
            21
        } else if n == 0x202f {
            22
        } else if n == 0x205f {
            23
        } else {
            24
        };
        assert(list[at] == c);
    }
}

/// The string of the given characters.
pub(crate) fn string_of(chars: &Vec<char>) -> (r: String)
    ensures
        r@ == chars@,
{
    let mut r = String::new();
    let mut i: usize = 0;
    while i < chars.len()
        invariant
            i <= chars.len(),
            r@ == chars@.take(i as int),
        decreases chars.len() - i,
    {
        r.push(chars[i]);
        assert(r@ =~= chars@.take(i as int + 1));
        i = i + 1;
    }
    assert(chars@.take(i as int) =~= chars@);
    r
}

} // verus!

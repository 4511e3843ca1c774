//! Strings as sequences of characters: comparison and assembly.

use vstd::prelude::*;
use vstd::std_specs::iter::IteratorSpec;
use vstd::string::*;

verus! {

/// How one text stands to another in lexicographic order.
#[derive(Clone, Copy, Debug, PartialEq, Eq, Structural)]
pub enum Order {
    Before,
    Same,
    After,
}

/// `a` comes strictly before `b` in lexicographic order by code point: at
/// the first place where they differ, `a` has ended or holds the smaller
/// character.
pub open spec fn precedes(a: Seq<char>, b: Seq<char>) -> bool {
    exists|k: int| first_difference(a, b, k)
}

/// `a` and `b` agree on their first `k` characters, and at place `k` the
/// text `a` has ended while `b` goes on, or holds the smaller character.
pub open spec fn first_difference(a: Seq<char>, b: Seq<char>, k: int) -> bool {
    &&& 0 <= k <= a.len()
    &&& k < b.len()
    &&& forall|j: int| 0 <= j < k ==> a[j] == b[j]
    &&& (k < a.len() ==> (a[k] as u32) < (b[k] as u32))
}

/// No text comes before itself.
pub proof fn lemma_precedes_irreflexive(a: Seq<char>)
    ensures
        !precedes(a, a),
{
}

/// The order is transitive.
pub proof fn lemma_precedes_transitive(a: Seq<char>, b: Seq<char>, c: Seq<char>)
    requires
        precedes(a, b),
        precedes(b, c),
    ensures
        precedes(a, c),
{
    let k1 = choose|k: int| first_difference(a, b, k);
    let k2 = choose|k: int| first_difference(b, c, k);
    let k = if k1 <= k2 { k1 } else { k2 };
    assert(first_difference(a, c, k));
}

/// The texts that a sequence of strings holds, in the same order.
pub open spec fn texts(lines: Seq<String>) -> Seq<Seq<char>> {
    lines.map_values(|line: String| line@)
}

/// The characters of `s`, in order.
pub fn chars_of(s: &str) -> (out: Vec<char>)
    ensures
        out@ == s@,
{
    broadcast use vstd::string::group_string_axioms;

    let mut out: Vec<char> = Vec::new();
    let mut it = s.chars();
    loop
        invariant
            it.obeys_prophetic_iter_laws(),
            it.decrease() is Some,
            out@ + it.remaining() == s@,
        decreases it.decrease()->0,
    {
        let ghost before = it;
        match it.next() {
            Some(c) => {
                proof {
                    assert(before.remaining().len() > 0);
                    assert(out@.push(c) + it.remaining() =~= out@ + before.remaining());
                }
                out.push(c);
            },
            None => {
                proof {
                    assert(before.remaining().len() == 0);
                    assert(out@ + before.remaining() =~= out@);
                }
                return out;
            },
        }
    }
}

/// Compares two texts lexicographically by code point.
pub fn order_of(a: &str, b: &str) -> (out: Order)
    ensures
        out == Order::Before <==> precedes(a@, b@),
        out == Order::Same <==> a@ == b@,
        out == Order::After <==> precedes(b@, a@),
{
    let x = chars_of(a);
    let y = chars_of(b);
    let mut i: usize = 0;
    while i < x.len() && i < y.len()
        invariant
            x@ == a@,
            y@ == b@,
            i <= x.len(),
            i <= y.len(),
            forall|j: int| 0 <= j < i ==> x@[j] == y@[j],
        decreases x.len() - i,
    {
        let p: u32 = x[i] as u32;
        let q: u32 = y[i] as u32;
        if p < q {
            proof {
                assert(first_difference(a@, b@, i as int));
                lemma_exclusive(a@, b@);
            }
            return Order::Before;
        }
        if q < p {
            proof {
                assert(first_difference(b@, a@, i as int));
                lemma_exclusive(b@, a@);
            }
            return Order::After;
        }
        proof {
            vstd::utf8::char_u32_cast(x@[i as int], p);
            vstd::utf8::char_u32_cast(y@[i as int], q);
        }
        i += 1;
    }
    if x.len() < y.len() {
        proof {
            assert(first_difference(a@, b@, i as int));
            lemma_exclusive(a@, b@);
        }
        Order::Before
    } else if y.len() < x.len() {
        proof {
            assert(first_difference(b@, a@, i as int));
            lemma_exclusive(b@, a@);
        }
        Order::After
    } else {
        proof {
            assert(a@ =~= b@);
            lemma_precedes_irreflexive(a@);
        }
        Order::Same
    }
}

/// A text that comes before another is neither equal to it nor after it.
pub proof fn lemma_exclusive(a: Seq<char>, b: Seq<char>)
    requires
        precedes(a, b),
    ensures
        a != b,
        !precedes(b, a),
{
    lemma_precedes_irreflexive(a);
    if precedes(b, a) {
        lemma_precedes_transitive(a, b, a);
    }
}

/// Tells whether two texts hold the same characters.
pub fn same_text(a: &str, b: &str) -> (out: bool)
    ensures
        out == (a@ == b@),
{
    order_of(a, b) == Order::Same
}

/// `c` is white space in the sense of Unicode's `White_Space` property.
pub open spec fn is_white_space(c: char) -> bool {
    let code = c as u32;
    ||| 0x09 <= code <= 0x0D
    ||| code == 0x20
    ||| code == 0x85
    ||| code == 0xA0
    ||| code == 0x1680
    ||| 0x2000 <= code <= 0x200A
    ||| code == 0x2028
    ||| code == 0x2029
    ||| code == 0x202F
    ||| code == 0x205F
    ||| code == 0x3000
}

/// `text` without its leading white space.
pub open spec fn trimmed_start(text: Seq<char>) -> Seq<char>
    decreases text.len(),
{
    if text.len() > 0 && is_white_space(text[0]) {
        trimmed_start(text.drop_first())
    } else {
        text
    }
}

/// `text` without its trailing white space.
pub open spec fn trimmed_end(text: Seq<char>) -> Seq<char>
    decreases text.len(),
{
    if text.len() > 0 && is_white_space(text.last()) {
        trimmed_end(text.drop_last())
    } else {
        text
    }
}

/// `text` without its leading and trailing white space.
pub open spec fn trimmed(text: Seq<char>) -> Seq<char> {
    trimmed_end(trimmed_start(text))
}

/// The pieces of `text` between the occurrences of `sep`, in order. A text
/// with `n` occurrences has `n + 1` pieces, some of which may be empty.
pub open spec fn split(text: Seq<char>, sep: char) -> Seq<Seq<char>>
    decreases text.len(),
{
    if text.len() == 0 {
        seq![Seq::<char>::empty()]
    } else {
        let before = split(text.drop_last(), sep);
        if text.last() == sep {
            before.push(Seq::<char>::empty())
        } else {
            before.drop_last().push(before.last().push(text.last()))
        }
    }
}

/// The pieces written one after another, with `sep` between each two.
pub open spec fn joined(pieces: Seq<Seq<char>>, sep: Seq<char>) -> Seq<char>
    decreases pieces.len(),
{
    if pieces.len() == 0 {
        Seq::<char>::empty()
    } else if pieces.len() == 1 {
        pieces[0]
    } else {
        joined(pieces.drop_last(), sep) + sep + pieces.last()
    }
}

/// The pieces written one after another, each with `before` in front of it
/// and `after` behind it.
pub open spec fn wrapped(pieces: Seq<Seq<char>>, before: Seq<char>, after: Seq<char>) -> Seq<char>
    decreases pieces.len(),
{
    if pieces.len() == 0 {
        Seq::<char>::empty()
    } else {
        wrapped(pieces.drop_last(), before, after) + before + pieces.last() + after
    }
}

/// A split always yields at least one piece.
pub proof fn lemma_split_nonempty(text: Seq<char>, sep: char)
    ensures
        split(text, sep).len() >= 1,
    decreases text.len(),
{
    if text.len() > 0 {
        lemma_split_nonempty(text.drop_last(), sep);
    }
}

/// A split yields a single piece exactly if the text holds no separator.
pub proof fn lemma_split_count(text: Seq<char>, sep: char)
    ensures
        split(text, sep).len() == 1 <==> !text.contains(sep),
    decreases text.len(),
{
    if text.len() > 0 {
        let shorter = text.drop_last();
        lemma_split_count(shorter, sep);
        lemma_split_nonempty(shorter, sep);
        if text.last() == sep {
            assert(text[text.len() - 1] == sep);
        } else {
            if text.contains(sep) {
                let k = choose|k: int| 0 <= k < text.len() && text[k] == sep;
                assert(shorter[k] == sep);
            }
            if shorter.contains(sep) {
                let k = choose|k: int| 0 <= k < shorter.len() && shorter[k] == sep;
                assert(text[k] == sep);
            }
        }
    }
}

/// No piece of a split holds the separator.
pub proof fn law_split_pieces_hold_no_separator(text: Seq<char>, sep: char)
    ensures
        forall|i: int| 0 <= i < split(text, sep).len() ==> !(#[trigger] split(text, sep)[i]).contains(sep),
    decreases text.len(),
{
    if text.len() > 0 {
        let before = split(text.drop_last(), sep);
        law_split_pieces_hold_no_separator(text.drop_last(), sep);
        lemma_split_nonempty(text.drop_last(), sep);
        let pieces = split(text, sep);
        assert forall|i: int| 0 <= i < pieces.len() implies !(#[trigger] pieces[i]).contains(sep) by {
            if text.last() == sep {
                if i < before.len() {
                    assert(pieces[i] == before[i]);
                }
            } else {
                if i < before.len() - 1 {
                    assert(pieces[i] == before[i]);
                } else {
                    let grown = before.last().push(text.last());
                    assert(pieces[i] == grown);
                    assert(!before[before.len() - 1].contains(sep));
                    if grown.contains(sep) {
                        let k = choose|k: int| 0 <= k < grown.len() && grown[k] == sep;
                        assert(before.last()[k] == sep);
                    }
                }
            }
        }
    }
}

/// A piece that grows by a character makes the joined text grow by it.
proof fn lemma_joined_grows(pieces: Seq<Seq<char>>, sep: Seq<char>, c: char)
    requires
        pieces.len() >= 1,
    ensures
        joined(pieces.drop_last().push(pieces.last().push(c)), sep) == joined(pieces, sep).push(c),
{
    let grown = pieces.drop_last().push(pieces.last().push(c));
    assert(grown.drop_last() =~= pieces.drop_last());
    if pieces.len() == 1 {
        assert(grown[0] == pieces[0].push(c));
    } else {
        assert(joined(pieces.drop_last(), sep) + sep + pieces.last().push(c) =~= (joined(
            pieces.drop_last(),
            sep,
        ) + sep + pieces.last()).push(c));
    }
}

/// The pieces of a split, joined with the separator, are the text again.
pub proof fn law_split_joins_back(text: Seq<char>, sep: char)
    ensures
        joined(split(text, sep), seq![sep]) == text,
    decreases text.len(),
{
    if text.len() == 0 {
        assert(text =~= Seq::<char>::empty());
    } else {
        let shorter = text.drop_last();
        let before = split(shorter, sep);
        law_split_joins_back(shorter, sep);
        lemma_split_nonempty(shorter, sep);
        if text.last() == sep {
            let pieces = before.push(Seq::<char>::empty());
            assert(pieces.drop_last() =~= before);
            assert(shorter + seq![sep] + Seq::<char>::empty() =~= text);
        } else {
            lemma_joined_grows(before, seq![sep], text.last());
            assert(shorter.push(text.last()) =~= text);
        }
    }
}

/// What is left of a text after trimming begins and ends with a character
/// that is no white space.
pub proof fn law_trimmed_ends_bare(text: Seq<char>)
    ensures
        trimmed(text).len() > 0 ==> !is_white_space(trimmed(text).first()) && !is_white_space(
            trimmed(text).last(),
        ),
{
    lemma_trimmed_start_is_tail(text);
    lemma_trimmed_end_is_head(trimmed_start(text));
    let inner = trimmed_start(text);
    let out = trimmed(text);
    if out.len() > 0 {
        let cut = choose|n: int| 0 <= n <= inner.len() && out == inner.take(n) && (forall|j: int|
            n <= j < inner.len() ==> is_white_space(#[trigger] inner[j])) && (n > 0
            ==> !is_white_space(inner[n - 1]));
        assert(out.first() == inner[0]);
        assert(out.last() == inner[cut - 1]);
    }
}

/// Trimming takes nothing but white space away: the text is some white
/// space, then what is left of it, then some white space.
pub proof fn law_trimmed_is_middle(text: Seq<char>)
    ensures
        exists|from: int, to: int|
            {
                &&& 0 <= from <= to <= text.len()
                &&& trimmed(text) == text.subrange(from, to)
                &&& forall|j: int| 0 <= j < from ==> is_white_space(#[trigger] text[j])
                &&& forall|j: int| to <= j < text.len() ==> is_white_space(#[trigger] text[j])
            },
{
    lemma_trimmed_start_is_tail(text);
    let inner = trimmed_start(text);
    lemma_trimmed_end_is_head(inner);
    let from = choose|n: int| 0 <= n <= text.len() && inner == text.skip(n) && (forall|j: int|
        0 <= j < n ==> is_white_space(#[trigger] text[j])) && (n < text.len() ==> !is_white_space(
        text[n],
    ));
    let cut = choose|n: int| 0 <= n <= inner.len() && trimmed_end(inner) == inner.take(n) && (
    forall|j: int| n <= j < inner.len() ==> is_white_space(#[trigger] inner[j])) && (n > 0
        ==> !is_white_space(inner[n - 1]));
    let to = from + cut;
    assert(inner.take(cut) =~= text.subrange(from, to));
    assert forall|j: int| to <= j < text.len() implies is_white_space(#[trigger] text[j]) by {
        assert(inner[j - from] == text[j]);
    }
    assert(0 <= from <= to <= text.len() && trimmed(text) == text.subrange(from, to) && (forall|
        j: int,
    | 0 <= j < from ==> is_white_space(#[trigger] text[j])) && (forall|j: int|
        to <= j < text.len() ==> is_white_space(#[trigger] text[j])));
}

/// Trimming the start leaves a tail of the text, cut where the leading
/// white space ends.
proof fn lemma_trimmed_start_is_tail(text: Seq<char>)
    ensures
        exists|n: int|
            0 <= n <= text.len() && trimmed_start(text) == text.skip(n) && (forall|j: int|
                0 <= j < n ==> is_white_space(#[trigger] text[j])) && (n < text.len()
                ==> !is_white_space(text[n])),
    decreases text.len(),
{
    if text.len() > 0 && is_white_space(text[0]) {
        let rest = text.drop_first();
        lemma_trimmed_start_is_tail(rest);
        let m = choose|n: int|
            0 <= n <= rest.len() && trimmed_start(rest) == rest.skip(n) && (forall|j: int|
                0 <= j < n ==> is_white_space(#[trigger] rest[j])) && (n < rest.len()
                ==> !is_white_space(rest[n]));
        let n = m + 1;
        assert(rest.skip(m) =~= text.skip(n));
        assert forall|j: int| 0 <= j < n implies is_white_space(#[trigger] text[j]) by {
            if j > 0 {
                assert(rest[j - 1] == text[j]);
            }
        }
        if n < text.len() {
            assert(rest[m] == text[n]);
        }
        assert(0 <= n <= text.len() && trimmed_start(text) == text.skip(n) && (forall|j: int|
            0 <= j < n ==> is_white_space(#[trigger] text[j])) && (n < text.len()
            ==> !is_white_space(text[n])));
    } else {
        assert(text.skip(0) =~= text);
        assert(0 <= 0 <= text.len() && trimmed_start(text) == text.skip(0) && (forall|j: int|
            0 <= j < 0 ==> is_white_space(#[trigger] text[j])) && (0 < text.len()
            ==> !is_white_space(text[0])));
    }
}

/// Trimming the end leaves a head of the text, cut where the trailing
/// white space begins.
proof fn lemma_trimmed_end_is_head(text: Seq<char>)
    ensures
        exists|n: int|
            0 <= n <= text.len() && trimmed_end(text) == text.take(n) && (forall|j: int|
                n <= j < text.len() ==> is_white_space(#[trigger] text[j])) && (n > 0
                ==> !is_white_space(text[n - 1])),
    decreases text.len(),
{
    if text.len() > 0 && is_white_space(text.last()) {
        let rest = text.drop_last();
        lemma_trimmed_end_is_head(rest);
        let n = choose|n: int|
            0 <= n <= rest.len() && trimmed_end(rest) == rest.take(n) && (forall|j: int|
                n <= j < rest.len() ==> is_white_space(#[trigger] rest[j])) && (n > 0
                ==> !is_white_space(rest[n - 1]));
        assert(rest.take(n) =~= text.take(n));
        assert forall|j: int| n <= j < text.len() implies is_white_space(#[trigger] text[j]) by {
            if j < rest.len() {
                assert(rest[j] == text[j]);
            }
        }
        if n > 0 {
            assert(rest[n - 1] == text[n - 1]);
        }
        assert(0 <= n <= text.len() && trimmed_end(text) == text.take(n) && (forall|j: int|
            n <= j < text.len() ==> is_white_space(#[trigger] text[j])) && (n > 0
            ==> !is_white_space(text[n - 1])));
    } else {
        let n = text.len() as int;
        assert(text.take(n) =~= text);
        assert(0 <= n <= text.len() && trimmed_end(text) == text.take(n) && (forall|j: int|
            n <= j < text.len() ==> is_white_space(#[trigger] text[j])) && (n > 0
            ==> !is_white_space(text[n - 1])));
    }
}

/// Tells whether `c` is white space.
pub fn white_space(c: char) -> (out: bool)
    ensures
        out == is_white_space(c),
{
    let code: u32 = c as u32;
    (0x09 <= code && code <= 0x0D) || code == 0x20 || code == 0x85 || code == 0xA0 || code
        == 0x1680 || (0x2000 <= code && code <= 0x200A) || code == 0x2028 || code == 0x2029 || code
        == 0x202F || code == 0x205F || code == 0x3000
}

/// Removes the leading and trailing white space of `text`.
pub fn trim(text: &str) -> (out: String)
    ensures
        out@ == trimmed(text@),
{
    let chars = chars_of(text);
    let len = chars.len();
    let mut start: usize = 0;
    proof {
        assert(text@.subrange(0, len as int) =~= text@);
    }
    while start < len && white_space(chars[start])
        invariant
            chars@ == text@,
            len == chars.len(),
            start <= len,
            trimmed_start(text@) == trimmed_start(text@.subrange(start as int, len as int)),
        decreases len - start,
    {
        proof {
            let rest = text@.subrange(start as int, len as int);
            assert(rest.drop_first() =~= text@.subrange(start + 1, len as int));
        }
        start += 1;
    }
    let ghost body = text@.subrange(start as int, len as int);
    let mut end: usize = len;
    while end > start && white_space(chars[end - 1])
        invariant
            chars@ == text@,
            len == chars.len(),
            start <= end <= len,
            trimmed_end(body) == trimmed_end(text@.subrange(start as int, end as int)),
        decreases end - start,
    {
        proof {
            let rest = text@.subrange(start as int, end as int);
            assert(rest.drop_last() =~= text@.subrange(start as int, end - 1));
        }
        end -= 1;
    }
    text.substring_char(start, end).to_string()
}

/// Splits `text` at every occurrence of `sep`.
pub fn split_on(text: &str, sep: char) -> (out: Vec<String>)
    ensures
        texts(out@) == split(text@, sep),
{
    let chars = chars_of(text);
    let mut pieces: Vec<String> = Vec::new();
    let mut start: usize = 0;
    let mut i: usize = 0;
    proof {
        assert(text@.take(0) =~= Seq::<char>::empty());
        assert(texts(pieces@).push(text@.subrange(0, 0)) =~= seq![Seq::<char>::empty()]);
    }
    while i < chars.len()
        invariant
            chars@ == text@,
            start <= i <= chars.len(),
            split(text@.take(i as int), sep) == texts(pieces@).push(
                text@.subrange(start as int, i as int),
            ),
        decreases chars.len() - i,
    {
        let ghost shorter = text@.take(i as int);
        let ghost longer = text@.take(i + 1);
        let ghost current = text@.subrange(start as int, i as int);
        proof {
            assert(longer.drop_last() =~= shorter);
            assert(longer.last() == text@[i as int]);
        }
        if chars[i] == sep {
            pieces.push(text.substring_char(start, i).to_string());
            proof {
                assert(texts(pieces@) =~= split(shorter, sep));
                assert(text@.subrange(i + 1, i + 1) =~= Seq::<char>::empty());
            }
            start = i + 1;
        } else {
            proof {
                let before = split(shorter, sep);
                assert(before.drop_last() =~= texts(pieces@));
                assert(before.last() == current);
                assert(current.push(text@[i as int]) =~= text@.subrange(start as int, i + 1));
            }
        }
        i += 1;
    }
    pieces.push(text.substring_char(start, i).to_string());
    proof {
        assert(text@.take(i as int) =~= text@);
        assert(texts(pieces@) =~= split(text@, sep));
    }
    pieces
}

/// Joins the pieces with `sep` between each two, by `Itertools::join` of
/// the crate itertools. That function writes the first item, then for
/// every further item the separator and the item, and gives the empty
/// string for no items; the contract states this and is taken on trust.
#[verifier::external_body]
pub(crate) fn join_with(pieces: &Vec<String>, sep: &str) -> (out: String)
    ensures
        out@ == joined(texts(pieces@), sep@),
{
    itertools::Itertools::join(&mut pieces.iter(), sep)
}

/// Writes the pieces one after another, each between `before` and `after`.
pub fn wrap_each(pieces: &Vec<String>, before: &str, after: &str) -> (out: String)
    ensures
        out@ == wrapped(texts(pieces@), before@, after@),
{
    let mut out = String::new();
    let mut i: usize = 0;
    while i < pieces.len()
        invariant
            i <= pieces.len(),
            out@ == wrapped(texts(pieces@).take(i as int), before@, after@),
        decreases pieces.len() - i,
    {
        proof {
            let all = texts(pieces@);
            assert(all.take(i + 1).drop_last() =~= all.take(i as int));
            assert(all.take(i + 1).last() == pieces@[i as int]@);
        }
        out.append(before);
        out.append(pieces[i].as_str());
        out.append(after);
        i += 1;
    }
    proof {
        assert(texts(pieces@).take(i as int) =~= texts(pieces@));
    }
    out
}

/// Writes the pieces one after another, with `sep` between each two.
pub fn join_lines(pieces: &Vec<String>, sep: &str) -> (out: String)
    ensures
        out@ == joined(texts(pieces@), sep@),
{
    let mut out = String::new();
    let mut i: usize = 0;
    while i < pieces.len()
        invariant
            i <= pieces.len(),
            out@ == joined(texts(pieces@).take(i as int), sep@),
        decreases pieces.len() - i,
    {
        proof {
            let all = texts(pieces@);
            assert(all.take(i + 1).drop_last() =~= all.take(i as int));
            assert(all.take(i + 1).last() == pieces@[i as int]@);
            assert(all.take(i + 1)[0] == all[0]);
            assert(Seq::<char>::empty() + pieces@[i as int]@ =~= pieces@[i as int]@);
        }
        if i > 0 {
            out.append(sep);
        }
        out.append(pieces[i].as_str());
        i += 1;
    }
    proof {
        assert(texts(pieces@).take(i as int) =~= texts(pieces@));
    }
    out
}

} // verus!

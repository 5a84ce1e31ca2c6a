//! Splitting text into trimmed entries: lines, or the fields of lines.

use vstd::prelude::*;
use vstd::std_specs::iter::IteratorSpec;
use vstd::string::{axiom_spec_iter, next_postcondition};

verus! {

/// Whether a character has the Unicode property White_Space.
pub open spec fn spec_is_white_space(c: char) -> bool {
    let n = c as u32;
    ||| 0x09 <= n <= 0x0D
    ||| n == 0x20
    ||| n == 0x85
    ||| n == 0xA0
    ||| n == 0x1680
    ||| 0x2000 <= n <= 0x200A
    ||| n == 0x2028
    ||| n == 0x2029
    ||| n == 0x202F
    ||| n == 0x205F
    ||| n == 0x3000
}

/// Computes [`spec_is_white_space`].
#[verifier::when_used_as_spec(spec_is_white_space)]
pub fn is_white_space(c: char) -> (r: bool)
    ensures
        r == spec_is_white_space(c),
{
    let n: u32 = c as u32;
    (0x09 <= n && n <= 0x0D) || n == 0x20 || n == 0x85 || n == 0xA0 || n == 0x1680 || (0x2000 <= n
        && n <= 0x200A) || n == 0x2028 || n == 0x2029 || n == 0x202F || n == 0x205F || n == 0x3000
}

/// The text without the white space that it starts with.
pub open spec fn trim_start(s: Seq<char>) -> Seq<char>
    decreases s.len(),
{
    if s.len() > 0 && spec_is_white_space(s[0]) {
        trim_start(s.skip(1))
    } else {
        s
    }
}

/// The text without the white space that it ends with.
pub open spec fn trim_end(s: Seq<char>) -> Seq<char>
    decreases s.len(),
{
    if s.len() > 0 && spec_is_white_space(s.last()) {
        trim_end(s.drop_last())
    } else {
        s
    }
}

/// The text without the white space at either end.
pub open spec fn trimmed(s: Seq<char>) -> Seq<char> {
    trim_end(trim_start(s))
}

/// What is left after trimming is a stretch of the text, from `a` to `b`, that
/// neither starts nor ends with white space, and the text holds nothing but
/// white space before `a` and from `b` on.
pub proof fn lemma_trimmed(s: Seq<char>) -> (r: (int, int))
    ensures
        0 <= r.0 <= r.1 <= s.len(),
        trimmed(s) == s.subrange(r.0, r.1),
        forall|i: int| 0 <= i < r.0 ==> spec_is_white_space(#[trigger] s[i]),
        forall|i: int| r.1 <= i < s.len() ==> spec_is_white_space(#[trigger] s[i]),
        r.0 < r.1 ==> !spec_is_white_space(s[r.0]) && !spec_is_white_space(s[r.1 - 1]),
{
    let a = lemma_trim_start(s);
    let rest = s.skip(a);
    let b = lemma_trim_end(rest);
    assert(rest.take(b) =~= s.subrange(a, a + b));
    assert forall|i: int| a + b <= i < s.len() implies spec_is_white_space(#[trigger] s[i]) by {
        assert(rest[i - a] == s[i]);
    }
    if b > 0 {
        assert(rest[b - 1] == s[a + b - 1]);
        assert(rest[0] == s[a]);
    }
    (a, a + b)
}

/// Where the text starts once the white space before it is taken off.
proof fn lemma_trim_start(s: Seq<char>) -> (a: int)
    ensures
        0 <= a <= s.len(),
        trim_start(s) == s.skip(a),
        forall|i: int| 0 <= i < a ==> spec_is_white_space(#[trigger] s[i]),
        a < s.len() ==> !spec_is_white_space(s[a]),
    decreases s.len(),
{
    if s.len() > 0 && spec_is_white_space(s[0]) {
        let rest = s.skip(1);
        let a = lemma_trim_start(rest);
        assert(rest.skip(a) =~= s.skip(a + 1));
        assert forall|i: int| 0 <= i < a + 1 implies spec_is_white_space(#[trigger] s[i]) by {
            if i > 0 {
                assert(rest[i - 1] == s[i]);
            }
        }
        if a < rest.len() {
            assert(rest[a] == s[a + 1]);
        }
        a + 1
    } else {
        assert(s.skip(0) =~= s);
        0
    }
}

/// Where the text ends once the white space after it is taken off.
proof fn lemma_trim_end(s: Seq<char>) -> (b: int)
    ensures
        0 <= b <= s.len(),
        trim_end(s) == s.take(b),
        forall|i: int| b <= i < s.len() ==> spec_is_white_space(#[trigger] s[i]),
        0 < b ==> !spec_is_white_space(s[b - 1]),
    decreases s.len(),
{
    if s.len() > 0 && spec_is_white_space(s.last()) {
        let rest = s.drop_last();
        let b = lemma_trim_end(rest);
        assert(rest.take(b) =~= s.take(b));
        assert forall|i: int| b <= i < s.len() implies spec_is_white_space(#[trigger] s[i]) by {
            if i < rest.len() {
                assert(rest[i] == s[i]);
            }
        }
        if b > 0 {
            assert(rest[b - 1] == s[b - 1]);
        }
        b
    } else {
        assert(s.take(s.len() as int) =~= s);
        s.len() as int
    }
}

/// Whether a character ends a piece: a line feed always, a comma where fields
/// are asked for.
pub open spec fn separates(c: char, commas: bool) -> bool {
    c == '\n' || (commas && c == ',')
}

/// The pieces between separators, read from the left: there is one piece to
/// begin with, a separator opens a new one, and any other character goes to
/// the end of the last piece. There is always one piece more than there are
/// separators.
pub open spec fn pieces(s: Seq<char>, commas: bool) -> Seq<Seq<char>>
    decreases s.len(),
{
    if s.len() == 0 {
        seq![Seq::<char>::empty()]
    } else {
        let before = pieces(s.drop_last(), commas);
        if separates(s.last(), commas) {
            before.push(Seq::<char>::empty())
        } else {
            before.drop_last().push(before.last().push(s.last()))
        }
    }
}

/// The entries of a text: its pieces, but for the empty piece that follows a
/// final line feed. An empty text has no entry.
pub open spec fn entries(s: Seq<char>, commas: bool) -> Seq<Seq<char>> {
    if s.len() == 0 || s.last() == '\n' {
        pieces(s, commas).drop_last()
    } else {
        pieces(s, commas)
    }
}

/// The entries of a text, each without the white space at either end.
pub open spec fn trimmed_entries(s: Seq<char>, commas: bool) -> Seq<Seq<char>> {
    Seq::new(entries(s, commas).len(), |i: int| trimmed(entries(s, commas)[i]))
}

/// There is always at least one piece, and no piece holds a separator.
pub proof fn lemma_pieces(s: Seq<char>, commas: bool)
    ensures
        pieces(s, commas).len() > 0,
        forall|k: int, i: int|
            0 <= k < pieces(s, commas).len() && 0 <= i < pieces(s, commas)[k].len() ==> !separates(
                #[trigger] pieces(s, commas)[k][i],
                commas,
            ),
    decreases s.len(),
{
    if s.len() > 0 {
        let before = pieces(s.drop_last(), commas);
        lemma_pieces(s.drop_last(), commas);
        let all = pieces(s, commas);
        assert forall|k: int, i: int| 0 <= k < all.len() && 0 <= i < all[k].len() implies !separates(
            #[trigger] all[k][i],
            commas,
        ) by {
            if separates(s.last(), commas) {
                assert(k < before.len());
                assert(all[k] == before[k]);
                assert(!separates(before[k][i], commas));
            } else if k < before.len() - 1 {
                assert(all[k] == before[k]);
                assert(!separates(before[k][i], commas));
            } else if i < before.last().len() {
                assert(all[k][i] == before[before.len() - 1][i]);
                assert(!separates(before[before.len() - 1][i], commas));
            }
        }
    }
}

/// The characters of a text.
fn chars_of(text: &str) -> (r: Vec<char>)
    ensures
        r@ == text@,
{
    broadcast use axiom_spec_iter, next_postcondition;

    let mut out: Vec<char> = Vec::new();
    let mut it = text.chars();
    loop
        invariant
            it.obeys_prophetic_iter_laws(),
            it.decrease() is Some,
            out@ + it.remaining() == text@,
        decreases it.decrease()->0,
    {
        let ghost before = it.remaining();
        match it.next() {
            Some(c) => {
                assert(before =~= seq![c] + it.remaining());
                assert(out@.push(c) + it.remaining() =~= out@ + before);
                out.push(c);
            },
            None => {
                assert(out@ + before =~= out@);
                return out;
            },
        }
    }
}

/// Where the trimmed part of `chars[from..to]` starts and ends.
fn trim_bounds(chars: &Vec<char>, from: usize, to: usize) -> (r: (usize, usize))
    requires
        from <= to <= chars.len(),
    ensures
        from <= r.0 <= r.1 <= to,
        chars@.subrange(r.0 as int, r.1 as int) == trimmed(chars@.subrange(from as int, to as int)),
{
    let mut a: usize = from;
    while a < to && is_white_space(chars[a])
        invariant
            from <= a <= to <= chars.len(),
            trim_start(chars@.subrange(from as int, to as int)) == trim_start(
                chars@.subrange(a as int, to as int),
            ),
        decreases to - a,
    {
        assert(chars@.subrange(a as int, to as int).skip(1) =~= chars@.subrange(a + 1, to as int));
        a += 1;
    }
    let mut b: usize = to;
    while b > a && is_white_space(chars[b - 1])
        invariant
            a <= b <= to <= chars.len(),
            trim_end(chars@.subrange(a as int, to as int)) == trim_end(
                chars@.subrange(a as int, b as int),
            ),
        decreases b - a,
    {
        assert(chars@.subrange(a as int, b as int).drop_last() =~= chars@.subrange(
            a as int,
            b - 1,
        ));
        b -= 1;
    }
    (a, b)
}

/// Splits a text into its entries and trims each: the lines of the text, or,
/// with `commas`, the comma-separated fields of its lines, in order.
///
/// A line ends at a line feed; the last line needs none. White space,
/// a carriage return before a line feed included, is taken off both ends of
/// every entry, so an entry may be empty.
pub fn split_trimmed(text: &str, commas: bool) -> (r: Vec<String>)
    ensures
        r.len() == trimmed_entries(text@, commas).len(),
        forall|i: int| 0 <= i < r.len() ==> (#[trigger] r[i])@ == trimmed_entries(text@, commas)[i],
{
    let chars = chars_of(text);
    let n: usize = chars.len();
    let mut out: Vec<String> = Vec::new();
    let mut from: usize = 0;
    let mut i: usize = 0;
    assert(chars@.take(0) =~= Seq::<char>::empty());
    assert(chars@.subrange(0, 0) =~= Seq::<char>::empty());
    while i < n
        invariant
            from <= i <= n,
            n == chars.len(),
            chars@ == text@,
            pieces(chars@.take(i as int), commas).len() == out.len() + 1,
            pieces(chars@.take(i as int), commas).last() == chars@.subrange(from as int, i as int),
            forall|j: int|
                0 <= j < out.len() ==> (#[trigger] out[j])@ == trimmed(
                    pieces(chars@.take(i as int), commas)[j],
                ),
        decreases n - i,
    {
        let c: char = chars[i];
        proof {
            assert(chars@.take(i + 1).drop_last() =~= chars@.take(i as int));
            assert(chars@.take(i + 1).last() == c);
        }
        if c == '\n' || (commas && c == ',') {
            let (a, b) = trim_bounds(&chars, from, i);
            let piece = text.substring_char(a, b);
            out.push(piece.to_owned());
            from = i + 1;
            proof {
                assert(chars@.subrange(i + 1, i + 1) =~= Seq::<char>::empty());
            }
        } else {
            proof {
                assert(chars@.subrange(from as int, i as int).push(c) =~= chars@.subrange(
                    from as int,
                    i + 1,
                ));
            }
        }
        i += 1;
    }
    assert(chars@.take(n as int) =~= chars@);
    if !(n == 0 || chars[n - 1] == '\n') {
        let (a, b) = trim_bounds(&chars, from, n);
        let piece = text.substring_char(a, b);
        out.push(piece.to_owned());
    }
    out
}

} // verus!

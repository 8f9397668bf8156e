//! Small verified helpers on strings and character sequences.

use vstd::prelude::*;
use vstd::seq_lib::lemma_flatten_concat;
use vstd::std_specs::iter::IteratorSpec;

verus! {

/// `String::push` appends one character.
pub assume_specification[ String::push ](s: &mut String, ch: char)
    ensures
        final(s)@ == old(s)@.push(ch),
;

/// `String::pop` takes the last character off, if there is one.
pub assume_specification[ String::pop ](s: &mut String) -> (last: Option<char>)
    ensures
        old(s)@.len() == 0 ==> last is None && final(s)@ == old(s)@,
        old(s)@.len() > 0 ==> last == Some(old(s)@.last()) && final(s)@ == old(s)@.drop_last(),
;

/// The character of a decimal digit; `'0'` for anything above nine.
pub open spec fn digit(d: nat) -> char {
    if d == 1 {
        '1'
    } else if d == 2 {
        '2'
    } else if d == 3 {
        '3'
    } else if d == 4 {
        '4'
    } else if d == 5 {
        '5'
    } else if d == 6 {
        '6'
    } else if d == 7 {
        '7'
    } else if d == 8 {
        '8'
    } else if d == 9 {
        '9'
    } else {
        '0'
    }
}

/// A number written in base ten, without leading zeros.
pub open spec fn decimal(n: nat) -> Seq<char>
    decreases n,
{
    if n < 10 {
        seq![digit(n)]
    } else {
        decimal(n / 10).push(digit(n % 10))
    }
}

/// The character of the digit `d`.
pub fn digit_char(d: usize) -> (c: char)
    requires
        d < 10,
    ensures
        c == digit(d as nat),
{
    if d == 0 {
        '0'
    } else if d == 1 {
        '1'
    } else if d == 2 {
        '2'
    } else if d == 3 {
        '3'
    } else if d == 4 {
        '4'
    } else if d == 5 {
        '5'
    } else if d == 6 {
        '6'
    } else if d == 7 {
        '7'
    } else if d == 8 {
        '8'
    } else {
        '9'
    }
}

/// `n` written in base ten.
pub fn decimal_string(n: usize) -> (text: String)
    ensures
        text@ == decimal(n as nat),
    decreases n,
{
    if n < 10 {
        let mut text = String::new();
        text.push(digit_char(n));
        proof {
            assert(text@ =~= seq![digit(n as nat)]);
        }
        text
    } else {
        let mut text = decimal_string(n / 10);
        text.push(digit_char(n % 10));
        text
    }
}

/// `count` spaces.
pub open spec fn spaces(count: nat) -> Seq<char> {
    Seq::new(count, |i: int| ' ')
}

/// A string of `count` spaces.
pub fn blank(count: usize) -> (text: String)
    ensures
        text@ == spaces(count as nat),
{
    let mut text = String::new();
    let mut i: usize = 0;
    proof {
        assert(text@ =~= spaces(0));
    }
    while i < count
        invariant
            i <= count,
            text@ == spaces(i as nat),
        decreases count - i,
    {
        text.push(' ');
        i += 1;
        proof {
            assert(text@ =~= spaces(i as nat));
        }
    }
    text
}

/// The first `count` characters of `text`, or all of it where it has fewer.
pub open spec fn cut(text: Seq<char>, count: int) -> Seq<char> {
    if count < text.len() {
        text.take(count)
    } else {
        text
    }
}

/// The first `count` characters of `text`.
pub fn truncated(text: &str, count: usize) -> (kept: String)
    ensures
        kept@ == cut(text@, count as int),
{
    let n = text.unicode_len();
    if count < n {
        String::from_str(text.substring_char(0, count))
    } else {
        String::from_str(text)
    }
}

/// The char offset at which piece `k` of `parts` starts: the total length of
/// the pieces before it.
pub open spec fn boundary(parts: Seq<Seq<char>>, k: int) -> int {
    parts.take(k).flatten().len() as int
}

/// The pieces `from..to` of `parts` laid end to end.
pub open spec fn span(parts: Seq<Seq<char>>, from: int, to: int) -> Seq<char> {
    parts.subrange(from, to).flatten()
}

/// Adding piece `k` moves the boundary on by that piece's length.
pub proof fn lemma_boundary_step(parts: Seq<Seq<char>>, k: int)
    requires
        0 <= k < parts.len(),
    ensures
        boundary(parts, k + 1) == boundary(parts, k) + parts[k].len(),
        parts.take(k + 1).flatten() == parts.take(k).flatten() + parts[k],
{
    assert(parts.take(k + 1) =~= parts.take(k).push(parts[k]));
    parts.take(k).lemma_flatten_push(parts[k]);
}

/// A text cut at piece `k` is the pieces before `k` followed by the rest.
pub proof fn lemma_span_split(parts: Seq<Seq<char>>, k: int)
    requires
        0 <= k <= parts.len(),
    ensures
        parts.flatten() == parts.take(k).flatten() + parts.skip(k).flatten(),
        boundary(parts, k) <= parts.flatten().len(),
{
    assert(parts =~= parts.take(k) + parts.skip(k));
    lemma_flatten_concat(parts.take(k), parts.skip(k));
}

/// Boundaries grow with the piece index.
pub proof fn lemma_boundary_monotone(parts: Seq<Seq<char>>, j: int, k: int)
    requires
        0 <= j <= k <= parts.len(),
    ensures
        boundary(parts, j) <= boundary(parts, k),
    decreases k - j,
{
    if j < k {
        lemma_boundary_monotone(parts, j, k - 1);
        lemma_boundary_step(parts, k - 1);
    }
}

/// The characters of a string, as a vector.
pub fn chars_of(text: &str) -> (chars: Vec<char>)
    ensures
        chars@ == text@,
{
    broadcast use {vstd::string::axiom_spec_iter, vstd::string::next_postcondition};

    let mut rest = text.chars();
    let mut chars: Vec<char> = Vec::new();
    loop
        invariant
            rest.obeys_prophetic_iter_laws(),
            rest.decrease() is Some,
            chars@ + rest.remaining() == text@,
        ensures
            chars@ == text@,
        decreases rest.decrease()->0,
    {
        let ghost before = rest.remaining();
        match rest.next() {
            Some(c) => {
                chars.push(c);
                proof {
                    assert(chars@ + rest.remaining() =~= chars@.drop_last() + before);
                }
            },
            None => {
                proof {
                    assert(chars@ + rest.remaining() =~= chars@);
                }
                break ;
            },
        }
    }
    chars
}

/// The pieces `from..to` of `parts`, concatenated.
pub fn join(parts: &Vec<String>, from: usize, to: usize) -> (text: String)
    requires
        from <= to <= parts.len(),
    ensures
        text@ == span(parts.deep_view(), from as int, to as int),
{
    let mut text = String::new();
    let mut i: usize = from;
    proof {
        assert(parts.deep_view().subrange(from as int, from as int) =~= Seq::empty());
    }
    while i < to
        invariant
            from <= i <= to <= parts.len(),
            text@ == span(parts.deep_view(), from as int, i as int),
        decreases to - i,
    {
        text.append(parts[i].as_str());
        proof {
            let all = parts.deep_view();
            assert(all[i as int] == parts[i as int]@);
            assert(all.subrange(from as int, i + 1) =~= all.subrange(from as int, i as int).push(
                all[i as int],
            ));
            all.subrange(from as int, i as int).lemma_flatten_push(all[i as int]);
        }
        i += 1;
    }
    text
}

} // verus!

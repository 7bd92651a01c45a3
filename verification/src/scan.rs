//! Searching and trimming text: the first occurrence of a character, prefixes,
//! and characters taken off either end.

use vstd::prelude::*;
use crate::text::to_chars;

verus! {

/// The place of the first `c` in `s`, or the length of `s` if there is none.
pub open spec fn index_of(s: Seq<char>, c: char) -> int
    decreases s.len(),
{
    if s.len() == 0 {
        0
    } else if s[0] == c {
        0
    } else {
        1 + index_of(s.drop_first(), c)
    }
}

/// `s` without the `c`s at its end.
pub open spec fn trim_end_char(s: Seq<char>, c: char) -> Seq<char>
    decreases s.len(),
{
    if s.len() > 0 && s.last() == c {
        trim_end_char(s.drop_last(), c)
    } else {
        s
    }
}

/// `s` without the copies of `prefix` at its start, taken off one after
/// another as long as one stands there.
pub open spec fn trim_start_text(s: Seq<char>, prefix: Seq<char>) -> Seq<char>
    decreases s.len(),
{
    if prefix.len() > 0 && prefix.is_prefix_of(s) {
        trim_start_text(s.skip(prefix.len() as int), prefix)
    } else {
        s
    }
}

/// What follows `prefix` in `s`, if `s` starts with it.
pub open spec fn strip_prefix(s: Seq<char>, prefix: Seq<char>) -> Option<Seq<char>> {
    if prefix.is_prefix_of(s) {
        Some(s.skip(prefix.len() as int))
    } else {
        None
    }
}

/// What stands before the first `c` and what stands after it, if `c` occurs.
pub open spec fn split_once(s: Seq<char>, c: char) -> Option<(Seq<char>, Seq<char>)> {
    let i = index_of(s, c);
    if i < s.len() {
        Some((s.take(i), s.skip(i + 1)))
    } else {
        None
    }
}

/// Whether `c` is white space: a character with the Unicode property
/// `White_Space`.
pub open spec fn is_space(c: char) -> bool {
    let u = c as u32;
    ||| 0x09 <= u <= 0x0D
    ||| u == 0x20
    ||| u == 0x85
    ||| u == 0xA0
    ||| u == 0x1680
    ||| 0x2000 <= u <= 0x200A
    ||| u == 0x2028
    ||| u == 0x2029
    ||| u == 0x202F
    ||| u == 0x205F
    ||| u == 0x3000
}

/// The number of white-space characters at the start of `s`.
pub open spec fn leading_space(s: Seq<char>) -> int
    decreases s.len(),
{
    if s.len() > 0 && is_space(s[0]) {
        1 + leading_space(s.drop_first())
    } else {
        0
    }
}

/// The number of white-space characters at the end of `s`.
pub open spec fn trailing_space(s: Seq<char>) -> int
    decreases s.len(),
{
    if s.len() > 0 && is_space(s.last()) {
        1 + trailing_space(s.drop_last())
    } else {
        0
    }
}

/// `s` without the white space at its start and at its end.
pub open spec fn trim(s: Seq<char>) -> Seq<char> {
    let from = leading_space(s);
    let rest = s.skip(from);
    rest.take(rest.len() - trailing_space(rest))
}

/// The first `c` stands at `index_of`, and none before it.
pub proof fn lemma_index_of(s: Seq<char>, c: char)
    ensures
        0 <= index_of(s, c) <= s.len(),
        index_of(s, c) < s.len() ==> s[index_of(s, c)] == c,
        forall|j: int| 0 <= j < index_of(s, c) ==> s[j] != c,
        index_of(s, c) < s.len() <==> s.contains(c),
    decreases s.len(),
{
    if s.len() > 0 && s[0] != c {
        let rest = s.drop_first();
        lemma_index_of(rest, c);
        let i = index_of(s, c);
        assert forall|j: int| 0 <= j < i implies s[j] != c by {
            if j > 0 {
                assert(rest[j - 1] == s[j]);
            }
        }
        if i < s.len() {
            assert(rest[i - 1] == s[i]);
        }
        if s.contains(c) {
            let k = choose|k: int| 0 <= k < s.len() && s[k] == c;
            assert(rest[k - 1] == c);
            assert(rest.contains(c));
        }
    } else if s.len() > 0 {
        assert(s.contains(c));
    }
}

/// A place that holds `c` with none before it is the first.
pub proof fn lemma_index_of_is(s: Seq<char>, c: char, i: int)
    requires
        0 <= i <= s.len(),
        forall|j: int| 0 <= j < i ==> s[j] != c,
        i < s.len() ==> s[i] == c,
    ensures
        index_of(s, c) == i,
{
    lemma_index_of(s, c);
    let k = index_of(s, c);
    if k < i {
        assert(s[k] != c);
    }
}

/// The place of the first `c` in `s`, or the number of characters of `s`.
pub fn find_char(s: &str, c: char) -> (i: usize)
    ensures
        i == index_of(s@, c),
{
    let x = to_chars(s);
    let mut i: usize = 0;
    while i < x.len()
        invariant
            i <= x.len(),
            x@ == s@,
            forall|j: int| 0 <= j < i ==> s@[j] != c,
        decreases x.len() - i,
    {
        if x[i] == c {
            proof {
                lemma_index_of_is(s@, c, i as int);
            }
            return i;
        }
        i += 1;
    }
    proof {
        lemma_index_of_is(s@, c, i as int);
    }
    i
}

/// `s` without the `c`s at its end.
pub fn trim_end_matches<'a>(s: &'a str, c: char) -> (r: &'a str)
    ensures
        r@ == trim_end_char(s@, c),
{
    let x = to_chars(s);
    let mut end: usize = x.len();
    assert(s@.take(end as int) == s@);
    while end > 0 && x[end - 1] == c
        invariant
            end <= x.len(),
            x@ == s@,
            trim_end_char(s@, c) == trim_end_char(s@.take(end as int), c),
        decreases end,
    {
        proof {
            let t = s@.take(end as int);
            assert(t.last() == c);
            assert(t.drop_last() == s@.take(end - 1));
        }
        end -= 1;
    }
    proof {
        let t = s@.take(end as int);
        if end > 0 {
            assert(t.last() != c);
        }
    }
    s.substring_char(0, end)
}

/// Whether `prefix` stands in `x` at place `from`.
fn chars_start_with(x: &Vec<char>, from: usize, p: &Vec<char>) -> (r: bool)
    requires
        from <= x@.len(),
    ensures
        r == p@.is_prefix_of(x@.skip(from as int)),
{
    let rest = x.len() - from;
    if p.len() > rest {
        return false;
    }
    let mut i: usize = 0;
    while i < p.len()
        invariant
            i <= p.len(),
            from <= x@.len(),
            p.len() <= x.len() - from,
            forall|j: int| 0 <= j < i ==> p@[j] == x@[from + j],
        decreases p.len() - i,
    {
        if p[i] != x[from + i] {
            assert(x@.skip(from as int)[i as int] == x@[from + i]);
            return false;
        }
        i += 1;
    }
    assert(p@ == x@.skip(from as int).subrange(0, p@.len() as int));
    true
}

/// What follows `prefix` in `s`, if `s` starts with it.
pub fn strip_prefix_of<'a>(s: &'a str, prefix: &str) -> (r: Option<&'a str>)
    ensures
        match r {
            Some(rest) => strip_prefix(s@, prefix@) == Some(rest@),
            None => strip_prefix(s@, prefix@) is None,
        },
{
    let x = to_chars(s);
    let p = to_chars(prefix);
    assert(x@.skip(0) == x@);
    if chars_start_with(&x, 0, &p) {
        Some(s.substring_char(p.len(), x.len()))
    } else {
        None
    }
}

/// `s` without the copies of `prefix` at its start.
pub fn trim_start_matches<'a>(s: &'a str, prefix: &str) -> (r: &'a str)
    ensures
        r@ == trim_start_text(s@, prefix@),
{
    let x = to_chars(s);
    let p = to_chars(prefix);
    if p.len() == 0 {
        return s;
    }
    let mut from: usize = 0;
    assert(s@.skip(0) == s@);
    let mut more = chars_start_with(&x, from, &p);
    while more
        invariant
            from <= x.len(),
            x@ == s@,
            p@ == prefix@,
            p.len() > 0,
            more == prefix@.is_prefix_of(s@.skip(from as int)),
            trim_start_text(s@, prefix@) == trim_start_text(s@.skip(from as int), prefix@),
        decreases x.len() - from,
    {
        assert(s@.skip(from as int).skip(p@.len() as int) == s@.skip(from + p@.len()));
        from += p.len();
        more = chars_start_with(&x, from, &p);
    }
    s.substring_char(from, x.len())
}

/// What stands before the first `c` in `s` and what stands after it.
pub fn split_once_at<'a>(s: &'a str, c: char) -> (r: Option<(&'a str, &'a str)>)
    ensures
        match r {
            Some((before, after)) => split_once(s@, c) == Some((before@, after@)),
            None => split_once(s@, c) is None,
        },
{
    let n = s.unicode_len();
    let i = find_char(s, c);
    proof {
        lemma_index_of(s@, c);
    }
    if i < n {
        Some((s.substring_char(0, i), s.substring_char(i + 1, n)))
    } else {
        None
    }
}

/// Whether `c` is white space.
pub fn is_space_char(c: char) -> (r: bool)
    ensures
        r == is_space(c),
{
    let u: u32 = c as u32;
    (0x09 <= u && u <= 0x0D) || u == 0x20 || u == 0x85 || u == 0xA0 || u == 0x1680 || (0x2000 <= u
        && u <= 0x200A) || u == 0x2028 || u == 0x2029 || u == 0x202F || u == 0x205F || u == 0x3000
}

/// `s` without the white space at its start and at its end.
pub fn trim_space<'a>(s: &'a str) -> (r: &'a str)
    ensures
        r@ == trim(s@),
{
    let x = to_chars(s);
    let mut from: usize = 0;
    assert(s@.skip(0) == s@);
    while from < x.len() && is_space_char(x[from])
        invariant
            from <= x.len(),
            x@ == s@,
            leading_space(s@) == from + leading_space(s@.skip(from as int)),
        decreases x.len() - from,
    {
        assert(s@.skip(from as int)[0] == s@[from as int]);
        assert(s@.skip(from as int).drop_first() == s@.skip(from + 1));
        from += 1;
    }
    proof {
        if from < x.len() {
            assert(s@.skip(from as int)[0] == s@[from as int]);
        }
        assert(leading_space(s@) == from);
    }
    let ghost rest = s@.skip(from as int);
    let mut end: usize = x.len();
    assert(rest.take(rest.len() as int) == rest);
    while end > from && is_space_char(x[end - 1])
        invariant
            from <= end <= x.len(),
            x@ == s@,
            rest == s@.skip(from as int),
            trailing_space(rest) == (x.len() - end) + trailing_space(rest.take(end - from)),
        decreases end,
    {
        proof {
            let t = rest.take(end - from);
            assert(t.last() == s@[end - 1]);
            assert(t.drop_last() == rest.take(end - 1 - from));
        }
        end -= 1;
    }
    proof {
        let t = rest.take(end - from);
        if end > from {
            assert(t.last() == s@[end - 1]);
        }
        assert(trailing_space(rest) == x.len() - end);
        assert(rest.take(rest.len() - trailing_space(rest)) == s@.subrange(from as int, end as int));
    }
    s.substring_char(from, end)
}

} // verus!

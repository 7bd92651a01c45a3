//! Character-level helpers shared by the parsers of this crate: splitting at a
//! separator, joining, and decimal numbers.

use vstd::prelude::*;

verus! {

/// The pieces of `s` between occurrences of `sep`. There is always at least
/// one piece; a separator at either end, or two in a row, gives an empty piece.
pub open spec fn split(s: Seq<char>, sep: char) -> Seq<Seq<char>>
    decreases s.len(),
{
    if s.len() == 0 {
        seq![Seq::<char>::empty()]
    } else {
        let before = split(s.drop_last(), sep);
        if s.last() == sep {
            before.push(Seq::<char>::empty())
        } else {
            before.drop_last().push(before.last().push(s.last()))
        }
    }
}

/// The pieces of `parts` written one after another with `sep` between them.
pub open spec fn join(parts: Seq<Seq<char>>, sep: char) -> Seq<char>
    decreases parts.len(),
{
    if parts.len() == 0 {
        Seq::<char>::empty()
    } else if parts.len() == 1 {
        parts[0]
    } else {
        join(parts.drop_last(), sep).push(sep) + parts.last()
    }
}

/// The views of a sequence of string slices.
pub open spec fn views(v: Seq<&str>) -> Seq<Seq<char>> {
    Seq::new(v.len(), |i: int| v[i]@)
}

/// The views of a sequence of owned strings.
pub open spec fn string_views(v: Seq<String>) -> Seq<Seq<char>> {
    Seq::new(v.len(), |i: int| v[i]@)
}

/// The view of a string that may be absent.
pub open spec fn text_of(s: Option<String>) -> Option<Seq<char>> {
    match s {
        Some(s) => Some(s@),
        None => None,
    }
}

/// `split` never returns an empty sequence.
pub proof fn lemma_split_nonempty(s: Seq<char>, sep: char)
    ensures
        split(s, sep).len() >= 1,
    decreases s.len(),
{
    if s.len() > 0 {
        lemma_split_nonempty(s.drop_last(), sep);
    }
}

/// Appending text without a separator extends the last piece.
pub proof fn lemma_split_extend(a: Seq<char>, b: Seq<char>, sep: char)
    requires
        !b.contains(sep),
    ensures
        split(a + b, sep) == split(a, sep).drop_last().push(split(a, sep).last() + b),
    decreases b.len(),
{
    lemma_split_nonempty(a, sep);
    let pa = split(a, sep);
    if b.len() == 0 {
        assert(a + b == a);
        assert(pa.last() + b == pa.last());
        assert(pa.drop_last().push(pa.last()) == pa);
    } else {
        let b0 = b.drop_last();
        assert(b[b.len() - 1] == b.last());
        assert(b.contains(b.last()));
        assert(!b0.contains(sep)) by {
            if b0.contains(sep) {
                let i = choose|i: int| 0 <= i < b0.len() && b0[i] == sep;
                assert(b[i] == sep);
            }
        }
        lemma_split_extend(a, b0, sep);
        assert((a + b).drop_last() == a + b0);
        assert((a + b).last() == b.last());
        let mid = pa.drop_last().push(pa.last() + b0);
        assert(mid.drop_last() == pa.drop_last());
        assert(mid.last() == pa.last() + b0);
        assert((pa.last() + b0).push(b.last()) == pa.last() + b);
    }
}

/// Splitting what `join` wrote gives the pieces back, when no piece holds the
/// separator.
pub proof fn lemma_split_join(parts: Seq<Seq<char>>, sep: char)
    requires
        parts.len() >= 1,
        forall|i: int| 0 <= i < parts.len() ==> !(#[trigger] parts[i]).contains(sep),
    ensures
        split(join(parts, sep), sep) == parts,
    decreases parts.len(),
{
    if parts.len() == 1 {
        let e = Seq::<char>::empty();
        lemma_split_extend(e, parts[0], sep);
        assert(e + parts[0] == parts[0]);
        assert(split(e, sep) == seq![e]);
        assert(seq![e].drop_last().push(seq![e].last() + parts[0]) == parts);
    } else {
        let init = parts.drop_last();
        assert forall|i: int| 0 <= i < init.len() implies !(#[trigger] init[i]).contains(sep) by {
            assert(init[i] == parts[i]);
        }
        lemma_split_join(init, sep);
        let a = join(init, sep).push(sep);
        assert(a.drop_last() == join(init, sep));
        assert(split(a, sep) == init.push(Seq::<char>::empty()));
        lemma_split_extend(a, parts.last(), sep);
        assert(Seq::<char>::empty() + parts.last() == parts.last());
        assert(init.push(Seq::<char>::empty()).drop_last() == init);
        assert(init.push(parts.last()) == parts);
    }
}

/// Joining what `split` cut gives the text back.
pub proof fn lemma_join_split(s: Seq<char>, sep: char)
    ensures
        join(split(s, sep), sep) == s,
    decreases s.len(),
{
    if s.len() == 0 {
        assert(split(s, sep)[0] == s);
    } else {
        let t = s.drop_last();
        let before = split(t, sep);
        lemma_split_nonempty(t, sep);
        lemma_join_split(t, sep);
        assert(t.push(s.last()) == s);
        if s.last() == sep {
            let parts = before.push(Seq::<char>::empty());
            assert(parts.drop_last() == before);
            assert(t.push(sep) + Seq::<char>::empty() == t.push(sep));
        } else {
            let grown = before.last().push(s.last());
            let parts = before.drop_last().push(grown);
            assert(parts.drop_last() == before.drop_last());
            assert(parts.last() == grown);
            if before.len() == 1 {
                assert(before.last() == t);
            } else {
                let head = join(before.drop_last(), sep).push(sep);
                assert(head + grown == (head + before.last()).push(s.last()));
            }
        }
    }
}

/// A character that is not the separator and occurs in no piece does not
/// occur in what `join` writes.
pub proof fn lemma_join_lacks(parts: Seq<Seq<char>>, sep: char, c: char)
    requires
        c != sep,
        forall|i: int| 0 <= i < parts.len() ==> !(#[trigger] parts[i]).contains(c),
    ensures
        !join(parts, sep).contains(c),
    decreases parts.len(),
{
    let text = join(parts, sep);
    if parts.len() >= 2 {
        let init = parts.drop_last();
        assert forall|i: int| 0 <= i < init.len() implies !(#[trigger] init[i]).contains(c) by {
            assert(init[i] == parts[i]);
        }
        lemma_join_lacks(init, sep, c);
        if text.contains(c) {
            let k = choose|k: int| 0 <= k < text.len() && text[k] == c;
            let head = join(init, sep);
            if k < head.len() {
                assert(head[k] == c);
                assert(head.contains(c));
            } else if k > head.len() {
                assert(parts.last()[k - head.len() - 1] == c);
                assert(parts.last().contains(c));
            }
        }
    } else if parts.len() == 1 {
        assert(!parts[0].contains(c));
    } else if text.contains(c) {
        let k = choose|k: int| 0 <= k < text.len() && text[k] == c;
    }
}

/// The characters of `s`, in order.
pub fn to_chars(s: &str) -> (v: Vec<char>)
    ensures
        v@ == s@,
{
    let mut v: Vec<char> = Vec::new();
    for c in it: s.chars()
        invariant
            it.seq() == s@,
            v@ == it.seq().take(it.index() as int),
    {
        v.push(c);
    }
    v
}

/// Whether two strings hold the same characters.
pub fn same_text(a: &str, b: &str) -> (r: bool)
    ensures
        r == (a@ == b@),
{
    let x = to_chars(a);
    let y = to_chars(b);
    if x.len() != y.len() {
        return false;
    }
    let mut i: usize = 0;
    while i < x.len()
        invariant
            i <= x.len(),
            x.len() == y.len(),
            x@ == a@,
            y@ == b@,
            x@.take(i as int) == y@.take(i as int),
        decreases x.len() - i,
    {
        if x[i] != y[i] {
            assert(a@[i as int] != b@[i as int]);
            return false;
        }
        assert(x@.take(i + 1) == x@.take(i as int).push(x@[i as int]));
        assert(y@.take(i + 1) == y@.take(i as int).push(y@[i as int]));
        i += 1;
    }
    assert(x@.take(i as int) == x@);
    assert(y@.take(i as int) == y@);
    true
}

/// Whether `c` occurs in `s`.
pub fn has_char(s: &str, c: char) -> (r: bool)
    ensures
        r == s@.contains(c),
{
    let x = to_chars(s);
    let mut i: usize = 0;
    while i < x.len()
        invariant
            i <= x.len(),
            x@ == s@,
            forall|j: int| 0 <= j < i ==> x@[j] != c,
        decreases x.len() - i,
    {
        if x[i] == c {
            assert(s@[i as int] == c);
            return true;
        }
        i += 1;
    }
    false
}

/// Cuts `s` at every `sep`.
pub fn split_on<'a>(s: &'a str, sep: char) -> (pieces: Vec<&'a str>)
    ensures
        views(pieces@) == split(s@, sep),
{
    let x = to_chars(s);
    let mut pieces: Vec<&'a str> = Vec::new();
    let mut start: usize = 0;
    let mut i: usize = 0;
    assert(s@.take(0) == Seq::<char>::empty());
    assert(views(pieces@).push(s@.subrange(0, 0)) == seq![Seq::<char>::empty()]);
    while i < x.len()
        invariant
            start <= i <= x.len(),
            x@ == s@,
            split(s@.take(i as int), sep) == views(pieces@).push(s@.subrange(start as int, i as int)),
        decreases x.len() - i,
    {
        proof {
            let t = s@.take(i + 1);
            assert(t.drop_last() == s@.take(i as int));
            assert(t.last() == s@[i as int]);
        }
        if x[i] == sep {
            let piece = s.substring_char(start, i);
            let ghost before = views(pieces@);
            pieces.push(piece);
            assert(views(pieces@) == before.push(s@.subrange(start as int, i as int)));
            start = i + 1;
            assert(s@.subrange(start as int, i + 1) == Seq::<char>::empty());
        } else {
            let ghost cur = s@.subrange(start as int, i as int);
            assert(views(pieces@).push(cur).drop_last() == views(pieces@));
            assert(cur.push(s@[i as int]) == s@.subrange(start as int, i + 1));
        }
        i += 1;
    }
    assert(s@.take(i as int) == s@);
    let piece = s.substring_char(start, i);
    let ghost before = views(pieces@);
    pieces.push(piece);
    assert(views(pieces@) == before.push(s@.subrange(start as int, i as int)));
    pieces
}

/// Writes the pieces one after another with a dot between them.
pub fn join_dotted(parts: &Vec<String>) -> (r: String)
    ensures
        r@ == join(string_views(parts@), '.'),
{
    let mut r = String::new();
    let mut i: usize = 0;
    proof {
        reveal_strlit(".");
        assert(string_views(parts@).take(0) == Seq::<Seq<char>>::empty());
    }
    while i < parts.len()
        invariant
            i <= parts.len(),
            "."@ == seq!['.'],
            r@ == join(string_views(parts@).take(i as int), '.'),
        decreases parts.len() - i,
    {
        let ghost done = string_views(parts@).take(i as int);
        let ghost next = string_views(parts@).take(i + 1);
        proof {
            assert(next.drop_last() == done);
            assert(next.last() == parts@[i as int]@);
        }
        if i > 0 {
            r.append(".");
            assert(r@ == join(done, '.').push('.'));
        } else {
            assert(r@ + parts@[i as int]@ == parts@[i as int]@);
        }
        r.append(parts[i].as_str());
        i += 1;
    }
    assert(string_views(parts@).take(i as int) == string_views(parts@));
    r
}

/// The two texts written one after the other.
pub fn glue(a: &str, b: &str) -> (r: String)
    ensures
        r@ == a@ + b@,
{
    let mut r = a.to_owned();
    r.append(b);
    r
}

/// The three texts written one after another.
pub fn glue3(a: &str, b: &str, c: &str) -> (r: String)
    ensures
        r@ == a@ + b@ + c@,
{
    let mut r = a.to_owned();
    r.append(b);
    r.append(c);
    r
}

} // verus!

//! Text as a sequence of characters: where a character first stands, and
//! the fields between separators.

use vstd::prelude::*;
use vstd::string::*;

verus! {

/// The index at which `c` first stands in `s`, or the length of `s` where
/// it stands nowhere.
pub open spec fn position(s: Seq<char>, c: char) -> nat
    decreases s.len(),
{
    if s.len() == 0 {
        0
    } else if s[0] == c {
        0
    } else {
        1 + position(s.drop_first(), c)
    }
}

/// Whether `c` stands somewhere in `s`.
pub open spec fn has(s: Seq<char>, c: char) -> bool {
    position(s, c) < s.len()
}

/// The fields of `s` between the separators `sep`, in order. There is one
/// field more than there are separators; a field may be empty.
pub open spec fn split(s: Seq<char>, sep: char) -> Seq<Seq<char>>
    decreases s.len(),
{
    let p = position(s, sep);
    if p < s.len() {
        seq![s.subrange(0, p as int)] + split(s.subrange(p as int + 1, s.len() as int), sep)
    } else {
        seq![s]
    }
}

/// The parts joined into one text, with `sep` between neighbours.
pub open spec fn join(parts: Seq<Seq<char>>, sep: char) -> Seq<char>
    decreases parts.len(),
{
    if parts.len() == 0 {
        Seq::empty()
    } else if parts.len() == 1 {
        parts[0]
    } else {
        join(parts.drop_last(), sep).push(sep) + parts.last()
    }
}

/// `position` is within the text, stands on `c`, and nothing before it
/// does.
pub proof fn lemma_position(s: Seq<char>, c: char)
    ensures
        position(s, c) <= s.len(),
        has(s, c) ==> s[position(s, c) as int] == c,
        forall|j: int| 0 <= j < position(s, c) ==> #[trigger] s[j] != c,
    decreases s.len(),
{
    if s.len() > 0 && s[0] != c {
        let rest = s.drop_first();
        lemma_position(rest, c);
        assert forall|j: int| 0 <= j < position(s, c) implies #[trigger] s[j] != c by {
            if j > 0 {
                assert(rest[j - 1] == s[j]);
            }
        }
    }
}

/// The only index that stands on `c` with no `c` before it (or the length,
/// with no `c` at all) is `position`.
pub proof fn lemma_position_is(s: Seq<char>, c: char, i: int)
    requires
        0 <= i <= s.len(),
        i < s.len() ==> s[i] == c,
        forall|j: int| 0 <= j < i ==> #[trigger] s[j] != c,
    ensures
        position(s, c) == i,
{
    lemma_position(s, c);
    let p = position(s, c) as int;
    if p < i {
        assert(s[p] != c);
    }
    if i < p {
        assert(s[i] != c);
    }
}

/// A text without the separator is the one field of itself.
pub proof fn lemma_split_one(s: Seq<char>, sep: char)
    requires
        forall|j: int| 0 <= j < s.len() ==> #[trigger] s[j] != sep,
    ensures
        split(s, sep) == seq![s],
{
    lemma_position_is(s, sep, s.len() as int);
}

/// Where `first` holds no separator, the fields of `first`, a separator and
/// `rest` are `first` and then the fields of `rest`.
pub proof fn lemma_split_cons(first: Seq<char>, rest: Seq<char>, sep: char)
    requires
        forall|j: int| 0 <= j < first.len() ==> #[trigger] first[j] != sep,
    ensures
        split(first.push(sep) + rest, sep) == seq![first] + split(rest, sep),
{
    let s = first.push(sep) + rest;
    lemma_position_is(s, sep, first.len() as int);
    assert(s.subrange(0, first.len() as int) =~= first);
    assert(s.subrange(first.len() as int + 1, s.len() as int) =~= rest);
}

/// The characters of `text`.
pub fn chars_of(text: &str) -> (chars: Vec<char>)
    ensures
        chars@ == text@,
{
    let mut chars: Vec<char> = Vec::new();
    for c in it: text.chars()
        invariant
            chars@ == text@.subrange(0, it.index() as int),
            it.seq() == text@,
    {
        chars.push(c);
    }
    chars
}

/// The index in `chars` at which `c` first stands at or after `from`, or the
/// length where it does not.
pub fn find_from(chars: &Vec<char>, from: usize, c: char) -> (at: usize)
    requires
        from <= chars.len(),
    ensures
        from <= at <= chars.len(),
        at - from == position(chars@.subrange(from as int, chars.len() as int), c),
{
    let ghost tail = chars@.subrange(from as int, chars.len() as int);
    let mut at: usize = from;
    while at < chars.len() && chars[at] != c
        invariant
            from <= at <= chars.len(),
            tail == chars@.subrange(from as int, chars.len() as int),
            forall|j: int| 0 <= j < at - from ==> #[trigger] tail[j] != c,
        decreases chars.len() - at,
    {
        at = at + 1;
    }
    proof {
        lemma_position_is(tail, c, at - from);
    }
    at
}

/// Where the fields of `chars` between the separators `sep` begin and end.
pub fn split_ranges(chars: &Vec<char>, sep: char) -> (ranges: Vec<(usize, usize)>)
    ensures
        ranges.len() == split(chars@, sep).len(),
        forall|k: int|
            0 <= k < ranges.len() ==> {
                &&& (#[trigger] ranges[k]).0 <= ranges[k].1 <= chars.len()
                &&& chars@.subrange(ranges[k].0 as int, ranges[k].1 as int) == split(chars@, sep)[k]
            },
{
    let n: usize = chars.len();
    let mut ranges: Vec<(usize, usize)> = Vec::new();
    let mut from: usize = 0;
    let ghost mut done: Seq<Seq<char>> = Seq::empty();
    assert(chars@.subrange(0, n as int) =~= chars@);
    loop
        invariant_except_break
            split(chars@, sep) == done + split(chars@.subrange(from as int, n as int), sep),
        invariant
            n == chars.len(),
            from <= n,
            ranges.len() == done.len(),
            forall|k: int|
                0 <= k < ranges.len() ==> {
                    &&& (#[trigger] ranges[k]).0 <= ranges[k].1 <= n
                    &&& chars@.subrange(ranges[k].0 as int, ranges[k].1 as int) == done[k]
                },
        ensures
            split(chars@, sep) == done,
        decreases n - from,
    {
        let at = find_from(chars, from, sep);
        let ghost tail = chars@.subrange(from as int, n as int);
        let ghost field = chars@.subrange(from as int, at as int);
        assert(tail.subrange(0, at - from) =~= field);
        ranges.push((from, at));
        proof {
            done = done.push(field);
        }
        if at == n {
            assert(split(chars@, sep) =~= done);
            break ;
        }
        assert(tail.subrange(at - from + 1, tail.len() as int) =~= chars@.subrange(at + 1, n as int));
        assert(split(chars@, sep) =~= done + split(chars@.subrange(at + 1, n as int), sep));
        from = at + 1;
    }
    ranges
}

/// `parts[from..to]` joined into one text, with `sep` between neighbours.
pub fn join_range(parts: &Vec<String>, from: usize, to: usize, sep: &str) -> (joined: String)
    requires
        from <= to <= parts.len(),
        sep@.len() == 1,
    ensures
        joined@ == join(parts.deep_view().subrange(from as int, to as int), sep@[0]),
{
    let ghost texts = parts.deep_view();
    let mut joined = String::new();
    let mut i: usize = from;
    assert(join(texts.subrange(from as int, from as int), sep@[0]) =~= Seq::<char>::empty());
    while i < to
        invariant
            from <= i <= to <= parts.len(),
            texts == parts.deep_view(),
            sep@.len() == 1,
            joined@ == join(texts.subrange(from as int, i as int), sep@[0]),
        decreases to - i,
    {
        let ghost done = texts.subrange(from as int, i as int);
        let ghost next = texts.subrange(from as int, i + 1);
        assert(next.drop_last() =~= done);
        assert(next.last() == parts[i as int]@);
        if i > from {
            joined.append(sep);
            assert(joined@ =~= join(done, sep@[0]).push(sep@[0]));
        } else {
            assert(done.len() == 0);
        }
        joined.append(parts[i].as_str());
        assert(joined@ =~= join(next, sep@[0]));
        i = i + 1;
    }
    joined
}

} // verus!

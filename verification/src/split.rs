//! Text that a separator divides into fields: splitting it at a character
//! and joining parts with a text between them.

use vstd::prelude::*;

verus! {

/// The index of the first occurrence of `x` in `s`, or the length of `s`
/// where there is none.
pub open spec fn position<A>(s: Seq<A>, x: A) -> int
    decreases s.len(),
{
    if s.len() == 0 || s.first() == x {
        0
    } else {
        1 + position(s.drop_first(), x)
    }
}

/// The fields of `s`: the stretches between one occurrence of `sep` and the
/// next, in order. There is always one field more than there are separators.
pub open spec fn split(s: Seq<char>, sep: char) -> Seq<Seq<char>>
    decreases s.len(),
{
    let i = position(s, sep);
    if 0 <= i < s.len() {
        seq![s.take(i)] + split(s.skip(i + 1), sep)
    } else {
        seq![s]
    }
}

/// `parts` in one text, with `sep` between each two of them.
pub open spec fn join(parts: Seq<Seq<char>>, sep: Seq<char>) -> Seq<char>
    decreases parts.len(),
{
    if parts.len() == 0 {
        Seq::empty()
    } else if parts.len() == 1 {
        parts[0]
    } else {
        join(parts.drop_last(), sep) + sep + parts.last()
    }
}

/// Writes `parts` as one text, with `sep` between each two of them.
pub fn join_texts(parts: &Vec<String>, sep: &str) -> (text: String)
    ensures
        text@ == join(parts.deep_view(), sep@),
{
    let ghost all = parts.deep_view();
    let mut text = String::new();
    let mut i: usize = 0;
    while i < parts.len()
        invariant
            i <= parts.len(),
            all == parts.deep_view(),
            text@ == join(all.take(i as int), sep@),
        decreases parts.len() - i,
    {
        if i > 0 {
            text.append(sep);
        }
        text.append(parts[i].as_str());
        proof {
            let upto = all.take(i + 1);
            assert(upto.drop_last() =~= all.take(i as int));
            assert(upto.last() == parts[i as int]@);
            if i == 0 {
                assert(Seq::<char>::empty() + upto.last() =~= upto.last());
            }
        }
        i += 1;
    }
    proof {
        assert(all.take(i as int) =~= all);
    }
    text
}

/// `position` is within bounds, nothing before it equals `x`, and it is the
/// length exactly when `x` does not occur.
pub proof fn lemma_position<A>(s: Seq<A>, x: A)
    ensures
        0 <= position(s, x) <= s.len(),
        forall|i: int| 0 <= i < position(s, x) ==> #[trigger] s[i] != x,
        position(s, x) < s.len() ==> s[position(s, x)] == x,
        position(s, x) == s.len() <==> !s.contains(x),
    decreases s.len(),
{
    if s.len() == 0 || s.first() == x {
    } else {
        let rest = s.drop_first();
        lemma_position(rest, x);
        assert forall|i: int| 0 <= i < position(s, x) implies #[trigger] s[i] != x by {
            if i > 0 {
                assert(s[i] == rest[i - 1]);
            }
        }
        if position(s, x) < s.len() {
            assert(s[position(s, x)] == rest[position(rest, x)]);
        }
    }
    if s.contains(x) {
        let i = choose|i: int| 0 <= i < s.len() && s[i] == x;
        assert(position(s, x) <= i);
    }
}

/// The first index at which `x` stands is its position.
pub proof fn lemma_position_is<A>(s: Seq<A>, x: A, k: int)
    requires
        0 <= k <= s.len(),
        forall|i: int| 0 <= i < k ==> #[trigger] s[i] != x,
        k < s.len() ==> s[k] == x,
    ensures
        position(s, x) == k,
{
    lemma_position(s, x);
    let p = position(s, x);
    if p < k {
        assert(s[p] != x);
    } else if k < p {
        assert(s[k] != x);
    }
}

/// Text without a separator is a single field.
pub proof fn lemma_split_single(s: Seq<char>, sep: char)
    requires
        !s.contains(sep),
    ensures
        split(s, sep) == seq![s],
{
    lemma_position(s, sep);
}

/// Splitting at the first separator: the field in front of it, then the
/// fields of what follows it.
pub proof fn lemma_split_first(s: Seq<char>, sep: char, k: int)
    requires
        0 <= k < s.len(),
        s[k] == sep,
        forall|i: int| 0 <= i < k ==> #[trigger] s[i] != sep,
    ensures
        split(s, sep) == seq![s.take(k)] + split(s.skip(k + 1), sep),
{
    lemma_position_is(s, sep, k);
}

/// There is at least one field, and no field holds the separator.
pub proof fn lemma_split_fields(s: Seq<char>, sep: char)
    ensures
        split(s, sep).len() >= 1,
        forall|i: int| 0 <= i < split(s, sep).len() ==> !(#[trigger] split(s, sep)[i]).contains(sep),
    decreases s.len(),
{
    lemma_position(s, sep);
    let at = position(s, sep);
    if at < s.len() {
        let head = s.take(at);
        let rest = split(s.skip(at + 1), sep);
        lemma_split_fields(s.skip(at + 1), sep);
        assert(!head.contains(sep)) by {
            if head.contains(sep) {
                let j = choose|j: int| 0 <= j < head.len() && head[j] == sep;
                assert(s[j] == sep);
            }
        }
        assert forall|i: int| 0 <= i < split(s, sep).len() implies !(#[trigger] split(
            s,
            sep,
        )[i]).contains(sep) by {
            if i > 0 {
                assert(split(s, sep)[i] == rest[i - 1]);
            }
        }
    }
}

/// Splitting goes through a separator: the fields of `a`, then those of `b`.
pub proof fn lemma_split_concat(a: Seq<char>, b: Seq<char>, sep: char)
    ensures
        split(a.push(sep) + b, sep) == split(a, sep) + split(b, sep),
    decreases a.len(),
{
    let s = a.push(sep) + b;
    lemma_position(a, sep);
    let at = position(a, sep);
    assert forall|i: int| 0 <= i < at implies #[trigger] s[i] != sep by {
        assert(s[i] == a[i]);
    }
    lemma_split_first(s, sep, at);
    assert(s.take(at) =~= a.take(at));
    if at < a.len() {
        let tail = a.skip(at + 1);
        assert(s.skip(at + 1) =~= tail.push(sep) + b);
        lemma_split_concat(tail, b, sep);
        assert(seq![a.take(at)] + (split(tail, sep) + split(b, sep)) =~= (seq![a.take(at)] + split(
            tail,
            sep,
        )) + split(b, sep));
    } else {
        assert(s.skip(at + 1) =~= b);
        assert(a.take(at) =~= a);
    }
}

/// Joining with a separator and then splitting at it gives the parts back,
/// where there is at least one and none of them holds the separator.
pub proof fn lemma_split_join(parts: Seq<Seq<char>>, sep: char)
    requires
        parts.len() > 0,
        forall|i: int| 0 <= i < parts.len() ==> !(#[trigger] parts[i]).contains(sep),
    ensures
        split(join(parts, seq![sep]), sep) == parts,
    decreases parts.len(),
{
    if parts.len() == 1 {
        lemma_split_single(parts[0], sep);
        assert(seq![parts[0]] =~= parts);
    } else {
        let front = parts.drop_last();
        assert forall|i: int| 0 <= i < front.len() implies !(#[trigger] front[i]).contains(sep) by {
            assert(front[i] == parts[i]);
        }
        lemma_split_join(front, sep);
        lemma_split_concat(join(front, seq![sep]), parts.last(), sep);
        lemma_split_single(parts.last(), sep);
        assert(join(front, seq![sep]) + seq![sep] =~= join(front, seq![sep]).push(sep));
        assert(front + seq![parts.last()] =~= parts);
    }
}

/// A joined text is at least as long as its last part.
pub proof fn lemma_join_len(parts: Seq<Seq<char>>, sep: Seq<char>)
    requires
        parts.len() > 0,
    ensures
        join(parts, sep).len() >= parts.last().len(),
{
}

} // verus!

//! Text as sequences of characters: comparison, prefixes and fields.
//!
//! Positions and lengths count characters (Unicode scalar values), never bytes.

use vstd::prelude::*;
use vstd::std_specs::iter::IteratorSpec;
use vstd::string::*;

verus! {

/// The fields of `s` when it is cut at every `sep`.
///
/// Reading `s` from left to right, a separator closes the current field and
/// opens a new, empty one; any other character is added to the current field.
/// There is always at least one field.
pub open spec fn split(s: Seq<char>, sep: char) -> Seq<Seq<char>>
    decreases s.len(),
{
    if s.len() == 0 {
        seq![Seq::empty()]
    } else {
        let fields = split(s.drop_last(), sep);
        if s.last() == sep {
            fields.push(Seq::empty())
        } else {
            fields.drop_last().push(fields.last().push(s.last()))
        }
    }
}

/// The fields written one after the other with `sep` between neighbours.
pub open spec fn join(fields: Seq<Seq<char>>, sep: char) -> Seq<char>
    decreases fields.len(),
{
    if fields.len() == 0 {
        Seq::empty()
    } else if fields.len() == 1 {
        fields[0]
    } else {
        join(fields.drop_last(), sep).push(sep) + fields.last()
    }
}

/// Whether no field holds the separator.
pub open spec fn free_of(fields: Seq<Seq<char>>, sep: char) -> bool {
    forall|k: int| 0 <= k < fields.len() ==> !(#[trigger] fields[k]).contains(sep)
}

/// Splitting loses nothing: the fields are free of the separator, and joining
/// them gives the text back.
pub proof fn lemma_split_join(s: Seq<char>, sep: char)
    ensures
        split(s, sep).len() >= 1,
        free_of(split(s, sep), sep),
        join(split(s, sep), sep) == s,
    decreases s.len(),
{
    if s.len() == 0 {
        assert(join(split(s, sep), sep) =~= s);
    } else {
        let init = s.drop_last();
        let fields = split(init, sep);
        lemma_split_join(init, sep);
        assert(s =~= init.push(s.last()));
        if s.last() == sep {
            let next = fields.push(Seq::empty());
            assert(next.drop_last() =~= fields);
            assert(join(next, sep) =~= join(fields, sep).push(sep));
        } else {
            let grown = fields.last().push(s.last());
            let next = fields.drop_last().push(grown);
            assert forall|k: int| 0 <= k < next.len() implies !(#[trigger] next[k]).contains(
                sep,
            ) by {
                if k == next.len() - 1 {
                    assert(!fields.last().contains(sep));
                    assert forall|j: int| 0 <= j < grown.len() implies grown[j] != sep by {
                        if j < fields.last().len() {
                            assert(fields.last()[j] == grown[j]);
                        }
                    }
                } else {
                    assert(next[k] == fields[k]);
                }
            }
            assert(next.drop_last() =~= fields.drop_last());
            assert(join(next, sep) =~= join(fields, sep).push(s.last()));
        }
    }
}

/// Splitting a text that ends in a field free of the separator: the field
/// comes out last, after the fields of what stands before its separator.
proof fn lemma_split_last_field(head: Seq<char>, tail: Seq<char>, sep: char)
    requires
        !tail.contains(sep),
    ensures
        split(head.push(sep) + tail, sep) == split(head, sep).push(tail),
    decreases tail.len(),
{
    let s = head.push(sep) + tail;
    if tail.len() == 0 {
        assert(s.drop_last() =~= head);
        assert(tail =~= Seq::empty());
    } else {
        let shorter = tail.drop_last();
        assert forall|j: int| 0 <= j < shorter.len() implies shorter[j] != sep by {
            assert(tail[j] == shorter[j]);
        }
        lemma_split_last_field(head, shorter, sep);
        assert(s.drop_last() =~= head.push(sep) + shorter);
        assert(tail[tail.len() - 1] != sep);
        let fields = split(head, sep).push(shorter);
        assert(fields.drop_last() =~= split(head, sep));
        assert(shorter.push(tail.last()) =~= tail);
    }
}

/// A text free of the separator is its own single field.
proof fn lemma_split_single_field(s: Seq<char>, sep: char)
    requires
        !s.contains(sep),
    ensures
        split(s, sep) == seq![s],
    decreases s.len(),
{
    if s.len() == 0 {
        assert(s =~= Seq::empty());
    } else {
        let shorter = s.drop_last();
        assert forall|j: int| 0 <= j < shorter.len() implies shorter[j] != sep by {
            assert(s[j] == shorter[j]);
        }
        lemma_split_single_field(shorter, sep);
        assert(s[s.len() - 1] != sep);
        assert(seq![shorter].drop_last().push(shorter.push(s.last())) =~= seq![s]) by {
            assert(shorter.push(s.last()) =~= s);
        }
    }
}

/// Joining loses nothing either: fields that are free of the separator come
/// back, one for one, when their joined text is split.
pub proof fn lemma_join_split(fields: Seq<Seq<char>>, sep: char)
    requires
        fields.len() >= 1,
        free_of(fields, sep),
    ensures
        split(join(fields, sep), sep) == fields,
    decreases fields.len(),
{
    if fields.len() == 1 {
        lemma_split_single_field(fields[0], sep);
        assert(fields =~= seq![fields[0]]);
    } else {
        let init = fields.drop_last();
        assert forall|k: int| 0 <= k < init.len() implies !(#[trigger] init[k]).contains(sep) by {
            assert(init[k] == fields[k]);
        }
        lemma_join_split(init, sep);
        lemma_split_last_field(join(init, sep), fields.last(), sep);
        assert(init.push(fields.last()) =~= fields);
    }
}

/// Whether two texts hold the same characters.
pub fn same_text(a: &str, b: &str) -> (same: bool)
    ensures
        same == (a@ == b@),
{
    broadcast use vstd::string::group_string_axioms;

    let mut x = a.chars();
    let mut y = b.chars();
    let ghost mut i: int = 0;
    loop
        invariant
            0 <= i <= a@.len(),
            i <= b@.len(),
            x.obeys_prophetic_iter_laws(),
            y.obeys_prophetic_iter_laws(),
            x.remaining() == a@.skip(i),
            y.remaining() == b@.skip(i),
            a@.take(i) == b@.take(i),
        decreases a@.len() - i,
    {
        let p = x.next();
        let q = y.next();
        match (p, q) {
            (None, None) => {
                assert(a@ == a@.take(i));
                assert(b@ == b@.take(i));
                return true;
            },
            (Some(c), Some(d)) => {
                if c != d {
                    assert(a@[i] != b@[i]);
                    return false;
                }
                assert(a@.take(i + 1) == a@.take(i).push(a@[i]));
                assert(b@.take(i + 1) == b@.take(i).push(b@[i]));
            },
            _ => {
                assert(a@.len() != b@.len());
                return false;
            },
        }
        proof {
            assert(a@.skip(i).drop_first() == a@.skip(i + 1));
            assert(b@.skip(i).drop_first() == b@.skip(i + 1));
            i = i + 1;
        }
    }
}

/// What follows `prefix` in `s`, or `None` where `s` does not begin with it.
pub fn strip_prefix<'a>(s: &'a str, prefix: &str) -> (rest: Option<&'a str>)
    ensures
        match rest {
            Some(r) => prefix@.is_prefix_of(s@) && r@ == s@.skip(prefix@.len() as int),
            None => !prefix@.is_prefix_of(s@),
        },
{
    let n = s.unicode_len();
    let p = prefix.unicode_len();
    if p > n {
        return None;
    }
    if same_text(s.substring_char(0, p), prefix) {
        Some(s.substring_char(p, n))
    } else {
        None
    }
}

/// The three fields of `s`, or `None` where cutting `s` at every `sep` gives
/// another number of fields.
pub fn split_three<'a>(s: &'a str, sep: char) -> (fields: Option<(&'a str, &'a str, &'a str)>)
    ensures
        match fields {
            Some((a, b, c)) => split(s@, sep) == seq![a@, b@, c@],
            None => split(s@, sep).len() != 3,
        },
{
    broadcast use vstd::string::group_string_axioms;

    let n = s.unicode_len();
    let mut seps: usize = 0;
    let mut first: usize = 0;
    let mut second: usize = 0;
    let mut i: usize = 0;
    for c in it: s.chars()
        invariant
            it.seq() == s@,
            n == s@.len(),
            i == it.index(),
            split(s@.take(i as int), sep).len() == seps + 1,
            seps <= i,
            seps >= 1 ==> first < i && split(s@.take(i as int), sep)[0] == s@.subrange(
                0,
                first as int,
            ),
            seps == 1 ==> split(s@.take(i as int), sep)[1] == s@.subrange(first + 1, i as int),
            seps >= 2 ==> first < second < i && split(s@.take(i as int), sep)[1] == s@.subrange(
                first + 1,
                second as int,
            ),
            seps == 2 ==> split(s@.take(i as int), sep)[2] == s@.subrange(second + 1, i as int),
            seps == 0 ==> split(s@.take(i as int), sep)[0] == s@.take(i as int),
    {
        proof {
            let upto = s@.take(i + 1);
            assert(upto.drop_last() =~= s@.take(i as int));
            assert(upto.last() == c);
            if c != sep {
                assert(s@.take(i as int).push(c) =~= s@.take(i + 1));
                if seps == 1 {
                    assert(s@.subrange(first + 1, i as int).push(c) =~= s@.subrange(
                        first + 1,
                        i + 1,
                    ));
                }
                if seps == 2 {
                    assert(s@.subrange(second + 1, i as int).push(c) =~= s@.subrange(
                        second + 1,
                        i + 1,
                    ));
                }
            } else {
                assert(s@.subrange(i + 1, i + 1) =~= Seq::empty());
                assert(s@.take(i as int) =~= s@.subrange(0, i as int));
            }
        }
        if c == sep {
            if seps == 0 {
                first = i;
            } else if seps == 1 {
                second = i;
            }
            seps = seps + 1;
        }
        i = i + 1;
    }
    assert(s@.take(i as int) =~= s@);
    if seps == 2 {
        let a = s.substring_char(0, first);
        let b = s.substring_char(first + 1, second);
        let c = s.substring_char(second + 1, n);
        assert(split(s@, sep) =~= seq![a@, b@, c@]);
        Some((a, b, c))
    } else {
        None
    }
}

} // verus!

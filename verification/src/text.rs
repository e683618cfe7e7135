use vstd::prelude::*;
use vstd::std_specs::iter::IteratorSpec;

verus! {

broadcast use vstd::string::group_string_axioms;

/// Whether two strings hold the same characters.
pub fn str_equal(a: &str, b: &str) -> (same: bool)
    ensures
        same == (a@ == b@),
{
    let mut left = a.chars();
    let mut right = b.chars();
    let ghost mut n: int = 0;
    loop
        invariant
            0 <= n <= a@.len(),
            n <= b@.len(),
            left.obeys_prophetic_iter_laws(),
            right.obeys_prophetic_iter_laws(),
            left.remaining() == a@.skip(n),
            right.remaining() == b@.skip(n),
            a@.take(n) == b@.take(n),
        decreases a@.len() - n,
    {
        let x = left.next();
        let y = right.next();
        match (x, y) {
            (None, None) => {
                assert(a@.take(n) == a@ && b@.take(n) == b@);
                return true;
            },
            (Some(c), Some(d)) => {
                if c != d {
                    assert(a@[n] != b@[n]);
                    return false;
                }
                proof {
                    assert(a@.take(n + 1) =~= a@.take(n).push(c));
                    assert(b@.take(n + 1) =~= b@.take(n).push(d));
                    n = n + 1;
                }
            },
            _ => {
                assert(a@.len() != b@.len());
                return false;
            },
        }
    }
}

/// The first place where `mark` stands in `text`.
pub open spec fn first_index(text: Seq<char>, mark: char) -> int {
    choose|i: int|
        0 <= i < text.len() && text[i] == mark && forall|j: int| 0 <= j < i ==> text[j] != mark
}

/// `text` cut in two at the first `mark`, which belongs to neither part;
/// `None` where `text` holds no `mark`.
pub open spec fn split_at_first(text: Seq<char>, mark: char) -> Option<(Seq<char>, Seq<char>)> {
    if text.contains(mark) {
        Some((text.take(first_index(text, mark)), text.skip(first_index(text, mark) + 1)))
    } else {
        None
    }
}

/// What follows `prefix` in `text`; `None` where `text` does not begin with
/// `prefix`.
pub open spec fn without_prefix(text: Seq<char>, prefix: Seq<char>) -> Option<Seq<char>> {
    if prefix.is_prefix_of(text) {
        Some(text.skip(prefix.len() as int))
    } else {
        None
    }
}

/// The first `mark` is where a `mark` stands with none before it.
pub proof fn lemma_first_index(text: Seq<char>, mark: char, i: int)
    requires
        0 <= i < text.len(),
        text[i] == mark,
        forall|j: int| 0 <= j < i ==> text[j] != mark,
    ensures
        text.contains(mark),
        first_index(text, mark) == i,
{
    let k = first_index(text, mark);
    if k < i {
        assert(text[k] != mark);
    } else if i < k {
        assert(text[i] != mark);
    }
}

/// Takes `prefix` off the front of `text`.
pub fn strip_prefix<'a>(text: &'a str, prefix: &str) -> (rest: Option<&'a str>)
    ensures
        match rest {
            Some(r) => without_prefix(text@, prefix@) == Some(r@),
            None => without_prefix(text@, prefix@) is None,
        },
{
    let total = text.unicode_len();
    let mut left = text.chars();
    let mut right = prefix.chars();
    let mut n: usize = 0;
    loop
        invariant
            0 <= n <= prefix@.len(),
            n <= text@.len(),
            total == text@.len(),
            left.obeys_prophetic_iter_laws(),
            right.obeys_prophetic_iter_laws(),
            left.remaining() == text@.skip(n as int),
            right.remaining() == prefix@.skip(n as int),
            text@.take(n as int) == prefix@.take(n as int),
        decreases prefix@.len() - n,
    {
        match right.next() {
            None => {
                assert(prefix@.take(n as int) == prefix@);
                return Some(text.substring_char(n, total));
            },
            Some(c) => {
                match left.next() {
                    None => {
                        return None;
                    },
                    Some(d) => {
                        if c != d {
                            assert(text@[n as int] != prefix@[n as int]);
                            return None;
                        }
                        proof {
                            assert(text@.take(n + 1) =~= text@.take(n as int).push(d));
                            assert(prefix@.take(n + 1) =~= prefix@.take(n as int).push(c));
                        }
                        n += 1;
                    },
                }
            },
        }
    }
}

/// Cuts `text` in two at the first `mark`.
pub fn split_once<'a>(text: &'a str, mark: char) -> (parts: Option<(&'a str, &'a str)>)
    ensures
        match parts {
            Some((head, tail)) => split_at_first(text@, mark) == Some((head@, tail@)),
            None => split_at_first(text@, mark) is None,
        },
{
    let total = text.unicode_len();
    let mut rest = text.chars();
    let mut n: usize = 0;
    loop
        invariant
            0 <= n <= text@.len(),
            total == text@.len(),
            rest.obeys_prophetic_iter_laws(),
            rest.remaining() == text@.skip(n as int),
            forall|j: int| 0 <= j < n ==> text@[j] != mark,
        decreases text@.len() - n,
    {
        match rest.next() {
            None => {
                return None;
            },
            Some(c) => {
                if c == mark {
                    proof {
                        lemma_first_index(text@, mark, n as int);
                    }
                    let head = text.substring_char(0, n);
                    let tail = text.substring_char(n + 1, total);
                    assert(head@ =~= text@.take(n as int));
                    assert(tail@ =~= text@.skip(n + 1));
                    return Some((head, tail));
                }
                n += 1;
            },
        }
    }
}

} // verus!

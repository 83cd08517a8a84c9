//! Small helpers on text, stated over sequences of characters.

use vstd::prelude::*;

verus! {

/// The characters of `text`, in order.
pub fn chars_of(text: &str) -> (chars: Vec<char>)
    ensures
        chars@ == text@,
{
    let mut chars: Vec<char> = Vec::new();
    for c in it: text.chars()
        invariant
            it.seq() == text@,
            chars@ == text@.take(it.index() as int),
    {
        chars.push(c);
        assert(text@.take(it.index() + 1) == text@.take(it.index() as int).push(c));
    }
    assert(text@.take(text@.len() as int) == text@);
    chars
}

/// The position of the first `wanted` in `chars` at or after `from`, or the
/// length of `chars` where there is none.
pub open spec fn find_from(chars: Seq<char>, wanted: char, from: int) -> int
    decreases chars.len() - from,
{
    if from >= chars.len() {
        chars.len() as int
    } else if chars[from] == wanted {
        from
    } else {
        find_from(chars, wanted, from + 1)
    }
}

/// `find_from` stays within the text, stops on `wanted`, and skips nothing.
pub proof fn lemma_find_from(chars: Seq<char>, wanted: char, from: int)
    requires
        0 <= from <= chars.len(),
    ensures
        from <= find_from(chars, wanted, from) <= chars.len(),
        find_from(chars, wanted, from) < chars.len() ==> chars[find_from(chars, wanted, from)]
            == wanted,
        forall|i: int| from <= i < find_from(chars, wanted, from) ==> chars[i] != wanted,
    decreases chars.len() - from,
{
    if from < chars.len() && chars[from] != wanted {
        lemma_find_from(chars, wanted, from + 1);
    }
}

/// Finds the first `wanted` in `chars` at or after `from`.
pub fn find(chars: &Vec<char>, wanted: char, from: usize) -> (at: usize)
    requires
        from <= chars.len(),
    ensures
        at == find_from(chars@, wanted, from as int),
        from <= at <= chars.len(),
{
    let mut at: usize = from;
    while at < chars.len() && chars[at] != wanted
        invariant
            from <= at <= chars.len(),
            find_from(chars@, wanted, from as int) == find_from(chars@, wanted, at as int),
        decreases chars.len() - at,
    {
        at = at + 1;
    }
    proof {
        lemma_find_from(chars@, wanted, at as int);
    }
    at
}

} // verus!

//! Splitting a character sequence on `'.'`, the way an iterator over
//! dot-separated substrings yields them: a dot ends the token before it,
//! and the empty input still yields one empty token.

use vstd::prelude::*;

verus! {

/// The sequence of tokens obtained by splitting `s` on every `'.'`.
pub open spec fn spec_split_dots(s: Seq<char>) -> Seq<Seq<char>>
    decreases s.len(),
{
    if s.len() == 0 {
        seq![Seq::<char>::empty()]
    } else if s[0] == '.' {
        seq![Seq::<char>::empty()] + spec_split_dots(s.skip(1))
    } else {
        let rest = spec_split_dots(s.skip(1));
        rest.update(0, seq![s[0]] + rest[0])
    }
}

/// Splitting always yields at least one token.
pub proof fn lemma_split_dots_nonempty(s: Seq<char>)
    ensures
        spec_split_dots(s).len() >= 1,
    decreases s.len(),
{
    if s.len() != 0 {
        lemma_split_dots_nonempty(s.skip(1));
    }
}

/// Without a dot, the whole input is the one and only token.
pub proof fn lemma_split_dots_no_dot(s: Seq<char>)
    requires
        forall|j: int| 0 <= j < s.len() ==> s[j] != '.',
    ensures
        spec_split_dots(s) =~~= seq![s],
    decreases s.len(),
{
    if s.len() != 0 {
        lemma_split_dots_no_dot(s.skip(1));
        assert(seq![s[0]] + s.skip(1) =~= s);
    }
}

/// At the first dot, the split is the prefix before it, then the split
/// of everything after it.
pub proof fn lemma_split_dots_first_dot(s: Seq<char>, i: int)
    requires
        0 <= i < s.len(),
        s[i] == '.',
        forall|j: int| 0 <= j < i ==> s[j] != '.',
    ensures
        spec_split_dots(s) =~~= seq![s.take(i)] + spec_split_dots(s.skip(i + 1)),
    decreases i,
{
    if i == 0 {
        assert(s.take(0) =~= Seq::<char>::empty());
    } else {
        lemma_split_dots_first_dot(s.skip(1), i - 1);
        lemma_split_dots_nonempty(s.skip(1).skip(i));
        assert(s.skip(1).skip(i) =~= s.skip(i + 1));
        assert(seq![s[0]] + s.skip(1).take(i - 1) =~= s.take(i));
        assert(spec_split_dots(s) =~~= seq![s.take(i)] + spec_split_dots(s.skip(i + 1)));
    }
}

/// The index of the first dot at or after `from`, if there is one.
pub fn find_dot(s: &str, from: usize) -> (r: Option<usize>)
    requires
        from <= s@.len(),
    ensures
        match r {
            Some(i) => from <= i < s@.len() && s@[i as int] == '.' && (forall|j: int|
                from <= j < i ==> s@[j] != '.'),
            None => forall|j: int| from <= j < s@.len() ==> s@[j] != '.',
        },
{
    let n = s.unicode_len();
    let mut i: usize = from;
    while i < n
        invariant
            from <= i <= n,
            n == s@.len(),
            forall|j: int| from <= j < i ==> s@[j] != '.',
        decreases n - i,
    {
        if s.get_char(i) == '.' {
            return Some(i);
        }
        i += 1;
    }
    None
}

} // verus!

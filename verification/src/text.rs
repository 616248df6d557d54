//! Text helpers shared by the query compiler and the response messages.

use vstd::prelude::*;

verus! {

/// The character sequences of a sequence of strings.
pub open spec fn texts(strings: Seq<String>) -> Seq<Seq<char>> {
    strings.map_values(|s: String| s@)
}

/// The characters of an optional string.
pub open spec fn optional_text(text: Option<String>) -> Option<Seq<char>> {
    match text {
        Some(s) => Some(s@),
        None => None,
    }
}

/// `parts` laid end to end with `separator` between each neighbouring pair.
pub open spec fn join(parts: Seq<Seq<char>>, separator: Seq<char>) -> Seq<char>
    decreases parts.len(),
{
    if parts.len() == 0 {
        Seq::empty()
    } else if parts.len() == 1 {
        parts[0]
    } else {
        join(parts.drop_last(), separator) + separator + parts.last()
    }
}

/// Joining the first `n + 1` parts extends the join of the first `n` by the
/// separator (unless `n` is zero) and the part at `n`.
pub proof fn lemma_join_step(parts: Seq<Seq<char>>, separator: Seq<char>, n: int)
    requires
        0 <= n < parts.len(),
    ensures
        join(parts.take(n + 1), separator) == if n == 0 {
            parts[0]
        } else {
            join(parts.take(n), separator) + separator + parts[n]
        },
{
    let longer = parts.take(n + 1);
    assert(longer.last() == parts[n]);
    assert(longer.drop_last() =~= parts.take(n));
    if n == 0 {
        assert(longer[0] == parts[0]);
    }
}

/// Concatenates `parts`, placing `separator` between neighbours.
pub fn join_strings(parts: &Vec<String>, separator: &str) -> (joined: String)
    ensures
        joined@ == join(texts(parts@), separator@),
{
    let mut joined = String::new();
    let mut i: usize = 0;
    while i < parts.len()
        invariant
            i <= parts.len(),
            joined@ == join(texts(parts@).take(i as int), separator@),
        decreases parts.len() - i,
    {
        proof {
            lemma_join_step(texts(parts@), separator@, i as int);
        }
        if i > 0 {
            joined.append(separator);
        }
        joined.append(parts[i].as_str());
        i = i + 1;
    }
    assert(texts(parts@).take(parts.len() as int) =~= texts(parts@));
    joined
}

/// The characters of `text`, in order.
pub fn characters(text: &str) -> (chars: Vec<char>)
    ensures
        chars@ == text@,
{
    let mut chars: Vec<char> = Vec::new();
    for c in it: text.chars()
        invariant
            it.seq() == text@,
            chars@ == it.seq().take(it.index() as int),
    {
        proof {
            let n = it.index() as int;
            assert(it.seq().take(n + 1) =~= it.seq().take(n).push(c));
        }
        chars.push(c);
    }
    assert(text@.take(text@.len() as int) =~= text@);
    chars
}

/// Whether no two of `strings` hold the same characters.
pub fn all_distinct(strings: &Vec<String>) -> (distinct: bool)
    ensures
        distinct == texts(strings@).no_duplicates(),
{
    let ghost all = texts(strings@);
    let mut i: usize = 0;
    while i < strings.len()
        invariant
            i <= strings.len(),
            all == texts(strings@),
            forall|a: int, b: int| 0 <= a < b < i ==> all[a] != all[b],
        decreases strings.len() - i,
    {
        let mut j: usize = 0;
        while j < i
            invariant
                j <= i < strings.len(),
                all == texts(strings@),
                forall|a: int| 0 <= a < j ==> all[a] != all[i as int],
            decreases i - j,
        {
            if strings[j] == strings[i] {
                assert(all[j as int] == all[i as int]);
                return false;
            }
            j = j + 1;
        }
        i = i + 1;
    }
    true
}

} // verus!

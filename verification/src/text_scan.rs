//! Searching and trimming in a vector of characters.

use vstd::prelude::*;
use crate::text::{
    first_index_of, is_white_space, last_index_of, replaced, string_from, trim_end, trim_start,
    trimmed, white_space, word_len, words,
};

verus! {

/// Where the last occurrence of a character is.
pub fn find_last(text: &Vec<char>, wanted: char) -> (place: Option<usize>)
    ensures
        place is Some <==> last_index_of(text@, wanted) is Some,
        place is Some ==> place->Some_0 == last_index_of(text@, wanted)->Some_0
            && place->Some_0 < text.len() && text@[place->Some_0 as int] == wanted,
{
    let mut i: usize = text.len();
    proof {
        assert(text@.take(i as int) =~= text@);
    }
    while i > 0
        invariant
            i <= text.len(),
            last_index_of(text@, wanted) == last_index_of(text@.take(i as int), wanted),
        decreases i,
    {
        proof {
            assert(text@.take(i as int).drop_last() =~= text@.take(i - 1));
        }
        if text[i - 1] == wanted {
            return Some(i - 1);
        }
        i -= 1;
    }
    None
}

/// Where the first occurrence of a character in `text[from..to]` is.
pub fn find_first(text: &Vec<char>, from: usize, to: usize, wanted: char) -> (place: Option<
    usize,
>)
    requires
        from <= to <= text.len(),
    ensures
        place is Some <==> first_index_of(text@.subrange(from as int, to as int), wanted) is Some,
        place is Some ==> place->Some_0 == from + first_index_of(
            text@.subrange(from as int, to as int),
            wanted,
        )->Some_0 && from <= place->Some_0 < to,
    decreases to - from,
{
    let ghost part = text@.subrange(from as int, to as int);
    if from == to {
        None
    } else if text[from] == wanted {
        Some(from)
    } else {
        proof {
            assert(part.drop_first() =~= text@.subrange(from + 1, to as int));
        }
        find_first(text, from + 1, to, wanted)
    }
}

/// The bounds of `text[from..to]` without the white space at its start and end.
pub fn trim_bounds(text: &Vec<char>, from: usize, to: usize) -> (bounds: (usize, usize))
    requires
        from <= to <= text.len(),
    ensures
        from <= bounds.0 <= bounds.1 <= to,
        text@.subrange(bounds.0 as int, bounds.1 as int) == trimmed(
            text@.subrange(from as int, to as int),
        ),
{
    let mut start: usize = from;
    while start < to && white_space(text[start])
        invariant
            from <= start <= to <= text.len(),
            trim_start(text@.subrange(from as int, to as int)) == trim_start(
                text@.subrange(start as int, to as int),
            ),
        decreases to - start,
    {
        proof {
            assert(text@.subrange(start as int, to as int).drop_first() =~= text@.subrange(
                start + 1,
                to as int,
            ));
        }
        start += 1;
    }
    proof {
        let left = text@.subrange(start as int, to as int);
        assert(trim_start(left) == left);
    }
    let mut end: usize = to;
    while end > start && white_space(text[end - 1])
        invariant
            start <= end <= to <= text.len(),
            trimmed(text@.subrange(from as int, to as int)) == trim_end(
                text@.subrange(start as int, end as int),
            ),
        decreases end - start,
    {
        proof {
            assert(text@.subrange(start as int, end as int).drop_last() =~= text@.subrange(
                start as int,
                end - 1,
            ));
        }
        end -= 1;
    }
    proof {
        let kept = text@.subrange(start as int, end as int);
        assert(trim_end(kept) == kept);
    }
    (start, end)
}

/// The texts that a list of bounds cuts out of a text.
pub open spec fn cut_out(text: Seq<char>, bounds: Seq<(usize, usize)>) -> Seq<Seq<char>> {
    bounds.map_values(|bound: (usize, usize)| text.subrange(bound.0 as int, bound.1 as int))
}

/// The bounds lie in order within `from..to`.
pub open spec fn bounds_within(bounds: Seq<(usize, usize)>, from: int, to: int) -> bool {
    forall|i: int|
        0 <= i < bounds.len() ==> from <= (#[trigger] bounds[i]).0 <= bounds[i].1 <= to
}

proof fn lemma_word_len_is(text: Seq<char>, count: int)
    requires
        0 <= count <= text.len(),
        forall|i: int| 0 <= i < count ==> !is_white_space(#[trigger] text[i]),
        count < text.len() ==> is_white_space(text[count]),
    ensures
        word_len(text) == count,
    decreases count,
{
    if count > 0 {
        let rest = text.drop_first();
        assert forall|i: int| 0 <= i < count - 1 implies !is_white_space(#[trigger] rest[i]) by {
            assert(rest[i] == text[i + 1]);
        }
        lemma_word_len_is(rest, count - 1);
    }
}

/// The bounds of the words of `text[from..to]`.
pub fn split_words(text: &Vec<char>, from: usize, to: usize) -> (bounds: Vec<(usize, usize)>)
    requires
        from <= to <= text.len(),
    ensures
        cut_out(text@, bounds@) == words(text@.subrange(from as int, to as int)),
        bounds_within(bounds@, from as int, to as int),
{
    let mut bounds: Vec<(usize, usize)> = Vec::new();
    let mut i: usize = from;
    proof {
        assert(cut_out(text@, bounds@) + words(text@.subrange(from as int, to as int)) =~= words(
            text@.subrange(from as int, to as int),
        ));
    }
    while i < to
        invariant
            from <= i <= to <= text.len(),
            bounds_within(bounds@, from as int, to as int),
            cut_out(text@, bounds@) + words(text@.subrange(i as int, to as int)) == words(
                text@.subrange(from as int, to as int),
            ),
        decreases to - i,
    {
        let ghost rest = text@.subrange(i as int, to as int);
        if white_space(text[i]) {
            proof {
                assert(rest.drop_first() =~= text@.subrange(i + 1, to as int));
            }
            i += 1;
        } else {
            let mut end: usize = i + 1;
            while end < to && !white_space(text[end])
                invariant
                    i < end <= to <= text.len(),
                    forall|k: int| i <= k < end ==> !is_white_space(#[trigger] text@[k]),
                decreases to - end,
            {
                end += 1;
            }
            let ghost found = cut_out(text@, bounds@);
            bounds.push((i, end));
            proof {
                assert forall|k: int| 0 <= k < end - i implies !is_white_space(
                    #[trigger] rest[k],
                ) by {
                    assert(rest[k] == text@[i + k]);
                }
                lemma_word_len_is(rest, end - i);
                assert(rest.take(end - i) =~= text@.subrange(i as int, end as int));
                assert(rest.skip(end - i) =~= text@.subrange(end as int, to as int));
                assert(cut_out(text@, bounds@) =~= found + seq![
                    text@.subrange(i as int, end as int),
                ]);
                let later = words(text@.subrange(end as int, to as int));
                assert((found + seq![text@.subrange(i as int, end as int)]) + later =~= found + (
                seq![text@.subrange(i as int, end as int)] + later));
            }
            i = end;
        }
    }
    proof {
        assert(text@.subrange(to as int, to as int) =~= Seq::<char>::empty());
        assert(cut_out(text@, bounds@) + Seq::<Seq<char>>::empty() =~= cut_out(text@, bounds@));
    }
    bounds
}

/// Whether `text[from..to]` is the wanted text.
pub fn stretch_is(text: &Vec<char>, from: usize, to: usize, wanted: &Vec<char>) -> (same: bool)
    requires
        from <= to <= text.len(),
    ensures
        same == (text@.subrange(from as int, to as int) == wanted@),
{
    if to - from != wanted.len() {
        return false;
    }
    let mut k: usize = 0;
    while k < wanted.len()
        invariant
            k <= wanted.len(),
            from <= to <= text.len(),
            to - from == wanted.len(),
            forall|j: int| 0 <= j < k ==> text@[from + j] == #[trigger] wanted@[j],
        decreases wanted.len() - k,
    {
        if text[from + k] != wanted[k] {
            proof {
                assert(text@.subrange(from as int, to as int)[k as int] == text@[from + k]);
            }
            return false;
        }
        k += 1;
    }
    proof {
        assert(text@.subrange(from as int, to as int) =~= wanted@);
    }
    true
}

/// Whether `text[at..]` begins with the pattern.
pub fn starts_with_at(text: &Vec<char>, at: usize, pattern: &Vec<char>) -> (yes: bool)
    requires
        at <= text.len(),
    ensures
        yes == (text.len() - at >= pattern.len() && text@.subrange(
            at as int,
            at + pattern.len(),
        ) == pattern@),
{
    if text.len() - at < pattern.len() {
        return false;
    }
    let mut k: usize = 0;
    while k < pattern.len()
        invariant
            k <= pattern.len(),
            at + pattern.len() <= text.len(),
            text@.subrange(at as int, at + k) == pattern@.subrange(0, k as int),
        decreases pattern.len() - k,
    {
        if text[at + k] != pattern[k] {
            proof {
                let whole = text@.subrange(at as int, at + pattern.len());
                assert(whole[k as int] != pattern@[k as int]);
            }
            return false;
        }
        proof {
            assert(text@.subrange(at as int, at + k + 1) =~= text@.subrange(
                at as int,
                at + k,
            ).push(text@[at + k]));
            assert(pattern@.subrange(0, k + 1) =~= pattern@.subrange(0, k as int).push(
                pattern@[k as int],
            ));
        }
        k += 1;
    }
    proof {
        assert(pattern@.subrange(0, pattern.len() as int) =~= pattern@);
    }
    true
}


/// Whether the pattern stands somewhere in the text.
pub open spec fn holds(text: Seq<char>, pattern: Seq<char>) -> bool {
    exists|at: int|
        0 <= at && at + pattern.len() <= text.len() && #[trigger] text.subrange(
            at,
            at + pattern.len(),
        ) == pattern
}

/// Whether the pattern stands somewhere in the text.
pub fn contains(text: &Vec<char>, pattern: &Vec<char>) -> (found: bool)
    ensures
        found == holds(text@, pattern@),
{
    let mut at: usize = 0;
    loop
        invariant
            at <= text.len(),
            forall|k: int|
                0 <= k < at && k + pattern@.len() <= text@.len() ==> #[trigger] text@.subrange(
                    k,
                    k + pattern@.len(),
                ) != pattern@,
        decreases text.len() - at,
    {
        if starts_with_at(text, at, pattern) {
            return true;
        }
        if at == text.len() {
            return false;
        }
        at += 1;
    }
}

/// The text without the given character at its start.
pub open spec fn strip_start(text: Seq<char>, unwanted: char) -> Seq<char>
    decreases text.len(),
{
    if text.len() > 0 && text.first() == unwanted {
        strip_start(text.drop_first(), unwanted)
    } else {
        text
    }
}

/// The text without the given character at its end.
pub open spec fn strip_end(text: Seq<char>, unwanted: char) -> Seq<char>
    decreases text.len(),
{
    if text.len() > 0 && text.last() == unwanted {
        strip_end(text.drop_last(), unwanted)
    } else {
        text
    }
}

/// The text without the given character at its start and at its end.
pub open spec fn stripped(text: Seq<char>, unwanted: char) -> Seq<char> {
    strip_end(strip_start(text, unwanted), unwanted)
}

/// The bounds of `text[from..to]` without the given character at its start and
/// end.
pub fn strip_bounds(text: &Vec<char>, from: usize, to: usize, unwanted: char) -> (bounds: (
    usize,
    usize,
))
    requires
        from <= to <= text.len(),
    ensures
        from <= bounds.0 <= bounds.1 <= to,
        text@.subrange(bounds.0 as int, bounds.1 as int) == stripped(
            text@.subrange(from as int, to as int),
            unwanted,
        ),
{
    let mut start: usize = from;
    while start < to && text[start] == unwanted
        invariant
            from <= start <= to <= text.len(),
            strip_start(text@.subrange(from as int, to as int), unwanted) == strip_start(
                text@.subrange(start as int, to as int),
                unwanted,
            ),
        decreases to - start,
    {
        proof {
            assert(text@.subrange(start as int, to as int).drop_first() =~= text@.subrange(
                start + 1,
                to as int,
            ));
        }
        start += 1;
    }
    proof {
        let left = text@.subrange(start as int, to as int);
        assert(strip_start(left, unwanted) == left);
    }
    let mut end: usize = to;
    while end > start && text[end - 1] == unwanted
        invariant
            start <= end <= to <= text.len(),
            stripped(text@.subrange(from as int, to as int), unwanted) == strip_end(
                text@.subrange(start as int, end as int),
                unwanted,
            ),
        decreases end - start,
    {
        proof {
            assert(text@.subrange(start as int, end as int).drop_last() =~= text@.subrange(
                start as int,
                end - 1,
            ));
        }
        end -= 1;
    }
    proof {
        let kept = text@.subrange(start as int, end as int);
        assert(strip_end(kept, unwanted) == kept);
    }
    (start, end)
}

/// The text with every occurrence of a pattern that is not empty replaced.
pub fn replace_all(text: &Vec<char>, pattern: &Vec<char>, replacement: &Vec<char>) -> (made:
    String)
    ensures
        made@ == replaced(text@, pattern@, replacement@),
{
    if pattern.len() == 0 {
        proof {
            assert(text@.subrange(0, text@.len() as int) =~= text@);
        }
        return string_from(text, 0, text.len());
    }
    let mut made = String::new();
    let mut i: usize = 0;
    proof {
        assert(text@.subrange(0, text@.len() as int) =~= text@);
        assert(made@ + replaced(text@, pattern@, replacement@) =~= replaced(
            text@,
            pattern@,
            replacement@,
        ));
    }
    while i < text.len()
        invariant
            i <= text.len(),
            pattern.len() > 0,
            made@ + replaced(
                text@.subrange(i as int, text@.len() as int),
                pattern@,
                replacement@,
            ) == replaced(text@, pattern@, replacement@),
        decreases text.len() - i,
    {
        let ghost rest = text@.subrange(i as int, text@.len() as int);
        let ghost so_far = made@;
        if starts_with_at(text, i, pattern) {
            let mut k: usize = 0;
            while k < replacement.len()
                invariant
                    k <= replacement.len(),
                    made@ == so_far + replacement@.subrange(0, k as int),
                decreases replacement.len() - k,
            {
                made.push(replacement[k]);
                proof {
                    assert(made@ =~= so_far + replacement@.subrange(0, k + 1));
                }
                k += 1;
            }
            proof {
                assert(replacement@.subrange(0, replacement@.len() as int) =~= replacement@);
                assert(rest.subrange(0, pattern@.len() as int) =~= text@.subrange(
                    i as int,
                    i + pattern@.len(),
                ));
                let tail = text@.subrange(i + pattern@.len(), text@.len() as int);
                assert(rest.subrange(pattern@.len() as int, rest.len() as int) =~= tail);
                assert((so_far + replacement@) + replaced(tail, pattern@, replacement@)
                    =~= so_far + (replacement@ + replaced(tail, pattern@, replacement@)));
            }
            i += pattern.len();
        } else {
            made.push(text[i]);
            proof {
                let tail = text@.subrange(i + 1, text@.len() as int);
                if rest.len() >= pattern@.len() {
                    assert(rest.subrange(0, pattern@.len() as int) =~= text@.subrange(
                        i as int,
                        i + pattern@.len(),
                    ));
                    assert(rest.drop_first() =~= tail);
                    assert(so_far.push(text@[i as int]) + replaced(tail, pattern@, replacement@)
                        =~= so_far + (seq![rest.first()] + replaced(
                        tail,
                        pattern@,
                        replacement@,
                    )));
                } else {
                    assert(replaced(rest, pattern@, replacement@) == rest);
                    assert(replaced(tail, pattern@, replacement@) == tail);
                    assert(so_far.push(text@[i as int]) + tail =~= so_far + rest);
                }
            }
            i += 1;
        }
    }
    proof {
        assert(text@.subrange(text@.len() as int, text@.len() as int) =~= Seq::<char>::empty());
        assert(made@ + Seq::<char>::empty() =~= made@);
    }
    made
}

} // verus!

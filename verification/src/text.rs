//! Searching and replacing in text.

use vstd::prelude::*;

verus! {

/// Whether `pattern` stands in `text` at position `i`.
pub open spec fn occurs_at(text: Seq<char>, pattern: Seq<char>, i: int) -> bool {
    0 <= i <= text.len() - pattern.len() && text.subrange(i, i + pattern.len()) == pattern
}

/// Whether `pattern` stands anywhere in `text`.
pub open spec fn occurs(text: Seq<char>, pattern: Seq<char>) -> bool {
    exists|i: int| occurs_at(text, pattern, i)
}

/// `text` with every occurrence of `pattern`, from left to right and without overlap, replaced by
/// `to`. The pattern is not empty.
pub open spec fn replaced(text: Seq<char>, pattern: Seq<char>, to: Seq<char>) -> Seq<char>
    decreases text.len(),
{
    if pattern.len() == 0 || text.len() == 0 {
        text
    } else if occurs_at(text, pattern, 0) {
        to + replaced(text.skip(pattern.len() as int), pattern, to)
    } else {
        seq![text[0]] + replaced(text.skip(1), pattern, to)
    }
}

/// A pattern occurs in a text exactly where the text is something, then the pattern, then something.
pub proof fn lemma_occurs_between(text: Seq<char>, pattern: Seq<char>)
    ensures
        occurs(text, pattern) <==> exists|before: Seq<char>, after: Seq<char>|
            text == #[trigger] (before + pattern + after),
        forall|before: Seq<char>, after: Seq<char>|
            text == #[trigger] (before + pattern + after) ==> occurs_at(
                text,
                pattern,
                before.len() as int,
            ),
        forall|i: int|
            #[trigger] occurs_at(text, pattern, i) ==> 0 <= i && i + pattern.len() <= text.len()
                && text == text.take(i) + pattern + text.skip(i + pattern.len()),
{
    assert forall|before: Seq<char>, after: Seq<char>|
        text == #[trigger] (before + pattern + after) implies occurs_at(
        text,
        pattern,
        before.len() as int,
    ) by {
        let i = before.len() as int;
        assert(text.subrange(i, i + pattern.len()) =~= pattern);
    }
    assert forall|i: int| #[trigger] occurs_at(text, pattern, i) implies text == text.take(i)
        + pattern + text.skip(i + pattern.len()) by {
        assert(text =~= text.take(i) + text.subrange(i, i + pattern.len()) + text.skip(
            i + pattern.len(),
        ));
    }
}

/// A text without the pattern stays as it is.
pub proof fn lemma_replaced_without_pattern(text: Seq<char>, pattern: Seq<char>, to: Seq<char>)
    requires
        !occurs(text, pattern),
    ensures
        replaced(text, pattern, to) == text,
    decreases text.len(),
{
    if pattern.len() > 0 && text.len() > 0 {
        assert(!occurs_at(text, pattern, 0));
        assert forall|i: int| !occurs_at(text.skip(1), pattern, i) by {
            if occurs_at(text.skip(1), pattern, i) {
                assert(text.subrange(i + 1, i + 1 + pattern.len()) =~= text.skip(1).subrange(
                    i,
                    i + pattern.len(),
                ));
                assert(occurs_at(text, pattern, i + 1));
            }
        }
        lemma_replaced_without_pattern(text.skip(1), pattern, to);
        assert(seq![text[0]] + text.skip(1) =~= text);
    }
}

/// Replacement keeps what stands in front of the first occurrence, puts the new text in its place,
/// and goes on behind it.
pub proof fn lemma_replaced_first(text: Seq<char>, pattern: Seq<char>, to: Seq<char>, first: int)
    requires
        pattern.len() > 0,
        occurs_at(text, pattern, first),
        forall|i: int| 0 <= i < first ==> !occurs_at(text, pattern, i),
    ensures
        replaced(text, pattern, to) == text.take(first) + to + replaced(
            text.skip(first + pattern.len()),
            pattern,
            to,
        ),
    decreases first,
{
    let result = text.take(first) + to + replaced(
        text.skip(first + pattern.len()),
        pattern,
        to,
    );
    if first == 0 {
        assert(replaced(text, pattern, to) =~= result);
    } else {
        let rest = text.skip(1);
        assert(!occurs_at(text, pattern, 0));
        assert(rest.subrange(first - 1, first - 1 + pattern.len()) =~= text.subrange(
            first,
            first + pattern.len(),
        ));
        assert forall|i: int| 0 <= i < first - 1 implies !occurs_at(rest, pattern, i) by {
            if occurs_at(rest, pattern, i) {
                assert(text.subrange(i + 1, i + 1 + pattern.len()) =~= rest.subrange(
                    i,
                    i + pattern.len(),
                ));
                assert(occurs_at(text, pattern, i + 1));
            }
        }
        lemma_replaced_first(rest, pattern, to, first - 1);
        assert(rest.skip(first - 1 + pattern.len()) =~= text.skip(first + pattern.len()));
        assert(seq![text[0]] + rest.take(first - 1) =~= text.take(first));
        assert(replaced(text, pattern, to) =~= result);
    }
}

/// Where the first occurrence of the pattern stands between two texts, the new text takes its place
/// between the first of them, as it is, and the second, in which replacement goes on.
pub proof fn lemma_replaced_between(
    before: Seq<char>,
    pattern: Seq<char>,
    to: Seq<char>,
    after: Seq<char>,
)
    requires
        pattern.len() > 0,
        forall|i: int|
            0 <= i < before.len() ==> #[trigger] (before + pattern + after).subrange(
                i,
                i + pattern.len(),
            ) != pattern,
    ensures
        replaced(before + pattern + after, pattern, to) == before + to + replaced(
            after,
            pattern,
            to,
        ),
{
    let text = before + pattern + after;
    let first = before.len() as int;
    lemma_occurs_between(text, pattern);
    lemma_replaced_first(text, pattern, to, first);
    assert(text.take(first) =~= before);
    assert(text.skip(first + pattern.len()) =~= after);
}

/// Whether `pattern` may begin at position `k` of `text`, given that more may follow on the text.
pub open spec fn may_begin_at(text: Seq<char>, pattern: Seq<char>, k: int) -> bool {
    0 <= k < text.len() && forall|j: int|
        0 <= j < pattern.len() && k + j < text.len() ==> #[trigger] text[k + j] == pattern[j]
}

/// What a replaced text starts with, up to the first character that came in, the text itself starts
/// with.
proof fn lemma_replaced_start(
    text: Seq<char>,
    pattern: Seq<char>,
    to: Seq<char>,
    start: Seq<char>,
)
    requires
        pattern.len() > 0,
        to.len() > 0,
        !start.contains(to[0]),
        start.is_prefix_of(replaced(text, pattern, to)),
    ensures
        start.is_prefix_of(text),
    decreases text.len(),
{
    let result = replaced(text, pattern, to);
    if start.len() > 0 && text.len() > 0 {
        assert(start[0] == result[0]);
        if occurs_at(text, pattern, 0) {
            assert(result[0] == to[0]);
            assert(start.contains(start[0]));
        } else {
            let rest = start.skip(1);
            assert forall|i: int| 0 <= i < rest.len() implies rest[i] != to[0] by {
                assert(start.contains(start[i + 1]));
            }
            assert(rest =~= replaced(text.skip(1), pattern, to).take(rest.len() as int)) by {
                assert forall|i: int| 0 <= i < rest.len() implies rest[i] == replaced(
                    text.skip(1),
                    pattern,
                    to,
                )[i] by {
                    assert(start[i + 1] == result[i + 1]);
                }
            }
            lemma_replaced_start(text.skip(1), pattern, to, rest);
            assert forall|i: int| 0 <= i < start.len() implies start[i] == text[i] by {
                if i > 0 {
                    assert(rest[i - 1] == text.skip(1)[i - 1]);
                }
            }
            assert(start =~= text.take(start.len() as int));
        }
    }
}

/// Nothing of the pattern is left once it has been replaced by a text whose first character the
/// pattern does not hold and in which no pattern may begin.
pub proof fn lemma_replaced_removes_pattern(text: Seq<char>, pattern: Seq<char>, to: Seq<char>)
    requires
        pattern.len() > 0,
        to.len() > 0,
        !pattern.contains(to[0]),
        forall|k: int| !may_begin_at(to, pattern, k),
    ensures
        !occurs(replaced(text, pattern, to), pattern),
    decreases text.len(),
{
    let result = replaced(text, pattern, to);
    if text.len() > 0 {
        let found = occurs_at(text, pattern, 0);
        let behind = if found {
            text.skip(pattern.len() as int)
        } else {
            text.skip(1)
        };
        let front: int = if found {
            to.len() as int
        } else {
            1
        };
        let rest = replaced(behind, pattern, to);
        lemma_replaced_removes_pattern(behind, pattern, to);
        assert(result.skip(front) =~= rest);
        assert forall|i: int| !occurs_at(result, pattern, i) by {
            if occurs_at(result, pattern, i) {
                let there = result.subrange(i, i + pattern.len());
                if i >= front {
                    assert(rest.subrange(i - front, i - front + pattern.len()) =~= there);
                    assert(occurs_at(rest, pattern, i - front));
                } else if found {
                    assert forall|j: int| 0 <= j < pattern.len() && i + j < to.len() implies
                        #[trigger] to[i + j] == pattern[j] by {
                        assert(there[j] == result[i + j]);
                    }
                    assert(may_begin_at(to, pattern, i));
                } else {
                    assert(pattern =~= result.take(pattern.len() as int));
                    lemma_replaced_start(text, pattern, to, pattern);
                    assert(text.subrange(0, pattern.len() as int) =~= pattern);
                }
            }
        }
    }
}

/// The characters of a text.
fn characters(text: &str) -> (r: Vec<char>)
    ensures
        r@ == text@,
{
    let mut all: Vec<char> = Vec::new();
    for c in it: text.chars()
        invariant
            it.seq() == text@,
            all@ == text@.take(it.index() as int),
    {
        assert(text@.take(it.index() + 1) =~= text@.take(it.index() as int).push(c));
        all.push(c);
    }
    assert(text@.take(text@.len() as int) =~= text@);
    all
}

/// Whether the pattern stands in the text at a position.
fn matches_at(text: &Vec<char>, pattern: &Vec<char>, i: usize) -> (r: bool)
    requires
        i <= text.len(),
    ensures
        r == occurs_at(text@, pattern@, i as int),
{
    if text.len() - i < pattern.len() {
        return false;
    }
    let mut k: usize = 0;
    while k < pattern.len()
        invariant
            k <= pattern.len(),
            i + pattern.len() <= text.len(),
            forall|j: int| 0 <= j < k ==> text@[i + j] == pattern@[j],
        decreases pattern.len() - k,
    {
        if text[i + k] != pattern[k] {
            assert(text@.subrange(i as int, i + pattern@.len())[k as int] != pattern@[k as int]);
            return false;
        }
        k = k + 1;
    }
    assert(text@.subrange(i as int, i + pattern@.len()) =~= pattern@);
    true
}

/// Decides whether a pattern stands anywhere in a text.
pub fn contains(text: &str, pattern: &str) -> (r: bool)
    ensures
        r == occurs(text@, pattern@),
        r <==> exists|before: Seq<char>, after: Seq<char>|
            text@ == #[trigger] (before + pattern@ + after),
{
    let text_chars = characters(text);
    let pattern_chars = characters(pattern);
    let mut i: usize = 0;
    loop
        invariant
            i <= text_chars.len(),
            text_chars@ == text@,
            pattern_chars@ == pattern@,
            forall|j: int| 0 <= j < i ==> !occurs_at(text@, pattern@, j),
        decreases text_chars.len() - i,
    {
        if matches_at(&text_chars, &pattern_chars, i) {
            proof {
                lemma_occurs_between(text@, pattern@);
            }
            return true;
        }
        if i == text_chars.len() {
            proof {
                lemma_occurs_between(text@, pattern@);
            }
            return false;
        }
        i = i + 1;
    }
}

/// A text with every occurrence of a pattern replaced.
pub fn replace(text: &str, pattern: &str, to: &str) -> (r: String)
    requires
        pattern@.len() > 0,
    ensures
        r@ == replaced(text@, pattern@, to@),
{
    let text_chars = characters(text);
    let pattern_chars = characters(pattern);
    let mut result = String::new();
    let mut kept: usize = 0;
    let mut i: usize = 0;
    proof {
        assert(text@.skip(0) =~= text@);
        assert(result@ + text@.subrange(0, 0) + replaced(text@, pattern@, to@) =~= replaced(
            text@,
            pattern@,
            to@,
        ));
    }
    while i < text_chars.len()
        invariant
            kept <= i <= text_chars.len(),
            text_chars@ == text@,
            pattern_chars@ == pattern@,
            pattern@.len() > 0,
            replaced(text@, pattern@, to@) == result@ + text@.subrange(kept as int, i as int)
                + replaced(text@.skip(i as int), pattern@, to@),
        decreases text_chars.len() - i,
    {
        let ghost rest = text@.skip(i as int);
        let ghost before = result@ + text@.subrange(kept as int, i as int);
        if matches_at(&text_chars, &pattern_chars, i) {
            proof {
                assert(rest.subrange(0, pattern@.len() as int) =~= text@.subrange(
                    i as int,
                    i + pattern@.len(),
                ));
                assert(rest.skip(pattern@.len() as int) =~= text@.skip(i + pattern@.len()));
            }
            result.append(text.substring_char(kept, i));
            result.append(to);
            i = i + pattern_chars.len();
            kept = i;
            proof {
                let tail = replaced(text@.skip(i as int), pattern@, to@);
                assert(before + (to@ + tail) =~= result@ + text@.subrange(kept as int, i as int)
                    + tail);
            }
        } else {
            proof {
                if occurs_at(rest, pattern@, 0) {
                    assert(rest.subrange(0, pattern@.len() as int) =~= text@.subrange(
                        i as int,
                        i + pattern@.len(),
                    ));
                }
                assert(rest.skip(1) =~= text@.skip(i + 1));
                let tail = replaced(text@.skip(i + 1), pattern@, to@);
                assert(before + (seq![rest[0]] + tail) =~= result@ + text@.subrange(
                    kept as int,
                    i + 1,
                ) + tail);
            }
            i = i + 1;
        }
    }
    result.append(text.substring_char(kept, i));
    proof {
        assert(text@.skip(i as int).len() == 0);
        assert(result@ + text@.skip(i as int) =~= result@);
    }
    result
}

} // verus!

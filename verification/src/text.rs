//! Splitting text at a separator character: the mathematical model and the
//! executable counterpart on `&str`.

use vstd::prelude::*;
use vstd::std_specs::iter::IteratorSpec;

verus! {

/// Position of the first `c` in `s`, or `s.len()` where `s` holds no `c`.
pub open spec fn first_index(s: Seq<char>, c: char) -> int
    decreases s.len(),
{
    if s.len() == 0 || s[0] == c {
        0
    } else {
        1 + first_index(s.drop_first(), c)
    }
}

/// Whether `c` occurs in `s`.
pub open spec fn occurs(s: Seq<char>, c: char) -> bool {
    first_index(s, c) < s.len()
}

/// The text in front of the first `c`; all of `s` where it holds no `c`.
pub open spec fn before(s: Seq<char>, c: char) -> Seq<char> {
    s.subrange(0, first_index(s, c))
}

/// The text behind the first `c`; empty where `s` holds no `c`.
pub open spec fn after(s: Seq<char>, c: char) -> Seq<char> {
    if occurs(s, c) {
        s.subrange(first_index(s, c) + 1, s.len() as int)
    } else {
        Seq::empty()
    }
}

/// `first_index` stays within `s`, nothing in front of it is `c`, and where it
/// lies inside `s` it points at a `c`.
pub proof fn lemma_first_index(s: Seq<char>, c: char)
    ensures
        0 <= first_index(s, c) <= s.len(),
        forall|j: int| 0 <= j < first_index(s, c) ==> s[j] != c,
        occurs(s, c) ==> s[first_index(s, c)] == c,
        occurs(s, c) <==> s.contains(c),
    decreases s.len(),
{
    if s.len() == 0 {
        assert(!s.contains(c));
    } else if s[0] == c {
        assert(s.contains(c));
    } else {
        let t = s.drop_first();
        lemma_first_index(t, c);
        let k = first_index(t, c);
        assert forall|j: int| 0 <= j < first_index(s, c) implies s[j] != c by {
            if j > 0 {
                assert(s[j] == t[j - 1]);
            }
        }
        if occurs(t, c) {
            assert(s[k + 1] == t[k]);
            assert(s.contains(c));
        } else {
            if s.contains(c) {
                let j = choose|j: int| 0 <= j < s.len() && s[j] == c;
                assert(t[j - 1] == c);
                assert(t.contains(c));
            }
        }
    }
}

/// The index that the three properties of `lemma_first_index` describe is
/// `first_index` itself.
pub proof fn lemma_first_index_is(s: Seq<char>, c: char, i: int)
    requires
        0 <= i <= s.len(),
        forall|j: int| 0 <= j < i ==> s[j] != c,
        i < s.len() ==> s[i] == c,
    ensures
        first_index(s, c) == i,
    decreases s.len(),
{
    if s.len() == 0 || s[0] == c {
    } else {
        let t = s.drop_first();
        assert(i > 0);
        assert forall|j: int| 0 <= j < i - 1 implies t[j] != c by {
            assert(t[j] == s[j + 1]);
        }
        if i - 1 < t.len() {
            assert(t[i - 1] == s[i]);
        }
        lemma_first_index_is(t, c, i - 1);
    }
}

/// Text without `c` is its own head and has an empty tail.
pub proof fn lemma_split_absent(s: Seq<char>, c: char)
    requires
        !s.contains(c),
    ensures
        !occurs(s, c),
        before(s, c) == s,
        after(s, c) == Seq::<char>::empty(),
{
    lemma_first_index(s, c);
    assert(s.subrange(0, s.len() as int) =~= s);
}

/// Splitting `head + [c] + tail`, where `head` holds no `c`, gives `head` and
/// `tail` back.
pub proof fn lemma_split_joined(head: Seq<char>, c: char, tail: Seq<char>)
    requires
        !head.contains(c),
    ensures
        occurs(head + seq![c] + tail, c),
        before(head + seq![c] + tail, c) == head,
        after(head + seq![c] + tail, c) == tail,
{
    let s = head + seq![c] + tail;
    let i = head.len() as int;
    assert forall|j: int| 0 <= j < i implies s[j] != c by {
        assert(s[j] == head[j]);
        assert(head.contains(head[j]));
    }
    assert(s[i] == c);
    lemma_first_index_is(s, c, i);
    assert(s.subrange(0, i) =~= head);
    assert(s.subrange(i + 1, s.len() as int) =~= tail);
}

/// A text joined from two that hold no `c` holds none.
pub proof fn lemma_joined_lacks(a: Seq<char>, b: Seq<char>, c: char)
    requires
        !a.contains(c),
        !b.contains(c),
    ensures
        !(a + b).contains(c),
{
    if (a + b).contains(c) {
        let j = choose|j: int| 0 <= j < (a + b).len() && (a + b)[j] == c;
        if j < a.len() {
            assert(a[j] == c);
            assert(a.contains(c));
        } else {
            assert(b[j - a.len()] == c);
            assert(b.contains(c));
        }
    }
}

/// Number of characters in `s`, and the position of the first `c` in it.
fn locate(s: &str, c: char) -> (r: (usize, usize))
    ensures
        r.0 == s@.len(),
        r.1 == first_index(s@, c),
{
    let total = s.unicode_len();
    let mut it = s.chars();
    proof {
        vstd::string::axiom_spec_iter(s);
        assert(s@.subrange(0, total as int) =~= s@);
    }
    let mut at: usize = 0;
    loop
        invariant_except_break
            it.remaining() == s@.subrange(at as int, total as int),
        invariant
            total == s@.len(),
            at <= total,
            it.obeys_prophetic_iter_laws(),
            it.decrease() is Some,
            forall|j: int| 0 <= j < at ==> s@[j] != c,
        ensures
            at <= total,
            forall|j: int| 0 <= j < at ==> s@[j] != c,
            at < total ==> s@[at as int] == c,
        decreases it.decrease()->0,
    {
        let ghost earlier = it;
        let next = it.next();
        proof {
            vstd::string::next_postcondition(&earlier, &it, next);
        }
        match next {
            Some(x) => {
                assert(x == s@[at as int]);
                if x == c {
                    break;
                }
                assert(it.remaining() =~= s@.subrange(at + 1, total as int));
                at = at + 1;
            },
            None => {
                break;
            },
        }
    }
    proof {
        lemma_first_index_is(s@, c, at as int);
    }
    (total, at)
}

/// Splits `s` at its first `c`: the text in front of it and, where `s` holds
/// a `c`, the text behind it.
pub fn split_once<'a>(s: &'a str, c: char) -> (r: (&'a str, Option<&'a str>))
    ensures
        r.0@ == before(s@, c),
        r.1 is Some <==> occurs(s@, c),
        r.1 is Some ==> r.1->0@ == after(s@, c),
{
    let (n, i) = locate(s, c);
    proof {
        lemma_first_index(s@, c);
    }
    let head = s.substring_char(0, i);
    if i < n {
        let tail = s.substring_char(i + 1, n);
        (head, Some(tail))
    } else {
        (head, None)
    }
}

/// Whether `s` begins with `prefix`.
pub fn starts_with(s: &str, prefix: &str) -> (r: bool)
    ensures
        r == prefix@.is_prefix_of(s@),
{
    let n = prefix.unicode_len();
    if s.unicode_len() < n {
        false
    } else {
        let head = s.substring_char(0, n).to_owned();
        let wanted = prefix.to_owned();
        head == wanted
    }
}

} // verus!

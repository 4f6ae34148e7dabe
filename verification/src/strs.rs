//! Small facts about character sequences: concatenation keeps a character
//! out, a separator splits a concatenation unambiguously, and equal
//! concatenations with a shared prefix or suffix agree on the rest.

use vstd::prelude::*;
use crate::keys::no_char;

verus! {

/// A concatenation of two `c`-free sequences is `c`-free.
pub proof fn lemma_no_char_concat(a: Seq<char>, b: Seq<char>, c: char)
    requires
        no_char(a, c),
        no_char(b, c),
    ensures
        no_char(a + b, c),
{
    assert forall|i: int| 0 <= i < (a + b).len() implies (a + b)[i] != c by {
        if i < a.len() {
            assert((a + b)[i] == a[i]);
        } else {
            assert((a + b)[i] == b[i - a.len()]);
        }
    }
}

/// A sequence that holds `c` somewhere differs from every `c`-free sequence.
pub proof fn lemma_char_free_differs(s: Seq<char>, a: Seq<char>, b: Seq<char>, c: char)
    requires
        no_char(s, c),
    ensures
        s != a + seq![c] + b,
{
    let t = a + seq![c] + b;
    assert(t[a.len() as int] == c);
    if s == t {
        assert(s[a.len() as int] == c);
    }
}

/// Splitting at a separator that occurs in neither left part is unambiguous.
pub proof fn lemma_split_at_char(a1: Seq<char>, b1: Seq<char>, a2: Seq<char>, b2: Seq<char>, c: char)
    requires
        no_char(a1, c),
        no_char(a2, c),
        a1 + seq![c] + b1 == a2 + seq![c] + b2,
    ensures
        a1 == a2,
        b1 == b2,
{
    let s = a1 + seq![c] + b1;
    assert(s.len() == a1.len() + 1 + b1.len());
    assert(s.len() == a2.len() + 1 + b2.len());
    if a1.len() < a2.len() {
        assert(s[a1.len() as int] == c);
        assert(s[a1.len() as int] == a2[a1.len() as int]);
        assert(false);
    }
    if a2.len() < a1.len() {
        assert(s[a2.len() as int] == c);
        assert(s[a2.len() as int] == a1[a2.len() as int]);
        assert(false);
    }
    assert(a1.len() == a2.len());
    assert forall|i: int| 0 <= i < a1.len() implies a1[i] == a2[i] by {
        assert(s[i] == a1[i]);
        assert(s[i] == a2[i]);
    }
    assert(a1 =~= a2);
    assert forall|i: int| 0 <= i < b1.len() implies b1[i] == b2[i] by {
        assert(s[a1.len() + 1 + i] == b1[i]);
        assert(s[a2.len() + 1 + i] == b2[i]);
    }
    assert(b1 =~= b2);
}

/// Equal concatenations with the same left part agree on the right part.
pub proof fn lemma_cancel_prefix(a: Seq<char>, x: Seq<char>, y: Seq<char>)
    requires
        a + x == a + y,
    ensures
        x == y,
{
    assert((a + x).len() == a.len() + x.len());
    assert((a + y).len() == a.len() + y.len());
    assert(x.len() == y.len());
    assert forall|i: int| 0 <= i < x.len() implies x[i] == y[i] by {
        assert((a + x)[a.len() + i] == x[i]);
        assert((a + y)[a.len() + i] == y[i]);
    }
    assert(x =~= y);
}

/// Equal concatenations with the same right part agree on the left part.
pub proof fn lemma_cancel_suffix(x: Seq<char>, y: Seq<char>, s: Seq<char>)
    requires
        x + s == y + s,
    ensures
        x == y,
{
    assert((x + s).len() == x.len() + s.len());
    assert((y + s).len() == y.len() + s.len());
    assert(x.len() == y.len());
    assert forall|i: int| 0 <= i < x.len() implies x[i] == y[i] by {
        assert((x + s)[i] == x[i]);
        assert((y + s)[i] == y[i]);
    }
    assert(x =~= y);
}

} // verus!

use vstd::prelude::*;

verus! {

/// How many times `c` occurs in `s`.
pub open spec fn count_char(s: Seq<char>, c: char) -> nat
    decreases s.len(),
{
    if s.len() == 0 {
        0
    } else {
        count_char(s.subrange(0, s.len() - 1), c) + if s[s.len() - 1] == c {
            1nat
        } else {
            0nat
        }
    }
}

/// Holds no brace and no tab.
pub open spec fn plain(s: Seq<char>) -> bool {
    count_char(s, '{') == 0 && count_char(s, '}') == 0 && count_char(s, '\t') == 0
}

pub broadcast proof fn lemma_count_concat(a: Seq<char>, b: Seq<char>, c: char)
    ensures
        #[trigger] count_char(a + b, c) == count_char(a, c) + count_char(b, c),
    decreases b.len(),
{
    if b.len() == 0 {
        assert(a + b =~= a);
    } else {
        let b0 = b.subrange(0, b.len() - 1);
        lemma_count_concat(a, b0, c);
        assert((a + b).subrange(0, (a + b).len() - 1) =~= a + b0);
    }
}

pub proof fn lemma_counts_concat(a: Seq<char>, b: Seq<char>)
    ensures
        count_char(a + b, '{') == count_char(a, '{') + count_char(b, '{'),
        count_char(a + b, '}') == count_char(a, '}') + count_char(b, '}'),
        count_char(a + b, '\t') == count_char(a, '\t') + count_char(b, '\t'),
        plain(a + b) == (plain(a) && plain(b)),
{
    lemma_count_concat(a, b, '{');
    lemma_count_concat(a, b, '}');
    lemma_count_concat(a, b, '\t');
}

pub proof fn lemma_count_one(x: char, c: char)
    ensures
        count_char(seq![x], c) == if x == c {
            1nat
        } else {
            0nat
        },
{
    assert(seq![x].subrange(0, 0) =~= Seq::<char>::empty());
    assert(count_char(Seq::<char>::empty(), c) == 0);
    assert(seq![x][0] == x);
}

pub proof fn lemma_count_absent(s: Seq<char>, c: char)
    requires
        forall|i: int| 0 <= i < s.len() ==> s[i] != c,
    ensures
        count_char(s, c) == 0,
    decreases s.len(),
{
    if s.len() > 0 {
        let p = s.subrange(0, s.len() - 1);
        assert forall|i: int| 0 <= i < p.len() implies p[i] != c by {
            assert(p[i] == s[i]);
        }
        lemma_count_absent(p, c);
    }
}

/// A text none of whose characters is a brace or a tab is plain.
pub proof fn lemma_plain_chars(s: Seq<char>)
    requires
        forall|i: int| 0 <= i < s.len() ==> s[i] != '{' && s[i] != '}' && s[i] != '\t',
    ensures
        plain(s),
{
    lemma_count_absent(s, '{');
    lemma_count_absent(s, '}');
    lemma_count_absent(s, '\t');
}


} // verus!

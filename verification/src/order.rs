//! Lexicographic order on character sequences: the order of `String`'s
//! `Ord` (byte order of UTF-8, which is the order of code points).

use vstd::prelude::*;
use crate::text::code_point;

verus! {

/// `a` sorts strictly before `b`: at the first position where they differ
/// `a` has the smaller code point, or `a` is a proper prefix of `b`.
pub open spec fn chars_less(a: Seq<char>, b: Seq<char>) -> bool
    decreases a.len(),
{
    if a.len() == 0 {
        b.len() > 0
    } else if b.len() == 0 {
        false
    } else if a[0] != b[0] {
        (a[0] as int) < (b[0] as int)
    } else {
        chars_less(a.skip(1), b.skip(1))
    }
}

/// Every element of `s` sorts strictly before every later one.
pub open spec fn strictly_sorted(s: Seq<Seq<char>>) -> bool {
    forall|i: int, j: int| 0 <= i < j < s.len() ==> chars_less(#[trigger] s[i], #[trigger] s[j])
}

/// Nothing sorts before itself.
pub proof fn lemma_less_irreflexive(a: Seq<char>)
    ensures
        !chars_less(a, a),
    decreases a.len(),
{
    if a.len() > 0 {
        lemma_less_irreflexive(a.skip(1));
    }
}

/// Of two different sequences, exactly one sorts before the other.
pub proof fn lemma_less_total(a: Seq<char>, b: Seq<char>)
    ensures
        a != b ==> (chars_less(a, b) || chars_less(b, a)),
        !(chars_less(a, b) && chars_less(b, a)),
    decreases a.len(),
{
    if a.len() > 0 && b.len() > 0 {
        lemma_less_total(a.skip(1), b.skip(1));
        if a[0] == b[0] && a != b {
            assert(a == seq![a[0]] + a.skip(1));
            assert(b == seq![b[0]] + b.skip(1));
        }
        if a[0] != b[0] {
            assert((a[0] as int) != (b[0] as int));
        }
    } else if a.len() == 0 && b.len() == 0 {
        assert(a =~= b);
    }
}

/// The order is transitive.
pub proof fn lemma_less_transitive(a: Seq<char>, b: Seq<char>, c: Seq<char>)
    requires
        chars_less(a, b),
        chars_less(b, c),
    ensures
        chars_less(a, c),
    decreases a.len(),
{
    if a.len() > 0 && b.len() > 0 && c.len() > 0 && a[0] == b[0] && b[0] == c[0] {
        lemma_less_transitive(a.skip(1), b.skip(1), c.skip(1));
    }
}

/// Whether `a` sorts strictly before `b`.
pub fn less_chars(a: &Vec<char>, b: &Vec<char>) -> (r: bool)
    ensures
        r == chars_less(a@, b@),
{
    let mut i: usize = 0;
    assert(a@.skip(0) == a@);
    assert(b@.skip(0) == b@);
    while i < a.len() && i < b.len() && a[i] == b[i]
        invariant
            i <= a.len(),
            i <= b.len(),
            chars_less(a@, b@) == chars_less(a@.skip(i as int), b@.skip(i as int)),
        decreases a.len() - i,
    {
        assert(a@.skip(i as int).skip(1) == a@.skip(i + 1));
        assert(b@.skip(i as int).skip(1) == b@.skip(i + 1));
        i += 1;
    }
    if i == a.len() {
        i < b.len()
    } else if i == b.len() {
        false
    } else {
        code_point(a[i]) < code_point(b[i])
    }
}


/// The character sequences of a list of character vectors.
pub open spec fn char_rows(v: Seq<Vec<char>>) -> Seq<Seq<char>> {
    v.map_values(|r: Vec<char>| r@)
}

/// Two strictly sorted lists with the same members are the same list: a
/// sorted list without repeats is fixed by the set of its members.
pub proof fn lemma_sorted_members_determine(a: Seq<Seq<char>>, b: Seq<Seq<char>>)
    requires
        strictly_sorted(a),
        strictly_sorted(b),
        forall|p: Seq<char>| a.contains(p) <==> b.contains(p),
    ensures
        a == b,
    decreases a.len(),
{
    if a.len() == 0 {
        if b.len() > 0 {
            assert(b.contains(b[0]));
        }
        assert(a =~= b);
    } else {
        assert(a.contains(a[0]));
        assert(b.len() > 0);
        assert(b.contains(b[0]));
        let k = choose|k: int| 0 <= k < b.len() && b[k] == a[0];
        let m = choose|m: int| 0 <= m < a.len() && a[m] == b[0];
        if k > 0 && m > 0 {
            assert(chars_less(b[0], b[k]));
            assert(chars_less(a[0], a[m]));
            lemma_less_total(a[0], b[0]);
        }
        assert(a[0] == b[0]);
        let a1 = a.skip(1);
        let b1 = b.skip(1);
        assert forall|p: Seq<char>| a1.contains(p) <==> b1.contains(p) by {
            if a1.contains(p) {
                let i = choose|i: int| 0 <= i < a1.len() && a1[i] == p;
                assert(a[i + 1] == p);
                assert(chars_less(a[0], a[i + 1]));
                lemma_less_irreflexive(p);
                assert(b.contains(p));
                let j = choose|j: int| 0 <= j < b.len() && b[j] == p;
                assert(j != 0);
                assert(b1[j - 1] == p);
            }
            if b1.contains(p) {
                let i = choose|i: int| 0 <= i < b1.len() && b1[i] == p;
                assert(b[i + 1] == p);
                assert(chars_less(b[0], b[i + 1]));
                lemma_less_irreflexive(p);
                assert(a.contains(p));
                let j = choose|j: int| 0 <= j < a.len() && a[j] == p;
                assert(j != 0);
                assert(a1[j - 1] == p);
            }
        }
        assert forall|i: int, j: int| 0 <= i < j < a1.len() implies chars_less(
            #[trigger] a1[i],
            #[trigger] a1[j],
        ) by {
            assert(a1[i] == a[i + 1] && a1[j] == a[j + 1]);
        }
        assert forall|i: int, j: int| 0 <= i < j < b1.len() implies chars_less(
            #[trigger] b1[i],
            #[trigger] b1[j],
        ) by {
            assert(b1[i] == b[i + 1] && b1[j] == b[j + 1]);
        }
        lemma_sorted_members_determine(a1, b1);
        assert(a =~= seq![a[0]] + a1);
        assert(b =~= seq![b[0]] + b1);
    }
}

/// Inserts `t` into the strictly sorted list `v` unless it is there already.
pub fn insert_sorted_unique(v: &mut Vec<Vec<char>>, t: Vec<char>)
    requires
        strictly_sorted(char_rows(old(v)@)),
    ensures
        strictly_sorted(char_rows(final(v)@)),
        forall|p: Seq<char>|
            char_rows(final(v)@).contains(p) <==> (char_rows(old(v)@).contains(p) || p == t@),
{
    let ghost rows = char_rows(v@);
    let mut j: usize = 0;
    while j < v.len() && less_chars(&v[j], &t)
        invariant
            j <= v.len(),
            v@ == old(v)@,
            rows == char_rows(v@),
            forall|k: int| 0 <= k < j ==> chars_less(#[trigger] rows[k], t@),
        decreases v.len() - j,
    {
        j += 1;
    }
    if j < v.len() && !less_chars(&t, &v[j]) {
        proof {
            lemma_less_total(rows[j as int], t@);
        }
        assert(rows[j as int] == t@);
        assert(rows.contains(t@));
        return;
    }
    proof {
        if j < v.len() {
            lemma_less_total(rows[j as int], t@);
            assert forall|k: int| j <= k < rows.len() implies chars_less(t@, #[trigger] rows[k]) by {
                if k > j {
                    lemma_less_transitive(t@, rows[j as int], rows[k]);
                }
            }
        }
    }
    v.insert(j, t);
    let ghost new_rows = char_rows(v@);
    assert(new_rows =~= rows.insert(j as int, t@));
    assert forall|a: int, b: int| 0 <= a < b < new_rows.len() implies chars_less(
        #[trigger] new_rows[a],
        #[trigger] new_rows[b],
    ) by {
        if b < j {
        } else if a < j && b == j {
        } else if a < j {
            assert(new_rows[b] == rows[b - 1]);
        } else if a == j {
            assert(new_rows[b] == rows[b - 1]);
        } else {
            assert(new_rows[a] == rows[a - 1] && new_rows[b] == rows[b - 1]);
        }
    }
    assert forall|p: Seq<char>| new_rows.contains(p) <==> (rows.contains(p) || p == t@) by {
        if new_rows.contains(p) {
            let i = choose|i: int| 0 <= i < new_rows.len() && new_rows[i] == p;
            if i < j {
                assert(rows[i] == p);
            } else if i > j {
                assert(rows[i - 1] == p);
            }
        }
        if rows.contains(p) {
            let i = choose|i: int| 0 <= i < rows.len() && rows[i] == p;
            if i < j {
                assert(new_rows[i] == p);
            } else {
                assert(new_rows[i + 1] == p);
            }
        }
        if p == t@ {
            assert(new_rows[j as int] == p);
        }
    }
}

} // verus!

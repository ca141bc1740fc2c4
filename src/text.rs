//! Small string helpers shared by the other modules.
use vstd::prelude::*;
use vstd::string::*;

verus! {

/// Compares two strings character by character.
pub fn str_equal(a: &str, b: &str) -> (r: bool)
    ensures
        r == (a@ == b@),
{
    let n = a.unicode_len();
    let m = b.unicode_len();
    if n != m {
        return false;
    }
    let mut i: usize = 0;
    while i < n
        invariant
            n == a@.len(),
            m == b@.len(),
            n == m,
            i <= n,
            forall|j: int| 0 <= j < i ==> a@[j] == b@[j],
        decreases n - i,
    {
        if a.get_char(i) != b.get_char(i) {
            return false;
        }
        i = i + 1;
    }
    proof {
        assert(a@ =~= b@);
    }
    true
}

/// Whether `p` is a prefix of `s`.
pub open spec fn is_prefix(p: Seq<char>, s: Seq<char>) -> bool {
    p.len() <= s.len() && s.subrange(0, p.len() as int) == p
}

/// Tests whether `s` starts with `p`.
pub fn starts_with(s: &str, p: &str) -> (r: bool)
    ensures
        r == is_prefix(p@, s@),
{
    let n = s.unicode_len();
    let m = p.unicode_len();
    if m > n {
        return false;
    }
    let mut i: usize = 0;
    while i < m
        invariant
            n == s@.len(),
            m == p@.len(),
            m <= n,
            i <= m,
            forall|j: int| 0 <= j < i ==> s@[j] == p@[j],
        decreases m - i,
    {
        if s.get_char(i) != p.get_char(i) {
            proof {
                assert(s@.subrange(0, m as int)[i as int] != p@[i as int]);
            }
            return false;
        }
        i = i + 1;
    }
    proof {
        assert(s@.subrange(0, m as int) =~= p@);
    }
    true
}

/// Concatenates two strings into a new one.
pub fn concat_str(a: &str, b: &str) -> (r: String)
    ensures
        r@ == a@ + b@,
{
    let s = String::from_str(a);
    s.concat(b)
}

/// Pieces joined with `sep` between each two.
pub open spec fn join_with(ls: Seq<Seq<char>>, sep: char) -> Seq<char>
    decreases ls.len(),
{
    if ls.len() == 0 {
        Seq::empty()
    } else if ls.len() == 1 {
        ls[0]
    } else {
        join_with(ls.drop_last(), sep) + seq![sep] + ls.last()
    }
}

/// `c` does not occur in the text.
pub open spec fn lacks(s: Seq<char>, c: char) -> bool {
    forall|i: int| 0 <= i < s.len() ==> s[i] != c
}

/// The views of a list of strings.
pub open spec fn string_views(v: Seq<String>) -> Seq<Seq<char>> {
    v.map_values(|s: String| s@)
}

/// Cuts a text at each `sep`: the pieces between separators, so that
/// joining them again with `sep` gives the text back.
pub fn split_on(text: &str, sep: char) -> (r: Vec<String>)
    ensures
        r@.len() >= 1,
        join_with(string_views(r@), sep) == text@,
        forall|i: int| 0 <= i < r@.len() ==> lacks(#[trigger] r@[i]@, sep),
{
    let n = text.unicode_len();
    let mut r: Vec<String> = Vec::new();
    let mut start: usize = 0;
    let mut i: usize = 0;
    while i < n
        invariant
            n == text@.len(),
            start <= i <= n,
            r@.len() == 0 ==> start == 0,
            r@.len() > 0 ==> join_with(string_views(r@), sep) + seq![sep] == text@.subrange(0, start as int),
            lacks(text@.subrange(start as int, i as int), sep),
            forall|k: int| 0 <= k < r@.len() ==> lacks(#[trigger] r@[k]@, sep),
        decreases n - i,
    {
        if text.get_char(i) == sep {
            let piece = text.substring_char(start, i);
            let ghost before = r@;
            r.push(String::from_str(piece));
            proof {
                let sv = string_views(r@);
                assert(sv.drop_last() =~= string_views(before));
                assert(sv.last() == piece@);
                if before.len() == 0 {
                    assert(sv.len() == 1);
                    assert(join_with(sv, sep) == sv[0]);
                    assert(join_with(sv, sep) + seq![sep] =~= text@.subrange(0, i + 1));
                } else {
                    assert(join_with(sv, sep) == join_with(string_views(before), sep) + seq![sep] + piece@);
                    assert(join_with(sv, sep) + seq![sep] =~= text@.subrange(0, i + 1));
                }
            }
            start = i + 1;
        }
        proof {
            let t = text@.subrange(start as int, i + 1);
            assert forall|j: int| 0 <= j < t.len() implies #[trigger] t[j] != sep by {
                if start + j < i {
                    assert(text@.subrange(start as int, i as int)[j] == text@[start + j]);
                }
            }
        }
        i = i + 1;
    }
    let last = text.substring_char(start, n);
    let ghost before = r@;
    r.push(String::from_str(last));
    proof {
        let sv = string_views(r@);
        assert(sv.drop_last() =~= string_views(before));
        if before.len() == 0 {
            assert(join_with(sv, sep) == sv[0]);
            assert(text@.subrange(0, n as int) =~= text@);
        } else {
            assert(join_with(sv, sep) == join_with(string_views(before), sep) + seq![sep] + last@);
            assert(join_with(sv, sep) =~= text@);
        }
    }
    r
}

/// A text cut at every separator has one cutting: two non-empty lists of
/// pieces without the separator that join to the same text are equal.
pub proof fn lemma_split_unique(a: Seq<Seq<char>>, b: Seq<Seq<char>>, sep: char)
    requires
        a.len() >= 1,
        b.len() >= 1,
        join_with(a, sep) == join_with(b, sep),
        forall|i: int| 0 <= i < a.len() ==> lacks(#[trigger] a[i], sep),
        forall|i: int| 0 <= i < b.len() ==> lacks(#[trigger] b[i], sep),
    ensures
        a == b,
    decreases a.len() + b.len(),
{
    let s = join_with(a, sep);
    if a.len() == 1 && b.len() == 1 {
        assert(a =~= b);
    } else if a.len() == 1 {
        let y = join_with(b.drop_last(), sep);
        assert(s == y + seq![sep] + b.last());
        assert(s[y.len() as int] == sep);
        assert(lacks(a[0], sep));
    } else if b.len() == 1 {
        let x = join_with(a.drop_last(), sep);
        assert(s == x + seq![sep] + a.last());
        assert(s[x.len() as int] == sep);
        assert(lacks(b[0], sep));
    } else {
        let x = join_with(a.drop_last(), sep);
        let y = join_with(b.drop_last(), sep);
        let la = a.last();
        let lb = b.last();
        assert(s == x + seq![sep] + la);
        assert(s == y + seq![sep] + lb);
        assert(lacks(la, sep));
        assert(lacks(lb, sep));
        if la.len() < lb.len() {
            let k = s.len() - la.len() - 1;
            assert(s[k] == sep);
            assert(s[k] == lb[k - (y.len() + 1)]);
        } else if lb.len() < la.len() {
            let k = s.len() - lb.len() - 1;
            assert(s[k] == sep);
            assert(s[k] == la[k - (x.len() + 1)]);
        }
        assert(la.len() == lb.len());
        assert(la =~= s.subrange(s.len() - la.len(), s.len() as int));
        assert(lb =~= s.subrange(s.len() - lb.len(), s.len() as int));
        assert(x =~= s.subrange(0, x.len() as int));
        assert(y =~= s.subrange(0, y.len() as int));
        assert forall|i: int| 0 <= i < a.drop_last().len() implies lacks(#[trigger] a.drop_last()[i], sep) by {
            assert(a.drop_last()[i] == a[i]);
        }
        assert forall|i: int| 0 <= i < b.drop_last().len() implies lacks(#[trigger] b.drop_last()[i], sep) by {
            assert(b.drop_last()[i] == b[i]);
        }
        lemma_split_unique(a.drop_last(), b.drop_last(), sep);
        assert(a =~= b.drop_last().push(lb));
        assert(b =~= b.drop_last().push(lb));
    }
}

} // verus!

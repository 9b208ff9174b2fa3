//! Text utilities shared across the library: character access, the
//! lexicographic codepoint order on character sequences, a verified
//! insertion sort for strings under that order, and substring search.

use vstd::prelude::*;

verus! {

/// Whether a character is alphanumeric, as Unicode defines it. The class
/// is a function of the character alone; its table is not modelled here.
pub uninterp spec fn char_is_alphanumeric(c: char) -> bool;

/// Whether a character is whitespace, as Unicode defines it. The class is
/// a function of the character alone; its table is not modelled here.
pub uninterp spec fn char_is_whitespace(c: char) -> bool;

/// Relies on char::is_alphanumeric from std: the Unicode alphanumeric
/// class.
pub assume_specification[ char::is_alphanumeric ](c: char) -> (r: bool)
    ensures
        r == char_is_alphanumeric(c),
;

/// Relies on char::is_whitespace from std: the Unicode whitespace class.
pub assume_specification[ char::is_whitespace ](c: char) -> (r: bool)
    ensures
        r == char_is_whitespace(c),
;

/// The characters of a string, as a vector.
pub fn chars_vec(s: &str) -> (r: Vec<char>)
    ensures
        r@ == s@,
{
    let n = s.unicode_len();
    let mut r: Vec<char> = Vec::new();
    for i in 0..n
        invariant
            n == s@.len(),
            r@ == s@.take(i as int),
    {
        r.push(s.get_char(i));
        proof {
            assert(s@.take(i + 1) =~= s@.take(i as int).push(s@[i as int]));
        }
    }
    proof {
        assert(s@.take(n as int) =~= s@);
    }
    r
}

/// Lexicographic order on character sequences by codepoint: the canonical,
/// reproducible order of cache keys.
pub open spec fn lex_le(a: Seq<char>, b: Seq<char>) -> bool
    decreases a.len(),
{
    if a.len() == 0 {
        true
    } else if b.len() == 0 {
        false
    } else if (a.first() as u32) < (b.first() as u32) {
        true
    } else if (a.first() as u32) == (b.first() as u32) {
        lex_le(a.drop_first(), b.drop_first())
    } else {
        false
    }
}

/// Whether `a` comes no later than `b` in the lexicographic order.
pub fn str_le(a: &str, b: &str) -> (r: bool)
    ensures
        r == lex_le(a@, b@),
{
    let av = chars_vec(a);
    let bv = chars_vec(b);
    let an = av.len();
    let bn = bv.len();
    let mut i: usize = 0;
    proof {
        assert(a@.skip(0) == a@);
        assert(b@.skip(0) == b@);
    }
    while i < an && i < bn
        invariant
            an == a@.len(),
            bn == b@.len(),
            av@ == a@,
            bv@ == b@,
            i <= an,
            i <= bn,
            lex_le(a@, b@) == lex_le(a@.skip(i as int), b@.skip(i as int)),
        decreases an - i,
    {
        let ca = av[i];
        let cb = bv[i];
        proof {
            assert(a@.skip(i as int).first() == a@[i as int]);
            assert(b@.skip(i as int).first() == b@[i as int]);
            assert(a@.skip(i as int).drop_first() =~= a@.skip(i + 1));
            assert(b@.skip(i as int).drop_first() =~= b@.skip(i + 1));
        }
        if (ca as u32) < (cb as u32) {
            return true;
        }
        if (ca as u32) != (cb as u32) {
            proof {
                assert(!lex_le(a@.skip(i as int), b@.skip(i as int)));
            }
            return false;
        }
        i = i + 1;
    }
    proof {
        if i >= an {
            assert(a@.skip(i as int).len() == 0);
        } else {
            assert(b@.skip(i as int).len() == 0);
            assert(a@.skip(i as int).len() > 0);
        }
    }
    i >= an
}

/// The views of a sequence of strings.
pub open spec fn views_of(s: Seq<String>) -> Seq<Seq<char>> {
    Seq::new(s.len(), |i: int| s[i]@)
}

/// A character-sequence inserted into a sorted sequence of character
/// sequences, before the first element it does not come after.
pub open spec fn insert_sorted(x: Seq<char>, s: Seq<Seq<char>>) -> Seq<Seq<char>>
    decreases s.len(),
{
    if s.len() == 0 {
        seq![x]
    } else if lex_le(s.first(), x) {
        seq![s.first()] + insert_sorted(x, s.drop_first())
    } else {
        seq![x] + s
    }
}

/// The lexicographic insertion sort of a sequence of character sequences:
/// the canonical order of the inputs.
pub open spec fn sort_views(s: Seq<Seq<char>>) -> Seq<Seq<char>>
    decreases s.len(),
{
    if s.len() == 0 {
        Seq::empty()
    } else {
        insert_sorted(s.last(), sort_views(s.drop_last()))
    }
}

proof fn lemma_insert_sorted_len(x: Seq<char>, s: Seq<Seq<char>>)
    ensures
        insert_sorted(x, s).len() == s.len() + 1,
    decreases s.len(),
{
    if s.len() > 0 && lex_le(s.first(), x) {
        lemma_insert_sorted_len(x, s.drop_first());
    }
}

/// Sorting keeps the length.
pub proof fn lemma_sort_views_len(s: Seq<Seq<char>>)
    ensures
        sort_views(s).len() == s.len(),
    decreases s.len(),
{
    if s.len() > 0 {
        lemma_sort_views_len(s.drop_last());
        lemma_insert_sorted_len(s.last(), sort_views(s.drop_last()));
    }
}

proof fn lemma_insert_sorted_contains(x: Seq<char>, s: Seq<Seq<char>>, y: Seq<char>)
    ensures
        insert_sorted(x, s).contains(y) <==> (s.contains(y) || y == x),
    decreases s.len(),
{
    if s.len() > 0 && lex_le(s.first(), x) {
        lemma_insert_sorted_contains(x, s.drop_first(), y);
        let t = s.drop_first();
        let r = insert_sorted(x, s);
        assert(r == seq![s.first()] + insert_sorted(x, t));
        if r.contains(y) {
            let i = choose|i: int| 0 <= i < r.len() && r[i] == y;
            if i == 0 {
                assert(s[0] == y);
            } else {
                assert(insert_sorted(x, t)[i - 1] == y);
                assert(insert_sorted(x, t).contains(y));
                if t.contains(y) {
                    let j = choose|j: int| 0 <= j < t.len() && t[j] == y;
                    assert(s[j + 1] == y);
                }
            }
        }
        if s.contains(y) {
            let i = choose|i: int| 0 <= i < s.len() && s[i] == y;
            if i == 0 {
                assert(r[0] == y);
            } else {
                assert(t[i - 1] == y);
                assert(t.contains(y));
                assert(insert_sorted(x, t).contains(y));
                let j = choose|j: int|
                    0 <= j < insert_sorted(x, t).len() && insert_sorted(x, t)[j] == y;
                assert(r[j + 1] == y);
            }
        } else if y == x {
            assert(insert_sorted(x, t).contains(y));
            let j = choose|j: int|
                0 <= j < insert_sorted(x, t).len() && insert_sorted(x, t)[j] == y;
            assert(r[j + 1] == y);
        }
    } else {
        if s.len() == 0 {
            assert(insert_sorted(x, s) == seq![x]);
            if insert_sorted(x, s).contains(y) {
                assert(insert_sorted(x, s)[0] == x);
            }
            if y == x {
                assert(insert_sorted(x, s)[0] == y);
            }
        } else {
            let r = seq![x] + s;
            assert(insert_sorted(x, s) == r);
            if r.contains(y) {
                let i = choose|i: int| 0 <= i < r.len() && r[i] == y;
                if i > 0 {
                    assert(s[i - 1] == y);
                }
            }
            if s.contains(y) {
                let i = choose|i: int| 0 <= i < s.len() && s[i] == y;
                assert(r[i + 1] == y);
            }
            if y == x {
                assert(r[0] == y);
            }
        }
    }
}

/// Sorting keeps exactly the elements.
pub proof fn lemma_sort_views_contains(s: Seq<Seq<char>>, y: Seq<char>)
    ensures
        sort_views(s).contains(y) <==> s.contains(y),
    decreases s.len(),
{
    if s.len() > 0 {
        lemma_sort_views_contains(s.drop_last(), y);
        lemma_insert_sorted_contains(s.last(), sort_views(s.drop_last()), y);
        if s.contains(y) {
            let i = choose|i: int| 0 <= i < s.len() && s[i] == y;
            if i < s.len() - 1 {
                assert(s.drop_last()[i] == y);
                assert(s.drop_last().contains(y));
            }
        }
        if s.drop_last().contains(y) {
            let i = choose|i: int| 0 <= i < s.drop_last().len() && s.drop_last()[i] == y;
            assert(s[i] == y);
        }
        if y == s.last() {
            assert(s[s.len() - 1] == y);
        }
    }
}

proof fn lemma_insert_sorted_at(s: Seq<String>, x: String, p: int)
    requires
        0 <= p <= s.len(),
        forall|j: int| 0 <= j < p ==> lex_le(#[trigger] s[j]@, x@),
        p < s.len() ==> !lex_le(s[p]@, x@),
    ensures
        views_of(s.insert(p, x)) == insert_sorted(x@, views_of(s)),
    decreases p,
{
    if p == 0 {
        if s.len() == 0 {
            assert(views_of(s.insert(0, x)) =~= seq![x@]);
            assert(views_of(s).len() == 0);
            assert(insert_sorted(x@, views_of(s)) == seq![x@]);
        } else {
            assert(views_of(s).first() == s[0]@);
            assert(!lex_le(views_of(s).first(), x@));
            assert(insert_sorted(x@, views_of(s)) == seq![x@] + views_of(s));
            assert(views_of(s.insert(0, x)) =~= seq![x@] + views_of(s));
        }
    } else {
        lemma_insert_sorted_at(s.drop_first(), x, p - 1);
        assert(views_of(s).first() == s[0]@);
        assert(lex_le(s[0]@, x@));
        assert(views_of(s).drop_first() =~= views_of(s.drop_first()));
        assert(insert_sorted(x@, views_of(s)) == seq![s[0]@] + insert_sorted(
            x@,
            views_of(s.drop_first()),
        ));
        assert(views_of(s.insert(p, x)) =~= seq![s[0]@] + views_of(s.drop_first().insert(p - 1, x)));
    }
}

/// Sorts strings into the canonical lexicographic order: the result is
/// exactly the insertion sort of the inputs' views.
pub fn sort_strings(keys: Vec<String>) -> (r: Vec<String>)
    ensures
        views_of(r@) == sort_views(views_of(keys@)),
{
    let mut out: Vec<String> = Vec::new();
    let n = keys.len();
    proof {
        assert(views_of(keys@.take(0)) =~= Seq::<Seq<char>>::empty());
        assert(views_of(out@) =~= Seq::<Seq<char>>::empty());
    }
    for i in 0..n
        invariant
            n == keys@.len(),
            out@.len() == i,
            views_of(out@) == sort_views(views_of(keys@.take(i as int))),
    {
        let x = keys[i].clone();
        let mut p: usize = 0;
        while p < out.len() && str_le(out[p].as_str(), x.as_str())
            invariant
                p <= out@.len(),
                x@ == keys@[i as int]@,
                forall|j: int| 0 <= j < p ==> lex_le(#[trigger] out@[j]@, x@),
            decreases out@.len() - p,
        {
            p = p + 1;
        }
        let ghost before = out@;
        proof {
            lemma_insert_sorted_at(before, x, p as int);
        }
        out.insert(p, x);
        proof {
            assert(views_of(keys@.take(i + 1)).drop_last() =~= views_of(keys@.take(i as int)));
            assert(views_of(keys@.take(i + 1)).last() == keys@[i as int]@);
            assert(sort_views(views_of(keys@.take(i + 1))) == insert_sorted(
                keys@[i as int]@,
                sort_views(views_of(keys@.take(i as int))),
            ));
            assert(views_of(out@) == insert_sorted(x@, views_of(before)));
        }
    }
    proof {
        assert(keys@.take(n as int) =~= keys@);
    }
    out
}

/// Whether `pat` occurs in `text` starting at index `i`.
pub open spec fn occurs_at(text: Seq<char>, pat: Seq<char>, i: int) -> bool {
    &&& 0 <= i
    &&& i + pat.len() <= text.len()
    &&& text.subrange(i, i + pat.len() as int) == pat
}

/// Whether `pat` occurs anywhere in `text`.
pub open spec fn contains_sub(text: Seq<char>, pat: Seq<char>) -> bool {
    exists|i: int| occurs_at(text, pat, i)
}

/// Substring search: whether the pattern occurs in the text.
pub fn chars_contain(text: &Vec<char>, pat: &Vec<char>) -> (r: bool)
    ensures
        r == contains_sub(text@, pat@),
{
    let n = text.len();
    let m = pat.len();
    if m > n {
        proof {
            assert(!contains_sub(text@, pat@)) by {
                if contains_sub(text@, pat@) {
                    let i = choose|i: int| occurs_at(text@, pat@, i);
                }
            }
        }
        return false;
    }
    if m == 0 {
        proof {
            assert(text@.subrange(0, 0) =~= pat@);
            assert(occurs_at(text@, pat@, 0));
        }
        return true;
    }
    let last_start = n - m;
    for i in 0..last_start + 1
        invariant
            n == text@.len(),
            m == pat@.len(),
            m <= n,
            last_start == n - m,
            forall|k: int| 0 <= k < i ==> !occurs_at(text@, pat@, k),
    {
        let mut matched = true;
        for j in 0..m
            invariant
                n == text@.len(),
                m == pat@.len(),
                i + m <= n,
                matched == (forall|l: int| 0 <= l < j ==> text@[i + l] == pat@[l]),
        {
            if text[i + j] != pat[j] {
                proof {
                    assert(!(forall|l: int| 0 <= l < j + 1 ==> text@[i + l] == pat@[l]));
                }
                matched = false;
            }
            proof {
                if matched {
                    assert(forall|l: int| 0 <= l < j + 1 ==> text@[i + l] == pat@[l]);
                }
            }
        }
        if matched {
            proof {
                assert(text@.subrange(i as int, i + m) =~= pat@);
                assert(occurs_at(text@, pat@, i as int));
            }
            return true;
        } else {
            proof {
                if occurs_at(text@, pat@, i as int) {
                    assert(forall|l: int|
                        0 <= l < m ==> text@.subrange(i as int, i + m)[l] == pat@[l]);
                    assert(forall|l: int| 0 <= l < m ==> text@[i + l] == pat@[l]);
                }
            }
        }
    }
    proof {
        if contains_sub(text@, pat@) {
            let k = choose|k: int| occurs_at(text@, pat@, k);
            assert(0 <= k <= last_start);
        }
    }
    false
}

} // verus!

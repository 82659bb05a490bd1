//! Character-sequence helpers: decimal rendering, substring search and the
//! conversion of strings into character vectors.
use vstd::prelude::*;
use vstd::std_specs::iter::IteratorSpec;
use vstd::string::StringExecFns;

verus! {

/// The ASCII digit for a value below ten.
pub open spec fn digit_char(d: nat) -> char {
    if d == 0 { '0' }
    else if d == 1 { '1' }
    else if d == 2 { '2' }
    else if d == 3 { '3' }
    else if d == 4 { '4' }
    else if d == 5 { '5' }
    else if d == 6 { '6' }
    else if d == 7 { '7' }
    else if d == 8 { '8' }
    else { '9' }
}

/// The shortest decimal rendering of `n`, without sign or leading zeros.
pub open spec fn decimal(n: nat) -> Seq<char>
    decreases n,
{
    if n < 10 {
        seq![digit_char(n)]
    } else {
        decimal(n / 10).push(digit_char(n % 10))
    }
}

/// `p` occurs in `t` starting at position `i`.
pub open spec fn occurs_at(t: Seq<char>, p: Seq<char>, i: int) -> bool {
    0 <= i && i + p.len() <= t.len() && t.subrange(i, i + p.len()) == p
}

/// `p` occurs somewhere in `t`.
pub open spec fn contains(t: Seq<char>, p: Seq<char>) -> bool {
    exists|i: int| occurs_at(t, p, i)
}

/// `i` is the start of the last occurrence of `p` in `t`.
pub open spec fn is_last_occurrence(t: Seq<char>, p: Seq<char>, i: int) -> bool {
    &&& occurs_at(t, p, i)
    &&& forall|j: int| i < j ==> !occurs_at(t, p, j)
}

/// The characters of `s`, in order.
pub fn chars_of(s: &str) -> (r: Vec<char>)
    ensures
        r@ == s@,
{
    broadcast use vstd::string::group_string_axioms;

    let mut it = s.chars();
    let mut v: Vec<char> = Vec::new();
    loop
        invariant
            v@ + it.remaining() == s@,
            it.decrease() is Some,
        ensures
            v@ == s@,
        decreases it.decrease()->0,
    {
        let ghost before = it.remaining();
        match it.next() {
            Some(c) => {
                v.push(c);
                assert(v@ + it.remaining() =~= s@) by {
                    assert(before == seq![c] + it.remaining());
                }
            },
            None => {
                assert(before.len() == 0);
                assert(v@ =~= s@);
                break;
            },
        }
    }
    v
}

/// The one-character string of a decimal digit.
fn digit_str(d: u32) -> (r: &'static str)
    requires
        d < 10,
    ensures
        r@ == seq![digit_char(d as nat)],
{
    proof {
        reveal_strlit("0");
        reveal_strlit("1");
        reveal_strlit("2");
        reveal_strlit("3");
        reveal_strlit("4");
        reveal_strlit("5");
        reveal_strlit("6");
        reveal_strlit("7");
        reveal_strlit("8");
        reveal_strlit("9");
    }
    if d == 0 {
        "0"
    } else if d == 1 {
        "1"
    } else if d == 2 {
        "2"
    } else if d == 3 {
        "3"
    } else if d == 4 {
        "4"
    } else if d == 5 {
        "5"
    } else if d == 6 {
        "6"
    } else if d == 7 {
        "7"
    } else if d == 8 {
        "8"
    } else {
        "9"
    }
}

/// Appends the decimal digits of `n` to `dst`.
pub fn push_decimal(dst: &mut String, n: u32)
    ensures
        final(dst)@ == old(dst)@ + decimal(n as nat),
    decreases n,
{
    let ghost start = dst@;
    if n >= 10 {
        push_decimal(dst, n / 10);
    }
    dst.append(digit_str(n % 10));
    assert(dst@ =~= start + decimal(n as nat));
}

/// Whether `p` is a prefix of `t`.
pub open spec fn starts_with(t: Seq<char>, p: Seq<char>) -> bool {
    p.len() <= t.len() && t.subrange(0, p.len() as int) == p
}

/// Whether `t` starts with `p`.
pub fn has_prefix(t: &Vec<char>, p: &Vec<char>) -> (r: bool)
    ensures
        r == starts_with(t@, p@),
{
    let r = matches_at(t, p, 0);
    r
}

/// Whether two character vectors hold the same characters.
pub fn chars_equal(a: &Vec<char>, b: &Vec<char>) -> (r: bool)
    ensures
        r == (a@ == b@),
{
    if a.len() != b.len() {
        return false;
    }
    let mut i: usize = 0;
    while i < a.len()
        invariant
            a.len() == b.len(),
            i <= a.len(),
            forall|k: int| 0 <= k < i ==> a@[k] == b@[k],
        decreases a.len() - i,
    {
        if a[i] != b[i] {
            return false;
        }
        i = i + 1;
    }
    assert(a@ =~= b@);
    true
}

/// Whether `p` occurs in `t` at position `i`.
pub fn matches_at(t: &Vec<char>, p: &Vec<char>, i: usize) -> (r: bool)
    ensures
        r == occurs_at(t@, p@, i as int),
{
    if i > t.len() || p.len() > t.len() - i {
        return false;
    }
    let mut k: usize = 0;
    while k < p.len()
        invariant
            i + p.len() <= t.len(),
            k <= p.len(),
            forall|q: int| 0 <= q < k ==> t@[i + q] == p@[q],
        decreases p.len() - k,
    {
        if t[i + k] != p[k] {
            assert(t@.subrange(i as int, i + p.len())[k as int] != p@[k as int]);
            return false;
        }
        k = k + 1;
    }
    assert(t@.subrange(i as int, i + p.len()) =~= p@);
    true
}

/// The start of the last occurrence of `p` in `t`, if there is one.
pub fn rfind_chars(t: &Vec<char>, p: &Vec<char>) -> (r: Option<usize>)
    ensures
        match r {
            Some(i) => is_last_occurrence(t@, p@, i as int),
            None => !contains(t@, p@),
        },
{
    if p.len() > t.len() {
        return None;
    }
    let mut i: usize = t.len() - p.len();
    loop
        invariant
            p.len() <= t.len(),
            i <= t.len() - p.len(),
            forall|j: int| i < j ==> !occurs_at(t@, p@, j),
        decreases i,
    {
        if matches_at(t, p, i) {
            return Some(i);
        }
        if i == 0 {
            return None;
        }
        i = i - 1;
    }
}

/// Whether `p` occurs within the first `n` characters of `t`.
pub fn contains_in_prefix(t: &Vec<char>, n: usize, p: &Vec<char>) -> (r: bool)
    requires
        n <= t.len(),
    ensures
        r == contains(t@.subrange(0, n as int), p@),
{
    let ghost pre = t@.subrange(0, n as int);
    if p.len() > n {
        return false;
    }
    let last = n - p.len();
    let mut i: usize = 0;
    loop
        invariant
            p.len() <= n <= t.len(),
            last == n - p.len(),
            i <= last,
            pre == t@.subrange(0, n as int),
            forall|j: int| 0 <= j < i ==> !occurs_at(pre, p@, j),
        decreases last - i,
    {
        let found = matches_at(t, p, i);
        assert(occurs_at(pre, p@, i as int) == occurs_at(t@, p@, i as int)) by {
            assert(pre.subrange(i as int, i + p.len()) =~= t@.subrange(i as int, i + p.len()));
        }
        if found {
            return true;
        }
        if i == last {
            return false;
        }
        i = i + 1;
    }
}

/// An occurrence in `b` is an occurrence in `a + b`, shifted by `a`'s length.
pub proof fn lemma_occurs_shift(a: Seq<char>, b: Seq<char>, p: Seq<char>, i: int)
    requires
        0 <= i,
    ensures
        occurs_at(b, p, i) <==> occurs_at(a + b, p, a.len() + i),
{
    if 0 <= i && i + p.len() <= b.len() {
        assert((a + b).subrange(a.len() + i, a.len() + i + p.len()) =~= b.subrange(i, i + p.len()));
    }
}

/// An occurrence in `a` is an occurrence in `a + b` at the same place.
pub proof fn lemma_occurs_extend(a: Seq<char>, b: Seq<char>, p: Seq<char>, i: int)
    requires
        occurs_at(a, p, i),
    ensures
        occurs_at(a + b, p, i),
{
    assert((a + b).subrange(i, i + p.len()) =~= a.subrange(i, i + p.len()));
}

/// The last occurrence in `b` stays the last one once `a` is put in front.
pub proof fn lemma_last_shift(a: Seq<char>, b: Seq<char>, p: Seq<char>, i: int)
    requires
        is_last_occurrence(b, p, i),
    ensures
        is_last_occurrence(a + b, p, a.len() + i),
{
    lemma_occurs_shift(a, b, p, i);
    assert forall|j: int| a.len() + i < j implies !occurs_at(a + b, p, j) by {
        lemma_occurs_shift(a, b, p, j - a.len());
    }
}

/// A last occurrence of `a + b` that lies within `b` is the last one of `b`.
pub proof fn lemma_last_unshift(a: Seq<char>, b: Seq<char>, p: Seq<char>, k: int)
    requires
        is_last_occurrence(a + b, p, k),
        k >= a.len(),
    ensures
        is_last_occurrence(b, p, k - a.len()),
{
    lemma_occurs_shift(a, b, p, k - a.len());
    assert forall|j: int| k - a.len() < j implies !occurs_at(b, p, j) by {
        lemma_occurs_shift(a, b, p, j);
    }
}

} // verus!

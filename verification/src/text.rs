//! Small text utilities: comparing names, the last `::` segment of a path,
//! decimal numerals.
use vstd::prelude::*;

verus! {

/// Positions `i` and `i + 1` hold `::`.
pub open spec fn is_sep_at(s: Seq<char>, i: int) -> bool {
    0 <= i && i + 1 < s.len() && s[i] == ':' && s[i + 1] == ':'
}

/// Start of the last `::` that begins at or before `k`, or -1.
pub open spec fn last_sep(s: Seq<char>, k: int) -> int
    decreases k + 1,
{
    if k < 0 {
        -1
    } else if is_sep_at(s, k) {
        k
    } else {
        last_sep(s, k - 1)
    }
}

/// The part of a path after its last `::` (the whole path without one).
pub open spec fn last_segment(s: Seq<char>) -> Seq<char> {
    let i = last_sep(s, s.len() - 2);
    if i < 0 {
        s
    } else {
        s.skip(i + 2)
    }
}

/// The character of a decimal digit.
pub open spec fn digit_char(d: nat) -> char {
    (48 + d) as char
}

/// The decimal numeral of `n`, without leading zeros.
pub open spec fn decimal(n: nat) -> Seq<char>
    decreases n,
{
    if n < 10 {
        seq![digit_char(n)]
    } else {
        decimal(n / 10).push(digit_char(n % 10))
    }
}

/// Do two strings hold the same characters?
pub fn str_eq(a: &str, b: &str) -> (r: bool)
    ensures
        r == (a@ == b@),
{
    let n = a.unicode_len();
    if n != b.unicode_len() {
        return false;
    }
    let mut i: usize = 0;
    while i < n
        invariant
            n == a@.len(),
            n == b@.len(),
            i <= n,
            forall|j: int| 0 <= j < i ==> a@[j] == b@[j],
        decreases n - i,
    {
        if a.get_char(i) != b.get_char(i) {
            return false;
        }
        i = i + 1;
    }
    assert(a@ =~= b@);
    true
}

/// The part of a path after its last `::`.
pub fn last_path_segment(path: &str) -> (r: &str)
    ensures
        r@ == last_segment(path@),
{
    let n = path.unicode_len();
    if n < 2 {
        return path;
    }
    let mut k: usize = n - 1;
    // look for "::" starting at k - 1, from the end
    while k >= 1
        invariant
            n == path@.len(),
            n >= 2,
            k <= n - 1,
            last_sep(path@, n - 2) == last_sep(path@, k - 1),
        decreases k,
    {
        if path.get_char(k - 1) == ':' && path.get_char(k) == ':' {
            assert(is_sep_at(path@, k - 1));
            return path.substring_char(k + 1, n);
        }
        k = k - 1;
    }
    path
}

/// Appends the decimal numeral of `n`.
pub fn push_decimal(s: &mut String, n: u128)
    ensures
        final(s)@ == old(s)@ + decimal(n as nat),
    decreases n,
{
    if n >= 10 {
        push_decimal(s, n / 10);
    }
    let d = n % 10;
    let ghost before = s@;
    match d {
        0 => s.append("0"),
        1 => s.append("1"),
        2 => s.append("2"),
        3 => s.append("3"),
        4 => s.append("4"),
        5 => s.append("5"),
        6 => s.append("6"),
        7 => s.append("7"),
        8 => s.append("8"),
        _ => s.append("9"),
    }
    proof {
        reveal_strlit("0");
        reveal_strlit("1");
        reveal_strlit("2");
        reveal_strlit("3");
        reveal_strlit("4");
        reveal_strlit("5");
        reveal_strlit("6");
        reveal_strlit("7");
        reveal_strlit("8");
        reveal_strlit("9");
        assert(s@ == before + seq![digit_char(d as nat)]);
        if n >= 10 {
            assert(s@ =~= old(s)@ + decimal(n as nat));
        } else {
            assert(s@ =~= old(s)@ + decimal(n as nat));
        }
    }
}

/// The decimal numeral of `n`.
pub fn decimal_string(n: u128) -> (r: String)
    ensures
        r@ == decimal(n as nat),
{
    let mut s = String::new();
    push_decimal(&mut s, n);
    assert(s@ =~= decimal(n as nat));
    s
}


/// `n` occurs in `h` at position `i`.
pub open spec fn occurs_at(h: Seq<char>, n: Seq<char>, i: int) -> bool {
    0 <= i && i + n.len() <= h.len() && h.subrange(i, i + n.len()) == n
}

/// `n` occurs somewhere in `h`.
pub open spec fn contains_text(h: Seq<char>, n: Seq<char>) -> bool {
    exists|i: int| occurs_at(h, n, i)
}

/// `h` begins with `n`.
pub open spec fn starts_with_text(h: Seq<char>, n: Seq<char>) -> bool {
    occurs_at(h, n, 0)
}

/// Does `n` occur in `h` at position `i`?
pub fn matches_at(h: &str, n: &str, i: usize) -> (r: bool)
    requires
        i + n@.len() <= h@.len(),
    ensures
        r == occurs_at(h@, n@, i as int),
{
    let m = n.unicode_len();
    let hl = h.unicode_len();
    let mut j: usize = 0;
    while j < m
        invariant
            m == n@.len(),
            hl == h@.len(),
            i + m <= h@.len(),
            j <= m,
            forall|t: int| 0 <= t < j ==> h@[i + t] == n@[t],
        decreases m - j,
    {
        if h.get_char(i + j) != n.get_char(j) {
            assert(h@.subrange(i as int, i + m)[j as int] != n@[j as int]);
            return false;
        }
        j = j + 1;
    }
    assert(h@.subrange(i as int, i + m) =~= n@);
    true
}

/// Does `h` begin with `n`?
pub fn starts_with_str(h: &str, n: &str) -> (r: bool)
    ensures
        r == starts_with_text(h@, n@),
{
    if n.unicode_len() > h.unicode_len() {
        return false;
    }
    matches_at(h, n, 0)
}

/// Does `n` occur in `h`?
pub fn contains_str(h: &str, n: &str) -> (r: bool)
    ensures
        r == contains_text(h@, n@),
{
    let hl = h.unicode_len();
    let nl = n.unicode_len();
    if nl > hl {
        return false;
    }
    let last = hl - nl;
    let mut i: usize = 0;
    loop
        invariant
            hl == h@.len(),
            nl == n@.len(),
            nl <= hl,
            last == hl - nl,
            i <= last,
            forall|k: int| 0 <= k < i ==> !#[trigger] occurs_at(h@, n@, k),
        decreases last - i,
    {
        if matches_at(h, n, i) {
            return true;
        }
        if i == last {
            assert forall|k: int| !#[trigger] occurs_at(h@, n@, k) by {
                if 0 <= k < i {
                }
            }
            return false;
        }
        i = i + 1;
    }
}


/// `h` ends with `n`.
pub open spec fn ends_with_text(h: Seq<char>, n: Seq<char>) -> bool {
    occurs_at(h, n, h.len() - n.len())
}

/// Does `h` end with `n`?
pub fn ends_with_str(h: &str, n: &str) -> (r: bool)
    ensures
        r == ends_with_text(h@, n@),
{
    let hl = h.unicode_len();
    let nl = n.unicode_len();
    if nl > hl {
        return false;
    }
    matches_at(h, n, hl - nl)
}

} // verus!

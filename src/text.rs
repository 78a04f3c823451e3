//! Character-level helpers on strings: search, prefixes and suffixes, trimming,
//! and decimal numbers, each stated as a spec function over `Seq<char>`.
use vstd::prelude::*;

verus! {

/// `p` occurs in `s` at position `i`.
pub open spec fn occurs_at(s: Seq<char>, p: Seq<char>, i: int) -> bool {
    0 <= i && i + p.len() <= s.len() && s.subrange(i, i + p.len()) == p
}

/// The first position at or after `i` where `p` occurs in `s`.
pub open spec fn find_from(s: Seq<char>, p: Seq<char>, i: int) -> Option<int>
    decreases s.len() + 1 - i,
{
    if i < 0 || i + p.len() > s.len() {
        None
    } else if occurs_at(s, p, i) {
        Some(i)
    } else {
        find_from(s, p, i + 1)
    }
}

pub open spec fn starts_with(s: Seq<char>, p: Seq<char>) -> bool {
    p.len() <= s.len() && s.subrange(0, p.len() as int) == p
}

pub open spec fn contains(s: Seq<char>, p: Seq<char>) -> bool {
    find_from(s, p, 0) is Some
}

/// `s` with every leading copy of a non-empty `p` removed (an empty `p` removes nothing).
pub open spec fn strip_prefix_all(s: Seq<char>, p: Seq<char>) -> Seq<char>
    decreases s.len(),
{
    if p.len() > 0 && starts_with(s, p) {
        strip_prefix_all(s.skip(p.len() as int), p)
    } else {
        s
    }
}

/// `s` without its leading run of `c`.
pub open spec fn trim_start_char(s: Seq<char>, c: char) -> Seq<char>
    decreases s.len(),
{
    if s.len() > 0 && s[0] == c {
        trim_start_char(s.drop_first(), c)
    } else {
        s
    }
}

/// `s` without its trailing run of `c`.
pub open spec fn trim_end_char(s: Seq<char>, c: char) -> Seq<char>
    decreases s.len(),
{
    if s.len() > 0 && s.last() == c {
        trim_end_char(s.drop_last(), c)
    } else {
        s
    }
}

/// The characters with the Unicode White_Space property.
pub open spec fn is_white_space(c: char) -> bool {
    ('\u{9}' <= c && c <= '\u{d}') || c == ' ' || c == '\u{85}' || c == '\u{a0}' || c
        == '\u{1680}' || ('\u{2000}' <= c && c <= '\u{200a}') || c == '\u{2028}' || c
        == '\u{2029}' || c == '\u{202f}' || c == '\u{205f}' || c == '\u{3000}'
}

pub open spec fn trim_start_white(s: Seq<char>) -> Seq<char>
    decreases s.len(),
{
    if s.len() > 0 && is_white_space(s[0]) {
        trim_start_white(s.drop_first())
    } else {
        s
    }
}

pub open spec fn trim_end_white(s: Seq<char>) -> Seq<char>
    decreases s.len(),
{
    if s.len() > 0 && is_white_space(s.last()) {
        trim_end_white(s.drop_last())
    } else {
        s
    }
}

/// `s` without leading and trailing white space.
pub open spec fn trim_white(s: Seq<char>) -> Seq<char> {
    trim_end_white(trim_start_white(s))
}

/// What follows the last `c` in `s`, or all of `s` when there is none.
pub open spec fn after_last(s: Seq<char>, c: char) -> Seq<char>
    decreases s.len(),
{
    if s.len() == 0 {
        s
    } else if s.last() == c {
        Seq::empty()
    } else {
        after_last(s.drop_last(), c).push(s.last())
    }
}

/// `s` with each occurrence of a non-empty `from`, scanned left to right without overlap,
/// replaced by `to`.
pub open spec fn replace_all(s: Seq<char>, from: Seq<char>, to: Seq<char>) -> Seq<char>
    decreases s.len(),
{
    if s.len() == 0 || from.len() == 0 {
        s
    } else if starts_with(s, from) {
        to + replace_all(s.skip(from.len() as int), from, to)
    } else {
        seq![s[0]] + replace_all(s.drop_first(), from, to)
    }
}

/// The decimal digits of a natural number, most significant first, without leading zeros.
pub open spec fn digits_of(n: nat) -> Seq<char>
    decreases n,
{
    if n < 10 {
        seq![digit_char(n)]
    } else {
        digits_of(n / 10).push(digit_char(n % 10))
    }
}

pub open spec fn digit_char(d: nat) -> char {
    (('0' as int) + d) as char
}

/// The decimal text of an integer, with a leading `-` when it is negative.
pub open spec fn decimal_text(n: int) -> Seq<char> {
    if n < 0 {
        seq!['-'] + digits_of((-n) as nat)
    } else {
        digits_of(n as nat)
    }
}

pub open spec fn is_digit(c: char) -> bool {
    '0' <= c && c <= '9'
}

pub open spec fn all_digits(s: Seq<char>) -> bool {
    forall|i: int| 0 <= i < s.len() ==> is_digit(#[trigger] s[i])
}

/// The value of a string of decimal digits.
pub open spec fn digits_value(s: Seq<char>) -> nat
    decreases s.len(),
{
    if s.len() == 0 {
        0
    } else {
        digits_value(s.drop_last()) * 10 + ((s.last() as int) - ('0' as int)) as nat
    }
}

/// The integer that `s` writes in base 10 with an optional sign, when it fits in an `isize`.
pub open spec fn parse_isize(s: Seq<char>) -> Option<int> {
    let signed = s.len() > 0 && (s[0] == '+' || s[0] == '-');
    let digits = if signed {
        s.drop_first()
    } else {
        s
    };
    let value = if signed && s[0] == '-' {
        -(digits_value(digits) as int)
    } else {
        digits_value(digits) as int
    };
    if digits.len() > 0 && all_digits(digits) && isize::MIN <= value <= isize::MAX {
        Some(value)
    } else {
        None
    }
}

/// The characters of `s`, one by one.
pub fn chars_of(s: &str) -> (r: Vec<char>)
    ensures
        r@ == s@,
{
    let mut v: Vec<char> = Vec::new();
    for c in it: s.chars()
        invariant
            v@ == it.seq().take(it.index() as int),
    {
        v.push(c);
    }
    v
}

/// Whether `p` occurs in `s` at position `i`.
pub fn occurs_at_exec(s: &Vec<char>, p: &Vec<char>, i: usize) -> (r: bool)
    ensures
        r == occurs_at(s@, p@, i as int),
{
    if i > s.len() || p.len() > s.len() - i {
        return false;
    }
    let mut j: usize = 0;
    while j < p.len()
        invariant
            i + p@.len() <= s@.len(),
            s@.len() <= usize::MAX,
            j <= p@.len(),
            forall|k: int| 0 <= k < j ==> s@[i + k] == p@[k],
        decreases p@.len() - j,
    {
        if s[i + j] != p[j] {
            assert(s@.subrange(i as int, i + p@.len())[j as int] != p@[j as int]);
            return false;
        }
        j = j + 1;
    }
    assert(s@.subrange(i as int, i + p@.len()) =~= p@);
    true
}

/// The first position at or after `start` where `p` occurs in `s`.
pub fn find_from_exec(s: &Vec<char>, p: &Vec<char>, start: usize) -> (r: Option<usize>)
    ensures
        r matches Some(i) ==> find_from(s@, p@, start as int) == Some(i as int),
        r is None ==> find_from(s@, p@, start as int) is None,
{
    if start > s.len() {
        return None;
    }
    let mut i = start;
    while p.len() <= s.len() - i
        invariant
            start <= i <= s@.len(),
            find_from(s@, p@, start as int) == find_from(s@, p@, i as int),
        decreases s@.len() + 1 - i,
    {
        if occurs_at_exec(s, p, i) {
            return Some(i);
        }
        if i == s.len() {
            assert(p@.len() > 0) by {
                if p@.len() == 0 {
                    assert(s@.subrange(i as int, i as int) =~= p@);
                }
            }
            return None;
        }
        i = i + 1;
    }
    None
}

pub proof fn lemma_find_from_bounds(s: Seq<char>, p: Seq<char>, i: int)
    ensures
        find_from(s, p, i) matches Some(j) ==> i <= j && j + p.len() <= s.len() && occurs_at(
            s,
            p,
            j,
        ),
    decreases s.len() + 1 - i,
{
    if !(i < 0 || i + p.len() > s.len()) && !occurs_at(s, p, i) {
        lemma_find_from_bounds(s, p, i + 1);
    }
}

/// The one-character string for the digit `d`.
fn digit_str(d: u128) -> (r: &'static str)
    requires
        d < 10,
    ensures
        r@ == seq![digit_char(d as nat)],
{
    let all = "0123456789";
    proof {
        reveal_strlit("0123456789");
    }
    let i = d as usize;
    all.substring_char(i, i + 1)
}

/// The decimal digits of `n`.
pub fn digits_string(n: u128) -> (r: String)
    ensures
        r@ == digits_of(n as nat),
    decreases n,
{
    if n < 10 {
        String::from_str(digit_str(n))
    } else {
        let mut s = digits_string(n / 10);
        s.append(digit_str(n % 10));
        s
    }
}

/// The decimal text of `n`.
pub fn decimal_string(n: i128) -> (r: String)
    ensures
        r@ == decimal_text(n as int),
{
    if n < 0 {
        let m: u128 = if n == i128::MIN {
            (i128::MAX as u128) + 1
        } else {
            (-n) as u128
        };
        proof {
            reveal_strlit("-");
        }
        String::from_str("-").concat(digits_string(m).as_str())
    } else {
        digits_string(n as u128)
    }
}

/// The first piece of `s[start..]`, cut at each occurrence of a non-empty `sep`,
/// that starts with `prefix`.
pub open spec fn first_piece_from(s: Seq<char>, sep: Seq<char>, prefix: Seq<char>, start: int) -> Option<
    Seq<char>,
>
    decreases s.len() + 1 - start,
{
    if start < 0 || start > s.len() || sep.len() == 0 {
        None
    } else {
        match find_from(s, sep, start) {
            Some(i) => {
                if start <= i && i + sep.len() <= s.len() {
                    if starts_with(s.subrange(start, i), prefix) {
                        Some(s.subrange(start, i))
                    } else {
                        first_piece_from(s, sep, prefix, i + sep.len())
                    }
                } else {
                    None
                }
            },
            None => {
                if starts_with(s.subrange(start, s.len() as int), prefix) {
                    Some(s.subrange(start, s.len() as int))
                } else {
                    None
                }
            },
        }
    }
}

/// The first piece of `s`, split at each occurrence of a non-empty `sep`, that starts
/// with `prefix`.
pub open spec fn first_piece(s: Seq<char>, sep: Seq<char>, prefix: Seq<char>) -> Option<Seq<char>> {
    first_piece_from(s, sep, prefix, 0)
}

/// Whether `s[a..b]` starts with `p`.
fn piece_starts_with(s: &Vec<char>, a: usize, b: usize, p: &Vec<char>) -> (r: bool)
    requires
        a <= b <= s@.len(),
    ensures
        r == starts_with(s@.subrange(a as int, b as int), p@),
{
    if p.len() > b - a {
        return false;
    }
    let r = occurs_at_exec(s, p, a);
    assert(s@.subrange(a as int, b as int).subrange(0, p@.len() as int) =~= s@.subrange(
        a as int,
        a + p@.len(),
    ));
    r
}

/// The bounds `(a, b)` of the first piece of `s`, split at each occurrence of `sep`,
/// that starts with `prefix`.
pub fn first_piece_bounds(s: &Vec<char>, sep: &Vec<char>, prefix: &Vec<char>) -> (r: Option<
    (usize, usize),
>)
    requires
        sep@.len() > 0,
    ensures
        r matches Some((a, b)) ==> a <= b <= s@.len() && first_piece(s@, sep@, prefix@) == Some(
            s@.subrange(a as int, b as int),
        ) && starts_with(s@.subrange(a as int, b as int), prefix@),
        r is None ==> first_piece(s@, sep@, prefix@) is None,
{
    let n = s.len();
    let mut start: usize = 0;
    loop
        invariant
            n == s@.len(),
            sep@.len() > 0,
            start <= s@.len(),
            first_piece(s@, sep@, prefix@) == first_piece_from(s@, sep@, prefix@, start as int),
        decreases s@.len() + 1 - start,
    {
        match find_from_exec(s, sep, start) {
            Some(i) => {
                proof {
                    lemma_find_from_bounds(s@, sep@, start as int);
                }
                if piece_starts_with(s, start, i, prefix) {
                    return Some((start, i));
                }
                start = i + sep.len();
            },
            None => {
                if piece_starts_with(s, start, s.len(), prefix) {
                    return Some((start, s.len()));
                }
                return None;
            },
        }
    }
}

pub proof fn lemma_subrange_skip(s: Seq<char>, a: int, b: int, k: int)
    requires
        0 <= a <= b <= s.len(),
        0 <= k <= b - a,
    ensures
        s.subrange(a, b).skip(k) == s.subrange(a + k, b),
{
    assert(s.subrange(a, b).skip(k) =~= s.subrange(a + k, b));
}

/// The start of `s[a..b]` once every leading copy of `p` is removed.
pub fn strip_prefix_all_from(s: &Vec<char>, a: usize, b: usize, p: &Vec<char>) -> (r: usize)
    requires
        a <= b <= s@.len(),
    ensures
        a <= r <= b,
        s@.subrange(r as int, b as int) == strip_prefix_all(s@.subrange(a as int, b as int), p@),
{
    if p.len() == 0 {
        return a;
    }
    let mut i = a;
    while piece_starts_with(s, i, b, p)
        invariant
            a <= i <= b <= s@.len(),
            p@.len() > 0,
            strip_prefix_all(s@.subrange(a as int, b as int), p@) == strip_prefix_all(
                s@.subrange(i as int, b as int),
                p@,
            ),
        decreases b - i,
    {
        proof {
            lemma_subrange_skip(s@, i as int, b as int, p@.len() as int);
        }
        i = i + p.len();
    }
    i
}

/// Whether `c` has the Unicode White_Space property.
pub fn is_white_space_exec(c: char) -> (r: bool)
    ensures
        r == is_white_space(c),
{
    ('\u{9}' <= c && c <= '\u{d}') || c == ' ' || c == '\u{85}' || c == '\u{a0}' || c
        == '\u{1680}' || ('\u{2000}' <= c && c <= '\u{200a}') || c == '\u{2028}' || c
        == '\u{2029}' || c == '\u{202f}' || c == '\u{205f}' || c == '\u{3000}'
}

pub proof fn lemma_subrange_drop_last(s: Seq<char>, a: int, b: int)
    requires
        0 <= a < b <= s.len(),
    ensures
        s.subrange(a, b).drop_last() == s.subrange(a, b - 1),
        s.subrange(a, b).last() == s[b - 1],
{
    assert(s.subrange(a, b).drop_last() =~= s.subrange(a, b - 1));
}

/// The bounds of `s[a..b]` without leading and trailing white space.
pub fn trim_white_bounds(s: &Vec<char>, a: usize, b: usize) -> (r: (usize, usize))
    requires
        a <= b <= s@.len(),
    ensures
        a <= r.0 <= r.1 <= b,
        s@.subrange(r.0 as int, r.1 as int) == trim_white(s@.subrange(a as int, b as int)),
{
    let mut i = a;
    while i < b && is_white_space_exec(s[i])
        invariant
            a <= i <= b <= s@.len(),
            trim_start_white(s@.subrange(a as int, b as int)) == trim_start_white(
                s@.subrange(i as int, b as int),
            ),
        decreases b - i,
    {
        proof {
            lemma_subrange_skip(s@, i as int, b as int, 1);
        }
        i = i + 1;
    }
    let mut j = b;
    while j > i && is_white_space_exec(s[j - 1])
        invariant
            a <= i <= j <= b <= s@.len(),
            trim_end_white(s@.subrange(i as int, b as int)) == trim_end_white(
                s@.subrange(i as int, j as int),
            ),
        decreases j - i,
    {
        proof {
            lemma_subrange_drop_last(s@, i as int, j as int);
        }
        j = j - 1;
    }
    (i, j)
}

/// `s[a..b]` with its leading and trailing runs of `c` removed.
pub open spec fn trim_char(s: Seq<char>, c: char) -> Seq<char> {
    trim_end_char(trim_start_char(s, c), c)
}

/// The bounds of `s[a..b]` without its leading and trailing runs of `c`.
pub fn trim_char_bounds(s: &Vec<char>, a: usize, b: usize, c: char) -> (r: (usize, usize))
    requires
        a <= b <= s@.len(),
    ensures
        a <= r.0 <= r.1 <= b,
        s@.subrange(r.0 as int, r.1 as int) == trim_char(s@.subrange(a as int, b as int), c),
{
    let mut i = a;
    while i < b && s[i] == c
        invariant
            a <= i <= b <= s@.len(),
            trim_start_char(s@.subrange(a as int, b as int), c) == trim_start_char(
                s@.subrange(i as int, b as int),
                c,
            ),
        decreases b - i,
    {
        proof {
            lemma_subrange_skip(s@, i as int, b as int, 1);
        }
        i = i + 1;
    }
    let mut j = b;
    while j > i && s[j - 1] == c
        invariant
            a <= i <= j <= b <= s@.len(),
            trim_end_char(s@.subrange(i as int, b as int), c) == trim_end_char(
                s@.subrange(i as int, j as int),
                c,
            ),
        decreases j - i,
    {
        proof {
            lemma_subrange_drop_last(s@, i as int, j as int);
        }
        j = j - 1;
    }
    (i, j)
}

/// Where the text after the last `c` in `s` starts.
pub fn after_last_start(s: &Vec<char>, c: char) -> (r: usize)
    ensures
        r <= s@.len(),
        s@.subrange(r as int, s@.len() as int) == after_last(s@, c),
{
    let n = s.len();
    let mut k = n;
    proof {
        assert(s@.take(n as int) =~= s@);
        assert(s@ =~= s@ + s@.subrange(n as int, n as int));
    }
    while k > 0 && s[k - 1] != c
        invariant
            k <= n == s@.len(),
            after_last(s@, c) == after_last(s@.take(k as int), c) + s@.subrange(k as int, n as int),
        decreases k,
    {
        proof {
            assert(s@.take(k as int).drop_last() =~= s@.take(k - 1));
            assert(s@.subrange(k - 1, n as int) =~= seq![s@[k - 1]] + s@.subrange(k as int, n as int));
            assert(after_last(s@.take(k - 1), c).push(s@[k - 1]) + s@.subrange(k as int, n as int)
                =~= after_last(s@.take(k - 1), c) + s@.subrange(k - 1, n as int));
        }
        k = k - 1;
    }
    proof {
        if k == 0 {
            assert(s@.take(0) =~= Seq::<char>::empty());
        }
        assert(s@.subrange(k as int, n as int) =~= Seq::<char>::empty() + s@.subrange(
            k as int,
            n as int,
        ));
    }
    k
}

/// `s` with each occurrence of a non-empty `from`, scanned left to right, replaced by `to`.
pub fn replace_all_string(s: &str, from: &str, to: &str) -> (r: String)
    requires
        from@.len() > 0,
    ensures
        r@ == replace_all(s@, from@, to@),
{
    let cs = chars_of(s);
    let fs = chars_of(from);
    let n = cs.len();
    let mut out = String::new();
    let mut i: usize = 0;
    proof {
        assert(s@.skip(0) =~= s@);
        assert(out@ + replace_all(s@, from@, to@) =~= replace_all(s@, from@, to@));
    }
    while i < n
        invariant
            n == cs@.len() == s@.len(),
            cs@ == s@,
            fs@ == from@,
            from@.len() > 0,
            i <= n,
            replace_all(s@, from@, to@) == out@ + replace_all(s@.skip(i as int), from@, to@),
        decreases n - i,
    {
        let ghost rest = s@.skip(i as int);
        if occurs_at_exec(&cs, &fs, i) {
            proof {
                assert(rest.subrange(0, from@.len() as int) =~= s@.subrange(
                    i as int,
                    i + from@.len(),
                ));
                assert(rest.skip(from@.len() as int) =~= s@.skip(i + from@.len()));
                assert(replace_all(rest, from@, to@) == to@ + replace_all(
                    s@.skip(i + from@.len()),
                    from@,
                    to@,
                ));
                assert(out@ + (to@ + replace_all(s@.skip(i + from@.len()), from@, to@)) =~= (out@
                    + to@) + replace_all(s@.skip(i + from@.len()), from@, to@));
            }
            out.append(to);
            i = i + fs.len();
        } else {
            proof {
                if starts_with(rest, from@) {
                    assert(rest.subrange(0, from@.len() as int) =~= s@.subrange(
                        i as int,
                        i + from@.len(),
                    ));
                }
                assert(rest.drop_first() =~= s@.skip(i + 1));
                assert(s@.subrange(i as int, i + 1) =~= seq![rest[0]]);
                assert(replace_all(rest, from@, to@) == seq![rest[0]] + replace_all(
                    s@.skip(i + 1),
                    from@,
                    to@,
                ));
                assert(out@ + (seq![rest[0]] + replace_all(s@.skip(i + 1), from@, to@)) =~= (out@
                    + seq![rest[0]]) + replace_all(s@.skip(i + 1), from@, to@));
            }
            out.append(s.substring_char(i, i + 1));
            i = i + 1;
        }
    }
    proof {
        assert(s@.skip(i as int) =~= Seq::<char>::empty());
        assert(out@ + Seq::<char>::empty() =~= out@);
    }
    out
}

/// A longer string of digits is worth at least as much as its prefixes.
pub proof fn lemma_digits_value_prefix(s: Seq<char>, i: int)
    requires
        0 <= i <= s.len(),
    ensures
        digits_value(s.take(i)) <= digits_value(s),
    decreases s.len(),
{
    if i < s.len() {
        assert(s.drop_last().take(i) =~= s.take(i));
        lemma_digits_value_prefix(s.drop_last(), i);
    } else {
        assert(s.take(i) =~= s);
    }
}

/// The integer that `cs[a..b]` writes in base 10, with an optional sign, when it fits in an
/// `isize`.
pub fn parse_isize_exec(cs: &Vec<char>, a: usize, b: usize) -> (r: Option<isize>)
    requires
        a <= b <= cs@.len(),
    ensures
        r matches Some(v) ==> parse_isize(cs@.subrange(a as int, b as int)) == Some(v as int),
        r is None ==> parse_isize(cs@.subrange(a as int, b as int)) is None,
{
    let ghost s = cs@.subrange(a as int, b as int);
    if a == b {
        return None;
    }
    let first = cs[a];
    let signed = first == '+' || first == '-';
    let negative = first == '-';
    let d: usize = if signed {
        a + 1
    } else {
        a
    };
    let ghost digits = cs@.subrange(d as int, b as int);
    proof {
        assert(s[0] == first);
        if signed {
            assert(s.drop_first() =~= digits);
        } else {
            assert(s =~= digits);
        }
    }
    if d == b {
        return None;
    }
    let limit: u128 = (isize::MAX as u128) + 1;
    let mut value: u128 = 0;
    let mut i = d;
    proof {
        assert(digits.take(0) =~= Seq::<char>::empty());
    }
    while i < b
        invariant
            a <= d <= i <= b <= cs@.len(),
            digits == cs@.subrange(d as int, b as int),
            limit == (isize::MAX as u128) + 1,
            s == cs@.subrange(a as int, b as int),
            s.len() > 0,
            signed == (s[0] == '+' || s[0] == '-'),
            negative == (s[0] == '-'),
            signed ==> s.drop_first() == digits,
            !signed ==> s == digits,
            value <= limit,
            value == digits_value(digits.take(i - d)),
            all_digits(digits.take(i - d)),
        decreases b - i,
    {
        let c = cs[i];
        if !('0' <= c && c <= '9') {
            proof {
                assert(digits[i - d] == c);
            }
            return None;
        }
        let ghost k = i - d;
        proof {
            assert(digits.take(k + 1).drop_last() =~= digits.take(k));
            assert(digits.take(k + 1).last() == c);
        }
        value = value * 10 + ((c as u32) - ('0' as u32)) as u128;
        i = i + 1;
        proof {
            assert forall|j: int| 0 <= j < digits.take(k + 1).len() implies is_digit(
                #[trigger] digits.take(k + 1)[j],
            ) by {
                if j < k {
                    assert(digits.take(k + 1)[j] == digits.take(k)[j]);
                }
            }
        }
        if value > limit {
            proof {
                lemma_digits_value_prefix(digits, k + 1);
            }
            return None;
        }
    }
    proof {
        assert(digits.take(b - d) =~= digits);
    }
    let magnitude = value as i128;
    let v: i128 = if negative {
        -magnitude
    } else {
        magnitude
    };
    if v < isize::MIN as i128 || v > isize::MAX as i128 {
        return None;
    }
    Some(v as isize)
}

/// `find_from` finds the first occurrence: there is none before what it finds, and none at
/// all when it finds nothing.
pub proof fn lemma_find_from_first(s: Seq<char>, p: Seq<char>, i: int)
    requires
        0 <= i,
    ensures
        match find_from(s, p, i) {
            Some(j) => forall|k: int| i <= k < j ==> !occurs_at(s, p, k),
            None => forall|k: int| k >= i ==> !occurs_at(s, p, k),
        },
    decreases s.len() + 1 - i,
{
    if !(i + p.len() > s.len()) && !occurs_at(s, p, i) {
        lemma_find_from_first(s, p, i + 1);
    }
}

/// No piece between separators holds the separator.
pub proof fn lemma_first_piece_free(s: Seq<char>, sep: Seq<char>, prefix: Seq<char>, start: int)
    requires
        0 <= start,
    ensures
        first_piece_from(s, sep, prefix, start) matches Some(v) ==> forall|k: int|
            !occurs_at(v, sep, k),
    decreases s.len() + 1 - start,
{
    if !(start > s.len() || sep.len() == 0) {
        lemma_find_from_first(s, sep, start);
        match find_from(s, sep, start) {
            Some(i) => {
                if start <= i && i + sep.len() <= s.len() {
                    if !starts_with(s.subrange(start, i), prefix) {
                        lemma_first_piece_free(s, sep, prefix, i + sep.len());
                    } else {
                        let v = s.subrange(start, i);
                        assert forall|k: int| !occurs_at(v, sep, k) by {
                            if occurs_at(v, sep, k) {
                                assert(v.subrange(k, k + sep.len()) =~= s.subrange(
                                    start + k,
                                    start + k + sep.len(),
                                ));
                                assert(occurs_at(s, sep, start + k));
                            }
                        }
                    }
                }
            },
            None => {
                let v = s.subrange(start, s.len() as int);
                assert forall|k: int| !occurs_at(v, sep, k) by {
                    if occurs_at(v, sep, k) {
                        assert(v.subrange(k, k + sep.len()) =~= s.subrange(
                            start + k,
                            start + k + sep.len(),
                        ));
                        assert(occurs_at(s, sep, start + k));
                    }
                }
            },
        }
    }
}

/// What `strip_prefix_all` leaves is a suffix of its input.
pub proof fn lemma_strip_prefix_all_suffix(s: Seq<char>, p: Seq<char>)
    ensures
        strip_prefix_all(s, p).len() <= s.len(),
        strip_prefix_all(s, p) == s.skip(s.len() - strip_prefix_all(s, p).len()),
    decreases s.len(),
{
    if p.len() > 0 && starts_with(s, p) {
        let t = s.skip(p.len() as int);
        lemma_strip_prefix_all_suffix(t, p);
        assert(t.skip(t.len() - strip_prefix_all(t, p).len()) =~= s.skip(
            s.len() - strip_prefix_all(t, p).len(),
        ));
    } else {
        assert(s.skip(0) =~= s);
    }
}

} // verus!

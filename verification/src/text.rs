//! Searching, splitting and replacing in text, stated over sequences of
//! characters and implemented on string slices.

use vstd::prelude::*;
use vstd::string::*;

verus! {

/// `pat` occurs in `s` starting at index `i`.
pub open spec fn matches_at(s: Seq<char>, pat: Seq<char>, i: int) -> bool {
    0 <= i && i + pat.len() <= s.len() && s.subrange(i, i + pat.len()) == pat
}

/// The first index at or after `from` where `pat` occurs in `s`.
pub open spec fn find_from(s: Seq<char>, pat: Seq<char>, from: int) -> Option<int>
    decreases s.len() + 1 - from,
{
    if from < 0 || from + pat.len() > s.len() {
        None
    } else if matches_at(s, pat, from) {
        Some(from)
    } else {
        find_from(s, pat, from + 1)
    }
}

/// The index of the leftmost occurrence of `pat` in `s`.
pub open spec fn find(s: Seq<char>, pat: Seq<char>) -> Option<int> {
    find_from(s, pat, 0)
}

/// `pat` occurs somewhere in `s`.
pub open spec fn contains(s: Seq<char>, pat: Seq<char>) -> bool {
    exists|i: int| matches_at(s, pat, i)
}

/// What `find_from` returns is the least match at or after `from`.
pub proof fn lemma_find_from(s: Seq<char>, pat: Seq<char>, from: int)
    requires
        0 <= from,
    ensures
        match find_from(s, pat, from) {
            Some(i) => from <= i && matches_at(s, pat, i) && forall|j: int|
                from <= j < i ==> !matches_at(s, pat, j),
            None => forall|j: int| from <= j ==> !matches_at(s, pat, j),
        },
    decreases s.len() + 1 - from,
{
    if from + pat.len() > s.len() {
    } else if matches_at(s, pat, from) {
    } else {
        lemma_find_from(s, pat, from + 1);
    }
}

/// A match with no match before it is the one `find_from` returns.
pub proof fn lemma_find_from_is(s: Seq<char>, pat: Seq<char>, from: int, i: int)
    requires
        0 <= from <= i,
        matches_at(s, pat, i),
        forall|j: int| from <= j < i ==> !matches_at(s, pat, j),
    ensures
        find_from(s, pat, from) == Some(i),
{
    lemma_find_from(s, pat, from);
}

/// Without a match at or after `from`, `find_from` returns nothing.
pub proof fn lemma_find_from_none(s: Seq<char>, pat: Seq<char>, from: int)
    requires
        0 <= from,
        forall|j: int| from <= j ==> !matches_at(s, pat, j),
    ensures
        find_from(s, pat, from) is None,
{
    lemma_find_from(s, pat, from);
}

/// `contains` holds exactly when `find` returns an index.
pub proof fn lemma_contains_iff_find(s: Seq<char>, pat: Seq<char>)
    ensures
        contains(s, pat) <==> find(s, pat) is Some,
{
    lemma_find_from(s, pat, 0);
}

/// The characters of a string slice, in order.
pub fn chars_of(s: &str) -> (v: Vec<char>)
    ensures
        v@ == s@,
{
    let mut v: Vec<char> = Vec::new();
    for c in it: s.chars()
        invariant
            it.seq() == s@,
            v@ == s@.take(it.index() as int),
    {
        v.push(c);
    }
    v
}

/// The part of `s` before the leftmost occurrence of `pat` and the part after
/// it, when `pat` occurs. An empty pattern separates nothing.
pub open spec fn split_once(s: Seq<char>, pat: Seq<char>) -> Option<(Seq<char>, Seq<char>)> {
    match find(s, pat) {
        Some(i) if pat.len() > 0 => Some((s.take(i), s.skip(i + pat.len()))),
        _ => None,
    }
}

/// The pieces of `s` between the non-overlapping occurrences of `pat`, found
/// from left to right. There is always at least one piece. (What follows a
/// match is always shorter than `s`; the test only shows that the recursion
/// ends.)
pub open spec fn split(s: Seq<char>, pat: Seq<char>) -> Seq<Seq<char>>
    decreases s.len(),
{
    match split_once(s, pat) {
        Some((head, rest)) => if rest.len() < s.len() {
            seq![head] + split(rest, pat)
        } else {
            seq![s]
        },
        None => seq![s],
    }
}

/// `s` with every non-overlapping occurrence of `from`, found from left to
/// right, replaced by `to`.
pub open spec fn replace(s: Seq<char>, from: Seq<char>, to: Seq<char>) -> Seq<char>
    decreases s.len(),
{
    match split_once(s, from) {
        Some((head, rest)) => if rest.len() < s.len() {
            head + to + replace(rest, from, to)
        } else {
            s
        },
        None => s,
    }
}

/// Where `split_once` cuts, the parts and the pattern between them make up
/// `s`, and the pattern does not occur earlier. Where it does not cut, the
/// pattern is empty or does not occur.
pub proof fn lemma_split_once_parts(s: Seq<char>, pat: Seq<char>)
    ensures
        match split_once(s, pat) {
            Some((head, rest)) => s == head + pat + rest && rest.len() < s.len() && find(s, pat)
                == Some(head.len() as int),
            None => pat.len() == 0 || !contains(s, pat),
        },
{
    lemma_find_from(s, pat, 0);
    match split_once(s, pat) {
        Some((head, rest)) => {
            assert(s =~= head + pat + rest);
        },
        None => {},
    }
}

/// The pieces joined, with `sep` between each two.
pub open spec fn join(pieces: Seq<Seq<char>>, sep: Seq<char>) -> Seq<char>
    decreases pieces.len(),
{
    if pieces.len() == 0 {
        Seq::empty()
    } else if pieces.len() == 1 {
        pieces[0]
    } else {
        pieces[0] + sep + join(pieces.skip(1), sep)
    }
}

/// Joining the pieces of a split with the pattern gives the text back, and
/// joining them with another text is replacing the pattern by it.
pub proof fn lemma_join_split(s: Seq<char>, pat: Seq<char>, to: Seq<char>)
    ensures
        join(split(s, pat), pat) == s,
        join(split(s, pat), to) == replace(s, pat, to),
    decreases s.len(),
{
    lemma_split_once_parts(s, pat);
    match split_once(s, pat) {
        Some((head, rest)) => {
            lemma_join_split(rest, pat, to);
            lemma_split_nonempty(rest, pat);
            let pieces = seq![head] + split(rest, pat);
            assert(pieces.skip(1) =~= split(rest, pat));
            assert(pieces[0] == head);
        },
        None => {},
    }
}

/// No piece of a split holds the pattern.
pub proof fn lemma_split_pieces(s: Seq<char>, pat: Seq<char>)
    requires
        pat.len() > 0,
    ensures
        forall|k: int| 0 <= k < split(s, pat).len() ==> !contains(#[trigger] split(s, pat)[k], pat),
    decreases s.len(),
{
    lemma_split_once_parts(s, pat);
    lemma_find_from(s, pat, 0);
    match split_once(s, pat) {
        Some((head, rest)) => {
            lemma_split_pieces(rest, pat);
            assert forall|i: int| !matches_at(head, pat, i) by {
                if matches_at(head, pat, i) {
                    assert(s.subrange(i, i + pat.len()) =~= head.subrange(i, i + pat.len()));
                    assert(matches_at(s, pat, i));
                }
            }
            let pieces = seq![head] + split(rest, pat);
            assert forall|k: int| 0 <= k < pieces.len() implies !contains(
                #[trigger] pieces[k],
                pat,
            ) by {
                if k > 0 {
                    assert(pieces[k] == split(rest, pat)[k - 1]);
                }
            }
        },
        None => {},
    }
}

/// Splitting yields at least one piece.
pub proof fn lemma_split_nonempty(s: Seq<char>, pat: Seq<char>)
    ensures
        split(s, pat).len() > 0,
{
}

/// The views of a sequence of strings.
pub open spec fn views(v: Seq<String>) -> Seq<Seq<char>> {
    Seq::new(v.len(), |i: int| v[i]@)
}

/// A match in a suffix of `s` is a match in `s`, shifted.
pub proof fn lemma_matches_at_skip(s: Seq<char>, pat: Seq<char>, from: int, i: int)
    requires
        0 <= from <= s.len(),
    ensures
        matches_at(s.skip(from), pat, i) <==> (0 <= i && matches_at(s, pat, from + i)),
{
    if 0 <= i && from + i + pat.len() <= s.len() {
        assert(s.skip(from).subrange(i, i + pat.len()) =~= s.subrange(
            from + i,
            from + i + pat.len(),
        ));
    }
}

/// Searching `s` from `from` on is searching the suffix of `s` that starts at
/// `from`.
pub proof fn lemma_find_skip(s: Seq<char>, pat: Seq<char>, from: int)
    requires
        0 <= from <= s.len(),
    ensures
        find(s.skip(from), pat) == match find_from(s, pat, from) {
            Some(i) => Some(i - from),
            None => None,
        },
{
    lemma_find_from(s, pat, from);
    assert forall|j: int| matches_at(s.skip(from), pat, j) <==> (0 <= j && matches_at(
        s,
        pat,
        from + j,
    )) by {
        lemma_matches_at_skip(s, pat, from, j);
    }
    match find_from(s, pat, from) {
        Some(i) => {
            lemma_find_from_is(s.skip(from), pat, 0, i - from);
        },
        None => {
            lemma_find_from_none(s.skip(from), pat, 0);
        },
    }
}

/// Whether `pat` occurs in `s` at index `i`.
fn occurs_at(s: &Vec<char>, pat: &Vec<char>, i: usize) -> (b: bool)
    requires
        i + pat.len() <= s.len(),
    ensures
        b == matches_at(s@, pat@, i as int),
{
    let m = pat.len();
    let mut k: usize = 0;
    while k < m
        invariant
            m == pat.len(),
            i + m <= s.len(),
            k <= m,
            forall|j: int| 0 <= j < k ==> s@[i + j] == pat@[j],
        decreases m - k,
    {
        if s[i + k] != pat[k] {
            assert(s@.subrange(i as int, i + m)[k as int] != pat@[k as int]);
            return false;
        }
        k += 1;
    }
    assert(s@.subrange(i as int, i + m) =~= pat@);
    true
}

/// The first index at or after `from` where `pat` occurs in `s`.
pub fn find_chars(s: &Vec<char>, pat: &Vec<char>, from: usize) -> (r: Option<usize>)
    ensures
        match r {
            Some(i) => find_from(s@, pat@, from as int) == Some(i as int),
            None => find_from(s@, pat@, from as int) is None,
        },
{
    let n = s.len();
    let m = pat.len();
    if m > n || from > n - m {
        return None;
    }
    let last = n - m;
    let mut i: usize = from;
    loop
        invariant
            n == s.len(),
            m == pat.len(),
            last == n - m,
            from <= i <= last,
            find_from(s@, pat@, from as int) == find_from(s@, pat@, i as int),
        decreases last - i,
    {
        if occurs_at(s, pat, i) {
            return Some(i);
        }
        if i == last {
            assert(find_from(s@, pat@, i + 1) is None);
            return None;
        }
        i += 1;
    }
}

/// Whether `pat` occurs somewhere in `s`.
pub fn contains_str(s: &str, pat: &str) -> (b: bool)
    ensures
        b == contains(s@, pat@),
{
    let cs = chars_of(s);
    let ps = chars_of(pat);
    proof {
        lemma_contains_iff_find(s@, pat@);
    }
    find_chars(&cs, &ps, 0).is_some()
}

/// Cuts `s` at the leftmost occurrence of `pat`.
pub fn split_once_str(s: &str, pat: &str) -> (r: Option<(String, String)>)
    ensures
        match r {
            Some((head, rest)) => split_once(s@, pat@) == Some((head@, rest@)),
            None => split_once(s@, pat@) is None,
        },
{
    let cs = chars_of(s);
    let ps = chars_of(pat);
    let n = cs.len();
    let m = ps.len();
    if m == 0 {
        return None;
    }
    match find_chars(&cs, &ps, 0) {
        Some(i) => {
            proof {
                lemma_find_from(s@, pat@, 0);
            }
            let head = s.substring_char(0, i).to_owned();
            let rest = s.substring_char(i + m, n).to_owned();
            Some((head, rest))
        },
        None => None,
    }
}

/// Cutting a suffix of `s` at its first match, in terms of `s` itself.
pub proof fn lemma_split_once_skip(s: Seq<char>, pat: Seq<char>, pos: int)
    requires
        0 <= pos <= s.len(),
        pat.len() > 0,
    ensures
        match find_from(s, pat, pos) {
            Some(i) => pos <= i && i + pat.len() <= s.len() && split_once(s.skip(pos), pat)
                == Some((s.subrange(pos, i), s.skip(i + pat.len()))),
            None => split_once(s.skip(pos), pat) is None,
        },
{
    lemma_find_from(s, pat, pos);
    lemma_find_skip(s, pat, pos);
    match find_from(s, pat, pos) {
        Some(i) => {
            assert(s.skip(pos).take(i - pos) =~= s.subrange(pos, i));
            assert(s.skip(pos).skip(i - pos + pat.len()) =~= s.skip(i + pat.len()));
        },
        None => {},
    }
}

/// Pushing a string onto a vector pushes its view onto the views.
pub proof fn lemma_views_push(v: Seq<String>, x: String)
    ensures
        views(v.push(x)) == views(v).push(x@),
{
    assert(views(v.push(x)) =~= views(v).push(x@));
}

/// Splits `s` at every occurrence of `pat`.
pub fn split_str(s: &str, pat: &str) -> (r: Vec<String>)
    ensures
        views(r@) == split(s@, pat@),
{
    let cs = chars_of(s);
    let ps = chars_of(pat);
    let n = cs.len();
    let m = ps.len();
    let mut out: Vec<String> = Vec::new();
    if m == 0 {
        out.push(s.to_owned());
        assert(views(out@) =~= seq![s@]);
        return out;
    }
    let mut pos: usize = 0;
    assert(s@.skip(0) =~= s@);
    assert(views(out@) + split(s@, pat@) =~= split(s@, pat@));
    loop
        invariant
            cs@ == s@,
            ps@ == pat@,
            n == cs.len(),
            m == ps.len(),
            m > 0,
            pos <= n,
            split(s@, pat@) == views(out@) + split(s@.skip(pos as int), pat@),
        decreases n - pos,
    {
        proof {
            lemma_split_once_skip(s@, pat@, pos as int);
        }
        match find_chars(&cs, &ps, pos) {
            Some(i) => {
                let piece = s.substring_char(pos, i).to_owned();
                proof {
                    lemma_views_push(out@, piece);
                    assert(views(out@) + (seq![piece@] + split(s@.skip(i + m), pat@)) =~= views(
                        out@,
                    ).push(piece@) + split(s@.skip(i + m), pat@));
                }
                out.push(piece);
                pos = i + m;
            },
            None => {
                let piece = s.substring_char(pos, n).to_owned();
                proof {
                    lemma_views_push(out@, piece);
                    assert(s@.subrange(pos as int, n as int) =~= s@.skip(pos as int));
                    assert(views(out@) + seq![piece@] =~= views(out@).push(piece@));
                }
                out.push(piece);
                return out;
            },
        }
    }
}

/// Replaces every occurrence of `from` in `s` by `to`.
pub fn replace_str(s: &str, from: &str, to: &str) -> (r: String)
    ensures
        r@ == replace(s@, from@, to@),
{
    let cs = chars_of(s);
    let ps = chars_of(from);
    let n = cs.len();
    let m = ps.len();
    if m == 0 {
        return s.to_owned();
    }
    let mut out = String::new();
    let mut pos: usize = 0;
    assert(s@.skip(0) =~= s@);
    assert(out@ + replace(s@, from@, to@) =~= replace(s@, from@, to@));
    loop
        invariant
            cs@ == s@,
            ps@ == from@,
            n == cs.len(),
            m == ps.len(),
            m > 0,
            pos <= n,
            replace(s@, from@, to@) == out@ + replace(s@.skip(pos as int), from@, to@),
        decreases n - pos,
    {
        proof {
            lemma_split_once_skip(s@, from@, pos as int);
        }
        match find_chars(&cs, &ps, pos) {
            Some(i) => {
                let ghost before = out@;
                out.append(s.substring_char(pos, i));
                out.append(to);
                proof {
                    let rest = replace(s@.skip(i + m), from@, to@);
                    assert(before + (s@.subrange(pos as int, i as int) + to@ + rest) =~= out@
                        + rest);
                }
                pos = i + m;
            },
            None => {
                out.append(s.substring_char(pos, n));
                proof {
                    assert(s@.subrange(pos as int, n as int) =~= s@.skip(pos as int));
                }
                return out;
            },
        }
    }
}

/// The characters that count as white space: the Unicode `White_Space`
/// code points.
pub open spec fn is_whitespace(c: char) -> bool {
    let n = c as u32;
    (0x09 <= n <= 0x0D) || n == 0x20 || n == 0x85 || n == 0xA0 || n == 0x1680 || (0x2000 <= n
        <= 0x200A) || n == 0x2028 || n == 0x2029 || n == 0x202F || n == 0x205F || n == 0x3000
}

/// `s` without the white space at its end.
pub open spec fn trim_end(s: Seq<char>) -> Seq<char>
    decreases s.len(),
{
    if s.len() > 0 && is_whitespace(s.last()) {
        trim_end(s.drop_last())
    } else {
        s
    }
}

/// What `trim_end` returns is the longest prefix of `s` that does not end in
/// white space: all that it leaves out is white space.
pub proof fn lemma_trim_end(s: Seq<char>)
    ensures
        trim_end(s).len() <= s.len(),
        trim_end(s) == s.take(trim_end(s).len() as int),
        trim_end(s).len() > 0 ==> !is_whitespace(trim_end(s).last()),
        forall|i: int| trim_end(s).len() <= i < s.len() ==> is_whitespace(#[trigger] s[i]),
    decreases s.len(),
{
    if s.len() > 0 && is_whitespace(s.last()) {
        lemma_trim_end(s.drop_last());
        assert(s.drop_last().take(trim_end(s).len() as int) =~= s.take(trim_end(s).len() as int));
        assert forall|i: int| trim_end(s).len() <= i < s.len() implies is_whitespace(
            #[trigger] s[i],
        ) by {
            if i < s.len() - 1 {
                assert(s[i] == s.drop_last()[i]);
            }
        }
    } else {
        assert(s.take(s.len() as int) =~= s);
    }
}

/// Whether `c` is white space.
pub fn is_whitespace_char(c: char) -> (b: bool)
    ensures
        b == is_whitespace(c),
{
    let n = c as u32;
    (0x09 <= n && n <= 0x0D) || n == 0x20 || n == 0x85 || n == 0xA0 || n == 0x1680 || (0x2000 <= n
        && n <= 0x200A) || n == 0x2028 || n == 0x2029 || n == 0x202F || n == 0x205F || n == 0x3000
}

/// Removes the white space at the end of `s`.
pub fn trim_end_str(s: &str) -> (r: &str)
    ensures
        r@ == trim_end(s@),
{
    let cs = chars_of(s);
    let mut end: usize = cs.len();
    assert(s@.take(end as int) =~= s@);
    while end > 0 && is_whitespace_char(cs[end - 1])
        invariant
            cs@ == s@,
            end <= cs.len(),
            trim_end(s@) == trim_end(s@.take(end as int)),
        decreases end,
    {
        assert(s@.take(end as int).drop_last() =~= s@.take(end - 1));
        end -= 1;
    }
    s.substring_char(0, end)
}

/// The character that stands for a digit below ten.
pub open spec fn digit_char(d: nat) -> char {
    if d == 0 {
        '0'
    } else if d == 1 {
        '1'
    } else if d == 2 {
        '2'
    } else if d == 3 {
        '3'
    } else if d == 4 {
        '4'
    } else if d == 5 {
        '5'
    } else if d == 6 {
        '6'
    } else if d == 7 {
        '7'
    } else if d == 8 {
        '8'
    } else {
        '9'
    }
}

/// The decimal numeral of `n`, without leading zeros.
pub open spec fn decimal(n: nat) -> Seq<char>
    decreases n,
{
    if n < 10 {
        seq![digit_char(n)]
    } else {
        decimal(n / 10).push(digit_char(n % 10))
    }
}

/// The one-character string of a digit.
fn digit_str(d: usize) -> (s: &'static str)
    requires
        d < 10,
    ensures
        s@ == seq![digit_char(d as nat)],
{
    proof {
        reveal_strlit("0");
        reveal_strlit("1");
        reveal_strlit("2");
        reveal_strlit("3");
        reveal_strlit("4");
        reveal_strlit("5");
        reveal_strlit("6");
        reveal_strlit("7");
        reveal_strlit("8");
        reveal_strlit("9");
    }
    let s = if d == 0 {
        "0"
    } else if d == 1 {
        "1"
    } else if d == 2 {
        "2"
    } else if d == 3 {
        "3"
    } else if d == 4 {
        "4"
    } else if d == 5 {
        "5"
    } else if d == 6 {
        "6"
    } else if d == 7 {
        "7"
    } else if d == 8 {
        "8"
    } else {
        "9"
    };
    assert(s@ =~= seq![digit_char(d as nat)]);
    s
}

/// Writes `n` in decimal.
pub fn decimal_string(n: usize) -> (s: String)
    ensures
        s@ == decimal(n as nat),
    decreases n,
{
    if n < 10 {
        digit_str(n).to_owned()
    } else {
        let mut s = decimal_string(n / 10);
        s.append(digit_str(n % 10));
        s
    }
}

/// The value of a decimal digit.
pub open spec fn digit_value(c: char) -> Option<nat> {
    let n = c as u32;
    if 0x30 <= n <= 0x39 {
        Some((n - 0x30) as nat)
    } else {
        None
    }
}

/// Every character of `s` is a decimal digit.
pub open spec fn all_digits(s: Seq<char>) -> bool {
    forall|i: int| 0 <= i < s.len() ==> (#[trigger] digit_value(s[i])) is Some
}

/// The number that a sequence of decimal digits writes.
pub open spec fn digits_value(s: Seq<char>) -> nat
    decreases s.len(),
{
    if s.len() == 0 {
        0
    } else {
        digits_value(s.drop_last()) * 10 + digit_value(s.last()).unwrap_or(0)
    }
}

/// The unsigned integer that `s` writes: an optional `+`, then one or more
/// decimal digits whose value fits in a `usize`.
pub open spec fn parse_usize(s: Seq<char>) -> Option<usize> {
    let digits = if s.len() > 0 && s[0] == '+' {
        s.skip(1)
    } else {
        s
    };
    if digits.len() > 0 && all_digits(digits) && digits_value(digits) <= usize::MAX {
        Some(digits_value(digits) as usize)
    } else {
        None
    }
}

/// A longer numeral is worth at least as much as any of its prefixes.
pub proof fn lemma_digits_value_prefix(s: Seq<char>, k: int)
    requires
        0 <= k <= s.len(),
    ensures
        digits_value(s.take(k)) <= digits_value(s),
    decreases s.len(),
{
    if k == s.len() {
        assert(s.take(k) =~= s);
    } else {
        assert(s.drop_last().take(k) =~= s.take(k));
        lemma_digits_value_prefix(s.drop_last(), k);
    }
}

/// The decimal numeral of a number is made of digits and is worth the
/// number.
pub proof fn lemma_decimal_digits(n: nat)
    ensures
        decimal(n).len() > 0,
        all_digits(decimal(n)),
        digits_value(decimal(n)) == n,
    decreases n,
{
    let d = if n < 10 {
        n
    } else {
        n % 10
    };
    assert(digit_value(digit_char(d)) == Some(d));
    assert(decimal(n).last() == digit_char(d));
    if n < 10 {
        assert(decimal(n).drop_last() =~= Seq::<char>::empty());
        assert(digits_value(Seq::<char>::empty()) == 0);
    } else {
        lemma_decimal_digits(n / 10);
        assert(decimal(n).drop_last() =~= decimal(n / 10));
        assert(digits_value(decimal(n)) == digits_value(decimal(n / 10)) * 10 + d);
        assert forall|i: int| 0 <= i < decimal(n).len() implies (#[trigger] digit_value(
            decimal(n)[i],
        )) is Some by {
            if i < decimal(n).len() - 1 {
                assert(decimal(n)[i] == decimal(n / 10)[i]);
            }
        }
    }
}

/// A number written in decimal reads back as itself.
pub proof fn lemma_parse_decimal(n: usize)
    ensures
        parse_usize(decimal(n as nat)) == Some(n),
{
    lemma_decimal_digits(n as nat);
    lemma_decimal_first_digit(n as nat);
}

/// A decimal numeral starts with a digit.
proof fn lemma_decimal_first_digit(n: nat)
    ensures
        digit_value(decimal(n)[0]) is Some,
    decreases n,
{
    if n < 10 {
        assert(digit_value(digit_char(n)) == Some(n));
    } else {
        lemma_decimal_digits(n / 10);
        lemma_decimal_first_digit(n / 10);
        assert(decimal(n)[0] == decimal(n / 10)[0]);
    }
}

/// Reads an unsigned decimal integer.
pub fn parse_usize_str(s: &str) -> (r: Option<usize>)
    ensures
        r == parse_usize(s@),
{
    let cs = chars_of(s);
    let n = cs.len();
    let start: usize = if n > 0 && cs[0] == '+' {
        1
    } else {
        0
    };
    if start == n {
        return None;
    }
    let ghost digits = s@.skip(start as int);
    let mut value: usize = 0;
    let mut i: usize = start;
    assert(digits.take(0) =~= Seq::<char>::empty());
    assert(s@.skip(0) =~= s@);
    while i < n
        invariant
            cs@ == s@,
            n == cs.len(),
            start <= i <= n,
            start < n,
            digits == s@.skip(start as int),
            digits == if s@.len() > 0 && s@[0] == '+' {
                s@.skip(1)
            } else {
                s@
            },
            all_digits(digits.take(i - start)),
            value == digits_value(digits.take(i - start)),
        decreases n - i,
    {
        let c = cs[i] as u32;
        let ghost next = digits.take(i - start + 1);
        assert(next.drop_last() =~= digits.take(i - start));
        assert(next.last() == cs@[i as int]);
        if c < 0x30 || c > 0x39 {
            assert(digit_value(digits[i - start]) is None);
            return None;
        }
        let d = (c - 0x30) as usize;
        proof {
            lemma_digits_value_prefix(digits, i - start + 1);
        }
        match value.checked_mul(10) {
            Some(tens) => match tens.checked_add(d) {
                Some(v) => {
                    value = v;
                },
                None => {
                    return None;
                },
            },
            None => {
                return None;
            },
        }
        assert forall|j: int| 0 <= j < next.len() implies (#[trigger] digit_value(next[j])) is Some by {
            if j < next.len() - 1 {
                assert(next[j] == digits.take(i - start)[j]);
            }
        }
        i += 1;
    }
    assert(digits.take(n - start) =~= digits);
    Some(value)
}

/// Whether two string slices hold the same text.
pub fn str_eq(a: &str, b: &str) -> (r: bool)
    ensures
        r == (a@ == b@),
{
    let x = chars_of(a);
    let y = chars_of(b);
    if x.len() != y.len() {
        return false;
    }
    let mut i: usize = 0;
    while i < x.len()
        invariant
            x@ == a@,
            y@ == b@,
            x.len() == y.len(),
            i <= x.len(),
            forall|j: int| 0 <= j < i ==> x@[j] == y@[j],
        decreases x.len() - i,
    {
        if x[i] != y[i] {
            return false;
        }
        i += 1;
    }
    assert(x@ =~= y@);
    true
}

} // verus!

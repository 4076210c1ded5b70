//! Verified helpers over `String` and `&str`: matching, searching,
//! substitution and decimal formatting. All results are pinned to spec
//! functions over the character sequences.

use vstd::prelude::*;
use vstd::string::StrSliceExecFns;
use vstd::string::StringExecFns;

verus! {

/// Relies on `String::push` from std: appends exactly one character.
#[verifier::external_body]
pub fn push_char(s: &mut String, c: char)
    ensures
        final(s)@ == old(s)@.push(c),
{
    s.push(c)
}

/// `pat` occurs in `s` starting at index `at`.
pub open spec fn spec_match_at(s: Seq<char>, pat: Seq<char>, at: int) -> bool {
    &&& 0 <= at
    &&& at + pat.len() <= s.len()
    &&& s.subrange(at, at + pat.len() as int) == pat
}

pub fn match_at(s: &str, pat: &str, at: usize) -> (r: bool)
    requires
        at <= s@.len(),
    ensures
        r == spec_match_at(s@, pat@, at as int),
{
    let n = s.unicode_len();
    let m = pat.unicode_len();
    if m > n - at {
        assert(!spec_match_at(s@, pat@, at as int));
        return false;
    }
    let mut j: usize = 0;
    while j < m
        invariant
            j <= m,
            at + m <= n,
            n == s@.len(),
            m == pat@.len(),
            forall|k: int| 0 <= k < j ==> s@[at + k] == pat@[k],
        decreases m - j,
    {
        if s.get_char(at + j) != pat.get_char(j) {
            proof {
                let full = s@.subrange(at as int, at + m as int);
                assert(full[j as int] == s@[at + j]);
                assert(full != pat@);
            }
            return false;
        }
        j = j + 1;
    }
    proof {
        assert(s@.subrange(at as int, at + m as int) =~= pat@);
    }
    true
}

/// `s` with every occurrence of `pat` replaced by `to`, scanning from
/// the left; an empty `pat` leaves `s` unchanged.
pub open spec fn spec_replace(s: Seq<char>, pat: Seq<char>, to: Seq<char>) -> Seq<char>
    decreases s.len(),
{
    if pat.len() == 0 {
        s
    } else if s.len() >= pat.len() && s.subrange(0, pat.len() as int) == pat {
        to + spec_replace(s.skip(pat.len() as int), pat, to)
    } else if s.len() > 0 {
        seq![s[0]] + spec_replace(s.skip(1), pat, to)
    } else {
        Seq::<char>::empty()
    }
}

pub fn replace_all(s: &str, pat: &str, to: &str) -> (r: String)
    ensures
        r@ == spec_replace(s@, pat@, to@),
{
    let m = pat.unicode_len();
    if m == 0 {
        return s.to_owned();
    }
    let n = s.unicode_len();
    let mut out = String::new();
    let mut i: usize = 0;
    proof {
        assert(s@.skip(0) =~= s@);
        assert(out@ + spec_replace(s@, pat@, to@) =~= spec_replace(s@, pat@, to@));
    }
    while i < n
        invariant
            i <= n,
            n == s@.len(),
            m == pat@.len(),
            m > 0,
            spec_replace(s@, pat@, to@) == out@ + spec_replace(s@.skip(i as int), pat@, to@),
        decreases n - i,
    {
        let ghost rest = s@.skip(i as int);
        let ghost prev = out@;
        let ghost whole = spec_replace(s@, pat@, to@);
        if match_at(s, pat, i) {
            proof {
                assert(rest.subrange(0, m as int) =~= s@.subrange(i as int, i + m as int));
                assert(rest.skip(m as int) =~= s@.skip(i + m as int));
                assert(spec_replace(rest, pat@, to@) == to@ + spec_replace(
                    s@.skip(i + m as int),
                    pat@,
                    to@,
                ));
            }
            out.append(to);
            proof {
                assert(out@ == prev + to@);
                assert((prev + to@) + spec_replace(s@.skip(i + m as int), pat@, to@) =~= prev + (
                to@ + spec_replace(s@.skip(i + m as int), pat@, to@)));
                assert(out@ + spec_replace(s@.skip(i + m as int), pat@, to@) == whole);
            }
            i = i + m;
        } else {
            let c = s.get_char(i);
            proof {
                assert(rest.len() > 0);
                assert(rest[0] == s@[i as int]);
                if rest.len() >= pat@.len() {
                    assert(rest.subrange(0, m as int) =~= s@.subrange(i as int, i + m as int));
                }
                assert(rest.skip(1) =~= s@.skip(i + 1));
                assert(spec_replace(rest, pat@, to@) == seq![s@[i as int]] + spec_replace(
                    s@.skip(i + 1),
                    pat@,
                    to@,
                ));
            }
            push_char(&mut out, c);
            proof {
                assert(out@ == prev.push(c));
                assert(prev.push(c) =~= prev + seq![c]);
                assert((prev + seq![c]) + spec_replace(s@.skip(i + 1), pat@, to@) =~= prev + (
                seq![c] + spec_replace(s@.skip(i + 1), pat@, to@)));
                assert(out@ + spec_replace(s@.skip(i + 1), pat@, to@) == whole);
            }
            i = i + 1;
        }
    }
    proof {
        assert(s@.skip(n as int) =~= Seq::<char>::empty());
        assert(spec_replace(Seq::<char>::empty(), pat@, to@) == Seq::<char>::empty());
        assert(out@ + Seq::<char>::empty() =~= out@);
    }
    out
}

/// Character-wise equality of two strings.
pub fn str_eq(a: &str, b: &str) -> (r: bool)
    ensures
        r == (a@ == b@),
{
    let n = a.unicode_len();
    let m = b.unicode_len();
    if n != m {
        return false;
    }
    let mut i: usize = 0;
    while i < n
        invariant
            i <= n,
            n == a@.len(),
            n == b@.len(),
            forall|k: int| 0 <= k < i ==> a@[k] == b@[k],
        decreases n - i,
    {
        if a.get_char(i) != b.get_char(i) {
            return false;
        }
        i = i + 1;
    }
    proof {
        assert(a@ =~= b@);
    }
    true
}

/// Lexicographic order on character sequences, by code point.
pub open spec fn lex_lt(a: Seq<char>, b: Seq<char>) -> bool
    decreases a,
{
    if b.len() == 0 {
        false
    } else if a.len() == 0 {
        true
    } else if a[0] < b[0] {
        true
    } else if b[0] < a[0] {
        false
    } else {
        lex_lt(a.skip(1), b.skip(1))
    }
}

/// Strict lexicographic comparison of two strings.
pub fn str_lt(a: &str, b: &str) -> (r: bool)
    ensures
        r == lex_lt(a@, b@),
{
    let n = a.unicode_len();
    let m = b.unicode_len();
    let mut i: usize = 0;
    proof {
        assert(a@.skip(0) =~= a@);
        assert(b@.skip(0) =~= b@);
    }
    while i < n && i < m
        invariant
            i <= n,
            i <= m,
            n == a@.len(),
            m == b@.len(),
            lex_lt(a@, b@) == lex_lt(a@.skip(i as int), b@.skip(i as int)),
        decreases n - i,
    {
        let ca = a.get_char(i);
        let cb = b.get_char(i);
        let ghost ra = a@.skip(i as int);
        let ghost rb = b@.skip(i as int);
        proof {
            assert(ra.len() > 0);
            assert(rb.len() > 0);
            assert(ra[0] == a@[i as int]);
            assert(rb[0] == b@[i as int]);
            assert(ra.skip(1) =~= a@.skip(i + 1));
            assert(rb.skip(1) =~= b@.skip(i + 1));
        }
        if ca < cb {
            return true;
        }
        if cb < ca {
            return false;
        }
        i = i + 1;
    }
    proof {
        assert(a@.skip(i as int).len() == n - i);
        assert(b@.skip(i as int).len() == m - i);
    }
    i < m
}

/// The first position at or after `from` where `pat` occurs in `s`.
pub open spec fn spec_find_from(s: Seq<char>, pat: Seq<char>, from: int) -> Option<int>
    decreases s.len() + 1 - from,
{
    if from < 0 || from + pat.len() > s.len() {
        Option::<int>::None
    } else if s.subrange(from, from + pat.len() as int) == pat {
        Option::Some(from)
    } else {
        spec_find_from(s, pat, from + 1)
    }
}

/// `pat` occurs somewhere in `s`.
pub open spec fn spec_contains_sub(s: Seq<char>, pat: Seq<char>) -> bool {
    spec_find_from(s, pat, 0) is Some
}

/// Find the first occurrence of `pat` in `s`.
pub fn find_sub(s: &str, pat: &str) -> (r: Option<usize>)
    ensures
        match r {
            Option::Some(i) => spec_find_from(s@, pat@, 0) == Option::Some(i as int),
            Option::None => spec_find_from(s@, pat@, 0) is None,
        },
{
    let n = s.unicode_len();
    let m = pat.unicode_len();
    if m > n {
        assert(spec_find_from(s@, pat@, 0) is None);
        return None;
    }
    let mut i: usize = 0;
    while i <= n - m
        invariant
            m <= n,
            i <= n - m + 1,
            n == s@.len(),
            m == pat@.len(),
            spec_find_from(s@, pat@, 0) == spec_find_from(s@, pat@, i as int),
        decreases n - m + 1 - i,
    {
        if match_at(s, pat, i) {
            proof {
                assert(spec_find_from(s@, pat@, i as int) == Option::Some(i as int));
            }
            return Some(i);
        }
        proof {
            assert(spec_find_from(s@, pat@, i as int) == spec_find_from(s@, pat@, i + 1));
        }
        if i == n - m {
            proof {
                assert(spec_find_from(s@, pat@, i + 1) is None);
            }
            return None;
        }
        i = i + 1;
    }
    proof {
        assert(i + m > n);
        assert(spec_find_from(s@, pat@, i as int) is None);
    }
    None
}

/// `pat` occurs in `s`.
pub fn str_contains(s: &str, pat: &str) -> (r: bool)
    ensures
        r == spec_contains_sub(s@, pat@),
{
    match find_sub(s, pat) {
        Option::Some(_) => true,
        Option::None => false,
    }
}

pub proof fn lemma_find_from_some(s: Seq<char>, pat: Seq<char>, from: int, i: int)
    requires
        spec_find_from(s, pat, from) == Option::Some(i),
    ensures
        from <= i,
        spec_match_at(s, pat, i),
        forall|j: int| from <= j < i ==> !spec_match_at(s, pat, j),
    decreases s.len() + 1 - from,
{
    if !(from < 0 || from + pat.len() > s.len()) {
        if s.subrange(from, from + pat.len() as int) == pat {
        } else {
            lemma_find_from_some(s, pat, from + 1, i);
        }
    }
}

pub proof fn lemma_find_from_none(s: Seq<char>, pat: Seq<char>, from: int)
    requires
        spec_find_from(s, pat, from) is None,
        from >= 0,
    ensures
        forall|j: int| from <= j ==> !spec_match_at(s, pat, j),
    decreases s.len() + 1 - from,
{
    if !(from + pat.len() > s.len()) {
        lemma_find_from_none(s, pat, from + 1);
    }
}

/// The decimal digit character of `d`.
pub open spec fn digit_char(d: int) -> char {
    if d == 0 { '0' }
    else if d == 1 { '1' }
    else if d == 2 { '2' }
    else if d == 3 { '3' }
    else if d == 4 { '4' }
    else if d == 5 { '5' }
    else if d == 6 { '6' }
    else if d == 7 { '7' }
    else if d == 8 { '8' }
    else { '9' }
}

/// Decimal digits of a nonnegative integer, most significant first.
pub open spec fn dec_digits(n: int) -> Seq<char>
    decreases n,
{
    if n < 10 {
        seq![digit_char(n)]
    } else {
        dec_digits(n / 10).push(digit_char(n % 10))
    }
}

/// Decimal rendering of an integer, with a leading minus sign when
/// negative.
pub open spec fn dec_int(n: int) -> Seq<char> {
    if n < 0 {
        seq!['-'] + dec_digits(-n)
    } else {
        dec_digits(n)
    }
}

fn digit_of(d: u8) -> (c: char)
    requires
        d < 10,
    ensures
        c == digit_char(d as int),
{
    match d {
        0 => '0',
        1 => '1',
        2 => '2',
        3 => '3',
        4 => '4',
        5 => '5',
        6 => '6',
        7 => '7',
        8 => '8',
        _ => '9',
    }
}

fn u128_dec(n: u128) -> (r: String)
    ensures
        r@ == dec_digits(n as int),
    decreases n,
{
    if n < 10 {
        let mut s = String::new();
        push_char(&mut s, digit_of(n as u8));
        proof {
            assert(s@ =~= dec_digits(n as int));
        }
        s
    } else {
        let mut s = u128_dec(n / 10);
        push_char(&mut s, digit_of((n % 10) as u8));
        proof {
            assert((n / 10) as int == n as int / 10);
            assert((n % 10) as int == n as int % 10);
        }
        s
    }
}

/// Decimal rendering of a signed value.
pub fn i128_dec(n: i128) -> (r: String)
    ensures
        r@ == dec_int(n as int),
{
    if n >= 0 {
        u128_dec(n as u128)
    } else {
        let mag: u128 = ((-(n + 1)) as u128) + 1;
        proof {
            assert(mag as int == -(n as int));
        }
        let mut s = String::new();
        push_char(&mut s, '-');
        let d = u128_dec(mag);
        s.append(d.as_str());
        proof {
            assert(s@ =~= dec_int(n as int));
        }
        s
    }
}

/// Find the first occurrence of the character `c` at or after `from`.
pub fn find_char_from(s: &str, c: char, from: usize) -> (r: Option<usize>)
    requires
        from <= s@.len(),
    ensures
        match r {
            Option::Some(i) => spec_find_from(s@, seq![c], from as int) == Option::Some(i as int)
                && from <= i < s@.len(),
            Option::None => spec_find_from(s@, seq![c], from as int) is None,
        },
{
    let n = s.unicode_len();
    let mut i: usize = from;
    while i < n
        invariant
            from <= i <= n,
            n == s@.len(),
            spec_find_from(s@, seq![c], from as int) == spec_find_from(s@, seq![c], i as int),
        decreases n - i,
    {
        let ch = s.get_char(i);
        proof {
            if s@[i as int] == c {
                assert(s@.subrange(i as int, i + 1) =~= seq![c]);
            } else {
                assert(s@.subrange(i as int, i + 1)[0] == s@[i as int]);
                assert(s@.subrange(i as int, i + 1) != seq![c]);
            }
        }
        if ch == c {
            proof {
                assert(spec_find_from(s@, seq![c], i as int) == Option::Some(i as int));
            }
            return Some(i);
        }
        proof {
            assert(spec_find_from(s@, seq![c], i as int) == spec_find_from(s@, seq![c], i + 1));
        }
        i = i + 1;
    }
    proof {
        assert(spec_find_from(s@, seq![c], i as int) is None);
    }
    None
}

/// The text split at newlines; a trailing newline ends the last line.
pub open spec fn spec_lines(s: Seq<char>) -> Seq<Seq<char>>
    decreases s.len(),
{
    if s.len() == 0 {
        Seq::<Seq<char>>::empty()
    } else {
        match spec_find_from(s, seq!['\n'], 0) {
            Option::Some(i) => if 0 <= i < s.len() {
                seq![s.take(i)] + spec_lines(s.skip(i + 1))
            } else {
                seq![s]
            },
            Option::None => seq![s],
        }
    }
}

/// A position that matches, with no earlier match at or after `from`,
/// is what the search finds.
pub proof fn lemma_find_first_from(s: Seq<char>, pat: Seq<char>, from: int, i: int)
    requires
        0 <= from <= i,
        spec_match_at(s, pat, i),
        forall|j: int| from <= j < i ==> !spec_match_at(s, pat, j),
    ensures
        spec_find_from(s, pat, from) == Option::Some(i),
    decreases i - from,
{
    if from < i {
        assert(!spec_match_at(s, pat, from));
        lemma_find_first_from(s, pat, from + 1, i);
    } else {
        assert(spec_match_at(s, pat, i));
    }
}

/// No matching position at or after `from` means the search fails.
pub proof fn lemma_find_none(s: Seq<char>, pat: Seq<char>, from: int)
    requires
        0 <= from,
        forall|j: int| from <= j ==> !spec_match_at(s, pat, j),
    ensures
        spec_find_from(s, pat, from) is None,
    decreases s.len() + 1 - from,
{
    if !(from + pat.len() > s.len()) {
        assert(!spec_match_at(s, pat, from));
        lemma_find_none(s, pat, from + 1);
    }
}

/// Finding a single character in a suffix mirrors finding it in the
/// whole text from that offset.
pub proof fn lemma_find_skip(s: Seq<char>, c: char, pos: int)
    requires
        0 <= pos <= s.len(),
    ensures
        spec_find_from(s, seq![c], pos) is Some ==> spec_find_from(s.skip(pos), seq![c], 0)
            == Option::Some(spec_find_from(s, seq![c], pos)->Some_0 - pos),
        spec_find_from(s, seq![c], pos) is None ==> spec_find_from(s.skip(pos), seq![c], 0) is None,
{
    let rest = s.skip(pos);
    if spec_find_from(s, seq![c], pos) is Some {
        let i = spec_find_from(s, seq![c], pos)->Some_0;
        lemma_find_from_some(s, seq![c], pos, i);
        assert(rest.subrange(i - pos, i - pos + 1) =~= s.subrange(i, i + 1));
        assert(spec_match_at(rest, seq![c], i - pos));
        assert forall|j: int| 0 <= j < i - pos implies !spec_match_at(rest, seq![c], j) by {
            assert(!spec_match_at(s, seq![c], pos + j));
            assert(rest.subrange(j, j + 1) =~= s.subrange(pos + j, pos + j + 1));
        }
        lemma_find_first_from(rest, seq![c], 0, i - pos);
    } else {
        lemma_find_from_none(s, seq![c], pos);
        assert forall|j: int| 0 <= j implies !spec_match_at(rest, seq![c], j) by {
            if j + 1 <= rest.len() {
                assert(!spec_match_at(s, seq![c], pos + j));
                assert(rest.subrange(j, j + 1) =~= s.subrange(pos + j, pos + j + 1));
            }
        }
        lemma_find_none(rest, seq![c], 0);
    }
}

/// Split a text into its lines.
pub fn split_lines(s: &str) -> (r: Vec<String>)
    ensures
        r@.len() == spec_lines(s@).len(),
        forall|i: int| 0 <= i < r@.len() ==> r@[i]@ == spec_lines(s@)[i],
{
    let mut out: Vec<String> = Vec::new();
    let n = s.unicode_len();
    let mut pos: usize = 0;
    proof {
        assert(s@.skip(0) =~= s@);
    }
    while pos < n
        invariant
            pos <= n,
            n == s@.len(),
            spec_lines(s@).len() == out@.len() + spec_lines(s@.skip(pos as int)).len(),
            forall|i: int| 0 <= i < out@.len() ==> spec_lines(s@)[i] == out@[i]@,
            forall|i: int|
                0 <= i < spec_lines(s@.skip(pos as int)).len() ==> spec_lines(s@)[out@.len() + i]
                    == spec_lines(s@.skip(pos as int))[i],
        decreases n - pos,
    {
        let ghost rest = s@.skip(pos as int);
        match find_char_from(s, '\n', pos) {
            Option::Some(j) => {
                proof {
                    lemma_find_skip(s@, '\n', pos as int);
                    assert(spec_find_from(rest, seq!['\n'], 0) == Option::Some(j - pos));
                    assert(rest.take(j - pos) =~= s@.subrange(pos as int, j as int));
                    assert(rest.skip(j - pos + 1) =~= s@.skip(j + 1));
                    assert(spec_lines(rest) == seq![rest.take(j - pos)] + spec_lines(
                        s@.skip(j + 1),
                    ));
                }
                let piece = s.substring_char(pos, j);
                let ghost old_out = out@;
                out.push(piece.to_owned());
                proof {
                    assert(spec_lines(rest)[0] == rest.take(j - pos));
                    assert(out@[old_out.len() as int]@ == spec_lines(s@)[old_out.len() as int]);
                    assert(forall|i: int|
                        0 <= i < spec_lines(s@.skip(j + 1)).len() ==> spec_lines(rest)[1 + i]
                            == #[trigger] spec_lines(s@.skip(j + 1))[i]);
                }
                pos = j + 1;
            },
            Option::None => {
                proof {
                    lemma_find_skip(s@, '\n', pos as int);
                    assert(spec_find_from(rest, seq!['\n'], 0) is None);
                    assert(rest.len() > 0);
                    assert(spec_lines(rest) == seq![rest]);
                    assert(rest =~= s@.subrange(pos as int, n as int));
                }
                let piece = s.substring_char(pos, n);
                let ghost old_out = out@;
                out.push(piece.to_owned());
                proof {
                    assert(spec_lines(rest)[0] == rest);
                    assert(out@[old_out.len() as int]@ == spec_lines(s@)[old_out.len() as int]);
                    assert(s@.skip(n as int) =~= Seq::<char>::empty());
                    assert(spec_lines(s@.skip(n as int)).len() == 0);
                }
                pos = n;
            },
        }
    }
    proof {
        assert(s@.skip(n as int) =~= Seq::<char>::empty());
    }
    out
}

/// Replacement decomposes at the first occurrence: everything before
/// it is kept, it becomes `to`, and replacement goes on after it.
pub proof fn lemma_replace_first(s: Seq<char>, pat: Seq<char>, to: Seq<char>, i: int)
    requires
        pat.len() > 0,
        spec_find_from(s, pat, 0) == Option::Some(i),
    ensures
        spec_replace(s, pat, to) == s.take(i) + to + spec_replace(s.skip(i + pat.len()), pat, to),
    decreases i,
{
    lemma_find_from_some(s, pat, 0, i);
    if i == 0 {
        assert(s.subrange(0, pat.len() as int) == pat);
        assert(spec_replace(s, pat, to) == to + spec_replace(s.skip(pat.len() as int), pat, to));
        assert(s.take(0) =~= Seq::<char>::empty());
        assert(s.take(0) + to =~= to);
        assert((s.take(0) + to) + spec_replace(s.skip(pat.len() as int), pat, to) =~= to
            + spec_replace(s.skip(pat.len() as int), pat, to));
    } else {
        assert(!spec_match_at(s, pat, 0));
        assert(s.len() > 0);
        if s.len() >= pat.len() {
            assert(s.subrange(0, pat.len() as int) != pat);
        }
        assert(spec_replace(s, pat, to) == seq![s[0]] + spec_replace(s.skip(1), pat, to));
        let s1 = s.skip(1);
        assert(spec_match_at(s1, pat, i - 1)) by {
            assert(s1.subrange(i - 1, i - 1 + pat.len()) =~= s.subrange(i, i + pat.len()));
        }
        assert forall|j: int| 0 <= j < i - 1 implies !spec_match_at(s1, pat, j) by {
            assert(!spec_match_at(s, pat, j + 1));
            if 0 <= j && j + pat.len() <= s1.len() {
                assert(s1.subrange(j, j + pat.len()) =~= s.subrange(j + 1, j + 1 + pat.len()));
            }
        }
        lemma_find_first_from(s1, pat, 0, i - 1);
        lemma_replace_first(s1, pat, to, i - 1);
        assert(s1.take(i - 1) =~= s.subrange(1, i));
        assert(s1.skip(i - 1 + pat.len()) =~= s.skip(i + pat.len()));
        assert(seq![s[0]] + ((s1.take(i - 1) + to) + spec_replace(s.skip(i + pat.len()), pat, to))
            =~= (s.take(i) + to) + spec_replace(s.skip(i + pat.len()), pat, to));
    }
}

/// A text without an occurrence is left unchanged by replacement.
pub proof fn lemma_replace_none(s: Seq<char>, pat: Seq<char>, to: Seq<char>)
    requires
        pat.len() > 0,
        spec_find_from(s, pat, 0) is None,
    ensures
        spec_replace(s, pat, to) == s,
    decreases s.len(),
{
    lemma_find_from_none(s, pat, 0);
    if s.len() == 0 {
        assert(spec_replace(s, pat, to) =~= s);
    } else {
        assert(!spec_match_at(s, pat, 0));
        if s.len() >= pat.len() {
            assert(s.subrange(0, pat.len() as int) != pat);
        }
        let s1 = s.skip(1);
        assert forall|j: int| 0 <= j implies !spec_match_at(s1, pat, j) by {
            assert(!spec_match_at(s, pat, j + 1));
            if j + pat.len() <= s1.len() {
                assert(s1.subrange(j, j + pat.len()) =~= s.subrange(j + 1, j + 1 + pat.len()));
            }
        }
        lemma_find_none(s1, pat, 0);
        lemma_replace_none(s1, pat, to);
        assert(seq![s[0]] + s1 =~= s);
    }
}

/// Lexicographic order is connected: two sequences are ordered one way
/// or the other, or equal.
pub proof fn lemma_lex_trichotomy(a: Seq<char>, b: Seq<char>)
    ensures
        lex_lt(a, b) || lex_lt(b, a) || a == b,
    decreases a.len(),
{
    if b.len() == 0 {
        if a.len() == 0 {
            assert(a =~= b);
        }
    } else if a.len() == 0 {
    } else if a[0] < b[0] {
    } else if b[0] < a[0] {
    } else {
        assert(a[0] == b[0]);
        lemma_lex_trichotomy(a.skip(1), b.skip(1));
        if a.skip(1) == b.skip(1) {
            assert(a.skip(1).len() == a.len() - 1);
            assert(b.skip(1).len() == b.len() - 1);
            assert(a.len() == b.len());
            assert forall|i: int| 0 <= i < a.len() implies a[i] == b[i] by {
                if i >= 1 {
                    assert(a[i] == a.skip(1)[i - 1]);
                    assert(b[i] == b.skip(1)[i - 1]);
                }
            }
            assert(a =~= b);
        }
    }
}

/// Lexicographic order is transitive.
pub proof fn lemma_lex_trans(a: Seq<char>, b: Seq<char>, c: Seq<char>)
    requires
        lex_lt(a, b),
        lex_lt(b, c),
    ensures
        lex_lt(a, c),
    decreases a.len(),
{
    assert(b.len() > 0);
    assert(c.len() > 0);
    if a.len() == 0 {
    } else {
        if a[0] < b[0] {
            if b[0] < c[0] {
            } else {
                assert(b[0] == c[0]);
            }
        } else {
            assert(a[0] == b[0]);
            if b[0] < c[0] {
            } else {
                assert(b[0] == c[0]);
                lemma_lex_trans(a.skip(1), b.skip(1), c.skip(1));
            }
        }
    }
}

/// Lexicographic order is irreflexive.
pub proof fn lemma_lex_irrefl(a: Seq<char>)
    ensures
        !lex_lt(a, a),
    decreases a.len(),
{
    if a.len() > 0 {
        lemma_lex_irrefl(a.skip(1));
    }
}

} // verus!

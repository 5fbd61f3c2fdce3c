//! Character-sequence utilities: whitespace trimming, line splitting,
//! substring search, decimal formatting and parsing.
use vstd::prelude::*;

verus! {

broadcast use vstd::string::group_string_axioms;

/// The Unicode `White_Space` property (the 25 code points it lists).
pub open spec fn is_space(c: char) -> bool {
    let u: u32 = c as u32;
    ||| 0x9 <= u <= 0xd
    ||| u == 0x20 || u == 0x85 || u == 0xa0 || u == 0x1680
    ||| 0x2000 <= u <= 0x200a
    ||| u == 0x2028 || u == 0x2029 || u == 0x202f || u == 0x205f || u == 0x3000
}

/// Executable test for [`is_space`].
pub fn is_space_char(c: char) -> (b: bool)
    ensures
        b == is_space(c),
{
    let u: u32 = c as u32;
    (0x9 <= u && u <= 0xd) || u == 0x20 || u == 0x85 || u == 0xa0 || u == 0x1680 || (0x2000 <= u
        && u <= 0x200a) || u == 0x2028 || u == 0x2029 || u == 0x202f || u == 0x205f || u == 0x3000
}

/// Number of whitespace characters at the start of `s`.
pub open spec fn leading_space(s: Seq<char>) -> nat
    decreases s.len(),
{
    if s.len() > 0 && is_space(s[0]) {
        1 + leading_space(s.drop_first())
    } else {
        0
    }
}

/// Number of whitespace characters at the end of `s`.
pub open spec fn trailing_space(s: Seq<char>) -> nat
    decreases s.len(),
{
    if s.len() > 0 && is_space(s.last()) {
        1 + trailing_space(s.drop_last())
    } else {
        0
    }
}

/// `s` without its leading whitespace.
pub open spec fn trim_start(s: Seq<char>) -> Seq<char> {
    s.skip(leading_space(s) as int)
}

/// `s` without its trailing whitespace.
pub open spec fn trim_end(s: Seq<char>) -> Seq<char> {
    s.take(s.len() - trailing_space(s))
}

/// `s` without leading and trailing whitespace.
pub open spec fn trim(s: Seq<char>) -> Seq<char> {
    trim_end(trim_start(s))
}

pub proof fn lemma_leading_space_bound(s: Seq<char>)
    ensures
        leading_space(s) <= s.len(),
        forall|i: int| 0 <= i < leading_space(s) ==> is_space(#[trigger] s[i]),
        leading_space(s) < s.len() ==> !is_space(s[leading_space(s) as int]),
    decreases s.len(),
{
    if s.len() > 0 && is_space(s[0]) {
        lemma_leading_space_bound(s.drop_first());
        assert forall|i: int| 0 <= i < leading_space(s) implies is_space(#[trigger] s[i]) by {
            if i > 0 {
                assert(s[i] == s.drop_first()[i - 1]);
            }
        }
    }
}

pub proof fn lemma_trailing_space_bound(s: Seq<char>)
    ensures
        trailing_space(s) <= s.len(),
        forall|i: int| s.len() - trailing_space(s) <= i < s.len() ==> is_space(#[trigger] s[i]),
        trailing_space(s) < s.len() ==> !is_space(s[s.len() - trailing_space(s) - 1]),
    decreases s.len(),
{
    if s.len() > 0 && is_space(s.last()) {
        lemma_trailing_space_bound(s.drop_last());
        assert forall|i: int| s.len() - trailing_space(s) <= i < s.len() implies is_space(
            #[trigger] s[i],
        ) by {
            if i < s.len() - 1 {
                assert(s[i] == s.drop_last()[i]);
            }
        }
    }
}

/// The leading-whitespace count is the first non-whitespace position.
pub proof fn lemma_leading_space_is(s: Seq<char>, k: int)
    requires
        0 <= k <= s.len(),
        forall|i: int| 0 <= i < k ==> is_space(#[trigger] s[i]),
        k == s.len() || !is_space(s[k]),
    ensures
        leading_space(s) == k,
    decreases k,
{
    if k > 0 {
        let t = s.drop_first();
        assert forall|i: int| 0 <= i < k - 1 implies is_space(#[trigger] t[i]) by {
            assert(t[i] == s[i + 1]);
        }
        if k < s.len() {
            assert(t[k - 1] == s[k]);
        }
        lemma_leading_space_is(t, k - 1);
    }
}

/// The trailing-whitespace count ends at the last non-whitespace position.
pub proof fn lemma_trailing_space_is(s: Seq<char>, k: int)
    requires
        0 <= k <= s.len(),
        forall|i: int| s.len() - k <= i < s.len() ==> is_space(#[trigger] s[i]),
        k == s.len() || !is_space(s[s.len() - k - 1]),
    ensures
        trailing_space(s) == k,
    decreases k,
{
    if k > 0 {
        let t = s.drop_last();
        assert forall|i: int| t.len() - (k - 1) <= i < t.len() implies is_space(#[trigger] t[i]) by {
            assert(t[i] == s[i]);
        }
        if k < s.len() {
            assert(t[t.len() - (k - 1) - 1] == s[s.len() - k - 1]);
        }
        lemma_trailing_space_is(t, k - 1);
    }
}

/// The bounds of `trim(s)` inside `s`.
pub open spec fn trim_bounds(s: Seq<char>) -> (int, int) {
    let a: int = leading_space(s) as int;
    let t = s.skip(a);
    (a, a + t.len() - trailing_space(t))
}

pub proof fn lemma_trim_bounds(s: Seq<char>)
    ensures
        0 <= trim_bounds(s).0 <= trim_bounds(s).1 <= s.len(),
        trim(s) =~= s.subrange(trim_bounds(s).0, trim_bounds(s).1),
{
    lemma_leading_space_bound(s);
    let a: int = leading_space(s) as int;
    lemma_trailing_space_bound(s.skip(a));
}

/// Finds where `trim(s)` starts and ends inside `s`.
pub fn trim_range(s: &Vec<char>) -> (r: (usize, usize))
    ensures
        r.0 <= r.1 <= s.len(),
        s@.subrange(r.0 as int, r.1 as int) == trim(s@),
        r.0 as int == trim_bounds(s@).0,
        r.1 as int == trim_bounds(s@).1,
{
    let n: usize = s.len();
    let mut a: usize = 0;
    while a < n && is_space_char(s[a])
        invariant
            a <= n == s.len(),
            forall|i: int| 0 <= i < a ==> is_space(#[trigger] s@[i]),
        decreases n - a,
    {
        a = a + 1;
    }
    proof {
        lemma_leading_space_is(s@, a as int);
    }
    let mut b: usize = n;
    while b > a && is_space_char(s[b - 1])
        invariant
            a <= b <= n == s.len(),
            forall|i: int| b <= i < n ==> is_space(#[trigger] s@[i]),
        decreases b,
    {
        b = b - 1;
    }
    proof {
        let t = s@.skip(a as int);
        assert forall|i: int| t.len() - (n - b) <= i < t.len() implies is_space(#[trigger] t[i]) by {
            assert(t[i] == s@[i + a]);
        }
        if b > a {
            assert(t[t.len() - (n - b) - 1] == s@[b - 1]);
        }
        lemma_trailing_space_is(t, (n - b) as int);
        lemma_trim_bounds(s@);
    }
    (a, b)
}

/// A copy of `s[from..to]`.
pub fn sub_vec(s: &Vec<char>, from: usize, to: usize) -> (r: Vec<char>)
    requires
        from <= to <= s.len(),
    ensures
        r@ == s@.subrange(from as int, to as int),
{
    let mut r: Vec<char> = Vec::new();
    let mut i: usize = from;
    while i < to
        invariant
            from <= i <= to <= s.len(),
            r@ == s@.subrange(from as int, i as int),
        decreases to - i,
    {
        r.push(s[i]);
        i = i + 1;
    }
    r
}

/// `trim(s)` as a new vector.
pub fn trimmed(s: &Vec<char>) -> (r: Vec<char>)
    ensures
        r@ == trim(s@),
{
    let (a, b): (usize, usize) = trim_range(s);
    sub_vec(s, a, b)
}


/// Whether `pat` occurs in `s` at position `i`.
pub open spec fn matches_at(s: Seq<char>, pat: Seq<char>, i: int) -> bool {
    0 <= i && i + pat.len() <= s.len() && s.subrange(i, i + pat.len()) == pat
}

/// Position of the first occurrence of `pat` in `s`, or -1 when there is none.
pub open spec fn index_of(s: Seq<char>, pat: Seq<char>) -> int
    decreases s.len(),
{
    if s.len() < pat.len() {
        -1
    } else if s.take(pat.len() as int) == pat {
        0
    } else if s.len() == 0 {
        -1
    } else {
        let r: int = index_of(s.drop_first(), pat);
        if r < 0 {
            -1
        } else {
            r + 1
        }
    }
}

/// `index_of` is the first match, or -1 exactly when there is no match.
pub proof fn lemma_index_of(s: Seq<char>, pat: Seq<char>)
    ensures
        -1 <= index_of(s, pat) <= s.len() - pat.len() || index_of(s, pat) == -1,
        index_of(s, pat) >= 0 ==> matches_at(s, pat, index_of(s, pat)),
        forall|j: int| 0 <= j && (j < index_of(s, pat) || index_of(s, pat) < 0) ==> !#[trigger] matches_at(s, pat, j),
    decreases s.len(),
{
    if s.len() < pat.len() {
    } else if s.take(pat.len() as int) == pat {
        assert(s.subrange(0, pat.len() as int) =~= s.take(pat.len() as int));
    } else if s.len() == 0 {
        assert(s.take(pat.len() as int) =~= pat);
    } else {
        let t = s.drop_first();
        lemma_index_of(t, pat);
        let r: int = index_of(t, pat);
        assert forall|j: int| 0 <= j && (j < index_of(s, pat) || index_of(s, pat) < 0) implies !#[trigger] matches_at(s, pat, j) by {
            if j == 0 {
                assert(s.subrange(0, pat.len() as int) =~= s.take(pat.len() as int));
            } else if matches_at(s, pat, j) {
                assert(t.subrange(j - 1, j - 1 + pat.len()) =~= s.subrange(j, j + pat.len()));
                assert(matches_at(t, pat, j - 1));
            }
        }
        if r >= 0 {
            assert(t.subrange(r, r + pat.len()) =~= s.subrange(r + 1, r + 1 + pat.len()));
        }
    }
}

/// A match with no earlier match is what `index_of` finds.
pub proof fn lemma_index_of_is(s: Seq<char>, pat: Seq<char>, k: int)
    requires
        matches_at(s, pat, k),
        forall|j: int| 0 <= j < k ==> !#[trigger] matches_at(s, pat, j),
    ensures
        index_of(s, pat) == k,
{
    lemma_index_of(s, pat);
    let r: int = index_of(s, pat);
    if r < 0 {
        assert(!matches_at(s, pat, k));
    } else if r < k {
        assert(!matches_at(s, pat, r));
    } else if r > k {
        assert(!matches_at(s, pat, k));
    }
}

/// With no match at all, `index_of` is -1.
pub proof fn lemma_index_of_none(s: Seq<char>, pat: Seq<char>)
    requires
        forall|j: int| 0 <= j ==> !#[trigger] matches_at(s, pat, j),
    ensures
        index_of(s, pat) == -1,
{
    lemma_index_of(s, pat);
    if index_of(s, pat) >= 0 {
        assert(matches_at(s, pat, index_of(s, pat)));
    }
}

/// Whether `pat` occurs at position `i` of `s`.
pub fn match_at(s: &Vec<char>, pat: &Vec<char>, i: usize) -> (b: bool)
    requires
        i <= s.len(),
    ensures
        b == matches_at(s@, pat@, i as int),
{
    if pat.len() > s.len() - i {
        return false;
    }
    let mut k: usize = 0;
    while k < pat.len()
        invariant
            i + pat.len() <= s.len(),
            k <= pat.len(),
            forall|j: int| 0 <= j < k ==> s@[i + j] == pat@[j],
        decreases pat.len() - k,
    {
        if s[i + k] != pat[k] {
            assert(s@.subrange(i as int, i + pat.len())[k as int] != pat@[k as int]);
            return false;
        }
        k = k + 1;
    }
    assert(s@.subrange(i as int, i + pat.len()) =~= pat@);
    true
}

/// The first occurrence of `pat` in `s` at or after `from`, as an offset from `from`.
pub fn find_from(s: &Vec<char>, pat: &Vec<char>, from: usize) -> (r: Option<usize>)
    requires
        from <= s.len(),
    ensures
        match r {
            Some(k) => index_of(s@.skip(from as int), pat@) == k as int && from + k + pat.len() <= s.len(),
            None => index_of(s@.skip(from as int), pat@) == -1,
        },
{
    let ghost t = s@.skip(from as int);
    let mut i: usize = from;
    loop
        invariant
            from <= i <= s.len(),
            t == s@.skip(from as int),
            forall|j: int| 0 <= j < i - from ==> !#[trigger] matches_at(t, pat@, j),
        ensures
            i == s.len(),
            forall|j: int| 0 <= j <= i - from ==> !#[trigger] matches_at(t, pat@, j),
        decreases s.len() - i,
    {
        if match_at(s, pat, i) {
            proof {
                assert(t.subrange(i - from, i - from + pat.len()) =~= s@.subrange(i as int, i + pat.len()));
                lemma_index_of_is(t, pat@, i - from);
            }
            return Some(i - from);
        }
        proof {
            if matches_at(t, pat@, i - from) {
                assert(t.subrange(i - from, i - from + pat.len()) =~= s@.subrange(i as int, i + pat.len()));
            }
        }
        if i == s.len() {
            break;
        }
        i = i + 1;
    }
    proof {
        assert forall|j: int| 0 <= j implies !#[trigger] matches_at(t, pat@, j) by {
            if j > i - from {
                assert(j + pat.len() > t.len());
            }
        }
        lemma_index_of_none(t, pat@);
    }
    None
}

/// Whether `pat` occurs in `s`.
pub open spec fn contains(s: Seq<char>, pat: Seq<char>) -> bool {
    index_of(s, pat) >= 0
}

/// Executable [`contains`].
pub fn contains_chars(s: &Vec<char>, pat: &Vec<char>) -> (b: bool)
    ensures
        b == contains(s@, pat@),
{
    assert(s@.skip(0) =~= s@);
    find_from(s, pat, 0).is_some()
}

/// The character sequences held by a sequence of vectors.
pub open spec fn views(v: Seq<Vec<char>>) -> Seq<Seq<char>> {
    v.map_values(|x: Vec<char>| x@)
}

/// `s` cut at each non-overlapping occurrence of `pat`, scanning from the left
/// (the pieces of std's `str::split` with a non-empty string pattern).
pub open spec fn split_on(s: Seq<char>, pat: Seq<char>) -> Seq<Seq<char>>
    decreases s.len(),
{
    let i: int = index_of(s, pat);
    if pat.len() == 0 || i < 0 {
        seq![s]
    } else {
        proof {
            lemma_index_of(s, pat);
        }
        seq![s.take(i)] + split_on(s.skip(i + pat.len()), pat)
    }
}

/// The number of non-overlapping occurrences of `pat` in `s`, scanning from
/// the left; an empty pattern matches at each of the `s.len() + 1` boundaries
/// (as std's `str::matches(..).count()` does).
pub open spec fn count_matches(s: Seq<char>, pat: Seq<char>) -> nat
    decreases s.len(),
{
    let i: int = index_of(s, pat);
    if pat.len() == 0 {
        s.len() + 1
    } else if i < 0 {
        0
    } else {
        proof {
            lemma_index_of(s, pat);
        }
        1 + count_matches(s.skip(i + pat.len()), pat)
    }
}

/// Executable [`split_on`].
pub fn split_chars(s: &Vec<char>, pat: &Vec<char>) -> (r: Vec<Vec<char>>)
    requires
        pat.len() > 0,
    ensures
        views(r@) == split_on(s@, pat@),
{
    let mut r: Vec<Vec<char>> = Vec::new();
    let mut pos: usize = 0;
    assert(s@.skip(0) =~= s@);
    loop
        invariant
            pos <= s.len(),
            pat.len() > 0,
            split_on(s@, pat@) == views(r@) + split_on(s@.skip(pos as int), pat@),
        decreases s.len() - pos,
    {
        let ghost t = s@.skip(pos as int);
        match find_from(s, pat, pos) {
            None => {
                let piece = sub_vec(s, pos, s.len());
                assert(piece@ =~= t);
                let ghost old_r = r@;
                r.push(piece);
                assert(views(r@) =~= views(old_r) + seq![t]);
                return r;
            },
            Some(k) => {
                let piece = sub_vec(s, pos, pos + k);
                assert(piece@ =~= t.take(k as int));
                assert(t.skip(k + pat.len()) =~= s@.skip(pos + k + pat.len()));
                let ghost old_r = r@;
                r.push(piece);
                assert(views(r@) =~= views(old_r) + seq![t.take(k as int)]);
                pos = pos + k + pat.len();
            },
        }
    }
}

/// Executable [`count_matches`], saturating at `usize::MAX` (reachable only
/// with an empty pattern and a haystack of `usize::MAX` characters).
pub fn count_chars(s: &Vec<char>, pat: &Vec<char>) -> (n: usize)
    ensures
        n == (if count_matches(s@, pat@) > usize::MAX { usize::MAX as nat } else { count_matches(s@, pat@) }),
{
    if pat.len() == 0 {
        if s.len() == usize::MAX {
            return usize::MAX;
        }
        return s.len() + 1;
    }
    let mut n: usize = 0;
    let mut pos: usize = 0;
    assert(s@.skip(0) =~= s@);
    loop
        invariant
            pos <= s.len(),
            pat.len() > 0,
            n <= pos,
            count_matches(s@, pat@) == n + count_matches(s@.skip(pos as int), pat@),
        decreases s.len() - pos,
    {
        let ghost t = s@.skip(pos as int);
        match find_from(s, pat, pos) {
            None => {
                return n;
            },
            Some(k) => {
                assert(t.skip(k + pat.len()) =~= s@.skip(pos + k + pat.len()));
                n = n + 1;
                pos = pos + k + pat.len();
            },
        }
    }
}


/// `l` without one trailing carriage return.
pub open spec fn strip_cr(l: Seq<char>) -> Seq<char> {
    if l.len() > 0 && l.last() == '\r' {
        l.drop_last()
    } else {
        l
    }
}

/// The lines of `s`, as std's `str::lines` gives them: split after each
/// `'\n'`, a `"\r\n"` ending counts as one line ending, and a final line
/// ending adds no empty line.
pub open spec fn lines(s: Seq<char>) -> Seq<Seq<char>>
    decreases s.len(),
{
    let i: int = index_of(s, seq!['\n']);
    if s.len() == 0 {
        seq![]
    } else if i < 0 {
        seq![s]
    } else {
        proof {
            lemma_index_of(s, seq!['\n']);
        }
        seq![strip_cr(s.take(i))] + lines(s.skip(i + 1))
    }
}

/// Executable [`lines`].
pub fn lines_of(s: &Vec<char>) -> (r: Vec<Vec<char>>)
    ensures
        views(r@) == lines(s@),
{
    let mut newline: Vec<char> = Vec::new();
    newline.push('\n');
    assert(newline@ =~= seq!['\n']);
    let mut r: Vec<Vec<char>> = Vec::new();
    let mut pos: usize = 0;
    assert(s@.skip(0) =~= s@);
    while pos < s.len()
        invariant
            pos <= s.len(),
            newline@ == seq!['\n'],
            lines(s@) == views(r@) + lines(s@.skip(pos as int)),
        decreases s.len() - pos,
    {
        let ghost t = s@.skip(pos as int);
        let ghost old_r = r@;
        match find_from(s, &newline, pos) {
            None => {
                let piece = sub_vec(s, pos, s.len());
                assert(piece@ =~= t);
                r.push(piece);
                assert(views(r@) =~= views(old_r) + seq![t]);
                pos = s.len();
                assert(s@.skip(pos as int) =~= Seq::<char>::empty());
                return r;
            },
            Some(k) => {
                let end: usize = if k > 0 && s[pos + k - 1] == '\r' { pos + k - 1 } else { pos + k };
                let piece = sub_vec(s, pos, end);
                assert(piece@ =~= strip_cr(t.take(k as int)));
                assert(t.skip(k + 1) =~= s@.skip(pos + k + 1));
                r.push(piece);
                assert(views(r@) =~= views(old_r) + seq![strip_cr(t.take(k as int))]);
                pos = pos + k + 1;
            },
        }
    }
    assert(s@.skip(pos as int) =~= Seq::<char>::empty());
    assert(views(r@) + Seq::<Seq<char>>::empty() =~= views(r@));
    r
}

/// `parts` joined with `sep` between consecutive parts.
pub open spec fn join(parts: Seq<Seq<char>>, sep: Seq<char>) -> Seq<char>
    decreases parts.len(),
{
    if parts.len() == 0 {
        seq![]
    } else if parts.len() == 1 {
        parts[0]
    } else {
        join(parts.drop_last(), sep) + sep + parts.last()
    }
}

/// Appends `v` to `out`.
pub fn extend_chars(out: &mut Vec<char>, v: &Vec<char>)
    ensures
        final(out)@ == old(out)@ + v@,
{
    let mut i: usize = 0;
    while i < v.len()
        invariant
            i <= v.len(),
            out@ == old(out)@ + v@.take(i as int),
        decreases v.len() - i,
    {
        out.push(v[i]);
        i = i + 1;
        assert(v@.take(i as int) =~= v@.take(i - 1) + seq![v@[i - 1]]);
    }
    assert(v@.take(v.len() as int) =~= v@);
}

/// Executable [`join`] over `parts[from..]`.
pub fn join_chars(parts: &Vec<Vec<char>>, from: usize, sep: &Vec<char>) -> (r: Vec<char>)
    requires
        from <= parts.len(),
    ensures
        r@ == join(views(parts@.skip(from as int)), sep@),
{
    let ghost ps = views(parts@.skip(from as int));
    let mut r: Vec<char> = Vec::new();
    let mut i: usize = from;
    while i < parts.len()
        invariant
            from <= i <= parts.len(),
            ps == views(parts@.skip(from as int)),
            r@ == join(ps.take(i - from), sep@),
        decreases parts.len() - i,
    {
        if i > from {
            extend_chars(&mut r, sep);
        }
        extend_chars(&mut r, &parts[i]);
        i = i + 1;
        assert(ps.take(i - from).drop_last() =~= ps.take(i - from - 1));
        assert(ps.take(i - from).last() == parts@[i - 1]@);
        if i - from == 1 {
            assert(r@ =~= join(ps.take(i - from), sep@));
        }
    }
    assert(ps.take(parts.len() - from) =~= ps);
    r
}

/// Whether `c` is an ASCII decimal digit.
pub open spec fn is_digit(c: char) -> bool {
    48 <= (c as u32) <= 57
}

/// The value of a run of decimal digits.
pub open spec fn digits_value(d: Seq<char>) -> nat
    decreases d.len(),
{
    if d.len() == 0 {
        0
    } else {
        digits_value(d.drop_last()) * 10 + ((d.last() as u32) - 48) as nat
    }
}

/// Whether every character of `d` is a decimal digit.
pub open spec fn all_digits(d: Seq<char>) -> bool {
    forall|i: int| 0 <= i < d.len() ==> is_digit(#[trigger] d[i])
}

/// `s` without one leading `+`.
pub open spec fn unsigned_digits(s: Seq<char>) -> Seq<char> {
    if s.len() > 0 && s[0] == '+' {
        s.drop_first()
    } else {
        s
    }
}

/// What std's `u32::from_str` accepts: an optional `+`, then one or more
/// decimal digits whose value fits in a `u32`.
pub open spec fn parse_u32(s: Seq<char>) -> Option<u32> {
    let d = unsigned_digits(s);
    if d.len() > 0 && all_digits(d) && digits_value(d) <= u32::MAX {
        Some(digits_value(d) as u32)
    } else {
        None
    }
}

/// Executable [`parse_u32`].
pub fn parse_u32_chars(s: &Vec<char>) -> (r: Option<u32>)
    ensures
        r == parse_u32(s@),
{
    let start: usize = if s.len() > 0 && s[0] == '+' { 1 } else { 0 };
    let ghost d = s@.skip(start as int);
    assert(d =~= unsigned_digits(s@));
    if start == s.len() {
        return None;
    }
    let mut value: u64 = 0;
    let mut overflow = false;
    let mut i: usize = start;
    while i < s.len()
        invariant
            start <= i <= s.len(),
            d == s@.skip(start as int),
            d == unsigned_digits(s@),
            forall|j: int| 0 <= j < i - start ==> is_digit(#[trigger] d[j]),
            !overflow ==> value == digits_value(d.take(i - start)) && value <= u32::MAX,
            overflow ==> digits_value(d.take(i - start)) > u32::MAX,
        decreases s.len() - i,
    {
        let c: char = s[i];
        let u: u32 = c as u32;
        if u < 48 || u > 57 {
            assert(!is_digit(d[i - start]));
            assert(!all_digits(d));
            return None;
        }
        let ghost prev = d.take(i - start);
        assert(d.take(i - start + 1).drop_last() =~= prev);
        assert(d.take(i - start + 1).last() == c);
        if !overflow {
            value = value * 10 + (u - 48) as u64;
            if value > 0xffff_ffff {
                overflow = true;
            }
        }
        i = i + 1;
    }
    assert(d.take(s.len() - start) =~= d);
    if overflow {
        None
    } else {
        Some(value as u32)
    }
}

/// The character of a decimal digit.
pub open spec fn digit_char(d: nat) -> char {
    ((48 + d) as u32) as char
}

/// The decimal representation of `n`, without sign or leading zeros.
pub open spec fn decimal(n: nat) -> Seq<char>
    decreases n,
{
    if n < 10 {
        seq![digit_char(n)]
    } else {
        decimal(n / 10).push(digit_char(n % 10))
    }
}

/// Appends the decimal representation of `n` to `out`.
pub fn push_decimal(out: &mut Vec<char>, n: u32)
    ensures
        final(out)@ == old(out)@ + decimal(n as nat),
    decreases n,
{
    if n >= 10 {
        push_decimal(out, n / 10);
    }
    let d: u8 = (n % 10) as u8;
    let c: char = (48u8 + d) as char;
    assert(c == digit_char((n % 10) as nat));
    out.push(c);
}

/// The digits of a decimal representation, and their value.
pub proof fn lemma_decimal(n: nat)
    ensures
        decimal(n).len() > 0,
        forall|i: int| 0 <= i < decimal(n).len() ==> is_digit(#[trigger] decimal(n)[i]),
        digits_value(decimal(n)) == n,
        decimal(n)[0] != '+',
    decreases n,
{
    let c = digit_char(n % 10);
    assert((c as u32) == 48 + n % 10);
    if n < 10 {
        assert(decimal(n).drop_last() =~= Seq::<char>::empty());
        assert(digits_value(Seq::<char>::empty()) == 0);
    }
    if n >= 10 {
        lemma_decimal(n / 10);
        let p = decimal(n / 10);
        assert(decimal(n).drop_last() =~= p);
        assert forall|i: int| 0 <= i < decimal(n).len() implies is_digit(#[trigger] decimal(n)[i]) by {
            if i < p.len() {
                assert(decimal(n)[i] == p[i]);
            }
        }
        assert(decimal(n)[0] == p[0]);
    }
}

/// The Unicode lowercase mapping of a string, as std's `str::to_lowercase`
/// computes it.
pub uninterp spec fn unicode_lowercase(s: Seq<char>) -> Seq<char>;

/// Whether every character of `s` is ASCII.
pub open spec fn is_ascii_text(s: Seq<char>) -> bool {
    forall|i: int| 0 <= i < s.len() ==> (#[trigger] s[i] as u32) < 128
}

/// The ASCII lowercase of a character: `A` to `Z` become `a` to `z`, any
/// other character stays.
pub open spec fn ascii_lower_char(c: char) -> char {
    if 'A' <= c && c <= 'Z' {
        ((c as u32) + 32) as char
    } else {
        c
    }
}

/// The ASCII lowercase of a text.
pub open spec fn ascii_lowercase(s: Seq<char>) -> Seq<char> {
    s.map_values(|c: char| ascii_lower_char(c))
}

/// Lowercases `s` with std's `str::to_lowercase`. Trusted: the result is
/// [`unicode_lowercase`] of the argument, and for an ASCII text it is the
/// text with `A` to `Z` made `a` to `z` (which is what the Unicode mapping
/// does to ASCII); the Unicode tables for other characters are not restated.
#[verifier::external_body]
pub(crate) fn to_lowercase(s: &str) -> (r: String)
    ensures
        r@ == unicode_lowercase(s@),
        is_ascii_text(s@) ==> r@ == ascii_lowercase(s@),
{
    s.to_lowercase()
}

/// An owned copy of `s`.
pub fn owned(s: &str) -> (r: String)
    ensures
        r@ == s@,
{
    s.to_string()
}

/// Whether two character vectors hold the same characters.
pub fn eq_chars(a: &Vec<char>, b: &Vec<char>) -> (r: bool)
    ensures
        r == (a@ == b@),
{
    if a.len() != b.len() {
        return false;
    }
    let mut i: usize = 0;
    while i < a.len()
        invariant
            i <= a.len() == b.len(),
            forall|k: int| 0 <= k < i ==> a@[k] == b@[k],
        decreases a.len() - i,
    {
        if a[i] != b[i] {
            return false;
        }
        i = i + 1;
    }
    assert(a@ =~= b@);
    true
}

/// Whether `a` holds exactly the characters of `b`.
pub fn eq_str(a: &Vec<char>, b: &str) -> (r: bool)
    ensures
        r == (a@ == b@),
{
    eq_chars(a, &chars_of(b))
}

/// Whether `t` occurs as a contiguous part of `s`.
pub open spec fn is_infix(t: Seq<char>, s: Seq<char>) -> bool {
    exists|i: int| 0 <= i && i + t.len() <= s.len() && #[trigger] s.subrange(i, i + t.len()) == t
}

/// The characters of `s`.
pub fn chars_of(s: &str) -> (v: Vec<char>)
    ensures
        v@ == s@,
{
    let mut v: Vec<char> = Vec::new();
    for c in it: s.chars()
        invariant
            v@ == it.seq().take(it.index() as int),
            it.seq() == s@,
    {
        v.push(c);
    }
    v
}

/// Collects characters into a `String`, through std's `FromIterator<&char>`
/// for `String`. Trusted: the string holds exactly these characters, in order.
#[verifier::external_body]
pub(crate) fn string_of(chars: &Vec<char>) -> (s: String)
    ensures
        s@ == chars@,
{
    String::from_iter(chars.iter())
}

} // verus!

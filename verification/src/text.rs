use vstd::prelude::*;
use vstd::string::*;

verus! {

/// `String::push` appends one character to the end of the string.
pub assume_specification[ String::push ](s: &mut String, ch: char)
    ensures
        final(s)@ == old(s)@.push(ch),
;

/// Whether `c` has the Unicode `White_Space` property, which is what
/// `char::is_whitespace` tests and what `str::trim` and
/// `str::split_whitespace` split on.
pub open spec fn is_ws(c: char) -> bool {
    let n = c as u32;
    ||| n == 0x20
    ||| (0x09 <= n && n <= 0x0d)
    ||| n == 0x85
    ||| n == 0xa0
    ||| n == 0x1680
    ||| (0x2000 <= n && n <= 0x200a)
    ||| n == 0x2028
    ||| n == 0x2029
    ||| n == 0x202f
    ||| n == 0x205f
    ||| n == 0x3000
}

pub fn is_whitespace(c: char) -> (r: bool)
    ensures
        r == is_ws(c),
{
    let n: u32 = c as u32;
    n == 0x20 || (0x09 <= n && n <= 0x0d) || n == 0x85 || n == 0xa0 || n == 0x1680 || (0x2000
        <= n && n <= 0x200a) || n == 0x2028 || n == 0x2029 || n == 0x202f || n == 0x205f || n
        == 0x3000
}

/// A set of characters that a scan runs over.
#[derive(Clone, Copy)]
pub enum CharClass {
    Space,
    NonSpace,
    Is(char),
    IsNot(char),
}

impl CharClass {
    pub open spec fn has(self, c: char) -> bool {
        match self {
            CharClass::Space => is_ws(c),
            CharClass::NonSpace => !is_ws(c),
            CharClass::Is(d) => c == d,
            CharClass::IsNot(d) => c != d,
        }
    }

    pub fn contains(&self, c: char) -> (r: bool)
        ensures
            r == self.has(c),
    {
        match self {
            CharClass::Space => is_whitespace(c),
            CharClass::NonSpace => !is_whitespace(c),
            CharClass::Is(d) => c == *d,
            CharClass::IsNot(d) => c != *d,
        }
    }
}

/// `n` is the length of the longest prefix of `s` whose characters are all in `k`.
pub open spec fn is_run_len(s: Seq<char>, k: CharClass, n: int) -> bool {
    &&& 0 <= n <= s.len()
    &&& forall|j: int| 0 <= j < n ==> k.has(#[trigger] s[j])
    &&& n < s.len() ==> !k.has(s[n])
}

/// The length of the longest prefix of `s` whose characters are all in `k`.
pub open spec fn run_len(s: Seq<char>, k: CharClass) -> int {
    choose|n: int| is_run_len(s, k, n)
}

/// `b` is where the longest suffix of `s` whose characters are all in `k` begins.
pub open spec fn is_tail_start(s: Seq<char>, k: CharClass, b: int) -> bool {
    &&& 0 <= b <= s.len()
    &&& forall|j: int| b <= j < s.len() ==> k.has(#[trigger] s[j])
    &&& b > 0 ==> !k.has(s[b - 1])
}

/// Where the longest suffix of `s` whose characters are all in `k` begins.
pub open spec fn tail_start(s: Seq<char>, k: CharClass) -> int {
    choose|b: int| is_tail_start(s, k, b)
}

pub proof fn lemma_run_len_exists(s: Seq<char>, k: CharClass)
    ensures
        exists|n: int| is_run_len(s, k, n),
    decreases s.len(),
{
    if s.len() == 0 {
        assert(is_run_len(s, k, 0));
    } else if !k.has(s[0]) {
        assert(is_run_len(s, k, 0));
    } else {
        lemma_run_len_exists(s.drop_first(), k);
        let m = choose|m: int| is_run_len(s.drop_first(), k, m);
        assert forall|j: int| 0 <= j < m + 1 implies k.has(#[trigger] s[j]) by {
            if j > 0 {
                assert(s[j] == s.drop_first()[j - 1]);
            }
        }
        if m + 1 < s.len() {
            assert(s[m + 1] == s.drop_first()[m]);
        }
        assert(is_run_len(s, k, m + 1));
    }
}

pub proof fn lemma_run_len(s: Seq<char>, k: CharClass)
    ensures
        is_run_len(s, k, run_len(s, k)),
        forall|n: int| is_run_len(s, k, n) ==> n == run_len(s, k),
{
    lemma_run_len_exists(s, k);
    let r = run_len(s, k);
    assert forall|n: int| is_run_len(s, k, n) implies n == r by {
        if n < r {
            assert(k.has(s[n]));
        } else if r < n {
            assert(k.has(s[r]));
        }
    }
}

pub proof fn lemma_tail_start_exists(s: Seq<char>, k: CharClass)
    ensures
        exists|b: int| is_tail_start(s, k, b),
    decreases s.len(),
{
    if s.len() == 0 {
        assert(is_tail_start(s, k, 0));
    } else if !k.has(s.last()) {
        assert(is_tail_start(s, k, s.len() as int));
    } else {
        let t = s.drop_last();
        lemma_tail_start_exists(t, k);
        let b = choose|b: int| is_tail_start(t, k, b);
        assert forall|j: int| b <= j < s.len() implies k.has(#[trigger] s[j]) by {
            if j < s.len() - 1 {
                assert(s[j] == t[j]);
            }
        }
        if b > 0 {
            assert(s[b - 1] == t[b - 1]);
        }
        assert(is_tail_start(s, k, b));
    }
}

pub proof fn lemma_tail_start(s: Seq<char>, k: CharClass)
    ensures
        is_tail_start(s, k, tail_start(s, k)),
        forall|b: int| is_tail_start(s, k, b) ==> b == tail_start(s, k),
{
    lemma_tail_start_exists(s, k);
    let r = tail_start(s, k);
    assert forall|b: int| is_tail_start(s, k, b) implies b == r by {
        if b < r {
            assert(k.has(s[r - 1]));
        } else if r < b {
            assert(k.has(s[b - 1]));
        }
    }
}

/// Scans `v[from..to]` forward over the characters of class `k`.
pub fn run_end(v: &Vec<char>, from: usize, to: usize, k: CharClass) -> (e: usize)
    requires
        from <= to <= v.len(),
    ensures
        from <= e <= to,
        e - from == run_len(v@.subrange(from as int, to as int), k),
{
    let mut e: usize = from;
    while e < to && k.contains(v[e])
        invariant
            from <= e <= to <= v.len(),
            forall|j: int| from <= j < e ==> k.has(#[trigger] v@[j]),
        decreases to - e,
    {
        e += 1;
    }
    proof {
        let s = v@.subrange(from as int, to as int);
        assert forall|j: int| 0 <= j < e - from implies k.has(#[trigger] s[j]) by {
            assert(s[j] == v@[from + j]);
        }
        assert(is_run_len(s, k, e - from));
        lemma_run_len(s, k);
    }
    e
}

/// Scans `v[from..to]` backward from `to` over the characters of class `k`.
pub fn tail_begin(v: &Vec<char>, from: usize, to: usize, k: CharClass) -> (b: usize)
    requires
        from <= to <= v.len(),
    ensures
        from <= b <= to,
        b - from == tail_start(v@.subrange(from as int, to as int), k),
{
    let mut b: usize = to;
    while b > from && k.contains(v[b - 1])
        invariant
            from <= b <= to <= v.len(),
            forall|j: int| b <= j < to ==> k.has(#[trigger] v@[j]),
        decreases b - from,
    {
        b -= 1;
    }
    proof {
        let s = v@.subrange(from as int, to as int);
        assert forall|j: int| b - from <= j < s.len() implies k.has(#[trigger] s[j]) by {
            assert(s[j] == v@[from + j]);
        }
        if b > from {
            assert(s[b - from - 1] == v@[b - 1]);
        }
        assert(is_tail_start(s, k, b - from));
        lemma_tail_start(s, k);
    }
    b
}

/// The characters of a string slice, in order.
pub fn chars_of(s: &str) -> (v: Vec<char>)
    ensures
        v@ == s@,
{
    let mut v: Vec<char> = Vec::new();
    for c in it: s.chars()
        invariant
            v@ == it.seq().take(it.index() as int),
            it.seq() == s@,
    {
        v.push(c);
    }
    v
}

/// A string made of the characters `v[start..end]`.
pub fn string_of(v: &Vec<char>, start: usize, end: usize) -> (s: String)
    requires
        start <= end <= v.len(),
    ensures
        s@ == v@.subrange(start as int, end as int),
{
    let mut s = String::new();
    let mut i: usize = start;
    while i < end
        invariant
            start <= i <= end <= v.len(),
            s@ == v@.subrange(start as int, i as int),
        decreases end - i,
    {
        s.push(v[i]);
        assert(v@.subrange(start as int, i + 1) == v@.subrange(start as int, i as int).push(
            v@[i as int],
        ));
        i += 1;
    }
    s
}


/// The position of the first `c` in `s`, if any.
pub open spec fn find(s: Seq<char>, c: char) -> Option<int> {
    let n = run_len(s, CharClass::IsNot(c));
    if n < s.len() {
        Some(n)
    } else {
        None
    }
}

/// `str::split_once` with a character: the text before and after the first `c`.
pub open spec fn split_once(s: Seq<char>, c: char) -> Option<(Seq<char>, Seq<char>)> {
    match find(s, c) {
        Some(i) => Some((s.take(i), s.skip(i + 1))),
        None => None,
    }
}

/// `p` stands in `s` at position `i`.
pub open spec fn occurs_at(s: Seq<char>, p: Seq<char>, i: int) -> bool {
    0 <= i && i + p.len() <= s.len() && s.subrange(i, i + p.len()) == p
}

/// `i` is the leftmost position at which `p` stands in `s`.
pub open spec fn is_first_occurrence(s: Seq<char>, p: Seq<char>, i: int) -> bool {
    occurs_at(s, p, i) && forall|j: int| 0 <= j < i ==> !#[trigger] occurs_at(s, p, j)
}

/// The leftmost position at which `p` stands in `s`, if any.
pub open spec fn find_str(s: Seq<char>, p: Seq<char>) -> Option<int> {
    if exists|i: int| is_first_occurrence(s, p, i) {
        Some(choose|i: int| is_first_occurrence(s, p, i))
    } else {
        None
    }
}

/// `str::split_once` with a string pattern.
pub open spec fn split_once_str(s: Seq<char>, p: Seq<char>) -> Option<(Seq<char>, Seq<char>)> {
    match find_str(s, p) {
        Some(i) => Some((s.take(i), s.skip(i + p.len()))),
        None => None,
    }
}

/// `str::contains` with a string pattern.
pub open spec fn contains_str(s: Seq<char>, p: Seq<char>) -> bool {
    exists|i: int| occurs_at(s, p, i)
}

/// `str::starts_with` with a string pattern.
pub open spec fn starts_with(s: Seq<char>, p: Seq<char>) -> bool {
    p.len() <= s.len() && s.take(p.len() as int) == p
}

/// `str::trim_start_matches` with a non-empty string pattern: every leading copy of `p` removed.
pub open spec fn strip_prefixes(s: Seq<char>, p: Seq<char>) -> Seq<char>
    decreases s.len(),
{
    if p.len() > 0 && starts_with(s, p) {
        strip_prefixes(s.skip(p.len() as int), p)
    } else {
        s
    }
}

/// `s` without its leading characters of class `k`.
pub open spec fn trim_start_class(s: Seq<char>, k: CharClass) -> Seq<char> {
    s.skip(run_len(s, k))
}

/// `s` without its trailing characters of class `k`.
pub open spec fn trim_end_class(s: Seq<char>, k: CharClass) -> Seq<char> {
    s.take(tail_start(s, k))
}

/// `s` without its leading and trailing characters of class `k`.
pub open spec fn trim_class(s: Seq<char>, k: CharClass) -> Seq<char> {
    trim_end_class(trim_start_class(s, k), k)
}

/// `str::trim`.
pub open spec fn trim(s: Seq<char>) -> Seq<char> {
    trim_class(s, CharClass::Space)
}

/// One line as `str::lines` yields it: the text before a `\n`, less one `\r` before it.
pub open spec fn strip_cr(s: Seq<char>) -> Seq<char> {
    if s.len() > 0 && s.last() == '\r' {
        s.drop_last()
    } else {
        s
    }
}

/// `str::lines`: the text split at each `\n`, with a `\r` before a `\n` dropped;
/// a final `\n` ends the last line and starts no new one.
pub open spec fn lines(s: Seq<char>) -> Seq<Seq<char>>
    decreases s.len(),
{
    if s.len() == 0 {
        seq![]
    } else {
        proof {
            lemma_run_len(s, CharClass::IsNot('\n'));
        }
        match find(s, '\n') {
            Some(i) => seq![strip_cr(s.take(i))] + lines(s.skip(i + 1)),
            None => seq![s],
        }
    }
}

/// `str::split` with a character: the pieces between the occurrences of `c`.
pub open spec fn split_char(s: Seq<char>, c: char) -> Seq<Seq<char>>
    decreases s.len(),
{
    proof {
        lemma_run_len(s, CharClass::IsNot(c));
    }
    match find(s, c) {
        Some(i) => seq![s.take(i)] + split_char(s.skip(i + 1), c),
        None => seq![s],
    }
}

/// `str::split_whitespace`: the maximal runs of non-whitespace characters.
pub open spec fn words(s: Seq<char>) -> Seq<Seq<char>>
    decreases s.len(),
{
    let a = run_len(s, CharClass::Space);
    proof {
        lemma_run_len(s, CharClass::Space);
    }
    if a >= s.len() {
        seq![]
    } else {
        let t = s.skip(a);
        let n = run_len(t, CharClass::NonSpace);
        proof {
            lemma_run_len(t, CharClass::NonSpace);
            assert(t[0] == s[a]);
        }
        seq![t.take(n)] + words(t.skip(n))
    }
}

/// The views of a sequence of character vectors.
pub open spec fn views(vs: Seq<Vec<char>>) -> Seq<Seq<char>> {
    vs.map_values(|x: Vec<char>| x@)
}

/// A copy of `v[a..b]`.
pub fn copy_range(v: &Vec<char>, a: usize, b: usize) -> (r: Vec<char>)
    requires
        a <= b <= v.len(),
    ensures
        r@ == v@.subrange(a as int, b as int),
{
    let mut r: Vec<char> = Vec::new();
    let mut i: usize = a;
    while i < b
        invariant
            a <= i <= b <= v.len(),
            r@ == v@.subrange(a as int, i as int),
        decreases b - i,
    {
        r.push(v[i]);
        assert(v@.subrange(a as int, i + 1) == v@.subrange(a as int, i as int).push(v@[i as int]));
        i += 1;
    }
    r
}

/// Whether `v[from..to]` is the text `w`.
pub fn range_eq(v: &Vec<char>, from: usize, to: usize, w: &Vec<char>) -> (r: bool)
    requires
        from <= to <= v.len(),
    ensures
        r == (v@.subrange(from as int, to as int) == w@),
{
    if to - from != w.len() {
        return false;
    }
    let mut i: usize = 0;
    while i < w.len()
        invariant
            from <= to <= v.len(),
            to - from == w.len(),
            0 <= i <= w.len(),
            forall|j: int| 0 <= j < i ==> v@[from + j] == w@[j],
        decreases w.len() - i,
    {
        if v[from + i] != w[i] {
            assert(v@.subrange(from as int, to as int)[i as int] != w@[i as int]);
            return false;
        }
        i += 1;
    }
    assert(v@.subrange(from as int, to as int) =~= w@);
    true
}

/// Whether `v[from..to]` is the text of the literal `lit`.
pub fn range_is(v: &Vec<char>, from: usize, to: usize, lit: &str) -> (r: bool)
    requires
        from <= to <= v.len(),
    ensures
        r == (v@.subrange(from as int, to as int) == lit@),
{
    let w = chars_of(lit);
    range_eq(v, from, to, &w)
}

/// The first `c` in `v[from..to]`.
pub fn find_in(v: &Vec<char>, from: usize, to: usize, c: char) -> (r: Option<usize>)
    requires
        from <= to <= v.len(),
    ensures
        match r {
            Some(i) => from <= i < to && find(v@.subrange(from as int, to as int), c) == Some(
                i - from,
            ),
            None => find(v@.subrange(from as int, to as int), c) is None,
        },
{
    let e: usize = run_end(v, from, to, CharClass::IsNot(c));
    if e < to {
        Some(e)
    } else {
        None
    }
}

/// Whether `p` stands in `v` at position `i`.
pub fn matches_at(v: &Vec<char>, i: usize, p: &Vec<char>) -> (r: bool)
    requires
        i <= v.len(),
    ensures
        r == occurs_at(v@, p@, i as int),
{
    if p.len() > v.len() - i {
        return false;
    }
    range_eq(v, i, i + p.len(), p)
}

/// The leftmost position at which `p` stands in `v[from..to]`.
pub fn find_str_in(v: &Vec<char>, from: usize, to: usize, p: &Vec<char>) -> (r: Option<usize>)
    requires
        from <= to <= v.len(),
    ensures
        match r {
            Some(i) => from <= i && i + p.len() <= to && find_str(
                v@.subrange(from as int, to as int),
                p@,
            ) == Some(i - from),
            None => find_str(v@.subrange(from as int, to as int), p@) is None && !contains_str(
                v@.subrange(from as int, to as int),
                p@,
            ),
        },
{
    let ghost s = v@.subrange(from as int, to as int);
    let m: usize = p.len();
    if m > to - from {
        return None;
    }
    if m == 0 {
        proof {
            assert(s.subrange(0, 0) =~= p@);
            assert(is_first_occurrence(s, p@, 0));
        }
        return Some(from);
    }
    let mut i: usize = from;
    while i <= to - m
        invariant
            from <= i <= to - m + 1,
            0 < m <= to - from,
            from <= to <= v.len(),
            m == p.len(),
            s == v@.subrange(from as int, to as int),
            forall|j: int| 0 <= j < i - from ==> !#[trigger] occurs_at(s, p@, j),
        decreases to - m + 1 - i,
    {
        let found = range_eq(v, i, i + m, p);
        proof {
            assert(s.subrange(i - from, i - from + m) =~= v@.subrange(i as int, i + m));
        }
        if found {
            proof {
                assert(is_first_occurrence(s, p@, i - from));
                let k = choose|k: int| is_first_occurrence(s, p@, k);
                if k < i - from {
                    assert(!occurs_at(s, p@, k));
                }
                if k > i - from {
                    assert(!occurs_at(s, p@, i - from));
                }
            }
            return Some(i);
        }
        i += 1;
    }
    None
}

/// Whether `v[from..to]` begins with `p`.
pub fn starts_with_in(v: &Vec<char>, from: usize, to: usize, p: &Vec<char>) -> (r: bool)
    requires
        from <= to <= v.len(),
    ensures
        r == starts_with(v@.subrange(from as int, to as int), p@),
{
    if p.len() > to - from {
        return false;
    }
    let r = range_eq(v, from, from + p.len(), p);
    assert(v@.subrange(from as int, to as int).take(p.len() as int) =~= v@.subrange(
        from as int,
        from + p.len(),
    ));
    r
}

/// `v[from..to]` less its leading and trailing characters of class `k`, as a range.
pub fn trim_in(v: &Vec<char>, from: usize, to: usize, k: CharClass) -> (r: (usize, usize))
    requires
        from <= to <= v.len(),
    ensures
        from <= r.0 <= r.1 <= to,
        v@.subrange(r.0 as int, r.1 as int) == trim_class(v@.subrange(from as int, to as int), k),
{
    let a: usize = run_end(v, from, to, k);
    let b: usize = tail_begin(v, a, to, k);
    proof {
        let s = v@.subrange(from as int, to as int);
        assert(trim_start_class(s, k) =~= v@.subrange(a as int, to as int));
        assert(v@.subrange(a as int, to as int).take(b - a) =~= v@.subrange(a as int, b as int));
    }
    (a, b)
}

/// `v[from..to]` less its trailing characters of class `k`: the end of what is left.
pub fn trim_end_in(v: &Vec<char>, from: usize, to: usize, k: CharClass) -> (b: usize)
    requires
        from <= to <= v.len(),
    ensures
        from <= b <= to,
        v@.subrange(from as int, b as int) == trim_end_class(
            v@.subrange(from as int, to as int),
            k,
        ),
{
    let b: usize = tail_begin(v, from, to, k);
    assert(v@.subrange(from as int, to as int).take(b - from) =~= v@.subrange(
        from as int,
        b as int,
    ));
    b
}

/// The first word of `v[from..to]`, as a range; the words after it are those of `v[b..to]`.
pub fn next_word(v: &Vec<char>, from: usize, to: usize) -> (r: Option<(usize, usize)>)
    requires
        from <= to <= v.len(),
    ensures
        match r {
            Some((a, b)) => from <= a < b <= to && words(v@.subrange(from as int, to as int))
                == seq![v@.subrange(a as int, b as int)] + words(v@.subrange(b as int, to as int)),
            None => words(v@.subrange(from as int, to as int)).len() == 0,
        },
{
    let a: usize = run_end(v, from, to, CharClass::Space);
    if a == to {
        return None;
    }
    let b: usize = run_end(v, a, to, CharClass::NonSpace);
    proof {
        let s = v@.subrange(from as int, to as int);
        let t = s.skip(a - from);
        assert(t =~= v@.subrange(a as int, to as int));
        lemma_run_len(s, CharClass::Space);
        lemma_run_len(t, CharClass::NonSpace);
        assert(t[0] == s[a - from]);
        assert(t.take(b - a) =~= v@.subrange(a as int, b as int));
        assert(t.skip(b - a) =~= v@.subrange(b as int, to as int));
    }
    Some((a, b))
}

/// `v` cut into lines as `str::lines` cuts it.
pub fn split_lines(v: &Vec<char>) -> (r: Vec<Vec<char>>)
    ensures
        views(r@) == lines(v@),
{
    let n: usize = v.len();
    let mut out: Vec<Vec<char>> = Vec::new();
    let mut pos: usize = 0;
    assert(v@.subrange(0, n as int) =~= v@);
    while pos < n
        invariant
            n == v.len(),
            pos <= n,
            lines(v@) == views(out@) + lines(v@.subrange(pos as int, n as int)),
        decreases n - pos,
    {
        let ghost s = v@.subrange(pos as int, n as int);
        let ghost before = out@;
        match find_in(v, pos, n, '\n') {
            Some(i) => {
                let mut e: usize = i;
                if e > pos && v[e - 1] == '\r' {
                    e -= 1;
                }
                let line = copy_range(v, pos, e);
                proof {
                    assert(s.take(i - pos) =~= v@.subrange(pos as int, i as int));
                    assert(strip_cr(s.take(i - pos)) =~= line@);
                    assert(s.skip(i - pos + 1) =~= v@.subrange(i + 1, n as int));
                }
                out.push(line);
                pos = i + 1;
            },
            None => {
                let line = copy_range(v, pos, n);
                out.push(line);
                pos = n;
            },
        }
        proof {
            assert(views(out@) =~= views(before).push(out@.last()@));
            assert(v@.subrange(n as int, n as int) =~= Seq::<char>::empty());
        }
        assert(lines(v@) == views(out@) + lines(v@.subrange(pos as int, n as int))) by {
            assert(views(before) + lines(s) =~= views(out@) + lines(
                v@.subrange(pos as int, n as int),
            ));
        }
    }
    assert(lines(v@.subrange(n as int, n as int)) =~= Seq::<Seq<char>>::empty());
    assert(views(out@) + lines(v@.subrange(n as int, n as int)) =~= views(out@));
    out
}


/// The results of `f` on the items of `s` that `f` maps to `Some`, in order
/// (`Iterator::filter_map`).
pub open spec fn filter_map<A, B>(s: Seq<A>, f: spec_fn(A) -> Option<B>) -> Seq<B>
    decreases s.len(),
{
    if s.len() == 0 {
        seq![]
    } else {
        let rest = filter_map(s.drop_last(), f);
        match f(s.last()) {
            Some(b) => rest.push(b),
            None => rest,
        }
    }
}

pub proof fn lemma_filter_map_step<A, B>(s: Seq<A>, i: int, f: spec_fn(A) -> Option<B>)
    requires
        0 <= i < s.len(),
    ensures
        filter_map(s.take(i + 1), f) == (match f(s[i]) {
            Some(b) => filter_map(s.take(i), f).push(b),
            None => filter_map(s.take(i), f),
        }),
{
    assert(s.take(i + 1).drop_last() =~= s.take(i));
}

pub proof fn lemma_filter_map_len<A, B>(s: Seq<A>, f: spec_fn(A) -> Option<B>)
    ensures
        filter_map(s, f).len() <= s.len(),
    decreases s.len(),
{
    if s.len() > 0 {
        lemma_filter_map_len(s.drop_last(), f);
    }
}

pub proof fn lemma_filter_map_member<A, B>(s: Seq<A>, f: spec_fn(A) -> Option<B>, i: int)
    requires
        0 <= i < filter_map(s, f).len(),
    ensures
        exists|j: int| 0 <= j < s.len() && f(s[j]) == Some(filter_map(s, f)[i]),
    decreases s.len(),
{
    let rest = filter_map(s.drop_last(), f);
    if i < rest.len() {
        lemma_filter_map_member(s.drop_last(), f, i);
        let j = choose|j: int| 0 <= j < s.drop_last().len() && f(s.drop_last()[j]) == Some(rest[i]);
        assert(s[j] == s.drop_last()[j]);
    } else {
        assert(f(s[s.len() - 1]) == Some(filter_map(s, f)[i]));
    }
}

/// The texts of the ranges `rs` of `v`.
pub open spec fn range_views(v: Seq<char>, rs: Seq<(usize, usize)>) -> Seq<Seq<char>> {
    rs.map_values(|r: (usize, usize)| v.subrange(r.0 as int, r.1 as int))
}

/// The pieces of `v[from..to]` between the occurrences of `c`, as ranges.
pub fn split_char_ranges(v: &Vec<char>, from: usize, to: usize, c: char) -> (r: Vec<(usize, usize)>)
    requires
        from <= to <= v.len(),
    ensures
        range_views(v@, r@) == split_char(v@.subrange(from as int, to as int), c),
        forall|k: int| 0 <= k < r@.len() ==> from <= #[trigger] r@[k].0 <= r@[k].1 <= to,
{
    let mut out: Vec<(usize, usize)> = Vec::new();
    let mut pos: usize = from;
    assert(range_views(v@, out@) + split_char(v@.subrange(pos as int, to as int), c) =~= split_char(
        v@.subrange(from as int, to as int),
        c,
    ));
    loop
        invariant_except_break
            split_char(v@.subrange(from as int, to as int), c) == range_views(v@, out@)
                + split_char(v@.subrange(pos as int, to as int), c),
        invariant
            from <= pos <= to <= v.len(),
            forall|k: int| 0 <= k < out@.len() ==> from <= #[trigger] out@[k].0 <= out@[k].1 <= to,
        ensures
            range_views(v@, out@) == split_char(v@.subrange(from as int, to as int), c),
            forall|k: int| 0 <= k < out@.len() ==> from <= #[trigger] out@[k].0 <= out@[k].1 <= to,
        decreases to - pos,
    {
        let ghost s = v@.subrange(pos as int, to as int);
        let ghost before = out@;
        match find_in(v, pos, to, c) {
            Some(i) => {
                out.push((pos, i));
                proof {
                    assert(forall|k: int| 0 <= k < before.len() ==> out@[k] == before[k]);
                    assert(out@[before.len() as int] == (pos, i));
                    assert(s.take(i - pos) =~= v@.subrange(pos as int, i as int));
                    assert(s.skip(i - pos + 1) =~= v@.subrange(i + 1, to as int));
                    assert(range_views(v@, out@) =~= range_views(v@, before).push(
                        v@.subrange(pos as int, i as int),
                    ));
                    assert(range_views(v@, before) + split_char(s, c) =~= range_views(v@, out@)
                        + split_char(v@.subrange(i + 1, to as int), c));
                }
                pos = i + 1;
            },
            None => {
                out.push((pos, to));
                proof {
                    assert(forall|k: int| 0 <= k < before.len() ==> out@[k] == before[k]);
                    assert(out@[before.len() as int] == (pos, to));
                    assert(range_views(v@, out@) =~= range_views(v@, before).push(s));
                    assert(range_views(v@, before) + split_char(s, c) =~= range_views(v@, out@));
                }
                break ;
            },
        }
    }
    out
}


/// The decimal digit for `d` in `0..10`.
pub open spec fn digit(d: int) -> char {
    if d == 0 {
        '0'
    } else if d == 1 {
        '1'
    } else if d == 2 {
        '2'
    } else if d == 3 {
        '3'
    } else if d == 4 {
        '4'
    } else if d == 5 {
        '5'
    } else if d == 6 {
        '6'
    } else if d == 7 {
        '7'
    } else if d == 8 {
        '8'
    } else {
        '9'
    }
}

/// The decimal notation of `n`, without leading zeros.
pub open spec fn decimal(n: nat) -> Seq<char>
    decreases n,
{
    if n < 10 {
        seq![digit(n as int)]
    } else {
        decimal(n / 10).push(digit((n % 10) as int))
    }
}

/// The decimal notation of `n`, with a `-` before a negative number.
pub open spec fn int_text(n: int) -> Seq<char> {
    if n < 0 {
        seq!['-'] + decimal((-n) as nat)
    } else {
        decimal(n as nat)
    }
}

fn digit_char(d: u64) -> (c: char)
    requires
        d < 10,
    ensures
        c == digit(d as int),
{
    if d == 0 {
        '0'
    } else if d == 1 {
        '1'
    } else if d == 2 {
        '2'
    } else if d == 3 {
        '3'
    } else if d == 4 {
        '4'
    } else if d == 5 {
        '5'
    } else if d == 6 {
        '6'
    } else if d == 7 {
        '7'
    } else if d == 8 {
        '8'
    } else {
        '9'
    }
}

/// Appends the decimal notation of `n`.
pub fn push_decimal(s: &mut String, n: u64)
    ensures
        final(s)@ == old(s)@ + decimal(n as nat),
    decreases n,
{
    if n >= 10 {
        push_decimal(s, n / 10);
    }
    s.push(digit_char(n % 10));
    assert(old(s)@ + decimal(n as nat) =~= s@);
}

/// Appends the decimal notation of `n`, with a `-` before a negative number.
pub fn push_int(s: &mut String, n: i64)
    ensures
        final(s)@ == old(s)@ + int_text(n as int),
{
    if n < 0 {
        s.push('-');
        let m: u64 = ((-(n + 1)) as u64) + 1;
        push_decimal(s, m);
        assert(old(s)@ + int_text(n as int) =~= s@);
    } else {
        push_decimal(s, n as u64);
    }
}

/// Appends the text of `lit`.
pub fn push_str(s: &mut String, lit: &str)
    ensures
        final(s)@ == old(s)@ + lit@,
{
    s.append(lit);
}

/// A new string holding the text of `lit`.
pub fn owned(lit: &str) -> (s: String)
    ensures
        s@ == lit@,
{
    lit.to_owned()
}


/// `str::trim` on a string, as a new string.
pub fn trim_string(s: &str) -> (r: String)
    ensures
        r@ == trim(s@),
{
    let v = chars_of(s);
    let (a, b) = trim_in(&v, 0, v.len(), CharClass::Space);
    assert(v@.subrange(0, v@.len() as int) =~= v@);
    string_of(&v, a, b)
}


/// `split_once` on `v[from..to]`: where the first `c` stands.
pub fn split_once_in(v: &Vec<char>, from: usize, to: usize, c: char) -> (r: Option<usize>)
    requires
        from <= to <= v.len(),
    ensures
        match r {
            Some(i) => from <= i < to && split_once(v@.subrange(from as int, to as int), c) == Some(
                (v@.subrange(from as int, i as int), v@.subrange(i + 1, to as int)),
            ),
            None => split_once(v@.subrange(from as int, to as int), c) is None,
        },
{
    let r = find_in(v, from, to, c);
    if let Some(i) = r {
        let ghost s = v@.subrange(from as int, to as int);
        assert(s.take(i - from) =~= v@.subrange(from as int, i as int));
        assert(s.skip(i - from + 1) =~= v@.subrange(i + 1, to as int));
    }
    r
}

/// `split_once` with a string pattern on `v[from..to]`: where the first `p` stands.
pub fn split_once_str_in(v: &Vec<char>, from: usize, to: usize, p: &Vec<char>) -> (r: Option<usize>)
    requires
        from <= to <= v.len(),
    ensures
        match r {
            Some(i) => from <= i && i + p.len() <= to && split_once_str(
                v@.subrange(from as int, to as int),
                p@,
            ) == Some(
                (v@.subrange(from as int, i as int), v@.subrange(i + p.len(), to as int)),
            ),
            None => split_once_str(v@.subrange(from as int, to as int), p@) is None,
        },
{
    let r = find_str_in(v, from, to, p);
    if let Some(i) = r {
        let ghost s = v@.subrange(from as int, to as int);
        assert(s.take(i - from) =~= v@.subrange(from as int, i as int));
        assert(s.skip(i - from + p.len()) =~= v@.subrange(i + p.len(), to as int));
    }
    r
}


/// `v[from..to]` with every leading copy of `p` removed: where what is left begins.
pub fn strip_prefixes_in(v: &Vec<char>, from: usize, to: usize, p: &Vec<char>) -> (a: usize)
    requires
        from <= to <= v.len(),
    ensures
        from <= a <= to,
        v@.subrange(a as int, to as int) == strip_prefixes(v@.subrange(from as int, to as int), p@),
{
    if p.len() == 0 {
        return from;
    }
    let mut a: usize = from;
    while starts_with_in(v, a, to, p)
        invariant
            from <= a <= to <= v.len(),
            p.len() > 0,
            strip_prefixes(v@.subrange(from as int, to as int), p@) == strip_prefixes(
                v@.subrange(a as int, to as int),
                p@,
            ),
        decreases to - a,
    {
        assert(v@.subrange(a as int, to as int).skip(p.len() as int) =~= v@.subrange(
            a + p.len(),
            to as int,
        ));
        a = a + p.len();
    }
    a
}

/// Whether the text `s` contains `p`.
pub fn contains(s: &str, p: &str) -> (r: bool)
    ensures
        r == contains_str(s@, p@),
{
    let v = chars_of(s);
    let w = chars_of(p);
    assert(v@.subrange(0, v@.len() as int) =~= v@);
    find_str_in(&v, 0, v.len(), &w).is_some()
}


/// The first `c` of `s` is at `i` when `s[i]` is `c` and nothing before it is.
pub proof fn lemma_find_at(s: Seq<char>, c: char, i: int)
    requires
        0 <= i < s.len(),
        s[i] == c,
        forall|j: int| 0 <= j < i ==> s[j] != c,
    ensures
        find(s, c) == Some(i),
{
    assert(is_run_len(s, CharClass::IsNot(c), i));
    lemma_run_len(s, CharClass::IsNot(c));
}

/// A text with no `c` has no first `c`.
pub proof fn lemma_find_none(s: Seq<char>, c: char)
    requires
        forall|j: int| 0 <= j < s.len() ==> s[j] != c,
    ensures
        find(s, c) is None,
{
    assert(is_run_len(s, CharClass::IsNot(c), s.len() as int));
    lemma_run_len(s, CharClass::IsNot(c));
}

/// Trimming leaves a text alone that neither begins nor ends with whitespace.
pub proof fn lemma_trim_unchanged(s: Seq<char>)
    requires
        s.len() > 0,
        !is_ws(s[0]),
        !is_ws(s.last()),
    ensures
        trim(s) == s,
{
    assert(is_run_len(s, CharClass::Space, 0));
    lemma_run_len(s, CharClass::Space);
    assert(s.skip(0) =~= s);
    assert(is_tail_start(s, CharClass::Space, s.len() as int));
    lemma_tail_start(s, CharClass::Space);
    assert(s.take(s.len() as int) =~= s);
}

/// The leftmost `p` in `s` is at `i` when `p` stands there and nowhere before.
pub proof fn lemma_find_str_at(s: Seq<char>, p: Seq<char>, i: int)
    requires
        occurs_at(s, p, i),
        forall|j: int| 0 <= j < i ==> !#[trigger] occurs_at(s, p, j),
    ensures
        find_str(s, p) == Some(i),
{
    assert(is_first_occurrence(s, p, i));
    let k = choose|k: int| is_first_occurrence(s, p, k);
    if k < i {
        assert(!occurs_at(s, p, k));
    }
    if k > i {
        assert(!occurs_at(s, p, i));
    }
}


/// Whitespace at the front of a text starts no word.
pub proof fn lemma_words_skip_space(s: Seq<char>)
    requires
        s.len() > 0,
        is_ws(s[0]),
    ensures
        words(s) == words(s.drop_first()),
{
    let r = s.drop_first();
    lemma_run_len(r, CharClass::Space);
    let a = run_len(r, CharClass::Space);
    assert forall|j: int| 0 <= j < a + 1 implies CharClass::Space.has(#[trigger] s[j]) by {
        if j > 0 {
            assert(s[j] == r[j - 1]);
        }
    }
    if a + 1 < s.len() {
        assert(s[a + 1] == r[a]);
    }
    assert(is_run_len(s, CharClass::Space, a + 1));
    lemma_run_len(s, CharClass::Space);
    assert(s.skip(a + 1) =~= r.skip(a));
}

/// A word that the text ends with, or that whitespace follows, is the first
/// word of the text.
pub proof fn lemma_words_lead(w: Seq<char>, rest: Seq<char>)
    requires
        w.len() > 0,
        forall|i: int| 0 <= i < w.len() ==> !is_ws(#[trigger] w[i]),
        rest.len() == 0 || is_ws(rest[0]),
    ensures
        words(w + rest) == seq![w] + words(rest),
{
    let s = w + rest;
    assert(s[0] == w[0]);
    assert(is_run_len(s, CharClass::Space, 0));
    lemma_run_len(s, CharClass::Space);
    assert(s.skip(0) =~= s);
    assert forall|j: int| 0 <= j < w.len() implies CharClass::NonSpace.has(#[trigger] s[j]) by {
        assert(s[j] == w[j]);
    }
    if rest.len() > 0 {
        assert(s[w.len() as int] == rest[0]);
    }
    assert(is_run_len(s, CharClass::NonSpace, w.len() as int));
    lemma_run_len(s, CharClass::NonSpace);
    assert(s.take(w.len() as int) =~= w);
    assert(s.skip(w.len() as int) =~= rest);
}

/// A piece without `c` that `c` follows, or that the text ends with, is the
/// first piece of the text split at `c`.
pub proof fn lemma_split_char_lead(a: Seq<char>, c: char, rest: Seq<char>)
    requires
        forall|i: int| 0 <= i < a.len() ==> #[trigger] a[i] != c,
        rest.len() == 0 || rest[0] == c,
    ensures
        split_char(a + rest, c) == if rest.len() == 0 {
            seq![a]
        } else {
            seq![a] + split_char(rest.drop_first(), c)
        },
{
    let s = a + rest;
    assert forall|j: int| 0 <= j < a.len() implies s[j] != c by {
        assert(s[j] == a[j]);
    }
    if rest.len() == 0 {
        assert(s =~= a);
        lemma_find_none(s, c);
    } else {
        assert(s[a.len() as int] == c);
        lemma_find_at(s, c, a.len() as int);
        assert(s.take(a.len() as int) =~= a);
        assert(s.skip(a.len() as int + 1) =~= rest.drop_first());
    }
}


/// Trimming the characters of `k` leaves a text alone that neither begins
/// nor ends with one of them.
pub proof fn lemma_trim_class_unchanged(s: Seq<char>, k: CharClass)
    requires
        s.len() == 0 || (!k.has(s[0]) && !k.has(s.last())),
    ensures
        trim_class(s, k) == s,
{
    assert(is_run_len(s, k, 0));
    lemma_run_len(s, k);
    assert(s.skip(0) =~= s);
    assert(is_tail_start(s, k, s.len() as int));
    lemma_tail_start(s, k);
    assert(s.take(s.len() as int) =~= s);
}

/// A text without `\n` that a `\n` ends is one line, less a `\r` at its end.
pub proof fn lemma_lines_one(s: Seq<char>)
    requires
        forall|i: int| 0 <= i < s.len() ==> #[trigger] s[i] != '\n',
    ensures
        lines(s + seq!['\n']) == seq![strip_cr(s)],
{
    let t = s + seq!['\n'];
    assert forall|j: int| 0 <= j < s.len() implies t[j] != '\n' by {
        assert(t[j] == s[j]);
    }
    lemma_find_at(t, '\n', s.len() as int);
    assert(t.take(s.len() as int) =~= s);
    assert(t.skip(s.len() as int + 1) =~= Seq::<char>::empty());
    assert(lines(Seq::<char>::empty()) =~= Seq::<Seq<char>>::empty());
    assert(lines(t) =~= seq![strip_cr(s)] + Seq::<Seq<char>>::empty());
}


/// Two texts without `\n`, each ended by a `\n`, are two lines.
pub proof fn lemma_lines_two(a: Seq<char>, b: Seq<char>)
    requires
        forall|i: int| 0 <= i < a.len() ==> #[trigger] a[i] != '\n',
        forall|i: int| 0 <= i < b.len() ==> #[trigger] b[i] != '\n',
    ensures
        lines(a + seq!['\n'] + b + seq!['\n']) == seq![strip_cr(a), strip_cr(b)],
{
    let t = a + seq!['\n'] + b + seq!['\n'];
    assert forall|j: int| 0 <= j < a.len() implies t[j] != '\n' by {
        assert(t[j] == a[j]);
    }
    assert(t[a.len() as int] == '\n');
    lemma_find_at(t, '\n', a.len() as int);
    assert(t.take(a.len() as int) =~= a);
    assert(t.skip(a.len() as int + 1) =~= b + seq!['\n']);
    lemma_lines_one(b);
    assert(lines(t) =~= seq![strip_cr(a)] + seq![strip_cr(b)]);
}

} // verus!

//! Character-level operations on strings, stated over sequences of characters.

use vstd::prelude::*;

verus! {

/// Appends one character to a string.
///
/// Trusted: this is `String::push`, which appends the given character and
/// leaves the characters before it unchanged.
#[verifier::external_body]
pub(crate) fn push_char(s: &mut String, c: char)
    ensures
        final(s)@ == old(s)@.push(c),
{
    s.push(c)
}

/// The characters of a string, in order.
pub fn chars_of(s: &str) -> (v: Vec<char>)
    ensures
        v@ == s@,
{
    let mut v: Vec<char> = Vec::new();
    for c in it: s.chars()
        invariant
            v@ == s@.take(it.index() as int),
            it.seq() == s@,
    {
        v.push(c);
    }
    v
}

/// The string made of the given characters.
pub fn string_of(v: &[char]) -> (s: String)
    ensures
        s@ == v@,
{
    let mut s = String::new();
    let mut i: usize = 0;
    while i < v.len()
        invariant
            i <= v.len(),
            s@ == v@.take(i as int),
        decreases v.len() - i,
    {
        push_char(&mut s, v[i]);
        i += 1;
        assert(v@.take(i as int) == v@.take(i - 1).push(v@[i - 1]));
    }
    assert(v@.take(v.len() as int) == v@);
    s
}


/// Whether `c` is white space: the code points that carry the Unicode
/// property `White_Space`.
pub open spec fn is_whitespace(c: char) -> bool {
    let n = c as u32;
    (0x09 <= n <= 0x0D) || n == 0x20 || n == 0x85 || n == 0xA0 || n == 0x1680
        || (0x2000 <= n <= 0x200A) || n == 0x2028 || n == 0x2029 || n == 0x202F
        || n == 0x205F || n == 0x3000
}

/// A set of characters to strip from the ends of a string.
#[derive(Clone, Copy, Debug)]
pub enum CharSet {
    /// Every white-space character.
    Whitespace,
    /// One character.
    Only(char),
}

impl CharSet {
    /// Whether the set holds `c`.
    pub open spec fn has(self, c: char) -> bool {
        match self {
            CharSet::Whitespace => is_whitespace(c),
            CharSet::Only(d) => c == d,
        }
    }

    /// Whether the set holds `c`.
    pub fn contains(&self, c: char) -> (r: bool)
        ensures
            r == self.has(c),
    {
        match self {
            CharSet::Whitespace => {
                let n: u32 = c as u32;
                (0x09 <= n && n <= 0x0D) || n == 0x20 || n == 0x85 || n == 0xA0 || n == 0x1680
                    || (0x2000 <= n && n <= 0x200A) || n == 0x2028 || n == 0x2029 || n == 0x202F
                    || n == 0x205F || n == 0x3000
            },
            CharSet::Only(d) => c == *d,
        }
    }
}


/// `s` without its longest prefix of characters of `set`.
pub open spec fn strip_start(s: Seq<char>, set: CharSet) -> Seq<char>
    decreases s.len(),
{
    if s.len() > 0 && set.has(s[0]) {
        strip_start(s.drop_first(), set)
    } else {
        s
    }
}

/// `s` without its longest suffix of characters of `set`.
pub open spec fn strip_end(s: Seq<char>, set: CharSet) -> Seq<char>
    decreases s.len(),
{
    if s.len() > 0 && set.has(s.last()) {
        strip_end(s.drop_last(), set)
    } else {
        s
    }
}

/// `s` without the characters of `set` at either end.
pub open spec fn strip(s: Seq<char>, set: CharSet) -> Seq<char> {
    strip_end(strip_start(s, set), set)
}

/// The index of the first `c` in `s`, or the length of `s` where it holds none.
pub open spec fn first_index<T>(s: Seq<T>, c: T) -> int
    decreases s.len(),
{
    if s.len() == 0 || s[0] == c {
        0
    } else {
        1 + first_index(s.drop_first(), c)
    }
}

/// The parts of `s` before and after its first `c`, if it holds one.
pub open spec fn split_once(s: Seq<char>, c: char) -> Option<(Seq<char>, Seq<char>)> {
    let i = first_index(s, c);
    if i < s.len() {
        Some((s.take(i), s.skip(i + 1)))
    } else {
        None
    }
}

/// What `first_index` is: the least position that holds `c`.
pub proof fn lemma_first_index<T>(s: Seq<T>, c: T)
    ensures
        0 <= first_index(s, c) <= s.len(),
        first_index(s, c) < s.len() ==> s[first_index(s, c)] == c,
        forall|j: int| 0 <= j < first_index(s, c) ==> s[j] != c,
    decreases s.len(),
{
    if s.len() == 0 || s[0] == c {
    } else {
        let t = s.drop_first();
        lemma_first_index(t, c);
        assert forall|j: int| 0 <= j < first_index(s, c) implies s[j] != c by {
            if j > 0 {
                assert(s[j] == t[j - 1]);
            }
        }
    }
}

/// A position that holds `c` after none that does is the first index of `c`.
pub proof fn lemma_first_index_is<T>(s: Seq<T>, c: T, i: int)
    requires
        0 <= i <= s.len(),
        forall|j: int| 0 <= j < i ==> s[j] != c,
        i < s.len() ==> s[i] == c,
    ensures
        first_index(s, c) == i,
{
    lemma_first_index(s, c);
}

/// The lower-case form of an ASCII letter; any other character unchanged.
pub open spec fn ascii_lower(c: char) -> char {
    if 0x41 <= c as u32 <= 0x5A {
        ((c as u32 + 0x20) as u8) as char
    } else {
        c
    }
}

/// Whether `a` and `b` are equal once their ASCII letters are in lower case.
pub open spec fn eq_ignore_ascii_case(a: Seq<char>, b: Seq<char>) -> bool {
    a.len() == b.len() && forall|i: int| 0 <= i < a.len() ==> ascii_lower(a[i]) == ascii_lower(
        b[i],
    )
}

/// The character of a decimal digit.
pub open spec fn digit_char(d: nat) -> char {
    seq!['0', '1', '2', '3', '4', '5', '6', '7', '8', '9'][d as int]
}

/// The decimal numeral of `n`, without leading zeros.
pub open spec fn decimal(n: nat) -> Seq<char>
    decreases n,
{
    if n < 10 {
        seq![digit_char(n)]
    } else {
        decimal(n / 10).push(digit_char(n % 10))
    }
}

/// `s` with each occurrence of `pat` replaced by `to`, scanning from the left
/// and never looking again at what an occurrence covered. An empty `pat`
/// occurs nowhere.
pub open spec fn replace_all(s: Seq<char>, pat: Seq<char>, to: Seq<char>) -> Seq<char>
    decreases s.len(),
{
    if pat.len() == 0 || s.len() < pat.len() {
        s
    } else if pat.is_prefix_of(s) {
        to + replace_all(s.skip(pat.len() as int), pat, to)
    } else {
        seq![s[0]] + replace_all(s.skip(1), pat, to)
    }
}

/// A line without the carriage return that ends it, if it has one.
pub open spec fn without_carriage_return(line: Seq<char>) -> Seq<char> {
    if line.len() > 0 && line.last() == '\r' {
        line.drop_last()
    } else {
        line
    }
}

/// The lines of `s`. A line ends at a line feed, or at a carriage return
/// followed by one, or where `s` ends; the ending is no part of the line, and
/// nothing follows the last ending.
pub open spec fn lines(s: Seq<char>) -> Seq<Seq<char>>
    decreases s.len(),
{
    if s.len() == 0 {
        Seq::empty()
    } else {
        let i = first_index(s, '\n');
        if 0 <= i < s.len() {
            seq![without_carriage_return(s.take(i))] + lines(s.skip(i + 1))
        } else {
            seq![s]
        }
    }
}


/// Appends `src[from..to]` to `out`.
pub fn push_range(out: &mut Vec<char>, src: &[char], from: usize, to: usize)
    requires
        from <= to <= src.len(),
    ensures
        final(out)@ == old(out)@ + src@.subrange(from as int, to as int),
{
    let mut i: usize = from;
    while i < to
        invariant
            from <= i <= to <= src.len(),
            out@ == old(out)@ + src@.subrange(from as int, i as int),
        decreases to - i,
    {
        out.push(src[i]);
        i += 1;
        assert(src@.subrange(from as int, i as int) == src@.subrange(from as int, i - 1).push(
            src@[i - 1],
        ));
    }
}

/// The characters `src[from..to]` as a vector of their own.
pub fn copy_range(src: &[char], from: usize, to: usize) -> (out: Vec<char>)
    requires
        from <= to <= src.len(),
    ensures
        out@ == src@.subrange(from as int, to as int),
{
    let mut out: Vec<char> = Vec::new();
    push_range(&mut out, src, from, to);
    out
}

/// How many characters of `set` stand at the start of `v`.
pub fn leading(v: &[char], set: CharSet) -> (i: usize)
    ensures
        i <= v.len(),
        strip_start(v@, set) == v@.skip(i as int),
{
    let mut i: usize = 0;
    assert(v@.skip(0) == v@);
    while i < v.len() && set.contains(v[i])
        invariant
            i <= v.len(),
            strip_start(v@, set) == strip_start(v@.skip(i as int), set),
        decreases v.len() - i,
    {
        assert(v@.skip(i as int).drop_first() == v@.skip(i + 1));
        i += 1;
    }
    i
}

/// Where `v[from..]` ends once the characters of `set` at its end are left out.
pub fn trailing(v: &[char], from: usize, set: CharSet) -> (j: usize)
    requires
        from <= v.len(),
    ensures
        from <= j <= v.len(),
        strip_end(v@.skip(from as int), set) == v@.subrange(from as int, j as int),
{
    let mut j: usize = v.len();
    assert(v@.subrange(from as int, v.len() as int) == v@.skip(from as int));
    while j > from && set.contains(v[j - 1])
        invariant
            from <= j <= v.len(),
            strip_end(v@.skip(from as int), set) == strip_end(
                v@.subrange(from as int, j as int),
                set,
            ),
        decreases j,
    {
        assert(v@.subrange(from as int, j as int).drop_last() == v@.subrange(
            from as int,
            j - 1,
        ));
        j -= 1;
    }
    j
}

/// `s` without the characters of `set` at its start, where `at_start` is set,
/// and at its end.
fn strip_ends(s: &str, set: CharSet, at_start: bool) -> (r: String)
    ensures
        at_start ==> r@ == strip(s@, set),
        !at_start ==> r@ == strip_end(s@, set),
{
    let v = chars_of(s);
    let from: usize = if at_start {
        leading(v.as_slice(), set)
    } else {
        0
    };
    assert(v@.skip(0) == v@);
    let to = trailing(v.as_slice(), from, set);
    let out = copy_range(v.as_slice(), from, to);
    string_of(out.as_slice())
}

/// `s` without white space at either end.
pub fn trim(s: &str) -> (r: String)
    ensures
        r@ == strip(s@, CharSet::Whitespace),
{
    strip_ends(s, CharSet::Whitespace, true)
}

/// `s` without the character `c` at either end, however often it stands there.
pub fn trim_matches(s: &str, c: char) -> (r: String)
    ensures
        r@ == strip(s@, CharSet::Only(c)),
{
    strip_ends(s, CharSet::Only(c), true)
}

/// `s` without the character `c` at its end, however often it stands there.
pub fn trim_end_matches(s: &str, c: char) -> (r: String)
    ensures
        r@ == strip_end(s@, CharSet::Only(c)),
{
    strip_ends(s, CharSet::Only(c), false)
}

/// Whether `s` holds nothing but white space.
pub fn is_blank(s: &str) -> (r: bool)
    ensures
        r == (strip(s@, CharSet::Whitespace).len() == 0),
{
    let v = chars_of(s);
    let from = leading(v.as_slice(), CharSet::Whitespace);
    let to = trailing(v.as_slice(), from, CharSet::Whitespace);
    to == from
}

/// The position of the first `c` in `v[from..]`, counted from the start of
/// `v`; the length of `v` where there is none.
pub fn find_from(v: &[char], from: usize, c: char) -> (i: usize)
    requires
        from <= v.len(),
    ensures
        from <= i <= v.len(),
        i - from == first_index(v@.skip(from as int), c),
{
    let mut i: usize = from;
    while i < v.len() && v[i] != c
        invariant
            from <= i <= v.len(),
            forall|j: int| from <= j < i ==> v@[j] != c,
        decreases v.len() - i,
    {
        i += 1;
    }
    proof {
        lemma_first_index_is(v@.skip(from as int), c, i - from);
    }
    i
}

/// Whether `p` stands in `v` at position `at`.
pub fn has_at(v: &[char], at: usize, p: &[char]) -> (r: bool)
    requires
        at <= v.len(),
    ensures
        r == p@.is_prefix_of(v@.skip(at as int)),
{
    if p.len() > v.len() - at {
        return false;
    }
    let mut k: usize = 0;
    while k < p.len()
        invariant
            k <= p.len() <= v.len() - at,
            forall|j: int| 0 <= j < k ==> p@[j] == v@[at + j],
        decreases p.len() - k,
    {
        if p[k] != v[at + k] {
            assert(v@.skip(at as int)[k as int] == v@[at + k]);
            return false;
        }
        k += 1;
    }
    assert(p@ =~= v@.skip(at as int).subrange(0, p@.len() as int));
    true
}

/// Whether `s` starts with `prefix`.
pub fn starts_with(s: &str, prefix: &str) -> (r: bool)
    ensures
        r == prefix@.is_prefix_of(s@),
{
    let v = chars_of(s);
    let p = chars_of(prefix);
    assert(v@.skip(0) == v@);
    has_at(v.as_slice(), 0, p.as_slice())
}

/// Whether `s` ends with `suffix`.
pub fn ends_with(s: &str, suffix: &str) -> (r: bool)
    ensures
        r == (suffix@.len() <= s@.len() && s@.skip(s@.len() - suffix@.len()) == suffix@),
{
    let v = chars_of(s);
    let p = chars_of(suffix);
    if p.len() > v.len() {
        return false;
    }
    let at: usize = v.len() - p.len();
    let r = has_at(v.as_slice(), at, p.as_slice());
    assert(v@.skip(at as int).subrange(0, p@.len() as int) == v@.skip(at as int));
    r
}

/// `s` without `prefix` at its start, if it starts with it.
pub fn strip_prefix(s: &str, prefix: &str) -> (r: Option<String>)
    ensures
        prefix@.is_prefix_of(s@) ==> r is Some && r->0@ == s@.skip(prefix@.len() as int),
        !prefix@.is_prefix_of(s@) ==> r is None,
{
    let v = chars_of(s);
    let p = chars_of(prefix);
    assert(v@.skip(0) == v@);
    if has_at(v.as_slice(), 0, p.as_slice()) {
        let out = copy_range(v.as_slice(), p.len(), v.len());
        Some(string_of(out.as_slice()))
    } else {
        None
    }
}

/// The lower-case form of an ASCII letter; any other character unchanged.
pub fn to_ascii_lower(c: char) -> (r: char)
    ensures
        r == ascii_lower(c),
{
    let n: u32 = c as u32;
    if 0x41 <= n && n <= 0x5A {
        let m: u8 = (n + 0x20) as u8;
        m as char
    } else {
        c
    }
}

/// Whether `a` and `b` differ at most in the case of their ASCII letters.
pub fn equals_ignore_ascii_case(a: &str, b: &str) -> (r: bool)
    ensures
        r == eq_ignore_ascii_case(a@, b@),
{
    let x = chars_of(a);
    let y = chars_of(b);
    if x.len() != y.len() {
        return false;
    }
    let mut i: usize = 0;
    while i < x.len()
        invariant
            i <= x.len(),
            x.len() == y.len(),
            x@ == a@,
            y@ == b@,
            forall|j: int| 0 <= j < i ==> ascii_lower(x@[j]) == ascii_lower(y@[j]),
        decreases x.len() - i,
    {
        if to_ascii_lower(x[i]) != to_ascii_lower(y[i]) {
            assert(ascii_lower(a@[i as int]) != ascii_lower(b@[i as int]));
            return false;
        }
        i += 1;
    }
    true
}


/// Appends the decimal numeral of `n` to `out`.
pub fn push_decimal(out: &mut Vec<char>, n: u64)
    ensures
        final(out)@ == old(out)@ + decimal(n as nat),
    decreases n,
{
    if n >= 10 {
        push_decimal(out, n / 10);
    }
    let d: u8 = (n % 10) as u8;
    let c: char = (0x30 + d) as char;
    assert(c == digit_char((n % 10) as nat));
    out.push(c);
    assert(final(out)@ =~= old(out)@ + decimal(n as nat));
}

/// The decimal numeral of `n`.
pub fn decimal_string(n: u64) -> (r: String)
    ensures
        r@ == decimal(n as nat),
{
    let mut out: Vec<char> = Vec::new();
    push_decimal(&mut out, n);
    string_of(out.as_slice())
}

/// `v` with each occurrence of `pat` replaced by `to`.
pub fn replace_chars(v: &[char], pat: &[char], to: &[char]) -> (out: Vec<char>)
    ensures
        out@ == replace_all(v@, pat@, to@),
{
    let mut out: Vec<char> = Vec::new();
    let mut i: usize = 0;
    assert(v@.skip(0) == v@);
    while i < v.len()
        invariant
            i <= v.len(),
            replace_all(v@, pat@, to@) == out@ + replace_all(v@.skip(i as int), pat@, to@),
        decreases v.len() - i,
    {
        let ghost rest = v@.skip(i as int);
        let ghost before = out@;
        if pat.len() > 0 && has_at(v, i, pat) {
            push_range(&mut out, to, 0, to.len());
            assert(to@.subrange(0, to@.len() as int) == to@);
            assert(rest.skip(pat@.len() as int) == v@.skip(i + pat@.len()));
            i += pat.len();
            assert(replace_all(rest, pat@, to@) == to@ + replace_all(v@.skip(i as int), pat@, to@));
            assert(out@ + replace_all(v@.skip(i as int), pat@, to@) == before + replace_all(
                rest,
                pat@,
                to@,
            ));
        } else {
            out.push(v[i]);
            i += 1;
            proof {
                if pat@.len() == 0 || rest.len() < pat@.len() {
                    lemma_replace_all_short(rest, pat@, to@);
                }
                assert(rest.skip(1) == v@.skip(i as int));
            }
            assert(replace_all(rest, pat@, to@) == seq![rest[0]] + replace_all(
                v@.skip(i as int),
                pat@,
                to@,
            ));
            assert(out@ + replace_all(v@.skip(i as int), pat@, to@) == before + replace_all(
                rest,
                pat@,
                to@,
            ));
        }
    }
    assert(replace_all(v@.skip(v.len() as int), pat@, to@) == Seq::<char>::empty());
    out
}

/// Where `pat` cannot occur in `s`, nothing is replaced in any tail of `s`.
proof fn lemma_replace_all_short(s: Seq<char>, pat: Seq<char>, to: Seq<char>)
    requires
        s.len() > 0,
        pat.len() == 0 || s.len() < pat.len(),
    ensures
        replace_all(s, pat, to) == seq![s[0]] + replace_all(s.skip(1), pat, to),
{
    assert(replace_all(s, pat, to) == s);
    assert(replace_all(s.skip(1), pat, to) == s.skip(1));
    assert(s =~= seq![s[0]] + s.skip(1));
}

/// `s` with each occurrence of `pat` replaced by `to`.
pub fn replace(s: &str, pat: &str, to: &str) -> (r: String)
    ensures
        r@ == replace_all(s@, pat@, to@),
{
    let v = chars_of(s);
    let p = chars_of(pat);
    let t = chars_of(to);
    let out = replace_chars(v.as_slice(), p.as_slice(), t.as_slice());
    string_of(out.as_slice())
}

/// The character sequences that the vectors of `v` hold.
pub open spec fn rows(v: Seq<Vec<char>>) -> Seq<Seq<char>> {
    Seq::new(v.len(), |i: int| v[i]@)
}

/// The lines of `v`.
pub fn split_lines(v: &[char]) -> (out: Vec<Vec<char>>)
    ensures
        rows(out@) == lines(v@),
{
    let mut out: Vec<Vec<char>> = Vec::new();
    let mut i: usize = 0;
    assert(v@.skip(0) == v@);
    assert(rows(out@) =~= Seq::<Seq<char>>::empty());
    while i < v.len()
        invariant
            i <= v.len(),
            lines(v@) == rows(out@) + lines(v@.skip(i as int)),
        decreases v.len() - i,
    {
        let ghost rest = v@.skip(i as int);
        let ghost before = rows(out@);
        let j = find_from(v, i, '\n');
        if j < v.len() {
            let end: usize = if j > i && v[j - 1] == '\r' {
                (j - 1) as usize
            } else {
                j
            };
            let line = copy_range(v, i, end);
            assert(rest.take(j - i) == v@.subrange(i as int, j as int));
            assert(line@ == without_carriage_return(rest.take(j - i))) by {
                if j > i && v@[j - 1] == '\r' {
                    assert(v@.subrange(i as int, j as int).drop_last() == v@.subrange(
                        i as int,
                        j - 1,
                    ));
                }
            }
            out.push(line);
            assert(rest.skip(j - i + 1) == v@.skip(j + 1));
            i = j + 1;
            assert(rows(out@) =~= before.push(line@));
            assert(lines(rest) == seq![line@] + lines(v@.skip(i as int)));
            assert(rows(out@) + lines(v@.skip(i as int)) =~= before + lines(rest));
        } else {
            let line = copy_range(v, i, v.len());
            assert(v@.subrange(i as int, v.len() as int) == rest);
            out.push(line);
            i = v.len();
            assert(rows(out@) =~= before.push(rest));
            assert(lines(rest) == seq![rest]);
            assert(lines(v@.skip(i as int)) == Seq::<Seq<char>>::empty());
            assert(rows(out@) + lines(v@.skip(i as int)) =~= before + lines(rest));
        }
    }
    assert(lines(v@.skip(v.len() as int)) == Seq::<Seq<char>>::empty());
    assert(rows(out@) + Seq::<Seq<char>>::empty() =~= rows(out@));
    out
}

/// Appends the characters of `s` to `out`.
pub fn push_str(out: &mut Vec<char>, s: &str)
    ensures
        final(out)@ == old(out)@ + s@,
{
    let v = chars_of(s);
    push_range(out, v.as_slice(), 0, v.len());
    assert(v@.subrange(0, v@.len() as int) == v@);
}


/// Whether `a` and `b` hold the same characters.
pub fn text_eq(a: &str, b: &str) -> (r: bool)
    ensures
        r == (a@ == b@),
{
    let x = chars_of(a);
    let y = chars_of(b);
    if x.len() != y.len() {
        return false;
    }
    let mut i: usize = 0;
    while i < x.len()
        invariant
            i <= x.len(),
            x.len() == y.len(),
            x@ == a@,
            y@ == b@,
            forall|j: int| 0 <= j < i ==> x@[j] == y@[j],
        decreases x.len() - i,
    {
        if x[i] != y[i] {
            return false;
        }
        i += 1;
    }
    assert(x@ =~= y@);
    true
}

/// The strings `a` and `b`, one after the other.
pub fn join2(a: &str, b: &str) -> (r: String)
    ensures
        r@ == a@ + b@,
{
    let mut out: Vec<char> = Vec::new();
    push_str(&mut out, a);
    push_str(&mut out, b);
    assert(out@ =~= a@ + b@);
    string_of(out.as_slice())
}

/// The strings `a`, `b` and `c`, one after the other.
pub fn join3(a: &str, b: &str, c: &str) -> (r: String)
    ensures
        r@ == a@ + b@ + c@,
{
    let mut out: Vec<char> = Vec::new();
    push_str(&mut out, a);
    push_str(&mut out, b);
    push_str(&mut out, c);
    assert(out@ =~= a@ + b@ + c@);
    string_of(out.as_slice())
}

} // verus!

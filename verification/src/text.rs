//! Character-level text helpers shared by the library's formatting and parsing code.

use vstd::prelude::*;
use vstd::std_specs::iter::IteratorSpec;

verus! {

/// Converts a string slice into the vector of its characters.
pub(crate) fn to_chars(s: &str) -> (v: Vec<char>)
    ensures
        v@ == s@,
{
    broadcast use vstd::string::axiom_spec_iter, vstd::string::next_postcondition;

    let mut v: Vec<char> = Vec::new();
    let mut chars = s.chars();
    assert(chars.remaining() == s@);
    loop
        invariant
            v@ + chars.remaining() == s@,
            chars.decrease() is Some,
        ensures
            v@ == s@,
        decreases chars.decrease()->0,
    {
        let ghost before = chars.remaining();
        match chars.next() {
            Some(c) => {
                let ghost prev = v@;
                v.push(c);
                assert(v@ + chars.remaining() =~= prev + before);
            },
            None => {
                assert(v@ =~= s@);
                break;
            },
        }
    }
    v
}

/// Builds a `String` holding exactly the given characters.
#[verifier::external_body]
pub(crate) fn from_chars(v: &[char]) -> (s: String)
    ensures
        s@ == v@,
{
    v.iter().collect()
}

/// The pieces `items` joined with `sep` between each two.
pub open spec fn spec_join(items: Seq<Seq<char>>, sep: Seq<char>) -> Seq<char>
    decreases items.len(),
{
    if items.len() == 0 {
        Seq::empty()
    } else if items.len() == 1 {
        items[0]
    } else {
        spec_join(items.drop_last(), sep) + sep + items.last()
    }
}

/// The text of each string.
pub open spec fn texts(v: Seq<String>) -> Seq<Seq<char>> {
    v.map_values(|s: String| s@)
}

/// The strings joined with `sep` between each two.
pub fn join(items: &Vec<String>, sep: &str) -> (r: String)
    ensures
        r@ == spec_join(texts(items@), sep@),
{
    let mut r = String::new();
    let mut i: usize = 0;
    while i < items.len()
        invariant
            i <= items.len(),
            r@ == spec_join(texts(items@.subrange(0, i as int)), sep@),
        decreases items.len() - i,
    {
        let ghost prev = texts(items@.subrange(0, i as int));
        let ghost next = texts(items@.subrange(0, i + 1));
        assert(next.drop_last() =~= prev);
        assert(next.last() == items@[i as int]@);
        if i != 0 {
            r.append(sep);
        }
        r.append(items[i].as_str());
        i += 1;
    }
    assert(items@.subrange(0, i as int) =~= items@);
    r
}

/// Decimal text of a natural number, without leading zeros.
pub open spec fn spec_decimal(n: nat) -> Seq<char>
    decreases n,
{
    if n < 10 {
        seq![spec_digit(n)]
    } else {
        spec_decimal(n / 10) + seq![spec_digit(n % 10)]
    }
}

/// The character of a decimal digit.
pub open spec fn spec_digit(d: nat) -> char {
    if d == 0 { '0' } else if d == 1 { '1' } else if d == 2 { '2' } else if d == 3 { '3' }
    else if d == 4 { '4' } else if d == 5 { '5' } else if d == 6 { '6' } else if d == 7 { '7' }
    else if d == 8 { '8' } else { '9' }
}

/// The character of the decimal digit `d`.
fn digit_char(d: u64) -> (c: char)
    requires
        d < 10,
    ensures
        c == spec_digit(d as nat),
{
    if d == 0 { '0' } else if d == 1 { '1' } else if d == 2 { '2' } else if d == 3 { '3' }
    else if d == 4 { '4' } else if d == 5 { '5' } else if d == 6 { '6' } else if d == 7 { '7' }
    else if d == 8 { '8' } else { '9' }
}

/// Decimal text of `n`, as `u64`'s `ToString` writes it.
pub(crate) fn u64_to_string(n: u64) -> (s: String)
    ensures
        s@ == spec_decimal(n as nat),
{
    let mut out: Vec<char> = Vec::new();
    if n == 0 {
        out.push('0');
        assert(out@ =~= spec_decimal(0));
        return from_chars(out.as_slice());
    }
    let mut m: u64 = n;
    while m > 0
        invariant
            spec_decimal(n as nat) == (if m == 0 { Seq::<char>::empty() } else { spec_decimal(m as nat) }) + out@,
        decreases m,
    {
        let c = digit_char(m % 10);
        let ghost before = out@;
        out.insert(0, c);
        let ghost high: Seq<char> = if m / 10 == 0 { Seq::<char>::empty() } else { spec_decimal((m / 10) as nat) };
        assert(spec_decimal(m as nat) == high + seq![c]);
        assert(out@ =~= seq![c] + before);
        assert(high + seq![c] + before =~= high + out@);
        m = m / 10;
    }
    assert(Seq::<char>::empty() + out@ =~= out@);
    from_chars(out.as_slice())
}

/// The concatenation of two strings.
pub fn concat2(a: &str, b: &str) -> (r: String)
    ensures
        r@ == a@ + b@,
{
    let mut r = a.to_owned();
    r.append(b);
    r
}

/// The concatenation of three strings.
pub fn concat3(a: &str, b: &str, c: &str) -> (r: String)
    ensures
        r@ == a@ + b@ + c@,
{
    let mut r = a.to_owned();
    r.append(b);
    r.append(c);
    r
}

/// `true` when `s` begins with `prefix`.
pub open spec fn spec_starts_with(s: Seq<char>, prefix: Seq<char>) -> bool {
    prefix.len() <= s.len() && s.subrange(0, prefix.len() as int) == prefix
}

/// Does `s` start with `prefix`?
pub fn starts_with(s: &[char], prefix: &[char]) -> (r: bool)
    ensures
        r == spec_starts_with(s@, prefix@),
{
    if prefix.len() > s.len() {
        return false;
    }
    let mut i: usize = 0;
    while i < prefix.len()
        invariant
            prefix.len() <= s.len(),
            i <= prefix.len(),
            forall|j: int| 0 <= j < i ==> s@[j] == prefix@[j],
        decreases prefix.len() - i,
    {
        if s[i] != prefix[i] {
            assert(s@.subrange(0, prefix@.len() as int)[i as int] != prefix@[i as int]);
            return false;
        }
        i += 1;
    }
    assert(s@.subrange(0, prefix@.len() as int) =~= prefix@);
    true
}

/// Are the two character sequences equal?
pub fn chars_eq(a: &[char], b: &[char]) -> (r: bool)
    ensures
        r == (a@ == b@),
{
    if a.len() != b.len() {
        return false;
    }
    let r = starts_with(a, b);
    assert(a@ =~= a@.subrange(0, b@.len() as int));
    r
}

/// Are the two strings equal?
pub fn str_eq(a: &str, b: &str) -> (r: bool)
    ensures
        r == (a@ == b@),
{
    let av = to_chars(a);
    let bv = to_chars(b);
    chars_eq(av.as_slice(), bv.as_slice())
}


/// The characters of `s` from `a` to `b`.
pub fn sub_chars(s: &[char], a: usize, b: usize) -> (r: Vec<char>)
    requires
        a <= b <= s@.len(),
    ensures
        r@ == s@.subrange(a as int, b as int),
{
    let mut r: Vec<char> = Vec::new();
    let mut i: usize = a;
    while i < b
        invariant
            a <= i <= b <= s@.len(),
            r@ == s@.subrange(a as int, i as int),
        decreases b - i,
    {
        r.push(s[i]);
        i += 1;
        assert(r@ =~= s@.subrange(a as int, i as int));
    }
    r
}

/// Has `c` the Unicode `White_Space` property, the one `char::is_whitespace` tests?
pub open spec fn spec_is_whitespace(c: char) -> bool {
    let u = c as u32;
    (9 <= u && u <= 13) || u == 32 || u == 0x85 || u == 0xa0 || u == 0x1680
        || (0x2000 <= u && u <= 0x200a) || u == 0x2028 || u == 0x2029 || u == 0x202f
        || u == 0x205f || u == 0x3000
}

/// Is `c` white space?
pub fn is_whitespace(c: char) -> (b: bool)
    ensures
        b == spec_is_whitespace(c),
{
    let u = c as u32;
    (9 <= u && u <= 13) || u == 32 || u == 0x85 || u == 0xa0 || u == 0x1680
        || (0x2000 <= u && u <= 0x200a) || u == 0x2028 || u == 0x2029 || u == 0x202f
        || u == 0x205f || u == 0x3000
}

/// `s` without its leading white space.
pub open spec fn spec_trim_start(s: Seq<char>) -> Seq<char>
    decreases s.len(),
{
    if s.len() > 0 && spec_is_whitespace(s[0]) {
        spec_trim_start(s.drop_first())
    } else {
        s
    }
}

/// `s` without its trailing white space.
pub open spec fn spec_trim_end(s: Seq<char>) -> Seq<char>
    decreases s.len(),
{
    if s.len() > 0 && spec_is_whitespace(s.last()) {
        spec_trim_end(s.drop_last())
    } else {
        s
    }
}

/// `s` without leading and trailing white space (`str::trim`).
pub open spec fn spec_trim(s: Seq<char>) -> Seq<char> {
    spec_trim_end(spec_trim_start(s))
}

/// `s` without the leading and trailing characters equal to `c` (`str::trim_matches`).
pub open spec fn spec_trim_char(s: Seq<char>, c: char) -> Seq<char> {
    spec_trim_char_end(spec_trim_char_start(s, c), c)
}

/// `s` without its leading characters equal to `c`.
pub open spec fn spec_trim_char_start(s: Seq<char>, c: char) -> Seq<char>
    decreases s.len(),
{
    if s.len() > 0 && s[0] == c {
        spec_trim_char_start(s.drop_first(), c)
    } else {
        s
    }
}

/// `s` without its trailing characters equal to `c` (`str::trim_end_matches`).
pub open spec fn spec_trim_char_end(s: Seq<char>, c: char) -> Seq<char>
    decreases s.len(),
{
    if s.len() > 0 && s.last() == c {
        spec_trim_char_end(s.drop_last(), c)
    } else {
        s
    }
}

/// The characters of `s` without leading and trailing white space.
pub fn trim_chars(s: &[char]) -> (r: Vec<char>)
    ensures
        r@ == spec_trim(s@),
{
    let n = s.len();
    let mut a: usize = 0;
    assert(s@.skip(0) =~= s@);
    while a < n && is_whitespace(s[a])
        invariant
            a <= n == s@.len(),
            spec_trim_start(s@) == spec_trim_start(s@.skip(a as int)),
        decreases n - a,
    {
        assert(s@.skip(a as int).drop_first() =~= s@.skip(a + 1));
        a += 1;
    }
    assert(spec_trim_start(s@.skip(a as int)) == s@.skip(a as int));
    assert(s@.skip(a as int) =~= s@.subrange(a as int, n as int));
    let mut b: usize = n;
    while b > a && is_whitespace(s[b - 1])
        invariant
            a <= b <= n == s@.len(),
            spec_trim(s@) == spec_trim_end(s@.subrange(a as int, b as int)),
        decreases b - a,
    {
        assert(s@.subrange(a as int, b as int).drop_last() =~= s@.subrange(a as int, b - 1));
        b -= 1;
    }
    sub_chars(s, a, b)
}

/// The characters of `s` without leading and trailing `c`.
pub fn trim_char(s: &[char], c: char) -> (r: Vec<char>)
    ensures
        r@ == spec_trim_char(s@, c),
{
    let n = s.len();
    let mut a: usize = 0;
    assert(s@.skip(0) =~= s@);
    while a < n && s[a] == c
        invariant
            a <= n == s@.len(),
            spec_trim_char_start(s@, c) == spec_trim_char_start(s@.skip(a as int), c),
        decreases n - a,
    {
        assert(s@.skip(a as int).drop_first() =~= s@.skip(a + 1));
        a += 1;
    }
    assert(spec_trim_char_start(s@.skip(a as int), c) == s@.skip(a as int));
    assert(s@.skip(a as int) =~= s@.subrange(a as int, n as int));
    let mut b: usize = n;
    while b > a && s[b - 1] == c
        invariant
            a <= b <= n == s@.len(),
            spec_trim_char(s@, c) == spec_trim_char_end(s@.subrange(a as int, b as int), c),
        decreases b - a,
    {
        assert(s@.subrange(a as int, b as int).drop_last() =~= s@.subrange(a as int, b - 1));
        b -= 1;
    }
    sub_chars(s, a, b)
}

/// The characters of `s` without trailing `c`.
pub fn trim_char_end(s: &[char], c: char) -> (r: Vec<char>)
    ensures
        r@ == spec_trim_char_end(s@, c),
{
    let mut b: usize = s.len();
    assert(s@.subrange(0, b as int) =~= s@);
    while b > 0 && s[b - 1] == c
        invariant
            b <= s@.len(),
            spec_trim_char_end(s@, c) == spec_trim_char_end(s@.subrange(0, b as int), c),
        decreases b,
    {
        assert(s@.subrange(0, b as int).drop_last() =~= s@.subrange(0, b - 1));
        b -= 1;
    }
    assert(s@ =~= s@.subrange(0, s@.len() as int));
    sub_chars(s, 0, b)
}

/// The string `s` without leading and trailing white space.
pub fn trim_str(s: &str) -> (r: String)
    ensures
        r@ == spec_trim(s@),
{
    let v = to_chars(s);
    let t = trim_chars(v.as_slice());
    from_chars(t.as_slice())
}

/// Does `p` occur in `s` at position `i`?
pub open spec fn spec_matches_at(s: Seq<char>, p: Seq<char>, i: int) -> bool {
    0 <= i && i + p.len() <= s.len() && s.subrange(i, i + p.len()) == p
}

/// The first position at or after `i` where `p` occurs in `s`.
pub open spec fn spec_find_from(s: Seq<char>, p: Seq<char>, i: int) -> Option<int>
    decreases s.len() + 1 - i,
{
    if i < 0 || i + p.len() > s.len() {
        None
    } else if spec_matches_at(s, p, i) {
        Some(i)
    } else {
        spec_find_from(s, p, i + 1)
    }
}

/// The first position where `p` occurs in `s` (`str::find`).
pub open spec fn spec_find(s: Seq<char>, p: Seq<char>) -> Option<int> {
    spec_find_from(s, p, 0)
}

/// What a search from `i` finds: the first occurrence at or after `i`.
pub proof fn lemma_find_from(s: Seq<char>, p: Seq<char>, i: int)
    requires
        0 <= i,
    ensures
        match spec_find_from(s, p, i) {
            Some(k) => i <= k && spec_matches_at(s, p, k) && forall|j: int|
                i <= j < k ==> !spec_matches_at(s, p, j),
            None => forall|j: int| i <= j ==> !spec_matches_at(s, p, j),
        },
    decreases s.len() + 1 - i,
{
    if i + p.len() <= s.len() && !spec_matches_at(s, p, i) {
        lemma_find_from(s, p, i + 1);
    }
}

/// Does `p` occur in `s` at position `i`?
pub fn matches_at(s: &[char], p: &[char], i: usize) -> (b: bool)
    ensures
        b == spec_matches_at(s@, p@, i as int),
{
    if i > s.len() || p.len() > s.len() - i {
        return false;
    }
    let mut j: usize = 0;
    while j < p.len()
        invariant
            i + p.len() <= s.len(),
            i + p@.len() <= s@.len(),
            j <= p@.len(),
            forall|k: int| 0 <= k < j ==> s@[i + k] == p@[k],
        decreases p.len() - j,
    {
        if s[i + j] != p[j] {
            assert(s@.subrange(i as int, i + p@.len())[j as int] != p@[j as int]);
            return false;
        }
        j += 1;
    }
    assert(s@.subrange(i as int, i + p@.len()) =~= p@);
    true
}

/// The first position at or after `from` where `p` occurs in `s`.
pub fn find_from(s: &[char], p: &[char], from: usize) -> (r: Option<usize>)
    ensures
        match r {
            Some(k) => spec_find_from(s@, p@, from as int) == Some(k as int),
            None => spec_find_from(s@, p@, from as int) is None,
        },
{
    let mut i: usize = from;
    while i < s.len() && p.len() <= s.len() - i
        invariant
            from <= i,
            spec_find_from(s@, p@, from as int) == spec_find_from(s@, p@, i as int),
        decreases s.len() - i,
    {
        if matches_at(s, p, i) {
            return Some(i);
        }
        i += 1;
    }
    if i <= s.len() && p.len() <= s.len() - i && matches_at(s, p, i) {
        return Some(i);
    }
    assert(spec_find_from(s@, p@, i + 1) is None);
    None
}

/// The first position where `p` occurs in `s`.
pub fn find_chars(s: &[char], p: &[char]) -> (r: Option<usize>)
    ensures
        match r {
            Some(k) => spec_find(s@, p@) == Some(k as int),
            None => spec_find(s@, p@) is None,
        },
{
    find_from(s, p, 0)
}

/// Does `p` occur in `s`?
pub open spec fn spec_contains(s: Seq<char>, p: Seq<char>) -> bool {
    spec_find(s, p) is Some
}

/// Does the string `p` occur in the string `s` (`str::contains`)?
pub fn contains_str(s: &str, p: &str) -> (b: bool)
    ensures
        b == spec_contains(s@, p@),
{
    let sv = to_chars(s);
    let pv = to_chars(p);
    find_chars(sv.as_slice(), pv.as_slice()).is_some()
}

/// The last position of `c` in `s` (`str::rfind` with a character).
pub open spec fn spec_rfind_char(s: Seq<char>, c: char) -> Option<int>
    decreases s.len(),
{
    if s.len() == 0 {
        None
    } else if s.last() == c {
        Some(s.len() - 1)
    } else {
        spec_rfind_char(s.drop_last(), c)
    }
}

/// The first position of `c` in `s`.
pub open spec fn spec_char_pos(s: Seq<char>, c: char) -> Option<int>
    decreases s.len(),
{
    if s.len() == 0 {
        None
    } else if s[0] == c {
        Some(0)
    } else {
        match spec_char_pos(s.drop_first(), c) {
            Some(k) => Some(k + 1),
            None => None,
        }
    }
}

/// The first position of `c` is the position before which `c` does not occur.
pub proof fn lemma_char_pos(s: Seq<char>, c: char)
    ensures
        match spec_char_pos(s, c) {
            Some(k) => 0 <= k < s.len() && s[k] == c && forall|j: int| 0 <= j < k ==> s[j] != c,
            None => forall|j: int| 0 <= j < s.len() ==> s[j] != c,
        },
    decreases s.len(),
{
    if s.len() > 0 && s[0] != c {
        lemma_char_pos(s.drop_first(), c);
        assert forall|j: int| 1 <= j < s.len() implies s[j] == s.drop_first()[j - 1] by {}
    }
}

/// A position with `c` and no `c` before it is the first position of `c`.
pub proof fn lemma_char_pos_at(s: Seq<char>, c: char, k: int)
    requires
        0 <= k < s.len(),
        s[k] == c,
        forall|j: int| 0 <= j < k ==> s[j] != c,
    ensures
        spec_char_pos(s, c) == Some(k),
{
    lemma_char_pos(s, c);
}

/// Without `c` in `s`, there is no first position of `c`.
pub proof fn lemma_char_pos_none(s: Seq<char>, c: char)
    requires
        forall|j: int| 0 <= j < s.len() ==> s[j] != c,
    ensures
        spec_char_pos(s, c) is None,
{
    lemma_char_pos(s, c);
}

/// The first position of `c` in `s` at or after `from`, as a position of `s`.
pub fn char_pos_from(s: &[char], c: char, from: usize) -> (r: Option<usize>)
    requires
        from <= s@.len(),
    ensures
        match r {
            Some(k) => from <= k && spec_char_pos(s@.skip(from as int), c) == Some(k - from),
            None => spec_char_pos(s@.skip(from as int), c) is None,
        },
{
    let mut i: usize = from;
    while i < s.len()
        invariant
            from <= i <= s@.len(),
            forall|j: int| from <= j < i ==> s@[j] != c,
        decreases s.len() - i,
    {
        if s[i] == c {
            proof {
                lemma_char_pos_at(s@.skip(from as int), c, i - from);
            }
            return Some(i);
        }
        i += 1;
    }
    proof {
        lemma_char_pos_none(s@.skip(from as int), c);
    }
    None
}

/// The last position of `c` in `s`.
pub fn rfind_char(s: &[char], c: char) -> (r: Option<usize>)
    ensures
        match r {
            Some(k) => spec_rfind_char(s@, c) == Some(k as int),
            None => spec_rfind_char(s@, c) is None,
        },
{
    let mut b: usize = s.len();
    assert(s@.subrange(0, b as int) =~= s@);
    while b > 0
        invariant
            b <= s@.len(),
            spec_rfind_char(s@, c) == spec_rfind_char(s@.subrange(0, b as int), c),
        decreases b,
    {
        if s[b - 1] == c {
            return Some(b - 1);
        }
        assert(s@.subrange(0, b as int).drop_last() =~= s@.subrange(0, b - 1));
        b -= 1;
    }
    None
}

/// `line` without a final carriage return.
pub open spec fn spec_strip_cr(line: Seq<char>) -> Seq<char> {
    if line.len() > 0 && line.last() == '\r' {
        line.drop_last()
    } else {
        line
    }
}

/// The lines of `s` as `str::lines` yields them: split at `\n`, a `\r` before the `\n`
/// dropped, and no empty line after a final `\n`.
pub open spec fn spec_lines(s: Seq<char>) -> Seq<Seq<char>>
    decreases s.len(),
{
    if s.len() == 0 {
        Seq::empty()
    } else {
        match spec_char_pos(s, '\n') {
            Some(k) => {
                if 0 <= k < s.len() {
                    seq![spec_strip_cr(s.subrange(0, k))] + spec_lines(s.skip(k + 1))
                } else {
                    Seq::empty()
                }
            },
            None => seq![s],
        }
    }
}

/// The lines of `s`.
pub fn lines_of(s: &[char]) -> (r: Vec<String>)
    ensures
        texts(r@) == spec_lines(s@),
{
    let mut out: Vec<String> = Vec::new();
    let mut start: usize = 0;
    assert(s@.skip(0) =~= s@);
    assert(texts(out@) =~= Seq::<Seq<char>>::empty());
    while start < s.len()
        invariant
            start <= s@.len(),
            texts(out@) + spec_lines(s@.skip(start as int)) == spec_lines(s@),
        decreases s.len() - start,
    {
        let ghost rest = s@.skip(start as int);
        proof {
            lemma_char_pos(rest, '\n');
        }
        match char_pos_from(s, '\n', start) {
            Some(k) => {
                let mut line = sub_chars(s, start, k);
                if line.len() > 0 && line[line.len() - 1] == '\r' {
                    line.pop();
                }
                assert(line@ == spec_strip_cr(rest.subrange(0, k - start))) by {
                    assert(rest.subrange(0, k - start) =~= s@.subrange(start as int, k as int));
                }
                assert(rest.skip(k - start + 1) =~= s@.skip(k + 1));
                let ghost before = out@;
                out.push(from_chars(line.as_slice()));
                assert(texts(out@) =~= texts(before).push(line@));
                assert(texts(out@) + spec_lines(s@.skip(k + 1)) =~= texts(before) + spec_lines(rest));
                start = k + 1;
            },
            None => {
                let line = sub_chars(s, start, s.len());
                assert(line@ =~= rest);
                let ghost before = out@;
                out.push(from_chars(line.as_slice()));
                assert(texts(out@) =~= texts(before).push(line@));
                assert(spec_lines(rest) == seq![rest]);
                assert(texts(out@) =~= texts(before) + spec_lines(rest));
                start = s.len();
                assert(s@.skip(start as int) =~= Seq::<char>::empty());
                assert(texts(out@) + spec_lines(s@.skip(start as int)) =~= texts(out@));
            },
        }
    }
    assert(s@.skip(start as int) =~= Seq::<char>::empty());
    assert(texts(out@) + spec_lines(s@.skip(start as int)) =~= texts(out@));
    out
}

/// The pieces of `s` between occurrences of `c` (`str::split` with a character).
pub open spec fn spec_split_char(s: Seq<char>, c: char) -> Seq<Seq<char>>
    decreases s.len(),
{
    match spec_char_pos(s, c) {
        Some(k) => {
            if 0 <= k < s.len() {
                seq![s.subrange(0, k)] + spec_split_char(s.skip(k + 1), c)
            } else {
                seq![s]
            }
        },
        None => seq![s],
    }
}

/// The pieces of `s` between occurrences of `c`.
pub fn split_char(s: &[char], c: char) -> (r: Vec<String>)
    ensures
        texts(r@) == spec_split_char(s@, c),
{
    let mut out: Vec<String> = Vec::new();
    let mut start: usize = 0;
    assert(s@.skip(0) =~= s@);
    assert(texts(out@) =~= Seq::<Seq<char>>::empty());
    loop
        invariant
            start <= s@.len(),
            texts(out@) + spec_split_char(s@.skip(start as int), c) == spec_split_char(s@, c),
        decreases s.len() - start,
    {
        let ghost rest = s@.skip(start as int);
        proof {
            lemma_char_pos(rest, c);
        }
        match char_pos_from(s, c, start) {
            Some(k) => {
                let piece = sub_chars(s, start, k);
                assert(piece@ =~= rest.subrange(0, k - start));
                assert(rest.skip(k - start + 1) =~= s@.skip(k + 1));
                let ghost before = out@;
                out.push(from_chars(piece.as_slice()));
                assert(texts(out@) =~= texts(before).push(piece@));
                assert(texts(out@) + spec_split_char(s@.skip(k + 1), c) =~= texts(before)
                    + spec_split_char(rest, c));
                start = k + 1;
            },
            None => {
                let piece = sub_chars(s, start, s.len());
                assert(piece@ =~= rest);
                let ghost before = out@;
                out.push(from_chars(piece.as_slice()));
                assert(texts(out@) =~= texts(before).push(piece@));
                assert(texts(out@) =~= texts(before) + spec_split_char(rest, c));
                return out;
            },
        }
    }
}

/// `s` with each occurrence of `p`, taken from left to right without overlap,
/// replaced by `r` (`str::replace` for a non-empty pattern).
pub open spec fn spec_replace(s: Seq<char>, p: Seq<char>, r: Seq<char>) -> Seq<char>
    decreases s.len(),
{
    if p.len() == 0 || s.len() == 0 {
        s
    } else if spec_matches_at(s, p, 0) {
        r + spec_replace(s.skip(p.len() as int), p, r)
    } else {
        seq![s[0]] + spec_replace(s.drop_first(), p, r)
    }
}

/// `s` with each occurrence of `p` replaced by `r`.
pub fn replace_chars(s: &[char], p: &[char], r: &[char]) -> (out: Vec<char>)
    requires
        p@.len() > 0,
    ensures
        out@ == spec_replace(s@, p@, r@),
{
    let mut out: Vec<char> = Vec::new();
    let mut i: usize = 0;
    assert(s@.skip(0) =~= s@);
    while i < s.len()
        invariant
            i <= s@.len(),
            p@.len() > 0,
            out@ + spec_replace(s@.skip(i as int), p@, r@) == spec_replace(s@, p@, r@),
        decreases s.len() - i,
    {
        let ghost rest = s@.skip(i as int);
        let ghost before = out@;
        if matches_at(s, p, i) {
            assert(spec_matches_at(rest, p@, 0)) by {
                assert(rest.subrange(0, p@.len() as int) =~= s@.subrange(i as int, i + p@.len()));
            }
            assert(rest.skip(p@.len() as int) =~= s@.skip(i + p@.len()));
            let mut k: usize = 0;
            while k < r.len()
                invariant
                    k <= r@.len(),
                    out@ == before + r@.subrange(0, k as int),
                decreases r.len() - k,
            {
                out.push(r[k]);
                k += 1;
                assert(out@ =~= before + r@.subrange(0, k as int));
            }
            assert(r@.subrange(0, r@.len() as int) =~= r@);
            assert(out@ + spec_replace(s@.skip(i + p@.len()), p@, r@) =~= before + spec_replace(rest, p@, r@));
            i = i + p.len();
        } else {
            assert(!spec_matches_at(rest, p@, 0)) by {
                if spec_matches_at(rest, p@, 0) {
                    assert(rest.subrange(0, p@.len() as int) =~= s@.subrange(i as int, i + p@.len()));
                }
            }
            assert(rest.drop_first() =~= s@.skip(i + 1));
            assert(rest[0] == s@[i as int]);
            out.push(s[i]);
            assert(out@ + spec_replace(s@.skip(i + 1), p@, r@) =~= before + spec_replace(rest, p@, r@));
            i += 1;
        }
    }
    assert(s@.skip(i as int) =~= Seq::<char>::empty());
    assert(out@ + spec_replace(s@.skip(i as int), p@, r@) =~= out@);
    out
}

/// The last position of `c` lies in `s` and holds `c`.
pub proof fn lemma_rfind_char(s: Seq<char>, c: char)
    ensures
        match spec_rfind_char(s, c) {
            Some(k) => 0 <= k < s.len() && s[k] == c,
            None => forall|j: int| 0 <= j < s.len() ==> s[j] != c,
        },
    decreases s.len(),
{
    if s.len() > 0 && s.last() != c {
        lemma_rfind_char(s.drop_last(), c);
        assert forall|j: int| 0 <= j < s.len() - 1 implies s[j] == s.drop_last()[j] by {}
    }
}

} // verus!

//! Character-level helpers: the text operations the rest of the library is
//! specified and implemented with.
use vstd::prelude::*;

verus! {

// ---------------------------------------------------------------------------
// Specifications
// ---------------------------------------------------------------------------

/// Unicode `White_Space` characters, the ones `str::trim` removes.
pub open spec fn is_ws(c: char) -> bool {
    let u = c as u32;
    ||| 0x9 <= u <= 0xd
    ||| u == 0x20
    ||| u == 0x85
    ||| u == 0xa0
    ||| u == 0x1680
    ||| 0x2000 <= u <= 0x200a
    ||| u == 0x2028
    ||| u == 0x2029
    ||| u == 0x202f
    ||| u == 0x205f
    ||| u == 0x3000
}

/// `s` without its leading whitespace.
pub open spec fn trim_start_seq(s: Seq<char>) -> Seq<char>
    decreases s.len(),
{
    if s.len() > 0 && is_ws(s[0]) {
        trim_start_seq(s.drop_first())
    } else {
        s
    }
}

/// `s` without its trailing whitespace.
pub open spec fn trim_end_seq(s: Seq<char>) -> Seq<char>
    decreases s.len(),
{
    if s.len() > 0 && is_ws(s.last()) {
        trim_end_seq(s.drop_last())
    } else {
        s
    }
}

/// `s` without leading and trailing whitespace.
pub open spec fn trim_seq(s: Seq<char>) -> Seq<char> {
    trim_end_seq(trim_start_seq(s))
}

pub open spec fn is_upper_ascii(c: char) -> bool {
    'A' <= c <= 'Z'
}

pub open spec fn is_lower_ascii(c: char) -> bool {
    'a' <= c <= 'z'
}

pub open spec fn is_digit_ascii(c: char) -> bool {
    '0' <= c <= '9'
}

pub open spec fn is_alnum_ascii(c: char) -> bool {
    is_upper_ascii(c) || is_lower_ascii(c) || is_digit_ascii(c)
}

pub open spec fn is_hex_ascii(c: char) -> bool {
    is_digit_ascii(c) || ('a' <= c <= 'f') || ('A' <= c <= 'F')
}

/// ASCII lower-casing of one character; other characters are kept.
pub open spec fn lower_char(c: char) -> char {
    if is_upper_ascii(c) {
        ((c as u32) + 32) as char
    } else {
        c
    }
}

/// ASCII upper-casing of one character; other characters are kept.
pub open spec fn upper_char(c: char) -> char {
    if is_lower_ascii(c) {
        ((c as u32) - 32) as char
    } else {
        c
    }
}

pub open spec fn lower_seq(s: Seq<char>) -> Seq<char> {
    s.map_values(|c: char| lower_char(c))
}

pub open spec fn upper_seq(s: Seq<char>) -> Seq<char> {
    s.map_values(|c: char| upper_char(c))
}

pub open spec fn starts_with(s: Seq<char>, p: Seq<char>) -> bool {
    p.len() <= s.len() && s.subrange(0, p.len() as int) == p
}

pub open spec fn ends_with(s: Seq<char>, p: Seq<char>) -> bool {
    p.len() <= s.len() && s.subrange(s.len() - p.len(), s.len() as int) == p
}

/// `p` occurs in `s` starting at position `i`.
pub open spec fn occurs_at(s: Seq<char>, p: Seq<char>, i: int) -> bool {
    0 <= i && i + p.len() <= s.len() && s.subrange(i, i + p.len()) == p
}

pub open spec fn contains_seq(s: Seq<char>, p: Seq<char>) -> bool {
    exists|i: int| occurs_at(s, p, i)
}

/// The first `n` characters of `s` (all of them when it is shorter).
pub open spec fn take_seq(s: Seq<char>, n: nat) -> Seq<char> {
    if n < s.len() {
        s.take(n as int)
    } else {
        s
    }
}

/// The pieces of `s` between occurrences of `sep`, like `str::split` with a
/// character pattern: always at least one piece.
pub open spec fn split_seq(s: Seq<char>, sep: char) -> Seq<Seq<char>>
    decreases s.len(),
{
    if s.len() == 0 {
        seq![Seq::<char>::empty()]
    } else {
        let r = split_seq(s.drop_last(), sep);
        if s.last() == sep {
            r.push(Seq::<char>::empty())
        } else {
            r.update(r.len() - 1, r.last().push(s.last()))
        }
    }
}

/// The pieces joined with `sep` between consecutive ones.
pub open spec fn join_seq(parts: Seq<Seq<char>>, sep: Seq<char>) -> Seq<char>
    decreases parts.len(),
{
    if parts.len() == 0 {
        Seq::<char>::empty()
    } else if parts.len() == 1 {
        parts[0]
    } else {
        join_seq(parts.drop_last(), sep) + sep + parts.last()
    }
}

pub open spec fn digit_char(d: nat) -> char
    recommends
        d < 10,
{
    ((d + 48) as u32) as char
}

/// Decimal digits of a natural number, without leading zeros.
pub open spec fn nat_digits(n: nat) -> Seq<char>
    decreases n,
{
    if n < 10 {
        seq![digit_char(n)]
    } else {
        nat_digits(n / 10).push(digit_char(n % 10))
    }
}

/// Decimal rendering of an integer, as `Display` writes it.
pub open spec fn int_text(n: int) -> Seq<char> {
    if n < 0 {
        seq!['-'] + nat_digits((-n) as nat)
    } else {
        nat_digits(n as nat)
    }
}

// ---------------------------------------------------------------------------
// Lemmas
// ---------------------------------------------------------------------------

proof fn lemma_trim_start_skip(s: Seq<char>, i: int)
    requires
        0 <= i <= s.len(),
        forall|k: int| 0 <= k < i ==> is_ws(#[trigger] s[k]),
        i == s.len() || !is_ws(s[i]),
    ensures
        trim_start_seq(s) == s.subrange(i, s.len() as int),
    decreases i,
{
    if i == 0 {
        assert(s.subrange(0, s.len() as int) =~= s);
    } else {
        let t = s.drop_first();
        assert forall|k: int| 0 <= k < i - 1 implies is_ws(#[trigger] t[k]) by {
            assert(t[k] == s[k + 1]);
        }
        lemma_trim_start_skip(t, i - 1);
        assert(t.subrange(i - 1, t.len() as int) =~= s.subrange(i, s.len() as int));
    }
}

proof fn lemma_trim_end_take(s: Seq<char>, j: int)
    requires
        0 <= j <= s.len(),
        forall|k: int| j <= k < s.len() ==> is_ws(#[trigger] s[k]),
        j == 0 || !is_ws(s[j - 1]),
    ensures
        trim_end_seq(s) == s.subrange(0, j),
    decreases s.len() - j,
{
    if j == s.len() {
        assert(s.subrange(0, j) =~= s);
    } else {
        let t = s.drop_last();
        assert forall|k: int| j <= k < t.len() implies is_ws(#[trigger] t[k]) by {
            assert(t[k] == s[k]);
        }
        lemma_trim_end_take(t, j);
        assert(t.subrange(0, j) =~= s.subrange(0, j));
    }
}

pub proof fn lemma_split_nonempty(s: Seq<char>, sep: char)
    ensures
        split_seq(s, sep).len() >= 1,
    decreases s.len(),
{
    if s.len() > 0 {
        lemma_split_nonempty(s.drop_last(), sep);
    }
}

// ---------------------------------------------------------------------------
// Executable helpers
// ---------------------------------------------------------------------------

/// The characters of a string slice, in order.
pub fn chars_of(s: &str) -> (v: Vec<char>)
    ensures
        v@ == s@,
{
    let mut v: Vec<char> = Vec::new();
    for c in it: s.chars()
        invariant
            v@ == it.seq().take(it.index() as int),
    {
        v.push(c);
    }
    v
}

/// Appends a character with `String::push`. Claimed: the string's
/// characters are those before, then `c`.
#[verifier::external_body]
fn push_char(s: &mut String, c: char)
    ensures
        final(s)@ == old(s)@.push(c),
{
    s.push(c);
}

/// Builds a string from a sequence of characters.
pub fn string_from_chars(v: &[char]) -> (s: String)
    ensures
        s@ == v@,
{
    let mut s = String::new();
    let mut i: usize = 0;
    while i < v.len()
        invariant
            i <= v.len(),
            s@ == v@.take(i as int),
        decreases v.len() - i,
    {
        push_char(&mut s, v[i]);
        i += 1;
        assert(v@.take(i as int) == v@.take((i - 1) as int).push(v@[i - 1]));
    }
    assert(v@.take(v.len() as int) == v@);
    s
}

/// An owned copy of a string slice.
pub fn owned(s: &str) -> (r: String)
    ensures
        r@ == s@,
{
    s.to_owned()
}

/// Appends `b` to `a`.
pub fn append_str(a: &mut String, b: &str)
    ensures
        final(a)@ == old(a)@ + b@,
{
    a.append(b);
}

/// Equality of two character sequences.
pub fn chars_eq(a: &[char], b: &[char]) -> (r: bool)
    ensures
        r == (a@ == b@),
{
    if a.len() != b.len() {
        return false;
    }
    let mut i: usize = 0;
    while i < a.len()
        invariant
            a.len() == b.len(),
            i <= a.len(),
            forall|k: int| 0 <= k < i ==> a@[k] == b@[k],
        decreases a.len() - i,
    {
        if a[i] != b[i] {
            return false;
        }
        i += 1;
    }
    assert(a@ =~= b@);
    true
}

/// Equality of a character sequence and a string slice.
pub fn chars_eq_str(a: &[char], b: &str) -> (r: bool)
    ensures
        r == (a@ == b@),
{
    let bv = chars_of(b);
    chars_eq(a, &bv)
}

/// Equality of two string slices.
pub fn str_eq(a: &str, b: &str) -> (r: bool)
    ensures
        r == (a@ == b@),
{
    let av = chars_of(a);
    chars_eq_str(&av, b)
}

/// Whether `c` is Unicode whitespace.
pub fn is_ws_char(c: char) -> (r: bool)
    ensures
        r == is_ws(c),
{
    let u = c as u32;
    (0x9 <= u && u <= 0xd) || u == 0x20 || u == 0x85 || u == 0xa0 || u == 0x1680 || (0x2000 <= u
        && u <= 0x200a) || u == 0x2028 || u == 0x2029 || u == 0x202f || u == 0x205f || u == 0x3000
}

/// A copy of `s[from..to]`.
pub fn slice_chars(s: &[char], from: usize, to: usize) -> (r: Vec<char>)
    requires
        from <= to <= s.len(),
    ensures
        r@ == s@.subrange(from as int, to as int),
{
    let mut r: Vec<char> = Vec::new();
    let mut i = from;
    while i < to
        invariant
            from <= i <= to <= s.len(),
            r@ == s@.subrange(from as int, i as int),
        decreases to - i,
    {
        r.push(s[i]);
        i += 1;
        assert(r@ =~= s@.subrange(from as int, i as int));
    }
    r
}

/// `s` without leading and trailing whitespace.
pub fn trim_chars(s: &[char]) -> (r: Vec<char>)
    ensures
        r@ == trim_seq(s@),
{
    let mut i: usize = 0;
    while i < s.len() && is_ws_char(s[i])
        invariant
            i <= s.len(),
            forall|k: int| 0 <= k < i ==> is_ws(#[trigger] s@[k]),
        decreases s.len() - i,
    {
        i += 1;
    }
    proof {
        lemma_trim_start_skip(s@, i as int);
    }
    let ghost t = s@.subrange(i as int, s.len() as int);
    let mut j: usize = s.len();
    while j > i && is_ws_char(s[j - 1])
        invariant
            i <= j <= s.len(),
            t == s@.subrange(i as int, s.len() as int),
            forall|k: int| j <= k < s.len() ==> is_ws(#[trigger] s@[k]),
        decreases j,
    {
        j -= 1;
    }
    proof {
        let jj = j - i;
        assert forall|k: int| jj <= k < t.len() implies is_ws(#[trigger] t[k]) by {
            assert(t[k] == s@[k + i]);
        }
        if jj > 0 {
            assert(t[jj - 1] == s@[j - 1]);
        }
        lemma_trim_end_take(t, jj as int);
        assert(t.subrange(0, jj as int) =~= s@.subrange(i as int, j as int));
    }
    slice_chars(s, i, j)
}

/// `s` without leading and trailing whitespace.
pub fn trim_str(s: &str) -> (r: Vec<char>)
    ensures
        r@ == trim_seq(s@),
{
    let v = chars_of(s);
    trim_chars(&v)
}

/// ASCII lower-casing.
pub fn lower_chars(s: &[char]) -> (r: Vec<char>)
    ensures
        r@ == lower_seq(s@),
{
    let mut r: Vec<char> = Vec::new();
    let mut i: usize = 0;
    while i < s.len()
        invariant
            i <= s.len(),
            r@ == lower_seq(s@.take(i as int)),
        decreases s.len() - i,
    {
        let c = s[i];
        let d = if 'A' <= c && c <= 'Z' {
            ((c as u8) + 32) as char
        } else {
            c
        };
        assert(d == lower_char(c)) by {
            if 'A' <= c && c <= 'Z' {
                assert((c as u8) as u32 == c as u32);
            }
        }
        r.push(d);
        i += 1;
        assert(lower_seq(s@.take(i as int)) =~= lower_seq(s@.take((i - 1) as int)).push(d));
    }
    assert(s@.take(s.len() as int) =~= s@);
    r
}

/// ASCII upper-casing.
pub fn upper_chars(s: &[char]) -> (r: Vec<char>)
    ensures
        r@ == upper_seq(s@),
{
    let mut r: Vec<char> = Vec::new();
    let mut i: usize = 0;
    while i < s.len()
        invariant
            i <= s.len(),
            r@ == upper_seq(s@.take(i as int)),
        decreases s.len() - i,
    {
        let c = s[i];
        let d = if 'a' <= c && c <= 'z' {
            ((c as u8) - 32) as char
        } else {
            c
        };
        assert(d == upper_char(c)) by {
            if 'a' <= c && c <= 'z' {
                assert((c as u8) as u32 == c as u32);
            }
        }
        r.push(d);
        i += 1;
        assert(upper_seq(s@.take(i as int)) =~= upper_seq(s@.take((i - 1) as int)).push(d));
    }
    assert(s@.take(s.len() as int) =~= s@);
    r
}


/// Whether `p` occurs in `s` at position `i`.
pub fn occurs_at_exec(s: &[char], p: &[char], i: usize) -> (r: bool)
    ensures
        r == occurs_at(s@, p@, i as int),
{
    if i > s.len() || p.len() > s.len() - i {
        return false;
    }
    let mut k: usize = 0;
    while k < p.len()
        invariant
            i + p.len() <= s.len(),
            k <= p.len(),
            forall|m: int| 0 <= m < k ==> s@[i + m] == p@[m],
        decreases p.len() - k,
    {
        if s[i + k] != p[k] {
            assert(s@.subrange(i as int, i + p.len())[k as int] != p@[k as int]);
            return false;
        }
        k += 1;
    }
    assert(s@.subrange(i as int, i + p.len()) =~= p@);
    true
}

pub fn starts_with_chars(s: &[char], p: &[char]) -> (r: bool)
    ensures
        r == starts_with(s@, p@),
{
    occurs_at_exec(s, p, 0)
}

pub fn ends_with_chars(s: &[char], p: &[char]) -> (r: bool)
    ensures
        r == ends_with(s@, p@),
{
    if p.len() > s.len() {
        return false;
    }
    occurs_at_exec(s, p, s.len() - p.len())
}

/// The first position at or after `from` where `p` occurs in `s`.
pub fn find_from(s: &[char], p: &[char], from: usize) -> (r: Option<usize>)
    ensures
        match r {
            Some(i) => from <= i && occurs_at(s@, p@, i as int) && forall|j: int|
                from <= j < i ==> !occurs_at(s@, p@, j),
            None => forall|j: int| from <= j ==> !occurs_at(s@, p@, j),
        },
{
    let mut i = from;
    while i < s.len()
        invariant
            from <= i,
            forall|j: int| from <= j < i ==> !occurs_at(s@, p@, j),
        decreases s.len() - i,
    {
        if occurs_at_exec(s, p, i) {
            return Some(i);
        }
        i += 1;
    }
    if occurs_at_exec(s, p, i) {
        return Some(i);
    }
    assert forall|j: int| from <= j implies !occurs_at(s@, p@, j) by {
        if j > i {
            assert(i >= s.len());
        }
    }
    None
}

pub fn contains_chars(s: &[char], p: &[char]) -> (r: bool)
    ensures
        r == contains_seq(s@, p@),
{
    match find_from(s, p, 0) {
        Some(i) => true,
        None => {
            assert(forall|j: int| !occurs_at(s@, p@, j));
            false
        },
    }
}

pub fn contains_char(s: &[char], c: char) -> (r: bool)
    ensures
        r == s@.contains(c),
{
    let mut i: usize = 0;
    while i < s.len()
        invariant
            i <= s.len(),
            forall|k: int| 0 <= k < i ==> s@[k] != c,
        decreases s.len() - i,
    {
        if s[i] == c {
            return true;
        }
        i += 1;
    }
    false
}

/// The first `n` characters of `s`.
pub fn take_chars(s: &[char], n: usize) -> (r: Vec<char>)
    ensures
        r@ == take_seq(s@, n as nat),
{
    if n < s.len() {
        let r = slice_chars(s, 0, n);
        assert(r@ =~= s@.take(n as int));
        r
    } else {
        slice_chars(s, 0, s.len())
    }
}

proof fn lemma_split_step(s: Seq<char>, sep: char, i: int)
    requires
        0 <= i < s.len(),
    ensures
        split_seq(s.take(i + 1), sep) == ({
            let r = split_seq(s.take(i), sep);
            if s[i] == sep {
                r.push(Seq::<char>::empty())
            } else {
                r.update(r.len() - 1, r.last().push(s[i]))
            }
        }),
{
    assert(s.take(i + 1).drop_last() =~= s.take(i));
}

/// The pieces of `s` between occurrences of `sep`.
pub fn split_chars(s: &[char], sep: char) -> (r: Vec<Vec<char>>)
    ensures
        r@.len() == split_seq(s@, sep).len(),
        forall|k: int| 0 <= k < r@.len() ==> #[trigger] r@[k]@ == split_seq(s@, sep)[k],
{
    let mut done: Vec<Vec<char>> = Vec::new();
    let mut cur: Vec<char> = Vec::new();
    let mut i: usize = 0;
    assert(s@.take(0) =~= Seq::<char>::empty());
    while i < s.len()
        invariant
            i <= s.len(),
            done@.len() + 1 == split_seq(s@.take(i as int), sep).len(),
            forall|k: int| 0 <= k < done@.len() ==> #[trigger] done@[k]@ == split_seq(s@.take(i as int), sep)[k],
            cur@ == split_seq(s@.take(i as int), sep).last(),
        decreases s.len() - i,
    {
        proof { lemma_split_step(s@, sep, i as int); }
        if s[i] == sep {
            done.push(cur);
            cur = Vec::new();
        } else {
            cur.push(s[i]);
        }
        i += 1;
    }
    done.push(cur);
    assert(s@.take(s.len() as int) =~= s@);
    done
}

/// The decimal digits of `n`.
pub fn u64_digits(n: u64) -> (r: Vec<char>)
    ensures
        r@ == nat_digits(n as nat),
    decreases n,
{
    let d = (n % 10) as u8;
    let c = (d + 48) as char;
    assert(c == digit_char((n % 10) as nat)) by {
        assert((d + 48) as u32 == (n % 10) + 48);
    }
    if n < 10 {
        let mut r = Vec::new();
        r.push(c);
        r
    } else {
        let mut r = u64_digits(n / 10);
        r.push(c);
        r
    }
}

/// Decimal rendering of an integer.
pub fn i64_text(n: i64) -> (r: String)
    ensures
        r@ == int_text(n as int),
{
    if n < 0 {
        let m: u64 = if n == i64::MIN {
            9223372036854775808u64
        } else {
            (-n) as u64
        };
        let d = u64_digits(m);
        let mut r = owned("-");
        proof { reveal_strlit("-"); }
        let t = string_from_chars(&d);
        append_str(&mut r, t.as_str());
        r
    } else {
        let d = u64_digits(n as u64);
        string_from_chars(&d)
    }
}


/// The character sequences that a list of character vectors holds.
pub open spec fn parts_view(parts: Seq<Vec<char>>) -> Seq<Seq<char>> {
    parts.map_values(|p: Vec<char>| p@)
}

/// `parts[from..to]` joined with `sep` between consecutive pieces.
pub fn join_parts(parts: &Vec<Vec<char>>, from: usize, to: usize, sep: &[char]) -> (r: Vec<char>)
    requires
        from <= to <= parts@.len(),
    ensures
        r@ == join_seq(parts_view(parts@).subrange(from as int, to as int), sep@),
{
    let mut r: Vec<char> = Vec::new();
    let mut i = from;
    while i < to
        invariant
            from <= i <= to <= parts@.len(),
            r@ == join_seq(parts_view(parts@).subrange(from as int, i as int), sep@),
        decreases to - i,
    {
        let ghost before = parts_view(parts@).subrange(from as int, i as int);
        let ghost after = parts_view(parts@).subrange(from as int, i as int + 1);
        assert(after.drop_last() =~= before);
        assert(after.last() == parts@[i as int]@);
        if i > from {
            let mut k: usize = 0;
            let ghost r0 = r@;
            while k < sep.len()
                invariant
                    k <= sep.len(),
                    r@ == r0 + sep@.take(k as int),
                decreases sep.len() - k,
            {
                r.push(sep[k]);
                k += 1;
                assert(r@ =~= r0 + sep@.take(k as int));
            }
            assert(sep@.take(sep.len() as int) =~= sep@);
        } else {
            assert(before.len() == 0);
            assert(r@ =~= Seq::<char>::empty());
        }
        let piece = &parts[i];
        let mut k: usize = 0;
        let ghost r1 = r@;
        while k < piece.len()
            invariant
                k <= piece.len(),
                r@ == r1 + piece@.take(k as int),
            decreases piece.len() - k,
        {
            r.push(piece[k]);
            k += 1;
            assert(r@ =~= r1 + piece@.take(k as int));
        }
        assert(piece@.take(piece.len() as int) =~= piece@);
        if i == from {
            assert(after.len() == 1);
            assert(r@ =~= after[0]);
        }
        i += 1;
    }
    r
}


/// `s` with every occurrence of the character `c` replaced by `rep`.
pub open spec fn replace_char_seq(s: Seq<char>, c: char, rep: Seq<char>) -> Seq<char>
    decreases s.len(),
{
    if s.len() == 0 {
        s
    } else {
        replace_char_seq(s.drop_last(), c, rep) + if s.last() == c {
            rep
        } else {
            seq![s.last()]
        }
    }
}

/// `s` with the non-overlapping occurrences of `pat`, found from the left,
/// replaced by `rep`, as `str::replace` does for a non-empty pattern.
pub open spec fn replace_seq(s: Seq<char>, pat: Seq<char>, rep: Seq<char>) -> Seq<char>
    recommends
        pat.len() > 0,
    decreases s.len(),
{
    if pat.len() == 0 || s.len() < pat.len() {
        s
    } else if s.subrange(0, pat.len() as int) == pat {
        rep + replace_seq(s.skip(pat.len() as int), pat, rep)
    } else {
        seq![s[0]] + replace_seq(s.drop_first(), pat, rep)
    }
}

/// The pieces that are not empty, in order.
pub open spec fn nonempty_parts(parts: Seq<Seq<char>>) -> Seq<Seq<char>>
    decreases parts.len(),
{
    if parts.len() == 0 {
        parts
    } else if parts.last().len() == 0 {
        nonempty_parts(parts.drop_last())
    } else {
        nonempty_parts(parts.drop_last()).push(parts.last())
    }
}

/// Appends the characters of `b` to `a`.
pub fn push_all(a: &mut Vec<char>, b: &[char])
    ensures
        final(a)@ == old(a)@ + b@,
{
    let mut k: usize = 0;
    let ghost a0 = a@;
    while k < b.len()
        invariant
            k <= b.len(),
            a@ == a0 + b@.take(k as int),
        decreases b.len() - k,
    {
        a.push(b[k]);
        k += 1;
        assert(a@ =~= a0 + b@.take(k as int));
    }
    assert(b@.take(b.len() as int) =~= b@);
}

/// `s` with every occurrence of `c` replaced by `rep`.
pub fn replace_char(s: &[char], c: char, rep: &[char]) -> (r: Vec<char>)
    ensures
        r@ == replace_char_seq(s@, c, rep@),
{
    let mut r: Vec<char> = Vec::new();
    let mut i: usize = 0;
    while i < s.len()
        invariant
            i <= s.len(),
            r@ == replace_char_seq(s@.take(i as int), c, rep@),
        decreases s.len() - i,
    {
        assert(s@.take(i as int + 1).drop_last() =~= s@.take(i as int));
        if s[i] == c {
            push_all(&mut r, rep);
        } else {
            r.push(s[i]);
            assert(r@ =~= replace_char_seq(s@.take(i as int), c, rep@) + seq![s@[i as int]]);
        }
        i += 1;
    }
    assert(s@.take(s.len() as int) =~= s@);
    r
}

/// `s` with the occurrences of the non-empty pattern `pat` replaced by `rep`.
pub fn replace_chars(s: &[char], pat: &[char], rep: &[char]) -> (r: Vec<char>)
    requires
        pat.len() > 0,
    ensures
        r@ == replace_seq(s@, pat@, rep@),
{
    let mut r: Vec<char> = Vec::new();
    let mut i: usize = 0;
    assert(s@.skip(0) =~= s@);
    assert(r@ + s@ =~= s@);
    while i < s.len()
        invariant
            i <= s.len(),
            pat.len() > 0,
            r@ + replace_seq(s@.skip(i as int), pat@, rep@) == replace_seq(s@, pat@, rep@),
        decreases s.len() - i,
    {
        let ghost rest = s@.skip(i as int);
        if occurs_at_exec(s, pat, i) {
            assert(rest.subrange(0, pat.len() as int) =~= s@.subrange(i as int, i + pat.len()));
            assert(rest.skip(pat.len() as int) =~= s@.skip(i + pat.len()));
            let ghost r0 = r@;
            push_all(&mut r, pat_rep_helper(rep));
            i += pat.len();
            assert(r0 + (rep@ + replace_seq(s@.skip(i as int), pat@, rep@)) =~= r@ + replace_seq(s@.skip(i as int), pat@, rep@));
        } else {
            if s.len() - i >= pat.len() {
                assert(rest.subrange(0, pat.len() as int) =~= s@.subrange(i as int, i + pat.len()));
                assert(rest.drop_first() =~= s@.skip(i + 1));
                let ghost r0 = r@;
                r.push(s[i]);
                assert(r0 + (seq![s@[i as int]] + replace_seq(s@.skip(i + 1), pat@, rep@)) =~= r@ + replace_seq(s@.skip(i + 1), pat@, rep@));
                i += 1;
            } else {
                assert(replace_seq(rest, pat@, rep@) == rest);
                let ghost r0 = r@;
                while i < s.len()
                    invariant
                        i <= s.len(),
                        r@ + s@.skip(i as int) == r0 + rest,
                    decreases s.len() - i,
                {
                    r.push(s[i]);
                    i += 1;
                    assert(r@ + s@.skip(i as int) =~= r0 + rest) by {
                        assert(s@.skip(i - 1) =~= seq![s@[i - 1]] + s@.skip(i as int));
                    }
                }
                assert(s@.skip(i as int) =~= Seq::<char>::empty());
                assert(r@ =~= r0 + rest);
            }
        }
    }
    assert(s@.skip(i as int) =~= Seq::<char>::empty());
    r
}

fn pat_rep_helper(rep: &[char]) -> (r: &[char])
    ensures
        r@ == rep@,
{
    rep
}

/// The pieces of `parts` that are not empty.
pub fn nonempty_parts_exec(parts: &Vec<Vec<char>>) -> (r: Vec<Vec<char>>)
    ensures
        parts_view(r@) == nonempty_parts(parts_view(parts@)),
{
    let mut r: Vec<Vec<char>> = Vec::new();
    let mut i: usize = 0;
    while i < parts.len()
        invariant
            i <= parts.len(),
            parts_view(r@) == nonempty_parts(parts_view(parts@.take(i as int))),
        decreases parts.len() - i,
    {
        assert(parts_view(parts@.take(i as int + 1)).drop_last() =~= parts_view(parts@.take(i as int)));
        assert(parts_view(parts@.take(i as int + 1)).last() == parts@[i as int]@);
        if parts[i].len() > 0 {
            let ghost before = parts_view(r@);
            let piece = slice_chars(&parts[i], 0, parts[i].len());
            assert(piece@ =~= parts@[i as int]@);
            r.push(piece);
            assert(parts_view(r@) =~= before.push(parts@[i as int]@));
        }
        i += 1;
    }
    assert(parts@.take(parts.len() as int) =~= parts@);
    r
}


/// `s` without the leading and trailing occurrences of `c`.
pub open spec fn trim_char_seq(s: Seq<char>, c: char) -> Seq<char> {
    trim_char_end(trim_char_start(s, c), c)
}

pub open spec fn trim_char_start(s: Seq<char>, c: char) -> Seq<char>
    decreases s.len(),
{
    if s.len() > 0 && s[0] == c {
        trim_char_start(s.drop_first(), c)
    } else {
        s
    }
}

pub open spec fn trim_char_end(s: Seq<char>, c: char) -> Seq<char>
    decreases s.len(),
{
    if s.len() > 0 && s.last() == c {
        trim_char_end(s.drop_last(), c)
    } else {
        s
    }
}

proof fn lemma_trim_char_start_skip(s: Seq<char>, c: char, i: int)
    requires
        0 <= i <= s.len(),
        forall|k: int| 0 <= k < i ==> #[trigger] s[k] == c,
        i == s.len() || s[i] != c,
    ensures
        trim_char_start(s, c) == s.subrange(i, s.len() as int),
    decreases i,
{
    if i == 0 {
        assert(s.subrange(0, s.len() as int) =~= s);
    } else {
        let t = s.drop_first();
        assert forall|k: int| 0 <= k < i - 1 implies #[trigger] t[k] == c by {
            assert(t[k] == s[k + 1]);
        }
        lemma_trim_char_start_skip(t, c, i - 1);
        assert(t.subrange(i - 1, t.len() as int) =~= s.subrange(i, s.len() as int));
    }
}

proof fn lemma_trim_char_end_take(s: Seq<char>, c: char, j: int)
    requires
        0 <= j <= s.len(),
        forall|k: int| j <= k < s.len() ==> #[trigger] s[k] == c,
        j == 0 || s[j - 1] != c,
    ensures
        trim_char_end(s, c) == s.subrange(0, j),
    decreases s.len() - j,
{
    if j == s.len() {
        assert(s.subrange(0, j) =~= s);
    } else {
        let t = s.drop_last();
        assert forall|k: int| j <= k < t.len() implies #[trigger] t[k] == c by {
            assert(t[k] == s[k]);
        }
        lemma_trim_char_end_take(t, c, j);
        assert(t.subrange(0, j) =~= s.subrange(0, j));
    }
}

/// `s` without the copies of `c` it starts with.
pub fn trim_char_start_exec(s: &[char], c: char) -> (r: Vec<char>)
    ensures
        r@ == trim_char_start(s@, c),
{
    let mut i: usize = 0;
    while i < s.len() && s[i] == c
        invariant
            i <= s.len(),
            forall|k: int| 0 <= k < i ==> #[trigger] s@[k] == c,
        decreases s.len() - i,
    {
        i += 1;
    }
    proof {
        lemma_trim_char_start_skip(s@, c, i as int);
    }
    slice_chars(s, i, s.len())
}


/// `s` without the leading and trailing occurrences of `c`.
pub fn trim_char(s: &[char], c: char) -> (r: Vec<char>)
    ensures
        r@ == trim_char_seq(s@, c),
{
    let mut i: usize = 0;
    while i < s.len() && s[i] == c
        invariant
            i <= s.len(),
            forall|k: int| 0 <= k < i ==> #[trigger] s@[k] == c,
        decreases s.len() - i,
    {
        i += 1;
    }
    proof {
        lemma_trim_char_start_skip(s@, c, i as int);
    }
    let ghost t = s@.subrange(i as int, s.len() as int);
    let mut j: usize = s.len();
    while j > i && s[j - 1] == c
        invariant
            i <= j <= s.len(),
            t == s@.subrange(i as int, s.len() as int),
            forall|k: int| j <= k < s.len() ==> #[trigger] s@[k] == c,
        decreases j,
    {
        j -= 1;
    }
    proof {
        let jj = j - i;
        assert forall|k: int| jj <= k < t.len() implies #[trigger] t[k] == c by {
            assert(t[k] == s@[k + i]);
        }
        if jj > 0 {
            assert(t[jj - 1] == s@[j - 1]);
        }
        lemma_trim_char_end_take(t, c, jj as int);
        assert(t.subrange(0, jj as int) =~= s@.subrange(i as int, j as int));
    }
    slice_chars(s, i, j)
}

/// Strings in the order of their characters' code points, which is the
/// order of their UTF-8 bytes.
pub open spec fn text_lt(a: Seq<char>, b: Seq<char>) -> bool
    decreases a.len(),
{
    if a.len() == 0 {
        b.len() > 0
    } else if b.len() == 0 {
        false
    } else if a[0] == b[0] {
        text_lt(a.drop_first(), b.drop_first())
    } else {
        (a[0] as u32) < (b[0] as u32)
    }
}

proof fn lemma_text_lt_skip(a: Seq<char>, b: Seq<char>, i: int)
    requires
        0 <= i < a.len(),
        i < b.len(),
        a[i] == b[i],
    ensures
        text_lt(a.skip(i), b.skip(i)) == text_lt(a.skip(i + 1), b.skip(i + 1)),
{
    assert(a.skip(i).drop_first() =~= a.skip(i + 1));
    assert(b.skip(i).drop_first() =~= b.skip(i + 1));
}

/// Compares two character sequences in the order of `text_lt`.
pub fn chars_less(av: &[char], bv: &[char]) -> (r: bool)
    ensures
        r == text_lt(av@, bv@),
{
    let ghost a = av@;
    let ghost b = bv@;
    let mut i: usize = 0;
    assert(a.skip(0) =~= a);
    assert(b.skip(0) =~= b);
    while i < av.len() && i < bv.len()
        invariant
            i <= av.len(),
            i <= bv.len(),
            av@ == a,
            bv@ == b,
            text_lt(a, b) == text_lt(a.skip(i as int), b.skip(i as int)),
        decreases av.len() - i,
    {
        if av[i] != bv[i] {
            let x: u32 = av[i] as u32;
            let y: u32 = bv[i] as u32;
            assert(a.skip(i as int)[0] == a[i as int]);
            assert(b.skip(i as int)[0] == b[i as int]);
            return x < y;
        }
        proof {
            lemma_text_lt_skip(a, b, i as int);
        }
        i += 1;
    }
    assert(a.skip(i as int).len() == 0 || b.skip(i as int).len() == 0);
    i < bv.len()
}

/// Compares two strings as `<` on `str` does.
pub fn text_less(a: &str, b: &str) -> (r: bool)
    ensures
        r == text_lt(a@, b@),
{
    let av = chars_of(a);
    let bv = chars_of(b);
    chars_less(&av, &bv)
}

/// `text_lt` never holds both ways.
pub proof fn lemma_text_lt_asymmetric(a: Seq<char>, b: Seq<char>)
    ensures
        !(text_lt(a, b) && text_lt(b, a)),
        !text_lt(a, a),
    decreases a.len(),
{
    if a.len() > 0 && b.len() > 0 && a[0] == b[0] {
        lemma_text_lt_asymmetric(a.drop_first(), b.drop_first());
    }
    if a.len() > 0 {
        lemma_text_lt_asymmetric(a.drop_first(), a.drop_first());
    }
}

/// `text_lt` is transitive.
pub proof fn lemma_text_lt_transitive(a: Seq<char>, b: Seq<char>, c: Seq<char>)
    requires
        text_lt(a, b),
        text_lt(b, c),
    ensures
        text_lt(a, c),
    decreases a.len(),
{
    if a.len() > 0 && b.len() > 0 && c.len() > 0 && a[0] == b[0] && b[0] == c[0] {
        lemma_text_lt_transitive(a.drop_first(), b.drop_first(), c.drop_first());
    }
}

/// Of two different strings, one comes first.
pub proof fn lemma_text_lt_total(a: Seq<char>, b: Seq<char>)
    ensures
        a == b || text_lt(a, b) || text_lt(b, a),
    decreases a.len(),
{
    if a.len() > 0 && b.len() > 0 {
        if a[0] == b[0] {
            lemma_text_lt_total(a.drop_first(), b.drop_first());
            if a.drop_first() == b.drop_first() {
                assert(a =~= seq![a[0]] + a.drop_first());
                assert(b =~= seq![b[0]] + b.drop_first());
            }
        } else {
            vstd::utf8::char_u32_cast(a[0], a[0] as u32);
            vstd::utf8::char_u32_cast(b[0], b[0] as u32);
        }
    } else if a.len() == 0 && b.len() == 0 {
        assert(a =~= b);
    }
}

// ---------------------------------------------------------------------------
// Decimal integers
// ---------------------------------------------------------------------------

/// The value of a run of decimal digits.
pub open spec fn digits_value(s: Seq<char>) -> nat
    decreases s.len(),
{
    if s.len() == 0 {
        0
    } else {
        digits_value(s.drop_last()) * 10 + ((s.last() as u32) - 48) as nat
    }
}

pub open spec fn all_digits(s: Seq<char>) -> bool {
    forall|i: int| 0 <= i < s.len() ==> is_digit_ascii(#[trigger] s[i])
}

/// What `str::parse::<i64>` gives: an optional `+` or `-`, then one or more
/// decimal digits, and a value that fits.
pub open spec fn parsed_i64(s: Seq<char>) -> Option<i64> {
    if s.len() == 0 {
        None
    } else {
        let digits = if s[0] == '-' || s[0] == '+' {
            s.skip(1)
        } else {
            s
        };
        if digits.len() == 0 || !all_digits(digits) {
            None
        } else if s[0] == '-' {
            if digits_value(digits) <= 0x8000_0000_0000_0000 {
                Some((0 - digits_value(digits)) as i64)
            } else {
                None
            }
        } else if digits_value(digits) <= 0x7fff_ffff_ffff_ffff {
            Some(digits_value(digits) as i64)
        } else {
            None
        }
    }
}

proof fn lemma_digits_value_prefix(s: Seq<char>, k: int)
    requires
        0 <= k <= s.len(),
    ensures
        digits_value(s.take(k)) <= digits_value(s),
    decreases s.len() - k,
{
    if k < s.len() {
        lemma_digits_value_prefix(s, k + 1);
        assert(s.take(k + 1).drop_last() =~= s.take(k));
    } else {
        assert(s.take(k) =~= s);
    }
}

/// The value of the digits of `s` from `from` on, or `None` where one of
/// them is no digit or the value passes `limit`.
fn digits_up_to(s: &[char], from: usize, limit: u128) -> (r: Option<u128>)
    requires
        from <= s.len(),
        limit <= 0x8000_0000_0000_0000,
    ensures
        match r {
            Some(v) => all_digits(s@.skip(from as int)) && v == digits_value(s@.skip(from as int))
                && v <= limit,
            None => !all_digits(s@.skip(from as int)) || digits_value(s@.skip(from as int)) > limit,
        },
{
    let ghost d = s@.skip(from as int);
    let mut acc: u128 = 0;
    let mut i: usize = from;
    assert(d.take(0) =~= Seq::<char>::empty());
    while i < s.len()
        invariant
            from <= i <= s.len(),
            d == s@.skip(from as int),
            limit <= 0x8000_0000_0000_0000,
            all_digits(d.take(i - from)),
            acc == digits_value(d.take(i - from)),
            acc <= limit,
        decreases s.len() - i,
    {
        let c = s[i];
        assert(d[i - from] == c);
        if !('0' <= c && c <= '9') {
            assert(!is_digit_ascii(d[i - from]));
            return None;
        }
        assert(d.take(i - from + 1).drop_last() =~= d.take(i - from));
        let digit: u128 = (c as u32 - 48) as u128;
        let next: u128 = acc * 10 + digit;
        if next > limit {
            proof {
                if all_digits(d) {
                    lemma_digits_value_prefix(d, i - from + 1);
                }
            }
            return None;
        }
        acc = next;
        i += 1;
    }
    assert(d.take(i - from) =~= d);
    Some(acc)
}

/// What `str::parse::<u32>` gives: an optional `+`, then one or more
/// decimal digits, and a value that fits.
pub open spec fn parsed_u32(s: Seq<char>) -> Option<u32> {
    let digits = if s.len() > 0 && s[0] == '+' {
        s.skip(1)
    } else {
        s
    };
    if digits.len() == 0 || !all_digits(digits) || digits_value(digits) > 0xffff_ffff {
        None
    } else {
        Some(digits_value(digits) as u32)
    }
}

/// What `str::parse::<i32>` gives: an optional `+` or `-`, then one or more
/// decimal digits, and a value that fits.
pub open spec fn parsed_i32(s: Seq<char>) -> Option<i32> {
    if s.len() == 0 {
        None
    } else {
        let digits = if s[0] == '-' || s[0] == '+' {
            s.skip(1)
        } else {
            s
        };
        if digits.len() == 0 || !all_digits(digits) {
            None
        } else if s[0] == '-' {
            if digits_value(digits) <= 0x8000_0000 {
                Some((0 - digits_value(digits)) as i32)
            } else {
                None
            }
        } else if digits_value(digits) <= 0x7fff_ffff {
            Some(digits_value(digits) as i32)
        } else {
            None
        }
    }
}

/// Parses a decimal integer as `str::parse::<u32>` does.
pub fn parse_u32(text: &str) -> (r: Option<u32>)
    ensures
        r == parsed_u32(text@),
{
    let s = chars_of(text);
    let from: usize = if s.len() > 0 && s[0] == '+' {
        1
    } else {
        0
    };
    assert(from == 0 ==> s@.skip(0) =~= s@);
    if from == s.len() {
        return None;
    }
    match digits_up_to(&s, from, 0xffff_ffff) {
        Some(v) => Some(v as u32),
        None => None,
    }
}

/// Parses a decimal integer as `str::parse::<i32>` does.
pub fn parse_i32(text: &str) -> (r: Option<i32>)
    ensures
        r == parsed_i32(text@),
{
    let s = chars_of(text);
    if s.len() == 0 {
        return None;
    }
    let signed = s[0] == '-' || s[0] == '+';
    let from: usize = if signed {
        1
    } else {
        0
    };
    assert(from == 0 ==> s@.skip(0) =~= s@);
    if from == s.len() {
        return None;
    }
    if s[0] == '-' {
        match digits_up_to(&s, from, 0x8000_0000) {
            Some(v) => Some((0 - (v as i64)) as i32),
            None => None,
        }
    } else {
        match digits_up_to(&s, from, 0x7fff_ffff) {
            Some(v) => Some(v as i32),
            None => None,
        }
    }
}

/// The decimal digits of `n`, with zeros in front to make at least `width`.
pub open spec fn zero_padded(n: nat, width: nat) -> Seq<char> {
    let d = nat_digits(n);
    if d.len() < width {
        Seq::new((width - d.len()) as nat, |i: int| '0') + d
    } else {
        d
    }
}

/// `n` in decimal, zero-padded to `width` digits.
pub fn zero_padded_digits(n: u64, width: usize) -> (r: Vec<char>)
    ensures
        r@ == zero_padded(n as nat, width as nat),
{
    let d = u64_digits(n);
    if d.len() < width {
        let mut r: Vec<char> = Vec::new();
        let mut k: usize = 0;
        while k < width - d.len()
            invariant
                d@ == nat_digits(n as nat),
                d.len() < width,
                k <= width - d.len(),
                r@ =~= Seq::new(k as nat, |i: int| '0'),
            decreases width - d.len() - k,
        {
            r.push('0');
            k += 1;
        }
        push_all(&mut r, &d);
        r
    } else {
        d
    }
}

/// The digits of a number are digits, and read back as the number.
pub proof fn lemma_nat_digits_value(n: nat)
    ensures
        all_digits(nat_digits(n)),
        digits_value(nat_digits(n)) == n,
        nat_digits(n).len() >= 1,
    decreases n,
{
    let c = digit_char(n % 10);
    assert((c as u32) == n % 10 + 48);
    if n >= 10 {
        lemma_nat_digits_value(n / 10);
        let s = nat_digits(n / 10);
        assert(nat_digits(n).drop_last() =~= s);
        assert(nat_digits(n).last() == c);
        assert(digits_value(nat_digits(n)) == digits_value(s) * 10 + (n % 10));
    } else {
        assert(nat_digits(n).drop_last() =~= Seq::<char>::empty());
        assert(n % 10 == n);
        assert(nat_digits(n).last() == c);
        assert(digits_value(nat_digits(n)) == digits_value(Seq::<char>::empty()) * 10 + (n % 10));
    }
}

/// A number below `10^k` has at most `k` digits (for `k` of 2 and 4).
pub proof fn lemma_nat_digits_short(n: nat)
    ensures
        n < 100 ==> nat_digits(n).len() <= 2,
        n < 10000 ==> nat_digits(n).len() <= 4,
{
    let a = n / 10;
    let b = a / 10;
    let c = b / 10;
    assert(nat_digits(c).len() >= 1);
    if n < 10000 {
        assert(c < 10);
        assert(nat_digits(c).len() == 1);
        assert(nat_digits(b).len() <= 2);
        assert(nat_digits(a).len() <= 3);
        assert(nat_digits(n).len() <= 4);
    }
    if n < 100 {
        assert(a < 10);
        assert(nat_digits(a).len() == 1);
        assert(nat_digits(n).len() <= 2);
    }
}

proof fn lemma_leading_zeros(k: nat, s: Seq<char>)
    ensures
        digits_value(Seq::new(k, |i: int| '0') + s) == digits_value(s),
        all_digits(s) ==> all_digits(Seq::new(k, |i: int| '0') + s),
    decreases s.len(), k,
{
    let z = Seq::new(k, |i: int| '0');
    if s.len() > 0 {
        lemma_leading_zeros(k, s.drop_last());
        assert((z + s).drop_last() =~= z + s.drop_last());
    } else if k > 0 {
        lemma_leading_zeros((k - 1) as nat, s);
        assert((z + s).drop_last() =~= Seq::new((k - 1) as nat, |i: int| '0') + s);
        assert(z + s =~= z);
    } else {
        assert(z + s =~= s);
    }
}

/// A zero-padded number is all digits, at least `width` long, and reads
/// back as the number.
pub proof fn lemma_zero_padded(n: nat, width: nat)
    ensures
        all_digits(zero_padded(n, width)),
        digits_value(zero_padded(n, width)) == n,
        zero_padded(n, width).len() >= width,
        zero_padded(n, width).len() >= 1,
        nat_digits(n).len() <= width ==> zero_padded(n, width).len() == width,
{
    lemma_nat_digits_value(n);
    let d = nat_digits(n);
    if d.len() < width {
        lemma_leading_zeros((width - d.len()) as nat, d);
    }
}

/// Parses a decimal integer as `str::parse::<i64>` does.
pub fn parse_i64(text: &str) -> (r: Option<i64>)
    ensures
        r == parsed_i64(text@),
{
    let s = chars_of(text);
    if s.len() == 0 {
        return None;
    }
    let signed = s[0] == '-' || s[0] == '+';
    let from: usize = if signed {
        1
    } else {
        0
    };
    assert(from == 0 ==> s@.skip(0) =~= s@);
    if from == s.len() {
        return None;
    }
    if s[0] == '-' {
        match digits_up_to(&s, from, 0x8000_0000_0000_0000) {
            Some(v) => Some((0 - (v as i128)) as i64),
            None => None,
        }
    } else {
        match digits_up_to(&s, from, 0x7fff_ffff_ffff_ffff) {
            Some(v) => Some(v as i64),
            None => None,
        }
    }
}

// ---------------------------------------------------------------------------
// Words
// ---------------------------------------------------------------------------

/// The pieces of `s` between whitespace characters, empty ones included.
pub open spec fn split_ws_seq(s: Seq<char>) -> Seq<Seq<char>>
    decreases s.len(),
{
    if s.len() == 0 {
        seq![Seq::<char>::empty()]
    } else {
        let r = split_ws_seq(s.drop_last());
        if is_ws(s.last()) {
            r.push(Seq::<char>::empty())
        } else {
            r.update(r.len() - 1, r.last().push(s.last()))
        }
    }
}

/// The words of `s`, as `str::split_whitespace` yields them.
pub open spec fn words_seq(s: Seq<char>) -> Seq<Seq<char>> {
    nonempty_parts(split_ws_seq(s))
}

proof fn lemma_split_ws_nonempty(s: Seq<char>)
    ensures
        split_ws_seq(s).len() >= 1,
    decreases s.len(),
{
    if s.len() > 0 {
        lemma_split_ws_nonempty(s.drop_last());
    }
}

/// The words of `s`.
pub fn words_of(s: &[char]) -> (r: Vec<Vec<char>>)
    ensures
        parts_view(r@) == words_seq(s@),
{
    let mut done: Vec<Vec<char>> = Vec::new();
    let mut cur: Vec<char> = Vec::new();
    let mut i: usize = 0;
    assert(s@.take(0) =~= Seq::<char>::empty());
    while i < s.len()
        invariant
            i <= s.len(),
            done@.len() + 1 == split_ws_seq(s@.take(i as int)).len(),
            forall|k: int|
                0 <= k < done@.len() ==> #[trigger] done@[k]@ == split_ws_seq(s@.take(i as int))[k],
            cur@ == split_ws_seq(s@.take(i as int)).last(),
        decreases s.len() - i,
    {
        proof {
            assert(s@.take(i + 1).drop_last() =~= s@.take(i as int));
            lemma_split_ws_nonempty(s@.take(i as int));
        }
        if is_ws_char(s[i]) {
            done.push(cur);
            cur = Vec::new();
        } else {
            cur.push(s[i]);
        }
        i += 1;
    }
    done.push(cur);
    assert(s@.take(s.len() as int) =~= s@);
    assert(parts_view(done@) =~= split_ws_seq(s@));
    nonempty_parts_exec(&done)
}

// ---------------------------------------------------------------------------
// Searching
// ---------------------------------------------------------------------------

/// The first position at or after `from` where `p` occurs in `s`.
pub open spec fn find_spec(s: Seq<char>, p: Seq<char>, from: int) -> Option<int>
    decreases s.len() - from + 1,
{
    if from < 0 || from > s.len() {
        None
    } else if occurs_at(s, p, from) {
        Some(from)
    } else {
        find_spec(s, p, from + 1)
    }
}

/// What `find_spec` finds is an occurrence at or after `from`, with none
/// before it; where it finds none there is none.
pub proof fn lemma_find_spec(s: Seq<char>, p: Seq<char>, from: int)
    requires
        0 <= from,
    ensures
        match find_spec(s, p, from) {
            Some(i) => from <= i && occurs_at(s, p, i) && i + p.len() <= s.len() && forall|j: int|
                from <= j < i ==> !occurs_at(s, p, j),
            None => forall|j: int| from <= j ==> !occurs_at(s, p, j),
        },
    decreases s.len() - from + 1,
{
    if from <= s.len() && !occurs_at(s, p, from) {
        lemma_find_spec(s, p, from + 1);
    }
}

/// The first position at or after `from` where `p` occurs in `s`, as
/// `find_spec` says.
pub fn find_at_or_after(s: &[char], p: &[char], from: usize) -> (r: Option<usize>)
    ensures
        match r {
            Some(i) => find_spec(s@, p@, from as int) == Some(i as int),
            None => find_spec(s@, p@, from as int) is None,
        },
{
    proof {
        lemma_find_spec(s@, p@, from as int);
    }
    let r = find_from(s, p, from);
    proof {
        match r {
            Some(i) => {
                match find_spec(s@, p@, from as int) {
                    Some(k) => {
                        if k < i {
                            assert(!occurs_at(s@, p@, k));
                        }
                        if i < k {
                            assert(!occurs_at(s@, p@, i as int));
                        }
                    },
                    None => {
                        assert(!occurs_at(s@, p@, i as int));
                    },
                }
            },
            None => {
                match find_spec(s@, p@, from as int) {
                    Some(k) => {
                        assert(!occurs_at(s@, p@, k));
                    },
                    None => {},
                }
            },
        }
    }
    r
}

pub proof fn lemma_split_no_sep(t: Seq<char>, sep: char)
    requires
        !t.contains(sep),
    ensures
        split_seq(t, sep) == seq![t],
    decreases t.len(),
{
    if t.len() > 0 {
        lemma_split_no_sep(t.drop_last(), sep);
        assert(t.drop_last().push(t.last()) =~= t);
    } else {
        assert(t =~= Seq::<char>::empty());
    }
}

pub proof fn lemma_split_after_sep(s: Seq<char>, t: Seq<char>, sep: char)
    requires
        !t.contains(sep),
    ensures
        split_seq(s + seq![sep] + t, sep) == split_seq(s, sep).push(t),
    decreases t.len(),
{
    if t.len() == 0 {
        assert((s + seq![sep] + t).drop_last() =~= s);
        assert(t =~= Seq::<char>::empty());
    } else {
        lemma_split_after_sep(s, t.drop_last(), sep);
        assert((s + seq![sep] + t).drop_last() =~= s + seq![sep] + t.drop_last());
        assert(t.drop_last().push(t.last()) =~= t);
        lemma_split_nonempty(s, sep);
    }
}

/// Trimmed text neither starts nor ends with whitespace.
pub proof fn lemma_trim_shape(s: Seq<char>)
    ensures
        trim_seq(s).len() == 0 || (!is_ws(trim_seq(s)[0]) && !is_ws(trim_seq(s).last())),
{
    lemma_trim_start_shape(s);
    let a = trim_start_seq(s);
    lemma_trim_end_shape(a);
}

proof fn lemma_trim_start_shape(s: Seq<char>)
    ensures
        trim_start_seq(s).len() == 0 || !is_ws(trim_start_seq(s)[0]),
    decreases s.len(),
{
    if s.len() > 0 && is_ws(s[0]) {
        lemma_trim_start_shape(s.drop_first());
    }
}

proof fn lemma_trim_end_shape(s: Seq<char>)
    ensures
        trim_end_seq(s).len() == 0 || !is_ws(trim_end_seq(s).last()),
        trim_end_seq(s).len() == 0 || trim_end_seq(s)[0] == s[0],
    decreases s.len(),
{
    if s.len() > 0 && is_ws(s.last()) {
        lemma_trim_end_shape(s.drop_last());
    }
}

/// Text that neither starts nor ends with whitespace is its own trim.
pub proof fn lemma_trim_fixed(s: Seq<char>)
    requires
        s.len() == 0 || (!is_ws(s[0]) && !is_ws(s.last())),
    ensures
        trim_seq(s) == s,
{
}

/// ASCII lower-casing keeps whether a character is whitespace, and does
/// nothing the second time.
pub proof fn lemma_lower_keeps(s: Seq<char>)
    ensures
        lower_seq(s).len() == s.len(),
        forall|i: int| 0 <= i < s.len() ==> is_ws(#[trigger] lower_seq(s)[i]) == is_ws(s[i]),
        lower_seq(lower_seq(s)) == lower_seq(s),
{
    assert forall|i: int| 0 <= i < s.len() implies is_ws(#[trigger] lower_seq(s)[i]) == is_ws(s[i]) by {
        let c = s[i];
        if is_upper_ascii(c) {
            assert(((c as u32) + 32) as char as u32 == (c as u32) + 32);
        }
    }
    assert forall|i: int| 0 <= i < s.len() implies #[trigger] lower_seq(lower_seq(s))[i] == lower_seq(s)[i] by {
        let c = s[i];
        if is_upper_ascii(c) {
            assert(((c as u32) + 32) as char as u32 == (c as u32) + 32);
        }
    }
    assert(lower_seq(lower_seq(s)) =~= lower_seq(s));
}

pub proof fn lemma_piece_lacks_sep(s: Seq<char>, sep: char, k: int)
    requires
        0 <= k < split_seq(s, sep).len(),
    ensures
        !split_seq(s, sep)[k].contains(sep),
    decreases s.len(),
{
    if s.len() > 0 {
        let r = split_seq(s.drop_last(), sep);
        lemma_split_nonempty(s.drop_last(), sep);
        if s.last() == sep {
            if k < r.len() {
                lemma_piece_lacks_sep(s.drop_last(), sep, k);
            } else {
                assert(split_seq(s, sep)[k] =~= Seq::<char>::empty());
            }
        } else {
            lemma_piece_lacks_sep(s.drop_last(), sep, k);
            if k == r.len() - 1 {
                lemma_piece_lacks_sep(s.drop_last(), sep, r.len() - 1);
                let p = r.last().push(s.last());
                assert(split_seq(s, sep)[k] == p);
                if p.contains(sep) {
                    let i = choose|i: int| 0 <= i < p.len() && p[i] == sep;
                    assert(r.last()[i] == sep);
                }
            }
        }
    }
}

/// The characters of the pieces of `s` are characters of `s` other than
/// the separator.
pub proof fn lemma_split_pieces_chars(s: Seq<char>, sep: char, q: spec_fn(char) -> bool)
    requires
        forall|j: int| 0 <= j < s.len() && s[j] != sep ==> q(#[trigger] s[j]),
    ensures
        forall|k: int, i: int|
            0 <= k < split_seq(s, sep).len() && 0 <= i < split_seq(s, sep)[k].len() ==> q(
                #[trigger] split_seq(s, sep)[k][i],
            ),
    decreases s.len(),
{
    if s.len() > 0 {
        let init = s.drop_last();
        assert forall|j: int| 0 <= j < init.len() && init[j] != sep implies q(#[trigger] init[j]) by {
            assert(init[j] == s[j]);
        }
        lemma_split_pieces_chars(init, sep, q);
        lemma_split_nonempty(init, sep);
        let r = split_seq(init, sep);
        if s.last() != sep {
            assert(q(s[s.len() - 1]));
            assert forall|k: int, i: int|
                0 <= k < split_seq(s, sep).len() && 0 <= i < split_seq(s, sep)[k].len() implies q(
                    #[trigger] split_seq(s, sep)[k][i],
                ) by {
                if k == r.len() - 1 {
                    if i < r.last().len() {
                        assert(split_seq(s, sep)[k][i] == r[k][i]);
                    }
                } else {
                    assert(split_seq(s, sep)[k] == r[k]);
                }
            }
        } else {
            assert forall|k: int, i: int|
                0 <= k < split_seq(s, sep).len() && 0 <= i < split_seq(s, sep)[k].len() implies q(
                    #[trigger] split_seq(s, sep)[k][i],
                ) by {
                if k < r.len() {
                    assert(split_seq(s, sep)[k] == r[k]);
                }
            }
        }
    }
}

/// The parts kept are parts of the input, none of them empty.
pub proof fn lemma_nonempty_parts_from(parts: Seq<Seq<char>>)
    ensures
        forall|k: int|
            0 <= k < nonempty_parts(parts).len() ==> #[trigger] nonempty_parts(parts)[k].len() > 0
                && exists|j: int| 0 <= j < parts.len() && parts[j] == nonempty_parts(parts)[k],
        (forall|j: int| 0 <= j < parts.len() ==> #[trigger] parts[j].len() > 0) ==> nonempty_parts(
            parts,
        ) == parts,
    decreases parts.len(),
{
    if parts.len() > 0 {
        let init = parts.drop_last();
        lemma_nonempty_parts_from(init);
        let before = nonempty_parts(init);
        assert forall|k: int| 0 <= k < nonempty_parts(parts).len() implies #[trigger] nonempty_parts(
            parts,
        )[k].len() > 0 && exists|j: int| 0 <= j < parts.len() && parts[j] == nonempty_parts(parts)[k] by {
            if k < before.len() {
                assert(nonempty_parts(parts)[k] == before[k]);
                let j = choose|j: int| 0 <= j < init.len() && init[j] == before[k];
                assert(parts[j] == init[j]);
            } else {
                assert(parts[parts.len() - 1] == nonempty_parts(parts)[k]);
            }
        }
        if forall|j: int| 0 <= j < parts.len() ==> #[trigger] parts[j].len() > 0 {
            assert forall|j: int| 0 <= j < init.len() implies #[trigger] init[j].len() > 0 by {
                assert(init[j] == parts[j]);
            }
            assert(parts[parts.len() - 1].len() > 0);
            assert(init.push(parts.last()) =~= parts);
        }
    }
}

/// The characters of parts joined with a separator are the parts'
/// characters and the separator's.
pub proof fn lemma_join_chars(parts: Seq<Seq<char>>, sep: Seq<char>, q: spec_fn(char) -> bool)
    requires
        forall|k: int, i: int| 0 <= k < parts.len() && 0 <= i < parts[k].len() ==> q(#[trigger] parts[k][i]),
        forall|i: int| 0 <= i < sep.len() ==> q(#[trigger] sep[i]),
    ensures
        forall|i: int| 0 <= i < join_seq(parts, sep).len() ==> q(#[trigger] join_seq(parts, sep)[i]),
    decreases parts.len(),
{
    if parts.len() > 1 {
        let init = parts.drop_last();
        assert forall|k: int, i: int| 0 <= k < init.len() && 0 <= i < init[k].len() implies q(
            #[trigger] init[k][i],
        ) by {
            assert(init[k] == parts[k]);
        }
        lemma_join_chars(init, sep, q);
        let a = join_seq(init, sep);
        let last = parts.last();
        assert forall|i: int| 0 <= i < join_seq(parts, sep).len() implies q(
            #[trigger] join_seq(parts, sep)[i],
        ) by {
            if i < a.len() {
                assert(join_seq(parts, sep)[i] == a[i]);
            } else if i < a.len() + sep.len() {
                assert(join_seq(parts, sep)[i] == sep[i - a.len()]);
            } else {
                assert(join_seq(parts, sep)[i] == last[i - a.len() - sep.len()]);
                assert(q(parts[parts.len() - 1][i - a.len() - sep.len()]));
            }
        }
    } else if parts.len() == 1 {
        assert forall|i: int| 0 <= i < join_seq(parts, sep).len() implies q(
            #[trigger] join_seq(parts, sep)[i],
        ) by {
            assert(q(parts[0][i]));
        }
    }
}

/// Parts without the separator, joined with it and split at it again, are
/// the same parts.
pub proof fn lemma_split_join(parts: Seq<Seq<char>>, sep: char)
    requires
        parts.len() >= 1,
        forall|k: int| 0 <= k < parts.len() ==> !(#[trigger] parts[k]).contains(sep),
    ensures
        split_seq(join_seq(parts, seq![sep]), sep) == parts,
    decreases parts.len(),
{
    if parts.len() == 1 {
        lemma_split_no_sep(parts[0], sep);
        assert(seq![parts[0]] =~= parts);
    } else {
        let init = parts.drop_last();
        assert forall|k: int| 0 <= k < init.len() implies !(#[trigger] init[k]).contains(sep) by {
            assert(init[k] == parts[k]);
        }
        lemma_split_join(init, sep);
        assert(!parts[parts.len() - 1].contains(sep));
        lemma_split_after_sep(join_seq(init, seq![sep]), parts.last(), sep);
        assert(init.push(parts.last()) =~= parts);
    }
}

} // verus!

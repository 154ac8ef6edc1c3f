//! Small text utilities shared by the other modules: decimal rendering of
//! integers, byte-level searching in UTF-8 text, and UTF-8 decoding.

use vstd::prelude::*;
use vstd::utf8::*;

verus! {

/// The ASCII digit character for `d` (0..=9).
pub open spec fn digit_char(d: nat) -> char {
    (d + 48) as char
}

/// Decimal rendering of a natural number, most significant digit first,
/// without leading zeros (`0` renders as `"0"`).
pub open spec fn nat_decimal(n: nat) -> Seq<char>
    decreases n,
{
    if n < 10 {
        seq![digit_char(n)]
    } else {
        nat_decimal(n / 10).push(digit_char(n % 10))
    }
}

/// Decimal rendering of an integer: a leading `-` for negative values.
pub open spec fn int_decimal(i: int) -> Seq<char> {
    if i < 0 {
        seq!['-'] + nat_decimal((-i) as nat)
    } else {
        nat_decimal(i as nat)
    }
}

/// Appends one character to a `String` (`String::push`).
#[verifier::external_body]
pub(crate) fn push_char(s: &mut String, c: char)
    ensures
        final(s)@ == old(s)@.push(c),
{
    s.push(c);
}

fn digit(d: u64) -> (c: char)
    requires
        d < 10,
    ensures
        c == digit_char(d as nat),
{
    let b: u8 = 48u8 + (d as u8);
    b as char
}

/// Appends the decimal rendering of `n`.
pub fn append_decimal(s: &mut String, n: u64)
    ensures
        final(s)@ == old(s)@ + nat_decimal(n as nat),
    decreases n,
{
    if n >= 10 {
        append_decimal(s, n / 10);
    }
    push_char(s, digit(n % 10));
    proof {
        if n >= 10 {
            assert(nat_decimal(n as nat) == nat_decimal((n / 10) as nat).push(digit_char((n % 10) as nat)));
        }
    }
}

/// Renders an unsigned integer in decimal (`u64::to_string`).
pub fn u64_to_string(n: u64) -> (r: String)
    ensures
        r@ == nat_decimal(n as nat),
{
    let mut s = String::new();
    append_decimal(&mut s, n);
    s
}

/// Renders a signed integer in decimal (`i64::to_string`).
pub fn i64_to_string(n: i64) -> (r: String)
    ensures
        r@ == int_decimal(n as int),
{
    let mut s = String::new();
    if n < 0 {
        push_char(&mut s, '-');
        let m: u64 = (0i128 - (n as i128)) as u64;
        append_decimal(&mut s, m);
    } else {
        append_decimal(&mut s, n as u64);
    }
    s
}

/// Decodes bytes as UTF-8 (`String::from_utf8`): `None` exactly when the
/// bytes are not valid UTF-8, otherwise the decoded characters.
#[verifier::external_body]
pub(crate) fn decode_utf8_string(bytes: Vec<u8>) -> (r: Option<String>)
    ensures
        r is Some <==> valid_utf8(bytes@),
        r matches Some(s) ==> s@ == decode_utf8(bytes@),
{
    String::from_utf8(bytes).ok()
}


/// `s` begins with `p`.
pub open spec fn seq_starts_with(s: Seq<char>, p: Seq<char>) -> bool {
    p.len() <= s.len() && s.subrange(0, p.len() as int) == p
}

/// `s` ends with `p`.
pub open spec fn seq_ends_with(s: Seq<char>, p: Seq<char>) -> bool {
    p.len() <= s.len() && s.subrange(s.len() - p.len(), s.len() as int) == p
}

/// `s` begins with `prefix` (`str::starts_with`).
pub fn starts_with(s: &str, prefix: &str) -> (r: bool)
    ensures
        r == seq_starts_with(s@, prefix@),
{
    let n = s.unicode_len();
    let m = prefix.unicode_len();
    if m > n {
        return false;
    }
    let mut i: usize = 0;
    while i < m
        invariant
            n == s@.len(),
            m == prefix@.len(),
            m <= n,
            i <= m,
            forall|k: int| 0 <= k < i ==> s@[k] == prefix@[k],
        decreases m - i,
    {
        if s.get_char(i) != prefix.get_char(i) {
            assert(s@.subrange(0, m as int)[i as int] != prefix@[i as int]);
            return false;
        }
        i = i + 1;
    }
    assert(s@.subrange(0, m as int) =~= prefix@);
    true
}

/// `s` ends with `suffix` (`str::ends_with`).
pub fn ends_with(s: &str, suffix: &str) -> (r: bool)
    ensures
        r == seq_ends_with(s@, suffix@),
{
    let n = s.unicode_len();
    let m = suffix.unicode_len();
    if m > n {
        return false;
    }
    let off = n - m;
    let mut i: usize = 0;
    while i < m
        invariant
            n == s@.len(),
            m == suffix@.len(),
            m <= n,
            off == n - m,
            i <= m,
            forall|k: int| 0 <= k < i ==> s@[off + k] == suffix@[k],
        decreases m - i,
    {
        if s.get_char(off + i) != suffix.get_char(i) {
            assert(s@.subrange(off as int, n as int)[i as int] != suffix@[i as int]);
            return false;
        }
        i = i + 1;
    }
    assert(s@.subrange(off as int, n as int) =~= suffix@);
    true
}

/// The characters of `s`, in order.
pub fn to_chars(s: &str) -> (v: Vec<char>)
    ensures
        v@ == s@,
{
    let n = s.unicode_len();
    let mut v: Vec<char> = Vec::new();
    let mut i: usize = 0;
    while i < n
        invariant
            n == s@.len(),
            i <= n,
            v@ == s@.subrange(0, i as int),
        decreases n - i,
    {
        v.push(s.get_char(i));
        i = i + 1;
        assert(v@ =~= s@.subrange(0, i as int));
    }
    assert(s@.subrange(0, n as int) =~= s@);
    v
}

/// A `String` holding `chars[from..to]`.
pub fn string_from_chars(chars: &[char], from: usize, to: usize) -> (r: String)
    requires
        from <= to <= chars@.len(),
    ensures
        r@ == chars@.subrange(from as int, to as int),
{
    let mut r = String::new();
    let mut i = from;
    while i < to
        invariant
            from <= i <= to <= chars@.len(),
            r@ == chars@.subrange(from as int, i as int),
        decreases to - i,
    {
        push_char(&mut r, chars[i]);
        i = i + 1;
        assert(r@ =~= chars@.subrange(from as int, i as int));
    }
    r
}

/// ASCII lower-casing of one character; other characters are unchanged.
pub open spec fn ascii_lower(c: char) -> char {
    if 'A' <= c <= 'Z' {
        ((c as u32) + 32) as char
    } else {
        c
    }
}

/// `char::to_ascii_lowercase`.
pub fn to_ascii_lower(c: char) -> (r: char)
    ensures
        r == ascii_lower(c),
{
    if c >= 'A' && c <= 'Z' {
        let b: u8 = (c as u8) + 32;
        b as char
    } else {
        c
    }
}

/// Equality up to ASCII case (`str::eq_ignore_ascii_case`).
pub open spec fn eq_ignore_ascii_case(a: Seq<char>, b: Seq<char>) -> bool {
    a.len() == b.len() && forall|i: int| 0 <= i < a.len() ==> ascii_lower(a[i]) == ascii_lower(b[i])
}

/// `str::eq_ignore_ascii_case`.
pub fn eq_ignore_case(a: &str, b: &str) -> (r: bool)
    ensures
        r == eq_ignore_ascii_case(a@, b@),
{
    let n = a.unicode_len();
    if n != b.unicode_len() {
        return false;
    }
    let mut i: usize = 0;
    while i < n
        invariant
            n == a@.len(),
            n == b@.len(),
            i <= n,
            forall|k: int| 0 <= k < i ==> ascii_lower(a@[k]) == ascii_lower(b@[k]),
        decreases n - i,
    {
        if to_ascii_lower(a.get_char(i)) != to_ascii_lower(b.get_char(i)) {
            return false;
        }
        i = i + 1;
    }
    true
}

/// An ASCII decimal digit.
pub open spec fn is_digit(c: char) -> bool {
    '0' <= c <= '9'
}

/// The value of a run of ASCII digits.
pub open spec fn digits_value(d: Seq<char>) -> nat
    decreases d.len(),
{
    if d.len() == 0 {
        0
    } else {
        digits_value(d.drop_last()) * 10 + ((d.last() as u32) - 48) as nat
    }
}

/// The longest prefix of `s` made of ASCII digits.
pub open spec fn leading_digits(s: Seq<char>) -> Seq<char>
    decreases s.len(),
{
    if s.len() == 0 || !is_digit(s[0]) {
        seq![]
    } else {
        seq![s[0]] + leading_digits(s.drop_first())
    }
}

/// Parsing a run of ASCII digits as a `u64` (`str::parse::<u64>` on such a
/// run): `None` for an empty run or a value above `u64::MAX`.
pub open spec fn spec_parse_u64(d: Seq<char>) -> Option<u64> {
    if d.len() == 0 || digits_value(d) > u64::MAX {
        None
    } else {
        Some(digits_value(d) as u64)
    }
}

proof fn lemma_digits_value_monotone(d: Seq<char>, i: int)
    requires
        0 <= i <= d.len(),
        forall|k: int| 0 <= k < d.len() ==> is_digit(#[trigger] d[k]),
    ensures
        digits_value(d.subrange(0, i)) <= digits_value(d),
    decreases d.len() - i,
{
    if i < d.len() {
        lemma_digits_value_monotone(d, i + 1);
        assert(d.subrange(0, i + 1).drop_last() =~= d.subrange(0, i));
    } else {
        assert(d.subrange(0, i) =~= d);
    }
}

/// Parses `d[from..to]`, a run of ASCII digits, as a `u64` (see
/// [`spec_parse_u64`]).
pub fn parse_u64_digits(d: &[char], from: usize, to: usize) -> (r: Option<u64>)
    requires
        from <= to <= d@.len(),
        forall|k: int| from <= k < to ==> is_digit(#[trigger] d@[k]),
    ensures
        r == spec_parse_u64(d@.subrange(from as int, to as int)),
{
    let ghost run = d@.subrange(from as int, to as int);
    if from == to {
        return None;
    }
    let mut acc: u64 = 0;
    let mut i = from;
    while i < to
        invariant
            from <= i <= to <= d@.len(),
            run == d@.subrange(from as int, to as int),
            forall|k: int| from <= k < to ==> is_digit(#[trigger] d@[k]),
            acc == digits_value(run.subrange(0, i - from)),
        decreases to - i,
    {
        let c = d[i];
        let v: u64 = (c as u32 - 48) as u64;
        assert(run.subrange(0, i - from + 1).drop_last() =~= run.subrange(0, i - from));
        if acc > (u64::MAX - v) / 10 {
            proof {
                lemma_digits_value_monotone(run, i - from + 1);
            }
            return None;
        }
        acc = acc * 10 + v;
        i = i + 1;
    }
    assert(run.subrange(0, to - from) =~= run);
    Some(acc)
}

/// `p` occurs at position `i` of `s` once `s` is ASCII-lower-cased.
pub open spec fn lower_match_at(s: Seq<char>, p: Seq<char>, i: int) -> bool {
    0 <= i && i + p.len() <= s.len() && forall|k: int| 0 <= k < p.len() ==> #[trigger] ascii_lower(s[i + k]) == p[k]
}

/// `p` occurs in `s` once `s` is ASCII-lower-cased (`p` is lower case).
pub open spec fn lower_contains(s: Seq<char>, p: Seq<char>) -> bool {
    exists|i: int| #[trigger] lower_match_at(s, p, i)
}

/// Whether `p` occurs in `s` ignoring ASCII case (see [`lower_contains`]).
pub fn contains_lowercase(s: &[char], p: &[char]) -> (r: bool)
    ensures
        r == lower_contains(s@, p@),
{
    let n = s.len();
    let m = p.len();
    if m > n {
        assert(!lower_contains(s@, p@));
        return false;
    }
    let mut i: usize = 0;
    while i <= n - m
        invariant
            n == s@.len(),
            m == p@.len(),
            m <= n,
            i <= n - m + 1,
            forall|j: int| 0 <= j < i ==> !#[trigger] lower_match_at(s@, p@, j),
        decreases n - m + 1 - i,
    {
        let mut k: usize = 0;
        let mut same = true;
        while k < m
            invariant
                n == s@.len(),
                m == p@.len(),
                i + m <= n,
                k <= m,
                same == (forall|t: int| 0 <= t < k ==> #[trigger] ascii_lower(s@[i + t]) == p@[t]),
            decreases m - k,
        {
            if to_ascii_lower(s[i + k]) != p[k] {
                same = false;
            }
            k = k + 1;
        }
        if same {
            assert(lower_match_at(s@, p@, i as int));
            return true;
        }
        i = i + 1;
    }
    assert forall|j: int| #[trigger] lower_match_at(s@, p@, j) implies false by {
        assert(j < i);
    }
    false
}

/// Index of the last occurrence of `c` in `s`.
pub open spec fn last_index_of(s: Seq<char>, c: char) -> Option<int>
    decreases s.len(),
{
    if s.len() == 0 {
        None
    } else if s.last() == c {
        Some(s.len() - 1)
    } else {
        last_index_of(s.drop_last(), c)
    }
}

/// Index of the last occurrence of `c` (`str::rfind` on one character).
pub fn rfind_char(s: &[char], c: char) -> (r: Option<usize>)
    ensures
        r matches Some(i) ==> i < s@.len() && last_index_of(s@, c) == Some(i as int),
        r is None ==> last_index_of(s@, c) is None,
{
    let mut i = s.len();
    assert(s@.subrange(0, i as int) =~= s@);
    while i > 0
        invariant
            i <= s@.len(),
            last_index_of(s@, c) == last_index_of(s@.subrange(0, i as int), c),
        decreases i,
    {
        assert(s@.subrange(0, i as int).drop_last() =~= s@.subrange(0, i - 1));
        if s[i - 1] == c {
            return Some(i - 1);
        }
        i = i - 1;
    }
    None
}

/// Index of the first occurrence of `c`.
pub open spec fn first_index_of(s: Seq<char>, c: char) -> Option<int>
    decreases s.len(),
{
    if s.len() == 0 {
        None
    } else if s[0] == c {
        Some(0)
    } else {
        match first_index_of(s.drop_first(), c) {
            Some(i) => Some(i + 1),
            None => None,
        }
    }
}

proof fn lemma_first_index_of_step(s: Seq<char>, c: char, i: int)
    requires
        0 <= i < s.len(),
        forall|k: int| 0 <= k < i ==> s[k] != c,
    ensures
        first_index_of(s, c) == (if s[i] == c {
            Some(i)
        } else {
            match first_index_of(s.subrange(i + 1, s.len() as int), c) {
                Some(j) => Some(j + i + 1),
                None => None,
            }
        }),
    decreases i,
{
    if i > 0 {
        lemma_first_index_of_step(s.drop_first(), c, i - 1);
        assert(s.drop_first().subrange(i, s.len() - 1) =~= s.subrange(i + 1, s.len() as int));
    } else {
        assert(s.drop_first() =~= s.subrange(1, s.len() as int));
    }
}

/// Index of the first occurrence of `c` (`str::find` on one character).
pub fn find_char(s: &[char], c: char) -> (r: Option<usize>)
    ensures
        r matches Some(i) ==> i < s@.len() && first_index_of(s@, c) == Some(i as int),
        r is None ==> first_index_of(s@, c) is None,
{
    let mut i: usize = 0;
    while i < s.len()
        invariant
            i <= s@.len(),
            forall|k: int| 0 <= k < i ==> s@[k] != c,
        decreases s@.len() - i,
    {
        proof {
            lemma_first_index_of_step(s@, c, i as int);
        }
        if s[i] == c {
            return Some(i);
        }
        i = i + 1;
    }
    proof {
        lemma_first_index_of_absent(s@, c);
    }
    None
}

proof fn lemma_first_index_of_absent(s: Seq<char>, c: char)
    requires
        forall|k: int| 0 <= k < s.len() ==> s[k] != c,
    ensures
        first_index_of(s, c) is None,
    decreases s.len(),
{
    if s.len() > 0 {
        lemma_first_index_of_absent(s.drop_first(), c);
    }
}

/// The leading digits of `s[a..]` end at `j`, the first non-digit at or
/// after `a`.
pub proof fn lemma_leading_digits(s: Seq<char>, a: int, j: int)
    requires
        0 <= a <= j <= s.len(),
        forall|k: int| a <= k < j ==> is_digit(#[trigger] s[k]),
        j == s.len() || !is_digit(s[j]),
    ensures
        leading_digits(s.subrange(a, s.len() as int)) == s.subrange(a, j),
    decreases j - a,
{
    let t = s.subrange(a, s.len() as int);
    if a < j {
        lemma_leading_digits(s, a + 1, j);
        assert(t.drop_first() =~= s.subrange(a + 1, s.len() as int));
        assert(seq![t[0]] + s.subrange(a + 1, j) =~= s.subrange(a, j));
    } else {
        assert(s.subrange(a, j) =~= Seq::<char>::empty());
    }
}

/// End of the run of ASCII digits starting at `from`.
pub fn digits_end(s: &[char], from: usize) -> (j: usize)
    requires
        from <= s@.len(),
    ensures
        from <= j <= s@.len(),
        forall|k: int| from <= k < j ==> is_digit(#[trigger] s@[k]),
        j == s@.len() || !is_digit(s@[j as int]),
{
    let mut j = from;
    while j < s.len() && s[j] >= '0' && s[j] <= '9'
        invariant
            from <= j <= s@.len(),
            forall|k: int| from <= k < j ==> is_digit(#[trigger] s@[k]),
        decreases s@.len() - j,
    {
        j = j + 1;
    }
    j
}

/// `p` occurs at position `i` of `s`.
pub open spec fn match_at(s: Seq<char>, p: Seq<char>, i: int) -> bool {
    0 <= i && i + p.len() <= s.len() && s.subrange(i, i + p.len()) == p
}

/// `i` is the first position at which `p` occurs in `s`.
pub open spec fn first_match(s: Seq<char>, p: Seq<char>, i: int) -> bool {
    match_at(s, p, i) && forall|j: int| 0 <= j < i ==> !#[trigger] match_at(s, p, j)
}

/// Index of the first occurrence of `p` in `s` (`str::find` with a string
/// pattern).
pub open spec fn find_sub(s: Seq<char>, p: Seq<char>) -> Option<int> {
    if exists|i: int| #[trigger] match_at(s, p, i) {
        Some(choose|i: int| #[trigger] first_match(s, p, i))
    } else {
        None
    }
}

/// The first occurrence is unique.
proof fn lemma_first_match_unique(s: Seq<char>, p: Seq<char>, i: int)
    requires
        first_match(s, p, i),
    ensures
        find_sub(s, p) == Some(i),
{
    assert(match_at(s, p, i));
    let c = choose|c: int| #[trigger] first_match(s, p, c);
    assert(first_match(s, p, c));
    if c < i {
        assert(!match_at(s, p, c));
    } else if c > i {
        assert(!match_at(s, p, i));
    }
}

/// Index of the first occurrence of `p` in `s` (see [`find_sub`]).
pub fn find_str(s: &[char], p: &[char]) -> (r: Option<usize>)
    ensures
        match r {
            Some(i) => find_sub(s@, p@) == Some(i as int) && i + p@.len() <= s@.len(),
            None => find_sub(s@, p@) is None,
        },
{
    let n = s.len();
    let m = p.len();
    if m > n {
        assert forall|j: int| #[trigger] match_at(s@, p@, j) implies false by {}
        return None;
    }
    let mut i: usize = 0;
    while i <= n - m
        invariant
            n == s@.len(),
            m == p@.len(),
            m <= n,
            i <= n - m + 1,
            forall|j: int| 0 <= j < i ==> !#[trigger] match_at(s@, p@, j),
        decreases n - m + 1 - i,
    {
        let mut k: usize = 0;
        let mut same = true;
        while k < m
            invariant
                n == s@.len(),
                m == p@.len(),
                i + m <= n,
                k <= m,
                same == (forall|t: int| 0 <= t < k ==> #[trigger] s@[i + t] == p@[t]),
            decreases m - k,
        {
            if s[i + k] != p[k] {
                same = false;
            }
            k = k + 1;
        }
        if same {
            assert forall|t: int| 0 <= t < m implies #[trigger] s@.subrange(i as int, i + m)[t] == p@[t] by {
                assert(s@[i + t] == p@[t]);
            }
            assert(s@.subrange(i as int, i + m) =~= p@);
            proof {
                lemma_first_match_unique(s@, p@, i as int);
            }
            return Some(i);
        }
        assert(!match_at(s@, p@, i as int)) by {
            if match_at(s@, p@, i as int) {
                assert forall|t: int| 0 <= t < m implies #[trigger] s@[i + t] == p@[t] by {
                    assert(s@.subrange(i as int, i + m)[t] == s@[i + t]);
                }
            }
        }
        i = i + 1;
    }
    assert forall|j: int| #[trigger] match_at(s@, p@, j) implies false by {
        assert(j < i);
    }
    None
}


/// The texts of a list of strings.
pub open spec fn strings_view(v: Seq<String>) -> Seq<Seq<char>> {
    v.map_values(|s: String| s@)
}

/// Whether some string of `v` has the text of `s`.
pub fn contains_text(v: &Vec<String>, s: &str) -> (r: bool)
    ensures
        r == strings_view(v@).contains(s@),
{
    let target = String::from_str(s);
    let mut k: usize = 0;
    while k < v.len()
        invariant
            k <= v@.len(),
            target@ == s@,
            forall|j: int| 0 <= j < k ==> v@[j]@ != s@,
        decreases v@.len() - k,
    {
        if v[k] == target {
            assert(strings_view(v@)[k as int] == s@);
            return true;
        }
        k = k + 1;
    }
    assert(!strings_view(v@).contains(s@)) by {
        if strings_view(v@).contains(s@) {
            let j = choose|j: int| 0 <= j < strings_view(v@).len() && strings_view(v@)[j] == s@;
            assert(v@[j]@ == s@);
        }
    }
    false
}

} // verus!

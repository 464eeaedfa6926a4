//! Text helpers: decimal formatting and parsing of integers, character
//! classification and case folding, and comparison of strings by content.
use vstd::prelude::*;

verus! {

/// Unicode's `White_Space` property (PropList.txt), the set that
/// `char::is_whitespace` tests.
pub open spec fn is_white_space(c: char) -> bool {
    let u = c as u32;
    ||| 0x09 <= u <= 0x0d
    ||| u == 0x20
    ||| u == 0x85
    ||| u == 0xa0
    ||| u == 0x1680
    ||| 0x2000 <= u <= 0x200a
    ||| u == 0x2028
    ||| u == 0x2029
    ||| u == 0x202f
    ||| u == 0x205f
    ||| u == 0x3000
}

/// `char::is_whitespace`: true exactly for the characters with Unicode's
/// `White_Space` property, which std documents as what this function tests.
#[verifier::external_body]
pub fn char_is_whitespace(c: char) -> (r: bool)
    ensures
        r == is_white_space(c),
{
    c.is_whitespace()
}

/// What `str::to_lowercase` returns for a string with these characters.
pub uninterp spec fn lowercase_of(s: Seq<char>) -> Seq<char>;

/// ASCII case folding of one character: `'A'..='Z'` to `'a'..='z'`.
pub open spec fn ascii_lower_char(c: char) -> char {
    if 'A' <= c <= 'Z' {
        ((c as u32) + 32) as char
    } else {
        c
    }
}

/// ASCII case folding of a string, character by character.
pub open spec fn ascii_lower(s: Seq<char>) -> Seq<char> {
    s.map_values(|c: char| ascii_lower_char(c))
}

/// Every character is ASCII.
pub open spec fn all_ascii(s: Seq<char>) -> bool {
    forall|i: int| 0 <= i < s.len() ==> (s[i] as u32) < 128
}

/// `str::to_lowercase`: the Unicode lowercase mapping of the string. The
/// contract names the result; for an all-ASCII string it states the mapping,
/// which Unicode defines there as ASCII case folding character by character.
#[verifier::external_body]
pub fn str_to_lowercase(s: &str) -> (r: String)
    ensures
        r@ == lowercase_of(s@),
        all_ascii(s@) ==> r@ == ascii_lower(s@),
{
    s.to_lowercase()
}

/// The characters of `s`, in order.
pub fn chars_of(s: &str) -> (r: Vec<char>)
    ensures
        r@ == s@,
{
    let n = s.unicode_len();
    let mut out: Vec<char> = Vec::new();
    let mut i: usize = 0;
    while i < n
        invariant
            n == s@.len(),
            i <= n,
            out@ == s@.subrange(0, i as int),
        decreases n - i,
    {
        out.push(s.get_char(i));
        i = i + 1;
    }
    out
}

/// Whether two strings hold the same characters.
pub fn str_eq(a: &str, b: &str) -> (r: bool)
    ensures
        r == (a@ == b@),
{
    let n = a.unicode_len();
    if n != b.unicode_len() {
        return false;
    }
    let mut i: usize = 0;
    while i < n
        invariant
            n == a@.len(),
            n == b@.len(),
            i <= n,
            a@.subrange(0, i as int) == b@.subrange(0, i as int),
        decreases n - i,
    {
        if a.get_char(i) != b.get_char(i) {
            return false;
        }
        assert(a@.subrange(0, i + 1) == a@.subrange(0, i as int).push(a@[i as int]));
        assert(b@.subrange(0, i + 1) == b@.subrange(0, i as int).push(b@[i as int]));
        i = i + 1;
    }
    assert(a@ == a@.subrange(0, n as int));
    assert(b@ == b@.subrange(0, n as int));
    true
}

/// The ASCII digit for `d` in `0..10`.
pub open spec fn digit_char(d: nat) -> char {
    (d + 48) as char
}

/// Whether `c` is an ASCII decimal digit.
pub open spec fn is_digit(c: char) -> bool {
    '0' <= c <= '9'
}

/// Decimal representation of `n`, without leading zeros.
pub open spec fn decimal(n: nat) -> Seq<char>
    decreases n,
{
    if n < 10 {
        seq![digit_char(n)]
    } else {
        decimal(n / 10).push(digit_char(n % 10))
    }
}

/// Decimal representation of a signed integer: a `-` sign, then the digits
/// of its magnitude.
pub open spec fn signed_decimal(n: int) -> Seq<char> {
    if n < 0 {
        seq!['-'] + decimal((-n) as nat)
    } else {
        decimal(n as nat)
    }
}

/// All characters are decimal digits.
pub open spec fn all_digits(s: Seq<char>) -> bool {
    forall|i: int| 0 <= i < s.len() ==> is_digit(#[trigger] s[i])
}

/// The number that a string of decimal digits denotes.
pub open spec fn digits_value(s: Seq<char>) -> nat
    decreases s.len(),
{
    if s.len() == 0 {
        0
    } else {
        digits_value(s.drop_last()) * 10 + ((s.last() as nat) - 48) as nat
    }
}

/// What `str::parse::<u32>` accepts and yields: an optional `+`, then one or
/// more ASCII digits whose value fits in a `u32`.
pub open spec fn parse_u32(s: Seq<char>) -> Option<u32> {
    let d = if s.len() > 0 && s[0] == '+' {
        s.drop_first()
    } else {
        s
    };
    if d.len() > 0 && all_digits(d) && digits_value(d) <= u32::MAX {
        Some(digits_value(d) as u32)
    } else {
        None
    }
}

/// The one-character string for a decimal digit.
fn digit_str(d: u64) -> (r: &'static str)
    requires
        d < 10,
    ensures
        r@ == seq![digit_char(d as nat)],
{
    proof {
        reveal_strlit("0");
        reveal_strlit("1");
        reveal_strlit("2");
        reveal_strlit("3");
        reveal_strlit("4");
        reveal_strlit("5");
        reveal_strlit("6");
        reveal_strlit("7");
        reveal_strlit("8");
        reveal_strlit("9");
    }
    match d {
        0 => "0",
        1 => "1",
        2 => "2",
        3 => "3",
        4 => "4",
        5 => "5",
        6 => "6",
        7 => "7",
        8 => "8",
        _ => "9",
    }
}

/// Appends the decimal representation of `n` to `s`.
pub fn push_decimal(s: &mut String, n: u64)
    ensures
        final(s)@ == old(s)@ + decimal(n as nat),
    decreases n,
{
    if n >= 10 {
        push_decimal(s, n / 10);
    }
    s.append(digit_str(n % 10));
    proof {
        if n >= 10 {
            assert(decimal(n as nat) == decimal((n / 10) as nat).push(digit_char((n % 10) as nat)));
        }
    }
}

/// Appends the decimal representation of a signed `n` to `s`.
pub fn push_signed_decimal(s: &mut String, n: i64)
    ensures
        final(s)@ == old(s)@ + signed_decimal(n as int),
{
    if n < 0 {
        proof {
            reveal_strlit("-");
        }
        s.append("-");
        let m: u64 = (-(n as i128)) as u64;
        push_decimal(s, m);
        assert(final(s)@ == old(s)@ + seq!['-'] + decimal((-n) as nat));
    } else {
        push_decimal(s, n as u64);
    }
}

/// The decimal representation of `n` consists of digits, starts with a
/// non-`+` character, and denotes `n`.
pub proof fn lemma_decimal_digits(n: nat)
    ensures
        decimal(n).len() >= 1,
        all_digits(decimal(n)),
        digits_value(decimal(n)) == n,
        decimal(n)[0] != '+',
    decreases n,
{
    assert(((n % 10) + 48) as char as nat == (n % 10) + 48);
    if n < 10 {
        assert(seq![digit_char(n)].drop_last() == Seq::<char>::empty());
        assert((digit_char(n) as nat) == n + 48);
        assert(digits_value(Seq::<char>::empty()) == 0);
        assert(decimal(n) == seq![digit_char(n)]);
        assert(digits_value(decimal(n)) == n);
    }
    if n >= 10 {
        lemma_decimal_digits(n / 10);
        let p = decimal(n / 10);
        let q = p.push(digit_char(n % 10));
        assert(q.drop_last() == p);
        assert forall|i: int| 0 <= i < q.len() implies is_digit(#[trigger] q[i]) by {
            if i < p.len() {
                assert(q[i] == p[i]);
            }
        }
        assert(q[0] == p[0]);
        assert(q.last() == digit_char(n % 10));
        assert(digit_char(n % 10) as nat == (n % 10) + 48);
        assert(digits_value(q) == digits_value(p) * 10 + (n % 10));
        assert(n == (n / 10) * 10 + n % 10);
    }
}

/// A decimal representation contains no whitespace and none of the given
/// non-digit characters.
pub proof fn lemma_digits_exclude(s: Seq<char>, c: char)
    requires
        all_digits(s),
        !is_digit(c),
    ensures
        !s.contains(c),
        forall|i: int| 0 <= i < s.len() ==> !is_white_space(#[trigger] s[i]),
        all_ascii(s),
{
    assert forall|i: int| 0 <= i < s.len() implies !is_white_space(#[trigger] s[i]) by {
        assert(is_digit(s[i]));
    }
    assert forall|i: int| 0 <= i < s.len() implies (#[trigger] s[i] as u32) < 128 by {
        assert(is_digit(s[i]));
    }
    if s.contains(c) {
        let i = choose|i: int| 0 <= i < s.len() && s[i] == c;
        assert(is_digit(s[i]));
    }
}

/// Parses `s[lo..hi]` as `str::parse::<u32>` does.
pub fn parse_u32_in(s: &Vec<char>, lo: usize, hi: usize) -> (r: Option<u32>)
    requires
        lo <= hi <= s@.len(),
    ensures
        r == parse_u32(s@.subrange(lo as int, hi as int)),
{
    let ghost full = s@.subrange(lo as int, hi as int);
    let mut start = lo;
    if lo < hi && s[lo] == '+' {
        start = lo + 1;
    }
    let ghost d = s@.subrange(start as int, hi as int);
    assert(d == (if full.len() > 0 && full[0] == '+' { full.drop_first() } else { full }));
    if start == hi {
        return None;
    }
    let mut acc: u64 = 0;
    let mut over = false;
    let mut i = start;
    while i < hi
        invariant
            lo <= start <= i <= hi <= s@.len(),
            d == s@.subrange(start as int, hi as int),
            full == s@.subrange(lo as int, hi as int),
            d == (if full.len() > 0 && full[0] == '+' { full.drop_first() } else { full }),
            d.len() > 0,
            all_digits(s@.subrange(start as int, i as int)),
            !over ==> acc == digits_value(s@.subrange(start as int, i as int)),
            over ==> digits_value(s@.subrange(start as int, i as int)) > u32::MAX,
            acc <= u32::MAX,
        decreases hi - i,
    {
        let c = s[i];
        if !('0' <= c && c <= '9') {
            assert(d[i - start] == c);
            assert(!is_digit(d[i - start]));
            assert(!all_digits(d));
            return None;
        }
        let ghost prev = s@.subrange(start as int, i as int);
        let ghost next = s@.subrange(start as int, i + 1);
        assert(next.drop_last() == prev);
        assert(next.last() == c);
        assert forall|k: int| 0 <= k < next.len() implies is_digit(#[trigger] next[k]) by {
            if k < prev.len() {
                assert(next[k] == prev[k]);
            }
        }
        let dv: u64 = (c as u64) - 48;
        if !over {
            let v = acc * 10 + dv;
            if v > 0xffff_ffff {
                over = true;
                acc = 0;
            } else {
                acc = v;
            }
        }
        i = i + 1;
    }
    assert(s@.subrange(start as int, i as int) == d);
    if over {
        None
    } else {
        Some(acc as u32)
    }
}


/// The characters of `s` that are not whitespace, in order.
pub open spec fn strip_whitespace(s: Seq<char>) -> Seq<char> {
    s.filter(|c: char| !is_white_space(c))
}

/// Filtering with a predicate that holds for every element changes nothing.
pub proof fn lemma_filter_keeps_all(s: Seq<char>, pred: spec_fn(char) -> bool)
    requires
        forall|i: int| 0 <= i < s.len() ==> pred(#[trigger] s[i]),
    ensures
        s.filter(pred) == s,
    decreases s.len(),
{
    reveal(Seq::filter);
    if s.len() > 0 {
        assert forall|i: int| 0 <= i < s.drop_last().len() implies pred(#[trigger] s.drop_last()[i]) by {
            assert(s.drop_last()[i] == s[i]);
        }
        lemma_filter_keeps_all(s.drop_last(), pred);
        assert(pred(s.last()));
        assert(s.drop_last().push(s.last()) == s);
    }
}

/// `input` with every whitespace character removed, as
/// `str::replace(char::is_whitespace, "")` does.
pub fn remove_whitespace(input: &str) -> (r: Vec<char>)
    ensures
        r@ == strip_whitespace(input@),
{
    let chars = chars_of(input);
    let ghost pred = |c: char| !is_white_space(c);
    let mut out: Vec<char> = Vec::new();
    let mut i: usize = 0;
    while i < chars.len()
        invariant
            chars@ == input@,
            pred == (|c: char| !is_white_space(c)),
            i <= chars@.len(),
            out@ == chars@.take(i as int).filter(pred),
        decreases chars@.len() - i,
    {
        let c = chars[i];
        proof {
            reveal(Seq::filter);
            assert(chars@.take(i + 1).drop_last() == chars@.take(i as int));
            assert(chars@.take(i + 1).last() == c);
        }
        let keep = !char_is_whitespace(c);
        proof {
            reveal(Seq::filter);
            assert(pred(c) == keep);
            let t = chars@.take(i + 1);
            assert(t.filter(pred) == (if pred(t.last()) {
                t.drop_last().filter(pred).push(t.last())
            } else {
                t.drop_last().filter(pred)
            }));
        }
        if keep {
            out.push(c);
        }
        i = i + 1;
    }
    assert(chars@.take(chars@.len() as int) == chars@);
    out
}

/// `i` is the position of the only occurrence of `d` in `c`.
pub open spec fn is_sole(c: Seq<char>, d: char, i: int) -> bool {
    &&& 0 <= i < c.len()
    &&& c[i] == d
    &&& forall|j: int| 0 <= j < c.len() && j != i ==> c[j] != d
}

/// The two parts around the only occurrence of `d` in `c`, or `None` when
/// `d` occurs zero or several times: what `split(d)` yields when it yields
/// exactly two pieces.
pub open spec fn split_sole(c: Seq<char>, d: char) -> Option<(Seq<char>, Seq<char>)> {
    if exists|i: int| is_sole(c, d, i) {
        let i = choose|i: int| is_sole(c, d, i);
        Some((c.take(i), c.skip(i + 1)))
    } else {
        None
    }
}

/// The position of the only occurrence of `d` in `c`, if it occurs exactly
/// once.
pub fn find_sole(c: &Vec<char>, d: char) -> (r: Option<usize>)
    ensures
        match r {
            Some(i) => is_sole(c@, d, i as int) && split_sole(c@, d) == Some(
                (c@.take(i as int), c@.skip(i + 1)),
            ),
            None => split_sole(c@, d) is None,
        },
{
    let mut first: Option<usize> = None;
    let mut i: usize = 0;
    while i < c.len()
        invariant
            i <= c@.len(),
            match first {
                Some(p) => p < i && c@[p as int] == d && forall|j: int|
                    0 <= j < i && j != p ==> c@[j] != d,
                None => forall|j: int| 0 <= j < i ==> c@[j] != d,
            },
        decreases c@.len() - i,
    {
        if c[i] == d {
            match first {
                Some(p) => {
                    assert(!exists|k: int| is_sole(c@, d, k)) by {
                        if exists|k: int| is_sole(c@, d, k) {
                            let k = choose|k: int| is_sole(c@, d, k);
                            if k != p as int {
                                assert(c@[p as int] != d);
                            } else {
                                assert(c@[i as int] != d);
                            }
                        }
                    }
                    return None;
                },
                None => {
                    first = Some(i);
                },
            }
        }
        i = i + 1;
    }
    match first {
        Some(p) => {
            assert(is_sole(c@, d, p as int));
            assert forall|k: int| is_sole(c@, d, k) implies k == p as int by {
                if k != p as int {
                    assert(c@[p as int] != d);
                }
            }
            Some(p)
        },
        None => {
            assert(!exists|k: int| is_sole(c@, d, k)) by {
                if exists|k: int| is_sole(c@, d, k) {
                    let k = choose|k: int| is_sole(c@, d, k);
                    assert(c@[k] != d);
                }
            }
            None
        },
    }
}


/// The decimal text of a `u32` parses back to it.
pub proof fn lemma_parse_decimal(n: u32)
    ensures
        parse_u32(decimal(n as nat)) == Some(n),
        all_digits(decimal(n as nat)),
{
    lemma_decimal_digits(n as nat);
}

} // verus!

//! Display sizes given either as an aspect ratio (`16:9`) or a resolution
//! (`1920x1080`): parsing, formatting and ratio reduction.
use vstd::prelude::*;
use vstd::arithmetic::div_mod::{
    lemma_fundamental_div_mod,
    lemma_fundamental_div_mod_converse,
    lemma_mod_multiples_basic,
};

use crate::text::{
    all_ascii, all_digits, ascii_lower, decimal, find_sole, is_sole, lemma_decimal_digits, lemma_parse_decimal,
    lemma_filter_keeps_all, lowercase_of, parse_u32, parse_u32_in,
    push_decimal, remove_whitespace, split_sole, str_to_lowercase, strip_whitespace,
    is_white_space, is_digit,
};

verus! {

/// The highest common factor (greatest common divisor), by Euclid's
/// algorithm; `gcd(0, 0) == 0`.
pub open spec fn gcd(a: nat, b: nat) -> nat
    decreases b,
{
    if b == 0 {
        a
    } else {
        gcd(b, a % b)
    }
}

/// `d` divides `n` (for a positive `d`).
pub open spec fn divides(d: nat, n: nat) -> bool {
    d > 0 && n % d == 0
}

proof fn lemma_divides_intro(d: nat, k: int)
    requires
        d > 0,
        k >= 0,
    ensures
        (k * d) % (d as int) == 0,
        (d * k) % (d as int) == 0,
{
    lemma_mod_multiples_basic(k, d as int);
    assert(d * k == k * d) by (nonlinear_arith);
}

/// The highest common factor of two numbers that are not both zero is
/// positive and divides both.
pub proof fn lemma_gcd_divides(a: nat, b: nat)
    requires
        a > 0 || b > 0,
    ensures
        gcd(a, b) > 0,
        divides(gcd(a, b), a),
        divides(gcd(a, b), b),
    decreases b,
{
    if b == 0 {
        lemma_divides_intro(a, 1);
        lemma_divides_intro(a, 0);
    } else {
        lemma_gcd_divides(b, a % b);
        let g = gcd(b, a % b);
        lemma_fundamental_div_mod(b as int, g as int);
        lemma_fundamental_div_mod((a % b) as int, g as int);
        lemma_fundamental_div_mod(a as int, b as int);
        let kb = b / g;
        let kr = (a % b) / g;
        let q = a / b;
        assert(a == g * (kb * q + kr)) by (nonlinear_arith)
            requires
                b == g * kb,
                a % b == g * kr,
                a == b * q + a % b,
        ;
        assert(kb * q + kr >= 0) by (nonlinear_arith)
            requires
                kb >= 0,
                q >= 0,
                kr >= 0,
        ;
        lemma_divides_intro(g, (kb * q + kr) as int);
    }
}

/// Every common divisor of `a` and `b` divides their highest common factor,
/// so it is indeed the highest.
pub proof fn lemma_gcd_greatest(a: nat, b: nat, d: nat)
    requires
        divides(d, a),
        divides(d, b),
    ensures
        gcd(a, b) % d == 0,
    decreases b,
{
    if b > 0 {
        lemma_fundamental_div_mod(a as int, d as int);
        lemma_fundamental_div_mod(b as int, d as int);
        lemma_fundamental_div_mod(a as int, b as int);
        let ka = a / d;
        let kb = b / d;
        let q = a / b;
        let r = a % b;
        assert(r == d * (ka - kb * q)) by (nonlinear_arith)
            requires
                a == d * ka,
                b == d * kb,
                a == b * q + r,
        ;
        assert(ka - kb * q >= 0) by (nonlinear_arith)
            requires
                r == d * (ka - kb * q),
                r >= 0,
                d > 0,
        ;
        lemma_divides_intro(d, ka - kb * q);
        lemma_gcd_greatest(b, r, d);
    }
}

/// Scaling both arguments scales the highest common factor.
pub proof fn lemma_gcd_scale(k: nat, x: nat, y: nat)
    requires
        k > 0,
    ensures
        gcd(k * x, k * y) == k * gcd(x, y),
    decreases y,
{
    if y == 0 {
        assert(k * y == 0) by (nonlinear_arith)
            requires
                y == 0,
        ;
    } else {
        assert(k * y > 0) by (nonlinear_arith)
            requires
                k > 0,
                y > 0,
        ;
        lemma_fundamental_div_mod(x as int, y as int);
        let q = x / y;
        let r = x % y;
        assert(k * x == (k * y) * q + k * r && 0 <= k * r < k * y) by (nonlinear_arith)
            requires
                x == y * q + r,
                0 <= r < y,
                k > 0,
        ;
        lemma_fundamental_div_mod_converse((k * x) as int, (k * y) as int, q as int, (k * r) as int);
        lemma_gcd_scale(k, y, r);
    }
}

/// Dividing two numbers (not both zero) by their highest common factor
/// leaves numbers whose highest common factor is 1, in the same ratio.
pub proof fn lemma_reduced(a: nat, b: nat)
    requires
        a > 0 || b > 0,
    ensures
        gcd(a, b) > 0,
        gcd(a / gcd(a, b), b / gcd(a, b)) == 1,
        (a / gcd(a, b)) * b == (b / gcd(a, b)) * a,
{
    lemma_gcd_divides(a, b);
    let g = gcd(a, b);
    lemma_fundamental_div_mod(a as int, g as int);
    lemma_fundamental_div_mod(b as int, g as int);
    let x = a / g;
    let y = b / g;
    lemma_gcd_scale(g, x, y);
    assert(gcd(x, y) == 1) by (nonlinear_arith)
        requires
            g * gcd(x, y) == g,
            g > 0,
    ;
    assert(x * b == y * a) by (nonlinear_arith)
        requires
            a == g * x,
            b == g * y,
    ;
}

/// Finds the highest common factor (also known as the greatest common
/// divisor).
pub fn find_hcf(a: u32, b: u32) -> (r: u32)
    ensures
        r == gcd(a as nat, b as nat),
{
    let mut a = a;
    let mut b = b;
    let ghost target = gcd(a as nat, b as nat);
    while b != 0
        invariant
            gcd(a as nat, b as nat) == target,
        decreases b,
    {
        let tmp = b;
        b = a % b;
        a = tmp;
    }
    a
}

/// The text that a width/height pair is parsed from: `input` with whitespace
/// removed must hold `delimiter` exactly once, and the parts on each side must
/// parse as non-zero `u32`s.
pub open spec fn two_non_zero(input: Seq<char>, delimiter: char) -> Option<(u32, u32)> {
    match split_sole(strip_whitespace(input), delimiter) {
        Some((a, b)) => match (parse_u32(a), parse_u32(b)) {
            (Some(w), Some(h)) => if w != 0 && h != 0 {
                Some((w, h))
            } else {
                None
            },
            _ => None,
        },
        None => None,
    }
}

/// Parses two non-zero `u32`s separated by `delimiter`, ignoring whitespace.
pub fn match_two_non_zero_u32(input: &str, delimiter: char) -> (r: Option<(u32, u32)>)
    ensures
        r == two_non_zero(input@, delimiter),
{
    let clean = remove_whitespace(input);
    match find_sole(&clean, delimiter) {
        Some(i) => {
            let n = clean.len();
            assert(clean@.take(i as int) == clean@.subrange(0, i as int));
            assert(clean@.skip(i + 1) == clean@.subrange(i + 1, n as int));
            let w = parse_u32_in(&clean, 0, i);
            let h = parse_u32_in(&clean, i + 1, n);
            match (w, h) {
                (Some(w), Some(h)) => {
                    if w != 0 && h != 0 {
                        Some((w, h))
                    } else {
                        None
                    }
                },
                _ => None,
            }
        },
        None => None,
    }
}

/// A display size given as either an aspect ratio or a resolution.
#[derive(Debug, Clone, Copy)]
pub enum SizeData {
    AspectRatio(AspectRatio),
    Resolution(Resolution),
}

/// An aspect ratio `width:height`, kept in lowest terms.
#[derive(Debug, Clone, Copy)]
pub struct AspectRatio(u32, u32);

/// A resolution `width x height` in pixels.
#[derive(Debug, Clone, Copy)]
pub struct Resolution(u32, u32);

impl View for AspectRatio {
    type V = (u32, u32);

    closed spec fn view(&self) -> (u32, u32) {
        (self.0, self.1)
    }
}

impl View for Resolution {
    type V = (u32, u32);

    closed spec fn view(&self) -> (u32, u32) {
        (self.0, self.1)
    }
}

/// Width and height of a size.
pub open spec fn size_view(s: SizeData) -> (u32, u32) {
    match s {
        SizeData::AspectRatio(r) => r@,
        SizeData::Resolution(r) => r@,
    }
}

/// The text of an aspect ratio: `W:H`.
pub open spec fn aspect_ratio_text(w: u32, h: u32) -> Seq<char> {
    decimal(w as nat) + seq![':'] + decimal(h as nat)
}

/// The text of a resolution: `WxH`.
pub open spec fn resolution_text(w: u32, h: u32) -> Seq<char> {
    decimal(w as nat) + seq!['x'] + decimal(h as nat)
}

/// The message for text that is not an aspect ratio.
pub open spec fn aspect_ratio_error(s: Seq<char>) -> Seq<char> {
    "Invalid aspect ratio '"@ + s
        + "'. Valid format: 'WIDTH:HEIGHT'. Valid range: non-zero positive 32 bit integers"@
}

/// The message for text that is not a resolution.
pub open spec fn resolution_error(s: Seq<char>) -> Seq<char> {
    "Invalid resolution '"@ + s
        + "'. Valid format: 'WIDTHxHEIGHT'. Valid range: non-zero positive 32 bit integers"@
}

/// `(w, h)` reduced by their highest common factor.
pub open spec fn reduce(w: u32, h: u32) -> (u32, u32) {
    let g = gcd(w as nat, h as nat);
    (((w as nat) / g) as u32, ((h as nat) / g) as u32)
}

/// What parsing an aspect ratio yields: the reduced pair, or the message.
pub open spec fn aspect_ratio_parse(s: Seq<char>) -> Result<(u32, u32), Seq<char>> {
    match two_non_zero(s, ':') {
        Some((w, h)) => Ok(reduce(w, h)),
        None => Err(aspect_ratio_error(s)),
    }
}

/// What parsing a resolution yields from the text `s` and its
/// lowercase form `lower`: the pair, or the message about `s`.
pub open spec fn resolution_parse(lower: Seq<char>, s: Seq<char>) -> Result<(u32, u32), Seq<char>> {
    match two_non_zero(lower, 'x') {
        Some(p) => Ok(p),
        None => Err(resolution_error(s)),
    }
}

/// An aspect-ratio parse result as plain values.
pub open spec fn aspect_result_view(r: Result<AspectRatio, String>) -> Result<(u32, u32), Seq<char>> {
    match r {
        Ok(v) => Ok(v@),
        Err(e) => Err(e@),
    }
}

/// A resolution parse result as plain values.
pub open spec fn resolution_result_view(r: Result<Resolution, String>) -> Result<(u32, u32), Seq<char>> {
    match r {
        Ok(v) => Ok(v@),
        Err(e) => Err(e@),
    }
}

/// Builds `prefix + s + suffix`.
fn message(prefix: &str, s: &str, suffix: &str) -> (r: String)
    ensures
        r@ == prefix@ + s@ + suffix@,
{
    let mut m = String::from_str(prefix);
    m.append(s);
    m.append(suffix);
    m
}

impl SizeData {
    pub fn get_width(&self) -> (r: u32)
        ensures
            r == size_view(*self).0,
    {
        match *self {
            Self::AspectRatio(ratio) => ratio.get_width(),
            Self::Resolution(res) => res.get_width(),
        }
    }

    pub fn get_height(&self) -> (r: u32)
        ensures
            r == size_view(*self).1,
    {
        match *self {
            Self::AspectRatio(ratio) => ratio.get_height(),
            Self::Resolution(res) => res.get_height(),
        }
    }

    /// The size as text: `W:H` for a ratio, `WxH` for a resolution.
    pub fn to_string(&self) -> (r: String)
        ensures
            r@ == match *self {
                SizeData::AspectRatio(a) => aspect_ratio_text(a@.0, a@.1),
                SizeData::Resolution(s) => resolution_text(s@.0, s@.1),
            },
    {
        match self {
            Self::AspectRatio(ratio) => ratio.to_string(),
            Self::Resolution(res) => res.to_string(),
        }
    }
}

impl AspectRatio {
    /// The ratio `w:h` in lowest terms.
    pub fn new(w: u32, h: u32) -> (r: Self)
        requires
            w != 0 || h != 0,
        ensures
            r@ == reduce(w, h),
            gcd(r@.0 as nat, r@.1 as nat) == 1,
            r@.0 * h == r@.1 * w,
    {
        let hcf = find_hcf(w, h);
        proof {
            lemma_reduced(w as nat, h as nat);
        }
        Self(w / hcf, h / hcf)
    }

    pub fn get_width(&self) -> (r: u32)
        ensures
            r == self@.0,
    {
        self.0
    }

    pub fn get_height(&self) -> (r: u32)
        ensures
            r == self@.1,
    {
        self.1
    }

    /// The ratio as text, `W:H`.
    pub fn to_string(&self) -> (r: String)
        ensures
            r@ == aspect_ratio_text(self@.0, self@.1),
    {
        let mut s = String::new();
        push_decimal(&mut s, self.0 as u64);
        proof {
            reveal_strlit(":");
        }
        s.append(":");
        push_decimal(&mut s, self.1 as u64);
        s
    }

    /// Parses `W:H` (whitespace ignored, both parts non-zero) into the
    /// reduced ratio.
    pub fn try_from_str(s: &str) -> (r: Result<Self, String>)
        ensures
            aspect_result_view(r) == aspect_ratio_parse(s@),
    {
        match match_two_non_zero_u32(s, ':') {
            Some((w, h)) => Ok(Self::new(w, h)),
            None => Err(
                message(
                    "Invalid aspect ratio '",
                    s,
                    "'. Valid format: 'WIDTH:HEIGHT'. Valid range: non-zero positive 32 bit integers",
                ),
            ),
        }
    }
}

impl Resolution {
    pub fn new(width: u32, height: u32) -> (r: Self)
        ensures
            r@ == (width, height),
    {
        Self(width, height)
    }

    pub fn get_width(&self) -> (r: u32)
        ensures
            r == self@.0,
    {
        self.0
    }

    pub fn get_height(&self) -> (r: u32)
        ensures
            r == self@.1,
    {
        self.1
    }

    /// The resolution as text, `WxH`.
    pub fn to_string(&self) -> (r: String)
        ensures
            r@ == resolution_text(self@.0, self@.1),
    {
        let mut s = String::new();
        push_decimal(&mut s, self.0 as u64);
        proof {
            reveal_strlit("x");
        }
        s.append("x");
        push_decimal(&mut s, self.1 as u64);
        s
    }

    /// Parses `WxH` (case-insensitive, whitespace ignored, both parts
    /// non-zero).
    pub fn try_from_str(s: &str) -> (r: Result<Self, String>)
        ensures
            resolution_result_view(r) == resolution_parse(lowercase_of(s@), s@),
            all_ascii(s@) ==> resolution_result_view(r) == resolution_parse(
                ascii_lower(s@),
                s@,
            ),
    {
        let lower = str_to_lowercase(s);
        match match_two_non_zero_u32(lower.as_str(), 'x') {
            Some((w, h)) => Ok(Self::new(w, h)),
            None => Err(
                message(
                    "Invalid resolution '",
                    s,
                    "'. Valid format: 'WIDTHxHEIGHT'. Valid range: non-zero positive 32 bit integers",
                ),
            ),
        }
    }
}

impl core::str::FromStr for AspectRatio {
    type Err = String;

    fn from_str(s: &str) -> (r: Result<Self, Self::Err>)
        ensures
            aspect_result_view(r) == aspect_ratio_parse(s@),
    {
        Self::try_from_str(s)
    }
}

impl core::str::FromStr for Resolution {
    type Err = String;

    fn from_str(s: &str) -> (r: Result<Self, Self::Err>)
        ensures
            resolution_result_view(r) == resolution_parse(lowercase_of(s@), s@),
            all_ascii(s@) ==> resolution_result_view(r) == resolution_parse(ascii_lower(s@), s@),
    {
        Self::try_from_str(s)
    }
}


/// Two digit strings around a non-digit, non-whitespace delimiter contain
/// no whitespace.
proof fn lemma_text_has_no_whitespace(a: Seq<char>, b: Seq<char>, d: char)
    requires
        all_digits(a),
        all_digits(b),
        !is_white_space(d),
    ensures
        strip_whitespace(a + seq![d] + b) == a + seq![d] + b,
{
    let t = a + seq![d] + b;
    let pred = |c: char| !is_white_space(c);
    assert forall|i: int| 0 <= i < t.len() implies pred(#[trigger] t[i]) by {
        if i < a.len() {
            assert(t[i] == a[i]);
            assert(is_digit(a[i]));
        } else if i > a.len() {
            assert(t[i] == b[i - a.len() - 1]);
            assert(is_digit(b[i - a.len() - 1]));
        }
    }
    lemma_filter_keeps_all(t, pred);
}

/// Two digit strings around a non-digit delimiter split back into the two
/// strings.
proof fn lemma_text_splits(a: Seq<char>, b: Seq<char>, d: char)
    requires
        all_digits(a),
        all_digits(b),
        !is_digit(d),
    ensures
        split_sole(a + seq![d] + b, d) == Some((a, b)),
{
    let t = a + seq![d] + b;
    let p = a.len() as int;
    assert forall|j: int| 0 <= j < t.len() && j != p implies t[j] != d by {
        if j < p {
            assert(t[j] == a[j]);
            assert(is_digit(a[j]));
        } else {
            assert(t[j] == b[j - p - 1]);
            assert(is_digit(b[j - p - 1]));
        }
    }
    assert(is_sole(t, d, p));
    assert forall|k: int| is_sole(t, d, k) implies k == p by {
        if k != p {
            assert(t[p] != d);
        }
    }
    let k = choose|k: int| is_sole(t, d, k);
    assert(k == p);
    assert(t.take(p) == a);
    assert(t.skip(p + 1) == b);
}

/// Text made of two decimal numbers around a non-digit, non-whitespace
/// delimiter parses back to the two numbers when both are non-zero.
pub proof fn lemma_two_non_zero_of_text(w: u32, h: u32, d: char)
    requires
        w != 0,
        h != 0,
        !is_digit(d),
        !is_white_space(d),
    ensures
        two_non_zero(decimal(w as nat) + seq![d] + decimal(h as nat), d) == Some((w, h)),
{
    let a = decimal(w as nat);
    let b = decimal(h as nat);
    lemma_parse_decimal(w);
    lemma_parse_decimal(h);
    lemma_text_has_no_whitespace(a, b, d);
    lemma_text_splits(a, b, d);
    let t = a + seq![d] + b;
    assert(strip_whitespace(t) == t);
    assert(split_sole(strip_whitespace(t), d) == Some((a, b)));
}

/// ASCII case folding leaves digits and lowercase letters unchanged.
proof fn lemma_lower_text(t: Seq<char>, d: char)
    requires
        forall|i: int| 0 <= i < t.len() ==> (is_digit(#[trigger] t[i]) || t[i] == d),
        !('A' <= d <= 'Z'),
        (d as u32) < 128,
    ensures
        all_ascii(t),
        ascii_lower(t) == t,
{
    assert forall|i: int| 0 <= i < t.len() implies (#[trigger] t[i] as u32) < 128 by {
        assert(is_digit(t[i]) || t[i] == d);
    }
    assert forall|i: int| 0 <= i < t.len() implies #[trigger] ascii_lower(t)[i] == t[i] by {
        assert(is_digit(t[i]) || t[i] == d);
    }
}

/// Formatting a resolution with non-zero sides and parsing the text gives
/// the resolution back: the text is ASCII, so parsing folds case as ASCII.
pub proof fn lemma_resolution_text_roundtrip(w: u32, h: u32)
    requires
        w != 0,
        h != 0,
    ensures
        all_ascii(resolution_text(w, h)),
        resolution_parse(
            ascii_lower(resolution_text(w, h)),
            resolution_text(w, h),
        ) == Ok::<(u32, u32), Seq<char>>((w, h)),
{
    let t = resolution_text(w, h);
    let a = decimal(w as nat);
    let b = decimal(h as nat);
    lemma_decimal_digits(w as nat);
    lemma_decimal_digits(h as nat);
    assert forall|i: int| 0 <= i < t.len() implies (is_digit(#[trigger] t[i]) || t[i] == 'x') by {
        if i < a.len() {
            assert(t[i] == a[i]);
        } else if i > a.len() {
            assert(t[i] == b[i - a.len() - 1]);
        }
    }
    lemma_lower_text(t, 'x');
    lemma_two_non_zero_of_text(w, h, 'x');
}

/// Formatting an aspect ratio in lowest terms with non-zero sides and
/// parsing the text gives the same ratio back.
pub proof fn lemma_aspect_ratio_text_roundtrip(w: u32, h: u32)
    requires
        w != 0,
        h != 0,
        gcd(w as nat, h as nat) == 1,
    ensures
        aspect_ratio_parse(aspect_ratio_text(w, h)) == Ok::<(u32, u32), Seq<char>>((w, h)),
{
    lemma_two_non_zero_of_text(w, h, ':');
    assert(reduce(w, h) == (w, h));
}

/// Reducing a pair already in lowest terms leaves it unchanged, so
/// `AspectRatio::new` is idempotent.
pub proof fn lemma_reduce_idempotent(w: u32, h: u32)
    requires
        w != 0 || h != 0,
    ensures
        reduce(reduce(w, h).0, reduce(w, h).1) == reduce(w, h),
{
    lemma_reduced(w as nat, h as nat);
    let g = gcd(w as nat, h as nat);
    crate::arith::lemma_tdiv_nonneg(w as int, g as int);
    crate::arith::lemma_tdiv_nonneg(h as int, g as int);
    let x = (w as nat) / g;
    let y = (h as nat) / g;
    assert(reduce(w, h).0 as nat == x);
    assert(reduce(w, h).1 as nat == y);
    assert(gcd(x, y) == 1);
    assert(x / 1 == x);
    assert(y / 1 == y);
}


/// Euclid's lemma: if `x` divides `y * u` and shares no factor with `y`,
/// it divides `u`.
proof fn lemma_coprime_divides(x: nat, y: nat, u: nat)
    requires
        x > 0,
        gcd(x, y) == 1,
        (y * u) % x == 0,
    ensures
        u % x == 0,
{
    if u > 0 {
        lemma_gcd_scale(u, x, y);
        assert(u * 1 == u);
        lemma_divides_intro(x, u as int);
        assert(u * x == x * u) by (nonlinear_arith);
        assert(u * y == y * u) by (nonlinear_arith);
        lemma_gcd_greatest(u * x, u * y, x);
    } else {
        assert(u % x == 0);
    }
}

/// Two pairs in lowest terms with equal cross products are equal.
proof fn lemma_reduced_pairs_equal(x: nat, y: nat, u: nat, v: nat)
    requires
        gcd(x, y) == 1,
        gcd(u, v) == 1,
        x * v == y * u,
    ensures
        x == u,
        y == v,
{
    if x == 0 {
        assert(gcd(0, y) == y) by {
            if y > 0 {
                assert(0nat % y == 0);
                assert(gcd(y, 0) == y);
            }
        }
        assert(y == 1);
        assert(u == 0) by (nonlinear_arith)
            requires
                x * v == y * u,
                x == 0,
                y == 1,
        ;
        assert(gcd(0, v) == v) by {
            if v > 0 {
                assert(0nat % v == 0);
                assert(gcd(v, 0) == v);
            }
        }
    } else if u == 0 {
        assert(gcd(0, v) == v) by {
            if v > 0 {
                assert(0nat % v == 0);
                assert(gcd(v, 0) == v);
            }
        }
        assert(v == 1);
        assert(false) by (nonlinear_arith)
            requires
                x * v == y * u,
                x > 0,
                v == 1,
                u == 0,
        ;
    } else {
        assert(x * v == v * x) by (nonlinear_arith);
        assert(u * y == y * u) by (nonlinear_arith);
        lemma_divides_intro(x, v as int);
        lemma_coprime_divides(x, y, u);
        assert(gcd(u, v) == 1);
        lemma_divides_intro(u, y as int);
        assert(v * x == x * v) by (nonlinear_arith);
        lemma_gcd_commutes(u, v);
        lemma_coprime_divides(u, v, x);
        lemma_fundamental_div_mod(u as int, x as int);
        lemma_fundamental_div_mod(x as int, u as int);
        assert(x == u) by (nonlinear_arith)
            requires
                u == x * (u / x),
                x == u * (x / u),
                x > 0,
                u > 0,
        ;
        assert(y == v) by (nonlinear_arith)
            requires
                x * v == y * u,
                x == u,
                x > 0,
        ;
    }
}

/// The highest common factor does not depend on the order of the arguments.
proof fn lemma_gcd_commutes(a: nat, b: nat)
    ensures
        gcd(a, b) == gcd(b, a),
{
    if a == 0 && b == 0 {
    } else {
        lemma_gcd_divides(a, b);
        lemma_gcd_divides(b, a);
        lemma_gcd_greatest(a, b, gcd(b, a));
        lemma_gcd_greatest(b, a, gcd(a, b));
        let g = gcd(a, b);
        let h = gcd(b, a);
        lemma_fundamental_div_mod(g as int, h as int);
        lemma_fundamental_div_mod(h as int, g as int);
        assert(g == h) by (nonlinear_arith)
            requires
                g == h * (g / h),
                h == g * (h / g),
                g > 0,
                h > 0,
        ;
    }
}

/// Equal ratios reduce to the same pair: `AspectRatio::new(a, b)` and
/// `AspectRatio::new(c, d)` agree whenever `a:b` and `c:d` are the same ratio.
pub proof fn lemma_same_ratio_same_reduction(a: u32, b: u32, c: u32, d: u32)
    requires
        a != 0 || b != 0,
        c != 0 || d != 0,
        a * d == b * c,
    ensures
        reduce(a, b) == reduce(c, d),
{
    lemma_reduced(a as nat, b as nat);
    lemma_reduced(c as nat, d as nat);
    let g = gcd(a as nat, b as nat);
    let h = gcd(c as nat, d as nat);
    lemma_gcd_divides(a as nat, b as nat);
    lemma_gcd_divides(c as nat, d as nat);
    lemma_fundamental_div_mod(a as int, g as int);
    lemma_fundamental_div_mod(b as int, g as int);
    lemma_fundamental_div_mod(c as int, h as int);
    lemma_fundamental_div_mod(d as int, h as int);
    let x = (a as nat) / g;
    let y = (b as nat) / g;
    let u = (c as nat) / h;
    let v = (d as nat) / h;
    assert(x * v == y * u) by (nonlinear_arith)
        requires
            a == g * x,
            b == g * y,
            c == h * u,
            d == h * v,
            a * d == b * c,
            g > 0,
            h > 0,
    ;
    lemma_reduced_pairs_equal(x, y, u, v);
}

} // verus!

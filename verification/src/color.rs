use vstd::prelude::*;
use crate::errors::ForgeError;

verus! {

/// A color with four 8-bit channels: red, green, blue and alpha.
#[derive(Clone, Copy, Debug, PartialEq, Eq, Structural)]
pub struct Color {
    pub r: u8,
    pub g: u8,
    pub b: u8,
    pub a: u8,
}

impl Color {
    pub fn rgba(r: u8, g: u8, b: u8, a: u8) -> (c: Color)
        ensures
            c == (Color { r, g, b, a }),
    {
        Color { r, g, b, a }
    }
}

// ---------------------------------------------------------------------------
// Hex parsing: `#RRGGBB` / `#RRGGBBAA`, leading `#` optional, surrounding
// ASCII whitespace ignored.
// ---------------------------------------------------------------------------

/// ASCII whitespace, the only whitespace the hex wire format tolerates.
pub open spec fn is_ascii_ws(c: char) -> bool {
    c == ' ' || c == '\t' || c == '\n' || c == '\r'
}

/// The characters left after removing leading ASCII whitespace.
pub open spec fn trim_front(s: Seq<char>) -> Seq<char>
    decreases s.len(),
{
    if s.len() > 0 && is_ascii_ws(s[0]) {
        trim_front(s.drop_first())
    } else {
        s
    }
}

/// The characters left after removing trailing ASCII whitespace.
pub open spec fn trim_back(s: Seq<char>) -> Seq<char>
    decreases s.len(),
{
    if s.len() > 0 && is_ascii_ws(s[s.len() - 1]) {
        trim_back(s.drop_last())
    } else {
        s
    }
}

/// The characters left after removing whitespace at both ends.
pub open spec fn spec_trim(s: Seq<char>) -> Seq<char> {
    trim_back(trim_front(s))
}

/// The value of one hex digit, upper or lower case.
pub open spec fn spec_hex_val(c: char) -> Option<u8> {
    if c == '0' { Some(0u8) }
    else if c == '1' { Some(1u8) }
    else if c == '2' { Some(2u8) }
    else if c == '3' { Some(3u8) }
    else if c == '4' { Some(4u8) }
    else if c == '5' { Some(5u8) }
    else if c == '6' { Some(6u8) }
    else if c == '7' { Some(7u8) }
    else if c == '8' { Some(8u8) }
    else if c == '9' { Some(9u8) }
    else if c == 'a' || c == 'A' { Some(10u8) }
    else if c == 'b' || c == 'B' { Some(11u8) }
    else if c == 'c' || c == 'C' { Some(12u8) }
    else if c == 'd' || c == 'D' { Some(13u8) }
    else if c == 'e' || c == 'E' { Some(14u8) }
    else if c == 'f' || c == 'F' { Some(15u8) }
    else { None }
}

/// Every character of `s` is a hex digit.
pub open spec fn all_hex(s: Seq<char>) -> bool {
    forall|i: int| 0 <= i < s.len() ==> spec_hex_val(s[i]) is Some
}

/// The byte written as the two hex digits `h` `l`.
pub open spec fn spec_byte(h: char, l: char) -> u8 {
    (spec_hex_val(h).unwrap() * 16 + spec_hex_val(l).unwrap()) as u8
}

/// The characters left after an optional leading `#`.
pub open spec fn spec_strip_hash(s: Seq<char>) -> Seq<char> {
    if s.len() > 0 && s[0] == '#' {
        s.drop_first()
    } else {
        s
    }
}

/// What a hex color string denotes: six digits give an opaque color, eight
/// digits carry an explicit alpha, anything else is invalid.
pub open spec fn spec_parse_hex(s: Seq<char>) -> Option<Color> {
    let h = spec_strip_hash(spec_trim(s));
    if h.len() == 6 && all_hex(h) {
        Some(Color {
            r: spec_byte(h[0], h[1]),
            g: spec_byte(h[2], h[3]),
            b: spec_byte(h[4], h[5]),
            a: 255,
        })
    } else if h.len() == 8 && all_hex(h) {
        Some(Color {
            r: spec_byte(h[0], h[1]),
            g: spec_byte(h[2], h[3]),
            b: spec_byte(h[4], h[5]),
            a: spec_byte(h[6], h[7]),
        })
    } else {
        None
    }
}

fn is_ws_char(c: char) -> (r: bool)
    ensures
        r == is_ascii_ws(c),
{
    c == ' ' || c == '\t' || c == '\n' || c == '\r'
}

fn hex_val(c: char) -> (r: Option<u8>)
    ensures
        r == spec_hex_val(c),
{
    if c == '0' { Some(0u8) }
    else if c == '1' { Some(1u8) }
    else if c == '2' { Some(2u8) }
    else if c == '3' { Some(3u8) }
    else if c == '4' { Some(4u8) }
    else if c == '5' { Some(5u8) }
    else if c == '6' { Some(6u8) }
    else if c == '7' { Some(7u8) }
    else if c == '8' { Some(8u8) }
    else if c == '9' { Some(9u8) }
    else if c == 'a' || c == 'A' { Some(10u8) }
    else if c == 'b' || c == 'B' { Some(11u8) }
    else if c == 'c' || c == 'C' { Some(12u8) }
    else if c == 'd' || c == 'D' { Some(13u8) }
    else if c == 'e' || c == 'E' { Some(14u8) }
    else if c == 'f' || c == 'F' { Some(15u8) }
    else { None }
}

proof fn lemma_trim_front_is_subrange(s: Seq<char>, k: int)
    requires
        0 <= k <= s.len(),
        forall|i: int| 0 <= i < k ==> is_ascii_ws(s[i]),
        k == s.len() || !is_ascii_ws(s[k]),
    ensures
        trim_front(s) == s.subrange(k, s.len() as int),
    decreases k,
{
    if k == 0 {
        assert(s.subrange(0, s.len() as int) =~= s);
    } else {
        let t = s.drop_first();
        lemma_trim_front_is_subrange(t, k - 1);
        assert(t.subrange(k - 1, t.len() as int) =~= s.subrange(k, s.len() as int));
    }
}

proof fn lemma_trim_back_is_subrange(s: Seq<char>, k: int)
    requires
        0 <= k <= s.len(),
        forall|i: int| k <= i < s.len() ==> is_ascii_ws(s[i]),
        k == 0 || !is_ascii_ws(s[k - 1]),
    ensures
        trim_back(s) == s.subrange(0, k),
    decreases s.len() - k,
{
    if k == s.len() {
        if s.len() > 0 && is_ascii_ws(s[s.len() - 1]) {
            assert(!is_ascii_ws(s[k - 1]));
        }
        assert(s.subrange(0, s.len() as int) =~= s);
    } else {
        let t = s.drop_last();
        lemma_trim_back_is_subrange(t, k);
        assert(t.subrange(0, k) =~= s.subrange(0, k));
    }
}

fn parse_hex_byte(input: &str, i: usize) -> (r: Option<u8>)
    requires
        i + 2 <= input@.len(),
        input@.len() <= usize::MAX,
    ensures
        match r {
            Some(v) => spec_hex_val(input@[i as int]) is Some && spec_hex_val(
                input@[i + 1],
            ) is Some && v == spec_byte(input@[i as int], input@[i + 1]),
            None => spec_hex_val(input@[i as int]) is None || spec_hex_val(input@[i + 1]) is None,
        },
{
    let hi = hex_val(input.get_char(i));
    let lo = hex_val(input.get_char(i + 1));
    match (hi, lo) {
        (Some(h), Some(l)) => Some(h * 16 + l),
        _ => None,
    }
}

/// Parses a `#RRGGBB` or `#RRGGBBAA` hex string (leading `#` optional,
/// surrounding ASCII whitespace ignored); a six-digit string is opaque.
/// Any other length, or a non-hex digit, is an `InvalidColorFormat` failure.
#[verifier::rlimit(30)]
pub fn parse_hex_rgba(input: &str) -> (r: Result<Color, ForgeError>)
    ensures
        match r {
            Ok(c) => spec_parse_hex(input@) == Some(c),
            Err(e) => spec_parse_hex(input@) is None && (e matches ForgeError::InvalidColorFormat {
                input: orig,
            } && orig@ == input@),
        },
{
    let n = input.unicode_len();
    let mut lo: usize = 0;
    while lo < n && is_ws_char(input.get_char(lo))
        invariant
            0 <= lo <= n,
            n == input@.len(),
            forall|i: int| 0 <= i < lo ==> is_ascii_ws(input@[i]),
        decreases n - lo,
    {
        lo = lo + 1;
    }
    let mut hi: usize = n;
    while hi > lo && is_ws_char(input.get_char(hi - 1))
        invariant
            lo <= hi <= n,
            n == input@.len(),
            forall|i: int| 0 <= i < lo ==> is_ascii_ws(input@[i]),
            forall|i: int| hi <= i < n ==> is_ascii_ws(input@[i]),
        decreases hi,
    {
        hi = hi - 1;
    }
    proof {
        lemma_trim_front_is_subrange(input@, lo as int);
        let t = input@.subrange(lo as int, n as int);
        lemma_trim_back_is_subrange(t, hi - lo);
        assert(t.subrange(0, hi - lo) =~= input@.subrange(lo as int, hi as int));
    }
    let ghost trimmed = input@.subrange(lo as int, hi as int);
    assert(spec_trim(input@) == trimmed);

    let start: usize = if hi > lo && input.get_char(lo) == '#' {
        lo + 1
    } else {
        lo
    };
    let ghost h = spec_strip_hash(trimmed);
    proof {
        if trimmed.len() > 0 && trimmed[0] == '#' {
            assert(h =~= input@.subrange(start as int, hi as int));
        } else {
            assert(h =~= input@.subrange(start as int, hi as int));
        }
    }
    let len = hi - start;
    if len == 6 {
        let rr = parse_hex_byte(input, start);
        let gg = parse_hex_byte(input, start + 2);
        let bb = parse_hex_byte(input, start + 4);
        match (rr, gg, bb) {
            (Some(r), Some(g), Some(b)) => {
                let c = Color { r, g, b, a: 255 };
                proof {
                    assert forall|i: int| 0 <= i < h.len() implies spec_hex_val(h[i]) is Some by {
                        assert(h[i] == input@[start + i]);
                    }
                }
                Ok(c)
            },
            _ => Err(ForgeError::InvalidColorFormat { input: input.to_owned() }),
        }
    } else if len == 8 {
        let rr = parse_hex_byte(input, start);
        let gg = parse_hex_byte(input, start + 2);
        let bb = parse_hex_byte(input, start + 4);
        let aa = parse_hex_byte(input, start + 6);
        match (rr, gg, bb, aa) {
            (Some(r), Some(g), Some(b), Some(a)) => {
                let c = Color { r, g, b, a };
                proof {
                    assert forall|i: int| 0 <= i < h.len() implies spec_hex_val(h[i]) is Some by {
                        assert(h[i] == input@[start + i]);
                    }
                }
                Ok(c)
            },
            _ => Err(ForgeError::InvalidColorFormat { input: input.to_owned() }),
        }
    } else {
        Err(ForgeError::InvalidColorFormat { input: input.to_owned() })
    }
}

// ---------------------------------------------------------------------------
// Hex emission: always uppercase `#RRGGBB`, alpha dropped.
// ---------------------------------------------------------------------------

/// The uppercase hex digit for a value below 16.
pub open spec fn spec_hex_char(d: u8) -> char {
    if d == 0 { '0' }
    else if d == 1 { '1' }
    else if d == 2 { '2' }
    else if d == 3 { '3' }
    else if d == 4 { '4' }
    else if d == 5 { '5' }
    else if d == 6 { '6' }
    else if d == 7 { '7' }
    else if d == 8 { '8' }
    else if d == 9 { '9' }
    else if d == 10 { 'A' }
    else if d == 11 { 'B' }
    else if d == 12 { 'C' }
    else if d == 13 { 'D' }
    else if d == 14 { 'E' }
    else { 'F' }
}

/// The `#RRGGBB` rendering of a color; alpha is dropped.
pub open spec fn spec_to_hex(c: Color) -> Seq<char> {
    seq![
        '#',
        spec_hex_char(c.r / 16),
        spec_hex_char(c.r % 16),
        spec_hex_char(c.g / 16),
        spec_hex_char(c.g % 16),
        spec_hex_char(c.b / 16),
        spec_hex_char(c.b % 16),
    ]
}

fn hex_digit_str(d: u8) -> (r: &'static str)
    requires
        d < 16,
    ensures
        r@ =~= seq![spec_hex_char(d)],
{
    proof {
        reveal_strlit("0");
        reveal_strlit("1");
        reveal_strlit("2");
        reveal_strlit("3");
        reveal_strlit("4");
        reveal_strlit("5");
        reveal_strlit("6");
        reveal_strlit("7");
        reveal_strlit("8");
        reveal_strlit("9");
        reveal_strlit("A");
        reveal_strlit("B");
        reveal_strlit("C");
        reveal_strlit("D");
        reveal_strlit("E");
        reveal_strlit("F");
    }
    if d == 0 { "0" }
    else if d == 1 { "1" }
    else if d == 2 { "2" }
    else if d == 3 { "3" }
    else if d == 4 { "4" }
    else if d == 5 { "5" }
    else if d == 6 { "6" }
    else if d == 7 { "7" }
    else if d == 8 { "8" }
    else if d == 9 { "9" }
    else if d == 10 { "A" }
    else if d == 11 { "B" }
    else if d == 12 { "C" }
    else if d == 13 { "D" }
    else if d == 14 { "E" }
    else { "F" }
}

fn push_hex_byte(s: &mut String, v: u8)
    ensures
        final(s)@ == old(s)@ + seq![spec_hex_char(v / 16), spec_hex_char(v % 16)],
{
    s.append(hex_digit_str(v / 16));
    s.append(hex_digit_str(v % 16));
    assert(final(s)@ =~= old(s)@ + seq![spec_hex_char(v / 16), spec_hex_char(v % 16)]);
}

/// Renders a color as uppercase `#RRGGBB`; the alpha channel is dropped.
pub fn rgba_to_hex(c: Color) -> (r: String)
    ensures
        r@ == spec_to_hex(c),
{
    proof {
        reveal_strlit("#");
    }
    let mut s = "#".to_owned();
    push_hex_byte(&mut s, c.r);
    push_hex_byte(&mut s, c.g);
    push_hex_byte(&mut s, c.b);
    assert(s@ =~= spec_to_hex(c));
    s
}

/// Reading back the hex rendering of an opaque color recovers the color:
/// the emitted string never carries alpha, so the parse fills alpha with 255.
pub proof fn lemma_hex_round_trip(c: Color)
    requires
        c.a == 255,
    ensures
        spec_parse_hex(spec_to_hex(c)) == Some(c),
{
    let s = spec_to_hex(c);
    assert(forall|d: u8| d < 16 ==> !is_ascii_ws(spec_hex_char(d)));
    assert(!is_ascii_ws(s[6]));
    assert(trim_front(s) == s);
    assert(trim_back(s) == s);
    assert(spec_trim(s) == s);
    let h = spec_strip_hash(s);
    assert(h =~= seq![
        spec_hex_char(c.r / 16),
        spec_hex_char(c.r % 16),
        spec_hex_char(c.g / 16),
        spec_hex_char(c.g % 16),
        spec_hex_char(c.b / 16),
        spec_hex_char(c.b % 16),
    ]);
    assert(forall|d: u8| d < 16 ==> spec_hex_val(spec_hex_char(d)) == Some(d));
    assert(spec_byte(h[0], h[1]) == c.r / 16 * 16 + c.r % 16);
    assert(spec_byte(h[0], h[1]) == c.r);
    assert(spec_byte(h[2], h[3]) == c.g);
    assert(spec_byte(h[4], h[5]) == c.b);
    assert(spec_parse_hex(s) == Some(Color { r: c.r, g: c.g, b: c.b, a: 255 }));
}

// ---------------------------------------------------------------------------
// Linear interpolation.  The blend factor is a fixed-point fraction with
// denominator 65536; each channel is interpolated exactly and rounded to the
// nearest integer.
// ---------------------------------------------------------------------------

/// The fixed-point denominator of the interpolation factor: a factor of
/// 65536 means 1.0.
pub const LERP_ONE: u32 = 65536;

/// The interpolation factor clamped to at most 1.0.
pub open spec fn spec_clamp_t(t: u32) -> u32 {
    if t > 65536 { 65536u32 } else { t }
}

/// One channel interpolated between `a` and `b` by `t / 65536`, rounded to
/// nearest (ties cannot occur: the numerator is never an exact half).
pub open spec fn spec_lerp_channel(a: u8, b: u8, t: u32) -> u8
    recommends
        t <= 65536,
{
    ((a * (65536 - t) + b * t + 32768) / 65536) as u8
}

/// All four channels interpolated by the clamped factor.
pub open spec fn spec_lerp(a: Color, b: Color, t: u32) -> Color {
    let tc = spec_clamp_t(t);
    Color {
        r: spec_lerp_channel(a.r, b.r, tc),
        g: spec_lerp_channel(a.g, b.g, tc),
        b: spec_lerp_channel(a.b, b.b, tc),
        a: spec_lerp_channel(a.a, b.a, tc),
    }
}

fn lerp_channel(a: u8, b: u8, t: u32) -> (r: u8)
    requires
        t <= 65536,
    ensures
        r == spec_lerp_channel(a, b, t),
{
    assert((a as int) * ((65536 - t) as int) <= 255 * 65536) by (nonlinear_arith)
        requires
            a <= 255,
            t <= 65536,
    ;
    assert((b as int) * (t as int) <= 255 * 65536) by (nonlinear_arith)
        requires
            b <= 255,
            t <= 65536,
    ;
    let v: u64 = (a as u64) * ((65536 - t) as u64) + (b as u64) * (t as u64) + 32768;
    (v / 65536) as u8
}

/// Interpolates two colors channel by channel; the factor `t / 65536` is
/// clamped to at most 1.0 before use.
pub fn lerp_color(a: Color, b: Color, t: u32) -> (r: Color)
    ensures
        r == spec_lerp(a, b, t),
{
    let tc = if t > 65536 { 65536 } else { t };
    Color {
        r: lerp_channel(a.r, b.r, tc),
        g: lerp_channel(a.g, b.g, tc),
        b: lerp_channel(a.b, b.b, tc),
        a: lerp_channel(a.a, b.a, tc),
    }
}

/// Interpolating a color with itself gives the color back, whatever the
/// factor.
pub proof fn lemma_lerp_identity(c: Color, t: u32)
    ensures
        spec_lerp(c, c, t) == c,
{
    let tc = spec_clamp_t(t);
    assert forall|v: u8| #[trigger] spec_lerp_channel(v, v, tc) == v by {
        assert((v as int) * (65536 - tc) + (v as int) * tc == (v as int) * 65536)
            by (nonlinear_arith);
        assert(((v as int) * 65536 + 32768) / 65536 == v as int) by (nonlinear_arith)
            requires
                v <= 255,
        ;
    }
}

/// A factor of zero gives the first color; a factor of one (65536, or any
/// larger value, which the clamp reduces to one) gives the second.
pub proof fn lemma_lerp_endpoints(a: Color, b: Color, t: u32)
    ensures
        spec_lerp(a, b, 0) == a,
        t >= 65536 ==> spec_lerp(a, b, t) == b,
{
    assert forall|x: u8, y: u8| #[trigger] spec_lerp_channel(x, y, 0) == x by {
        assert(((x as int) * 65536 + 32768) / 65536 == x as int) by (nonlinear_arith)
            requires
                x <= 255,
        ;
    }
    assert forall|x: u8, y: u8| #[trigger] spec_lerp_channel(x, y, 65536) == y by {
        assert(((y as int) * 65536 + 32768) / 65536 == y as int) by (nonlinear_arith)
            requires
                y <= 255,
        ;
    }
}

} // verus!

//! Decimal numbers: a signed 96-bit integer mantissa and a power of ten
//! (at most 28) that it is divided by.
use vstd::prelude::*;

verus! {

/// The largest mantissa: 2^96 - 1.
pub const MAX_MANTISSA: i128 = 79228162514264337593543950335;

/// The largest scale.
pub const MAX_SCALE: u32 = 28;

/// The mathematical content of a decimal: the number `mantissa / 10^scale`,
/// written with `scale` digits after the decimal point.
pub struct DecimalView {
    pub mantissa: int,
    pub scale: int,
}

/// A decimal number.
#[derive(Clone, Copy, Debug)]
pub struct Decimal {
    mantissa: i128,
    scale: u32,
}

impl View for Decimal {
    type V = DecimalView;

    closed spec fn view(&self) -> DecimalView {
        DecimalView { mantissa: self.mantissa as int, scale: self.scale as int }
    }
}

pub open spec fn valid_decimal(v: DecimalView) -> bool {
    -MAX_MANTISSA <= v.mantissa <= MAX_MANTISSA && 0 <= v.scale <= MAX_SCALE
}

pub open spec fn abs(x: int) -> nat {
    if x < 0 {
        (-x) as nat
    } else {
        x as nat
    }
}

// ---------------------------------------------------------------------------
// Decimal text.
// ---------------------------------------------------------------------------

pub open spec fn digit_char(d: int) -> char {
    ('0' as int + d) as char
}

/// The decimal digits of `n`, most significant first, without leading zeros
/// (zero is written as one `0`).
pub open spec fn nat_digits(n: nat) -> Seq<char>
    decreases n,
{
    if n < 10 {
        seq![digit_char(n as int)]
    } else {
        nat_digits(n / 10).push(digit_char((n % 10) as int))
    }
}

/// `s`, with zeros added in front until it is at least `width` long.
pub open spec fn zero_padded(s: Seq<char>, width: int) -> Seq<char> {
    if s.len() >= width {
        s
    } else {
        Seq::new((width - s.len()) as nat, |i: int| '0') + s
    }
}

/// How a decimal is written: a minus sign for a negative number, the digits
/// of the mantissa (padded so that at least one digit precedes the point),
/// and a decimal point before the last `scale` digits when `scale` is not 0.
pub open spec fn decimal_text(v: DecimalView) -> Seq<char> {
    let digits = zero_padded(nat_digits(abs(v.mantissa)), v.scale + 1);
    let int_len = digits.len() - v.scale;
    let body = if v.scale == 0 {
        digits
    } else {
        digits.take(int_len) + seq!['.'] + digits.skip(int_len)
    };
    if v.mantissa < 0 {
        seq!['-'] + body
    } else {
        body
    }
}

pub open spec fn digit_chars(d: Seq<u8>) -> Seq<char> {
    d.map_values(|x: u8| digit_char(x as int))
}

/// The text of a single digit.
fn digit_text(d: u8) -> (r: &'static str)
    requires
        d < 10,
    ensures
        r@ == seq![digit_char(d as int)],
{
    proof {
        reveal_strlit("0");
        reveal_strlit("1");
        reveal_strlit("2");
        reveal_strlit("3");
        reveal_strlit("4");
        reveal_strlit("5");
        reveal_strlit("6");
        reveal_strlit("7");
        reveal_strlit("8");
        reveal_strlit("9");
    }
    match d {
        0 => "0",
        1 => "1",
        2 => "2",
        3 => "3",
        4 => "4",
        5 => "5",
        6 => "6",
        7 => "7",
        8 => "8",
        _ => "9",
    }
}

/// The digits of `n`, most significant first, as digit values.
fn digits_of(n: u128) -> (r: Vec<u8>)
    ensures
        digit_chars(r@) == nat_digits(n as nat),
        1 <= r@.len() <= 39,
        forall|i: int| 0 <= i < r@.len() ==> #[trigger] r@[i] < 10,
{
    proof {
        lemma_pow10_39();
        lemma_nat_digits_len(n as nat, 38);
    }
    let mut cur = n;
    let mut v: Vec<u8> = Vec::new();
    while cur >= 10
        invariant
            nat_digits(n as nat) == nat_digits(cur as nat) + digit_chars(v@),
            nat_digits(n as nat).len() <= 39,
            forall|i: int| 0 <= i < v@.len() ==> #[trigger] v@[i] < 10,
        decreases cur,
    {
        let d = (cur % 10) as u8;
        let ghost old_v = v@;
        v.insert(0, d);
        proof {
            assert(v@ == seq![d] + old_v);
            assert(digit_chars(v@) =~= seq![digit_char(d as int)] + digit_chars(old_v));
            assert(nat_digits(cur as nat) == nat_digits((cur / 10) as nat).push(
                digit_char((cur % 10) as int),
            ));
            assert(nat_digits((cur / 10) as nat).push(digit_char((cur % 10) as int)) + digit_chars(
                old_v,
            ) =~= nat_digits((cur / 10) as nat) + digit_chars(v@));
        }
        cur = cur / 10;
    }
    let ghost old_v = v@;
    v.insert(0, cur as u8);
    proof {
        assert(digit_chars(v@) =~= seq![digit_char(cur as int)] + digit_chars(old_v));
        assert(nat_digits(cur as nat) == seq![digit_char(cur as int)]);
        assert(digit_chars(v@).len() == v@.len());
    }
    v
}

pub open spec fn pow10(k: nat) -> nat
    decreases k,
{
    if k == 0 {
        1
    } else {
        10 * pow10((k - 1) as nat)
    }
}

/// A number below 10^(k+1) has at most k+1 digits.
proof fn lemma_nat_digits_len(n: nat, k: nat)
    requires
        n < pow10(k + 1),
    ensures
        1 <= nat_digits(n).len() <= k + 1,
    decreases n,
{
    if n >= 10 {
        if k == 0 {
            assert(pow10(1) == 10 * pow10(0));
        } else {
            assert(pow10(k + 1) == 10 * pow10(k));
            assert(n / 10 < pow10(k));
            lemma_nat_digits_len(n / 10, (k - 1) as nat);
        }
    }
}

proof fn lemma_pow10_39()
    ensures
        pow10(39) == 1000000000000000000000000000000000000000nat,
{
    reveal_with_fuel(pow10, 40);
}

impl Decimal {
    #[verifier::type_invariant]
    spec fn well_formed(self) -> bool {
        -MAX_MANTISSA <= self.mantissa <= MAX_MANTISSA && self.scale <= MAX_SCALE
    }

    /// `mantissa / 10^scale`.
    pub fn new(mantissa: i64, scale: u32) -> (r: Decimal)
        requires
            scale <= MAX_SCALE,
        ensures
            r@ == (DecimalView { mantissa: mantissa as int, scale: scale as int }),
    {
        Decimal { mantissa: mantissa as i128, scale }
    }

    /// The decimal with the given mantissa and scale, where both are in range.
    pub fn from_parts(mantissa: i128, scale: u32) -> (r: Option<Decimal>)
        ensures
            r is Some <==> valid_decimal(
                DecimalView { mantissa: mantissa as int, scale: scale as int },
            ),
            r matches Some(d) ==> d@ == (DecimalView {
                mantissa: mantissa as int,
                scale: scale as int,
            }),
    {
        if -MAX_MANTISSA <= mantissa && mantissa <= MAX_MANTISSA && scale <= MAX_SCALE {
            Some(Decimal { mantissa, scale })
        } else {
            None
        }
    }

    pub fn zero() -> (r: Decimal)
        ensures
            r@ == (DecimalView { mantissa: 0, scale: 0 }),
    {
        Decimal { mantissa: 0, scale: 0 }
    }

    pub fn mantissa(&self) -> (r: i128)
        ensures
            r == self@.mantissa,
    {
        self.mantissa
    }

    pub fn scale(&self) -> (r: u32)
        ensures
            r == self@.scale,
    {
        self.scale
    }

    pub fn is_zero(&self) -> (r: bool)
        ensures
            r == (self@.mantissa == 0),
    {
        self.mantissa == 0
    }

    pub fn is_negative(&self) -> (r: bool)
        ensures
            r == (self@.mantissa < 0),
    {
        self.mantissa < 0
    }

    pub fn is_positive(&self) -> (r: bool)
        ensures
            r == (self@.mantissa > 0),
    {
        self.mantissa > 0
    }

    /// The number with the opposite sign.
    pub fn neg(&self) -> (r: Decimal)
        ensures
            r@ == (DecimalView { mantissa: -self@.mantissa, scale: self@.scale }),
    {
        proof {
            use_type_invariant(self);
        }
        Decimal { mantissa: -self.mantissa, scale: self.scale }
    }

    /// The exact product, when its mantissa and scale are in range.
    pub fn checked_mul(&self, other: &Decimal) -> (r: Option<Decimal>)
        ensures
            r is Some <==> valid_decimal(
                DecimalView {
                    mantissa: self@.mantissa * other@.mantissa,
                    scale: self@.scale + other@.scale,
                },
            ),
            r matches Some(d) ==> d@ == (DecimalView {
                mantissa: self@.mantissa * other@.mantissa,
                scale: self@.scale + other@.scale,
            }),
    {
        proof {
            use_type_invariant(self);
            use_type_invariant(other);
        }
        let scale = self.scale + other.scale;
        if scale > MAX_SCALE {
            return None;
        }
        match self.mantissa.checked_mul(other.mantissa) {
            Some(m) => {
                if -MAX_MANTISSA <= m && m <= MAX_MANTISSA {
                    Some(Decimal { mantissa: m, scale })
                } else {
                    None
                }
            },
            None => {
                proof {
                    let a = self.mantissa as int;
                    let b = other.mantissa as int;
                    assert(abs(a * b) > MAX_MANTISSA) by (nonlinear_arith)
                        requires
                            a * b > i128::MAX || a * b < i128::MIN,
                    ;
                }
                None
            },
        }
    }

    /// The decimal as text: `123.450`, `-0.05`, `7`.
    pub fn to_text(&self) -> (r: String)
        ensures
            r@ == decimal_text(self@),
    {
        proof {
            use_type_invariant(self);
        }
        let magnitude: u128 = if self.mantissa < 0 {
            (-self.mantissa) as u128
        } else {
            self.mantissa as u128
        };
        let mut digits = digits_of(magnitude);
        let ghost unpadded = digits@;
        let width: usize = (self.scale + 1) as usize;
        while digits.len() < width
            invariant
                width == self.scale + 1,
                digit_chars(digits@) == zero_padded(digit_chars(unpadded), digits@.len() as int),
                digits@.len() >= unpadded.len(),
                digits@.len() <= if width > unpadded.len() { width as int } else { unpadded.len() as int },
                forall|i: int| 0 <= i < digits@.len() ==> #[trigger] digits@[i] < 10,
            decreases width - digits@.len(),
        {
            let ghost old_d = digits@;
            digits.insert(0, 0);
            proof {
                assert(digit_chars(digits@) =~= seq!['0'] + digit_chars(old_d));
                assert(Seq::new((digits@.len() - unpadded.len()) as nat, |i: int| '0')
                    =~= seq!['0'] + Seq::new((old_d.len() - unpadded.len()) as nat, |i: int| '0'));
            }
        }
        let ghost padded = digit_chars(digits@);
        proof {
            assert(digit_chars(unpadded) == nat_digits(magnitude as nat));
            assert(magnitude as nat == abs(self@.mantissa));
            assert(zero_padded(digit_chars(unpadded), digits@.len() as int) == zero_padded(
                digit_chars(unpadded),
                width as int,
            ));
            assert(padded == zero_padded(nat_digits(abs(self@.mantissa)), self@.scale + 1));
        }
        let len = digits.len();
        let int_len = len - self.scale as usize;
        let mut out = String::new();
        if self.mantissa < 0 {
            proof {
                reveal_strlit("-");
            }
            out.append("-");
        }
        let ghost sign: Seq<char> = if self.mantissa < 0 { seq!['-'] } else { Seq::empty() };
        let mut i: usize = 0;
        while i < len
            invariant
                len == digits@.len(),
                int_len == len - self.scale,
                int_len >= 1,
                i <= len,
                padded == digit_chars(digits@),
                forall|k: int| 0 <= k < digits@.len() ==> #[trigger] digits@[k] < 10,
                out@ == sign + (if i <= int_len {
                    padded.take(i as int)
                } else {
                    padded.take(int_len as int) + seq!['.'] + padded.subrange(int_len as int, i as int)
                }),
            decreases len - i,
        {
            let ghost before = out@;
            if i == int_len {
                proof {
                    reveal_strlit(".");
                }
                out.append(".");
            }
            out.append(digit_text(digits[i]));
            proof {
                assert(padded[i as int] == digit_char(digits@[i as int] as int));
                if i < int_len {
                    assert(padded.take(i + 1) =~= padded.take(i as int).push(padded[i as int]));
                } else if i == int_len {
                    assert(padded.subrange(int_len as int, i + 1) =~= seq![padded[i as int]]);
                    assert(padded.take(i as int) == padded.take(int_len as int));
                } else {
                    assert(padded.subrange(int_len as int, i + 1) =~= padded.subrange(
                        int_len as int,
                        i as int,
                    ).push(padded[i as int]));
                }
            }
            i = i + 1;
        }
        proof {
            assert(padded.take(len as int) =~= padded);
            assert(padded.subrange(int_len as int, len as int) =~= padded.skip(int_len as int));
        }
        out
    }
}

} // verus!

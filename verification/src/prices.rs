use vstd::prelude::*;
use vstd::string::{StrSliceExecFns, StringExecFns};

use crate::errors::ScrapeError;
use crate::text::{
    dec_rep, digit_char, digit_str, digit_val, is_digit, is_digit_char, u128_to_string,
};

verus! {

/// Ten to the power `k`.
pub open spec fn pow10(k: nat) -> nat
    decreases k,
{
    if k == 0 {
        1
    } else {
        10 * pow10((k - 1) as nat)
    }
}

/// The running state of a left-to-right scan of a price string: the numeral
/// read so far (all digits run together), how many digits stand after the
/// last comma, and how many digits and commas were seen. Characters that are
/// neither digits nor commas are ignored, which is what discards currency
/// symbols, whitespace and thousands separators.
pub struct PriceScan {
    pub num: nat,
    pub frac: Option<nat>,
    pub digits: nat,
    pub commas: nat,
}

/// Scans a price string from the left, one character at a time.
pub open spec fn price_scan(s: Seq<char>) -> PriceScan
    decreases s.len(),
{
    if s.len() == 0 {
        PriceScan { num: 0, frac: None, digits: 0, commas: 0 }
    } else {
        let p = price_scan(s.drop_last());
        let c = s.last();
        if c == ',' {
            PriceScan { num: p.num, frac: Some(0), digits: p.digits, commas: p.commas + 1 }
        } else if is_digit_char(c) {
            PriceScan {
                num: (p.num * 10 + digit_val(c)) as nat,
                frac: match p.frac {
                    Option::None => None,
                    Option::Some(k) => Some((k + 1) as nat),
                },
                digits: p.digits + 1,
                commas: p.commas,
            }
        } else {
            p
        }
    }
}

/// A price string is a valid numeral when it holds at least one digit, at
/// most one decimal comma, and no more digits than a price can carry.
pub open spec fn price_ok(s: Seq<char>) -> bool {
    let p = price_scan(s);
    1 <= p.digits && p.digits <= 15 && p.commas <= 1
}

/// All the digits of a price string, read as one natural number.
pub open spec fn price_num(s: Seq<char>) -> nat {
    price_scan(s).num
}

/// How many of those digits stand after the decimal comma.
pub open spec fn price_frac(s: Seq<char>) -> nat {
    match price_scan(s).frac {
        Option::None => 0,
        Option::Some(k) => k,
    }
}

/// A parsed price: `num` carries every digit of the numeral and `scale` says
/// how many of them are fraction digits, so the price equals
/// `num / 10^scale`. A numeral is capped at fifteen digits, which keeps all
/// later arithmetic exact.
pub struct Price {
    pub num: u64,
    pub scale: u8,
}

impl Price {
    /// A parsed price is well formed when its numeral fits the cap and its
    /// fraction digits are among its digits.
    pub open spec fn wf(self) -> bool {
        self.num < 1000000000000000 && self.scale <= 15
    }

    /// The price value scaled to fifteen fraction digits, which puts every
    /// well-formed price on one common integer scale.
    pub open spec fn val15(self) -> int {
        self.num * pow10((15 - self.scale) as nat)
    }
}

/// The price a valid price string denotes.
pub open spec fn spec_price(s: Seq<char>) -> Price {
    Price { num: price_num(s) as u64, scale: price_frac(s) as u8 }
}

proof fn lemma_pow10_15()
    ensures
        pow10(15) == 1000000000000000,
{
    reveal_with_fuel(pow10, 17);
}

/// A well-formed price scaled to fifteen fraction digits stays below ten to
/// the thirtieth.
pub proof fn lemma_val15_bound(p: Price)
    requires
        p.wf(),
    ensures
        0 <= p.val15() < 1000000000000000000000000000000,
{
    lemma_pow10_15();
    lemma_pow10_le((15 - p.scale) as nat, 15);
    assert(p.num * pow10((15 - p.scale) as nat) < 1000000000000000000000000000000) by (nonlinear_arith)
        requires
            0 <= p.num < 1000000000000000,
            0 < pow10((15 - p.scale) as nat) <= 1000000000000000,
    ;
    assert(p.num * pow10((15 - p.scale) as nat) >= 0) by (nonlinear_arith)
        requires
            p.num >= 0,
            pow10((15 - p.scale) as nat) >= 0,
    ;
}

proof fn lemma_pow10_pos(k: nat)
    ensures
        pow10(k) >= 1,
    decreases k,
{
    if k > 0 {
        lemma_pow10_pos((k - 1) as nat);
    }
}

proof fn lemma_pow10_le(j: nat, k: nat)
    requires
        j <= k,
    ensures
        0 < pow10(j) <= pow10(k),
    decreases k,
{
    lemma_pow10_pos(j);
    if j < k {
        lemma_pow10_le(j, (k - 1) as nat);
        lemma_pow10_pos((k - 1) as nat);
        assert(pow10(k) == 10 * pow10((k - 1) as nat));
    }
}

/// Parses a display price: keep digits and the decimal comma, discard every
/// other character, and read the result as a fixed-point numeral. Fails with
/// `PriceParse` when no digit, a second comma, or more digits than a price
/// can carry are found. The fifteen-digit cap is what keeps the numeral in
/// a `u64` and every later product — common scale and discount numerator —
/// exact in a `u128`.
pub fn parse_price(s: &str) -> (r: Result<Price, ScrapeError>)
    ensures
        price_ok(s@) ==> (r matches Ok(p) && p.wf() && p == spec_price(s@)),
        !price_ok(s@) ==> r == Err::<Price, ScrapeError>(ScrapeError::PriceParse),
{
    let n = s.unicode_len();
    let mut num: u64 = 0;
    let mut frac: Option<u8> = None;
    let mut digits: usize = 0;
    let mut commas: usize = 0;
    let mut over: bool = false;
    let mut i: usize = 0;
    proof {
        assert(s@.take(0) =~= Seq::<char>::empty());
    }
    while i < n
        invariant
            0 <= i <= n,
            n == s@.len(),
            digits == price_scan(s@.take(i as int)).digits,
            commas == price_scan(s@.take(i as int)).commas,
            over <==> digits > 15,
            !over ==> num == price_scan(s@.take(i as int)).num && num < pow10(digits as nat) && (
            match price_scan(s@.take(i as int)).frac {
                Option::None => frac is None,
                Option::Some(k) => frac == Some(k as u8) && k <= digits,
            }),
            digits <= i,
            commas <= i,
        decreases n - i,
    {
        let c = s.get_char(i);
        proof {
            assert(s@.take(i + 1).drop_last() =~= s@.take(i as int));
            assert(s@.take(i + 1).last() == s@[i as int]);
        }
        if c == ',' {
            frac = Some(0);
            commas = commas + 1;
        } else if is_digit(c) {
            if digits == 15 {
                over = true;
            }
            digits = digits + 1;
            if !over {
                let d = (c as u32 - 48) as u64;
                proof {
                    assert(pow10((digits - 1) as nat + 1) == 10 * pow10((digits - 1) as nat));
                    lemma_pow10_le(digits as nat, 15);
                    lemma_pow10_15();
                }
                num = num * 10 + d;
                frac = match frac {
                    Option::None => None,
                    Option::Some(k) => Some(k + 1),
                };
            }
        }
        i = i + 1;
    }
    proof {
        assert(s@.take(n as int) =~= s@);
    }
    if digits == 0 || commas > 1 || over {
        Err(ScrapeError::PriceParse)
    } else {
        let scale: u8 = match frac {
            Option::None => 0,
            Option::Some(k) => k,
        };
        proof {
            lemma_pow10_le(digits as nat, 15);
            lemma_pow10_15();
        }
        Ok(Price { num, scale })
    }
}

/// The characters normalization keeps: digits and the decimal comma.
pub open spec fn keeps_price_char(c: char) -> bool {
    is_digit_char(c) || c == ','
}

/// The keep-predicate as a value, so every mention is one function.
pub open spec fn price_char_pred() -> spec_fn(char) -> bool {
    |c: char| keeps_price_char(c)
}

/// Normalization ignores noise: a price string scans to the same numeral,
/// fraction width and comma count as its digits-and-comma subsequence, so
/// currency symbols, whitespace and thousands separators written as other
/// characters never change the parsed value.
pub proof fn lemma_scan_ignores_noise(s: Seq<char>)
    ensures
        price_scan(s) == price_scan(s.filter(price_char_pred())),
    decreases s.len(),
{
    reveal(Seq::filter);
    if s.len() == 0 {
    } else {
        lemma_scan_ignores_noise(s.drop_last());
        let fs = s.filter(price_char_pred());
        let fd = s.drop_last().filter(price_char_pred());
        if price_char_pred()(s.last()) {
            assert(fs == fd.push(s.last()));
            assert(fs.len() > 0);
            assert(fs.drop_last() =~= fd);
            assert(fs.last() == s.last());
        } else {
            assert(fs == fd);
        }
    }
}

/// A discount percentage in units of one ten-thousandth of a percent, with
/// its sign kept apart: `units == 250125` and `neg == false` reads as a drop
/// of 25.0125 percent.
pub struct Discount {
    pub neg: bool,
    pub units: u128,
}

/// A price change as units of one ten-thousandth of a percent: the ratio
/// `diff / ov` scaled by one million and rounded down — except that a real
/// change too small for one unit reads as one unit, never as zero.
pub open spec fn discount_units(diff: int, ov: int) -> int {
    let q = 1000000 * diff / ov;
    if q == 0 && diff > 0 {
        1
    } else {
        q
    }
}

/// The discount of a discounted price against an original one, as the pair
/// (negative, ten-thousandths of a percent): one hundred times the price
/// drop over the original price, on the common fifteen-digit scale.
pub open spec fn spec_discount(o: Price, d: Price) -> (bool, int) {
    if d.val15() <= o.val15() {
        (false, discount_units(o.val15() - d.val15(), o.val15()))
    } else {
        (true, discount_units(d.val15() - o.val15(), o.val15()))
    }
}

/// Ten to the power `k`, executable for the scales a price can carry.
fn pow10_u64(k: u8) -> (r: u64)
    requires
        k <= 15,
    ensures
        r == pow10(k as nat),
        r >= 1,
{
    proof {
        reveal_with_fuel(pow10, 17);
    }
    match k {
        0 => 1,
        1 => 10,
        2 => 100,
        3 => 1000,
        4 => 10000,
        5 => 100000,
        6 => 1000000,
        7 => 10000000,
        8 => 100000000,
        9 => 1000000000,
        10 => 10000000000,
        11 => 100000000000,
        12 => 1000000000000,
        13 => 10000000000000,
        14 => 100000000000000,
        _ => 1000000000000000,
    }
}

/// Computes the discount percentage of `discounted` against `original`, in
/// units of one ten-thousandth of a percent, rounded down — except that a
/// real price change never reads as zero: a drop below one unit is carried
/// as one unit. An original price of zero leaves the percentage undefined
/// and fails with `DivisionByZero`; this library chooses the explicit error
/// over a sentinel value.
pub fn compute_discount(original: &Price, discounted: &Price) -> (r: Result<Discount, ScrapeError>)
    requires
        original.wf(),
        discounted.wf(),
    ensures
        original.val15() == 0 ==> r == Err::<Discount, ScrapeError>(ScrapeError::DivisionByZero),
        original.val15() != 0 ==> (r matches Ok(x) && x.neg == spec_discount(
            *original,
            *discounted,
        ).0 && x.units == spec_discount(*original, *discounted).1),
{
    proof {
        lemma_val15_bound(*original);
        lemma_val15_bound(*discounted);
    }
    let o15: u128 = (original.num as u128) * (pow10_u64(15 - original.scale) as u128);
    let d15: u128 = (discounted.num as u128) * (pow10_u64(15 - discounted.scale) as u128);
    proof {
        assert(o15 == original.val15() && d15 == discounted.val15()) by (nonlinear_arith)
            requires
                o15 == (original.num as int) * pow10((15 - original.scale) as nat),
                d15 == (discounted.num as int) * pow10((15 - discounted.scale) as nat),
                original.val15() == (original.num as int) * pow10((15 - original.scale) as nat),
                discounted.val15() == (discounted.num as int) * pow10(
                    (15 - discounted.scale) as nat,
                ),
        ;
    }
    if o15 == 0 {
        return Err(ScrapeError::DivisionByZero);
    }
    if d15 <= o15 {
        let diff = o15 - d15;
        let q = (1000000 * diff) / o15;
        let units = if q == 0 && diff > 0 {
            1
        } else {
            q
        };
        Ok(Discount { neg: false, units })
    } else {
        let diff = d15 - o15;
        let q = (1000000 * diff) / o15;
        let units = if q == 0 {
            1
        } else {
            q
        };
        Ok(Discount { neg: true, units })
    }
}

/// The display text of a discount: a minus sign when the price went up, the
/// whole percents, a period, and exactly four fraction digits — the stored
/// value shown in full, with no further rounding.
pub open spec fn spec_render_discount(neg: bool, units: int) -> Seq<char> {
    (if neg {
        seq!['-']
    } else {
        Seq::<char>::empty()
    }) + dec_rep((units / 10000) as nat) + seq!['.'] + seq![
        digit_char((units % 10000) / 1000),
        digit_char((units % 1000) / 100),
        digit_char((units % 100) / 10),
        digit_char(units % 10),
    ]
}

/// Renders a discount as display text with four fraction digits.
pub fn render_discount(d: &Discount) -> (r: String)
    ensures
        r@ == spec_render_discount(d.neg, d.units as int),
{
    let mut out = if d.neg {
        String::from_str("-")
    } else {
        String::new()
    };
    let whole = u128_to_string(d.units / 10000);
    out.append(whole.as_str());
    out.append(".");
    out.append(digit_str((d.units % 10000) / 1000));
    out.append(digit_str((d.units % 1000) / 100));
    out.append(digit_str((d.units % 100) / 10));
    out.append(digit_str(d.units % 10));
    proof {
        reveal_strlit("-");
        reveal_strlit(".");
        assert(out@ =~= spec_render_discount(d.neg, d.units as int));
    }
    out
}

/// For a pair of prices with the original above the discounted one and both
/// above zero, the discount lies strictly between zero and one hundred
/// percent: the exact ratio does, and so does the stored value — at least
/// one unit, since a real drop never reads as zero, and below one million
/// units. Apart from that minimum unit, the stored value rounds the exact
/// ratio down and never overstates it by a full unit.
pub proof fn lemma_discount_in_range(o: Price, d: Price)
    requires
        o.wf(),
        d.wf(),
        o.val15() > d.val15(),
        d.val15() > 0,
    ensures
        !spec_discount(o, d).0,
        1 <= spec_discount(o, d).1 < 1000000,
        0 < 1000000 * (o.val15() - d.val15()) < 1000000 * o.val15(),
        1000000 * (o.val15() - d.val15()) < (spec_discount(o, d).1 + 1) * o.val15(),
        spec_discount(o, d).1 > 1 ==> spec_discount(o, d).1 * o.val15() <= 1000000 * (o.val15()
            - d.val15()),
{
    let ov = o.val15();
    let dv = d.val15();
    let n = 1000000 * (ov - dv);
    let q = n / ov;
    vstd::arithmetic::div_mod::lemma_fundamental_div_mod(n, ov);
    vstd::arithmetic::div_mod::lemma_mod_bound(n, ov);
    assert(n == ov * q + n % ov);
    assert(q * ov <= n < (q + 1) * ov) by (nonlinear_arith)
        requires
            n == ov * q + n % ov,
            0 <= n % ov < ov,
    ;
    assert(n < 1000000 * ov);
    assert(q >= 0) by (nonlinear_arith)
        requires
            q * ov <= n,
            n >= 0,
            ov > 0,
            n < (q + 1) * ov,
    ;
    assert(q < 1000000) by (nonlinear_arith)
        requires
            q * ov < 1000000 * ov,
            ov > 0,
    ;
    let u = spec_discount(o, d).1;
    if q == 0 {
        assert(u == 1);
        assert(n < ov);
        assert(n < (u + 1) * ov) by (nonlinear_arith)
            requires
                n < ov,
                ov > 0,
                u == 1,
        ;
    }
}

} // verus!

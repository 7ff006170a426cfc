//! Amounts of currency without an upper bound.

use vstd::prelude::*;

verus! {

/// The base of the digits of an amount.
pub const BASE: u64 = 0x1_0000_0000;

/// An amount of currency: nothing, or a lowest digit to the base 2^32 and
/// the amount that the higher digits make.
#[derive(Debug, PartialEq, Eq)]
pub enum Amount {
    Zero,
    Digits(u32, Box<Amount>),
}

impl Clone for Amount {
    fn clone(&self) -> (r: Amount)
        ensures
            r == *self,
    {
        self.copy()
    }
}

impl Amount {
    /// The number that the amount stands for.
    pub open spec fn value(self) -> nat
        decreases self,
    {
        match self {
            Amount::Zero => 0,
            Amount::Digits(low, high) => low as nat + BASE as nat * high.value(),
        }
    }

    /// Whether the amount is written without a leading zero digit.
    pub open spec fn canonical(self) -> bool
        decreases self,
    {
        match self {
            Amount::Zero => true,
            Amount::Digits(low, high) => high.canonical() && !(low == 0 && *high == Amount::Zero),
        }
    }
}

/// The amount that stands for `n`, written without a leading zero digit.
pub open spec fn amount(n: nat) -> Amount
    decreases n,
{
    if n == 0 {
        Amount::Zero
    } else {
        Amount::Digits((n % BASE as nat) as u32, Box::new(amount(n / BASE as nat)))
    }
}

/// `amount(n)` stands for `n` and has no leading zero digit.
pub proof fn lemma_amount(n: nat)
    ensures
        amount(n).value() == n,
        amount(n).canonical(),
        (amount(n) == Amount::Zero) == (n == 0),
    decreases n,
{
    if n != 0 {
        lemma_amount(n / BASE as nat);
    }
}

/// An amount without a leading zero digit is the amount of its value:
/// two such amounts of one value are the same.
pub proof fn lemma_canonical(a: Amount)
    requires
        a.canonical(),
    ensures
        a == amount(a.value()),
        (a == Amount::Zero) == (a.value() == 0),
    decreases a,
{
    match a {
        Amount::Zero => {},
        Amount::Digits(low, high) => {
            lemma_canonical(*high);
            let n = a.value();
            assert(n == low + BASE * high.value());
            assert(n % BASE as nat == low && n / BASE as nat == high.value());
            assert(amount(n) == Amount::Digits(low, Box::new(amount(high.value()))));
        },
    }
}

/// Puts a digit below an amount, without writing a leading zero.
fn digits(low: u32, high: Amount) -> (r: Amount)
    requires
        high.canonical(),
    ensures
        r.canonical(),
        r.value() == low + BASE * high.value(),
{
    let nothing = match high {
        Amount::Zero => low == 0,
        _ => false,
    };
    if nothing {
        Amount::Zero
    } else {
        Amount::Digits(low, Box::new(high))
    }
}

/// The lowest digit of an amount.
fn low_digit(a: &Amount) -> (low: u32)
    ensures
        low == (match *a {
            Amount::Zero => 0u32,
            Amount::Digits(d, _) => d,
        }),
{
    match a {
        Amount::Zero => 0,
        Amount::Digits(d, _) => *d,
    }
}

fn add_carry(a: &Amount, b: &Amount, carry: u32) -> (r: Amount)
    requires
        carry <= 1,
    ensures
        r.canonical(),
        r.value() == a.value() + b.value() + carry,
    decreases *a, *b,
{
    match (a, b) {
        (Amount::Zero, Amount::Zero) => digits(carry, Amount::Zero),
        (Amount::Digits(x, higher), Amount::Zero) => {
            let sum: u64 = *x as u64 + carry as u64;
            let rest = add_carry(higher, b, (sum / BASE) as u32);
            digits((sum % BASE) as u32, rest)
        },
        (Amount::Zero, Amount::Digits(y, higher)) => {
            let sum: u64 = *y as u64 + carry as u64;
            let rest = add_carry(a, higher, (sum / BASE) as u32);
            digits((sum % BASE) as u32, rest)
        },
        (Amount::Digits(x, higher_a), Amount::Digits(y, higher_b)) => {
            let sum: u64 = *x as u64 + *y as u64 + carry as u64;
            let rest = add_carry(higher_a, higher_b, (sum / BASE) as u32);
            digits((sum % BASE) as u32, rest)
        },
    }
}

fn times_digit(a: &Amount, m: u32, carry: u32) -> (r: Amount)
    ensures
        r.canonical(),
        r.value() == a.value() * m + carry,
    decreases *a,
{
    match a {
        Amount::Zero => {
            assert(0 * m == 0);
            digits(carry, Amount::Zero)
        },
        Amount::Digits(x, higher) => {
            let ghost x0 = *x;
            assert(x0 * m + carry <= 0xffff_ffff * 0xffff_ffff + 0xffff_ffff) by (nonlinear_arith)
                requires
                    0 <= x0 <= 0xffff_ffff,
                    0 <= m <= 0xffff_ffff,
                    0 <= carry <= 0xffff_ffff,
            ;
            let product: u64 = (*x as u64) * (m as u64) + carry as u64;
            let rest = times_digit(higher, m, (product / BASE) as u32);
            let r = digits((product % BASE) as u32, rest);
            proof {
                let h = higher.value();
                assert((x0 + BASE * h) * m == x0 * m + BASE * (h * m)) by (nonlinear_arith);
            }
            r
        },
    }
}

fn take_away(a: &Amount, b: &Amount, borrow: u32) -> (r: Option<Amount>)
    requires
        borrow <= 1,
    ensures
        r.is_some() == (a.value() >= b.value() + borrow),
        r.is_some() ==> r.unwrap().canonical() && r.unwrap().value() == a.value() - b.value()
            - borrow,
    decreases *a, *b,
{
    let x: i64 = low_digit(a) as i64;
    let y: i64 = low_digit(b) as i64;
    let next = x - y - borrow as i64;
    let (low, lent): (u32, u32) = if next < 0 {
        ((next + BASE as i64) as u32, 1u32)
    } else {
        (next as u32, 0u32)
    };
    let rest = match (a, b) {
        (Amount::Zero, Amount::Zero) => {
            if borrow == 0 {
                Some(Amount::Zero)
            } else {
                None
            }
        },
        (Amount::Digits(_, higher), Amount::Zero) => take_away(higher, b, lent),
        (Amount::Zero, Amount::Digits(_, higher)) => take_away(a, higher, lent),
        (Amount::Digits(_, higher_a), Amount::Digits(_, higher_b)) => take_away(
            higher_a,
            higher_b,
            lent,
        ),
    };
    match rest {
        Some(high) => Some(digits(low, high)),
        None => None,
    }
}

impl Amount {
    /// The amount of a machine word.
    pub fn from_u128(v: u128) -> (r: Amount)
        ensures
            r == amount(v as nat),
        decreases v,
    {
        if v == 0 {
            Amount::Zero
        } else {
            Amount::Digits((v % BASE as u128) as u32, Box::new(Amount::from_u128(v / BASE as u128)))
        }
    }

    /// A copy of the amount.
    pub fn copy(&self) -> (r: Amount)
        ensures
            r == *self,
        decreases *self,
    {
        match self {
            Amount::Zero => Amount::Zero,
            Amount::Digits(low, high) => Amount::Digits(*low, Box::new(high.copy())),
        }
    }

    /// The sum of two amounts.
    pub fn plus(&self, other: &Amount) -> (r: Amount)
        ensures
            r == amount(self.value() + other.value()),
    {
        let r = add_carry(self, other, 0);
        proof {
            lemma_canonical(r);
        }
        r
    }

    /// The product of two amounts.
    pub fn times(&self, other: &Amount) -> (r: Amount)
        ensures
            r == amount(self.value() * other.value()),
        decreases *self,
    {
        match self {
            Amount::Zero => {
                assert(0 * other.value() == 0);
                Amount::Zero
            },
            Amount::Digits(low, high) => {
                let lower = times_digit(other, *low, 0);
                let higher = high.times(other);
                proof {
                    lemma_amount(high.value() * other.value());
                }
                let shifted = digits(0, higher);
                let r = add_carry(&lower, &shifted, 0);
                proof {
                    let l = *low;
                    let h = high.value();
                    let o = other.value();
                    assert((l + BASE * h) * o == o * l + BASE * (h * o)) by (nonlinear_arith);
                    lemma_canonical(r);
                }
                r
            },
        }
    }

    /// The amount less `other`, where it is that much.
    pub fn minus(&self, other: &Amount) -> (r: Option<Amount>)
        ensures
            r.is_some() == (self.value() >= other.value()),
            r.is_some() ==> r.unwrap() == amount((self.value() - other.value()) as nat),
    {
        let r = take_away(self, other, 0);
        proof {
            if r.is_some() {
                lemma_canonical(r.unwrap());
            }
        }
        r
    }

    /// Whether the amount covers a price.
    pub fn covers(&self, price: u128) -> (enough: bool)
        ensures
            enough == (self.value() >= price),
    {
        let needed = Amount::from_u128(price);
        proof {
            lemma_amount(price as nat);
        }
        take_away(self, &needed, 0).is_some()
    }
}

} // verus!

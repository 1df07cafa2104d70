use cosmwasm_std::Decimal;
use vstd::prelude::*;

verus! {

/// Number of atomic units in one `Decimal` unit (`Decimal` has 18 fractional digits).
pub const DECIMAL_FRACTIONAL: u128 = 1_000_000_000_000_000_000u128;

/// The raw `Decimal` that the oracle rate divides: `Decimal::raw(1_000_000)`.
pub const RATE_NUMERATOR: u128 = 1_000_000u128;

/// The denomination of the chain's staking token.
pub open spec fn usei_denom() -> Seq<char> {
    seq!['u', 's', 'e', 'i']
}

/// One entry of the oracle's answer: a denomination and its exchange rate,
/// the rate given by the atomics of a `Decimal`.
pub struct ExchangeRatePair {
    pub denom: String,
    pub exchange_rate: u128,
}

/// Price conversion between usei and USD, with the price taken from the oracle.
pub struct BandProtocol {
    sei_per_usd: u128,
}

/// `<cosmwasm_std::Decimal as Div>::div` on two decimals given by their atomics.
/// Claimed, as the crate's source computes it through `checked_from_ratio`:
/// the atomics of the quotient are `numerator * 10^18 / denominator` rounded down;
/// the source panics on a zero denominator or when that value does not fit in
/// 128 bits, which `requires` leaves out.
#[verifier::external_body]
fn decimal_div(numerator: u128, denominator: u128) -> (quotient: u128)
    requires
        denominator > 0,
        numerator * DECIMAL_FRACTIONAL / (denominator as int) <= u128::MAX,
    ensures
        quotient == numerator * DECIMAL_FRACTIONAL / (denominator as int),
{
    (Decimal::raw(numerator) / Decimal::raw(denominator)).atomics().u128()
}

/// `cosmwasm_std::Decimal::to_uint_floor` on a decimal given by its atomics.
/// Claimed, as the source shows: the atomics divided by 10^18, rounded down.
#[verifier::external_body]
fn decimal_to_uint_floor(atomics: u128) -> (whole: u128)
    ensures
        whole == atomics / DECIMAL_FRACTIONAL,
{
    Decimal::raw(atomics).to_uint_floor().u128()
}

/// The price that an oracle rate gives: `floor(floor(10^6 * 10^18 / rate) / 10^18)`.
pub open spec fn price_from_rate(rate: u128) -> int {
    (RATE_NUMERATOR * DECIMAL_FRACTIONAL / (rate as int)) / (DECIMAL_FRACTIONAL as int)
}

/// The price that a list of oracle pairs gives: that of the last pair for usei,
/// or half a USD in atomics where no pair is for usei.
pub open spec fn price_from_pairs(pairs: Seq<ExchangeRatePair>) -> int
    decreases pairs.len(),
{
    if pairs.len() == 0 {
        (BandProtocol::ONE_USD / 2) as int
    } else if pairs.last().denom@ == usei_denom() {
        price_from_rate(pairs.last().exchange_rate)
    } else {
        price_from_pairs(pairs.drop_last())
    }
}

/// Every usei pair has a rate that can divide.
pub open spec fn usei_rates_positive(pairs: Seq<ExchangeRatePair>) -> bool {
    forall|i: int| 0 <= i < pairs.len() && (#[trigger] pairs[i]).denom@ == usei_denom()
        ==> pairs[i].exchange_rate > 0
}

/// USD atomics that a usei amount is worth at a price: `usei * price / 10^18`, rounded down.
pub open spec fn usd_value(usei: int, price: int) -> int {
    usei * price / (BandProtocol::ONE_USD as int)
}

/// Usei that USD atomics are worth at a price: `usd * 10^18 / price`, rounded down.
pub open spec fn usei_value(usd: int, price: int) -> int {
    usd * (BandProtocol::ONE_USD as int) / price
}

impl BandProtocol {
    pub const DECIMALS: u8 = 18;

    pub const ONE_USD: u128 = 1_000_000_000_000_000_000u128;

    /// The price held, in usd atomics per usei.
    pub closed spec fn price(self) -> int {
        self.sei_per_usd as int
    }

    /// A price is a `u128`: never negative.
    pub proof fn lemma_price_bounds(&self)
        ensures
            0 <= self.price() <= u128::MAX,
    {
    }

    /// The price that the oracle's pairs give; the last usei pair counts.
    pub fn new(pairs: &Vec<ExchangeRatePair>) -> (band: BandProtocol)
        requires
            usei_rates_positive(pairs@),
        ensures
            band.price() == price_from_pairs(pairs@),
            0 <= band.price() <= u128::MAX,
    {
        let usei = String::from_str("usei");
        proof {
            reveal_strlit("usei");
        }
        let mut sei_per_usd: u128 = Self::ONE_USD / 2;
        let n = pairs.len();
        for i in 0..n
            invariant
                n == pairs.len(),
                usei@ == usei_denom(),
                usei_rates_positive(pairs@),
                sei_per_usd == price_from_pairs(pairs@.take(i as int)),
        {
            proof {
                assert(pairs@.take(i + 1).drop_last() =~= pairs@.take(i as int));
                assert(pairs@.take(i + 1).last() == pairs@[i as int]);
            }
            if pairs[i].denom == usei {
                let rate = pairs[i].exchange_rate;
                assert(RATE_NUMERATOR * DECIMAL_FRACTIONAL / (rate as int) <= u128::MAX) by (nonlinear_arith)
                    requires
                        rate > 0,
                        RATE_NUMERATOR * DECIMAL_FRACTIONAL <= u128::MAX,
                ;
                let atomics = decimal_div(RATE_NUMERATOR, rate);
                sei_per_usd = decimal_to_uint_floor(atomics);
            }
        }
        proof {
            assert(pairs@.take(n as int) =~= pairs@);
        }
        BandProtocol { sei_per_usd }
    }

    /// The price held.
    pub fn sei_per_usd(&self) -> (price: u128)
        ensures
            price == self.price(),
            0 <= self.price() <= u128::MAX,
    {
        self.sei_per_usd
    }

    /// USD atomics worth the given usei: `usei * price / 10^18`, rounded down.
    pub fn usd_amount(&self, usei: u128) -> (usd: u128)
        requires
            usei * self.price() <= u128::MAX,
        ensures
            usd == usd_value(usei as int, self.price()),
    {
        let value = usei * self.sei_per_usd;
        value / Self::ONE_USD
    }

    /// Usei worth the given USD atomics: `usd * 10^18 / price`, rounded down.
    pub fn usei_amount(&self, usd: u128) -> (usei: u128)
        requires
            usd * (Self::ONE_USD as int) <= u128::MAX,
            self.price() > 0,
        ensures
            usei == usei_value(usd as int, self.price()),
    {
        let value = usd * Self::ONE_USD;
        value / self.sei_per_usd
    }
}

/// Converting to USD and back never gains usei, and converting to usei and
/// back never gains USD: both conversions round down.
pub proof fn lemma_conversions_round_down(x: int, price: int)
    requires
        x >= 0,
        price > 0,
    ensures
        0 <= usei_value(usd_value(x, price), price) <= x,
        0 <= usd_value(usei_value(x, price), price) <= x,
{
    let d = BandProtocol::ONE_USD as int;
    let q = x * price / d;
    assert(0 <= q && q * d <= x * price) by (nonlinear_arith)
        requires
            q == x * price / d,
            d > 0,
            x >= 0,
            price > 0,
    ;
    assert(0 <= q * d / price <= x) by (nonlinear_arith)
        requires
            0 <= q * d <= x * price,
            price > 0,
    ;
    let r = x * d / price;
    assert(0 <= r && r * price <= x * d) by (nonlinear_arith)
        requires
            r == x * d / price,
            d > 0,
            x >= 0,
            price > 0,
    ;
    assert(0 <= r * price / d <= x) by (nonlinear_arith)
        requires
            0 <= r * price <= x * d,
            d > 0,
    ;
}

/// `usd_value` is the floor of `usei * price / 10^18`: the largest whole amount
/// of USD atomics that the usei is worth.
pub proof fn lemma_usd_value_is_floor(usei: int, price: int)
    requires
        usei >= 0,
        price >= 0,
    ensures
        usd_value(usei, price) >= 0,
        usd_value(usei, price) * (BandProtocol::ONE_USD as int) <= usei * price,
        usei * price < (usd_value(usei, price) + 1) * (BandProtocol::ONE_USD as int),
{
    let d = BandProtocol::ONE_USD as int;
    let q = usd_value(usei, price);
    assert(q >= 0 && q * d <= usei * price < (q + 1) * d) by (nonlinear_arith)
        requires
            q == usei * price / d,
            d > 0,
            usei >= 0,
            price >= 0,
    ;
}

/// `usei_value` is the floor of `usd * 10^18 / price`: the largest whole amount
/// of usei that the USD atomics buy.
pub proof fn lemma_usei_value_is_floor(usd: int, price: int)
    requires
        usd >= 0,
        price > 0,
    ensures
        usei_value(usd, price) >= 0,
        usei_value(usd, price) * price <= usd * (BandProtocol::ONE_USD as int),
        usd * (BandProtocol::ONE_USD as int) < (usei_value(usd, price) + 1) * price,
{
    let d = BandProtocol::ONE_USD as int;
    let q = usei_value(usd, price);
    assert(q >= 0 && q * price <= usd * d < (q + 1) * price) by (nonlinear_arith)
        requires
            q == usd * d / price,
            d > 0,
            usd >= 0,
            price > 0,
    ;
}

/// The price that an oracle rate gives is `10^6 / rate`, rounded down: the
/// rate divides one millionth of a unit.
pub proof fn lemma_price_from_rate(rate: u128)
    requires
        rate > 0,
    ensures
        price_from_rate(rate) == 1_000_000int / (rate as int),
        price_from_rate(rate) * rate <= 1_000_000,
        1_000_000 < (price_from_rate(rate) + 1) * rate,
{
    let d = DECIMAL_FRACTIONAL as int;
    let r = rate as int;
    let m = RATE_NUMERATOR as int;
    vstd::arithmetic::div_mod::lemma_div_denominator(m * d, r, d);
    assert(r * d == d * r && m * d == d * m) by (nonlinear_arith);
    vstd::arithmetic::div_mod::lemma_div_multiples_vanish_quotient(d, m, r);
    let q = m / r;
    assert(q * r <= m < (q + 1) * r) by (nonlinear_arith)
        requires
            q == m / r,
            r > 0,
            m >= 0,
    ;
}

/// A pair that is not for usei leaves the price as it was, wherever it stands.
pub proof fn lemma_price_ignores_other_denominations(pairs: Seq<ExchangeRatePair>, pair: ExchangeRatePair)
    requires
        pair.denom@ != usei_denom(),
    ensures
        price_from_pairs(pairs.push(pair)) == price_from_pairs(pairs),
{
    assert(pairs.push(pair).drop_last() =~= pairs);
}

/// The price comes from the last usei pair, whatever pairs follow it.
pub proof fn lemma_price_from_last_usei_pair(pairs: Seq<ExchangeRatePair>, i: int)
    requires
        0 <= i < pairs.len(),
        pairs[i].denom@ == usei_denom(),
        forall|j: int| i < j < pairs.len() ==> (#[trigger] pairs[j]).denom@ != usei_denom(),
    ensures
        price_from_pairs(pairs) == price_from_rate(pairs[i].exchange_rate),
    decreases pairs.len(),
{
    if i < pairs.len() - 1 {
        let rest = pairs.drop_last();
        assert forall|j: int| i < j < rest.len() implies (#[trigger] rest[j]).denom@ != usei_denom() by {
            assert(rest[j] == pairs[j]);
        }
        assert(pairs.last() == pairs[pairs.len() - 1]);
        lemma_price_from_last_usei_pair(rest, i);
    }
}

/// Without any usei pair the price is half a USD.
pub proof fn lemma_price_without_usei_pair(pairs: Seq<ExchangeRatePair>)
    requires
        forall|j: int| 0 <= j < pairs.len() ==> (#[trigger] pairs[j]).denom@ != usei_denom(),
    ensures
        price_from_pairs(pairs) == BandProtocol::ONE_USD / 2,
    decreases pairs.len(),
{
    if pairs.len() > 0 {
        let rest = pairs.drop_last();
        assert forall|j: int| 0 <= j < rest.len() implies (#[trigger] rest[j]).denom@ != usei_denom() by {
            assert(rest[j] == pairs[j]);
        }
        assert(pairs.last() == pairs[pairs.len() - 1]);
        lemma_price_without_usei_pair(rest);
    }
}

} // verus!

use vstd::prelude::*;
use vstd::string::StringSliceAdditionalSpecFns;

verus! {

/// Fiat currencies the wallet can show balances in.
#[derive(Clone, Copy, Debug, PartialEq, Eq, Hash, Structural)]
pub enum FiatCurrency {
    USD,
    EUR,
    GBP,
    JPY,
    CAD,
    AUD,
    CHF,
    CNY,
    INR,
    BRL,
    MXN,
    KRW,
}

/// ISO code of each currency.
pub open spec fn spec_currency_code(c: FiatCurrency) -> Seq<char> {
    match c {
        FiatCurrency::USD => "USD"@,
        FiatCurrency::EUR => "EUR"@,
        FiatCurrency::GBP => "GBP"@,
        FiatCurrency::JPY => "JPY"@,
        FiatCurrency::CAD => "CAD"@,
        FiatCurrency::AUD => "AUD"@,
        FiatCurrency::CHF => "CHF"@,
        FiatCurrency::CNY => "CNY"@,
        FiatCurrency::INR => "INR"@,
        FiatCurrency::BRL => "BRL"@,
        FiatCurrency::MXN => "MXN"@,
        FiatCurrency::KRW => "KRW"@,
    }
}

impl FiatCurrency {
    /// The ISO code of the currency.
    pub fn code(&self) -> (r: &'static str)
        ensures
            r@ == spec_currency_code(*self),
    {
        match self {
            FiatCurrency::USD => "USD",
            FiatCurrency::EUR => "EUR",
            FiatCurrency::GBP => "GBP",
            FiatCurrency::JPY => "JPY",
            FiatCurrency::CAD => "CAD",
            FiatCurrency::AUD => "AUD",
            FiatCurrency::CHF => "CHF",
            FiatCurrency::CNY => "CNY",
            FiatCurrency::INR => "INR",
            FiatCurrency::BRL => "BRL",
            FiatCurrency::MXN => "MXN",
            FiatCurrency::KRW => "KRW",
        }
    }

    /// Every supported currency, in display order.
    pub fn all() -> (r: Vec<FiatCurrency>)
        ensures
            r@ == seq![
                FiatCurrency::USD,
                FiatCurrency::EUR,
                FiatCurrency::GBP,
                FiatCurrency::JPY,
                FiatCurrency::CAD,
                FiatCurrency::AUD,
                FiatCurrency::CHF,
                FiatCurrency::CNY,
                FiatCurrency::INR,
                FiatCurrency::BRL,
                FiatCurrency::MXN,
                FiatCurrency::KRW,
            ],
    {
        let mut v: Vec<FiatCurrency> = Vec::new();
        v.push(FiatCurrency::USD);
        v.push(FiatCurrency::EUR);
        v.push(FiatCurrency::GBP);
        v.push(FiatCurrency::JPY);
        v.push(FiatCurrency::CAD);
        v.push(FiatCurrency::AUD);
        v.push(FiatCurrency::CHF);
        v.push(FiatCurrency::CNY);
        v.push(FiatCurrency::INR);
        v.push(FiatCurrency::BRL);
        v.push(FiatCurrency::MXN);
        v.push(FiatCurrency::KRW);
        proof {
            assert(v@ =~= seq![
                FiatCurrency::USD,
                FiatCurrency::EUR,
                FiatCurrency::GBP,
                FiatCurrency::JPY,
                FiatCurrency::CAD,
                FiatCurrency::AUD,
                FiatCurrency::CHF,
                FiatCurrency::CNY,
                FiatCurrency::INR,
                FiatCurrency::BRL,
                FiatCurrency::MXN,
                FiatCurrency::KRW,
            ]);
        }
        v
    }
}

/// One historical price point, as the price service reports it.
pub struct HistoricalPriceData {
    pub timestamp: String,
    pub price: String,
}

/// Response of the historical-price endpoint.
pub struct HistoricalPriceResponse {
    pub prices: Vec<HistoricalPriceData>,
}

/// Time range of a historical-price query.
#[derive(Clone, Copy, Debug, PartialEq, Eq, Structural)]
pub enum TimeRange {
    OneDay,
    OneWeek,
    OneMonth,
    OneYear,
    Max,
}

/// Query-parameter spelling of each range.
pub open spec fn spec_range_param(r: TimeRange) -> Seq<char> {
    match r {
        TimeRange::OneDay => "1D"@,
        TimeRange::OneWeek => "1W"@,
        TimeRange::OneMonth => "1M"@,
        TimeRange::OneYear => "1Y"@,
        TimeRange::Max => "MAX"@,
    }
}

/// ASCII upper-casing of one byte.
pub open spec fn spec_upper_byte(b: u8) -> u8 {
    if 97 <= b <= 122 {
        (b - 32) as u8
    } else {
        b
    }
}

/// ASCII upper-casing of a byte sequence.
pub open spec fn spec_upper_bytes(s: Seq<u8>) -> Seq<u8> {
    s.map_values(|b: u8| spec_upper_byte(b))
}

/// Compare the ASCII upper-casing of `s` against `p`, byte for byte.
fn upper_eq(s: &str, p: &str) -> (r: bool)
    ensures
        r == (spec_upper_bytes(s.spec_bytes()) == p.spec_bytes()),
{
    let sb = s.as_bytes();
    let pb = p.as_bytes();
    if sb.len() != pb.len() {
        proof {
            assert(spec_upper_bytes(sb@).len() == sb@.len());
        }
        return false;
    }
    let n: usize = sb.len();
    let mut i: usize = 0;
    while i < n
        invariant
            n == sb@.len() == pb@.len(),
            i <= n,
            forall|j: int| 0 <= j < i ==> spec_upper_byte(sb@[j]) == pb@[j],
            sb@ == s.spec_bytes(),
            pb@ == p.spec_bytes(),
        decreases n - i,
    {
        let b = sb[i];
        let up: u8 = if b >= 97 && b <= 122 {
            b - 32
        } else {
            b
        };
        if up != pb[i] {
            proof {
                assert(spec_upper_bytes(s.spec_bytes())[i as int] != p.spec_bytes()[i as int]);
            }
            return false;
        }
        i += 1;
    }
    proof {
        assert(spec_upper_bytes(s.spec_bytes()) =~= p.spec_bytes());
    }
    true
}

/// The range whose upper-cased spelling is `s`, if any.
pub open spec fn spec_range_of_string(s: Seq<u8>) -> Option<TimeRange> {
    if spec_upper_bytes(s) == "1D".spec_bytes() {
        Some(TimeRange::OneDay)
    } else if spec_upper_bytes(s) == "1W".spec_bytes() {
        Some(TimeRange::OneWeek)
    } else if spec_upper_bytes(s) == "1M".spec_bytes() {
        Some(TimeRange::OneMonth)
    } else if spec_upper_bytes(s) == "1Y".spec_bytes() {
        Some(TimeRange::OneYear)
    } else if spec_upper_bytes(s) == "MAX".spec_bytes() {
        Some(TimeRange::Max)
    } else {
        None
    }
}

impl TimeRange {
    /// The query-parameter spelling of the range.
    pub fn to_query_param(&self) -> (r: &'static str)
        ensures
            r@ == spec_range_param(*self),
    {
        match self {
            TimeRange::OneDay => "1D",
            TimeRange::OneWeek => "1W",
            TimeRange::OneMonth => "1M",
            TimeRange::OneYear => "1Y",
            TimeRange::Max => "MAX",
        }
    }

    /// Parse a range, ignoring ASCII case; anything else is `None`.
    pub fn from_string(s: &str) -> (r: Option<TimeRange>)
        ensures
            r == spec_range_of_string(s.spec_bytes()),
    {
        if upper_eq(s, "1D") {
            Some(TimeRange::OneDay)
        } else if upper_eq(s, "1W") {
            Some(TimeRange::OneWeek)
        } else if upper_eq(s, "1M") {
            Some(TimeRange::OneMonth)
        } else if upper_eq(s, "1Y") {
            Some(TimeRange::OneYear)
        } else if upper_eq(s, "MAX") {
            Some(TimeRange::Max)
        } else {
            None
        }
    }
}

/// A mining pool, as the mempool feed names it.
pub struct MiningPool {
    pub id: Option<u32>,
    pub name: String,
    pub slug: Option<String>,
}

/// Confirmation state of a transaction.
pub struct TxStatus {
    pub confirmed: bool,
    pub block_height: Option<u64>,
    pub block_hash: Option<String>,
    pub block_time: Option<u64>,
}

/// One input of a Bitcoin transaction, as the block explorer reports it.
pub struct TxInput {
    pub txid: String,
    pub vout: u32,
    pub prevout: Option<TxOutput>,
    pub scriptsig: String,
    pub scriptsig_asm: String,
    pub witness: Option<Vec<String>>,
    pub is_coinbase: bool,
    pub sequence: u32,
}

/// One output of a Bitcoin transaction.
pub struct TxOutput {
    pub scriptpubkey: String,
    pub scriptpubkey_asm: String,
    pub scriptpubkey_type: String,
    pub scriptpubkey_address: Option<String>,
    pub value: u64,
}

/// A Bitcoin transaction, as the block explorer reports it.
pub struct BitcoinTransaction {
    pub txid: String,
    pub version: u32,
    pub locktime: u32,
    pub size: u32,
    pub weight: u32,
    pub fee: u64,
    pub sigops: Option<u32>,
    pub status: TxStatus,
    pub vin: Vec<TxInput>,
    pub vout: Vec<TxOutput>,
}

/// Timestamp of the last Fear & Greed update.
pub struct FearGreedLastUpdated {
    pub epoch_unix_seconds: Option<i64>,
    pub human_date: Option<String>,
}

/// One Fear & Greed reading.
pub struct FearGreedValue {
    pub value: Option<i32>,
    pub value_text: Option<String>,
}

/// Current and historical Fear & Greed readings.
pub struct FearGreedData {
    pub now: Option<FearGreedValue>,
    pub previous_close: Option<FearGreedValue>,
    pub one_week_ago: Option<FearGreedValue>,
    pub one_month_ago: Option<FearGreedValue>,
    pub one_year_ago: Option<FearGreedValue>,
}

/// Fear & Greed index response.
pub struct FearGreedIndex {
    pub last_updated: Option<FearGreedLastUpdated>,
    pub fgi: Option<FearGreedData>,
}

/// Data encrypted for the fiat on-ramp.
pub struct MoonPayEncryptedData {
    pub ciphertext: String,
    pub iv: String,
}

/// One tradeable asset of the swap service.
pub struct AssetInfo {
    pub token_id: String,
    pub symbol: String,
    pub name: String,
    pub chain: String,
    pub decimals: u8,
}

/// A pair of assets that can be swapped.
pub struct TradingPair {
    pub source: AssetInfo,
    pub target: AssetInfo,
}

} // verus!

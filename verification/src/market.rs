//! Broker orders and the OANDA conventions: instrument names, candle
//! granularities and order units.
use crate::decimal::{
    checked_div, decimal_display, decimal_div, decimal_from_str_exact, decimal_round_dp, display,
    from_str_exact, is_zero, is_zero_dec, neg, round_dp, Dec,
};
use crate::json::{get, json_of, json_text, json_to_text, parse_json, spec_get, Json, JsonV};
use crate::domain::{AppError, ErrorKind, Side};
use crate::text::{char_is_alphanumeric, chars_of, is_alphanumeric, string_of};
use vstd::prelude::*;

verus! {

/// Unified order request covering both contract (Deriv) and spot (OANDA) brokers.
#[derive(Clone, Debug)]
pub struct OrderRequest {
    pub symbol: String,
    pub side: Side,
    /// Notional in account currency (Deriv stake; OANDA converts to units).
    pub stake: Dec,
    /// Contract duration in seconds (Deriv). Ignored by spot brokers.
    pub duration_secs: Option<u32>,
    /// Price-based stop-loss (spot brokers).
    pub stop_loss_price: Option<Dec>,
    /// Price-based take-profit (spot brokers).
    pub take_profit_price: Option<Dec>,
    /// Monetary stop-loss (Deriv limit orders).
    pub stop_loss_amount: Option<Dec>,
    /// Monetary take-profit (Deriv limit orders).
    pub take_profit_amount: Option<Dec>,
}

/// What a broker reports for a placed order.
#[derive(Clone, Debug)]
pub struct BrokerOrder {
    pub broker_ref: String,
    pub filled_price: Dec,
    pub balance_after: Dec,
}

// ------------------------------------------------------------ instruments

/// Number of bytes UTF-8 takes for a character.
pub open spec fn utf8_width(c: char) -> nat {
    if (c as u32) < 0x80 {
        1
    } else if (c as u32) < 0x800 {
        2
    } else if (c as u32) < 0x10000 {
        3
    } else {
        4
    }
}

/// Number of bytes UTF-8 takes for a text.
pub open spec fn utf8_len(s: Seq<char>) -> nat
    decreases s.len(),
{
    if s.len() == 0 {
        0
    } else {
        utf8_len(s.drop_last()) + utf8_width(s.last())
    }
}

/// The alphanumeric characters of a text, in order.
pub open spec fn alnum_of(s: Seq<char>) -> Seq<char>
    decreases s.len(),
{
    if s.len() == 0 {
        Seq::empty()
    } else if char_is_alphanumeric(s.last()) {
        alnum_of(s.drop_last()).push(s.last())
    } else {
        alnum_of(s.drop_last())
    }
}

/// `k` characters of `f` take exactly 3 bytes.
pub open spec fn splits_at(f: Seq<char>, k: int) -> bool {
    0 <= k <= f.len() && utf8_len(f.take(k)) == 3
}

/// The symbol can be turned into an instrument name: when its alphanumeric
/// characters take 6 bytes, the first 3 bytes end on a character.
pub open spec fn oanda_splittable(symbol: Seq<char>) -> bool {
    let f = alnum_of(symbol);
    utf8_len(f) == 6 ==> exists|k: int| splits_at(f, k)
}

/// The OANDA instrument for a symbol: its alphanumeric characters, with an
/// underscore after the first 3 bytes when they take 6 bytes
/// ("EUR/USD" and "EURUSD" both give "EUR_USD").
pub open spec fn spec_oanda_instrument(symbol: Seq<char>) -> Seq<char> {
    let f = alnum_of(symbol);
    if utf8_len(f) == 6 {
        let k = choose|k: int| splits_at(f, k);
        f.take(k) + seq!['_'] + f.skip(k)
    } else {
        f
    }
}

proof fn lemma_take_len(f: Seq<char>, i: int)
    requires
        0 <= i < f.len(),
    ensures
        utf8_len(f.take(i + 1)) == utf8_len(f.take(i)) + utf8_width(f[i]),
{
    assert(f.take(i + 1).drop_last() =~= f.take(i));
}

proof fn lemma_prefix_grows(f: Seq<char>, i: int, j: int)
    requires
        0 <= i < j <= f.len(),
    ensures
        utf8_len(f.take(i)) < utf8_len(f.take(j)),
    decreases j - i,
{
    lemma_take_len(f, j - 1);
    if i < j - 1 {
        lemma_prefix_grows(f, i, j - 1);
    }
}

proof fn lemma_split_unique(f: Seq<char>, k: int)
    requires
        splits_at(f, k),
    ensures
        (choose|j: int| splits_at(f, j)) == k,
{
    let c = choose|j: int| splits_at(f, j);
    assert(splits_at(f, c));
    if c < k {
        lemma_prefix_grows(f, c, k);
    } else if k < c {
        lemma_prefix_grows(f, k, c);
    }
}

fn width_exec(c: char) -> (r: usize)
    ensures
        r == utf8_width(c),
{
    let u = c as u32;
    if u < 0x80 {
        1
    } else if u < 0x800 {
        2
    } else if u < 0x10000 {
        3
    } else {
        4
    }
}

fn alnum_exec(s: &str) -> (r: Vec<char>)
    ensures
        r@ == alnum_of(s@),
{
    let cs = chars_of(s);
    let mut out: Vec<char> = Vec::new();
    let mut i: usize = 0;
    while i < cs.len()
        invariant
            i <= cs@.len(),
            cs@ == s@,
            out@ == alnum_of(cs@.take(i as int)),
        decreases cs@.len() - i,
    {
        assert(cs@.take(i + 1).drop_last() =~= cs@.take(i as int));
        if is_alphanumeric(cs[i]) {
            out.push(cs[i]);
        }
        i += 1;
    }
    assert(cs@.take(cs@.len() as int) =~= cs@);
    out
}

/// Whether the characters take exactly 6 bytes.
fn six_bytes(f: &Vec<char>) -> (r: bool)
    ensures
        r == (utf8_len(f@) == 6),
{
    // Byte length, counted up to 7: only whether it is 6 matters.
    let mut blen: usize = 0;
    let mut i: usize = 0;
    while i < f.len() && blen <= 6
        invariant
            i <= f@.len(),
            blen == utf8_len(f@.take(i as int)),
            blen <= 10,
        decreases f@.len() - i,
    {
        proof {
            lemma_take_len(f@, i as int);
        }
        blen = blen + width_exec(f[i]);
        i += 1;
    }
    proof {
        assert(f@.take(f@.len() as int) =~= f@);
        if i < f@.len() {
            lemma_prefix_grows(f@, i as int, f@.len() as int);
        }
    }
    blen == 6 && i == f.len()
}

/// Number of characters that take the first 3 bytes, if they end on a character.
fn find_split(f: &Vec<char>) -> (r: Option<usize>)
    requires
        utf8_len(f@) == 6,
    ensures
        r matches Some(k) ==> splits_at(f@, k as int),
        r is None ==> !exists|k: int| splits_at(f@, k),
{
    let n = f.len();
    let mut k: usize = 0;
    let mut pre: usize = 0;
    while pre < 3
        invariant
            n == f@.len(),
            k <= f@.len(),
            pre == utf8_len(f@.take(k as int)),
            utf8_len(f@) == 6,
            forall|j: int| 0 <= j < k ==> utf8_len(#[trigger] f@.take(j)) < 3,
        decreases f@.len() - k,
    {
        proof {
            assert(f@.take(f@.len() as int) =~= f@);
            assert(k < f@.len());
            lemma_take_len(f@, k as int);
            assert forall|j: int| 0 <= j < k + 1 implies utf8_len(#[trigger] f@.take(j)) < 3 by {
                if j < k {
                } else {
                    assert(j == k);
                }
            }
        }
        pre = pre + width_exec(f[k]);
        k += 1;
    }
    if pre == 3 {
        Some(k)
    } else {
        proof {
            assert forall|j: int| !splits_at(f@, j) by {
                if 0 <= j <= f@.len() {
                    if j < k {
                    } else if j > k {
                        lemma_prefix_grows(f@, k as int, j);
                    }
                }
            }
        }
        None
    }
}

/// The characters with an underscore after the first `k`.
fn joined(f: &Vec<char>, k: usize) -> (r: String)
    requires
        k <= f@.len(),
    ensures
        r@ == f@.take(k as int) + seq!['_'] + f@.skip(k as int),
{
    let mut out: Vec<char> = Vec::new();
    let mut j: usize = 0;
    while j < k
        invariant
            j <= k <= f@.len(),
            out@ == f@.take(j as int),
        decreases k - j,
    {
        out.push(f[j]);
        assert(f@.take(j + 1) =~= f@.take(j as int).push(f@[j as int]));
        j += 1;
    }
    out.push('_');
    while j < f.len()
        invariant
            k <= j <= f@.len(),
            out@ == f@.take(k as int) + seq!['_'] + f@.subrange(k as int, j as int),
        decreases f@.len() - j,
    {
        out.push(f[j]);
        assert(f@.subrange(k as int, j + 1) =~= f@.subrange(k as int, j as int).push(f@[j as int]));
        j += 1;
    }
    assert(f@.skip(k as int) =~= f@.subrange(k as int, f@.len() as int));
    string_of(out.as_slice())
}

/// Map "EUR/USD" or "EURUSD" to OANDA's "EUR_USD" instrument format.
pub fn to_oanda_instrument(symbol: &str) -> (r: String)
    requires
        oanda_splittable(symbol@),
    ensures
        r@ == spec_oanda_instrument(symbol@),
{
    let f = alnum_exec(symbol);
    if !six_bytes(&f) {
        return string_of(f.as_slice());
    }
    match find_split(&f) {
        Some(k) => {
            proof {
                lemma_split_unique(f@, k as int);
            }
            joined(&f, k)
        },
        None => {
            // Excluded by the precondition.
            string_of(f.as_slice())
        },
    }
}

/// The instrument for a symbol, or `None` where the name cannot be split
/// after its first 3 bytes.
pub fn try_oanda_instrument(symbol: &str) -> (r: Option<String>)
    ensures
        r is Some <==> oanda_splittable(symbol@),
        r matches Some(s) ==> s@ == spec_oanda_instrument(symbol@),
{
    let f = alnum_exec(symbol);
    if six_bytes(&f) && find_split(&f).is_none() {
        return None;
    }
    Some(to_oanda_instrument(symbol))
}

// ------------------------------------------------------------ granularity

/// OANDA's candle granularities with their lengths in seconds.
pub open spec fn oanda_table() -> Seq<(int, Seq<char>)> {
    seq![
        (5, "S5"@),
        (10, "S10"@),
        (15, "S15"@),
        (30, "S30"@),
        (60, "M1"@),
        (120, "M2"@),
        (300, "M5"@),
        (900, "M15"@),
        (1800, "M30"@),
        (3600, "H1"@),
        (7200, "H2"@),
        (14400, "H4"@),
        (28800, "H8"@),
        (43200, "H12"@),
        (86400, "D"@),
    ]
}

pub open spec fn gap(a: int, b: int) -> int {
    if a < b {
        b - a
    } else {
        a - b
    }
}

/// Entry `k` is the first of the table nearest to `secs`.
pub open spec fn nearest(secs: int, k: int) -> bool {
    let t = oanda_table();
    &&& 0 <= k < t.len()
    &&& forall|j: int| 0 <= j < t.len() ==> gap(t[k].0, secs) <= gap(#[trigger] t[j].0, secs)
    &&& forall|j: int| 0 <= j < k ==> gap(t[k].0, secs) < gap(#[trigger] t[j].0, secs)
}

/// The code of the granularity nearest to `secs` seconds, the shorter one on a tie.
pub open spec fn spec_granularity(secs: int) -> Seq<char> {
    oanda_table()[choose|k: int| nearest(secs, k)].1
}

fn table_entry(i: usize) -> (r: (u32, &'static str))
    requires
        i < 15,
    ensures
        r.0 == oanda_table()[i as int].0,
        r.1@ == oanda_table()[i as int].1,
{
    match i {
        0 => (5, "S5"),
        1 => (10, "S10"),
        2 => (15, "S15"),
        3 => (30, "S30"),
        4 => (60, "M1"),
        5 => (120, "M2"),
        6 => (300, "M5"),
        7 => (900, "M15"),
        8 => (1800, "M30"),
        9 => (3600, "H1"),
        10 => (7200, "H2"),
        11 => (14400, "H4"),
        12 => (28800, "H8"),
        13 => (43200, "H12"),
        14 => (86400, "D"),
        _ => (86400, "D"),
    }
}

/// Map a granularity in seconds to the nearest OANDA granularity code.
pub fn granularity_to_oanda(secs: u32) -> (r: String)
    ensures
        r@ == spec_granularity(secs as int),
{
    let mut best: usize = 0;
    let mut best_diff: u64 = u64::MAX;
    let mut i: usize = 0;
    while i < 15
        invariant
            i <= 15,
            oanda_table().len() == 15,
            i == 0 ==> best_diff == u64::MAX,
            i > 0 ==> best < i && best_diff == gap(oanda_table()[best as int].0, secs as int),
            i > 0 ==> forall|j: int|
                0 <= j < i ==> best_diff <= gap(#[trigger] oanda_table()[j].0, secs as int),
            i > 0 ==> forall|j: int|
                0 <= j < best ==> best_diff < gap(#[trigger] oanda_table()[j].0, secs as int),
        decreases 15 - i,
    {
        let (s, _) = table_entry(i);
        let d: u64 = if s >= secs {
            (s - secs) as u64
        } else {
            (secs - s) as u64
        };
        if d < best_diff {
            best = i;
            best_diff = d;
        }
        i += 1;
    }
    proof {
        let c = choose|k: int| nearest(secs as int, k);
        assert(nearest(secs as int, best as int));
        assert(nearest(secs as int, c));
        if c < best {
            assert(gap(oanda_table()[best as int].0, secs as int) < gap(oanda_table()[c].0, secs as int));
        } else if best < c {
            assert(gap(oanda_table()[c].0, secs as int) < gap(oanda_table()[best as int].0, secs as int));
        }
    }
    let (_, code) = table_entry(best);
    String::from_str(code)
}

// ------------------------------------------------------------ order units

/// Units for a spot order: the stake over the reference price, rounded to
/// whole units, negative for a sale; an error for a zero price or a stake
/// below one unit, and an overflow error when the division overflows.
pub open spec fn spec_oanda_units(side: Side, stake: Dec, ref_price: Dec) -> Result<Dec, (ErrorKind, Seq<char>)> {
    if is_zero(ref_price) {
        Err((ErrorKind::Execution, "oanda: zero reference price"@))
    } else {
        match decimal_div(stake, ref_price) {
            Some(q) => {
                let u = decimal_round_dp(q, 0);
                if is_zero(u) {
                    Err((ErrorKind::Execution, "oanda: stake too small for 1 unit"@))
                } else {
                    Ok(
                        match side {
                            Side::Buy => u,
                            Side::Sell => Dec { mantissa: (-u.mantissa) as i128, scale: u.scale },
                        },
                    )
                }
            },
            None => Err(crate::domain::overflow_err()),
        }
    }
}

/// Signed order units for a stake at a reference price.
pub fn oanda_units(side: Side, stake: Dec, ref_price: Dec) -> (r: Result<Dec, AppError>)
    requires
        stake.wf(),
        ref_price.wf(),
    ensures
        match r {
            Ok(u) => spec_oanda_units(side, stake, ref_price) == Ok::<Dec, (ErrorKind, Seq<char>)>(u) && u.wf(),
            Err(e) => spec_oanda_units(side, stake, ref_price) == Err::<Dec, (ErrorKind, Seq<char>)>(e.view_err()),
        },
{
    if is_zero_dec(ref_price) {
        return Err(AppError::Execution(String::from_str("oanda: zero reference price")));
    }
    let q = match checked_div(stake, ref_price) {
        Some(q) => q,
        None => return Err(crate::domain::overflow()),
    };
    let u = round_dp(q, 0);
    if is_zero_dec(u) {
        return Err(AppError::Execution(String::from_str("oanda: stake too small for 1 unit")));
    }
    match side {
        Side::Buy => Ok(u),
        Side::Sell => Ok(neg(u)),
    }
}

// ------------------------------------------------------------ payloads

/// A decimal written as text in a market payload; a market error with the
/// parser's message otherwise.
pub fn decimal_from_text(s: &str) -> (r: Result<Dec, AppError>)
    ensures
        match r {
            Ok(d) => decimal_from_str_exact(s@) == Ok::<Dec, Seq<char>>(d) && d.wf(),
            Err(e) => decimal_from_str_exact(s@) matches Err(m) && e.view_err() == (ErrorKind::Market, m),
        },
{
    match from_str_exact(s) {
        Ok(d) => Ok(d),
        Err(m) => Err(AppError::Market(m)),
    }
}

// ------------------------------------------------------------ OANDA replies

/// An OANDA reply: the `Market` error "oanda {op} HTTP {status}: {text}" for a
/// failed status, the JSON value of the text otherwise, or the `Market` error
/// "oanda {op} json: {message}" when the text is not JSON.
pub open spec fn spec_oanda_reply(op: Seq<char>, ok: bool, status: Seq<char>, text: Seq<char>) -> Result<JsonV, (ErrorKind, Seq<char>)> {
    if !ok {
        Err((ErrorKind::Market, "oanda "@ + op + " HTTP "@ + status + ": "@ + text))
    } else {
        match json_of(text) {
            Ok(v) => Ok(v),
            Err(m) => Err((ErrorKind::Market, "oanda "@ + op + " json: "@ + m)),
        }
    }
}

pub fn oanda_reply(op: &str, ok: bool, status: &str, text: &str) -> (r: Result<Json, AppError>)
    ensures
        match r {
            Ok(j) => spec_oanda_reply(op@, ok, status@, text@) == Ok::<JsonV, (ErrorKind, Seq<char>)>(j@),
            Err(e) => spec_oanda_reply(op@, ok, status@, text@) == Err::<JsonV, (ErrorKind, Seq<char>)>(e.view_err()),
        },
{
    if !ok {
        let mut m = String::from_str("oanda ");
        m.append(op);
        m.append(" HTTP ");
        m.append(status);
        m.append(": ");
        m.append(text);
        return Err(AppError::Market(m));
    }
    match parse_json(text) {
        Ok(j) => Ok(j),
        Err(e) => {
            let mut m = String::from_str("oanda ");
            m.append(op);
            m.append(" json: ");
            m.append(e.as_str());
            Err(AppError::Market(m))
        },
    }
}

/// Where a fill price comes from.
#[derive(Debug)]
pub enum FillPrice {
    /// A price read from the reply's text, or the reference price.
    Exact(Dec),
    /// A price the reply gives as a JSON number, with the number's text;
    /// reading it goes through a float.
    Number(String),
}

/// The fill of an OANDA order: its price and, when the reply names it, its id.
#[derive(Debug)]
pub struct OandaFill {
    pub price: FillPrice,
    pub broker_ref: Option<String>,
}

/// Which price a fill reply gives: `Some(Ok(d))` for a string spelling the
/// decimal `d`, `Some(Err(t))` for a JSON number with text `t`, `None` when
/// the reference price stands.
pub open spec fn spec_fill_price(price: Option<JsonV>) -> Option<Result<Dec, Seq<char>>> {
    match price {
        Some(JsonV::Str(t)) => match decimal_from_str_exact(t) {
            Ok(d) => Some(Ok(d)),
            Err(_) => None,
        },
        Some(JsonV::Num(t)) => Some(Err(t)),
        _ => None,
    }
}

/// The reply to an order: an `errorMessage` member gives the `Execution`
/// error "oanda order: " with its JSON text; without an `orderFillTransaction`
/// member the `Execution` error "oanda: no orderFillTransaction"; otherwise
/// the fill's price (see `spec_fill_price`) and its `id` when that is a string.
pub open spec fn spec_oanda_fill(reply: JsonV) -> Result<(Option<Result<Dec, Seq<char>>>, Option<Seq<char>>), (ErrorKind, Seq<char>)> {
    match spec_get(reply, "errorMessage"@) {
        Some(err) => Err((ErrorKind::Execution, "oanda order: "@ + json_text(err))),
        None => match spec_get(reply, "orderFillTransaction"@) {
            None => Err((ErrorKind::Execution, "oanda: no orderFillTransaction"@)),
            Some(fill) => Ok((
                spec_fill_price(spec_get(fill, "price"@)),
                match spec_get(fill, "id"@) {
                    Some(JsonV::Str(t)) => Some(t),
                    _ => None,
                },
            )),
        },
    }
}

/// The fill of an order reply, with `reference` standing for a price the
/// reply does not give.
pub fn oanda_fill(reply: &Json, reference: Dec) -> (r: Result<OandaFill, AppError>)
    requires
        reference.wf(),
    ensures
        match r {
            Ok(f) => spec_oanda_fill(reply@) matches Ok((p, id)) && (match (id, f.broker_ref) {
                (Some(a), Some(b)) => a == b@,
                (None, None) => true,
                _ => false,
            }) && (match (p, f.price) {
                (Some(Ok(d)), FillPrice::Exact(x)) => x == d && x.wf(),
                (Some(Err(t)), FillPrice::Number(u)) => u@ == t,
                (None, FillPrice::Exact(x)) => x == reference,
                _ => false,
            }),
            Err(e) => spec_oanda_fill(reply@) == Err::<(Option<Result<Dec, Seq<char>>>, Option<Seq<char>>), (ErrorKind, Seq<char>)>(e.view_err()),
        },
{
    if let Some(err) = get(reply, "errorMessage") {
        let mut m = String::from_str("oanda order: ");
        m.append(json_to_text(err).as_str());
        return Err(AppError::Execution(m));
    }
    let fill = match get(reply, "orderFillTransaction") {
        Some(f) => f,
        None => return Err(AppError::Execution(String::from_str("oanda: no orderFillTransaction"))),
    };
    let price = match get(fill, "price") {
        Some(Json::Str(t)) => match from_str_exact(t.as_str()) {
            Ok(d) => FillPrice::Exact(d),
            Err(_) => FillPrice::Exact(reference),
        },
        Some(Json::Num(t)) => FillPrice::Number(String::from_str(t.as_str())),
        _ => FillPrice::Exact(reference),
    };
    let broker_ref = match get(fill, "id") {
        Some(Json::Str(t)) => Some(String::from_str(t.as_str())),
        _ => None,
    };
    Ok(OandaFill { price, broker_ref })
}

/// The order sent to OANDA: a market order of `units` of `instrument`, with a
/// price stop and target only where the request gives them; the contract
/// duration and the monetary stop and target play no part.
#[derive(Debug)]
pub struct OandaOrder {
    pub units: String,
    pub instrument: String,
    pub order_type: String,
    pub position_fill: String,
    pub stop_loss_on_fill: Option<String>,
    pub take_profit_on_fill: Option<String>,
}

pub fn oanda_order_body(req: &OrderRequest, units: Dec, instrument: &str) -> (r: OandaOrder)
    requires
        units.wf(),
        req.stop_loss_price matches Some(p) ==> p.wf(),
        req.take_profit_price matches Some(p) ==> p.wf(),
    ensures
        r.units@ == decimal_display(units),
        r.instrument@ == instrument@,
        r.order_type@ == "MARKET"@,
        r.position_fill@ == "DEFAULT"@,
        match req.stop_loss_price {
            Some(p) => r.stop_loss_on_fill matches Some(t) && t@ == decimal_display(p),
            None => r.stop_loss_on_fill is None,
        },
        match req.take_profit_price {
            Some(p) => r.take_profit_on_fill matches Some(t) && t@ == decimal_display(p),
            None => r.take_profit_on_fill is None,
        },
{
    OandaOrder {
        units: display(units),
        instrument: String::from_str(instrument),
        order_type: String::from_str("MARKET"),
        position_fill: String::from_str("DEFAULT"),
        stop_loss_on_fill: match req.stop_loss_price {
            Some(p) => Some(display(p)),
            None => None,
        },
        take_profit_on_fill: match req.take_profit_price {
            Some(p) => Some(display(p)),
            None => None,
        },
    }
}

} // verus!

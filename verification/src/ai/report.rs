//! The written report of an analysis: the reasoning and its scientific basis.
use crate::ai::candle::{spec_conviction, conviction_label, sview, CandleSummary, SummaryV};
use crate::ai::evidence::{fview, fviews, FactorV, SignalFactor};
use crate::decimal::{
    checked_add, checked_mul, checked_sub, decimal_add, decimal_display, decimal_display_prec,
    decimal_mul, decimal_sub, display, display_prec, less, lt, spec_int, spec_zero, whole, zero,
    Dec,
};
use crate::rules::indicators::Indicators;
use crate::text::{str_eq, str_uppercase, to_uppercase};
use vstd::prelude::*;

verus! {

/// Decimal digits of a number, as `Display` writes an unsigned integer.
pub open spec fn nat_text(n: nat) -> Seq<char>
    decreases n,
{
    if n < 10 {
        seq![digit_char(n)]
    } else {
        nat_text(n / 10) + seq![digit_char(n % 10)]
    }
}

pub open spec fn digit_char(d: nat) -> char {
    if d == 0 {
        '0'
    } else if d == 1 {
        '1'
    } else if d == 2 {
        '2'
    } else if d == 3 {
        '3'
    } else if d == 4 {
        '4'
    } else if d == 5 {
        '5'
    } else if d == 6 {
        '6'
    } else if d == 7 {
        '7'
    } else if d == 8 {
        '8'
    } else {
        '9'
    }
}

fn digit_exec(d: u64) -> (c: char)
    requires
        d < 10,
    ensures
        c == digit_char(d as nat),
{
    if d == 0 {
        '0'
    } else if d == 1 {
        '1'
    } else if d == 2 {
        '2'
    } else if d == 3 {
        '3'
    } else if d == 4 {
        '4'
    } else if d == 5 {
        '5'
    } else if d == 6 {
        '6'
    } else if d == 7 {
        '7'
    } else if d == 8 {
        '8'
    } else {
        '9'
    }
}

/// The decimal text of a count.
pub fn count_text(n: u64) -> (r: String)
    ensures
        r@ == nat_text(n as nat),
    decreases n,
{
    if n < 10 {
        crate::text::char_str(digit_exec(n))
    } else {
        let mut s = count_text(n / 10);
        let d = crate::text::char_str(digit_exec(n % 10));
        s.append(d.as_str());
        s
    }
}

/// Number of the first `k` factors pointing `dir`.
pub open spec fn count_dir(fs: Seq<FactorV>, dir: Seq<char>, k: int) -> nat
    decreases k,
{
    if k <= 0 {
        0
    } else {
        count_dir(fs, dir, k - 1) + if fs[k - 1].2 == dir {
            1nat
        } else {
            0nat
        }
    }
}

fn count_exec(fs: &Vec<SignalFactor>, dir: &str) -> (r: usize)
    ensures
        r == count_dir(fviews(fs@), dir@, fs@.len() as int),
{
    let ghost v = fviews(fs@);
    let mut c: usize = 0;
    let mut i: usize = 0;
    while i < fs.len()
        invariant
            i <= fs@.len(),
            v == fviews(fs@),
            c == count_dir(v, dir@, i as int),
            c <= i,
        decreases fs@.len() - i,
    {
        assert(v[i as int] == fview(fs@[i as int]));
        if str_eq(fs[i].direction.as_str(), dir) {
            c += 1;
        }
        i += 1;
    }
    c
}

/// The text of a map entry, or "N/A".
pub open spec fn entry_text(m: Map<usize, Dec>, k: usize) -> Seq<char> {
    if m.contains_key(k) {
        decimal_display(m[k])
    } else {
        "N/A"@
    }
}

fn entry_text_exec(m: &vstd::hash_map::HashMapWithView<usize, Dec>, k: usize) -> (r: String)
    requires
        crate::rules::indicators::map_wf(m@),
    ensures
        r@ == entry_text(m@, k),
{
    match m.get(&k) {
        Some(v) => {
            assert(m@.contains_key(k));
            display(*v)
        },
        None => String::from_str("N/A"),
    }
}

// ------------------------------------------------------------ basis

pub open spec fn basis_adx(a: Dec) -> Seq<char> {
    if lt(spec_int(25), a) {
        "ADX of "@ + decimal_display(a) + " indicates a strong, sustainable trend. "@
    } else if lt(spec_int(20), a) {
        "ADX of "@ + decimal_display(a) + " indicates a developing trend. "@
    } else {
        "ADX of "@ + decimal_display(a) + " suggests weak/range-bound conditions. "@
    }
}

pub open spec fn basis_rsi(m: Map<usize, Dec>) -> Seq<char> {
    if m.contains_key(14) {
        let r = m[14];
        if lt(r, spec_int(30)) {
            "RSI "@ + decimal_display(r) + " is in the oversold zone (<30), where historical mean reversion occurs ~68% of the time. "@
        } else if lt(spec_int(70), r) {
            "RSI "@ + decimal_display(r) + " is in the overbought zone (>70), where historical corrections occur ~68% of the time. "@
        } else {
            "RSI at "@ + decimal_display(r) + " is in neutral territory. "@
        }
    } else {
        Seq::empty()
    }
}

pub open spec fn basis_bb(price: Dec, upper: Dec, lower: Dec) -> Seq<char> {
    if lt(upper, price) {
        "Price is above the upper Bollinger Band (2σ) — a statistical anomaly occurring <5% of the time, typically followed by reversion. "@
    } else if lt(price, lower) {
        "Price is below the lower Bollinger Band (2σ) — a statistical anomaly occurring <5% of the time, typically followed by reversion. "@
    } else {
        "Price is within normal Bollinger range (±2σ). "@
    }
}

pub open spec fn basis_stoch(k: Dec) -> Seq<char> {
    if lt(k, spec_int(20)) {
        "Stochastic %K at "@ + decimal_display(k) + " confirms oversold conditions. "@
    } else if lt(spec_int(80), k) {
        "Stochastic %K at "@ + decimal_display(k) + " confirms overbought conditions. "@
    } else {
        Seq::empty()
    }
}

/// The scientific basis of a decision: what ADX, RSI, the bands and the
/// stochastic say, and, for a buy or sell, the confidence to one place.
pub open spec fn spec_basis(ind: Indicators, direction: Seq<char>, confidence: Dec) -> Option<Seq<char>> {
    let head = basis_adx(ind.adx) + basis_rsi(ind.rsi@) + basis_bb(ind.price, ind.bb_upper, ind.bb_lower)
        + basis_stoch(ind.stoch_k);
    if direction == "hold"@ {
        Some(head)
    } else {
        match decimal_mul(confidence, spec_int(100)) {
            Some(p) => Some(
                head + "Prediction confidence of "@ + decimal_display_prec(p, 1)
                    + "% reflects the weight of concurring evidence."@,
            ),
            None => None,
        }
    }
}

fn basis_adx_exec(a: Dec) -> (r: String)
    requires
        a.wf(),
    ensures
        r@ == basis_adx(a),
{
    let t = display(a);
    if less(whole(25), a) {
        crate::ai::evidence::cat3("ADX of ", t.as_str(), " indicates a strong, sustainable trend. ")
    } else if less(whole(20), a) {
        crate::ai::evidence::cat3("ADX of ", t.as_str(), " indicates a developing trend. ")
    } else {
        crate::ai::evidence::cat3("ADX of ", t.as_str(), " suggests weak/range-bound conditions. ")
    }
}

fn basis_rsi_exec(m: &vstd::hash_map::HashMapWithView<usize, Dec>) -> (r: String)
    requires
        crate::rules::indicators::map_wf(m@),
    ensures
        r@ == basis_rsi(m@),
{
    match m.get(&14) {
        Some(v) => {
            assert(m@.contains_key(14usize));
            let r = *v;
            let t = display(r);
            if less(r, whole(30)) {
                crate::ai::evidence::cat3("RSI ", t.as_str(), " is in the oversold zone (<30), where historical mean reversion occurs ~68% of the time. ")
            } else if less(whole(70), r) {
                crate::ai::evidence::cat3("RSI ", t.as_str(), " is in the overbought zone (>70), where historical corrections occur ~68% of the time. ")
            } else {
                crate::ai::evidence::cat3("RSI at ", t.as_str(), " is in neutral territory. ")
            }
        },
        None => String::new(),
    }
}

fn basis_bb_exec(price: Dec, upper: Dec, lower: Dec) -> (r: String)
    requires
        price.wf(),
        upper.wf(),
        lower.wf(),
    ensures
        r@ == basis_bb(price, upper, lower),
{
    if less(upper, price) {
        String::from_str("Price is above the upper Bollinger Band (2σ) — a statistical anomaly occurring <5% of the time, typically followed by reversion. ")
    } else if less(price, lower) {
        String::from_str("Price is below the lower Bollinger Band (2σ) — a statistical anomaly occurring <5% of the time, typically followed by reversion. ")
    } else {
        String::from_str("Price is within normal Bollinger range (±2σ). ")
    }
}

fn basis_stoch_exec(k: Dec) -> (r: String)
    requires
        k.wf(),
    ensures
        r@ == basis_stoch(k),
{
    let t = display(k);
    if less(k, whole(20)) {
        crate::ai::evidence::cat3("Stochastic %K at ", t.as_str(), " confirms oversold conditions. ")
    } else if less(whole(80), k) {
        crate::ai::evidence::cat3("Stochastic %K at ", t.as_str(), " confirms overbought conditions. ")
    } else {
        String::new()
    }
}

pub fn build_scientific_basis(ind: &Indicators, direction: &str, confidence: Dec) -> (r: Option<String>)
    requires
        ind.wf(),
        confidence.wf(),
    ensures
        r is None <==> spec_basis(*ind, direction@, confidence) is None,
        r matches Some(s) ==> spec_basis(*ind, direction@, confidence) == Some(s@),
{
    let mut s = basis_adx_exec(ind.adx);
    let r = basis_rsi_exec(&ind.rsi);
    s.append(r.as_str());
    let b = basis_bb_exec(ind.price, ind.bb_upper, ind.bb_lower);
    s.append(b.as_str());
    let k = basis_stoch_exec(ind.stoch_k);
    s.append(k.as_str());
    if !str_eq(direction, "hold") {
        let p = match checked_mul(confidence, whole(100)) {
            Some(p) => p,
            None => return None,
        };
        let t = display_prec(p, 1);
        s.append("Prediction confidence of ");
        s.append(t.as_str());
        s.append("% reflects the weight of concurring evidence.");
    }
    Some(s)
}

// ------------------------------------------------------------ reasoning

pub open spec fn reasoning_head(
    symbol: Seq<char>,
    time_text: Seq<char>,
    session: Seq<char>,
    direction: Seq<char>,
    pct: Dec,
) -> Seq<char> {
    "═══ AI MARKET ANALYSIS ═══\nSymbol: "@ + symbol + "\nTime (UTC): "@ + time_text + "\nSession: "@
        + session + "\nDecision: "@ + str_uppercase(direction) + " (confidence: "@
        + decimal_display_prec(pct, 1) + "%)\n"@
}

pub open spec fn last_section(l: SummaryV) -> Seq<char> {
    "\n── LAST CANDLE ──\nDirection: "@ + l.0 + "\nOpen: "@ + decimal_display(l.1) + " | High: "@
        + decimal_display(l.2) + " | Low: "@ + decimal_display(l.3) + " | Close: "@ + decimal_display(
        l.4,
    ) + "\nBody: "@ + decimal_display(l.5) + " | Upper wick: "@ + decimal_display(l.6)
        + " | Lower wick: "@ + decimal_display(l.7) + "\nPattern: "@ + l.8 + "\n"@
}

pub open spec fn predicted_section(p: SummaryV) -> Seq<char> {
    "\n── PREDICTED NEXT CANDLE ──\nDirection: "@ + p.0 + "\nProjected open: "@ + decimal_display(p.1)
        + " | close: "@ + decimal_display(p.4) + "\nProjected high: "@ + decimal_display(p.2)
        + " | low: "@ + decimal_display(p.3) + "\n"@
}

pub open spec fn evidence_section(fs: Seq<FactorV>, note_count: nat) -> Seq<char> {
    "\n── EVIDENCE ──\n"@ + nat_text(count_dir(fs, "bullish"@, fs.len() as int)) + " bullish signals vs "@
        + nat_text(count_dir(fs, "bearish"@, fs.len() as int)) + " bearish signals.\n"@ + if note_count
        > 0 {
        nat_text(note_count) + " rules from learned notes fired.\n"@
    } else {
        Seq::empty()
    }
}

pub open spec fn macd_text(m: Option<Dec>) -> Seq<char> {
    match m {
        Some(d) => decimal_display(d),
        None => "N/A"@,
    }
}

pub open spec fn indicators_section(ind: Indicators) -> Seq<char> {
    "\n── INDICATORS ──\nRSI(14): "@ + entry_text(ind.rsi@, 14) + " | ADX: "@ + decimal_display(ind.adx)
        + " | MACD: "@ + macd_text(ind.macd) + "\nBollinger: upper "@ + decimal_display(ind.bb_upper)
        + " | mid "@ + decimal_display(ind.bb_middle) + " | lower "@ + decimal_display(ind.bb_lower)
        + "\nStochastic: %K "@ + decimal_display(ind.stoch_k) + " | EMA50: "@ + entry_text(ind.ema@, 50)
        + " | EMA200: "@ + entry_text(ind.ema@, 200) + "\nATR(14): "@ + entry_text(ind.atr@, 14)
        + " | Swing High: "@ + decimal_display(ind.swing_high) + " | Swing Low: "@ + decimal_display(
        ind.swing_low,
    ) + "\n"@
}

/// The closing paragraph: the predicted direction with entry, stop one ATR
/// away and target two ATRs away, or a call to wait.
pub open spec fn conclusion(direction: Seq<char>, confidence: Dec, pct: Dec, ind: Indicators) -> Option<Seq<char>> {
    let atr = crate::ai::candle::atr_or(ind, spec_zero());
    let p = ind.price;
    if direction == "buy"@ || direction == "sell"@ {
        match (
            decimal_mul(atr, spec_int(2)),
            if direction == "buy"@ {
                decimal_sub(p, atr)
            } else {
                decimal_add(p, atr)
            },
        ) {
            (Some(a2), Some(stop)) => match if direction == "buy"@ {
                decimal_add(p, a2)
            } else {
                decimal_sub(p, a2)
            } {
                Some(target) => Some(
                    "\n── CONCLUSION ──\n"@ + if direction == "buy"@ {
                        "The next candle is predicted BULLISH. "@
                    } else {
                        "The next candle is predicted BEARISH. "@
                    } + spec_conviction(confidence) + " Confidence: "@ + decimal_display_prec(pct, 1)
                        + "%. Entry at "@ + decimal_display(p) + if direction == "buy"@ {
                        ", stop below "@
                    } else {
                        ", stop above "@
                    } + decimal_display(stop) + ", target "@ + decimal_display(target) + ".\n"@,
                ),
                None => None,
            },
            _ => None,
        }
    } else {
        Some(
            "\n── CONCLUSION ──\n"@ + "Insufficient evidence to predict next candle direction. Confidence only "@
                + decimal_display_prec(pct, 1) + "%. Wait for a clearer setup.\n"@,
        )
    }
}

/// The full reasoning of an analysis; `None` when a decimal operation overflows.
pub open spec fn spec_reasoning(
    direction: Seq<char>,
    confidence: Dec,
    session: Seq<char>,
    note_count: nat,
    factors: Seq<FactorV>,
    ind: Indicators,
    last: SummaryV,
    predicted: SummaryV,
    symbol: Seq<char>,
    time_text: Seq<char>,
) -> Option<Seq<char>> {
    match decimal_mul(confidence, spec_int(100)) {
        Some(pct) => match conclusion(direction, confidence, pct, ind) {
            Some(c) => Some(
                reasoning_head(symbol, time_text, session, direction, pct) + last_section(last)
                    + predicted_section(predicted) + evidence_section(factors, note_count)
                    + indicators_section(ind) + c,
            ),
            None => None,
        },
        None => None,
    }
}

fn head_exec(symbol: &str, time_text: &str, session: &str, direction: &str, pct: Dec) -> (r: String)
    requires
        pct.wf(),
    ensures
        r@ == reasoning_head(symbol@, time_text@, session@, direction@, pct),
{
    let mut s = String::from_str("═══ AI MARKET ANALYSIS ═══\nSymbol: ");
    s.append(symbol);
    s.append("\nTime (UTC): ");
    s.append(time_text);
    s.append("\nSession: ");
    s.append(session);
    s.append("\nDecision: ");
    let u = to_uppercase(direction);
    s.append(u.as_str());
    s.append(" (confidence: ");
    let t = display_prec(pct, 1);
    s.append(t.as_str());
    s.append("%)\n");
    s
}

fn candle_block(l: &CandleSummary) -> (r: String)
    requires
        l.open.wf(),
        l.high.wf(),
        l.low.wf(),
        l.close.wf(),
        l.body.wf(),
        l.upper_wick.wf(),
        l.lower_wick.wf(),
    ensures
        r@ == last_section(sview(*l)),
{
    let mut s = String::from_str("\n── LAST CANDLE ──\nDirection: ");
    s.append(l.direction.as_str());
    s.append("\nOpen: ");
    s.append(display(l.open).as_str());
    s.append(" | High: ");
    s.append(display(l.high).as_str());
    s.append(" | Low: ");
    s.append(display(l.low).as_str());
    s.append(" | Close: ");
    s.append(display(l.close).as_str());
    s.append("\nBody: ");
    s.append(display(l.body).as_str());
    s.append(" | Upper wick: ");
    s.append(display(l.upper_wick).as_str());
    s.append(" | Lower wick: ");
    s.append(display(l.lower_wick).as_str());
    s.append("\nPattern: ");
    s.append(l.pattern.as_str());
    s.append("\n");
    s
}

fn predicted_block(p: &CandleSummary) -> (r: String)
    requires
        p.open.wf(),
        p.high.wf(),
        p.low.wf(),
        p.close.wf(),
    ensures
        r@ == predicted_section(sview(*p)),
{
    let mut s = String::from_str("\n── PREDICTED NEXT CANDLE ──\nDirection: ");
    s.append(p.direction.as_str());
    s.append("\nProjected open: ");
    s.append(display(p.open).as_str());
    s.append(" | close: ");
    s.append(display(p.close).as_str());
    s.append("\nProjected high: ");
    s.append(display(p.high).as_str());
    s.append(" | low: ");
    s.append(display(p.low).as_str());
    s.append("\n");
    s
}

fn evidence_block(factors: &Vec<SignalFactor>, note_count: usize) -> (r: String)
    ensures
        r@ == evidence_section(fviews(factors@), note_count as nat),
{
    let bull = count_exec(factors, "bullish");
    let bear = count_exec(factors, "bearish");
    let mut s = String::from_str("\n── EVIDENCE ──\n");
    s.append(count_text(bull as u64).as_str());
    s.append(" bullish signals vs ");
    s.append(count_text(bear as u64).as_str());
    s.append(" bearish signals.\n");
    if note_count > 0 {
        s.append(count_text(note_count as u64).as_str());
        s.append(" rules from learned notes fired.\n");
    } else {
        proof {
            assert(s@ =~= s@ + Seq::<char>::empty());
        }
    }
    s
}

fn indicators_block(ind: &Indicators) -> (r: String)
    requires
        ind.wf(),
    ensures
        r@ == indicators_section(*ind),
{
    let mut s = String::from_str("\n── INDICATORS ──\nRSI(14): ");
    s.append(entry_text_exec(&ind.rsi, 14).as_str());
    s.append(" | ADX: ");
    s.append(display(ind.adx).as_str());
    s.append(" | MACD: ");
    let m = match ind.macd {
        Some(d) => display(d),
        None => String::from_str("N/A"),
    };
    s.append(m.as_str());
    s.append("\nBollinger: upper ");
    s.append(display(ind.bb_upper).as_str());
    s.append(" | mid ");
    s.append(display(ind.bb_middle).as_str());
    s.append(" | lower ");
    s.append(display(ind.bb_lower).as_str());
    s.append("\nStochastic: %K ");
    s.append(display(ind.stoch_k).as_str());
    s.append(" | EMA50: ");
    s.append(entry_text_exec(&ind.ema, 50).as_str());
    s.append(" | EMA200: ");
    s.append(entry_text_exec(&ind.ema, 200).as_str());
    s.append("\nATR(14): ");
    s.append(entry_text_exec(&ind.atr, 14).as_str());
    s.append(" | Swing High: ");
    s.append(display(ind.swing_high).as_str());
    s.append(" | Swing Low: ");
    s.append(display(ind.swing_low).as_str());
    s.append("\n");
    s
}

fn conclusion_exec(direction: &str, confidence: Dec, pct: Dec, ind: &Indicators) -> (r: Option<String>)
    requires
        ind.wf(),
        confidence.wf(),
        pct.wf(),
    ensures
        r is None <==> conclusion(direction@, confidence, pct, *ind) is None,
        r matches Some(s) ==> conclusion(direction@, confidence, pct, *ind) == Some(s@),
{
    let atr = match ind.atr.get(&14) {
        Some(v) => {
            assert(ind.atr@.contains_key(14usize));
            *v
        },
        None => zero(),
    };
    let p = ind.price;
    let buy = str_eq(direction, "buy");
    let sell = str_eq(direction, "sell");
    if buy || sell {
        let a2 = match checked_mul(atr, whole(2)) {
            Some(x) => x,
            None => return None,
        };
        let stop = match if buy {
            checked_sub(p, atr)
        } else {
            checked_add(p, atr)
        } {
            Some(x) => x,
            None => return None,
        };
        let target = match if buy {
            checked_add(p, a2)
        } else {
            checked_sub(p, a2)
        } {
            Some(x) => x,
            None => return None,
        };
        let mut s = String::from_str("\n── CONCLUSION ──\n");
        if buy {
            s.append("The next candle is predicted BULLISH. ");
        } else {
            s.append("The next candle is predicted BEARISH. ");
        }
        s.append(conviction_label(confidence));
        s.append(" Confidence: ");
        s.append(display_prec(pct, 1).as_str());
        s.append("%. Entry at ");
        s.append(display(p).as_str());
        if buy {
            s.append(", stop below ");
        } else {
            s.append(", stop above ");
        }
        s.append(display(stop).as_str());
        s.append(", target ");
        s.append(display(target).as_str());
        s.append(".\n");
        Some(s)
    } else {
        let mut s = String::from_str("\n── CONCLUSION ──\n");
        s.append("Insufficient evidence to predict next candle direction. Confidence only ");
        s.append(display_prec(pct, 1).as_str());
        s.append("%. Wait for a clearer setup.\n");
        Some(s)
    }
}

/// The reasoning of an analysis.
pub fn build_reasoning(
    direction: &str,
    confidence: Dec,
    session: &str,
    note_count: usize,
    factors: &Vec<SignalFactor>,
    ind: &Indicators,
    last: &CandleSummary,
    predicted: &CandleSummary,
    symbol: &str,
    time_text: &str,
) -> (r: Option<String>)
    requires
        ind.wf(),
        confidence.wf(),
        last.open.wf(),
        last.high.wf(),
        last.low.wf(),
        last.close.wf(),
        last.body.wf(),
        last.upper_wick.wf(),
        last.lower_wick.wf(),
        predicted.open.wf(),
        predicted.high.wf(),
        predicted.low.wf(),
        predicted.close.wf(),
    ensures
        r is None <==> spec_reasoning(direction@, confidence, session@, note_count as nat, fviews(factors@), *ind, sview(*last), sview(*predicted), symbol@, time_text@) is None,
        r matches Some(s) ==> spec_reasoning(direction@, confidence, session@, note_count as nat, fviews(factors@), *ind, sview(*last), sview(*predicted), symbol@, time_text@) == Some(s@),
{
    let pct = match checked_mul(confidence, whole(100)) {
        Some(p) => p,
        None => return None,
    };
    let c = match conclusion_exec(direction, confidence, pct, ind) {
        Some(c) => c,
        None => return None,
    };
    let mut s = head_exec(symbol, time_text, session, direction, pct);
    s.append(candle_block(last).as_str());
    s.append(predicted_block(predicted).as_str());
    s.append(evidence_block(factors, note_count).as_str());
    s.append(indicators_block(ind).as_str());
    s.append(c.as_str());
    Some(s)
}

// ------------------------------------------------------------ model prompt

/// The instruction given to the language model.
pub open spec fn spec_system_prompt() -> Seq<char> {
    "You are a quantitative trading analyst. Provide a firm, scientific 2-3 sentence assessment of this next-candle prediction. Use specific data. Be decisive. No disclaimers."@
}

pub fn system_prompt() -> (r: &'static str)
    ensures
        r@ == spec_system_prompt(),
{
    "You are a quantitative trading analyst. Provide a firm, scientific 2-3 sentence assessment of this next-candle prediction. Use specific data. Be decisive. No disclaimers."
}

/// One line per weighted factor, "- name (direction): detail", for the
/// first 8 factors with a positive weight among the first `k`, joined by
/// new lines.
pub open spec fn signal_lines(fs: Seq<FactorV>, k: int) -> Seq<Seq<char>>
    decreases k,
{
    if k <= 0 {
        Seq::empty()
    } else {
        let prev = signal_lines(fs, k - 1);
        let f = fs[k - 1];
        if lt(spec_zero(), f.3) && prev.len() < 8 {
            prev.push("- "@ + f.1 + " ("@ + f.2 + "): "@ + f.4)
        } else {
            prev
        }
    }
}

/// Lines joined with new lines between them.
pub open spec fn joined_lines(ls: Seq<Seq<char>>) -> Seq<char>
    decreases ls.len(),
{
    if ls.len() == 0 {
        Seq::empty()
    } else if ls.len() == 1 {
        ls[0]
    } else {
        joined_lines(ls.drop_last()) + "\n"@ + ls.last()
    }
}

/// Where the price sits against the bands, in words.
pub open spec fn band_position(price: Dec, upper: Dec, lower: Dec) -> Seq<char> {
    if lt(upper, price) {
        "above upper band"@
    } else if lt(price, lower) {
        "below lower band"@
    } else {
        "within bands"@
    }
}

/// The question put to the language model about a prediction.
pub open spec fn spec_llm_prompt(symbol: Seq<char>, direction: Seq<char>, confidence: Dec, factors: Seq<FactorV>, ind: Indicators) -> Option<Seq<char>> {
    match decimal_mul(confidence, spec_int(100)) {
        Some(pct) => Some(
            "Market: "@ + symbol + "\nPredicted next candle: "@ + direction + "\nConfidence: "@
                + decimal_display(pct) + "%\nADX: "@ + decimal_display(ind.adx) + "\nRSI: "@ + entry_text(
                ind.rsi@,
                14,
            ) + "\nStoch %K: "@ + decimal_display(ind.stoch_k) + "\nBollinger position: "@
                + band_position(ind.price, ind.bb_upper, ind.bb_lower) + "\n\nKey signals:\n"@
                + joined_lines(signal_lines(factors, factors.len() as int))
                + "\n\nAssess this prediction scientifically:"@,
        ),
        None => None,
    }
}

fn signal_block(fs: &Vec<SignalFactor>) -> (r: String)
    requires
        crate::ai::evidence::weights_wf(fs@),
    ensures
        r@ == joined_lines(signal_lines(fviews(fs@), fs@.len() as int)),
{
    let ghost v = fviews(fs@);
    let mut out = String::new();
    let mut n: usize = 0;
    let mut i: usize = 0;
    while i < fs.len()
        invariant
            i <= fs@.len(),
            v == fviews(fs@),
            crate::ai::evidence::weights_wf(fs@),
            n == signal_lines(v, i as int).len(),
            out@ == joined_lines(signal_lines(v, i as int)),
        decreases fs@.len() - i,
    {
        let f = &fs[i];
        assert(v[i as int] == crate::ai::evidence::fview(fs@[i as int]));
        assert(f.weight.wf());
        if less(zero(), f.weight) && n < 8 {
            let ghost before = signal_lines(v, i as int);
            if n > 0 {
                out.append("\n");
            }
            out.append("- ");
            out.append(f.name.as_str());
            out.append(" (");
            out.append(f.direction.as_str());
            out.append("): ");
            out.append(f.detail.as_str());
            n += 1;
            proof {
                let after = signal_lines(v, i + 1);
                assert(after == before.push("- "@ + f.name@ + " ("@ + f.direction@ + "): "@ + f.detail@));
                assert(after.drop_last() =~= before);
                if before.len() == 0 {
                    assert(out@ =~= after[0]);
                } else {
                    assert(out@ =~= joined_lines(before) + "\n"@ + after.last());
                }
            }
        }
        i += 1;
    }
    out
}

/// The question put to the language model.
pub fn llm_prompt(symbol: &str, direction: &str, confidence: Dec, factors: &Vec<SignalFactor>, ind: &Indicators) -> (r: Option<String>)
    requires
        ind.wf(),
        confidence.wf(),
        crate::ai::evidence::weights_wf(factors@),
    ensures
        r is None <==> spec_llm_prompt(symbol@, direction@, confidence, fviews(factors@), *ind) is None,
        r matches Some(s) ==> spec_llm_prompt(symbol@, direction@, confidence, fviews(factors@), *ind) == Some(s@),
{
    let pct = match checked_mul(confidence, whole(100)) {
        Some(p) => p,
        None => return None,
    };
    let mut s = String::from_str("Market: ");
    s.append(symbol);
    s.append("\nPredicted next candle: ");
    s.append(direction);
    s.append("\nConfidence: ");
    s.append(display(pct).as_str());
    s.append("%\nADX: ");
    s.append(display(ind.adx).as_str());
    s.append("\nRSI: ");
    s.append(entry_text_exec(&ind.rsi, 14).as_str());
    s.append("\nStoch %K: ");
    s.append(display(ind.stoch_k).as_str());
    s.append("\nBollinger position: ");
    if less(ind.bb_upper, ind.price) {
        s.append("above upper band");
    } else if less(ind.price, ind.bb_lower) {
        s.append("below lower band");
    } else {
        s.append("within bands");
    }
    s.append("\n\nKey signals:\n");
    s.append(signal_block(factors).as_str());
    s.append("\n\nAssess this prediction scientifically:");
    Some(s)
}

/// The reasoning with the model's insight appended.
pub fn with_insight(reasoning: &str, insight: &str) -> (r: String)
    ensures
        r@ == reasoning@ + "\n\nAI Insight: "@ + insight@,
{
    let mut s = String::from_str(reasoning);
    s.append("\n\nAI Insight: ");
    s.append(insight);
    s
}

} // verus!

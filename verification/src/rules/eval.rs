//! Evaluation of rule expressions over an indicator set.
//!
//! Grammar, loosest first: `or`, `and`, `not`, comparisons (`< <= > >= == !=`,
//! at most one per operand pair), `+ -`, `* /`, unary minus, atoms (numbers,
//! parenthesised expressions, identifiers and function calls).  Booleans used
//! as numbers are 1 and 0; numbers used as booleans are true when non-zero.
use crate::decimal::{
    checked_add, checked_div, checked_mul, checked_sub, decimal_add, decimal_display, decimal_div,
    decimal_mul, decimal_sub, display, equal, is_zero, is_zero_dec, le, less, less_eq, lt, neg, one,
    same, spec_one, spec_zero, zero, Dec,
};
use crate::domain::{overflow, overflow_err, AppError, ErrorKind};
use crate::rules::indicators::Indicators;
use crate::rules::lexer::{spec_tokenize, tokenize, toks_view, toks_wf, ErrV, Tok, TokV};
use crate::text::{parse_usize, str_eq, usize_from_str};
use vstd::prelude::*;

verus! {

/// A value of an expression: a number or a truth value.
#[derive(Clone, Copy, Debug)]
pub enum Val {
    Num(Dec),
    Bool(bool),
}

/// A number held by the value is a valid decimal.
pub open spec fn val_wf(v: Val) -> bool {
    v matches Val::Num(d) ==> d.wf()
}

/// A value as a truth value: numbers are true when non-zero.
pub open spec fn spec_truth(v: Val) -> bool {
    match v {
        Val::Bool(b) => b,
        Val::Num(n) => !is_zero(n),
    }
}

/// A value as a number: true is 1, false is 0.
pub open spec fn spec_num(v: Val) -> Dec {
    match v {
        Val::Num(n) => n,
        Val::Bool(b) => if b {
            spec_one()
        } else {
            spec_zero()
        },
    }
}

/// The number with its sign flipped.
pub open spec fn spec_neg(d: Dec) -> Dec {
    Dec { mantissa: (-d.mantissa) as i128, scale: d.scale }
}

fn truth(v: Val) -> (r: bool)
    requires
        val_wf(v),
    ensures
        r == spec_truth(v),
{
    match v {
        Val::Bool(b) => b,
        Val::Num(n) => !is_zero_dec(n),
    }
}

fn num(v: Val) -> (r: Dec)
    requires
        val_wf(v),
    ensures
        r == spec_num(v),
        r.wf(),
{
    match v {
        Val::Num(n) => n,
        Val::Bool(b) => if b {
            one()
        } else {
            zero()
        },
    }
}

/// The result of parsing from a position: a value and the next position.
pub type PRes = Result<(Val, int), ErrV>;

/// Error message kind for rule mistakes.
pub open spec fn bad(m: Seq<char>) -> ErrV {
    (ErrorKind::BadRequest, m)
}

/// Stands where a sub-parse would have gone backwards, which never happens.
pub open spec fn backwards() -> ErrV {
    (ErrorKind::Internal, "parser went backwards"@)
}

/// The comparison an operator token makes.
pub open spec fn is_compare_tok(x: TokV) -> bool {
    x is Lt || x is Le || x is Gt || x is Ge
        || x is Eq || x is Ne
}

/// The truth of `a op b`.
pub open spec fn compare_holds(op: TokV, a: Dec, b: Dec) -> bool {
    match op {
        TokV::Lt => lt(a, b),
        TokV::Le => le(a, b),
        TokV::Gt => lt(b, a),
        TokV::Ge => le(b, a),
        TokV::Eq => same(a, b),
        _ => !same(a, b),
    }
}

/// `Debug` text of a token that cannot start an operand.
pub open spec fn tok_name(x: TokV) -> Seq<char> {
    match x {
        TokV::Num(_) => "Num"@,
        TokV::Ident(_) => "Ident"@,
        TokV::LParen => "LParen"@,
        TokV::RParen => "RParen"@,
        TokV::Comma => "Comma"@,
        TokV::Lt => "Lt"@,
        TokV::Le => "Le"@,
        TokV::Gt => "Gt"@,
        TokV::Ge => "Ge"@,
        TokV::Eq => "Eq"@,
        TokV::Ne => "Ne"@,
        TokV::And => "And"@,
        TokV::Or => "Or"@,
        TokV::Not => "Not"@,
        TokV::Plus => "Plus"@,
        TokV::Minus => "Minus"@,
        TokV::Star => "Star"@,
        TokV::Slash => "Slash"@,
    }
}

/// The period argument of an indicator function: the first argument's text
/// read as a whole number, or the default when there is none or it does not read.
pub open spec fn period_arg(args: Seq<Dec>, default: usize) -> usize {
    if args.len() == 0 {
        default
    } else {
        match usize_from_str(decimal_display(args[0])) {
            Some(p) => p,
            None => default,
        }
    }
}

/// A by-period indicator for a call's arguments.
pub open spec fn by_period(m: Map<usize, Dec>, args: Seq<Dec>, default: usize, what: Seq<char>) -> Result<
    Dec,
    ErrV,
> {
    let p = period_arg(args, default);
    if m.contains_key(p) {
        Ok(m[p])
    } else {
        Err(bad(what + " not available"@))
    }
}

/// The value of a bare identifier.
pub open spec fn spec_lookup(name: Seq<char>, ind: Indicators) -> Option<Dec> {
    if name == "price"@ || name == "close"@ {
        Some(ind.price)
    } else if name == "high"@ {
        Some(ind.high)
    } else if name == "low"@ {
        Some(ind.low)
    } else if name == "open"@ {
        Some(ind.open)
    } else if name == "volume"@ {
        Some(ind.volume)
    } else if name == "pct_change"@ {
        Some(ind.pct_change)
    } else if name == "macd"@ {
        ind.macd
    } else if name == "prev_open"@ {
        Some(ind.prev_open)
    } else if name == "prev_close"@ {
        Some(ind.prev_close)
    } else if name == "prev_high"@ {
        Some(ind.prev_high)
    } else if name == "prev_low"@ {
        Some(ind.prev_low)
    } else if ind.patterns@.contains_key(name) {
        Some(ind.patterns@[name])
    } else {
        None
    }
}

/// The value of a function call.
pub open spec fn spec_resolve(name: Seq<char>, args: Seq<Dec>, ind: Indicators) -> Result<Dec, ErrV> {
    if name == "rsi"@ {
        by_period(ind.rsi@, args, 14, "rsi"@)
    } else if name == "ema"@ {
        by_period(ind.ema@, args, 50, "ema"@)
    } else if name == "sma"@ {
        by_period(ind.sma@, args, 50, "sma"@)
    } else if name == "atr"@ {
        by_period(ind.atr@, args, 14, "atr"@)
    } else if name == "macd"@ {
        match ind.macd {
            Some(m) => Ok(m),
            None => Err(bad("macd not available"@)),
        }
    } else if name == "price"@ || name == "close"@ {
        Ok(ind.close)
    } else if name == "high"@ {
        Ok(ind.high)
    } else if name == "low"@ {
        Ok(ind.low)
    } else if name == "open"@ {
        Ok(ind.open)
    } else if name == "volume"@ {
        Ok(ind.volume)
    } else if name == "pct_change"@ {
        Ok(ind.pct_change)
    } else if name == "cross"@ || name == "crossup"@ || name == "crossdown"@ {
        let a = if args.len() > 0 {
            args[0]
        } else {
            spec_zero()
        };
        let b = if args.len() > 1 {
            args[1]
        } else {
            spec_zero()
        };
        let hit = if name == "crossdown"@ {
            lt(a, b)
        } else {
            lt(b, a)
        };
        Ok(
            if hit {
                spec_one()
            } else {
                spec_zero()
            },
        )
    } else if ind.patterns@.contains_key(name) {
        Ok(ind.patterns@[name])
    } else {
        Err(bad("unknown function or pattern: "@ + name))
    }
}

/// `or` expression at `p`.
pub open spec fn s_or(t: Seq<TokV>, p: int, ind: Indicators) -> PRes
    decreases t.len() - p, 11int,
{
    if p < 0 || p > t.len() {
        Err(backwards())
    } else {
        match s_and(t, p, ind) {
            Ok((l, p1)) => if p <= p1 <= t.len() {
                s_or_loop(t, l, p1, ind)
            } else {
                Err(backwards())
            },
            Err(e) => Err(e),
        }
    }
}

/// Further `or` operands after `l`, from `p`.
pub open spec fn s_or_loop(t: Seq<TokV>, l: Val, p: int, ind: Indicators) -> PRes
    decreases t.len() - p, 10int,
{
    if 0 <= p < t.len() && t[p] is Or {
        match s_and(t, p + 1, ind) {
            Ok((r, p2)) => if p + 1 <= p2 <= t.len() {
                s_or_loop(t, Val::Bool(spec_truth(l) || spec_truth(r)), p2, ind)
            } else {
                Err(backwards())
            },
            Err(e) => Err(e),
        }
    } else {
        Ok((l, p))
    }
}

/// `and` expression at `p`.
pub open spec fn s_and(t: Seq<TokV>, p: int, ind: Indicators) -> PRes
    decreases t.len() - p, 9int,
{
    if p < 0 || p > t.len() {
        Err(backwards())
    } else {
        match s_not(t, p, ind) {
            Ok((l, p1)) => if p <= p1 <= t.len() {
                s_and_loop(t, l, p1, ind)
            } else {
                Err(backwards())
            },
            Err(e) => Err(e),
        }
    }
}

/// Further `and` operands after `l`, from `p`.
pub open spec fn s_and_loop(t: Seq<TokV>, l: Val, p: int, ind: Indicators) -> PRes
    decreases t.len() - p, 8int,
{
    if 0 <= p < t.len() && t[p] is And {
        match s_not(t, p + 1, ind) {
            Ok((r, p2)) => if p + 1 <= p2 <= t.len() {
                s_and_loop(t, Val::Bool(spec_truth(l) && spec_truth(r)), p2, ind)
            } else {
                Err(backwards())
            },
            Err(e) => Err(e),
        }
    } else {
        Ok((l, p))
    }
}

/// `not` expression at `p`.
pub open spec fn s_not(t: Seq<TokV>, p: int, ind: Indicators) -> PRes
    decreases t.len() - p, 7int,
{
    if p < 0 || p > t.len() {
        Err(backwards())
    } else if p < t.len() && t[p] is Not {
        match s_not(t, p + 1, ind) {
            Ok((v, p2)) => Ok((Val::Bool(!spec_truth(v)), p2)),
            Err(e) => Err(e),
        }
    } else {
        s_compare(t, p, ind)
    }
}

/// Comparison at `p`.
pub open spec fn s_compare(t: Seq<TokV>, p: int, ind: Indicators) -> PRes
    decreases t.len() - p, 6int,
{
    if p < 0 || p > t.len() {
        Err(backwards())
    } else {
        match s_add(t, p, ind) {
            Ok((l, p1)) => if !(p <= p1 <= t.len()) {
                Err(backwards())
            } else if p1 < t.len() && is_compare_tok(t[p1]) {
                match s_add(t, p1 + 1, ind) {
                    Ok((r, p2)) => Ok(
                        (Val::Bool(compare_holds(t[p1], spec_num(l), spec_num(r))), p2),
                    ),
                    Err(e) => Err(e),
                }
            } else {
                Ok((l, p1))
            },
            Err(e) => Err(e),
        }
    }
}

/// Sum or difference at `p`.
pub open spec fn s_add(t: Seq<TokV>, p: int, ind: Indicators) -> PRes
    decreases t.len() - p, 5int,
{
    if p < 0 || p > t.len() {
        Err(backwards())
    } else {
        match s_mul(t, p, ind) {
            Ok((l, p1)) => if p <= p1 <= t.len() {
                s_add_loop(t, l, p1, ind)
            } else {
                Err(backwards())
            },
            Err(e) => Err(e),
        }
    }
}

/// Further `+`/`-` operands after `l`, from `p`.
pub open spec fn s_add_loop(t: Seq<TokV>, l: Val, p: int, ind: Indicators) -> PRes
    decreases t.len() - p, 4int,
{
    if 0 <= p < t.len() && (t[p] is Plus || t[p] is Minus) {
        match s_mul(t, p + 1, ind) {
            Ok((r, p2)) => if p + 1 <= p2 <= t.len() {
                let x = if t[p] is Plus {
                    decimal_add(spec_num(l), spec_num(r))
                } else {
                    decimal_sub(spec_num(l), spec_num(r))
                };
                match x {
                    Some(y) => s_add_loop(t, Val::Num(y), p2, ind),
                    None => Err(overflow_err()),
                }
            } else {
                Err(backwards())
            },
            Err(e) => Err(e),
        }
    } else {
        Ok((l, p))
    }
}

/// Product or quotient at `p`.
pub open spec fn s_mul(t: Seq<TokV>, p: int, ind: Indicators) -> PRes
    decreases t.len() - p, 3int,
{
    if p < 0 || p > t.len() {
        Err(backwards())
    } else {
        match s_unary(t, p, ind) {
            Ok((l, p1)) => if p <= p1 <= t.len() {
                s_mul_loop(t, l, p1, ind)
            } else {
                Err(backwards())
            },
            Err(e) => Err(e),
        }
    }
}

/// Further `*`/`/` operands after `l`, from `p`.
pub open spec fn s_mul_loop(t: Seq<TokV>, l: Val, p: int, ind: Indicators) -> PRes
    decreases t.len() - p, 2int,
{
    if 0 <= p < t.len() && (t[p] is Star || t[p] is Slash) {
        match s_unary(t, p + 1, ind) {
            Ok((r, p2)) => if p + 1 <= p2 <= t.len() {
                let a = spec_num(l);
                let b = spec_num(r);
                if t[p] is Star {
                    match decimal_mul(a, b) {
                        Some(y) => s_mul_loop(t, Val::Num(y), p2, ind),
                        None => Err(overflow_err()),
                    }
                } else if is_zero(b) {
                    Err(bad("div by zero"@))
                } else {
                    match decimal_div(a, b) {
                        Some(y) => s_mul_loop(t, Val::Num(y), p2, ind),
                        None => Err(overflow_err()),
                    }
                }
            } else {
                Err(backwards())
            },
            Err(e) => Err(e),
        }
    } else {
        Ok((l, p))
    }
}

/// Unary minus at `p`.
pub open spec fn s_unary(t: Seq<TokV>, p: int, ind: Indicators) -> PRes
    decreases t.len() - p, 1int,
{
    if p < 0 || p > t.len() {
        Err(backwards())
    } else if p < t.len() && t[p] is Minus {
        match s_unary(t, p + 1, ind) {
            Ok((v, p2)) => Ok((Val::Num(spec_neg(spec_num(v))), p2)),
            Err(e) => Err(e),
        }
    } else {
        s_atom(t, p, ind)
    }
}

/// Atom at `p`: a number, a parenthesised expression, an identifier or a call.
pub open spec fn s_atom(t: Seq<TokV>, p: int, ind: Indicators) -> PRes
    decreases t.len() - p, 0int,
{
    if p < 0 || p >= t.len() {
        Err(bad("unexpected token: None"@))
    } else {
        match t[p] {
            TokV::Num(n) => Ok((Val::Num(n), p + 1)),
            TokV::LParen => match s_or(t, p + 1, ind) {
                Ok((v, p2)) => if !(p + 1 <= p2 <= t.len()) {
                    Err(backwards())
                } else if p2 < t.len() && t[p2] is RParen {
                    Ok((v, p2 + 1))
                } else {
                    Err(bad("expected ')'"@))
                },
                Err(e) => Err(e),
            },
            TokV::Ident(name) => if p + 1 < t.len() && t[p + 1] is LParen {
                if p + 2 < t.len() && t[p + 2] is RParen {
                    match spec_resolve(name, Seq::empty(), ind) {
                        Ok(d) => Ok((Val::Num(d), p + 3)),
                        Err(e) => Err(e),
                    }
                } else {
                    s_args(t, name, Seq::empty(), p + 2, ind)
                }
            } else {
                match spec_lookup(name, ind) {
                    Some(d) => Ok((Val::Num(d), p + 1)),
                    None => Err(bad("unknown identifier: "@ + name)),
                }
            },
            other => Err(bad("unexpected token: Some("@ + tok_name(other) + ")"@)),
        }
    }
}

/// Arguments of a call to `name` from `q`, after those already read, then the call.
pub open spec fn s_args(t: Seq<TokV>, name: Seq<char>, acc: Seq<Dec>, q: int, ind: Indicators) -> PRes
    decreases t.len() - q, 12int,
{
    if q < 0 || q > t.len() {
        Err(backwards())
    } else {
        match s_or(t, q, ind) {
            Ok((v, q2)) => if !(q <= q2 <= t.len()) {
                Err(backwards())
            } else {
                let acc2 = acc.push(spec_num(v));
                if q2 < t.len() && t[q2] is Comma {
                    s_args(t, name, acc2, q2 + 1, ind)
                } else if q2 < t.len() && t[q2] is RParen {
                    match spec_resolve(name, acc2, ind) {
                        Ok(d) => Ok((Val::Num(d), q2 + 1)),
                        Err(e) => Err(e),
                    }
                } else {
                    Err(bad("expected ',' or ')'"@))
                }
            },
            Err(e) => Err(e),
        }
    }
}

/// The truth value of a rule expression over an indicator set, or the error.
/// Tokens after a complete expression are ignored.
pub open spec fn spec_evaluate(expr: Seq<char>, ind: Indicators) -> Result<bool, ErrV> {
    match spec_tokenize(expr) {
        Ok(t) => match s_or(t, 0, ind) {
            Ok((v, _)) => Ok(spec_truth(v)),
            Err(e) => Err(e),
        },
        Err(e) => Err(e),
    }
}


/// An exec parse result agrees with the spec result from `pos` and moves forward.
pub open spec fn parse_ok(r: Result<(Val, usize), AppError>, s: PRes, pos: int, len: int) -> bool {
    match r {
        Ok((v, p2)) => s == Ok::<(Val, int), ErrV>((v, p2 as int)) && pos < p2 <= len && val_wf(v),
        Err(e) => s == Err::<(Val, int), ErrV>(e.view_err()),
    }
}

fn is_tok_or(x: &Tok) -> (b: bool)
    ensures
        b == (x.view() is Or),
{
    matches!(x, Tok::Or)
}

fn is_tok_and(x: &Tok) -> (b: bool)
    ensures
        b == (x.view() is And),
{
    matches!(x, Tok::And)
}

fn is_tok_not(x: &Tok) -> (b: bool)
    ensures
        b == (x.view() is Not),
{
    matches!(x, Tok::Not)
}

fn is_tok_minus(x: &Tok) -> (b: bool)
    ensures
        b == (x.view() is Minus),
{
    matches!(x, Tok::Minus)
}

fn is_tok_add_op(x: &Tok) -> (b: bool)
    ensures
        b == (x.view() is Plus || x.view() is Minus),
{
    matches!(x, Tok::Plus) || matches!(x, Tok::Minus)
}

fn is_tok_mul_op(x: &Tok) -> (b: bool)
    ensures
        b == (x.view() is Star || x.view() is Slash),
{
    matches!(x, Tok::Star) || matches!(x, Tok::Slash)
}

fn is_tok_compare(x: &Tok) -> (b: bool)
    ensures
        b == is_compare_tok(x.view()),
{
    matches!(x, Tok::Lt) || matches!(x, Tok::Le) || matches!(x, Tok::Gt) || matches!(x, Tok::Ge)
        || matches!(x, Tok::Eq) || matches!(x, Tok::Ne)
}

fn is_tok_lparen(x: &Tok) -> (b: bool)
    ensures
        b == (x.view() is LParen),
{
    matches!(x, Tok::LParen)
}

fn is_tok_rparen(x: &Tok) -> (b: bool)
    ensures
        b == (x.view() is RParen),
{
    matches!(x, Tok::RParen)
}

fn is_tok_comma(x: &Tok) -> (b: bool)
    ensures
        b == (x.view() is Comma),
{
    matches!(x, Tok::Comma)
}

fn tok_name_of(x: &Tok) -> (r: &'static str)
    ensures
        r@ == tok_name(x.view()),
{
    match x {
        Tok::Num(_) => "Num",
        Tok::Ident(_) => "Ident",
        Tok::LParen => "LParen",
        Tok::RParen => "RParen",
        Tok::Comma => "Comma",
        Tok::Lt => "Lt",
        Tok::Le => "Le",
        Tok::Gt => "Gt",
        Tok::Ge => "Ge",
        Tok::Eq => "Eq",
        Tok::Ne => "Ne",
        Tok::And => "And",
        Tok::Or => "Or",
        Tok::Not => "Not",
        Tok::Plus => "Plus",
        Tok::Minus => "Minus",
        Tok::Star => "Star",
        Tok::Slash => "Slash",
    }
}

fn bad_request(m: &str) -> (e: AppError)
    ensures
        e.view_err() == bad(m@),
{
    AppError::BadRequest(String::from_str(m))
}

fn bad_request2(a: &str, b: &str) -> (e: AppError)
    ensures
        e.view_err() == bad(a@ + b@),
{
    let mut m = String::from_str(a);
    m.append(b);
    AppError::BadRequest(m)
}

/// The period given as first argument, read from its text, or the default.
fn period_of(args: &Vec<Dec>, default: usize) -> (r: usize)
    requires
        forall|i: int| 0 <= i < args@.len() ==> #[trigger] args@[i].wf(),
    ensures
        r == period_arg(args@, default),
{
    if args.len() == 0 {
        default
    } else {
        let s = display(args[0]);
        match parse_usize(s.as_str()) {
            Some(p) => p,
            None => default,
        }
    }
}

fn get_by_period(
    m: &vstd::hash_map::HashMapWithView<usize, Dec>,
    args: &Vec<Dec>,
    default: usize,
    what: &str,
) -> (r: Result<Dec, AppError>)
    requires
        forall|i: int| 0 <= i < args@.len() ==> #[trigger] args@[i].wf(),
        crate::rules::indicators::map_wf(m@),
    ensures
        match r {
            Ok(d) => by_period(m@, args@, default, what@) == Ok::<Dec, ErrV>(d) && d.wf(),
            Err(e) => by_period(m@, args@, default, what@) == Err::<Dec, ErrV>(e.view_err()),
        },
{
    let p = period_of(args, default);
    match m.get(&p) {
        Some(v) => Ok(*v),
        None => Err(bad_request2(what, " not available")),
    }
}

/// The value of a bare identifier.
pub fn lookup(name: &str, ind: &Indicators) -> (r: Option<Dec>)
    requires
        ind.wf(),
    ensures
        r == spec_lookup(name@, *ind),
        r matches Some(d) ==> d.wf(),
{
    if str_eq(name, "price") || str_eq(name, "close") {
        Some(ind.price)
    } else if str_eq(name, "high") {
        Some(ind.high)
    } else if str_eq(name, "low") {
        Some(ind.low)
    } else if str_eq(name, "open") {
        Some(ind.open)
    } else if str_eq(name, "volume") {
        Some(ind.volume)
    } else if str_eq(name, "pct_change") {
        Some(ind.pct_change)
    } else if str_eq(name, "macd") {
        ind.macd
    } else if str_eq(name, "prev_open") {
        Some(ind.prev_open)
    } else if str_eq(name, "prev_close") {
        Some(ind.prev_close)
    } else if str_eq(name, "prev_high") {
        Some(ind.prev_high)
    } else if str_eq(name, "prev_low") {
        Some(ind.prev_low)
    } else {
        match ind.patterns.get(name) {
            Some(v) => Some(*v),
            None => None,
        }
    }
}

/// The value of a call of `name` with the given arguments.
pub fn resolve_fn(name: &str, args: &Vec<Dec>, ind: &Indicators) -> (r: Result<Dec, AppError>)
    requires
        ind.wf(),
        forall|i: int| 0 <= i < args@.len() ==> #[trigger] args@[i].wf(),
    ensures
        match r {
            Ok(d) => spec_resolve(name@, args@, *ind) == Ok::<Dec, ErrV>(d) && d.wf(),
            Err(e) => spec_resolve(name@, args@, *ind) == Err::<Dec, ErrV>(e.view_err()),
        },
{
    if str_eq(name, "rsi") {
        get_by_period(&ind.rsi, args, 14, "rsi")
    } else if str_eq(name, "ema") {
        get_by_period(&ind.ema, args, 50, "ema")
    } else if str_eq(name, "sma") {
        get_by_period(&ind.sma, args, 50, "sma")
    } else if str_eq(name, "atr") {
        get_by_period(&ind.atr, args, 14, "atr")
    } else if str_eq(name, "macd") {
        match ind.macd {
            Some(m) => Ok(m),
            None => Err(bad_request("macd not available")),
        }
    } else if str_eq(name, "price") || str_eq(name, "close") {
        Ok(ind.close)
    } else if str_eq(name, "high") {
        Ok(ind.high)
    } else if str_eq(name, "low") {
        Ok(ind.low)
    } else if str_eq(name, "open") {
        Ok(ind.open)
    } else if str_eq(name, "volume") {
        Ok(ind.volume)
    } else if str_eq(name, "pct_change") {
        Ok(ind.pct_change)
    } else if str_eq(name, "cross") || str_eq(name, "crossup") || str_eq(name, "crossdown") {
        let a = if args.len() > 0 {
            args[0]
        } else {
            zero()
        };
        let b = if args.len() > 1 {
            args[1]
        } else {
            zero()
        };
        let hit = if str_eq(name, "crossdown") {
            less(a, b)
        } else {
            less(b, a)
        };
        Ok(
            if hit {
                one()
            } else {
                zero()
            },
        )
    } else {
        match ind.patterns.get(name) {
            Some(v) => Ok(*v),
            None => Err(bad_request2("unknown function or pattern: ", name)),
        }
    }
}

fn parse_or(t: &Vec<Tok>, pos: usize, ind: &Indicators) -> (r: Result<(Val, usize), AppError>)
    requires
        pos <= t@.len(),
        toks_wf(toks_view(t@)),
        ind.wf(),
    ensures
        parse_ok(r, s_or(toks_view(t@), pos as int, *ind), pos as int, t@.len() as int),
    decreases t@.len() - pos, 11int,
{
    let ghost tv = toks_view(t@);
    let (mut left, mut p) = match parse_and(t, pos, ind) {
        Ok(x) => x,
        Err(e) => return Err(e),
    };
    loop
        invariant
            tv == toks_view(t@),
            pos < p <= t@.len(),
            val_wf(left),
            toks_wf(tv),
            ind.wf(),
            s_or(tv, pos as int, *ind) == s_or_loop(tv, left, p as int, *ind),
        decreases t@.len() - p,
    {
        if !(p < t.len() && is_tok_or(&t[p])) {
            return Ok((left, p));
        }
        match parse_and(t, p + 1, ind) {
            Ok((r, p2)) => {
                left = Val::Bool(truth(left) || truth(r));
                p = p2;
            },
            Err(e) => return Err(e),
        }
    }
}

fn parse_and(t: &Vec<Tok>, pos: usize, ind: &Indicators) -> (r: Result<(Val, usize), AppError>)
    requires
        pos <= t@.len(),
        toks_wf(toks_view(t@)),
        ind.wf(),
    ensures
        parse_ok(r, s_and(toks_view(t@), pos as int, *ind), pos as int, t@.len() as int),
    decreases t@.len() - pos, 9int,
{
    let ghost tv = toks_view(t@);
    let (mut left, mut p) = match parse_not(t, pos, ind) {
        Ok(x) => x,
        Err(e) => return Err(e),
    };
    loop
        invariant
            tv == toks_view(t@),
            pos < p <= t@.len(),
            val_wf(left),
            toks_wf(tv),
            ind.wf(),
            s_and(tv, pos as int, *ind) == s_and_loop(tv, left, p as int, *ind),
        decreases t@.len() - p,
    {
        if !(p < t.len() && is_tok_and(&t[p])) {
            return Ok((left, p));
        }
        match parse_not(t, p + 1, ind) {
            Ok((r, p2)) => {
                left = Val::Bool(truth(left) && truth(r));
                p = p2;
            },
            Err(e) => return Err(e),
        }
    }
}

fn parse_not(t: &Vec<Tok>, pos: usize, ind: &Indicators) -> (r: Result<(Val, usize), AppError>)
    requires
        pos <= t@.len(),
        toks_wf(toks_view(t@)),
        ind.wf(),
    ensures
        parse_ok(r, s_not(toks_view(t@), pos as int, *ind), pos as int, t@.len() as int),
    decreases t@.len() - pos, 7int,
{
    if pos < t.len() && is_tok_not(&t[pos]) {
        match parse_not(t, pos + 1, ind) {
            Ok((v, p2)) => {
                let b = !truth(v);
                Ok((Val::Bool(b), p2))
            },
            Err(e) => Err(e),
        }
    } else {
        parse_compare(t, pos, ind)
    }
}

#[verifier::spinoff_prover]
#[verifier::rlimit(40)]
fn parse_compare(t: &Vec<Tok>, pos: usize, ind: &Indicators) -> (r: Result<(Val, usize), AppError>)
    requires
        pos <= t@.len(),
        toks_wf(toks_view(t@)),
        ind.wf(),
    ensures
        parse_ok(r, s_compare(toks_view(t@), pos as int, *ind), pos as int, t@.len() as int),
    decreases t@.len() - pos, 6int,
{
    let (l, p1) = match parse_add(t, pos, ind) {
        Ok(x) => x,
        Err(e) => return Err(e),
    };
    if p1 < t.len() && is_tok_compare(&t[p1]) {
        match parse_add(t, p1 + 1, ind) {
            Ok((r, p2)) => {
                let a = num(l);
                let b = num(r);
                let res = match &t[p1] {
                    Tok::Lt => less(a, b),
                    Tok::Le => less_eq(a, b),
                    Tok::Gt => less(b, a),
                    Tok::Ge => less_eq(b, a),
                    Tok::Eq => equal(a, b),
                    _ => !equal(a, b),
                };
                Ok((Val::Bool(res), p2))
            },
            Err(e) => Err(e),
        }
    } else {
        Ok((l, p1))
    }
}

fn parse_add(t: &Vec<Tok>, pos: usize, ind: &Indicators) -> (r: Result<(Val, usize), AppError>)
    requires
        pos <= t@.len(),
        toks_wf(toks_view(t@)),
        ind.wf(),
    ensures
        parse_ok(r, s_add(toks_view(t@), pos as int, *ind), pos as int, t@.len() as int),
    decreases t@.len() - pos, 5int,
{
    let ghost tv = toks_view(t@);
    let (mut left, mut p) = match parse_mul(t, pos, ind) {
        Ok(x) => x,
        Err(e) => return Err(e),
    };
    loop
        invariant
            tv == toks_view(t@),
            pos < p <= t@.len(),
            val_wf(left),
            toks_wf(tv),
            ind.wf(),
            s_add(tv, pos as int, *ind) == s_add_loop(tv, left, p as int, *ind),
        decreases t@.len() - p,
    {
        if !(p < t.len() && is_tok_add_op(&t[p])) {
            return Ok((left, p));
        }
        let plus = matches!(&t[p], Tok::Plus);
        match parse_mul(t, p + 1, ind) {
            Ok((r, p2)) => {
                let a = num(left);
                let b = num(r);
                let x = if plus {
                    checked_add(a, b)
                } else {
                    checked_sub(a, b)
                };
                match x {
                    Some(y) => {
                        left = Val::Num(y);
                        p = p2;
                    },
                    None => return Err(overflow()),
                }
            },
            Err(e) => return Err(e),
        }
    }
}

fn parse_mul(t: &Vec<Tok>, pos: usize, ind: &Indicators) -> (r: Result<(Val, usize), AppError>)
    requires
        pos <= t@.len(),
        toks_wf(toks_view(t@)),
        ind.wf(),
    ensures
        parse_ok(r, s_mul(toks_view(t@), pos as int, *ind), pos as int, t@.len() as int),
    decreases t@.len() - pos, 3int,
{
    let ghost tv = toks_view(t@);
    let (mut left, mut p) = match parse_unary(t, pos, ind) {
        Ok(x) => x,
        Err(e) => return Err(e),
    };
    loop
        invariant
            tv == toks_view(t@),
            pos < p <= t@.len(),
            val_wf(left),
            toks_wf(tv),
            ind.wf(),
            s_mul(tv, pos as int, *ind) == s_mul_loop(tv, left, p as int, *ind),
        decreases t@.len() - p,
    {
        if !(p < t.len() && is_tok_mul_op(&t[p])) {
            return Ok((left, p));
        }
        let star = matches!(&t[p], Tok::Star);
        match parse_unary(t, p + 1, ind) {
            Ok((r, p2)) => {
                let a = num(left);
                let b = num(r);
                if star {
                    match checked_mul(a, b) {
                        Some(y) => {
                            left = Val::Num(y);
                            p = p2;
                        },
                        None => return Err(overflow()),
                    }
                } else if is_zero_dec(b) {
                    return Err(bad_request("div by zero"));
                } else {
                    match checked_div(a, b) {
                        Some(y) => {
                            left = Val::Num(y);
                            p = p2;
                        },
                        None => return Err(overflow()),
                    }
                }
            },
            Err(e) => return Err(e),
        }
    }
}

fn parse_unary(t: &Vec<Tok>, pos: usize, ind: &Indicators) -> (r: Result<(Val, usize), AppError>)
    requires
        pos <= t@.len(),
        toks_wf(toks_view(t@)),
        ind.wf(),
    ensures
        parse_ok(r, s_unary(toks_view(t@), pos as int, *ind), pos as int, t@.len() as int),
    decreases t@.len() - pos, 1int,
{
    if pos < t.len() && is_tok_minus(&t[pos]) {
        match parse_unary(t, pos + 1, ind) {
            Ok((v, p2)) => {
                let n = neg(num(v));
                Ok((Val::Num(n), p2))
            },
            Err(e) => Err(e),
        }
    } else {
        parse_atom(t, pos, ind)
    }
}

fn parse_atom(t: &Vec<Tok>, pos: usize, ind: &Indicators) -> (r: Result<(Val, usize), AppError>)
    requires
        pos <= t@.len(),
        toks_wf(toks_view(t@)),
        ind.wf(),
    ensures
        parse_ok(r, s_atom(toks_view(t@), pos as int, *ind), pos as int, t@.len() as int),
    decreases t@.len() - pos, 0int,
{
    let ghost tv = toks_view(t@);
    if pos >= t.len() {
        return Err(bad_request("unexpected token: None"));
    }
    assert(tv[pos as int] == t@[pos as int].view());
    match &t[pos] {
        Tok::Num(n) => {
            assert(tv[pos as int] is Num);
            Ok((Val::Num(*n), pos + 1))
        },
        Tok::LParen => match parse_or(t, pos + 1, ind) {
            Ok((v, p2)) => {
                if p2 < t.len() && is_tok_rparen(&t[p2]) {
                    Ok((v, p2 + 1))
                } else {
                    Err(bad_request("expected ')'"))
                }
            },
            Err(e) => Err(e),
        },
        Tok::Ident(name) => {
            if pos + 1 < t.len() && is_tok_lparen(&t[pos + 1]) {
                if pos + 2 < t.len() && is_tok_rparen(&t[pos + 2]) {
                    let args: Vec<Dec> = Vec::new();
                    assert(args@ == Seq::<Dec>::empty());
                    match resolve_fn(name.as_str(), &args, ind) {
                        Ok(d) => Ok((Val::Num(d), pos + 3)),
                        Err(e) => Err(e),
                    }
                } else {
                    parse_args(t, name.as_str(), pos + 2, ind)
                }
            } else {
                match lookup(name.as_str(), ind) {
                    Some(d) => Ok((Val::Num(d), pos + 1)),
                    None => Err(bad_request2("unknown identifier: ", name.as_str())),
                }
            }
        },
        other => {
            let mut m = String::from_str("unexpected token: Some(");
            m.append(tok_name_of(other));
            m.append(")");
            Err(AppError::BadRequest(m))
        },
    }
}

fn parse_args(t: &Vec<Tok>, name: &str, q0: usize, ind: &Indicators) -> (r: Result<
    (Val, usize),
    AppError,
>)
    requires
        q0 <= t@.len(),
        toks_wf(toks_view(t@)),
        ind.wf(),
    ensures
        parse_ok(
            r,
            s_args(toks_view(t@), name@, Seq::empty(), q0 as int, *ind),
            q0 as int,
            t@.len() as int,
        ),
    decreases t@.len() - q0, 12int,
{
    let ghost tv = toks_view(t@);
    let mut args: Vec<Dec> = Vec::new();
    let mut q = q0;
    loop
        invariant
            tv == toks_view(t@),
            q0 <= q <= t@.len(),
            toks_wf(tv),
            ind.wf(),
            forall|i: int| 0 <= i < args@.len() ==> #[trigger] args@[i].wf(),
            s_args(tv, name@, Seq::empty(), q0 as int, *ind) == s_args(
                tv,
                name@,
                args@,
                q as int,
                *ind,
            ),
        decreases t@.len() - q,
    {
        match parse_or(t, q, ind) {
            Ok((v, q2)) => {
                let a = num(v);
                args.push(a);
                if q2 < t.len() && is_tok_comma(&t[q2]) {
                    q = q2 + 1;
                } else if q2 < t.len() && is_tok_rparen(&t[q2]) {
                    return match resolve_fn(name, &args, ind) {
                        Ok(d) => Ok((Val::Num(d), q2 + 1)),
                        Err(e) => Err(e),
                    };
                } else {
                    return Err(bad_request("expected ',' or ')'"));
                }
            },
            Err(e) => return Err(e),
        }
    }
}

/// Evaluate a rule expression over an indicator set to a truth value.
pub fn evaluate(expr: &str, ind: &Indicators) -> (r: Result<bool, AppError>)
    requires
        ind.wf(),
    ensures
        match r {
            Ok(b) => spec_evaluate(expr@, *ind) == Ok::<bool, ErrV>(b),
            Err(e) => spec_evaluate(expr@, *ind) == Err::<bool, ErrV>(e.view_err()),
        },
{
    let toks = match tokenize(expr) {
        Ok(t) => t,
        Err(e) => return Err(e),
    };
    match parse_or(&toks, 0, ind) {
        Ok((v, _)) => Ok(truth(v)),
        Err(e) => Err(e),
    }
}

} // verus!

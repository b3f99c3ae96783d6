//! What closed trades teach: wins and losses per symbol and direction.
use crate::ai::evidence::cat3;
use crate::decimal::{less, lt, spec_zero, zero, Dec};
use crate::domain::{Side, Trade, TradeStatus};
use crate::json::{json_of, parse_json, Json, JsonV};
use crate::text::{chars_of, is_digit};
use vstd::prelude::*;

verus! {

/// Score key of a trade's symbol and side: "EURUSD:buy" or "EURUSD:sell".
pub open spec fn side_key(symbol: Seq<char>, side: Side) -> Seq<char> {
    symbol + ":"@ + match side {
        Side::Buy => "buy"@,
        Side::Sell => "sell"@,
    }
}

/// Score key of a symbol over both sides: "EURUSD:_all".
pub open spec fn all_key(symbol: Seq<char>) -> Seq<char> {
    symbol + ":_all"@
}

/// A trade won: it has a positive PnL.
pub open spec fn won(t: Trade) -> bool {
    match t.pnl {
        Some(p) => lt(spec_zero(), p),
        None => false,
    }
}

/// The (wins, losses) under a key, zero when absent.
pub open spec fn score_of(m: Map<Seq<char>, (u32, u32)>, k: Seq<char>) -> (int, int) {
    if m.contains_key(k) {
        (m[k].0 as int, m[k].1 as int)
    } else {
        (0, 0)
    }
}

/// One more win or loss under a key.
pub open spec fn bump(m: Map<Seq<char>, (u32, u32)>, k: Seq<char>, win: bool) -> Map<Seq<char>, (u32, u32)> {
    let (w, l) = score_of(m, k);
    m.insert(
        k,
        if win {
            ((w + 1) as u32, l as u32)
        } else {
            (w as u32, (l + 1) as u32)
        },
    )
}

/// The scores after the first `i` trades: each closed trade adds a win or a
/// loss under its symbol-and-side key and under its symbol's key.
pub open spec fn learned(m: Map<Seq<char>, (u32, u32)>, trades: Seq<Trade>, i: int) -> Map<Seq<char>, (u32, u32)>
    decreases i,
{
    if i <= 0 {
        m
    } else {
        let prev = learned(m, trades, i - 1);
        let t = trades[i - 1];
        if t.status == TradeStatus::Closed {
            bump(bump(prev, side_key(t.symbol@, t.side), won(t)), all_key(t.symbol@), won(t))
        } else {
            prev
        }
    }
}

/// No count can pass `u32::MAX` while `n` more results are added.
pub open spec fn room_for(m: Map<Seq<char>, (u32, u32)>, n: int) -> bool {
    forall|k: Seq<char>| #[trigger] m.contains_key(k) ==> m[k].0 + n <= u32::MAX && m[k].1 + n <= u32::MAX
}

pub proof fn lemma_keys_differ(a: Seq<char>, b: Seq<char>, side: Side)
    ensures
        side_key(a, side) != all_key(b),
{
    reveal_strlit(":");
    reveal_strlit("buy");
    reveal_strlit("sell");
    reveal_strlit(":_all");
    let x = side_key(a, side);
    let y = all_key(b);
    if x == y {
        let n = x.len() as int;
        match side {
            Side::Buy => {
                assert(x[n - 1] == 'y');
                assert(y[n - 1] == 'l');
            },
            Side::Sell => {
                assert(x[n - 3] == 'e');
                assert(y[n - 3] == 'a');
            },
        }
    }
}

fn key_text(symbol: &str, side: Side) -> (r: String)
    ensures
        r@ == side_key(symbol@, side),
{
    match side {
        Side::Buy => cat3(symbol, ":", "buy"),
        Side::Sell => cat3(symbol, ":", "sell"),
    }
}

fn all_text(symbol: &str) -> (r: String)
    ensures
        r@ == all_key(symbol@),
{
    let mut s = String::from_str(symbol);
    s.append(":_all");
    s
}

/// Scores as a list of (key, wins, losses), each key once.
#[derive(Clone, Debug)]
pub struct Scores {
    pub entries: Vec<(String, u32, u32)>,
}

/// No key occurs twice.
pub open spec fn keys_distinct(es: Seq<(String, u32, u32)>) -> bool {
    forall|i: int, j: int| 0 <= i < j < es.len() ==> (#[trigger] es[i]).0@ != (#[trigger] es[j]).0@
}

/// The scores as a map from key to (wins, losses).
pub open spec fn map_of(es: Seq<(String, u32, u32)>) -> Map<Seq<char>, (u32, u32)>
    decreases es.len(),
{
    if es.len() == 0 {
        Map::empty()
    } else {
        map_of(es.drop_last()).insert(es.last().0@, (es.last().1, es.last().2))
    }
}

impl Scores {
    pub open spec fn wf(&self) -> bool {
        keys_distinct(self.entries@)
    }

    pub open spec fn scores(&self) -> Map<Seq<char>, (u32, u32)> {
        map_of(self.entries@)
    }

    /// The (wins, losses) under a key.
    pub fn get(&self, k: &str) -> (r: Option<(u32, u32)>)
        requires
            self.wf(),
        ensures
            r == (if self.scores().contains_key(k@) {
                Some(self.scores()[k@])
            } else {
                None
            }),
    {
        proof {
            lemma_map_of_keys(self.entries@, k@);
        }
        match find_key(&self.entries, k) {
            Some(i) => {
                proof {
                    lemma_map_of_at(self.entries@, i as int);
                }
                Some((self.entries[i].1, self.entries[i].2))
            },
            None => None,
        }
    }
}

proof fn lemma_map_of_keys(es: Seq<(String, u32, u32)>, k: Seq<char>)
    ensures
        map_of(es).contains_key(k) <==> exists|i: int| 0 <= i < es.len() && (#[trigger] es[i]).0@ == k,
    decreases es.len(),
{
    if es.len() > 0 {
        lemma_map_of_keys(es.drop_last(), k);
        if map_of(es.drop_last()).contains_key(k) {
            let i = choose|i: int| 0 <= i < es.drop_last().len() && (#[trigger] es.drop_last()[i]).0@ == k;
            assert(es[i] == es.drop_last()[i]);
        }
        if exists|i: int| 0 <= i < es.len() && (#[trigger] es[i]).0@ == k {
            let i = choose|i: int| 0 <= i < es.len() && (#[trigger] es[i]).0@ == k;
            if i < es.len() - 1 {
                assert(es.drop_last()[i] == es[i]);
            }
        }
    }
}

proof fn lemma_map_of_at(es: Seq<(String, u32, u32)>, i: int)
    requires
        keys_distinct(es),
        0 <= i < es.len(),
    ensures
        map_of(es).contains_key(es[i].0@),
        map_of(es)[es[i].0@] == (es[i].1, es[i].2),
    decreases es.len(),
{
    if i < es.len() - 1 {
        assert(es.drop_last()[i] == es[i]);
        assert(keys_distinct(es.drop_last()));
        lemma_map_of_at(es.drop_last(), i);
        assert(es[i].0@ != es.last().0@);
    }
}

proof fn lemma_map_of_update(es: Seq<(String, u32, u32)>, i: int, e: (String, u32, u32))
    requires
        keys_distinct(es),
        0 <= i < es.len(),
        e.0@ == es[i].0@,
    ensures
        map_of(es.update(i, e)) == map_of(es).insert(e.0@, (e.1, e.2)),
        keys_distinct(es.update(i, e)),
    decreases es.len(),
{
    let u = es.update(i, e);
    if i == es.len() - 1 {
        assert(u.drop_last() =~= es.drop_last());
        assert(map_of(es.drop_last()).insert(e.0@, (e.1, e.2)) =~= map_of(es).insert(e.0@, (e.1, e.2)));
    } else {
        assert(u.drop_last() =~= es.drop_last().update(i, e));
        assert(keys_distinct(es.drop_last()));
        lemma_map_of_update(es.drop_last(), i, e);
        assert(es.last().0@ != e.0@);
        assert(map_of(u) =~= map_of(es).insert(e.0@, (e.1, e.2)));
    }
}

fn find_key(es: &Vec<(String, u32, u32)>, k: &str) -> (r: Option<usize>)
    ensures
        r matches Some(i) ==> i < es@.len() && es@[i as int].0@ == k@,
        r is None ==> forall|i: int| 0 <= i < es@.len() ==> (#[trigger] es@[i]).0@ != k@,
{
    let mut i: usize = 0;
    while i < es.len()
        invariant
            i <= es@.len(),
            forall|j: int| 0 <= j < i ==> (#[trigger] es@[j]).0@ != k@,
        decreases es@.len() - i,
    {
        if crate::text::str_eq(es[i].0.as_str(), k) {
            return Some(i);
        }
        i += 1;
    }
    None
}

fn bump_exec(m: &mut Scores, k: String, win: bool)
    requires
        old(m).wf(),
        old(m).scores().contains_key(k@) ==> old(m).scores()[k@].0 < u32::MAX && old(m).scores()[k@].1 < u32::MAX,
    ensures
        final(m).wf(),
        final(m).scores() == bump(old(m).scores(), k@, win),
{
    proof {
        lemma_map_of_keys(m.entries@, k@);
    }
    match find_key(&m.entries, k.as_str()) {
        Some(i) => {
            proof {
                lemma_map_of_at(m.entries@, i as int);
            }
            let w = m.entries[i].1;
            let l = m.entries[i].2;
            let e = if win {
                (k, w + 1, l)
            } else {
                (k, w, l + 1)
            };
            proof {
                lemma_map_of_update(m.entries@, i as int, e);
            }
            m.entries.set(i, e);
        },
        None => {
            let e = if win {
                (k, 1u32, 0u32)
            } else {
                (k, 0u32, 1u32)
            };
            let ghost before = m.entries@;
            m.entries.push(e);
            proof {
                assert(m.entries@.drop_last() =~= before);
                assert forall|i: int, j: int| 0 <= i < j < m.entries@.len() implies (#[trigger] m.entries@[i]).0@
                    != (#[trigger] m.entries@[j]).0@ by {
                    if j == m.entries@.len() - 1 {
                        assert(before[i] == m.entries@[i]);
                    } else {
                        assert(before[i] == m.entries@[i]);
                        assert(before[j] == m.entries@[j]);
                    }
                }
            }
        },
    }
}

/// An empty score table.
pub fn new_scores() -> (r: Scores)
    ensures
        r.wf(),
        r.scores() == Map::<Seq<char>, (u32, u32)>::empty(),
{
    Scores { entries: Vec::new() }
}

/// Add the results of the closed trades to the scores.
pub fn learn(scores: &mut Scores, trades: &[Trade])
    requires
        old(scores).wf(),
        trades@.len() <= u32::MAX,
        room_for(old(scores).scores(), trades@.len() as int),
        forall|i: int| 0 <= i < trades@.len() ==> ((#[trigger] trades@[i]).pnl matches Some(p) ==> p.wf()),
    ensures
        final(scores).wf(),
        final(scores).scores() == learned(old(scores).scores(), trades@, trades@.len() as int),
{
    let ghost base = scores.scores();
    let n = trades.len();
    let mut i: usize = 0;
    while i < n
        invariant
            n == trades@.len(),
            n <= u32::MAX,
            i <= n,
            scores.wf(),
            room_for(base, n as int),
            forall|j: int| 0 <= j < trades@.len() ==> ((#[trigger] trades@[j]).pnl matches Some(p) ==> p.wf()),
            scores.scores() == learned(base, trades@, i as int),
            forall|k: Seq<char>|
                #[trigger] scores.scores().contains_key(k) ==> scores.scores()[k].0 <= score_of(base, k).0 + i
                    && scores.scores()[k].1 <= score_of(base, k).1 + i,
        decreases n - i,
    {
        let t = &trades[i];
        if t.status == TradeStatus::Closed {
            let win = match t.pnl {
                Some(p) => less(zero(), p),
                None => false,
            };
            let k1 = key_text(t.symbol.as_str(), t.side);
            let k2 = all_text(t.symbol.as_str());
            proof {
                lemma_keys_differ(t.symbol@, t.symbol@, t.side);
            }
            bump_exec(scores, k1, win);
            bump_exec(scores, k2, win);
        }
        i += 1;
    }
}

// ------------------------------------------------------------ stored scores

/// The value of a text of ASCII digits.
pub open spec fn digits_value(t: Seq<char>) -> int
    decreases t.len(),
{
    if t.len() == 0 {
        0
    } else {
        digits_value(t.drop_last()) * 10 + (t.last() as int - '0' as int)
    }
}

/// Every character is an ASCII digit.
pub open spec fn all_digits(t: Seq<char>) -> bool {
    forall|i: int| 0 <= i < t.len() ==> is_digit(#[trigger] t[i])
}

/// A JSON number read as a `u32`, as serde reads one: the number's text is a
/// non-empty run of digits whose value fits (a sign, fraction or exponent
/// does not read as a `u32`).
pub open spec fn spec_u32_text(t: Seq<char>) -> Option<u32> {
    if t.len() > 0 && all_digits(t) && digits_value(t) <= u32::MAX {
        Some(digits_value(t) as u32)
    } else {
        None
    }
}

proof fn lemma_digits_grow(t: Seq<char>, k: int)
    requires
        all_digits(t),
        0 <= k <= t.len(),
    ensures
        0 <= digits_value(t.take(k)) <= digits_value(t),
    decreases t.len(),
{
    if t.len() > 0 {
        let d = t.drop_last();
        assert(all_digits(d));
        assert(is_digit(t[t.len() - 1]));
        lemma_digits_grow(d, if k < t.len() { k } else { d.len() as int });
        if k == t.len() {
            assert(t.take(k) =~= t);
        } else {
            assert(t.take(k) =~= d.take(k));
        }
    } else {
        assert(t.take(k) =~= t);
    }
}

fn u32_of_text(t: &str) -> (r: Option<u32>)
    ensures
        r == spec_u32_text(t@),
{
    let cs = chars_of(t);
    if cs.len() == 0 {
        return None;
    }
    let mut v: u64 = 0;
    let mut i: usize = 0;
    while i < cs.len()
        invariant
            cs@ == t@,
            i <= cs@.len(),
            all_digits(cs@.take(i as int)),
            v == digits_value(cs@.take(i as int)),
            v <= u32::MAX,
        decreases cs@.len() - i,
    {
        let c = cs[i];
        assert(cs@.take(i + 1).drop_last() =~= cs@.take(i as int));
        if !('0' <= c && c <= '9') {
            assert(!is_digit(cs@[i as int]));
            return None;
        }
        let d = (c as u32 - '0' as u32) as u64;
        let nv = v * 10 + d;
        assert(cs@.take(i + 1).last() == c);
        if nv > u32::MAX as u64 {
            proof {
                if all_digits(cs@) {
                    lemma_digits_grow(cs@, i + 1);
                }
            }
            return None;
        }
        v = nv;
        i += 1;
    }
    assert(cs@.take(cs@.len() as int) =~= cs@);
    Some(v as u32)
}

/// A stored score: an array of two `u32`s, wins then losses.
pub open spec fn spec_score_pair(v: JsonV) -> Option<(u32, u32)> {
    match v {
        JsonV::Arr(items) => if items.len() == 2 {
            match (items[0], items[1]) {
                (JsonV::Num(a), JsonV::Num(b)) => match (spec_u32_text(a), spec_u32_text(b)) {
                    (Some(w), Some(l)) => Some((w, l)),
                    _ => None,
                },
                _ => None,
            }
        } else {
            None
        },
        _ => None,
    }
}

/// The rows of a stored score object, in member order; `None` when a member
/// is not a score.
pub open spec fn score_rows_of(members: Seq<(Seq<char>, JsonV)>) -> Option<Seq<(Seq<char>, u32, u32)>>
    decreases members.len(),
{
    if members.len() == 0 {
        Some(Seq::empty())
    } else {
        match (score_rows_of(members.drop_last()), spec_score_pair(members.last().1)) {
            (Some(rows), Some((w, l))) => Some(rows.push((members.last().0, w, l))),
            _ => None,
        }
    }
}

/// The scores stored as JSON text: an object from key to `[wins, losses]`.
pub open spec fn spec_scores_text(raw: Seq<char>) -> Option<Seq<(Seq<char>, u32, u32)>> {
    match json_of(raw) {
        Ok(JsonV::Obj(members)) => score_rows_of(members),
        _ => None,
    }
}

/// The rows of the scores, keys as text.
pub open spec fn rows_of(es: Seq<(String, u32, u32)>) -> Seq<(Seq<char>, u32, u32)> {
    es.map_values(|e: (String, u32, u32)| (e.0@, e.1, e.2))
}

fn score_pair(v: &Json) -> (r: Option<(u32, u32)>)
    ensures
        r == spec_score_pair(v@),
{
    match v {
        Json::Arr(items) => {
            if items.len() != 2 {
                return None;
            }
            let ghost iv = match v@ {
                JsonV::Arr(x) => x,
                _ => Seq::empty(),
            };
            assert(v@ == JsonV::Arr(iv));
            assert(iv[0] == items@[0]@);
            assert(iv[1] == items@[1]@);
            match (&items[0], &items[1]) {
                (Json::Num(a), Json::Num(b)) => match (u32_of_text(a.as_str()), u32_of_text(b.as_str())) {
                    (Some(w), Some(l)) => Some((w, l)),
                    _ => None,
                },
                _ => None,
            }
        },
        _ => None,
    }
}

/// Scores read back from their stored JSON text; `None` when the text is not
/// such an object.
pub fn scores_from_text(raw: &str) -> (r: Option<Scores>)
    ensures
        r is Some <==> spec_scores_text(raw@) is Some,
        r matches Some(sc) ==> sc.wf() && spec_scores_text(raw@) == Some(rows_of(sc.entries@)),
{
    let j = match parse_json(raw) {
        Ok(j) => j,
        Err(_) => return None,
    };
    match &j {
        Json::Obj(members) => {
            let ghost mv = match j@ {
                JsonV::Obj(m) => m,
                _ => Seq::empty(),
            };
            assert(j@ == JsonV::Obj(mv));
            assert forall|k: int| 0 <= k < members@.len() implies mv[k] == (
                #[trigger] members@[k].0@,
                members@[k].1@,
            ) by {}
            let mut entries: Vec<(String, u32, u32)> = Vec::new();
            let mut i: usize = 0;
            while i < members.len()
                invariant
                    i <= members@.len(),
                    mv.len() == members@.len(),
                    forall|k: int| 0 <= k < members@.len() ==> mv[k] == (#[trigger] members@[k].0@, members@[k].1@),
                    crate::json::keys_distinct(mv),
                    json_of(raw@) == Ok::<JsonV, Seq<char>>(JsonV::Obj(mv)),
                    score_rows_of(mv.take(i as int)) == Some(rows_of(entries@)),
                    entries@.len() == i,
                    forall|k: int| 0 <= k < i ==> (#[trigger] entries@[k]).0@ == mv[k].0,
                decreases members@.len() - i,
            {
                assert(mv.take(i + 1).drop_last() =~= mv.take(i as int));
                assert(mv.take(i + 1).last() == mv[i as int]);
                assert(mv[i as int] == (members@[i as int].0@, members@[i as int].1@));
                match score_pair(&members[i].1) {
                    Some((w, l)) => {
                        let k = String::from_str(members[i].0.as_str());
                        let ghost before = entries@;
                        entries.push((k, w, l));
                        assert(rows_of(entries@) =~= rows_of(before).push((members@[i as int].0@, w, l)));
                    },
                    None => {
                        proof {
                            lemma_rows_none(mv, i + 1);
                        }
                        return None;
                    },
                }
                i += 1;
            }
            assert(mv.take(members@.len() as int) =~= mv);
            assert forall|a: int, b: int| 0 <= a < b < entries@.len() implies (#[trigger] entries@[a]).0@
                != (#[trigger] entries@[b]).0@ by {
                assert(mv[a].0 != mv[b].0);
            }
            Some(Scores { entries })
        },
        _ => None,
    }
}

proof fn lemma_rows_none(ms: Seq<(Seq<char>, JsonV)>, k: int)
    requires
        0 <= k <= ms.len(),
        score_rows_of(ms.take(k)) is None,
    ensures
        score_rows_of(ms) is None,
    decreases ms.len() - k,
{
    if k < ms.len() {
        assert(ms.take(k + 1).drop_last() =~= ms.take(k));
        lemma_rows_none(ms, k + 1);
    } else {
        assert(ms.take(k) =~= ms);
    }
}

} // verus!

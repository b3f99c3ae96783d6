//! Turning an extracted note into a strategy to create.
use crate::ai::evidence::cat3;
use crate::decimal::{dn, one, spec_one, Dec};
use crate::domain::{AssetClass, CreateRule, CreateStrategy};
use crate::text::{ascii_lower_seq, str_eq, to_ascii_lowercase};
use vstd::prelude::*;

verus! {

/// A strategy as read from the model's answer; the numbers are already
/// decimals (absent where the answer had none or one out of range).
#[derive(Clone, Debug)]
pub struct ExtractedStrategy {
    pub name: String,
    pub description: Option<String>,
    pub asset_class: String,
    pub symbols: Vec<String>,
    pub stop_loss: Option<Dec>,
    pub take_profit: Option<Dec>,
    pub risk_per_trade: Option<Dec>,
    pub rules: Vec<ExtractedRule>,
}

/// A rule as read from the model's answer.
#[derive(Clone, Debug)]
pub struct ExtractedRule {
    pub name: String,
    pub expr: String,
    pub weight: Option<Dec>,
}

/// "forex" or "fx" in any ASCII case is forex; anything else is an index.
pub open spec fn spec_class_of(s: Seq<char>) -> AssetClass {
    let l = ascii_lower_seq(s);
    if l == "forex"@ || l == "fx"@ {
        AssetClass::Forex
    } else {
        AssetClass::DerivIndex
    }
}

pub fn class_of(s: &str) -> (r: AssetClass)
    ensures
        r == spec_class_of(s@),
{
    let l = to_ascii_lowercase(s);
    if str_eq(l.as_str(), "forex") || str_eq(l.as_str(), "fx") {
        AssetClass::Forex
    } else {
        AssetClass::DerivIndex
    }
}

/// The request put to the model for a note.
pub fn extraction_prompt(title: &str, content_type: &str, content: &str) -> (r: String)
    ensures
        r@ == "Convert the following trading notes into a strategy JSON.\n\nNote title: "@ + title@
            + "\nContent type: "@ + content_type@ + "\n\nContent:\n"@ + content@
            + "\n\nReturn the strategy JSON object only."@,
{
    let mut s = cat3("Convert the following trading notes into a strategy JSON.\n\nNote title: ", title, "\nContent type: ");
    s.append(content_type);
    s.append("\n\nContent:\n");
    s.append(content);
    s.append("\n\nReturn the strategy JSON object only.");
    s
}

/// The rules with their weights, 1 where none was given.
pub open spec fn rule_of(r: ExtractedRule) -> (Seq<char>, Seq<char>, Dec) {
    (
        r.name@,
        r.expr@,
        match r.weight {
            Some(w) => w,
            None => spec_one(),
        },
    )
}

/// The strategy to create from an extraction: its class read from the
/// text, a risk of 0.01 and rule weights of 1 where none were given.
pub fn strategy_from_extract(x: ExtractedStrategy) -> (r: CreateStrategy)
    ensures
        r.name@ == x.name@,
        r.description == x.description,
        r.asset_class == spec_class_of(x.asset_class@),
        r.symbols@ == x.symbols@,
        r.stop_loss == x.stop_loss,
        r.take_profit == x.take_profit,
        r.risk_per_trade == match x.risk_per_trade {
            Some(v) => v,
            None => dn(1, 2),
        },
        r.rules@.len() == x.rules@.len(),
        forall|i: int|
            0 <= i < r.rules@.len() ==> (#[trigger] r.rules@[i]).name@ == x.rules@[i].name@
                && r.rules@[i].expr@ == x.rules@[i].expr@ && r.rules@[i].weight == rule_of(
                x.rules@[i],
            ).2,
{
    let class = class_of(x.asset_class.as_str());
    let mut rules: Vec<CreateRule> = Vec::new();
    let mut i: usize = 0;
    while i < x.rules.len()
        invariant
            i <= x.rules@.len(),
            rules@.len() == i,
            forall|j: int|
                0 <= j < i ==> (#[trigger] rules@[j]).name@ == x.rules@[j].name@ && rules@[j].expr@
                    == x.rules@[j].expr@ && rules@[j].weight == rule_of(x.rules@[j]).2,
        decreases x.rules@.len() - i,
    {
        let r = &x.rules[i];
        let w = match r.weight {
            Some(v) => v,
            None => one(),
        };
        rules.push(CreateRule { name: r.name.clone(), expr: r.expr.clone(), weight: w });
        i += 1;
    }
    let risk = match x.risk_per_trade {
        Some(v) => v,
        None => Dec::new(1, 2),
    };
    CreateStrategy {
        name: x.name,
        description: x.description,
        asset_class: class,
        symbols: x.symbols,
        stop_loss: x.stop_loss,
        take_profit: x.take_profit,
        risk_per_trade: risk,
        rules,
    }
}

} // verus!

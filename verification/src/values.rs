//! Value rules: how the current value of a field becomes its new value.

use vstd::prelude::*;
use crate::error::Failure;
use crate::text::parse_decimal;
use crate::text::str_equal;
use crate::text::to_decimal;

verus! {

/// A source of new values, one rule per field name.
///
/// `outcome` is the rule as a function of the field's name and its current
/// value; `new_value` computes it. An implementation that does not say what
/// its `outcome` is leaves it unspecified.
pub trait ValueRules {
    /// What the rules make of `value` for the field `name`.
    open spec fn outcome(&self, name: Seq<char>, value: Seq<char>) -> Result<Seq<char>, Failure> {
        arbitrary()
    }

    /// Computes the new value of the field `name` from its current value.
    fn new_value(&self, name: &str, current_value: &str) -> (r: Result<String, Failure>)
        ensures
            match r {
                Ok(value) => self.outcome(name@, current_value@) == Ok::<Seq<char>, Failure>(
                    value@,
                ),
                Err(failure) => self.outcome(name@, current_value@) == Err::<Seq<char>, Failure>(
                    failure,
                ),
            },
    ;
}

/// What a rule does with the number that the current value writes.
#[derive(Clone, Copy, Debug, PartialEq, Eq, Structural)]
pub enum Rule {
    /// Multiplies it.
    Multiply(usize),
    /// Divides it, rounding down.
    Divide(usize),
    /// Adds to it.
    Add(usize),
    /// Puts ten in its place, whatever it was.
    Ten,
}

impl Rule {
    /// The rule of a field, for the fields whose rule works on whole numbers.
    pub open spec fn of(name: Seq<char>) -> Option<Rule> {
        if name == "StorageAmount"@ {
            Some(Rule::Multiply(10))
        } else if name == "IndustrializationDistance"@ || name == "FullSatisfactionDistance"@
            || name == "NoSatisfactionDistance"@ || name == "HeatRange"@ {
            Some(Rule::Multiply(2))
        } else if name == "CycleTime"@ {
            Some(Rule::Divide(5))
        } else if name == "CraftingTime"@ {
            Some(Rule::Divide(10))
        } else if name == "MinPauseBetweenEvents"@ || name == "MaxPauseBetweenEvents"@ {
            Some(Rule::Divide(5000))
        } else if name == "ResolverUnitCount"@ {
            Some(Rule::Add(1))
        } else if name == "MoveInMs"@ || name == "MoveOutMs"@ || name == "MoveRandomMs"@ {
            Some(Rule::Ten)
        } else {
            None
        }
    }

    /// The number that the rule makes of `n`, where it works on a number.
    pub open spec fn on_number(self, n: nat) -> Option<nat> {
        match self {
            Rule::Multiply(k) => Some(n * (k as nat)),
            Rule::Divide(k) => if k == 0 {
                None
            } else {
                Some(n / (k as nat))
            },
            Rule::Add(k) => Some(n + (k as nat)),
            Rule::Ten => Some(10),
        }
    }

    /// What the rule makes of a current value: for `Ten` the text `10`; for
    /// the others the decimal notation of the new number, where the current
    /// value writes a number and both numbers fit the machine word.
    pub open spec fn applied(self, value: Seq<char>) -> Result<Seq<char>, Failure> {
        match self {
            Rule::Ten => Ok("10"@),
            _ => match crate::text::parsed_number(value) {
                Some(n) => match self.on_number(n) {
                    Some(m) => if n <= usize::MAX && m <= usize::MAX {
                        Ok(crate::text::decimal(m))
                    } else {
                        Err(Failure::InvalidValue)
                    },
                    None => Err(Failure::InvalidValue),
                },
                None => Err(Failure::InvalidValue),
            },
        }
    }

    /// Finds the rule of a field.
    pub fn lookup(name: &str) -> (r: Option<Rule>)
        ensures
            r == Rule::of(name@),
    {
        if str_equal(name, "StorageAmount") {
            Some(Rule::Multiply(10))
        } else if str_equal(name, "IndustrializationDistance") || str_equal(
            name,
            "FullSatisfactionDistance",
        ) || str_equal(name, "NoSatisfactionDistance") || str_equal(name, "HeatRange") {
            Some(Rule::Multiply(2))
        } else if str_equal(name, "CycleTime") {
            Some(Rule::Divide(5))
        } else if str_equal(name, "CraftingTime") {
            Some(Rule::Divide(10))
        } else if str_equal(name, "MinPauseBetweenEvents") || str_equal(
            name,
            "MaxPauseBetweenEvents",
        ) {
            Some(Rule::Divide(5000))
        } else if str_equal(name, "ResolverUnitCount") {
            Some(Rule::Add(1))
        } else if str_equal(name, "MoveInMs") || str_equal(name, "MoveOutMs") || str_equal(
            name,
            "MoveRandomMs",
        ) {
            Some(Rule::Ten)
        } else {
            None
        }
    }

    /// Applies the rule to a current value.
    pub fn apply(self, current_value: &str) -> (r: Result<String, Failure>)
        ensures
            match r {
                Ok(value) => self.applied(current_value@) == Ok::<Seq<char>, Failure>(value@),
                Err(failure) => self.applied(current_value@) == Err::<Seq<char>, Failure>(
                    failure,
                ),
            },
    {
        if let Rule::Ten = self {
            return Ok(String::from_str("10"));
        }
        let number: usize = match parse_decimal(current_value) {
            Some(number) => number,
            None => {
                return Err(Failure::InvalidValue);
            },
        };
        let outcome: Option<usize> = match self {
            Rule::Multiply(k) => {
                let product = number.checked_mul(k);
                proof {
                    assert(product is None <==> number * k > usize::MAX);
                }
                product
            },
            Rule::Divide(k) => if k == 0 {
                None
            } else {
                Some(number / k)
            },
            Rule::Add(k) => number.checked_add(k),
            Rule::Ten => Some(10),
        };
        match outcome {
            Some(m) => Ok(to_decimal(m)),
            None => Err(Failure::InvalidValue),
        }
    }
}

/// What the standard rules make of the current value of a field: the
/// outcome of the field's rule, and a failure for a field without one.
pub open spec fn standard_outcome(name: Seq<char>, value: Seq<char>) -> Result<Seq<char>, Failure> {
    match Rule::of(name) {
        Some(rule) => rule.applied(value),
        None => Err(Failure::UnrecognizedField),
    }
}

/// Computes the new value of the field `name` from its current value by the
/// standard rules.
pub fn new_value(name: &str, current_value: &str) -> (r: Result<String, Failure>)
    ensures
        match r {
            Ok(value) => standard_outcome(name@, current_value@) == Ok::<Seq<char>, Failure>(
                value@,
            ),
            Err(failure) => standard_outcome(name@, current_value@) == Err::<Seq<char>, Failure>(
                failure,
            ),
        },
{
    match Rule::lookup(name) {
        Some(rule) => rule.apply(current_value),
        None => Err(Failure::UnrecognizedField),
    }
}

/// The standard rules as a source of new values.
#[derive(Clone, Copy, Debug)]
pub struct StandardRules;

impl ValueRules for StandardRules {
    open spec fn outcome(&self, name: Seq<char>, value: Seq<char>) -> Result<Seq<char>, Failure> {
        standard_outcome(name, value)
    }

    fn new_value(&self, name: &str, current_value: &str) -> (r: Result<String, Failure>) {
        new_value(name, current_value)
    }
}

} // verus!

use crate::token_type::TokenType;
use std::cmp::Ordering;
use vstd::prelude::*;
use vstd::std_specs::cmp::PartialOrdSpecImpl;

verus! {

/// How tightly an operator binds, from `Lowest` to `Call`.
#[derive(Debug, Clone, Copy, PartialEq, Eq, Structural, Ord)]
pub enum Precedence {
    Lowest,
    Equals,
    LessGreater,
    Sum,
    Product,
    Prefix,
    Call,
}

impl Precedence {
    /// The place of a level in the order: 0 for `Lowest`, 6 for `Call`.
    pub open spec fn level(self) -> nat {
        match self {
            Precedence::Lowest => 0,
            Precedence::Equals => 1,
            Precedence::LessGreater => 2,
            Precedence::Sum => 3,
            Precedence::Product => 4,
            Precedence::Prefix => 5,
            Precedence::Call => 6,
        }
    }

    /// The level at which a binary operator binds; a category that is no
    /// binary operator has none.
    pub open spec fn spec_look_up_by(token_type: TokenType) -> Option<Precedence> {
        match token_type {
            TokenType::Equal => Some(Precedence::Equals),
            TokenType::NotEqual => Some(Precedence::Equals),
            TokenType::LessThan => Some(Precedence::LessGreater),
            TokenType::GreaterThan => Some(Precedence::LessGreater),
            TokenType::Plus => Some(Precedence::Sum),
            TokenType::Minus => Some(Precedence::Sum),
            TokenType::Slash => Some(Precedence::Product),
            TokenType::Asterisk => Some(Precedence::Product),
            _ => None,
        }
    }

    #[verifier::when_used_as_spec(spec_look_up_by)]
    pub fn look_up_by(token_type: TokenType) -> (precedence: Option<Precedence>)
        ensures
            precedence == Precedence::spec_look_up_by(token_type),
    {
        match token_type {
            TokenType::Equal => Some(Precedence::Equals),
            TokenType::NotEqual => Some(Precedence::Equals),
            TokenType::LessThan => Some(Precedence::LessGreater),
            TokenType::GreaterThan => Some(Precedence::LessGreater),
            TokenType::Plus => Some(Precedence::Sum),
            TokenType::Minus => Some(Precedence::Sum),
            TokenType::Slash => Some(Precedence::Product),
            TokenType::Asterisk => Some(Precedence::Product),
            _ => None,
        }
    }

    pub fn priority(&self) -> (priority: u32)
        ensures
            priority == self.level(),
    {
        match self {
            Precedence::Lowest => 0,
            Precedence::Equals => 1,
            Precedence::LessGreater => 2,
            Precedence::Sum => 3,
            Precedence::Product => 4,
            Precedence::Prefix => 5,
            Precedence::Call => 6,
        }
    }
}

impl PartialOrd for Precedence {
    fn partial_cmp(&self, other: &Self) -> (ordering: Option<Ordering>) {
        let left = self.priority();
        let right = other.priority();
        if left < right {
            Some(Ordering::Less)
        } else if left == right {
            Some(Ordering::Equal)
        } else {
            Some(Ordering::Greater)
        }
    }
}

impl PartialOrdSpecImpl for Precedence {
    open spec fn obeys_partial_cmp_spec() -> bool {
        true
    }

    /// Levels are ordered by their place: any two of them compare.
    open spec fn partial_cmp_spec(&self, other: &Self) -> Option<Ordering> {
        if self.level() < other.level() {
            Some(Ordering::Less)
        } else if self.level() == other.level() {
            Some(Ordering::Equal)
        } else {
            Some(Ordering::Greater)
        }
    }
}

/// The order of the levels is total and strict: of two levels exactly one of
/// "lower", "equal" and "higher" holds, equal places mean equal levels, and
/// "lower" is transitive.
pub proof fn lemma_precedence_total_order(a: Precedence, b: Precedence, c: Precedence)
    ensures
        a.level() == b.level() <==> a == b,
        a.level() < b.level() || a == b || b.level() < a.level(),
        a.level() < b.level() && b.level() < c.level() ==> a.level() < c.level(),
        a.level() <= Precedence::Call.level(),
        Precedence::Lowest.level() <= a.level(),
{
}

} // verus!

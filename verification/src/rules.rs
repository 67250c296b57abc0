//! Matching rules attached to paths, as the plan builders consult them.

use vstd::prelude::*;
use crate::text::str_eq;
use crate::docpath::{DocPath, Step};

verus! {

/// A matching rule.
#[derive(Debug)]
pub enum MatchingRule {
    /// Values must be equal
    Equality,
    /// Values must match the regular expression
    Regex(String),
    /// Values must have the same type
    Type,
    /// Same type, with at least this many items
    MinType(usize),
    /// Same type, with at most this many items
    MaxType(usize),
    /// Same type, with at least and at most these many items
    MinMaxType(usize, usize),
    /// Values must be numbers
    Number,
    /// Values must be integers
    Integer,
    /// Values must be decimals
    Decimal,
    /// Values must be null
    Null,
    /// Values must be booleans
    Boolean,
    /// Values must not be empty
    NotEmpty,
    /// Values must be semantic versions
    Semver,
    /// Map values are matched, keys are ignored
    Values,
    /// Each key of a map must match
    EachKey,
    /// Each value of a map must match
    EachValue,
}

/// The model of a matching rule.
pub enum Rule {
    Equality,
    Regex(Seq<char>),
    Type,
    MinType(nat),
    MaxType(nat),
    MinMaxType(nat, nat),
    Number,
    Integer,
    Decimal,
    Null,
    Boolean,
    NotEmpty,
    Semver,
    Values,
    EachKey,
    EachValue,
}

impl View for MatchingRule {
    type V = Rule;

    open spec fn view(&self) -> Rule {
        match *self {
            MatchingRule::Equality => Rule::Equality,
            MatchingRule::Regex(r) => Rule::Regex(r@),
            MatchingRule::Type => Rule::Type,
            MatchingRule::MinType(n) => Rule::MinType(n as nat),
            MatchingRule::MaxType(n) => Rule::MaxType(n as nat),
            MatchingRule::MinMaxType(a, b) => Rule::MinMaxType(a as nat, b as nat),
            MatchingRule::Number => Rule::Number,
            MatchingRule::Integer => Rule::Integer,
            MatchingRule::Decimal => Rule::Decimal,
            MatchingRule::Null => Rule::Null,
            MatchingRule::Boolean => Rule::Boolean,
            MatchingRule::NotEmpty => Rule::NotEmpty,
            MatchingRule::Semver => Rule::Semver,
            MatchingRule::Values => Rule::Values,
            MatchingRule::EachKey => Rule::EachKey,
            MatchingRule::EachValue => Rule::EachValue,
        }
    }
}

impl MatchingRule {
    /// A copy of this rule.
    pub fn copy(&self) -> (r: MatchingRule)
        ensures
            r@ == self@,
    {
        match self {
            MatchingRule::Equality => MatchingRule::Equality,
            MatchingRule::Regex(r) => MatchingRule::Regex(r.clone()),
            MatchingRule::Type => MatchingRule::Type,
            MatchingRule::MinType(n) => MatchingRule::MinType(*n),
            MatchingRule::MaxType(n) => MatchingRule::MaxType(*n),
            MatchingRule::MinMaxType(a, b) => MatchingRule::MinMaxType(*a, *b),
            MatchingRule::Number => MatchingRule::Number,
            MatchingRule::Integer => MatchingRule::Integer,
            MatchingRule::Decimal => MatchingRule::Decimal,
            MatchingRule::Null => MatchingRule::Null,
            MatchingRule::Boolean => MatchingRule::Boolean,
            MatchingRule::NotEmpty => MatchingRule::NotEmpty,
            MatchingRule::Semver => MatchingRule::Semver,
            MatchingRule::Values => MatchingRule::Values,
            MatchingRule::EachKey => MatchingRule::EachKey,
            MatchingRule::EachValue => MatchingRule::EachValue,
        }
    }
}

/// The rules that apply at one path.
#[derive(Debug)]
pub struct RuleList {
    pub rules: Vec<MatchingRule>,
}

impl View for RuleList {
    type V = Seq<Rule>;

    open spec fn view(&self) -> Seq<Rule> {
        self.rules@.map_values(|r: MatchingRule| r@)
    }
}

impl RuleList {
    /// An empty list.
    pub fn empty() -> (r: RuleList)
        ensures
            r@ == Seq::<Rule>::empty(),
    {
        let r = RuleList { rules: Vec::new() };
        assert(r@ =~= Seq::<Rule>::empty());
        r
    }

    /// A copy of this list.
    pub fn copy(&self) -> (r: RuleList)
        ensures
            r@ == self@,
    {
        let mut out: Vec<MatchingRule> = Vec::new();
        let mut i: usize = 0;
        while i < self.rules.len()
            invariant
                i <= self.rules.len(),
                out.len() == i,
                forall|j: int| 0 <= j < i ==> (#[trigger] out@[j])@ == self.rules@[j]@,
            decreases self.rules.len() - i,
        {
            out.push(self.rules[i].copy());
            i = i + 1;
        }
        let r = RuleList { rules: out };
        assert(r@ =~= self@);
        r
    }

    /// If there are no rules.
    pub fn is_empty(&self) -> (r: bool)
        ensures
            r == (self@.len() == 0),
    {
        self.rules.len() == 0
    }
}

/// The rules of one category (such as `body` or `path`), by path.
#[derive(Debug)]
pub struct MatchingRuleCategory {
    pub name: String,
    pub rules: Vec<(DocPath, RuleList)>,
}

/// The model of a rule category: its name, and the rules at each path in order.
pub struct Category {
    pub name: Seq<char>,
    pub rules: Seq<(Seq<Step>, Seq<Rule>)>,
}

impl View for MatchingRuleCategory {
    type V = Category;

    open spec fn view(&self) -> Category {
        Category {
            name: self.name@,
            rules: self.rules@.map_values(|e: (DocPath, RuleList)| (e.0@, e.1@)),
        }
    }
}

/// Whether some rule of the category is at exactly this path.
pub open spec fn rule_defined(c: Category, path: Seq<Step>) -> bool {
    exists|i: int| 0 <= i < c.rules.len() && (#[trigger] c.rules[i]).0 == path
}

/// The rules at the first entry for exactly this path, or none.
pub open spec fn rules_at(c: Category, path: Seq<Step>) -> Seq<Rule>
    decreases c.rules.len(),
{
    if c.rules.len() == 0 {
        Seq::empty()
    } else if c.rules[0].0 == path {
        c.rules[0].1
    } else {
        rules_at(Category { rules: c.rules.drop_first(), ..c }, path)
    }
}

impl MatchingRuleCategory {
    /// A category without rules.
    pub fn empty(name: &str) -> (r: MatchingRuleCategory)
        ensures
            r@.name == name@,
            r@.rules.len() == 0,
    {
        MatchingRuleCategory { name: name.to_string(), rules: Vec::new() }
    }

    /// A copy of this category.
    pub fn copy(&self) -> (r: MatchingRuleCategory)
        ensures
            r@ == self@,
    {
        let mut out: Vec<(DocPath, RuleList)> = Vec::new();
        let mut i: usize = 0;
        while i < self.rules.len()
            invariant
                i <= self.rules.len(),
                out.len() == i,
                forall|j: int| 0 <= j < i ==> (#[trigger] out@[j]).0@ == self.rules@[j].0@ && out@[j].1@ == self.rules@[j].1@,
            decreases self.rules.len() - i,
        {
            out.push((self.rules[i].0.copy(), self.rules[i].1.copy()));
            i = i + 1;
        }
        let r = MatchingRuleCategory { name: self.name.clone(), rules: out };
        assert(r@.rules =~= self@.rules);
        r
    }

    /// Adds the rules at a path.
    pub fn add_rules(&mut self, path: DocPath, rules: RuleList)
        ensures
            final(self)@ == (Category { rules: old(self)@.rules.push((path@, rules@)), ..old(self)@ }),
    {
        self.rules.push((path, rules));
        assert(self@.rules =~= old(self)@.rules.push((path@, rules@)));
    }

    /// If there is a matcher defined at exactly the path.
    pub fn matcher_is_defined(&self, path: &DocPath) -> (r: bool)
        ensures
            r == rule_defined(self@, path@),
    {
        let mut i: usize = 0;
        while i < self.rules.len()
            invariant
                i <= self.rules.len(),
                forall|j: int| 0 <= j < i ==> self@.rules[j].0 != path@,
            decreases self.rules.len() - i,
        {
            if self.rules[i].0.same_as(path) {
                assert(self@.rules[i as int].0 == path@);
                return true;
            }
            i = i + 1;
        }
        false
    }

    /// The rules at the first entry for exactly the path, or an empty list.
    pub fn select_best_matcher(&self, path: &DocPath) -> (r: RuleList)
        ensures
            r@ == rules_at(self@, path@),
    {
        let mut i: usize = 0;
        proof {
            let c = Category { rules: self@.rules.subrange(0, self@.rules.len() as int), ..self@ };
            assert(c.rules =~= self@.rules);
            assert(c == self@);
        }
        while i < self.rules.len()
            invariant
                i <= self.rules.len(),
                rules_at(self@, path@) == rules_at(Category { rules: self@.rules.subrange(i as int, self@.rules.len() as int), ..self@ }, path@),
            decreases self.rules.len() - i,
        {
            proof {
                let c = Category { rules: self@.rules.subrange(i as int, self@.rules.len() as int), ..self@ };
                assert(c.rules.drop_first() =~= self@.rules.subrange(i + 1, self@.rules.len() as int));
            }
            if self.rules[i].0.same_as(path) {
                return self.rules[i].1.copy();
            }
            i = i + 1;
        }
        RuleList::empty()
    }
}

} // verus!

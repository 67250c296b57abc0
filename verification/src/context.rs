//! The state used while executing a plan: the value stack, and the matching rules by category.

use vstd::prelude::*;
use crate::text::{push_char, push_str, push_decimal, str_eq, starts_with, chars_of, string_of, decimal};
use crate::json::{JsonValue, Json, read_json, serde_json_read};
use crate::docpath::{DocPath, Step};
use crate::value::{NodeValue, NodeVal};
use crate::result::{NodeResult, NodeRes, opt_result_view, result_or, copy_opt_result};
use crate::plan::{ExecutionPlanNode, PlanNodeType, PlanNode, PlanKind, plan_view, plan_views, lemma_plan_views};
use crate::rules::{MatchingRuleCategory, RuleList, Category, Rule, rule_defined, rules_at};

verus! {

/// Context to store data for use in executing an execution plan.
#[derive(Debug)]
pub struct PlanMatchingContext {
    /// Matching rules of the request of the interaction that the plan is for, by category
    pub request_rules: Vec<MatchingRuleCategory>,
    /// Stack of intermediate values (used by the pipeline operator and apply action)
    pub value_stack: Vec<Option<NodeResult>>,
    /// Matching rules to use
    pub matching_rules: MatchingRuleCategory,
    /// If extra keys/values are allowed (and ignored)
    pub allow_unexpected_entries: bool,
}

/// The model of the value stack, bottom first.
pub open spec fn stack_view(s: Seq<Option<NodeResult>>) -> Seq<Option<NodeRes>> {
    s.map_values(|r: Option<NodeResult>| opt_result_view(r))
}

/// The value on top of a stack, if there is one and it holds a result.
pub open spec fn stack_top(s: Seq<Option<NodeRes>>) -> Option<NodeRes> {
    if s.len() == 0 { None } else { s.last() }
}

/// The rules of the named category among the given ones (the first such), or none.
pub open spec fn category_rules(cats: Seq<Category>, name: Seq<char>) -> Seq<(Seq<Step>, Seq<Rule>)>
    decreases cats.len(),
{
    if cats.len() == 0 {
        Seq::empty()
    } else if cats[0].name == name {
        cats[0].rules
    } else {
        category_rules(cats.drop_first(), name)
    }
}

/// The models of some rule categories.
pub open spec fn categories_view(c: Seq<MatchingRuleCategory>) -> Seq<Category> {
    c.map_values(|x: MatchingRuleCategory| x@)
}

/// Something that resolves document paths (such as `$.path`) to values.
pub trait ValueResolver {
    /// Resolves the path to a value, or fails with a message.
    fn resolve(&self, path: &DocPath, context: &PlanMatchingContext) -> Result<NodeValue, String>;
}

impl PlanMatchingContext {
    /// A context with no rules, an empty stack, and unexpected entries not allowed.
    pub fn new() -> (r: PlanMatchingContext)
        ensures
            r.request_rules@.len() == 0,
            r.value_stack@.len() == 0,
            r.matching_rules@.name.len() == 0,
            r.matching_rules@.rules.len() == 0,
            !r.allow_unexpected_entries,
    {
        proof { reveal_strlit(""); }
        PlanMatchingContext {
            request_rules: Vec::new(),
            value_stack: Vec::new(),
            matching_rules: MatchingRuleCategory::empty(""),
            allow_unexpected_entries: false,
        }
    }

    /// Push a result value onto the value stack.
    pub fn push_result(&mut self, value: Option<NodeResult>)
        ensures
            stack_view(final(self).value_stack@) == stack_view(old(self).value_stack@).push(opt_result_view(value)),
            final(self).matching_rules@ == old(self).matching_rules@,
            final(self).allow_unexpected_entries == old(self).allow_unexpected_entries,
            categories_view(final(self).request_rules@) == categories_view(old(self).request_rules@),
    {
        self.value_stack.push(value);
        assert(stack_view(self.value_stack@) =~= stack_view(old(self).value_stack@).push(opt_result_view(value)));
    }

    /// Replace the top value of the stack with the new value (or push it onto an empty stack).
    pub fn update_result(&mut self, value: Option<NodeResult>)
        ensures
            stack_view(final(self).value_stack@) == if old(self).value_stack@.len() == 0 {
                seq![opt_result_view(value)]
            } else {
                stack_view(old(self).value_stack@).drop_last().push(opt_result_view(value))
            },
            final(self).matching_rules@ == old(self).matching_rules@,
            final(self).allow_unexpected_entries == old(self).allow_unexpected_entries,
            categories_view(final(self).request_rules@) == categories_view(old(self).request_rules@),
    {
        let n = self.value_stack.len();
        if n == 0 {
            self.value_stack.push(value);
            assert(stack_view(self.value_stack@) =~= seq![opt_result_view(value)]);
        } else {
            self.value_stack.set(n - 1, value);
            assert(stack_view(self.value_stack@) =~= stack_view(old(self).value_stack@).drop_last().push(opt_result_view(value)));
        }
    }

    /// Remove the value on the top of the stack, returning it.
    pub fn pop_result(&mut self) -> (r: Option<NodeResult>)
        ensures
            opt_result_view(r) == stack_top(stack_view(old(self).value_stack@)),
            stack_view(final(self).value_stack@) == if old(self).value_stack@.len() == 0 {
                stack_view(old(self).value_stack@)
            } else {
                stack_view(old(self).value_stack@).drop_last()
            },
            final(self).matching_rules@ == old(self).matching_rules@,
            final(self).allow_unexpected_entries == old(self).allow_unexpected_entries,
            categories_view(final(self).request_rules@) == categories_view(old(self).request_rules@),
    {
        match self.value_stack.pop() {
            Some(v) => {
                assert(stack_view(self.value_stack@) =~= stack_view(old(self).value_stack@).drop_last());
                v
            },
            None => None,
        }
    }

    /// Return the current stack value.
    pub fn stack_value(&self) -> (r: Option<NodeResult>)
        ensures
            opt_result_view(r) == stack_top(stack_view(self.value_stack@)),
    {
        let n = self.value_stack.len();
        if n == 0 {
            None
        } else {
            copy_opt_result(&self.value_stack[n - 1])
        }
    }

    /// If there is a matcher defined at the path in this context.
    pub fn matcher_is_defined(&self, path: &DocPath) -> (r: bool)
        ensures
            r == rule_defined(self.matching_rules@, path@),
    {
        self.matching_rules.matcher_is_defined(path)
    }

    /// Select the best matcher to use for the given path.
    pub fn select_best_matcher(&self, path: &DocPath) -> (r: RuleList)
        ensures
            r@ == rules_at(self.matching_rules@, path@),
    {
        self.matching_rules.select_best_matcher(path)
    }

    fn copy_request_rules(&self) -> (r: Vec<MatchingRuleCategory>)
        ensures
            categories_view(r@) == categories_view(self.request_rules@),
    {
        let mut out: Vec<MatchingRuleCategory> = Vec::new();
        let mut i: usize = 0;
        while i < self.request_rules.len()
            invariant
                i <= self.request_rules.len(),
                out.len() == i,
                forall|j: int| 0 <= j < i ==> (#[trigger] out@[j])@ == self.request_rules@[j]@,
            decreases self.request_rules.len() - i,
        {
            out.push(self.request_rules[i].copy());
            i = i + 1;
        }
        assert(categories_view(out@) =~= categories_view(self.request_rules@));
        out
    }

    fn rules_for(&self, name: &str) -> (r: MatchingRuleCategory)
        ensures
            r@.name == name@,
            r@.rules == category_rules(categories_view(self.request_rules@), name@),
    {
        let mut i: usize = 0;
        proof {
            assert(categories_view(self.request_rules@).subrange(0, self.request_rules.len() as int) =~= categories_view(self.request_rules@));
        }
        while i < self.request_rules.len()
            invariant
                i <= self.request_rules.len(),
                category_rules(categories_view(self.request_rules@), name@)
                    == category_rules(categories_view(self.request_rules@).subrange(i as int, self.request_rules.len() as int), name@),
            decreases self.request_rules.len() - i,
        {
            proof {
                let c = categories_view(self.request_rules@).subrange(i as int, self.request_rules.len() as int);
                assert(c.drop_first() =~= categories_view(self.request_rules@).subrange(i + 1, self.request_rules.len() as int));
            }
            if str_eq(self.request_rules[i].name.as_str(), name) {
                return self.request_rules[i].copy();
            }
            i = i + 1;
        }
        MatchingRuleCategory::empty(name)
    }

    fn for_category(&self, name: &str, allow_unexpected_entries: bool) -> (r: PlanMatchingContext)
        ensures
            r.matching_rules@.name == name@,
            r.matching_rules@.rules == category_rules(categories_view(self.request_rules@), name@),
            categories_view(r.request_rules@) == categories_view(self.request_rules@),
            r.value_stack@.len() == 0,
            r.allow_unexpected_entries == allow_unexpected_entries,
    {
        PlanMatchingContext {
            request_rules: self.copy_request_rules(),
            value_stack: Vec::new(),
            matching_rules: self.rules_for(name),
            allow_unexpected_entries,
        }
    }

    /// Creates a clone of this context, but with the matching rules set for the request method.
    pub fn for_method(&self) -> (r: PlanMatchingContext)
        ensures
            r.matching_rules@ == (Category { name: "method"@, rules: category_rules(categories_view(self.request_rules@), "method"@) }),
            categories_view(r.request_rules@) == categories_view(self.request_rules@),
            r.value_stack@.len() == 0,
            !r.allow_unexpected_entries,
    {
        self.for_category("method", false)
    }

    /// Creates a clone of this context, but with the matching rules set for the request path.
    pub fn for_path(&self) -> (r: PlanMatchingContext)
        ensures
            r.matching_rules@ == (Category { name: "path"@, rules: category_rules(categories_view(self.request_rules@), "path"@) }),
            categories_view(r.request_rules@) == categories_view(self.request_rules@),
            r.value_stack@.len() == 0,
            !r.allow_unexpected_entries,
    {
        self.for_category("path", false)
    }

    /// Creates a clone of this context, but with the matching rules set for the request query parameters.
    pub fn for_query(&self) -> (r: PlanMatchingContext)
        ensures
            r.matching_rules@ == (Category { name: "query"@, rules: category_rules(categories_view(self.request_rules@), "query"@) }),
            categories_view(r.request_rules@) == categories_view(self.request_rules@),
            r.value_stack@.len() == 0,
            !r.allow_unexpected_entries,
    {
        self.for_category("query", false)
    }

    /// Creates a clone of this context, but with the matching rules set for the request headers.
    pub fn for_headers(&self) -> (r: PlanMatchingContext)
        ensures
            r.matching_rules@ == (Category { name: "header"@, rules: category_rules(categories_view(self.request_rules@), "header"@) }),
            categories_view(r.request_rules@) == categories_view(self.request_rules@),
            r.value_stack@.len() == 0,
            !r.allow_unexpected_entries,
    {
        self.for_category("header", false)
    }

    /// Creates a clone of this context, but with the matching rules set for the request body
    /// (keeping whether unexpected entries are allowed).
    pub fn for_body(&self) -> (r: PlanMatchingContext)
        ensures
            r.matching_rules@ == (Category { name: "body"@, rules: category_rules(categories_view(self.request_rules@), "body"@) }),
            categories_view(r.request_rules@) == categories_view(self.request_rules@),
            r.value_stack@.len() == 0,
            r.allow_unexpected_entries == self.allow_unexpected_entries,
    {
        self.for_category("body", self.allow_unexpected_entries)
    }
}

} // verus!

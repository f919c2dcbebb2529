//! Check tiers ordered by cost, and which tier each hook runs.

use vstd::prelude::*;

verus! {

#[derive(Debug, Clone, Copy, PartialEq, Eq, Structural)]
pub enum Tier {
    Fast,
    Targeted,
    Full,
}

#[derive(Debug, Clone, Copy, PartialEq, Eq, Structural)]
pub enum Hook {
    PostToolUse,
    Stop,
}

#[derive(Debug, Clone, Copy, PartialEq, Eq, Structural)]
pub enum Check {
    Secrets,
    Diff,
    Ruff,
    RelatedTests,
    Mypy,
    Semgrep,
    RepositoryCommands,
}

#[derive(Debug, Clone, Copy, PartialEq, Eq, Structural)]
pub enum Availability {
    Supported,
    NotConfigured,
}

/// The checks of a tier, in stable cost order.
pub open spec fn tier_checks(tier: Tier) -> Seq<Check> {
    match tier {
        Tier::Fast => seq![Check::Secrets, Check::Diff, Check::Ruff],
        Tier::Targeted => seq![Check::RelatedTests, Check::Mypy, Check::Semgrep],
        Tier::Full => seq![
            Check::Secrets,
            Check::Diff,
            Check::Ruff,
            Check::Semgrep,
            Check::RepositoryCommands,
        ],
    }
}

pub fn checks(tier: Tier) -> (r: Vec<Check>)
    ensures
        r@ == tier_checks(tier),
{
    match tier {
        Tier::Fast => vec![Check::Secrets, Check::Diff, Check::Ruff],
        Tier::Targeted => vec![Check::RelatedTests, Check::Mypy, Check::Semgrep],
        Tier::Full => vec![
            Check::Secrets,
            Check::Diff,
            Check::Ruff,
            Check::Semgrep,
            Check::RepositoryCommands,
        ],
    }
}

pub fn for_hook(hook: Hook) -> (r: Tier)
    ensures
        r == (match hook {
            Hook::PostToolUse => Tier::Fast,
            Hook::Stop => Tier::Full,
        }),
{
    match hook {
        Hook::PostToolUse => Tier::Fast,
        Hook::Stop => Tier::Full,
    }
}

/// Related tests and mypy are not configured as targeted checks; every other
/// check is supported.
pub fn targeted_availability(check: Check) -> (r: Availability)
    ensures
        r == (if check == Check::RelatedTests || check == Check::Mypy {
            Availability::NotConfigured
        } else {
            Availability::Supported
        }),
{
    match check {
        Check::Semgrep => Availability::Supported,
        Check::RelatedTests | Check::Mypy => Availability::NotConfigured,
        _ => Availability::Supported,
    }
}

/// Every check of the fast tier is also run by the full tier, so the stop gate
/// never runs less than an edit did.
pub proof fn lemma_full_tier_covers_fast_tier(check: Check)
    requires
        tier_checks(Tier::Fast).contains(check),
    ensures
        tier_checks(Tier::Full).contains(check),
{
    assert(tier_checks(Tier::Fast)[0] == tier_checks(Tier::Full)[0]);
    assert(tier_checks(Tier::Fast)[1] == tier_checks(Tier::Full)[1]);
    assert(tier_checks(Tier::Fast)[2] == tier_checks(Tier::Full)[2]);
}

} // verus!

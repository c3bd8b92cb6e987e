//! The named configuration switches a build document can set, and the
//! key each one is stored under in the document.

use vstd::prelude::*;

verus! {

/// A configuration switch of a build.
#[derive(Clone, Copy, PartialEq, Eq, Structural)]
pub enum Config {
    Boss,
    CoveredInAsh,
    EnemeyHit,
    EnemyShocked,
    Focused,
    FrenzyCharges,
    FrenzyChargesAmount,
    PowerCharges,
    PowerChargesAmount,
    WitherStacks,
    ShockEffect,
}

/// The document key of each switch.  The frenzy-charge override key
/// also serves the power-charge override, as the stored documents do.
pub open spec fn spec_config_name(c: Config) -> Seq<char> {
    match c {
        Config::Boss => "enemyIsBoss"@,
        Config::CoveredInAsh => "conditionEnemyCoveredInAsh"@,
        Config::EnemeyHit => "enemyHit"@,
        Config::EnemyShocked => "conditionEnemyShocked"@,
        Config::Focused => "conditionFocused"@,
        Config::FrenzyCharges => "useFrenzyCharges"@,
        Config::FrenzyChargesAmount => "overrideFrenzyCharges"@,
        Config::PowerCharges => "usePowerCharges"@,
        Config::PowerChargesAmount => "overrideFrenzyCharges"@,
        Config::WitherStacks => "multiplierWitheredStackCount"@,
        Config::ShockEffect => "conditionShockEffect"@,
    }
}

impl Config {
    /// The key this switch is stored under.
    pub fn name(&self) -> (r: &'static str)
        ensures
            r@ == spec_config_name(*self),
    {
        match self {
            Config::Boss => "enemyIsBoss",
            Config::CoveredInAsh => "conditionEnemyCoveredInAsh",
            Config::EnemeyHit => "enemyHit",
            Config::EnemyShocked => "conditionEnemyShocked",
            Config::Focused => "conditionFocused",
            Config::FrenzyCharges => "useFrenzyCharges",
            Config::FrenzyChargesAmount => "overrideFrenzyCharges",
            Config::PowerCharges => "usePowerCharges",
            Config::PowerChargesAmount => "overrideFrenzyCharges",
            Config::WitherStacks => "multiplierWitheredStackCount",
            Config::ShockEffect => "conditionShockEffect",
        }
    }

    /// Whether this switch is stored under the given key.
    pub fn matches_name(&self, other: &str) -> (r: bool)
        ensures
            r == (spec_config_name(*self) == other@),
    {
        crate::strutil::str_eq(self.name(), other)
    }
}

} // verus!

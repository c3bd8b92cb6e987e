//! The parts of a build document that callers work with directly:
//! skill groups and their gems.
//!
//! A gem is a support gem when its gem identifier says so, else when
//! its skill identifier says so, else when its display name mentions
//! support; every other gem is active.

use crate::strutil::{contains, spec_contains, spec_starts_with, starts_with};
use vstd::prelude::*;

verus! {

/// One socketed gem of a skill group.
pub struct Gem {
    pub name: String,
    pub skill_id: Option<String>,
    pub gem_id: Option<String>,
    pub level: u8,
    pub quality: u8,
}

/// Whether a gem is a support gem: decided by the gem identifier first,
/// the skill identifier second, the display name last.
pub open spec fn spec_is_support(g: Gem) -> bool {
    match g.gem_id {
        Some(gid) => spec_starts_with(gid@, "Metadata/Items/Gems/Support"@),
        None => match g.skill_id {
            Some(sid) => spec_starts_with(sid@, "Support"@),
            None => spec_contains(g.name@, "Support"@),
        },
    }
}

impl Gem {
    /// Whether this gem supports others rather than acting itself.
    pub fn is_support(&self) -> (r: bool)
        ensures
            r == spec_is_support(*self),
    {
        if let Some(gem_id) = &self.gem_id {
            return starts_with(gem_id.as_str(), "Metadata/Items/Gems/Support");
        }
        if let Some(skill_id) = &self.skill_id {
            return starts_with(skill_id.as_str(), "Support");
        }
        contains(self.name.as_str(), "Support")
    }

    /// Whether this gem acts itself.
    pub fn is_active(&self) -> (r: bool)
        ensures
            r == !spec_is_support(*self),
    {
        !self.is_support()
    }
}

/// One skill group: its own settings and the gems socketed in it.
pub struct Skill {
    pub main_active_skill: u8,
    pub enabled: bool,
    pub label: Option<String>,
    pub slot: Option<String>,
    pub gems: Vec<Gem>,
}

impl Skill {
    /// The active gems of this group, in order.
    pub fn active_gems<'a>(&'a self) -> (r: Vec<&'a Gem>)
        ensures
            r@.map_values(|g: &Gem| *g) == self.gems@.filter(|g: Gem| !spec_is_support(g)),
    {
        let ghost pred = |g: Gem| !spec_is_support(g);
        let mut r: Vec<&Gem> = Vec::new();
        let n = self.gems.len();
        let mut i: usize = 0;
        proof {
            reveal(Seq::filter);
            assert(r@.map_values(|g: &Gem| *g) =~= self.gems@.take(0).filter(pred));
        }
        while i < n
            invariant
                i <= n,
                n == self.gems@.len(),
                r@.map_values(|g: &Gem| *g) == self.gems@.take(i as int).filter(
                    |g: Gem| !spec_is_support(g),
                ),
            decreases n - i,
        {
            let ghost pre = r@.map_values(|g: &Gem| *g);
            if self.gems[i].is_active() {
                r.push(&self.gems[i]);
            }
            proof {
                reveal(Seq::filter);
                let p = |g: Gem| !spec_is_support(g);
                assert(self.gems@.take(i + 1).drop_last() =~= self.gems@.take(i as int));
                assert(self.gems@.take(i + 1).last() == self.gems@[i as int]);
                if p(self.gems@[i as int]) {
                    assert(r@.map_values(|g: &Gem| *g) =~= pre.push(self.gems@[i as int]));
                } else {
                    assert(r@.map_values(|g: &Gem| *g) =~= pre);
                }
            }
            i += 1;
        }
        proof {
            assert(self.gems@.take(n as int) =~= self.gems@);
        }
        r
    }

    /// The support gems of this group, in order.
    pub fn support_gems<'a>(&'a self) -> (r: Vec<&'a Gem>)
        ensures
            r@.map_values(|g: &Gem| *g) == self.gems@.filter(|g: Gem| spec_is_support(g)),
    {
        let ghost pred = |g: Gem| spec_is_support(g);
        let mut r: Vec<&Gem> = Vec::new();
        let n = self.gems.len();
        let mut i: usize = 0;
        proof {
            reveal(Seq::filter);
            assert(r@.map_values(|g: &Gem| *g) =~= self.gems@.take(0).filter(pred));
        }
        while i < n
            invariant
                i <= n,
                n == self.gems@.len(),
                r@.map_values(|g: &Gem| *g) == self.gems@.take(i as int).filter(
                    |g: Gem| spec_is_support(g),
                ),
            decreases n - i,
        {
            let ghost pre = r@.map_values(|g: &Gem| *g);
            if self.gems[i].is_support() {
                r.push(&self.gems[i]);
            }
            proof {
                reveal(Seq::filter);
                let p = |g: Gem| spec_is_support(g);
                assert(self.gems@.take(i + 1).drop_last() =~= self.gems@.take(i as int));
                assert(self.gems@.take(i + 1).last() == self.gems@[i as int]);
                if p(self.gems@[i as int]) {
                    assert(r@.map_values(|g: &Gem| *g) =~= pre.push(self.gems@[i as int]));
                } else {
                    assert(r@.map_values(|g: &Gem| *g) =~= pre);
                }
            }
            i += 1;
        }
        proof {
            assert(self.gems@.take(n as int) =~= self.gems@);
        }
        r
    }
}

} // verus!

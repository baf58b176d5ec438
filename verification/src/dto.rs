//! The raw character records, as the backing store hands them over: a
//! character's name, stunts, nested skills and categorised aspects.

use vstd::prelude::*;

verus! {

/// A raw character record before reshaping for display.
#[derive(Clone, Debug, PartialEq, Eq)]
pub struct Character {
    pub name: String,
    pub stunts: Vec<String>,
    pub skills: Vec<SkillOuter>,
    pub aspects: Vec<Aspect>,
}

/// A raw skill: a nested name record and a wide integer proficiency level.
#[derive(Clone, Debug, PartialEq, Eq)]
pub struct SkillOuter {
    pub name: SkillInner,
    pub level: i32,
}

/// The nested name record of a skill.
#[derive(Clone, Debug, PartialEq, Eq)]
pub struct SkillInner {
    pub name: String,
}

/// A raw aspect: a short descriptive phrase with a category tag that
/// decides its place in the display order.
#[derive(Clone, Debug, PartialEq, Eq)]
pub struct Aspect {
    pub description: String,
    pub aspect_type: AspectType,
}

/// The category of an aspect. Display order follows the order the
/// variants are written in: high concept first, trouble second, all
/// other aspects last.
#[derive(PartialEq, Eq, Structural, PartialOrd, Ord, Copy, Clone, Debug)]
pub enum AspectType {
    High,
    Trouble,
    Other,
}

} // verus!

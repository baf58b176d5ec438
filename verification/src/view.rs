//! The flat view-model that a character-sheet template consumes.

use vstd::prelude::*;

verus! {

/// A skill ready for display: a plain name and a narrow rating.
#[derive(Clone, Debug, PartialEq, Eq)]
pub struct Skill {
    pub name: String,
    pub rating: u8,
}

/// A character ready for display: aspects flattened to their descriptions
/// (already ordered by category), skills flattened to name and rating.
#[derive(Clone, Debug, PartialEq, Eq)]
pub struct Character {
    pub name: String,
    pub aspects: Vec<String>,
    pub skills: Vec<Skill>,
    pub stunts: Vec<String>,
}

/// Everything the character-sheet template needs: the character, the list
/// of all permitted skill names, and whether the sheet is editable.
#[derive(Clone, Debug, PartialEq, Eq)]
pub struct CharacterSheet {
    pub character: Character,
    pub all_skills: Vec<String>,
    pub editable: bool,
}

} // verus!

//! The decision cores of the request handlers: what each route computes
//! once its parameters are in hand and before any page is rendered.

use vstd::prelude::*;
use crate::assemble;
use crate::assemble::{levels_in_range, sheet_matches};
use crate::dto;
use crate::dto::SkillInner;
use crate::error::AppError;
use crate::todo::MemStore;
use crate::view::CharacterSheet;

verus! {

/// The liveness probe's fixed reply.
pub fn hello_from_the_server() -> (r: &'static str)
    ensures
        r@ == "Hello!"@,
{
    "Hello!"
}

/// Appends one submitted todo and hands back the updated list, in
/// submission order, for the refreshed page fragment.
pub fn add_todo_and_list(store: &mut MemStore, todo: String) -> (todos: Vec<String>)
    ensures
        final(store)@ == old(store)@.push(todo),
        todos@ == final(store)@,
{
    let _id = store.add_todo(todo);
    store.all_todos()
}

/// Builds the character sheet for one request: a missing record is a
/// not-found failure rather than a fault, a present record is assembled
/// exactly when every skill level fits the rating range.
pub fn character_page(
    found: Option<dto::Character>,
    all_skills: Vec<SkillInner>,
    editable: bool,
) -> (r: Result<CharacterSheet, AppError>)
    ensures
        found is None ==> r == Result::<CharacterSheet, AppError>::Err(AppError::NotFound),
        found is Some ==> {
            &&& r is Ok <==> levels_in_range(found->0.skills@)
            &&& (r is Ok ==> sheet_matches(found->0, all_skills@, editable, r->Ok_0))
            &&& (r is Err ==> r->Err_0 == AppError::Validation)
        },
{
    match found {
        Option::None => Result::Err(AppError::NotFound),
        Option::Some(c) => assemble::assemble_character(c, all_skills, editable),
    }
}

} // verus!

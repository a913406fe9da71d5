//! The data that each page of the site is rendered from.
use vstd::prelude::*;

use crate::db::{DisplayCard, StackDetails};

verus! {

/// The home page: the signed-in account's stacks.
pub struct HomeTemplate<'a> {
    pub title: &'a str,
    pub profile: Option<Profile>,
    pub stacks: Vec<StackDetails>,
}

/// The signed-in account.
#[derive(Clone, Debug)]
pub struct Profile {
    pub did: String,
    pub display_name: Option<String>,
}

/// The sign-in page.
pub struct LoginTemplate<'a> {
    pub title: &'a str,
    pub error: Option<&'a str>,
}

/// An error page.
pub struct ErrorTemplate<'a> {
    pub title: &'a str,
    pub error: &'a str,
}

impl<'a> ErrorTemplate<'a> {
    /// The page for a session whose account could not be restored.
    pub fn session_agent_did() -> (r: Self)
        ensures
            r.title@ == "Error"@,
            r.error@ == "Error retrieving AtProto agent"@,
    {
        ErrorTemplate { title: "Error", error: "Error retrieving AtProto agent" }
    }

    /// The page for a stack that is not there.
    pub fn stack_not_found() -> (r: Self)
        ensures
            r.title@ == "Error"@,
            r.error@ == "Stack not found"@,
    {
        ErrorTemplate { title: "Error", error: "Stack not found" }
    }

    /// The page for an action on an entity that the account does not own.
    pub fn forbidden() -> (r: Self)
        ensures
            r.title@ == "Forbidden"@,
            r.error@ == "You do not have permission to perform this action"@,
    {
        ErrorTemplate { title: "Forbidden", error: "You do not have permission to perform this action" }
    }

    /// The page for a failed cache query.
    pub fn db_query() -> (r: Self)
        ensures
            r.title@ == "Error"@,
            r.error@ == "Error querying database"@,
    {
        ErrorTemplate { title: "Error", error: "Error querying database" }
    }
}

/// The page that creates a stack.
pub struct CreateStackTemplate<'a> {
    pub title: &'a str,
    pub lang_choices: Vec<(&'a str, &'a str)>,
    pub error: Option<&'a str>,
}

/// The page that edits a stack and its cards.
pub struct EditStackTemplate<'a> {
    pub title: &'a str,
    pub lang_choices: Vec<(&'a str, &'a str)>,
    pub stack: StackDetails,
    pub error: Option<&'a str>,
    pub add_card: AddCardTemplate<'a>,
    pub edit_cards: EditCardsTemplate<'a>,
}

/// The form that adds a card to a stack.
pub struct AddCardTemplate<'a> {
    pub lang_choices: Vec<(&'a str, &'a str)>,
    pub stack: StackDetails,
    pub error: Option<String>,
}

/// The list of a stack's cards, each editable.
pub struct EditCardsTemplate<'a> {
    pub lang_choices: Vec<(&'a str, &'a str)>,
    pub cards: Vec<DisplayCard>,
    pub stack_id: String,
}

/// A form's complaint.
pub struct FormError<'a> {
    pub error: &'a str,
}

} // verus!

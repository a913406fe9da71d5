//! The input forms for stacks and cards: their validation, and the records
//! and rows that they make.
use vstd::prelude::*;
use vstd::string::StringExecFns;

use crate::clock::record_datetime_now;
use crate::db::{clone_opt, CardArgs, DisplayCard, StackArgs, StackUpdateArgs};
use crate::lang::{is_lang, iso_639_1_known};
use crate::records::{is_record_key_of, record_key_of, Card, KnownRecord, Stack};

verus! {

/// An optional language tag is acceptable: absent, or a known code.
pub open spec fn lang_ok(lang: Option<String>) -> bool {
    match lang {
        Some(l) => iso_639_1_known(l@),
        None => true,
    }
}

/// The message that rejects the front language `lang`.
pub open spec fn bad_front_message(lang: Seq<char>) -> Seq<char> {
    "Invalid front language "@ + lang
}

/// The message that rejects the back language `lang`.
pub open spec fn bad_back_message(lang: Seq<char>) -> Seq<char> {
    "Invalid back language "@ + lang
}

fn message_with(prefix: &str, lang: &str) -> (r: String)
    ensures
        r@ == prefix@ + lang@,
{
    let mut m = String::from_str(prefix);
    m.append(lang);
    m
}

/// The form that creates or edits a stack.
#[derive(Clone, Debug)]
pub struct StackForm {
    pub back_lang: Option<String>,
    pub front_lang: Option<String>,
    pub stack_label: String,
}

/// `r` is a stack record with the fields of `form`.
pub open spec fn stack_record_of(form: StackForm, r: KnownRecord) -> bool {
    match r {
        KnownRecord::LexiconXyzFlatshcardsCardsStack(s) => s.back_lang == form.back_lang
            && s.front_lang == form.front_lang && s.label == form.stack_label,
        _ => false,
    }
}

impl StackForm {
    /// Whether `lang` is a recognised language tag.
    pub fn lang_valid(lang: &str) -> (r: bool)
        ensures
            r == iso_639_1_known(lang@),
    {
        is_lang(lang)
    }

    /// Whether the front language is absent or recognised.
    pub fn front_valid(&self) -> (r: bool)
        ensures
            r == lang_ok(self.front_lang),
    {
        match &self.front_lang {
            Some(l) => StackForm::lang_valid(l.as_str()),
            None => true,
        }
    }

    /// Whether the back language is absent or recognised.
    pub fn back_valid(&self) -> (r: bool)
        ensures
            r == lang_ok(self.back_lang),
    {
        match &self.back_lang {
            Some(l) => StackForm::lang_valid(l.as_str()),
            None => true,
        }
    }

    /// The complaint about the form, if any: the front language is checked
    /// first.
    pub fn validate(&self) -> (r: Option<String>)
        ensures
            r is None <==> lang_ok(self.front_lang) && lang_ok(self.back_lang),
            r matches Some(m) ==> if !lang_ok(self.front_lang) {
                m@ == bad_front_message(self.front_lang->0@)
            } else {
                m@ == bad_back_message(self.back_lang->0@)
            },
    {
        if !self.front_valid() {
            match &self.front_lang {
                Some(l) => Some(message_with("Invalid front language ", l.as_str())),
                None => None,
            }
        } else if !self.back_valid() {
            match &self.back_lang {
                Some(l) => Some(message_with("Invalid back language ", l.as_str())),
                None => None,
            }
        } else {
            None
        }
    }

    /// The arguments of the cache row of the stack that this form created
    /// under `uri`, owned by `author_did`.
    pub fn to_args(&self, uri: String, author_did: String) -> (r: StackArgs)
        ensures
            r == (StackArgs {
                uri: uri,
                author_did: author_did,
                back_lang: self.back_lang,
                front_lang: self.front_lang,
                label: self.stack_label,
                indexed_at: None,
            }),
    {
        StackArgs {
            uri,
            author_did,
            back_lang: clone_opt(&self.back_lang),
            front_lang: clone_opt(&self.front_lang),
            label: self.stack_label.clone(),
            indexed_at: None,
        }
    }

    /// The stack record of this form, created now.
    pub fn to_record(&self) -> (r: KnownRecord)
        ensures
            stack_record_of(*self, r),
    {
        KnownRecord::LexiconXyzFlatshcardsCardsStack(
            Box::new(
                Stack {
                    back_lang: clone_opt(&self.back_lang),
                    created_at: record_datetime_now(),
                    front_lang: clone_opt(&self.front_lang),
                    label: self.stack_label.clone(),
                },
            ),
        )
    }

    /// The arguments of an edit of the cache row `uri` by `author_did`.
    pub fn to_update_args(&self, uri: String, author_did: String) -> (r: StackUpdateArgs)
        ensures
            r == (StackUpdateArgs {
                uri: uri,
                author_did: author_did,
                back_lang: self.back_lang,
                front_lang: self.front_lang,
                label: self.stack_label,
            }),
    {
        StackUpdateArgs {
            uri,
            author_did,
            back_lang: clone_opt(&self.back_lang),
            front_lang: clone_opt(&self.front_lang),
            label: self.stack_label.clone(),
        }
    }
}

/// The form that creates or edits a card; `stack_id` is the URI of its stack.
#[derive(Clone, Debug)]
pub struct CardForm {
    pub front_lang: String,
    pub front_text: String,
    pub back_lang: String,
    pub back_text: String,
    pub stack_id: String,
}

/// `r` is a card record with the fields of `form`.
pub open spec fn card_record_of(form: CardForm, r: KnownRecord) -> bool {
    match r {
        KnownRecord::LexiconXyzFlatshcardsCardsCard(c) => c.back_lang == form.back_lang
            && c.back_text == form.back_text && c.front_lang == form.front_lang && c.front_text
            == form.front_text && is_record_key_of(form.stack_id@, c.stack_id@),
        _ => false,
    }
}

impl CardForm {
    /// The complaint about the form, if any: the front language is checked
    /// first.
    pub fn validate(&self) -> (r: Option<String>)
        ensures
            r is None <==> iso_639_1_known(self.front_lang@) && iso_639_1_known(self.back_lang@),
            r matches Some(m) ==> if !iso_639_1_known(self.front_lang@) {
                m@ == bad_front_message(self.front_lang@)
            } else {
                m@ == bad_back_message(self.back_lang@)
            },
    {
        if !is_lang(self.front_lang.as_str()) {
            Some(message_with("Invalid front language ", self.front_lang.as_str()))
        } else if !is_lang(self.back_lang.as_str()) {
            Some(message_with("Invalid back language ", self.back_lang.as_str()))
        } else {
            None
        }
    }

    /// The card record of this form, created now.
    pub fn as_record(&self) -> (r: KnownRecord)
        ensures
            card_record_of(*self, r),
    {
        let key = record_key_of(self.stack_id.as_str());
        KnownRecord::LexiconXyzFlatshcardsCardsCard(
            Box::new(
                Card {
                    back_lang: self.back_lang.clone(),
                    back_text: self.back_text.clone(),
                    created_at: record_datetime_now(),
                    front_lang: self.front_lang.clone(),
                    front_text: self.front_text.clone(),
                    stack_id: key.to_owned(),
                },
            ),
        )
    }

    /// The arguments of the cache row of the card that this form created
    /// under `uri`, owned by `author_did`.
    pub fn as_args(&self, uri: String, author_did: String) -> (r: CardArgs)
        ensures
            r == (CardArgs {
                uri: uri,
                author_did: author_did,
                back_lang: self.back_lang,
                back_text: self.back_text,
                front_lang: self.front_lang,
                front_text: self.front_text,
                indexed_at: None,
                stack_id: self.stack_id,
            }),
    {
        CardArgs {
            uri,
            author_did,
            back_lang: self.back_lang.clone(),
            back_text: self.back_text.clone(),
            front_lang: self.front_lang.clone(),
            front_text: self.front_text.clone(),
            indexed_at: None,
            stack_id: self.stack_id.clone(),
        }
    }

    /// How the card `uri` made from this form is displayed.
    pub fn as_display(&self, uri: String) -> (r: DisplayCard)
        ensures
            r == (DisplayCard {
                uri: uri,
                back_lang: self.back_lang,
                back_text: self.back_text,
                front_lang: self.front_lang,
                front_text: self.front_text,
            }),
    {
        DisplayCard {
            uri,
            back_lang: self.back_lang.clone(),
            back_text: self.back_text.clone(),
            front_lang: self.front_lang.clone(),
            front_text: self.front_text.clone(),
        }
    }
}

} // verus!

//! The values that the web forms hand in, as plain text fields.
use vstd::prelude::*;
use crate::chars::same_chars;

verus! {

pub struct DocumentForm {
    pub title: String,
    pub purpose: String,
    pub machine_translate: String,
}

pub struct TextForm {
    pub content: String,
    pub machine_translate: String,
}

pub struct TemplateCoreForm {
    pub name_text: String,
    pub purpose_text: String,
    pub machine_translate: String,
}

pub struct NewTemplateCoreForm {
    pub name_text: String,
    pub purpose_text: String,
    pub machine_translate: String,
    pub number_of_sections: i32,
}

pub struct TemplateSectionForm {
    pub header_text: String,
    pub order_number: i32,
    pub instructions_text: String,
    pub help_text: String,
    pub character_limit: i32,
    pub machine_translate: String,
}

pub struct LoginForm {
    pub email: String,
    pub password: String,
}

pub struct RegisterForm {
    pub user_name: String,
    pub email: String,
    pub password: String,
}

pub struct VerifyForm {
    pub code: String,
}

pub struct PasswordForm {
    pub password: String,
}

pub struct DeleteForm {
    pub verify: String,
}

/// A checkbox field is set exactly where it reads `true`.
pub fn flag_is_set(value: &str) -> (r: bool)
    ensures
        r == (value@ == seq!['t', 'r', 'u', 'e']),
{
    if value.unicode_len() == 4 && value.get_char(0) == 't' && value.get_char(1) == 'r'
        && value.get_char(2) == 'u' && value.get_char(3) == 'e' {
        assert(value@ =~= seq!['t', 'r', 'u', 'e']);
        true
    } else {
        false
    }
}

/// The public view redacts: every view but `internal` hides redacted text.
pub fn redacts(document_view: &str) -> (r: bool)
    ensures
        r == (document_view@ != seq!['i', 'n', 't', 'e', 'r', 'n', 'a', 'l']),
{
    let internal: Vec<char> = vec!['i', 'n', 't', 'e', 'r', 'n', 'a', 'l'];
    assert(internal@ =~= seq!['i', 'n', 't', 'e', 'r', 'n', 'a', 'l']);
    !same_chars(document_view, &internal)
}

} // verus!

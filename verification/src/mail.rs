//! The texts of the mails sent to users: templates with the placeholders
//! `{user}`, `{email}` and `{link}`.
use vstd::prelude::*;
use crate::text::{replace, replace_spec};

verus! {

broadcast use vstd::string::group_string_axioms;

/// The text of a template with the user's name, email address and link
/// put in place of their placeholders, in that order.
pub open spec fn fill_template_spec(
    template: Seq<char>,
    user_name: Seq<char>,
    email: Seq<char>,
    link: Seq<char>,
) -> Seq<char> {
    replace_spec(
        replace_spec(replace_spec(template, "{user}"@, user_name), "{email}"@, email),
        "{link}"@,
        link,
    )
}

/// Fills a mail template.
pub fn fill_mail_template(template: &str, user_name: &str, email: &str, link: &str) -> (text:
    String)
    ensures
        text@ == fill_template_spec(template@, user_name@, email@, link@),
{
    proof {
        reveal_strlit("{user}");
        reveal_strlit("{email}");
        reveal_strlit("{link}");
    }
    let a = replace(template, "{user}", user_name);
    let b = replace(a.as_str(), "{email}", email);
    replace(b.as_str(), "{link}", link)
}

/// The mails that are sent.
#[derive(Debug, Clone, Copy, PartialEq, Eq, Structural)]
pub enum MailKind {
    Registration,
    ChangePassword,
}

impl MailKind {
    /// The subject of the mail.
    pub fn subject(&self) -> (s: &'static str)
        ensures
            *self == MailKind::Registration ==> s@ == "Registrazione account Insigno"@,
            *self == MailKind::ChangePassword ==> s@ == "Cambio password account Insigno"@,
    {
        match self {
            MailKind::Registration => "Registrazione account Insigno",
            MailKind::ChangePassword => "Cambio password account Insigno",
        }
    }

    /// The sender of the mail.
    pub fn sender(&self) -> (s: &'static str)
        ensures
            s@ == "Insigno <insigno@mindshub.it>"@,
    {
        "Insigno <insigno@mindshub.it>"
    }
}

} // verus!

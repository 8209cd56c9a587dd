//! Deleting an account: the web form, and the anonymised data that replaces
//! the account's own once the deletion is confirmed.
use vstd::prelude::*;
use vstd::utf8::encode_utf8;
use vstd::string::StringSliceAdditionalSpecFns;
use crate::error::{InsignoError, debug_error};
use crate::pending::{PendingAction, generate_token, token_chars_valid};
use crate::scrypt::{ScryptParams, scrypt_simple, salted_hash};

verus! {

/// The page with the form that asks for an account's deletion.
pub const DELETE_ACCOUNT_FORM: &'static str = r#"<h1>Eliminazione account Insigno</h1>
        Dopo aver premuto su "Invia" ti arriverà una mail in cui dovrai confermare l'eliminazione dell'account.
        <br/>
        <b>Ricordati di controllare anche nello spam!</b>
        <br/>
        <br/>
        <form method="post" action="/delete_account_web">
            <label for="email">Email:</label>
            <input id="email" name="email" type="email" />
            <br/>
            <label for="password">Password:</label>
            <input id="password" name="password" type="password" />
            <br/>
            <button type="submit">Invia</button>
        </form>
        "#;

/// The HTML page of the deletion form.
pub fn delete_account_web_form() -> (page: String)
    ensures
        page@ == DELETE_ACCOUNT_FORM@,
{
    DELETE_ACCOUNT_FORM.to_owned()
}

/// The page answered once the deletion mail was sent.
pub fn delete_account_mail_sent() -> (page: &'static str)
    ensures
        page@ == "<h1>Controlla la mail, e guarda anche nello spam, per completare l'eliminazione dell'account!</h1>"@,
{
    "<h1>Controlla la mail, e guarda anche nello spam, per completare l'eliminazione dell'account!</h1>"
}

/// The account that a confirmed deletion is about; any other action is a
/// 500 error "wrong call".
pub fn delete_target(pend: &PendingAction) -> (res: Result<i64, InsignoError>)
    ensures
        match *pend {
            PendingAction::DeleteUser(id) => res == Ok::<i64, InsignoError>(id),
            _ => (res matches Err(e) && debug_error(e, 500, "wrong call"@)),
        },
{
    match pend {
        PendingAction::DeleteUser(user_id) => Ok(*user_id),
        _ => Err(InsignoError::new_debug(500, "wrong call")),
    }
}

/// What replaces the data of a deleted account.
pub struct Anonymized {
    pub email: String,
    pub password: String,
    pub name: String,
}

/// The anonymised data of an account with this email address: the email
/// becomes its hash (with a random salt), the password becomes empty and
/// the name becomes `ANON_` and a random token.
pub fn anonymize(email: &str, params: &ScryptParams) -> (a: Anonymized)
    ensures
        exists|salt: Seq<u8>|
            salt.len() == 16 && #[trigger] salted_hash(
                encode_utf8(email@),
                params.spec_log_n(),
                params.spec_r(),
                params.spec_p(),
                salt,
                a.email@,
            ),
        a.password@ == Seq::<char>::empty(),
        a.name@.len() == 25,
        a.name@.subrange(0, 5) == "ANON_"@,
        token_chars_valid(a.name@.subrange(5, 25)),
{
    let hashed = match scrypt_simple(email, params) {
        Ok(h) => h,
        Err(_) => {
            proof {
                assert(false);
            }
            String::new()
        },
    };
    let mut name = "ANON_".to_owned();
    let token = generate_token();
    name.append(token.as_str());
    proof {
        reveal_strlit("ANON_");
        assert(name@.subrange(0, 5) =~= "ANON_"@);
        assert(name@.subrange(5, 25) =~= token@);
        let salt = choose|salt: Seq<u8>|
            salt.len() == 16 && #[trigger] salted_hash(
                email.spec_bytes(),
                params.spec_log_n(),
                params.spec_r(),
                params.spec_p(),
                salt,
                hashed@,
            );
        assert(salted_hash(
            encode_utf8(email@),
            params.spec_log_n(),
            params.spec_r(),
            params.spec_p(),
            salt,
            hashed@,
        ));
        assert(salt.len() == 16);
        assert(exists|salt: Seq<u8>|
            salt.len() == 16 && #[trigger] salted_hash(
                encode_utf8(email@),
                params.spec_log_n(),
                params.spec_r(),
                params.spec_p(),
                salt,
                hashed@,
            ));
    }
    let ghost h = hashed@;
    let a = Anonymized { email: hashed, password: String::new(), name };
    assert(a.email@ == h);
    a
}

} // verus!

//! The rules that a user's email, password and name must follow, and the
//! way they are brought to a normal form before they are checked.
use vstd::prelude::*;
use vstd::utf8::encode_utf8;
use vstd::arithmetic::power2::lemma2_to64;
use crate::text::{
    split_spec, split_char, trim_spec, ascii_lower_spec, trim, to_ascii_lowercase, chars_of,
    string_of_range, is_ascii_alnum, is_ascii_upper, is_ascii_lower, is_ascii_alphanumeric,
    unicode_numeric, unicode_alphanumeric, char_is_numeric, char_is_alphanumeric,
    lemma_ascii_lower_no_upper, lemma_ascii_lower_noop, lemma_trim_is_slice, lemma_trim_idempotent,
    lemma_split_piece_chars, lemma_split_concat, lemma_split_no_sep,
};
use crate::scrypt::{ScryptParams, ScryptError, scrypt_simple, salted_hash, scrypt_check_spec};

verus! {

broadcast use vstd::string::group_string_axioms;

/// A character that may stand before the `@` of an email address.
pub open spec fn email_local_char(c: char) -> bool {
    ||| is_ascii_alnum(c)
    ||| c == '.' || c == '!' || c == '#' || c == '$' || c == '%' || c == '&' || c == '\''
    ||| c == '*' || c == '+' || c == '/' || c == '=' || c == '?' || c == '^' || c == '_'
    ||| c == '`' || c == '{' || c == '|' || c == '}' || c == '~' || c == '-'
}

/// A label of a domain name: 1 to 255 ASCII letters, digits and `-`,
/// starting and ending with a letter or a digit.
pub open spec fn label_valid(l: Seq<char>) -> bool {
    &&& 1 <= l.len() <= 255
    &&& is_ascii_alnum(l[0])
    &&& is_ascii_alnum(l.last())
    &&& forall|i: int| 0 <= i < l.len() ==> is_ascii_alnum(#[trigger] l[i]) || l[i] == '-'
}

/// At least two labels separated by `.`.
pub open spec fn domain_valid(d: Seq<char>) -> bool {
    let labels = split_spec(d, '.');
    &&& labels.len() >= 2
    &&& forall|i: int| 0 <= i < labels.len() ==> label_valid(#[trigger] labels[i])
}

/// An email address: one or more local characters, `@`, a domain. This is
/// the language of the pattern
/// `^[a-zA-Z0-9.!#$%&'*+/=?^_``{|}~-]+@[a-zA-Z0-9](?:[a-zA-Z0-9-]{0,253}[a-zA-Z0-9])?(?:\.[a-zA-Z0-9](?:[a-zA-Z0-9-]{0,253}[a-zA-Z0-9])?)+$`.
pub open spec fn email_valid(s: Seq<char>) -> bool {
    exists|k: int|
        0 < k < s.len() && #[trigger] s[k] == '@' && (forall|i: int|
            0 <= i < k ==> email_local_char(#[trigger] s[i])) && domain_valid(
            s.subrange(k + 1, s.len() as int),
        )
}

/// The normal form of an email address: ASCII letters made small, then
/// white space around it removed.
pub open spec fn format_email_spec(s: Seq<char>) -> Seq<char> {
    trim_spec(ascii_lower_spec(s))
}

fn is_email_local_char(c: char) -> (b: bool)
    ensures
        b == email_local_char(c),
{
    is_ascii_alphanumeric(c) || c == '.' || c == '!' || c == '#' || c == '$' || c == '%' || c
        == '&' || c == '\'' || c == '*' || c == '+' || c == '/' || c == '=' || c == '?' || c
        == '^' || c == '_' || c == '`' || c == '{' || c == '|' || c == '}' || c == '~' || c
        == '-'
}

fn is_label(l: &String) -> (b: bool)
    ensures
        b == label_valid(l@),
{
    let v = chars_of(l.as_str());
    let n = v.len();
    if n < 1 || n > 255 {
        return false;
    }
    if !is_ascii_alphanumeric(v[0]) || !is_ascii_alphanumeric(v[n - 1]) {
        return false;
    }
    let mut i: usize = 0;
    while i < n
        invariant
            v@ == l@,
            n == v@.len(),
            i <= n,
            forall|j: int| 0 <= j < i ==> is_ascii_alnum(#[trigger] v@[j]) || v@[j] == '-',
        decreases n - i,
    {
        if !(is_ascii_alphanumeric(v[i]) || v[i] == '-') {
            return false;
        }
        i = i + 1;
    }
    true
}

fn is_domain(d: &str) -> (b: bool)
    ensures
        b == domain_valid(d@),
{
    let labels = split_char(d, '.');
    if labels.len() < 2 {
        return false;
    }
    let mut i: usize = 0;
    while i < labels.len()
        invariant
            labels@.len() == split_spec(d@, '.').len(),
            forall|j: int| 0 <= j < labels@.len() ==> #[trigger] labels@[j]@ == split_spec(d@, '.')[j],
            i <= labels@.len(),
            forall|j: int| 0 <= j < i ==> label_valid(#[trigger] split_spec(d@, '.')[j]),
        decreases labels@.len() - i,
    {
        if !is_label(&labels[i]) {
            assert(labels@[i as int]@ == split_spec(d@, '.')[i as int]);
            return false;
        }
        assert(labels@[i as int]@ == split_spec(d@, '.')[i as int]);
        i = i + 1;
    }
    true
}

/// Whether `s` is an email address.
pub fn is_valid_email(s: &str) -> (b: bool)
    ensures
        b == email_valid(s@),
{
    let v = chars_of(s);
    let n = v.len();
    let mut k: usize = 0;
    while k < n && v[k] != '@'
        invariant
            v@ == s@,
            n == v@.len(),
            k <= n,
            forall|j: int| 0 <= j < k ==> #[trigger] v@[j] != '@',
        decreases n - k,
    {
        k = k + 1;
    }
    if k == n || k == 0 {
        proof {
            if email_valid(s@) {
                let w = choose|w: int|
                    0 < w < s@.len() && #[trigger] s@[w] == '@' && (forall|i: int|
                        0 <= i < w ==> email_local_char(#[trigger] s@[i])) && domain_valid(
                        s@.subrange(w + 1, s@.len() as int),
                    );
                if k == 0 {
                    assert(email_local_char(s@[0]));
                }
            }
        }
        return false;
    }
    let mut i: usize = 0;
    while i < k
        invariant
            v@ == s@,
            n == v@.len(),
            0 < k < n,
            v@[k as int] == '@',
            forall|j: int| 0 <= j < k ==> #[trigger] v@[j] != '@',
            i <= k,
            forall|j: int| 0 <= j < i ==> email_local_char(#[trigger] v@[j]),
        decreases k - i,
    {
        if !is_email_local_char(v[i]) {
            proof {
                if email_valid(s@) {
                    let w = choose|w: int|
                        0 < w < s@.len() && #[trigger] s@[w] == '@' && (forall|j: int|
                            0 <= j < w ==> email_local_char(#[trigger] s@[j])) && domain_valid(
                            s@.subrange(w + 1, s@.len() as int),
                        );
                    if w < k {
                        assert(v@[w] != '@');
                    } else {
                        assert(email_local_char(s@[i as int]));
                    }
                }
            }
            return false;
        }
        i = i + 1;
    }
    let domain = string_of_range(&v, k + 1, n);
    let ok = is_domain(domain.as_str());
    proof {
        if ok {
            assert(s@[k as int] == '@');
        } else if email_valid(s@) {
            let w = choose|w: int|
                0 < w < s@.len() && #[trigger] s@[w] == '@' && (forall|j: int|
                    0 <= j < w ==> email_local_char(#[trigger] s@[j])) && domain_valid(
                    s@.subrange(w + 1, s@.len() as int),
                );
            if w < k {
                assert(v@[w] != '@');
            } else if w > k {
                assert(email_local_char(s@[k as int]));
            }
        }
    }
    ok
}

/// The normal form of an email address.
pub fn format_email(s: &str) -> (t: String)
    ensures
        t@ == format_email_spec(s@),
{
    let lower = to_ascii_lowercase(s);
    trim(lower.as_str())
}

/// Why a password is refused, in the order the rules are checked: fewer
/// than 8 bytes, no ASCII capital letter, no ASCII small letter, no numeric
/// character, no character other than ASCII letters and digits.
pub open spec fn password_error(p: Seq<char>) -> Option<&'static str> {
    if encode_utf8(p).len() < 8 {
        Some("Password troppo breve, deve essere lunga almeno 8 caratteri")
    } else if !(exists|i: int| 0 <= i < p.len() && is_ascii_upper(#[trigger] p[i])) {
        Some("La password deve contenere almeno una maiuscola")
    } else if !(exists|i: int| 0 <= i < p.len() && is_ascii_lower(#[trigger] p[i])) {
        Some("La password deve contenere almeno una minuscola")
    } else if !(exists|i: int| 0 <= i < p.len() && unicode_numeric(#[trigger] p[i])) {
        Some("La password deve contenere almeno un numero")
    } else if !(exists|i: int| 0 <= i < p.len() && !is_ascii_alnum(#[trigger] p[i])) {
        Some("La password deve contenere almeno un carattere speciale")
    } else {
        None
    }
}

/// Checks the password rules on `p`.
pub fn check_password(p: &str) -> (res: Result<(), &'static str>)
    ensures
        res == (match password_error(p@) {
            Some(m) => Err(m),
            None => Ok(()),
        }),
{
    if p.as_bytes().len() < 8 {
        return Err("Password troppo breve, deve essere lunga almeno 8 caratteri");
    }
    let v = chars_of(p);
    let mut upper = false;
    let mut lower = false;
    let mut numeric = false;
    let mut special = false;
    let mut i: usize = 0;
    while i < v.len()
        invariant
            v@ == p@,
            i <= v@.len(),
            upper == (exists|j: int| 0 <= j < i && is_ascii_upper(#[trigger] p@[j])),
            lower == (exists|j: int| 0 <= j < i && is_ascii_lower(#[trigger] p@[j])),
            numeric == (exists|j: int| 0 <= j < i && unicode_numeric(#[trigger] p@[j])),
            special == (exists|j: int| 0 <= j < i && !is_ascii_alnum(#[trigger] p@[j])),
        decreases v@.len() - i,
    {
        let c = v[i];
        if 'A' <= c && c <= 'Z' {
            upper = true;
        }
        if 'a' <= c && c <= 'z' {
            lower = true;
        }
        if char_is_numeric(c) {
            numeric = true;
        }
        if !is_ascii_alphanumeric(c) {
            special = true;
        }
        i = i + 1;
    }
    if !upper {
        return Err("La password deve contenere almeno una maiuscola");
    }
    if !lower {
        return Err("La password deve contenere almeno una minuscola");
    }
    if !numeric {
        return Err("La password deve contenere almeno un numero");
    }
    if !special {
        return Err("La password deve contenere almeno un carattere speciale");
    }
    Ok(())
}

/// A character that a user name may hold: a Unicode letter or number, `_`
/// or a space.
pub open spec fn name_char(c: char) -> bool {
    unicode_alphanumeric(c) || c == '_' || c == ' '
}

/// Why a user name is refused, in the order the rules are checked: a
/// length outside 3 to 20 bytes, then a character that is not a
/// `name_char`.
pub open spec fn name_error(name: Seq<char>) -> Option<&'static str> {
    if encode_utf8(name).len() < 3 || 20 < encode_utf8(name).len() {
        Some("Nome utente invalido. Deve essere lungo tra 3 e 20 caratteri (e possibilmente simile al nome)")
    } else if !(forall|i: int| 0 <= i < name.len() ==> name_char(#[trigger] name[i])) {
        Some("Nome utente invalido. Un nome corretto può contenere lettere, numeri, spazi e _")
    } else {
        None
    }
}

/// Checks the name rules on `name`.
pub fn check_name(name: &str) -> (res: Result<(), &'static str>)
    ensures
        res == (match name_error(name@) {
            Some(m) => Err(m),
            None => Ok(()),
        }),
{
    let name_len = name.as_bytes().len();
    if name_len < 3 || 20 < name_len {
        return Err(
            "Nome utente invalido. Deve essere lungo tra 3 e 20 caratteri (e possibilmente simile al nome)",
        );
    }
    for c in it: name.chars()
        invariant
            it.seq() == name@,
            3 <= encode_utf8(name@).len() <= 20,
            forall|i: int| 0 <= i < it.index() ==> name_char(#[trigger] name@[i]),
    {
        assert(c == name@[it.index()]);
        if !(char_is_alphanumeric(c) || c == '_' || c == ' ') {
            assert(!name_char(name@[it.index()]));
            return Err(
                "Nome utente invalido. Un nome corretto può contenere lettere, numeri, spazi e _",
            );
        }
    }
    Ok(())
}

/// The scrypt parameters that passwords are hashed with: `log_n` 11, `r` 8,
/// `p` 1.
fn password_params() -> (pp: ScryptParams)
    ensures
        pp.spec_log_n() == 11 && pp.spec_r() == 8 && pp.spec_p() == 1,
{
    proof {
        lemma2_to64();
    }
    ScryptParams::new(11, 8, 1, 32).unwrap()
}

/// `h` is the hash of the password `plain`, with the password parameters
/// and some 16 bytes of salt.
pub open spec fn hashed_password(plain: Seq<char>, h: Seq<char>) -> bool {
    exists|salt: Seq<u8>| salt.len() == 16 && #[trigger] salted_hash(encode_utf8(plain), 11, 8, 1, salt, h)
}

/// A value that holds an email address.
pub trait Email: Sized {
    /// The email address it holds.
    spec fn email_of(&self) -> String;

    /// The same value holding `e` in place of its email address.
    spec fn with_email(&self, e: String) -> Self;

    proof fn lemma_email_of_with(&self, e: String)
        ensures
            self.with_email(e).email_of() == e,
    ;

    proof fn lemma_with_own_email(&self)
        ensures
            self.with_email(self.email_of()) == *self,
    ;

    /// The email address, to read or change in place.
    fn get_email(&mut self) -> (r: &mut String)
        ensures
            *r == old(self).email_of(),
            *final(self) == old(self).with_email(*final(r)),
    ;
}

/// Normalising and checking an email address.
pub trait SanitizeEmail: Email {
    /// Brings the email address to its normal form.
    fn fmt_email(&mut self)
        ensures
            final(self).email_of()@ == format_email_spec(old(self).email_of()@),
            *final(self) == old(self).with_email(final(self).email_of()),
    ;

    /// Brings the email address to its normal form and checks it.
    fn sanitize_email(&mut self) -> (res: Result<(), &str>)
        ensures
            final(self).email_of()@ == format_email_spec(old(self).email_of()@),
            *final(self) == old(self).with_email(final(self).email_of()),
            res is Ok <==> email_valid(final(self).email_of()@),
            res matches Err(m) ==> m == "Mail invalida",
    ;
}

impl<T: Email> SanitizeEmail for T {
    fn fmt_email(&mut self) {
        let ghost s0 = *self;
        let r = self.get_email();
        let e = format_email(r.as_str());
        *r = e;
        proof {
            s0.lemma_email_of_with(e);
        }
    }

    fn sanitize_email(&mut self) -> (res: Result<(), &str>) {
        self.fmt_email();
        let ghost s1 = *self;
        let r = self.get_email();
        let ok = is_valid_email(r.as_str());
        proof {
            s1.lemma_with_own_email();
        }
        if !ok {
            return Err("Mail invalida");
        }
        Ok(())
    }
}

/// A value that holds a password.
pub trait Password: Sized {
    /// The password it holds.
    spec fn password_of(&self) -> String;

    /// The same value holding `p` in place of its password.
    spec fn with_password(&self, p: String) -> Self;

    proof fn lemma_password_of_with(&self, p: String)
        ensures
            self.with_password(p).password_of() == p,
    ;

    proof fn lemma_with_own_password(&self)
        ensures
            self.with_password(self.password_of()) == *self,
    ;

    proof fn lemma_with_password_twice(&self, a: String, b: String)
        ensures
            self.with_password(a).with_password(b) == self.with_password(b),
    ;

    /// The password, to read or change in place.
    fn get_password(&mut self) -> (r: &mut String)
        ensures
            *r == old(self).password_of(),
            *final(self) == old(self).with_password(*final(r)),
    ;
}

/// Normalising, checking and hashing a password.
pub trait SanitizePassword: Password {
    /// Removes the white space around the password.
    fn fmt_password(&mut self)
        ensures
            final(self).password_of()@ == trim_spec(old(self).password_of()@),
            *final(self) == old(self).with_password(final(self).password_of()),
    ;

    /// Removes the white space around the password and checks the password
    /// rules on what is left; where they hold, the password is replaced by
    /// its hash.
    fn sanitize_password(&mut self) -> (res: Result<(), &str>)
        ensures
            *final(self) == old(self).with_password(final(self).password_of()),
            res == (match password_error(trim_spec(old(self).password_of()@)) {
                Some(m) => Err(m),
                None => Ok(()),
            }),
            password_error(trim_spec(old(self).password_of()@)) is Some
                ==> final(self).password_of()@ == trim_spec(old(self).password_of()@),
            password_error(trim_spec(old(self).password_of()@)) is None ==> hashed_password(
                trim_spec(old(self).password_of()@),
                final(self).password_of()@,
            ),
            password_error(trim_spec(old(self).password_of()@)) is None ==> scrypt_check_spec(
                encode_utf8(trim_spec(old(self).password_of()@)),
                final(self).password_of()@,
            ) == Ok::<bool, ScryptError>(true),
    ;

    /// Replaces the password by its hash, with the password parameters and
    /// a random salt of 16 bytes; checking the password against the hash
    /// then gives `Ok(true)`, and checking any other password gives whether
    /// it derives the same key with that salt.
    fn hash_password(&mut self)
        ensures
            *final(self) == old(self).with_password(final(self).password_of()),
            hashed_password(old(self).password_of()@, final(self).password_of()@),
            scrypt_check_spec(encode_utf8(old(self).password_of()@), final(self).password_of()@)
                == Ok::<bool, ScryptError>(true),
    ;
}

impl<T: Password> SanitizePassword for T {
    fn fmt_password(&mut self) {
        let ghost s0 = *self;
        let r = self.get_password();
        let p = trim(r.as_str());
        *r = p;
        proof {
            s0.lemma_password_of_with(p);
        }
    }

    fn sanitize_password(&mut self) -> (res: Result<(), &str>) {
        let ghost s0 = *self;
        self.fmt_password();
        let ghost s1 = *self;
        let r = self.get_password();
        let res = check_password(r.as_str());
        proof {
            s1.lemma_with_own_password();
        }
        if res.is_ok() {
            self.hash_password();
            proof {
                s0.lemma_with_password_twice(s1.password_of(), self.password_of());
            }
        }
        res
    }

    fn hash_password(&mut self) {
        let params = password_params();
        let ghost s0 = *self;
        let r = self.get_password();
        let hashed = scrypt_simple(r.as_str(), &params);
        match hashed {
            Ok(h) => {
                *r = h;
                proof {
                    s0.lemma_password_of_with(h);
                }
            },
            Err(_) => {
                proof {
                    assert(false);
                }
            },
        }
    }
}

/// A value that holds a user name.
pub trait Name: Sized {
    /// The name it holds.
    spec fn name_of(&self) -> String;

    /// The same value holding `n` in place of its name.
    spec fn with_name(&self, n: String) -> Self;

    proof fn lemma_name_of_with(&self, n: String)
        ensures
            self.with_name(n).name_of() == n,
    ;

    proof fn lemma_with_own_name(&self)
        ensures
            self.with_name(self.name_of()) == *self,
    ;

    /// The name, to read or change in place.
    fn get_name(&mut self) -> (r: &mut String)
        ensures
            *r == old(self).name_of(),
            *final(self) == old(self).with_name(*final(r)),
    ;
}

/// Normalising and checking a user name.
pub trait SanitizeName: Name {
    /// Removes the white space around the name.
    fn fmt_name(&mut self)
        ensures
            final(self).name_of()@ == trim_spec(old(self).name_of()@),
            *final(self) == old(self).with_name(final(self).name_of()),
    ;

    /// Removes the white space around the name and checks what is left.
    fn sanitize_name(&mut self) -> (res: Result<(), &str>)
        ensures
            final(self).name_of()@ == trim_spec(old(self).name_of()@),
            *final(self) == old(self).with_name(final(self).name_of()),
            res == (match name_error(final(self).name_of()@) {
                Some(m) => Err(m),
                None => Ok(()),
            }),
    ;
}

impl<T: Name> SanitizeName for T {
    fn fmt_name(&mut self) {
        let ghost s0 = *self;
        let r = self.get_name();
        let n = trim(r.as_str());
        *r = n;
        proof {
            s0.lemma_name_of_with(n);
        }
    }

    fn sanitize_name(&mut self) -> (res: Result<(), &str>) {
        self.fmt_name();
        let ghost s1 = *self;
        let r = self.get_name();
        let res = check_name(r.as_str());
        proof {
            s1.lemma_with_own_name();
        }
        res
    }
}

/// The normal form of an email address is its own normal form, so a
/// normalised address is left as it is by a second normalisation.
pub proof fn lemma_format_email_idempotent(s: Seq<char>)
    ensures
        format_email_spec(format_email_spec(s)) == format_email_spec(s),
{
    let l = ascii_lower_spec(s);
    lemma_ascii_lower_no_upper(s);
    let t = trim_spec(l);
    let ab = lemma_trim_is_slice(l);
    assert forall|i: int| 0 <= i < t.len() implies !is_ascii_upper(#[trigger] t[i]) by {
        assert(t[i] == l[ab.0 + i]);
    }
    lemma_ascii_lower_noop(t);
    lemma_trim_idempotent(l);
}

/// A domain holds only ASCII letters, digits, `-` and `.`.
pub proof fn lemma_domain_chars(d: Seq<char>, i: int)
    requires
        domain_valid(d),
        0 <= i < d.len(),
    ensures
        ('a' <= d[i] <= 'z') || ('A' <= d[i] <= 'Z') || ('0' <= d[i] <= '9') || d[i] == '-'
            || d[i] == '.',
{
    if d[i] != '.' {
        lemma_split_piece_chars(d, '.', i);
        let pieces = split_spec(d, '.');
        let (j, t) = choose|j: int, t: int|
            0 <= j < pieces.len() && 0 <= t < pieces[j].len() && #[trigger] pieces[j][t] == d[i];
        assert(label_valid(pieces[j]));
        assert(is_ascii_alnum(pieces[j][t]) || pieces[j][t] == '-');
    }
}

/// An address `a@d` is valid exactly when `a` is one or more of the ASCII
/// letters, the digits and the characters ``.!#$%&'*+/=?^_`{|}~-``, and `d`
/// is a domain.
pub proof fn lemma_email_parts(a: Seq<char>, d: Seq<char>)
    ensures
        email_valid(a + seq!['@'] + d) <==> (a.len() > 0 && (forall|i: int|
            0 <= i < a.len() ==> (('a' <= #[trigger] a[i] <= 'z') || ('A' <= a[i]
                <= 'Z') || ('0' <= a[i] <= '9') || a[i] == '.' || a[i] == '!' || a[i] == '#' || a[i]
                == '$' || a[i] == '%' || a[i] == '&' || a[i] == '\'' || a[i] == '*' || a[i] == '+'
                || a[i] == '/' || a[i] == '=' || a[i] == '?' || a[i] == '^' || a[i] == '_' || a[i]
                == '`' || a[i] == '{' || a[i] == '|' || a[i] == '}' || a[i] == '~' || a[i] == '-'))
            && domain_valid(d)),
{
    let s = a + seq!['@'] + d;
    let n = a.len() as int;
    assert(s[n] == '@');
    assert(s.subrange(n + 1, s.len() as int) =~= d);
    if email_valid(s) {
        let k = choose|k: int|
            0 < k < s.len() && #[trigger] s[k] == '@' && (forall|i: int|
                0 <= i < k ==> email_local_char(#[trigger] s[i])) && domain_valid(
                s.subrange(k + 1, s.len() as int),
            );
        if k > n {
            assert(email_local_char(s[n]));
        } else if k < n {
            let dom = s.subrange(k + 1, s.len() as int);
            assert(dom[n - k - 1] == '@');
            lemma_domain_chars(dom, n - k - 1);
        }
        assert forall|i: int| 0 <= i < a.len() implies #[trigger] a[i] == a[i] && (('a' <= a[i]
            <= 'z') || ('A' <= a[i] <= 'Z') || ('0' <= a[i] <= '9') || a[i] == '.' || a[i] == '!'
            || a[i] == '#' || a[i] == '$' || a[i] == '%' || a[i] == '&' || a[i] == '\'' || a[i]
            == '*' || a[i] == '+' || a[i] == '/' || a[i] == '=' || a[i] == '?' || a[i] == '^'
            || a[i] == '_' || a[i] == '`' || a[i] == '{' || a[i] == '|' || a[i] == '}' || a[i]
            == '~' || a[i] == '-') by {
            assert(s[i] == a[i]);
            assert(email_local_char(s[i]));
        }
    }
    if a.len() > 0 && (forall|i: int|
        0 <= i < a.len() ==> (('a' <= #[trigger] a[i] <= 'z') || ('A' <= a[i]
            <= 'Z') || ('0' <= a[i] <= '9') || a[i] == '.' || a[i] == '!' || a[i] == '#' || a[i]
            == '$' || a[i] == '%' || a[i] == '&' || a[i] == '\'' || a[i] == '*' || a[i] == '+'
            || a[i] == '/' || a[i] == '=' || a[i] == '?' || a[i] == '^' || a[i] == '_' || a[i]
            == '`' || a[i] == '{' || a[i] == '|' || a[i] == '}' || a[i] == '~' || a[i] == '-'))
        && domain_valid(d) {
        assert forall|i: int| 0 <= i < n implies email_local_char(#[trigger] s[i]) by {
            assert(s[i] == a[i]);
            assert(a[i] == a[i]);
        }
    }
}

/// Two labels of ASCII letters, digits and inner `-`, joined by a dot,
/// form a domain.
pub proof fn lemma_domain_two_labels(l1: Seq<char>, l2: Seq<char>)
    requires
        1 <= l1.len() <= 255,
        1 <= l2.len() <= 255,
        forall|i: int|
            0 <= i < l1.len() ==> ('a' <= #[trigger] l1[i] <= 'z') || ('A' <= l1[i] <= 'Z') || ('0'
                <= l1[i] <= '9') || (l1[i] == '-' && 0 < i < l1.len() - 1),
        forall|i: int|
            0 <= i < l2.len() ==> ('a' <= #[trigger] l2[i] <= 'z') || ('A' <= l2[i] <= 'Z') || ('0'
                <= l2[i] <= '9') || (l2[i] == '-' && 0 < i < l2.len() - 1),
    ensures
        domain_valid(l1 + seq!['.'] + l2),
{
    assert(!l1.contains('.')) by {
        if l1.contains('.') {
            let i = choose|i: int| 0 <= i < l1.len() && l1[i] == '.';
            assert(l1[i] == l1[i]);
        }
    }
    assert(!l2.contains('.')) by {
        if l2.contains('.') {
            let i = choose|i: int| 0 <= i < l2.len() && l2[i] == '.';
            assert(l2[i] == l2[i]);
        }
    }
    lemma_split_concat(l1, l2, '.');
    lemma_split_no_sep(l1, '.');
    lemma_split_no_sep(l2, '.');
    let pieces = split_spec(l1 + seq!['.'] + l2, '.');
    assert(pieces =~= seq![l1, l2]);
    assert(l1[0] == l1[0] && l1[l1.len() - 1] == l1[l1.len() - 1]);
    assert(l2[0] == l2[0] && l2[l2.len() - 1] == l2[l2.len() - 1]);
    assert(label_valid(l1));
    assert(label_valid(l2));
}

/// The UTF-8 length of two texts put together is the sum of their lengths.
proof fn lemma_utf8_len_concat(p: Seq<char>, q: Seq<char>)
    ensures
        encode_utf8(p + q).len() == encode_utf8(p).len() + encode_utf8(q).len(),
    decreases p.len(),
{
    if p.len() > 0 {
        assert((p + q).drop_first() =~= p.drop_first() + q);
        assert((p + q)[0] == p[0]);
        lemma_utf8_len_concat(p.drop_first(), q);
    } else {
        assert(p + q =~= q);
    }
}

/// A password is accepted exactly when it is at least 8 bytes long and
/// holds an ASCII capital letter, an ASCII small letter, a numeric
/// character and a character that is neither an ASCII letter nor an ASCII
/// digit; there is no upper bound on its length.
pub proof fn lemma_password_accepted(p: Seq<char>)
    ensures
        password_error(p) is None <==> (encode_utf8(p).len() >= 8 && (exists|i: int|
            0 <= i < p.len() && 'A' <= #[trigger] p[i] <= 'Z') && (exists|i: int|
            0 <= i < p.len() && 'a' <= #[trigger] p[i] <= 'z') && (exists|i: int|
            0 <= i < p.len() && unicode_numeric(#[trigger] p[i])) && (exists|i: int|
            0 <= i < p.len() && !(('a' <= #[trigger] p[i] <= 'z') || ('A' <= p[i] <= 'Z') || ('0'
                <= p[i] <= '9')))),
{
    if password_error(p) is None {
        let i1 = choose|i: int| 0 <= i < p.len() && is_ascii_upper(#[trigger] p[i]);
        let i2 = choose|i: int| 0 <= i < p.len() && is_ascii_lower(#[trigger] p[i]);
        let i4 = choose|i: int| 0 <= i < p.len() && !is_ascii_alnum(#[trigger] p[i]);
        assert('A' <= p[i1] <= 'Z');
        assert('a' <= p[i2] <= 'z');
        assert(!(('a' <= p[i4] <= 'z') || ('A' <= p[i4] <= 'Z') || ('0' <= p[i4] <= '9')));
    }
    if encode_utf8(p).len() >= 8 && (exists|i: int| 0 <= i < p.len() && 'A' <= #[trigger] p[i] <= 'Z')
        && (exists|i: int| 0 <= i < p.len() && 'a' <= #[trigger] p[i] <= 'z') && (exists|i: int|
        0 <= i < p.len() && unicode_numeric(#[trigger] p[i])) && (exists|i: int|
        0 <= i < p.len() && !(('a' <= #[trigger] p[i] <= 'z') || ('A' <= p[i] <= 'Z') || ('0'
            <= p[i] <= '9'))) {
        let i1 = choose|i: int| 0 <= i < p.len() && 'A' <= #[trigger] p[i] <= 'Z';
        let i2 = choose|i: int| 0 <= i < p.len() && 'a' <= #[trigger] p[i] <= 'z';
        let i4 = choose|i: int|
            0 <= i < p.len() && !(('a' <= #[trigger] p[i] <= 'z') || ('A' <= p[i] <= 'Z') || ('0'
                <= p[i] <= '9'));
        assert(is_ascii_upper(p[i1]));
        assert(is_ascii_lower(p[i2]));
        assert(!is_ascii_alnum(p[i4]));
    }
}

/// A password shorter than 8 bytes is refused as too short, whatever else
/// it holds.
pub proof fn lemma_password_too_short(p: Seq<char>)
    requires
        encode_utf8(p).len() < 8,
    ensures
        password_error(p) matches Some(m) && m@ == "Password troppo breve, deve essere lunga almeno 8 caratteri"@,
{
}

/// Adding characters to an accepted password keeps it accepted.
pub proof fn lemma_password_extend(p: Seq<char>, q: Seq<char>)
    requires
        password_error(p) is None,
    ensures
        password_error(p + q) is None,
{
    lemma_utf8_len_concat(p, q);
    let pq = p + q;
    let i1 = choose|i: int| 0 <= i < p.len() && is_ascii_upper(#[trigger] p[i]);
    let i2 = choose|i: int| 0 <= i < p.len() && is_ascii_lower(#[trigger] p[i]);
    let i3 = choose|i: int| 0 <= i < p.len() && unicode_numeric(#[trigger] p[i]);
    let i4 = choose|i: int| 0 <= i < p.len() && !is_ascii_alnum(#[trigger] p[i]);
    assert(pq[i1] == p[i1] && pq[i2] == p[i2] && pq[i3] == p[i3] && pq[i4] == p[i4]);
}

} // verus!

//! Password hashes in the `rscrypt` text format:
//! `$rscrypt$<format>$<params>$<salt>$<hash>$`, each of the last three in
//! standard base64. Format `0` stores `log_n`, `r`, `p` as one byte each
//! (both `r` and `p` below 256); format `1` stores `log_n` and then `r` and
//! `p` as four little-endian bytes each.
use vstd::prelude::*;
use vstd::arithmetic::power2::pow2;
use vstd::string::StringSliceAdditionalSpecFns;
use crate::text::{split_spec, split_char, lemma_split_concat, lemma_split_no_sep};

verus! {

#[verifier::external_type_specification]
#[verifier::external_body]
pub struct ExParams(scrypt::Params);

#[verifier::external_type_specification]
#[verifier::external_body]
pub struct ExInvalidParams(scrypt::errors::InvalidParams);

#[verifier::external_type_specification]
#[verifier::external_body]
pub struct ExInvalidOutputLen(scrypt::errors::InvalidOutputLen);

#[verifier::external_type_specification]
#[verifier::external_body]
pub struct ExDecodeError(base64::DecodeError);

/// The parameters that `scrypt::Params::new` accepts.
pub open spec fn params_valid(log_n: u8, r: u32, p: u32, len: usize) -> bool {
    &&& r > 0
    &&& p > 0
    &&& log_n < usize::BITS
    &&& 10 <= len <= 64
    &&& r * 128 <= usize::MAX
    &&& pow2(log_n as nat) * (r * 128) <= usize::MAX
    &&& p * (r * 128) <= usize::MAX
    &&& log_n < r * 16
    &&& r * p < 0x4000_0000
}

/// The key that the scrypt function derives from a password and a salt.
pub uninterp spec fn scrypt_kdf(
    password: Seq<u8>,
    salt: Seq<u8>,
    log_n: u8,
    r: u32,
    p: u32,
    out_len: usize,
) -> Seq<u8>;

/// Standard base64 (with padding) of some bytes.
pub uninterp spec fn base64_encode(bytes: Seq<u8>) -> Seq<char>;

/// The bytes that a standard base64 text stands for, if it is well formed.
pub uninterp spec fn base64_decode(text: Seq<char>) -> Option<Seq<u8>>;

/// The characters that standard base64 writes.
pub open spec fn base64_char(c: char) -> bool {
    ||| 'A' <= c <= 'Z'
    ||| 'a' <= c <= 'z'
    ||| '0' <= c <= '9'
    ||| c == '+'
    ||| c == '/'
    ||| c == '='
}

/// `scrypt::Params::new`: accepts exactly the parameters of `params_valid`.
#[verifier::external_body]
fn scrypt_params_new(log_n: u8, r: u32, p: u32, len: usize) -> (res: Result<
    scrypt::Params,
    scrypt::errors::InvalidParams,
>)
    ensures
        res is Ok <==> params_valid(log_n, r, p, len),
{
    scrypt::Params::new(log_n, r, p, len)
}

/// `scrypt::scrypt` into a fresh buffer of `out_len` bytes: it fails exactly
/// when `out_len` is 0 or above `(2^32 - 1) * 32`, and otherwise fills the
/// buffer with the key derived with the parameters that `params` was made
/// from (its `inner` value is built from its other fields, see
/// `ScryptParams::new`).
#[verifier::external_body]
fn scrypt_derive(password: &[u8], salt: &[u8], params: &ScryptParams, out_len: usize) -> (res:
    Result<Vec<u8>, scrypt::errors::InvalidOutputLen>)
    ensures
        res is Ok <==> (0 < out_len && out_len / 32 <= 0xffff_ffff),
        res matches Ok(dk) ==> dk@ == scrypt_kdf(
            password@,
            salt@,
            params.spec_log_n(),
            params.spec_r(),
            params.spec_p(),
            out_len,
        ) && dk@.len() == out_len,
{
    let mut out = vec![0u8; out_len];
    match scrypt::scrypt(password, salt, &params.inner, &mut out) {
        Ok(()) => Ok(out),
        Err(e) => Err(e),
    }
}

/// `base64::engine::general_purpose::STANDARD.encode`: the text uses only
/// the standard alphabet and padding, and decodes back to the bytes.
#[verifier::external_body]
fn b64_encode(bytes: &[u8]) -> (s: String)
    ensures
        s@ == base64_encode(bytes@),
        forall|i: int| 0 <= i < s@.len() ==> base64_char(#[trigger] s@[i]),
        base64_decode(s@) == Some(bytes@),
{
    base64::Engine::encode(&base64::engine::general_purpose::STANDARD, bytes)
}

/// `base64::engine::general_purpose::STANDARD.decode`.
#[verifier::external_body]
fn b64_decode(text: &str) -> (res: Result<Vec<u8>, base64::DecodeError>)
    ensures
        match res {
            Ok(v) => base64_decode(text@) == Some(v@),
            Err(_) => base64_decode(text@) is None,
        },
{
    base64::Engine::decode(&base64::engine::general_purpose::STANDARD, text)
}

/// `rand::rngs::OsRng.fill_bytes` on `len` bytes: only their number is
/// known. It panics when the operating system gives no random bytes, which
/// no argument can rule out.
#[verifier::external_body]
fn os_random_bytes(len: usize) -> (bytes: Vec<u8>)
    ensures
        bytes@.len() == len,
{
    let mut bytes = vec![0u8; len];
    rand::RngCore::fill_bytes(&mut rand::rngs::OsRng, &mut bytes);
    bytes
}

/// `constant_time_eq::constant_time_eq`: whether the two byte strings are
/// equal.
#[verifier::external_body]
fn ct_eq(a: &[u8], b: &[u8]) -> (res: bool)
    ensures
        res == (a@ == b@),
{
    constant_time_eq::constant_time_eq(a, b)
}

/// The parameters were refused.
#[derive(Debug, Clone, Copy, PartialEq, Eq)]
pub struct ParamsError {}

/// A text that is not an `rscrypt` hash, or whose parameters the scrypt
/// function refuses.
#[derive(Debug, Clone, Copy, PartialEq, Eq)]
pub struct ScryptError {}

impl ScryptError {
    /// The message of the error.
    pub fn message(&self) -> (m: &'static str)
        ensures
            m@ == "Hash is not in Rust Scrypt format."@,
    {
        "Hash is not in Rust Scrypt format."
    }
}

/// Scrypt parameters that the scrypt function accepts.
pub struct ScryptParams {
    log_n: u8,
    r: u32,
    p: u32,
    len: usize,
    inner: scrypt::Params,
}

impl ScryptParams {
    /// The fields are accepted by `scrypt::Params::new`. The field `inner`
    /// is the value that `scrypt::Params::new` gave for the other fields:
    /// `ScryptParams::new` is the only place that builds this type, and the
    /// invariant cannot say it, as `inner` is opaque.
    #[verifier::type_invariant]
    pub closed spec fn wf(self) -> bool {
        params_valid(self.log_n, self.r, self.p, self.len)
    }

    pub closed spec fn spec_log_n(self) -> u8 {
        self.log_n
    }

    pub closed spec fn spec_r(self) -> u32 {
        self.r
    }

    pub closed spec fn spec_p(self) -> u32 {
        self.p
    }

    pub closed spec fn spec_len(self) -> usize {
        self.len
    }

    /// The validity of the fields, in terms of the accessors.
    pub proof fn lemma_wf(self)
        requires
            self.wf(),
        ensures
            params_valid(self.spec_log_n(), self.spec_r(), self.spec_p(), self.spec_len()),
    {
    }

    /// Parameters from their values; refused where `scrypt` refuses them.
    pub fn new(log_n: u8, r: u32, p: u32, len: usize) -> (res: Result<ScryptParams, ParamsError>)
        ensures
            res is Ok <==> params_valid(log_n, r, p, len),
            res matches Ok(pp) ==> pp.spec_log_n() == log_n && pp.spec_r() == r && pp.spec_p() == p
                && pp.spec_len() == len,
    {
        match scrypt_params_new(log_n, r, p, len) {
            Ok(inner) => Ok(ScryptParams { log_n, r, p, len, inner }),
            Err(_) => Err(ParamsError {  }),
        }
    }

    pub fn log_n(&self) -> (v: u8)
        ensures
            v == self.spec_log_n(),
    {
        self.log_n
    }

    pub fn r(&self) -> (v: u32)
        ensures
            v == self.spec_r(),
    {
        self.r
    }

    pub fn p(&self) -> (v: u32)
        ensures
            v == self.spec_p(),
    {
        self.p
    }

    pub fn len(&self) -> (v: usize)
        ensures
            v == self.spec_len(),
    {
        self.len
    }
}

/// The scrypt parameters of the configuration.
pub struct InsignoScryptParams {
    pub log_n: u8,
    pub r: u32,
    pub p: u32,
    pub len: usize,
}

impl Default for InsignoScryptParams {
    fn default() -> (d: Self)
        ensures
            d.log_n == 15 && d.r == 8 && d.p == 1 && d.len == 30,
    {
        InsignoScryptParams { log_n: 15, r: 8, p: 1, len: 30 }
    }
}

impl InsignoScryptParams {
    /// The parameters, which must be valid.
    pub fn get_params(&self) -> (pp: ScryptParams)
        requires
            params_valid(self.log_n, self.r, self.p, self.len),
        ensures
            pp.spec_log_n() == self.log_n,
            pp.spec_r() == self.r,
            pp.spec_p() == self.p,
            pp.spec_len() == self.len,
    {
        ScryptParams::new(self.log_n, self.r, self.p, self.len).unwrap()
    }
}

/// The four little-endian bytes of `x`.
pub open spec fn le_bytes(x: u32) -> Seq<u8> {
    seq![
        (x & 0xff) as u8,
        ((x >> 8u32) & 0xff) as u8,
        ((x >> 16u32) & 0xff) as u8,
        (x >> 24u32) as u8,
    ]
}

/// The number whose little-endian bytes start at `b[i]`.
pub open spec fn le_u32(b: Seq<u8>, i: int) -> u32 {
    (b[i] as u32) | ((b[i + 1] as u32) << 8u32) | ((b[i + 2] as u32) << 16u32) | ((b[i + 3]
        as u32) << 24u32)
}

proof fn lemma_le_roundtrip(x: u32)
    ensures
        le_u32(le_bytes(x), 0) == x,
        le_u32(seq![0u8] + le_bytes(x), 1) == x,
{
    let b = le_bytes(x);
    assert(((x & 0xff) as u8) as u32 | (((((x >> 8u32) & 0xff) as u8) as u32) << 8u32) | (((((x
        >> 16u32) & 0xff) as u8) as u32) << 16u32) | ((((x >> 24u32) as u8) as u32) << 24u32)
        == x) by (bit_vector);
    let c = seq![0u8] + b;
    assert(c[1] == b[0] && c[2] == b[1] && c[3] == b[2] && c[4] == b[3]);
}

/// The format mark and the parameter bytes that a hash with these
/// parameters carries.
pub open spec fn params_field(log_n: u8, r: u32, p: u32) -> (Seq<char>, Seq<u8>) {
    if r < 256 && p < 256 {
        (seq!['0'], seq![log_n, r as u8, p as u8])
    } else {
        (seq!['1'], seq![log_n] + le_bytes(r) + le_bytes(p))
    }
}

/// The name of the format.
pub open spec fn rscrypt_name() -> Seq<char> {
    seq!['r', 's', 'c', 'r', 'y', 'p', 't']
}

/// The text of a hash with these parameters, salt and derived key.
pub open spec fn rscrypt_format(log_n: u8, r: u32, p: u32, salt: Seq<u8>, dk: Seq<u8>) -> Seq<
    char,
> {
    let (f, pb) = params_field(log_n, r, p);
    seq!['$'] + rscrypt_name() + seq!['$'] + f + seq!['$'] + base64_encode(pb) + seq!['$']
        + base64_encode(salt) + seq!['$'] + base64_encode(dk) + seq!['$']
}

/// The hash of `password` with these parameters and this salt: the derived
/// key is 32 bytes long.
pub open spec fn rscrypt_hash(password: Seq<u8>, log_n: u8, r: u32, p: u32, salt: Seq<u8>) -> Seq<
    char,
> {
    rscrypt_format(log_n, r, p, salt, scrypt_kdf(password, salt, log_n, r, p, 32))
}

/// The parameters that a format mark and parameter bytes stand for.
pub open spec fn parse_params(f: Seq<char>, pv: Seq<u8>) -> Option<(u8, u32, u32)> {
    if f == seq!['0'] {
        if pv.len() == 3 {
            Some((pv[0], pv[1] as u32, pv[2] as u32))
        } else {
            None
        }
    } else if f == seq!['1'] {
        if pv.len() == 9 {
            Some((pv[0], le_u32(pv, 1), le_u32(pv, 5)))
        } else {
            None
        }
    } else {
        None
    }
}

/// What checking `password` against the text `hashed` gives: an error where
/// the text is not a hash whose parameters scrypt accepts (with a 32 byte
/// key) and whose key length it accepts, else whether the key derived from
/// `password` with the stored salt and parameters is the stored key.
pub open spec fn scrypt_check_spec(password: Seq<u8>, hashed: Seq<char>) -> Result<bool, ScryptError> {
    let parts = split_spec(hashed, '$');
    if parts.len() != 7 || parts[0].len() != 0 || parts[1] != rscrypt_name() || parts[6].len()
        != 0 {
        Err(ScryptError {  })
    } else {
        match base64_decode(parts[3]) {
            None => Err(ScryptError {  }),
            Some(pv) => match parse_params(parts[2], pv) {
                None => Err(ScryptError {  }),
                Some((log_n, r, p)) => if !params_valid(log_n, r, p, 32) {
                    Err(ScryptError {  })
                } else {
                    match (base64_decode(parts[4]), base64_decode(parts[5])) {
                        (Some(salt), Some(hash)) => if hash.len() == 0 || hash.len() / 32
                            > 0xffff_ffff {
                            Err(ScryptError {  })
                        } else {
                            Ok(scrypt_kdf(password, salt, log_n, r, p, hash.len() as usize)
                                == hash)
                        },
                        _ => Err(ScryptError {  }),
                    }
                },
            },
        }
    }
}

/// The four little-endian bytes of `x`.
fn le_bytes_of(x: u32) -> (b: Vec<u8>)
    ensures
        b@ == le_bytes(x),
{
    let mut b: Vec<u8> = Vec::new();
    b.push((x & 0xff) as u8);
    b.push(((x >> 8u32) & 0xff) as u8);
    b.push(((x >> 16u32) & 0xff) as u8);
    b.push((x >> 24u32) as u8);
    assert(b@ =~= le_bytes(x));
    b
}

/// `x` has no `$`.
spec fn no_dollar(x: Seq<char>) -> bool {
    !x.contains('$')
}

proof fn lemma_no_dollar_b64(x: Seq<char>)
    requires
        forall|i: int| 0 <= i < x.len() ==> base64_char(#[trigger] x[i]),
    ensures
        no_dollar(x),
{
    if x.contains('$') {
        let i = choose|i: int| 0 <= i < x.len() && x[i] == '$';
        assert(base64_char(x[i]));
    }
}

/// The pieces of a text made of six fields separated by `$`.
proof fn lemma_split_fields(
    a: Seq<char>,
    b: Seq<char>,
    c: Seq<char>,
    d: Seq<char>,
    e: Seq<char>,
    f: Seq<char>,
    g: Seq<char>,
)
    requires
        no_dollar(a),
        no_dollar(b),
        no_dollar(c),
        no_dollar(d),
        no_dollar(e),
        no_dollar(f),
        no_dollar(g),
    ensures
        split_spec(
            a + seq!['$'] + b + seq!['$'] + c + seq!['$'] + d + seq!['$'] + e + seq!['$'] + f
                + seq!['$'] + g,
            '$',
        ) == seq![a, b, c, d, e, f, g],
{
    let s = seq!['$'];
    let t6 = f + s + g;
    let t5 = e + s + t6;
    let t4 = d + s + t5;
    let t3 = c + s + t4;
    let t2 = b + s + t3;
    let t1 = a + s + t2;
    assert(a + s + b + s + c + s + d + s + e + s + f + s + g =~= t1);
    lemma_split_concat(f, g, '$');
    lemma_split_concat(e, t6, '$');
    lemma_split_concat(d, t5, '$');
    lemma_split_concat(c, t4, '$');
    lemma_split_concat(b, t3, '$');
    lemma_split_concat(a, t2, '$');
    lemma_split_no_sep(a, '$');
    lemma_split_no_sep(b, '$');
    lemma_split_no_sep(c, '$');
    lemma_split_no_sep(d, '$');
    lemma_split_no_sep(e, '$');
    lemma_split_no_sep(f, '$');
    lemma_split_no_sep(g, '$');
    assert(split_spec(t1, '$') =~= seq![a, b, c, d, e, f, g]);
}

/// `h` is the hash of `password` with these parameters and this salt, and
/// checking any password against `h` gives whether that password derives
/// the same key with this salt: `Ok(false)` for another password, barring a
/// collision of the derived keys. The key stored in `h` is 32 bytes long.
pub open spec fn salted_hash(password: Seq<u8>, log_n: u8, r: u32, p: u32, salt: Seq<u8>, h: Seq<char>) -> bool {
    &&& h == rscrypt_hash(password, log_n, r, p, salt)
    &&& scrypt_kdf(password, salt, log_n, r, p, 32).len() == 32
    &&& forall|other: Seq<u8>|
        #[trigger] scrypt_check_spec(other, h) == Ok::<bool, ScryptError>(
            scrypt_kdf(other, salt, log_n, r, p, 32) == scrypt_kdf(password, salt, log_n, r, p, 32),
        )
}

/// The hash of `password` with these parameters and this salt.
///
/// Checking any password against it gives whether that password derives
/// the same key with this salt; for `password` itself, `Ok(true)`.
pub fn scrypt_simple_with_salt(password: &str, params: &ScryptParams, salt: &[u8]) -> (h: String)
    ensures
        h@ == rscrypt_hash(
            password.spec_bytes(),
            params.spec_log_n(),
            params.spec_r(),
            params.spec_p(),
            salt@,
        ),
        forall|other: Seq<u8>|
            #[trigger] scrypt_check_spec(other, h@) == Ok::<bool, ScryptError>(
                scrypt_kdf(other, salt@, params.spec_log_n(), params.spec_r(), params.spec_p(), 32)
                    == scrypt_kdf(
                    password.spec_bytes(),
                    salt@,
                    params.spec_log_n(),
                    params.spec_r(),
                    params.spec_p(),
                    32,
                )),
        scrypt_check_spec(password.spec_bytes(), h@) == Ok::<bool, ScryptError>(true),
        scrypt_kdf(password.spec_bytes(), salt@, params.spec_log_n(), params.spec_r(), params.spec_p(), 32).len() == 32,
{
    proof {
        use_type_invariant(params);
    }
    let log_n = params.log_n();
    let r = params.r();
    let p = params.p();
    let pw = password.as_bytes();
    let dk = match scrypt_derive(pw, salt, params, 32) {
        Ok(dk) => dk,
        Err(_) => {
            proof {
                assert(false);
            }
            Vec::new()
        },
    };
    let ghost pb: Seq<u8>;
    let mut result = "$rscrypt$".to_owned();
    proof {
        reveal_strlit("$rscrypt$");
        reveal_strlit("0$");
        reveal_strlit("1$");
        reveal_strlit("$");
    }
    let tmp: Vec<u8>;
    if r < 256 && p < 256 {
        result.append("0$");
        let mut v: Vec<u8> = Vec::new();
        v.push(log_n);
        v.push(r as u8);
        v.push(p as u8);
        tmp = v;
    } else {
        result.append("1$");
        let mut v: Vec<u8> = Vec::new();
        v.push(log_n);
        let rb = le_bytes_of(r);
        let pbytes = le_bytes_of(p);
        let mut i: usize = 0;
        while i < 4
            invariant
                0 <= i <= 4,
                rb@ == le_bytes(r),
                v@ == seq![log_n] + rb@.take(i as int),
            decreases 4 - i,
        {
            v.push(rb[i]);
            assert(rb@.take(i + 1) =~= rb@.take(i as int).push(rb@[i as int]));
            i = i + 1;
        }
        let mut j: usize = 0;
        while j < 4
            invariant
                0 <= j <= 4,
                rb@ == le_bytes(r),
                pbytes@ == le_bytes(p),
                v@ == seq![log_n] + rb@ + pbytes@.take(j as int),
            decreases 4 - j,
        {
            v.push(pbytes[j]);
            assert(pbytes@.take(j + 1) =~= pbytes@.take(j as int).push(pbytes@[j as int]));
            j = j + 1;
        }
        assert(rb@.take(4) =~= rb@);
        assert(pbytes@.take(4) =~= pbytes@);
        tmp = v;
    }
    let ghost field = params_field(log_n, r, p);
    assert(tmp@ =~= field.1);
    let e1 = b64_encode(tmp.as_slice());
    result.append(e1.as_str());
    result.append("$");
    let e2 = b64_encode(salt);
    result.append(e2.as_str());
    result.append("$");
    let e3 = b64_encode(dk.as_slice());
    result.append(e3.as_str());
    result.append("$");
    proof {
        let s = seq!['$'];
        let name = rscrypt_name();
        assert("$rscrypt$"@ =~= s + name + s);
        assert(result@ =~= rscrypt_format(log_n, r, p, salt@, dk@));
        let empty = Seq::<char>::empty();
        assert(result@ =~= empty + s + name + s + field.0 + s + e1@ + s + e2@ + s + e3@ + s
            + empty);
        lemma_no_dollar_b64(e1@);
        lemma_no_dollar_b64(e2@);
        lemma_no_dollar_b64(e3@);
        assert(no_dollar(empty));
        assert(no_dollar(name)) by {
            if name.contains('$') {
                let i = choose|i: int| 0 <= i < name.len() && name[i] == '$';
                assert(name[i] != '$');
            }
        }
        assert(no_dollar(field.0)) by {
            if field.0.contains('$') {
                let i = choose|i: int| 0 <= i < field.0.len() && field.0[i] == '$';
                assert(field.0[i] != '$');
            }
        }
        lemma_split_fields(empty, name, field.0, e1@, e2@, e3@, empty);
        let parts = split_spec(result@, '$');
        assert(parts == seq![empty, name, field.0, e1@, e2@, e3@, empty]);
        if r < 256 && p < 256 {
            assert(parse_params(field.0, field.1) == Some((log_n, r, p)));
        } else {
            lemma_le_roundtrip(r);
            lemma_le_roundtrip(p);
            let b = field.1;
            assert(b.len() == 9);
            assert(le_u32(b, 1) == le_u32(seq![0u8] + le_bytes(r), 1));
            assert(le_u32(b, 5) == le_u32(seq![0u8] + le_bytes(p), 1));
            assert(field.0 != seq!['0']) by {
                assert(field.0[0] != seq!['0'][0]);
            }
            assert(parse_params(field.0, field.1) == Some((log_n, r, p)));
        }
        assert(params_valid(log_n, r, p, 32)) by {
            params.lemma_wf();
        }
    }
    result
}

/// Hashes `password` with these parameters and 16 random bytes of salt; it
/// always succeeds.
pub fn scrypt_simple(password: &str, params: &ScryptParams) -> (res: Result<String, ScryptError>)
    ensures
        res matches Ok(h) && exists|salt: Seq<u8>|
            salt.len() == 16 && #[trigger] salted_hash(
                password.spec_bytes(),
                params.spec_log_n(),
                params.spec_r(),
                params.spec_p(),
                salt,
                h@,
            ),
        res matches Ok(h) && scrypt_check_spec(password.spec_bytes(), h@) == Ok::<bool, ScryptError>(true),
{
    let salt = os_random_bytes(16);
    let h = scrypt_simple_with_salt(password, params, salt.as_slice());
    assert(salted_hash(password.spec_bytes(), params.spec_log_n(), params.spec_r(), params.spec_p(), salt@, h@));
    Ok(h)
}

/// Checks `password` against `hashed_value`, the text of a previous
/// `scrypt_simple`: whether the password hashes to the same key, or an
/// error where the text is not such a hash.
pub fn scrypt_check(password: &str, hashed_value: &str) -> (res: Result<bool, ScryptError>)
    ensures
        res == scrypt_check_spec(password.spec_bytes(), hashed_value@),
{
    let err = ScryptError {  };
    let parts = split_char(hashed_value, '$');
    if parts.len() != 7 {
        return Err(err);
    }
    if !parts[0].as_str().is_empty() {
        return Err(err);
    }
    let name = "rscrypt".to_owned();
    let zero = "0".to_owned();
    let one = "1".to_owned();
    proof {
        reveal_strlit("rscrypt");
        reveal_strlit("0");
        reveal_strlit("1");
        assert(name@ =~= rscrypt_name());
        assert(zero@ =~= seq!['0']);
        assert(one@ =~= seq!['1']);
    }
    if !(parts[1] == name) {
        return Err(err);
    }
    if !parts[6].as_str().is_empty() {
        return Err(err);
    }
    let pvec = match b64_decode(parts[3].as_str()) {
        Ok(x) => x,
        Err(_) => {
            return Err(err);
        },
    };
    let log_n: u8;
    let r: u32;
    let p: u32;
    if parts[2] == zero {
        if pvec.len() != 3 {
            return Err(err);
        }
        log_n = pvec[0];
        r = pvec[1] as u32;
        p = pvec[2] as u32;
    } else if parts[2] == one {
        if pvec.len() != 9 {
            return Err(err);
        }
        log_n = pvec[0];
        r = (pvec[1] as u32) | ((pvec[2] as u32) << 8u32) | ((pvec[3] as u32) << 16u32) | ((
        pvec[4] as u32) << 24u32);
        p = (pvec[5] as u32) | ((pvec[6] as u32) << 8u32) | ((pvec[7] as u32) << 16u32) | ((
        pvec[8] as u32) << 24u32);
    } else {
        return Err(err);
    }
    assert(parse_params(parts@[2]@, pvec@) == Some((log_n, r, p)));
    let params = match ScryptParams::new(log_n, r, p, 32) {
        Ok(x) => x,
        Err(_) => {
            return Err(err);
        },
    };
    let salt = match b64_decode(parts[4].as_str()) {
        Ok(x) => x,
        Err(_) => {
            return Err(err);
        },
    };
    let hash = match b64_decode(parts[5].as_str()) {
        Ok(x) => x,
        Err(_) => {
            return Err(err);
        },
    };
    let output = match scrypt_derive(password.as_bytes(), salt.as_slice(), &params, hash.len()) {
        Ok(o) => o,
        Err(_) => {
            return Err(err);
        },
    };
    Ok(ct_eq(output.as_slice(), hash.as_slice()))
}

} // verus!

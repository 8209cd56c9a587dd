//! Core logic of the INSIGNO backend: password hashing in the `rscrypt`
//! format, input validation, request and error handling rules.
pub mod error;
pub mod text;
pub mod scrypt;
pub mod validation;
pub mod pending;
pub mod change_password;
pub mod number;
pub mod version;
pub mod user;
pub mod login;
pub mod signup;
pub mod cors;
pub mod config;
pub mod files;
pub mod delete_account;
pub mod review;
pub mod image_verification;
pub mod mail;
pub mod pbkdf2_auth;

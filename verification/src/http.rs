//! The wire contract: which status code and which plain-text body each
//! operation result maps to.

use vstd::prelude::*;

use crate::store::{LoginError, RegisterError, UpdateError};
use crate::user_model::User;

verus! {

/// Registration answers 200 with the row, or 500.
pub fn register_status(r: &Result<User, RegisterError>) -> (s: u16)
    ensures
        s == (if r is Ok {
            200u16
        } else {
            500u16
        }),
{
    match r {
        Ok(_) => 200,
        Err(_) => 500,
    }
}

/// Login answers 200 with the row, 404, 401, or 500.
pub fn login_status(r: &Result<User, LoginError>) -> (s: u16)
    ensures
        r is Ok ==> s == 200,
        r matches Err(e) ==> s == (match e {
            LoginError::UserNotFound => 404u16,
            LoginError::InvalidPassword => 401u16,
            LoginError::VerifyFailure => 500u16,
        }),
{
    match r {
        Ok(_) => 200,
        Err(LoginError::UserNotFound) => 404,
        Err(LoginError::InvalidPassword) => 401,
        Err(LoginError::VerifyFailure) => 500,
    }
}

/// Update answers 200 with a fixed message, 404, or 500.
pub fn update_status(r: &Result<(), UpdateError>) -> (s: u16)
    ensures
        r is Ok ==> s == 200,
        r matches Err(e) ==> s == (match e {
            UpdateError::UserNotFound => 404u16,
            UpdateError::HashFailure => 500u16,
            UpdateError::PhoneTaken => 500u16,
        }),
{
    match r {
        Ok(_) => 200,
        Err(UpdateError::UserNotFound) => 404,
        Err(UpdateError::HashFailure) => 500,
        Err(UpdateError::PhoneTaken) => 500,
    }
}

/// Deletion always answers 200.
pub fn delete_status() -> (s: u16)
    ensures
        s == 200,
{
    200
}

pub fn login_error_message(e: &LoginError) -> (r: &'static str)
    ensures
        e is UserNotFound ==> r@ == "User not found"@,
        e is InvalidPassword ==> r@ == "Invalid password"@,
        e is VerifyFailure ==> r@ == "Failed to verify password"@,
{
    match e {
        LoginError::UserNotFound => "User not found",
        LoginError::InvalidPassword => "Invalid password",
        LoginError::VerifyFailure => "Failed to verify password",
    }
}

pub fn update_error_message(e: &UpdateError) -> (r: &'static str)
    ensures
        e is UserNotFound ==> r@ == "User not found"@,
        e is HashFailure ==> r@ == "Failed to hash password"@,
        e is PhoneTaken ==> r@ == "Failed to update user"@,
{
    match e {
        UpdateError::UserNotFound => "User not found",
        UpdateError::HashFailure => "Failed to hash password",
        UpdateError::PhoneTaken => "Failed to update user",
    }
}

pub fn register_error_message(e: &RegisterError) -> (r: &'static str)
    ensures
        e is HashFailure ==> r@ == "Failed to hash password"@,
        e is IdTaken ==> r@ == "User id already exists"@,
        e is DuplicatePhone ==> r@ == "Phone already registered"@,
{
    match e {
        RegisterError::HashFailure => "Failed to hash password",
        RegisterError::IdTaken => "User id already exists",
        RegisterError::DuplicatePhone => "Phone already registered",
    }
}

pub fn update_success_message() -> (r: &'static str)
    ensures
        r@ == "User updated successfully"@,
{
    "User updated successfully"
}

pub fn delete_success_message() -> (r: &'static str)
    ensures
        r@ == "User deleted"@,
{
    "User deleted"
}

} // verus!

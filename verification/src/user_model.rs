//! The user entity and the three request shapes that the endpoints accept.

use vstd::prelude::*;

verus! {

/// A stored user row. The `password` field always holds an adaptive-hash
/// digest, never a user-supplied cleartext (see `store::UserStore`).
pub struct User {
    /// 128-bit identifier, generated at registration, immutable.
    pub id: u128,
    pub name: String,
    pub phone: String,
    pub password: String,
}

/// Ghost image of a stored row: the same four fields over mathematical types.
pub ghost struct UserView {
    pub id: u128,
    pub name: Seq<char>,
    pub phone: Seq<char>,
    pub password: Seq<char>,
}

impl View for User {
    type V = UserView;

    open spec fn view(&self) -> UserView {
        UserView {
            id: self.id,
            name: self.name@,
            phone: self.phone@,
            password: self.password@,
        }
    }
}

impl Clone for User {
    fn clone(&self) -> (res: Self)
        ensures
            res == *self,
    {
        User {
            id: self.id,
            name: self.name.clone(),
            phone: self.phone.clone(),
            password: self.password.clone(),
        }
    }
}

/// Registration request: every field is required.
pub struct NewUser {
    pub name: String,
    pub phone: String,
    pub password: String,
}

/// Update request: every field is optional; an omitted field keeps the
/// stored value.
pub struct UpdateUser {
    pub name: Option<String>,
    pub phone: Option<String>,
    pub password: Option<String>,
}

/// Login request: both fields are required.
pub struct LoginRequest {
    pub phone: String,
    pub password: String,
}

} // verus!

//! The verified user table and the five operations the endpoints perform.
//!
//! The table is modelled as a sequence of rows with three invariants: ids are
//! unique, phones are unique, and every stored credential is a bcrypt digest.
//! Each operation's contract pins the new table and the result down, either
//! directly or through the named answer of `bcrypt::verify`.

use vstd::prelude::*;

use crate::hashing::{bcrypt_verify, hash_password, is_bcrypt_digest, verify_password};
use crate::ids::fresh_id;
use crate::user_model::{LoginRequest, NewUser, UpdateUser, User, UserView};

verus! {

/// The cost registration hashes at when the store is built with `new`.
pub const DEFAULT_COST: u32 = 12;

/// Why a registration failed; every variant maps to a 500 response.
#[derive(Clone, Copy, PartialEq, Eq, Debug)]
pub enum RegisterError {
    /// bcrypt could not hash the cleartext.
    HashFailure,
    /// The generated id collided with a stored row (the primary-key constraint).
    IdTaken,
    /// The phone is already bound to a row (the unique-phone constraint).
    DuplicatePhone,
}

/// Why a login failed.
#[derive(Clone, Copy, PartialEq, Eq, Debug)]
pub enum LoginError {
    /// No row holds the requested phone: 404.
    UserNotFound,
    /// The password did not verify against the stored digest: 401.
    InvalidPassword,
    /// bcrypt rejected the verification call: 500.
    VerifyFailure,
}

/// Why an update failed.
#[derive(Clone, Copy, PartialEq, Eq, Debug)]
pub enum UpdateError {
    /// No row holds the requested id: 404.
    UserNotFound,
    /// bcrypt could not hash the new cleartext: 500.
    HashFailure,
    /// The new phone is already bound to another row: 500.
    PhoneTaken,
}

/// Some row holds this id.
pub open spec fn has_id(s: Seq<UserView>, id: u128) -> bool {
    exists|i: int| 0 <= i < s.len() && s[i].id == id
}

/// Some row holds this phone.
pub open spec fn has_phone(s: Seq<UserView>, phone: Seq<char>) -> bool {
    exists|i: int| 0 <= i < s.len() && s[i].phone == phone
}

/// The index of the row holding this id; meaningful when `has_id` holds and
/// ids are unique.
pub open spec fn idx_of_id(s: Seq<UserView>, id: u128) -> int {
    choose|i: int| 0 <= i < s.len() && s[i].id == id
}

/// The index of the row holding this phone; meaningful when `has_phone`
/// holds and phones are unique.
pub open spec fn idx_of_phone(s: Seq<UserView>, phone: Seq<char>) -> int {
    choose|i: int| 0 <= i < s.len() && s[i].phone == phone
}

/// No two rows share an id.
pub open spec fn unique_ids(s: Seq<UserView>) -> bool {
    forall|i: int, j: int|
        #![trigger s[i].id, s[j].id]
        0 <= i < j < s.len() ==> s[i].id != s[j].id
}

/// No two rows share a phone.
pub open spec fn unique_phones(s: Seq<UserView>) -> bool {
    forall|i: int, j: int|
        #![trigger s[i].phone, s[j].phone]
        0 <= i < j < s.len() ==> s[i].phone != s[j].phone
}

/// Every stored credential is a bcrypt digest, never a cleartext.
pub open spec fn all_digests(s: Seq<UserView>) -> bool {
    forall|i: int| 0 <= i < s.len() ==> is_bcrypt_digest(#[trigger] s[i].password)
}

/// The table invariant.
pub open spec fn table_wf(s: Seq<UserView>) -> bool {
    unique_ids(s) && unique_phones(s) && all_digests(s)
}

/// What a login answers on a table: the row bound to the phone when the
/// password verifies, and the matching error otherwise.
pub open spec fn login_outcome(
    s: Seq<UserView>,
    phone: Seq<char>,
    password: Seq<char>,
) -> Result<UserView, LoginError> {
    if !has_phone(s, phone) {
        Err(LoginError::UserNotFound)
    } else {
        let row = s[idx_of_phone(s, phone)];
        match bcrypt_verify(password, row.password) {
            Some(true) => Ok(row),
            Some(false) => Err(LoginError::InvalidPassword),
            None => Err(LoginError::VerifyFailure),
        }
    }
}

/// What a deletion leaves of a table: the row bound to the id removed, or the
/// table unchanged when no row holds it.
pub open spec fn delete_outcome(s: Seq<UserView>, id: u128) -> Seq<UserView> {
    if has_id(s, id) {
        s.remove(idx_of_id(s, id))
    } else {
        s
    }
}

/// A row merged with an update request: a supplied field wins, an omitted
/// field keeps the stored value.
pub open spec fn merged_row(
    row: UserView,
    name: Option<Seq<char>>,
    phone: Option<Seq<char>>,
    password: Option<Seq<char>>,
) -> UserView {
    UserView {
        id: row.id,
        name: match name {
            Some(n) => n,
            None => row.name,
        },
        phone: match phone {
            Some(p) => p,
            None => row.phone,
        },
        password: match password {
            Some(d) => d,
            None => row.password,
        },
    }
}

/// Another row than the one bound to `id` already holds this phone.
pub open spec fn phone_taken_by_other(s: Seq<UserView>, phone: Seq<char>, id: u128) -> bool {
    exists|j: int| 0 <= j < s.len() && s[j].phone == phone && s[j].id != id
}

/// What an update with already-resolved fields answers on a table.
pub open spec fn apply_update_outcome(
    s: Seq<UserView>,
    id: u128,
    name: Option<Seq<char>>,
    phone: Option<Seq<char>>,
    password: Option<Seq<char>>,
) -> Result<Seq<UserView>, UpdateError> {
    if !has_id(s, id) {
        Err(UpdateError::UserNotFound)
    } else if phone matches Some(p) && phone_taken_by_other(s, p, id) {
        Err(UpdateError::PhoneTaken)
    } else {
        let i = idx_of_id(s, id);
        Ok(s.update(i, merged_row(s[i], name, phone, password)))
    }
}

/// When ids are unique, the id-keyed index is the one matching position.
pub proof fn lemma_idx_of_id(s: Seq<UserView>, id: u128, i: int)
    requires
        unique_ids(s),
        0 <= i < s.len(),
        s[i].id == id,
    ensures
        has_id(s, id),
        idx_of_id(s, id) == i,
{
    assert(has_id(s, id));
    let c = idx_of_id(s, id);
    assert(0 <= c < s.len() && s[c].id == id);
    if c < i {
        assert(s[c].id != s[i].id);
    } else if i < c {
        assert(s[i].id != s[c].id);
    }
}

/// When phones are unique, the phone-keyed index is the one matching position.
pub proof fn lemma_idx_of_phone(s: Seq<UserView>, phone: Seq<char>, i: int)
    requires
        unique_phones(s),
        0 <= i < s.len(),
        s[i].phone == phone,
    ensures
        has_phone(s, phone),
        idx_of_phone(s, phone) == i,
{
    assert(has_phone(s, phone));
    let c = idx_of_phone(s, phone);
    assert(0 <= c < s.len() && s[c].phone == phone);
    if c < i {
        assert(s[c].phone != s[i].phone);
    } else if i < c {
        assert(s[i].phone != s[c].phone);
    }
}

/// The user table: the rows, and the bcrypt cost registration hashes at.
pub struct UserStore {
    users: Vec<User>,
    cost: u32,
}

impl View for UserStore {
    type V = Seq<UserView>;

    closed spec fn view(&self) -> Seq<UserView> {
        self.users@.map_values(|u: User| u@)
    }
}

impl UserStore {
    /// The table invariant: constructors establish it, operations keep it.
    pub open spec fn wf(&self) -> bool {
        table_wf(self@)
    }

    /// The bcrypt cost this store hashes at.
    pub closed spec fn spec_cost(&self) -> u32 {
        self.cost
    }

    /// An empty table hashing at the default cost.
    pub fn new() -> (r: Self)
        ensures
            r@ == Seq::<UserView>::empty(),
            r.wf(),
            r.spec_cost() == DEFAULT_COST,
    {
        let s = UserStore { users: Vec::new(), cost: DEFAULT_COST };
        proof {
            assert(s@ =~= Seq::<UserView>::empty());
        }
        s
    }

    /// An empty table hashing at the given cost.
    pub fn with_cost(cost: u32) -> (r: Self)
        ensures
            r@ == Seq::<UserView>::empty(),
            r.wf(),
            r.spec_cost() == cost,
    {
        let s = UserStore { users: Vec::new(), cost };
        proof {
            assert(s@ =~= Seq::<UserView>::empty());
        }
        s
    }

    pub fn cost(&self) -> (r: u32)
        ensures
            r == self.spec_cost(),
    {
        self.cost
    }

    /// The first position whose row holds this id.
    fn find_index_by_id(&self, id: u128) -> (r: Option<usize>)
        ensures
            match r {
                Some(i) => i < self@.len() && self@[i as int].id == id,
                None => !has_id(self@, id),
            },
    {
        let n = self.users.len();
        let mut k: usize = 0;
        while k < n
            invariant
                n == self.users.len(),
                k <= n,
                forall|j: int| 0 <= j < k ==> self@[j].id != id,
            decreases n - k,
        {
            if self.users[k].id == id {
                return Some(k);
            }
            k += 1;
        }
        None
    }

    /// The first position whose row holds this phone.
    fn find_index_by_phone(&self, phone: &String) -> (r: Option<usize>)
        ensures
            match r {
                Some(i) => i < self@.len() && self@[i as int].phone == phone@,
                None => !has_phone(self@, phone@),
            },
    {
        let n = self.users.len();
        let mut k: usize = 0;
        while k < n
            invariant
                n == self.users.len(),
                k <= n,
                forall|j: int| 0 <= j < k ==> self@[j].phone != phone@,
            decreases n - k,
        {
            if self.users[k].phone == *phone {
                return Some(k);
            }
            k += 1;
        }
        None
    }

    /// Whether a row other than the one bound to `id` holds this phone.
    fn phone_conflict(&self, phone: &String, id: u128) -> (r: bool)
        ensures
            r == phone_taken_by_other(self@, phone@, id),
    {
        let n = self.users.len();
        let mut k: usize = 0;
        while k < n
            invariant
                n == self.users.len(),
                k <= n,
                forall|j: int| 0 <= j < k ==> !(self@[j].phone == phone@ && self@[j].id != id),
            decreases n - k,
        {
            if self.users[k].phone == *phone && self.users[k].id != id {
                proof {
                    assert(self@[k as int].phone == phone@ && self@[k as int].id != id);
                }
                return true;
            }
            k += 1;
        }
        false
    }

    /// Every row, in table order.
    pub fn get_users(&self) -> (r: Vec<User>)
        ensures
            r@.len() == self@.len(),
            forall|i: int| 0 <= i < r@.len() ==> r@[i]@ == self@[i],
    {
        let n = self.users.len();
        let mut r: Vec<User> = Vec::new();
        let mut k: usize = 0;
        while k < n
            invariant
                n == self.users.len(),
                k <= n,
                r@.len() == k,
                forall|j: int| 0 <= j < k ==> r@[j]@ == self@[j],
            decreases n - k,
        {
            let row = self.users[k].clone();
            r.push(row);
            k += 1;
        }
        r
    }

    /// Insert a freshly built row: the registration step after bcrypt and the
    /// id source have answered. Exactly the two uniqueness constraints can
    /// refuse it.
    pub fn apply_registration(
        &mut self,
        id: u128,
        name: String,
        phone: String,
        digest: String,
    ) -> (r: Result<User, RegisterError>)
        requires
            old(self).wf(),
            is_bcrypt_digest(digest@),
        ensures
            final(self).wf(),
            final(self).spec_cost() == old(self).spec_cost(),
            r == Err::<User, RegisterError>(RegisterError::IdTaken) <==> has_id(old(self)@, id),
            r == Err::<User, RegisterError>(RegisterError::DuplicatePhone) <==> (!has_id(
                old(self)@,
                id,
            ) && has_phone(old(self)@, phone@)),
            r is Ok <==> (!has_id(old(self)@, id) && !has_phone(old(self)@, phone@)),
            r matches Ok(u) ==> u@ == (UserView { id, name: name@, phone: phone@, password: digest@ })
                && final(self)@ == old(self)@.push(u@),
            r is Err ==> final(self)@ == old(self)@,
    {
        if self.find_index_by_id(id).is_some() {
            return Err(RegisterError::IdTaken);
        }
        if self.find_index_by_phone(&phone).is_some() {
            return Err(RegisterError::DuplicatePhone);
        }
        let row = User { id, name, phone, password: digest };
        let result = row.clone();
        let ghost pre = self@;
        let ghost v = row@;
        self.users.push(row);
        proof {
            assert(self@ =~= pre.push(v));
            assert forall|i: int, j: int|
                #![trigger self@[i].id, self@[j].id]
                0 <= i < j < self@.len() implies self@[i].id != self@[j].id by {
                if j < pre.len() as int {
                    assert(pre[i].id != pre[j].id);
                } else {
                    assert(!(pre[i].id == id));
                }
            }
            assert forall|i: int, j: int|
                #![trigger self@[i].phone, self@[j].phone]
                0 <= i < j < self@.len() implies self@[i].phone != self@[j].phone by {
                if j < pre.len() as int {
                    assert(pre[i].phone != pre[j].phone);
                } else {
                    assert(!(pre[i].phone == v.phone));
                }
            }
            assert(all_digests(self@));
        }
        Ok(result)
    }

    /// Register a user: hash the cleartext at the store's cost, draw a fresh
    /// id, insert the row, and return it.
    pub fn register_user(&mut self, form: &NewUser) -> (r: Result<User, RegisterError>)
        requires
            old(self).wf(),
        ensures
            final(self).wf(),
            final(self).spec_cost() == old(self).spec_cost(),
            r matches Ok(u) ==> {
                &&& u@.name == form.name@
                &&& u@.phone == form.phone@
                &&& is_bcrypt_digest(u@.password)
                &&& bcrypt_verify(form.password@, u@.password) == Some(true)
                &&& !has_id(old(self)@, u@.id)
                &&& !has_phone(old(self)@, form.phone@)
                &&& final(self)@ == old(self)@.push(u@)
            },
            r is Err ==> final(self)@ == old(self)@,
            has_phone(old(self)@, form.phone@) ==> r is Err,
            r == Err::<User, RegisterError>(RegisterError::DuplicatePhone) ==> has_phone(
                old(self)@,
                form.phone@,
            ),
            !(4 <= old(self).spec_cost() <= 31) ==> r == Err::<User, RegisterError>(
                RegisterError::HashFailure,
            ),
    {
        let digest = match hash_password(form.password.as_str(), self.cost) {
            None => {
                return Err(RegisterError::HashFailure);
            },
            Some(d) => d,
        };
        let id = fresh_id();
        self.apply_registration(id, form.name.clone(), form.phone.clone(), digest)
    }

    /// Authenticate: look the phone up, then verify the password against the
    /// stored digest. The result is exactly `login_outcome` on the table.
    pub fn login_user(&self, form: &LoginRequest) -> (r: Result<User, LoginError>)
        requires
            self.wf(),
        ensures
            match r {
                Ok(u) => login_outcome(self@, form.phone@, form.password@) == Ok::<
                    UserView,
                    LoginError,
                >(u@),
                Err(e) => login_outcome(self@, form.phone@, form.password@) == Err::<
                    UserView,
                    LoginError,
                >(e),
            },
    {
        match self.find_index_by_phone(&form.phone) {
            None => Err(LoginError::UserNotFound),
            Some(i) => {
                proof {
                    lemma_idx_of_phone(self@, form.phone@, i as int);
                }
                let row = &self.users[i];
                match verify_password(form.password.as_str(), row.password.as_str()) {
                    Some(true) => Ok(row.clone()),
                    Some(false) => Err(LoginError::InvalidPassword),
                    None => Err(LoginError::VerifyFailure),
                }
            },
        }
    }

    /// Update with already-resolved fields: the update step after bcrypt has
    /// answered. The result is exactly `apply_update_outcome` on the table.
    pub fn apply_update(
        &mut self,
        id: u128,
        name: Option<String>,
        phone: Option<String>,
        digest: Option<String>,
    ) -> (r: Result<(), UpdateError>)
        requires
            old(self).wf(),
            digest matches Some(d) ==> is_bcrypt_digest(d@),
        ensures
            final(self).wf(),
            final(self).spec_cost() == old(self).spec_cost(),
            match r {
                Ok(_) => apply_update_outcome(
                    old(self)@,
                    id,
                    name.deep_view(),
                    phone.deep_view(),
                    digest.deep_view(),
                ) == Ok::<Seq<UserView>, UpdateError>(final(self)@),
                Err(e) => apply_update_outcome(
                    old(self)@,
                    id,
                    name.deep_view(),
                    phone.deep_view(),
                    digest.deep_view(),
                ) == Err::<Seq<UserView>, UpdateError>(e) && final(self)@ == old(self)@,
            },
    {
        let i = match self.find_index_by_id(id) {
            None => {
                return Err(UpdateError::UserNotFound);
            },
            Some(i) => i,
        };
        proof {
            lemma_idx_of_id(self@, id, i as int);
        }
        if let Some(p) = &phone {
            if self.phone_conflict(p, id) {
                return Err(UpdateError::PhoneTaken);
            }
        }
        let name_new = match name {
            Some(n) => n,
            None => self.users[i].name.clone(),
        };
        let phone_new = match phone {
            Some(p) => p,
            None => self.users[i].phone.clone(),
        };
        let password_new = match digest {
            Some(d) => d,
            None => self.users[i].password.clone(),
        };
        let row = User { id, name: name_new, phone: phone_new, password: password_new };
        let ghost pre = self@;
        let ghost v = row@;
        self.users.remove(i);
        self.users.insert(i, row);
        proof {
            assert(self@ =~= pre.update(i as int, v));
            assert forall|a: int, b: int|
                #![trigger self@[a].id, self@[b].id]
                0 <= a < b < self@.len() implies self@[a].id != self@[b].id by {
                assert(pre[a].id != pre[b].id);
            }
            assert forall|a: int, b: int|
                #![trigger self@[a].phone, self@[b].phone]
                0 <= a < b < self@.len() implies self@[a].phone != self@[b].phone by {
                assert(pre[a].phone != pre[b].phone);
                if a == i as int {
                    assert(!(pre[b].phone == v.phone && pre[b].id != id));
                } else if b == i as int {
                    assert(!(pre[a].phone == v.phone && pre[a].id != id));
                }
            }
            assert forall|a: int| 0 <= a < self@.len() implies is_bcrypt_digest(
                #[trigger] self@[a].password,
            ) by {
                assert(is_bcrypt_digest(pre[a].password));
            }
            assert(apply_update_outcome(
                pre,
                id,
                name.deep_view(),
                phone.deep_view(),
                digest.deep_view(),
            ) == Ok::<Seq<UserView>, UpdateError>(self@));
        }
        Ok(())
    }

    /// Update a row: fetch by id, resolve each field (a supplied value wins,
    /// an omitted one keeps the stored value), hash a supplied password, and
    /// write the merged row back.
    pub fn update_user(&mut self, id: u128, form: &UpdateUser) -> (r: Result<(), UpdateError>)
        requires
            old(self).wf(),
        ensures
            final(self).wf(),
            final(self).spec_cost() == old(self).spec_cost(),
            r == Err::<(), UpdateError>(UpdateError::UserNotFound) <==> !has_id(old(self)@, id),
            r is Err ==> final(self)@ == old(self)@,
            r is Ok && form.password is None ==> apply_update_outcome(
                old(self)@,
                id,
                form.name.deep_view(),
                form.phone.deep_view(),
                None,
            ) == Ok::<Seq<UserView>, UpdateError>(final(self)@),
            form.password matches Some(pw) ==> r is Ok ==> exists|d: Seq<char>|
                is_bcrypt_digest(d) && bcrypt_verify(pw@, d) == Some(true) && apply_update_outcome(
                    old(self)@,
                    id,
                    form.name.deep_view(),
                    form.phone.deep_view(),
                    Some(d),
                ) == Ok::<Seq<UserView>, UpdateError>(final(self)@),
            r == Err::<(), UpdateError>(UpdateError::HashFailure) ==> has_id(old(self)@, id)
                && form.password is Some,
            r == Err::<(), UpdateError>(UpdateError::PhoneTaken) ==> has_id(old(self)@, id)
                && (form.phone matches Some(p) && phone_taken_by_other(old(self)@, p@, id)),
            has_id(old(self)@, id) && form.password is None && (form.phone matches Some(p)
                ==> !phone_taken_by_other(old(self)@, p@, id)) ==> r is Ok,
            has_id(old(self)@, id) && form.name is None && form.phone is None
                && form.password is None ==> r is Ok && final(self)@ == old(self)@,
            has_id(old(self)@, id) && form.password is Some && !(4 <= old(self).spec_cost() <= 31)
                ==> r == Err::<(), UpdateError>(UpdateError::HashFailure),
    {
        if self.find_index_by_id(id).is_none() {
            return Err(UpdateError::UserNotFound);
        }
        let digest: Option<String> = match &form.password {
            Some(pw) => match hash_password(pw.as_str(), self.cost) {
                None => {
                    return Err(UpdateError::HashFailure);
                },
                Some(d) => Some(d),
            },
            None => None,
        };
        let name: Option<String> = match &form.name {
            Some(n) => Some(n.clone()),
            None => None,
        };
        let phone: Option<String> = match &form.phone {
            Some(p) => Some(p.clone()),
            None => None,
        };
        let r = self.apply_update(id, name, phone, digest);
        proof {
            if r is Ok && form.name is None && form.phone is None && form.password is None {
                let i = idx_of_id(old(self)@, id);
                assert(merged_row(old(self)@[i], None, None, None) == old(self)@[i]);
                assert(old(self)@.update(i, old(self)@[i]) =~= old(self)@);
            }
        }
        r
    }

    /// Delete the row bound to the id; deleting an absent id leaves the table
    /// unchanged, and the call succeeds either way.
    pub fn delete_user(&mut self, id: u128)
        requires
            old(self).wf(),
        ensures
            final(self).wf(),
            final(self).spec_cost() == old(self).spec_cost(),
            final(self)@ == delete_outcome(old(self)@, id),
            !has_id(final(self)@, id),
    {
        let idx = self.find_index_by_id(id);
        match idx {
            None => {
                proof {
                    assert(self@ == delete_outcome(old(self)@, id));
                }
            },
            Some(i) => {
                proof {
                    lemma_idx_of_id(self@, id, i as int);
                }
                let ghost pre = self@;
                self.users.remove(i);
                proof {
                    assert(self@ =~= pre.remove(i as int));
                    assert forall|a: int, b: int|
                        #![trigger self@[a].id, self@[b].id]
                        0 <= a < b < self@.len() implies self@[a].id != self@[b].id by {
                        let a0 = if a < i as int { a } else { a + 1 };
                        let b0 = if b < i as int { b } else { b + 1 };
                        assert(pre[a0].id != pre[b0].id);
                    }
                    assert forall|a: int, b: int|
                        #![trigger self@[a].phone, self@[b].phone]
                        0 <= a < b < self@.len() implies self@[a].phone != self@[b].phone by {
                        let a0 = if a < i as int { a } else { a + 1 };
                        let b0 = if b < i as int { b } else { b + 1 };
                        assert(pre[a0].phone != pre[b0].phone);
                    }
                    assert forall|a: int| 0 <= a < self@.len() implies is_bcrypt_digest(
                        #[trigger] self@[a].password,
                    ) by {
                        let a0 = if a < i as int { a } else { a + 1 };
                        assert(is_bcrypt_digest(pre[a0].password));
                    }
                    assert forall|a: int| 0 <= a < self@.len() implies #[trigger] self@[a].id != id by {
                        let a0 = if a < i as int { a } else { a + 1 };
                        if a0 != i as int {
                            if a0 < i as int {
                                assert(pre[a0].id != pre[i as int].id);
                            } else {
                                assert(pre[i as int].id != pre[a0].id);
                            }
                        }
                    }
                }
            },
        }
    }
}

} // verus!

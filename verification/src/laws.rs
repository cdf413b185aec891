//! The library's laws: how the operations relate across calls.

use vstd::prelude::*;

use crate::hashing::{bcrypt_verify, is_bcrypt_digest};
use crate::store::{
    apply_update_outcome, delete_outcome, has_id, has_phone, idx_of_id, idx_of_phone,
    login_outcome, merged_row, phone_taken_by_other, unique_ids, LoginError, UpdateError,
};
use crate::user_model::UserView;

verus! {

/// A registered user can then log in: on a table extended with a row whose
/// phone was free and whose digest verifies the original cleartext, login
/// with that phone and cleartext answers exactly that row.
pub proof fn lemma_register_enables_login(s: Seq<UserView>, u: UserView, password: Seq<char>)
    ensures
        (!has_phone(s, u.phone) && bcrypt_verify(password, u.password) == Some(true))
            ==> login_outcome(s.push(u), u.phone, password) == Ok::<UserView, LoginError>(u),
{
    if !has_phone(s, u.phone) && bcrypt_verify(password, u.password) == Some(true) {
        let t = s.push(u);
        assert(t[s.len() as int] == u);
        assert(has_phone(t, u.phone));
        let c = idx_of_phone(t, u.phone);
        assert(0 <= c < t.len() && t[c].phone == u.phone);
        if c < s.len() {
            assert(s[c].phone == u.phone);
            assert(has_phone(s, u.phone));
        }
        assert(t[c] == u);
    }
}

/// A password that does not verify against the stored digest is rejected
/// with an invalid-password answer.
pub proof fn lemma_wrong_password_rejected(s: Seq<UserView>, phone: Seq<char>, attempt: Seq<char>)
    ensures
        (has_phone(s, phone) && bcrypt_verify(attempt, s[idx_of_phone(s, phone)].password)
            == Some(false)) ==> login_outcome(s, phone, attempt) == Err::<UserView, LoginError>(
            LoginError::InvalidPassword,
        ),
{
}

/// A phone no row holds is rejected with a not-found answer.
pub proof fn lemma_unknown_phone_not_found(s: Seq<UserView>, phone: Seq<char>, password: Seq<char>)
    ensures
        !has_phone(s, phone) ==> login_outcome(s, phone, password) == Err::<UserView, LoginError>(
            LoginError::UserNotFound,
        ),
{
}

/// A stored digest never equals a cleartext, for any cleartext that is not
/// itself shaped like a bcrypt digest.
pub proof fn lemma_digest_is_not_cleartext(digest: Seq<char>, cleartext: Seq<char>)
    ensures
        (is_bcrypt_digest(digest) && !is_bcrypt_digest(cleartext)) ==> digest != cleartext,
{
}

/// The table after a run of successful registrations, each appending the row
/// it returned.
pub open spec fn register_trace(s: Seq<UserView>, added: Seq<UserView>) -> Seq<UserView>
    decreases added.len(),
{
    if added.len() == 0 {
        s
    } else {
        register_trace(s.push(added[0]), added.skip(1))
    }
}

/// Listing after a run of registrations: as many new rows as registrations,
/// the prior rows untouched, and the new rows — ids included — in order.
pub proof fn lemma_listing_after_registrations(s: Seq<UserView>, added: Seq<UserView>)
    ensures
        register_trace(s, added).len() == s.len() + added.len(),
        forall|i: int| 0 <= i < s.len() ==> #[trigger] register_trace(s, added)[i] == s[i],
        forall|i: int|
            0 <= i < added.len() ==> #[trigger] register_trace(s, added)[s.len() + i] == added[i],
    decreases added.len(),
{
    if added.len() == 0 {
    } else {
        let s1 = s.push(added[0]);
        let rest = added.skip(1);
        lemma_listing_after_registrations(s1, rest);
        assert forall|i: int| 0 <= i < s.len() implies #[trigger] register_trace(s, added)[i]
            == s[i] by {
            assert(register_trace(s, added)[i] == s1[i]);
        }
        assert forall|i: int| 0 <= i < added.len() implies #[trigger] register_trace(s, added)[s.len()
            + i] == added[i] by {
            if i == 0 {
                assert(register_trace(s, added)[s1.len() - 1] == s1[s1.len() - 1]);
            } else {
                assert(register_trace(s1, rest)[s1.len() + (i - 1)] == rest[i - 1]);
                assert(rest[i - 1] == added[i]);
            }
        }
    }
}

/// Deletion removes the id for good, so a repeated deletion changes nothing:
/// from the caller it cannot be told from the first, and both succeed.
pub proof fn lemma_delete_idempotent(s: Seq<UserView>, id: u128)
    requires
        unique_ids(s),
    ensures
        !has_id(delete_outcome(s, id), id),
        delete_outcome(delete_outcome(s, id), id) == delete_outcome(s, id),
{
    if has_id(s, id) {
        let i = idx_of_id(s, id);
        assert(0 <= i < s.len() && s[i].id == id);
        let t = s.remove(i);
        assert forall|a: int| 0 <= a < t.len() implies #[trigger] t[a].id != id by {
            let a0 = if a < i {
                a
            } else {
                a + 1
            };
            assert(t[a] == s[a0]);
            if a0 < i {
                assert(s[a0].id != s[i].id);
            } else {
                assert(s[i].id != s[a0].id);
            }
        }
        assert(!has_id(t, id));
    }
}

/// An update that supplies no field leaves the table bit-identical.
pub proof fn lemma_empty_update_identity(s: Seq<UserView>, id: u128)
    requires
        unique_ids(s),
    ensures
        has_id(s, id) ==> apply_update_outcome(s, id, None, None, None) == Ok::<
            Seq<UserView>,
            UpdateError,
        >(s),
{
    if has_id(s, id) {
        let i = idx_of_id(s, id);
        assert(0 <= i < s.len() && s[i].id == id);
        assert(merged_row(s[i], None, None, None) == s[i]);
        assert(s.update(i, s[i]) =~= s);
    }
}

/// An update that supplies exactly one field changes exactly that column of
/// exactly the addressed row.
pub proof fn lemma_single_field_update(s: Seq<UserView>, id: u128, value: Seq<char>)
    requires
        unique_ids(s),
        has_id(s, id),
    ensures
        apply_update_outcome(s, id, Some(value), None, None) == Ok::<Seq<UserView>, UpdateError>(
            s.update(idx_of_id(s, id), (UserView { name: value, ..s[idx_of_id(s, id)] })),
        ),
        !phone_taken_by_other(s, value, id) ==> apply_update_outcome(s, id, None, Some(value), None)
            == Ok::<Seq<UserView>, UpdateError>(
            s.update(idx_of_id(s, id), (UserView { phone: value, ..s[idx_of_id(s, id)] })),
        ),
        apply_update_outcome(s, id, None, None, Some(value)) == Ok::<Seq<UserView>, UpdateError>(
            s.update(idx_of_id(s, id), (UserView { password: value, ..s[idx_of_id(s, id)] })),
        ),
{
    let i = idx_of_id(s, id);
    assert(0 <= i < s.len() && s[i].id == id);
    assert(merged_row(s[i], Some(value), None, None) == (UserView { name: value, ..s[i] }));
    assert(merged_row(s[i], None, Some(value), None) == (UserView { phone: value, ..s[i] }));
    assert(merged_row(s[i], None, None, Some(value)) == (UserView { password: value, ..s[i] }));
}

/// An update addressed to an id no row holds is rejected with a not-found
/// answer — and only then.
pub proof fn lemma_unknown_id_rejected(
    s: Seq<UserView>,
    id: u128,
    name: Option<Seq<char>>,
    phone: Option<Seq<char>>,
    password: Option<Seq<char>>,
)
    ensures
        !has_id(s, id) <==> apply_update_outcome(s, id, name, phone, password) == Err::<
            Seq<UserView>,
            UpdateError,
        >(UpdateError::UserNotFound),
{
}

} // verus!

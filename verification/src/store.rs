//! An account store with a uniqueness-checked insert.
//!
//! This is the table the orchestrator registers accounts into: rows are
//! `User` records, usernames are unique, and identifiers are assigned
//! by the store itself and never reused. A deployment backs it with a
//! relational table; the model here carries the behaviour the
//! orchestrator relies on — in particular that an insert for a username
//! that is already present is rejected and changes nothing.

use vstd::prelude::*;
use vstd::string::StrSliceExecFns;

use crate::account::{NewUser, User};

verus! {

/// Why an insert was rejected.
#[derive(Clone, Copy, Debug, PartialEq, Eq, Structural)]
pub enum StoreError {
    /// A row with this username already exists.
    DuplicateUsername,
    /// The store cannot assign a fresh identifier.
    Full,
}

/// How many rows of `s` carry the username `name`.
pub open spec fn count_matching(s: Seq<User>, name: Seq<char>) -> nat
    decreases s.len(),
{
    if s.len() == 0 {
        0
    } else {
        count_matching(s.drop_last(), name) + (if s.last().username@ == name {
            1nat
        } else {
            0nat
        })
    }
}

/// Some row of `s` carries the username `name`.
pub open spec fn has_username(s: Seq<User>, name: Seq<char>) -> bool {
    exists|i: int| 0 <= i < s.len() && s[i].username@ == name
}

/// No two rows of `s` carry the same username.
pub open spec fn usernames_unique(s: Seq<User>) -> bool {
    forall|i: int, j: int|
        0 <= i < j < s.len() ==> s[i].username@ != s[j].username@
}

/// Character-for-character string equality.
pub fn str_eq(a: &str, b: &str) -> (r: bool)
    ensures
        r == (a@ == b@),
{
    let n = a.unicode_len();
    let m = b.unicode_len();
    if n != m {
        return false;
    }
    let mut i: usize = 0;
    while i < n
        invariant
            i <= n,
            n == a@.len(),
            n == b@.len(),
            forall|k: int| 0 <= k < i ==> a@[k] == b@[k],
        decreases n - i,
    {
        if a.get_char(i) != b.get_char(i) {
            return false;
        }
        i = i + 1;
    }
    proof {
        assert(a@ =~= b@);
    }
    true
}

/// The durable table of accounts.
///
/// Its view is the sequence of rows in insertion order. The
/// well-formedness invariant `wf` holds after construction and is
/// preserved by every operation.
pub struct AccountStore {
    accounts: Vec<User>,
    next_id: i32,
}

impl View for AccountStore {
    type V = Seq<User>;

    closed spec fn view(&self) -> Seq<User> {
        self.accounts@
    }
}

impl AccountStore {
    /// The identifier the next successful insert will be assigned.
    pub closed spec fn next_id_spec(&self) -> int {
        self.next_id as int
    }

    /// Store invariant: usernames unique, identifiers unique, positive
    /// and below the next free one, every row's coordinate pair whole.
    pub open spec fn wf(&self) -> bool {
        &&& usernames_unique(self@)
        &&& (forall|i: int|
            0 <= i < self@.len() ==> (#[trigger] self@[i]).wf() && 0 < self@[i].id
                < self.next_id_spec())
        &&& (forall|i: int, j: int|
            0 <= i < j < self@.len() ==> (#[trigger] self@[i]).id != (#[trigger] self@[j]).id)
        &&& 1 <= self.next_id_spec() <= i32::MAX
    }

    /// An empty store.
    pub fn new() -> (s: Self)
        ensures
            s.wf(),
            s@ =~= Seq::<User>::empty(),
            s.next_id_spec() == 1,
    {
        AccountStore { accounts: Vec::new(), next_id: 1 }
    }

    /// The number of rows currently in the store.
    pub fn len(&self) -> (n: usize)
        ensures
            n == self@.len(),
    {
        self.accounts.len()
    }

    /// A borrow of the row at `i`, in insertion order.
    pub fn row(&self, i: usize) -> (u: &User)
        requires
            i < self@.len(),
        ensures
            *u == self@[i as int],
    {
        &self.accounts[i]
    }

    /// Whether some row carries `username`.
    pub fn contains_username(&self, username: &str) -> (b: bool)
        ensures
            b == has_username(self@, username@),
    {
        let n = self.accounts.len();
        let mut i: usize = 0;
        while i < n
            invariant
                i <= n,
                n == self@.len(),
                forall|k: int| 0 <= k < i ==> self@[k].username@ != username@,
            decreases n - i,
        {
            if str_eq(self.accounts[i].username.as_str(), username) {
                return true;
            }
            i = i + 1;
        }
        false
    }

    /// The store's count-by-username query.
    pub fn count_username(&self, username: &str) -> (n: u64)
        ensures
            n == count_matching(self@, username@),
    {
        let len = self.accounts.len();
        let mut n: u64 = 0;
        let mut i: usize = 0;
        while i < len
            invariant
                i <= len,
                len == self@.len(),
                n == count_matching(self@.take(i as int), username@),
                n <= i,
            decreases len - i,
        {
            proof {
                assert(self@.take(i + 1).drop_last() =~= self@.take(i as int));
                assert(self@.take(i + 1).last() == self@[i as int]);
            }
            if str_eq(self.accounts[i].username.as_str(), username) {
                n = n + 1;
            }
            i = i + 1;
        }
        proof {
            assert(self@.take(len as int) =~= self@);
        }
        n
    }

    /// Uniqueness-checked insert: the single commit point of a
    /// registration. A duplicate username is rejected and the store is
    /// left unchanged; otherwise the row is appended with a fresh
    /// identifier and no other row moves.
    pub fn insert_account(&mut self, new_user: NewUser) -> (r: Result<i32, StoreError>)
        requires
            old(self).wf(),
            new_user.wf(),
        ensures
            final(self).wf(),
            has_username(old(self)@, new_user.username@) ==> r == Err::<i32, StoreError>(
                StoreError::DuplicateUsername,
            ) && final(self)@ == old(self)@ && final(self).next_id_spec() == old(self).next_id_spec(),
            (!has_username(old(self)@, new_user.username@) && old(self).next_id_spec()
                == i32::MAX) ==> r == Err::<i32, StoreError>(StoreError::Full) && final(self)@ == old(
                self,
            )@ && final(self).next_id_spec() == old(self).next_id_spec(),
            (!has_username(old(self)@, new_user.username@) && old(self).next_id_spec()
                < i32::MAX) ==> r == Ok::<i32, StoreError>(old(self).next_id_spec() as i32)
                && final(self).next_id_spec() == old(self).next_id_spec() + 1 && final(self)@ =~= old(
                self,
            )@.push(
                (User {
                    id: old(self).next_id_spec() as i32,
                    username: new_user.username,
                    password_hash: new_user.password_hash,
                    latitude: new_user.latitude,
                    longitude: new_user.longitude,
                    real_name: None,
                    bio: None,
                }),
            ),
    {
        if self.contains_username(new_user.username.as_str()) {
            return Err(StoreError::DuplicateUsername);
        }
        if self.next_id == i32::MAX {
            return Err(StoreError::Full);
        }
        let id = self.next_id;
        self.next_id = self.next_id + 1;
        let row = User {
            id,
            username: new_user.username,
            password_hash: new_user.password_hash,
            latitude: new_user.latitude,
            longitude: new_user.longitude,
            real_name: None,
            bio: None,
        };
        self.accounts.push(row);
        proof {
            assert forall|i: int, j: int| 0 <= i < j < self@.len() implies self@[i].username@
                != self@[j].username@ by {
                if j < self@.len() - 1 {
                    assert(old(self).wf());
                } else {
                    assert(!has_username(old(self)@, self@[j].username@));
                }
            }
            assert forall|i: int, j: int| 0 <= i < j < self@.len() implies self@[i].id
                != self@[j].id by {
                if j == self@.len() - 1 {
                    assert(old(self)@[i].id < old(self).next_id_spec());
                }
            }
        }
        Ok(id)
    }
}

/// No row of `s` carries `name`: the count is zero.
proof fn lemma_count_zero(s: Seq<User>, name: Seq<char>)
    requires
        forall|i: int| 0 <= i < s.len() ==> s[i].username@ != name,
    ensures
        count_matching(s, name) == 0,
    decreases s.len(),
{
    if s.len() > 0 {
        lemma_count_zero(s.drop_last(), name);
    }
}

/// The count-by-username query finds a row exactly when one is there.
pub proof fn lemma_count_positive(s: Seq<User>, name: Seq<char>)
    ensures
        count_matching(s, name) > 0 <==> has_username(s, name),
    decreases s.len(),
{
    if s.len() > 0 {
        lemma_count_positive(s.drop_last(), name);
        if s.last().username@ == name {
            assert(s[s.len() - 1].username@ == name);
        } else if has_username(s.drop_last(), name) {
            let i = choose|i: int| 0 <= i < s.drop_last().len() && s.drop_last()[i].username@
                == name;
            assert(s[i].username@ == name);
        } else if has_username(s, name) {
            let i = choose|i: int| 0 <= i < s.len() && s[i].username@ == name;
            assert(s.drop_last()[i].username@ == name);
        }
    }
}

/// However many registrations have run, and in whatever order, a store
/// that satisfies its invariant holds at most one row for any username.
pub proof fn lemma_at_most_one_row(store: AccountStore, name: Seq<char>)
    requires
        store.wf(),
    ensures
        count_matching(store@, name) <= 1,
{
    lemma_count_unique(store@, name);
}

/// Username uniqueness bounds every per-username count by one.
proof fn lemma_count_unique(s: Seq<User>, name: Seq<char>)
    requires
        usernames_unique(s),
    ensures
        count_matching(s, name) <= 1,
    decreases s.len(),
{
    if s.len() > 0 {
        assert(usernames_unique(s.drop_last()));
        lemma_count_unique(s.drop_last(), name);
        if s.last().username@ == name {
            assert(forall|i: int|
                0 <= i < s.len() - 1 ==> (#[trigger] s[i]).username@ != s[s.len()
                    - 1].username@);
            lemma_count_zero(s.drop_last(), name);
        }
    }
}

} // verus!

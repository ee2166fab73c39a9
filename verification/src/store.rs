//! The credential store: the table of accounts, looked up by e-mail address or by
//! identifier. Nothing here changes an account once it is in the table.

use crate::user::{User, UserView};
use vstd::prelude::*;

verus! {

/// Why a lookup gave no account.
#[derive(Clone, Copy, Debug, PartialEq, Eq, Structural)]
pub enum StoreError {
    /// No row matches.
    NotFound,
    /// The store could not be reached.
    Unavailable,
}

/// Whether row `i` has the e-mail address `email`.
pub open spec fn has_email(rows: Seq<UserView>, email: Seq<char>, i: int) -> bool {
    0 <= i < rows.len() && rows[i].email == email
}

/// Whether row `i` has the identifier `id`.
pub open spec fn has_id(rows: Seq<UserView>, id: i64, i: int) -> bool {
    0 <= i < rows.len() && rows[i].id == id
}

/// No two rows share an identifier or an e-mail address.
pub open spec fn keys_unique(rows: Seq<UserView>) -> bool {
    forall|i: int, j: int|
        0 <= i < j < rows.len() ==> (#[trigger] rows[i]).id != (#[trigger] rows[j]).id
            && rows[i].email != rows[j].email
}

/// The account with the e-mail address `email`.
pub open spec fn by_email(rows: Seq<UserView>, email: Seq<char>) -> Result<UserView, StoreError> {
    if exists|i: int| has_email(rows, email, i) {
        Ok(rows[choose|i: int| has_email(rows, email, i)])
    } else {
        Err(StoreError::NotFound)
    }
}

/// The account with the identifier `id`.
pub open spec fn by_id(rows: Seq<UserView>, id: i64) -> Result<UserView, StoreError> {
    if exists|i: int| has_id(rows, id, i) {
        Ok(rows[choose|i: int| has_id(rows, id, i)])
    } else {
        Err(StoreError::NotFound)
    }
}

/// In a table with unique keys, the row that has an e-mail address is the one found by it.
pub proof fn lemma_by_email(rows: Seq<UserView>, email: Seq<char>, i: int)
    requires
        keys_unique(rows),
        has_email(rows, email, i),
    ensures
        by_email(rows, email) == Ok::<UserView, StoreError>(rows[i]),
{
    let j = choose|j: int| has_email(rows, email, j);
    if i < j {
        assert(rows[i].email != rows[j].email);
    } else if j < i {
        assert(rows[j].email != rows[i].email);
    }
}

/// In a table with unique keys, the row that has an identifier is the one found by it.
pub proof fn lemma_by_id(rows: Seq<UserView>, id: i64, i: int)
    requires
        keys_unique(rows),
        has_id(rows, id, i),
    ensures
        by_id(rows, id) == Ok::<UserView, StoreError>(rows[i]),
{
    let j = choose|j: int| has_id(rows, id, j);
    if i < j {
        assert(rows[i].id != rows[j].id);
    } else if j < i {
        assert(rows[j].id != rows[i].id);
    }
}

/// The relation between what a lookup handed back and what the table holds.
pub open spec fn same_outcome(got: Result<User, StoreError>, want: Result<UserView, StoreError>) -> bool {
    match got {
        Ok(user) => want == Ok::<UserView, StoreError>(user@),
        Err(e) => want == Err::<UserView, StoreError>(e),
    }
}

/// A table of accounts held in memory.
pub struct UserTable {
    rows: Vec<User>,
}

impl View for UserTable {
    type V = Seq<UserView>;

    closed spec fn view(&self) -> Seq<UserView> {
        Seq::new(self.rows@.len(), |i: int| self.rows@[i]@)
    }
}

impl UserTable {
    /// The table's invariant: its keys are unique.
    pub open spec fn wf(&self) -> bool {
        keys_unique(self@)
    }

    /// An empty table.
    pub fn new() -> (table: Self)
        ensures
            table.wf(),
            table@ == Seq::<UserView>::empty(),
    {
        let table = UserTable { rows: Vec::new() };
        assert(table@ =~= Seq::<UserView>::empty());
        table
    }

    /// How many accounts the table holds.
    pub fn len(&self) -> (count: usize)
        ensures
            count == self@.len(),
    {
        self.rows.len()
    }

    /// The row with the e-mail address `email`, if there is one.
    fn position_of_email(&self, email: &String) -> (at: Option<usize>)
        ensures
            match at {
                Some(i) => has_email(self@, email@, i as int),
                None => forall|i: int| !has_email(self@, email@, i),
            },
    {
        let mut i: usize = 0;
        while i < self.rows.len()
            invariant
                i <= self.rows.len(),
                forall|j: int| 0 <= j < i ==> !has_email(self@, email@, j),
            decreases self.rows.len() - i,
        {
            if self.rows[i].email == *email {
                return Some(i);
            }
            i += 1;
        }
        None
    }

    /// The row with the identifier `id`, if there is one.
    fn position_of_id(&self, id: i64) -> (at: Option<usize>)
        ensures
            match at {
                Some(i) => has_id(self@, id, i as int),
                None => forall|i: int| !has_id(self@, id, i),
            },
    {
        let mut i: usize = 0;
        while i < self.rows.len()
            invariant
                i <= self.rows.len(),
                forall|j: int| 0 <= j < i ==> !has_id(self@, id, j),
            decreases self.rows.len() - i,
        {
            if self.rows[i].id == id {
                return Some(i);
            }
            i += 1;
        }
        None
    }

    /// Looks an account up by its e-mail address.
    pub fn find_by_email(&self, email: &String) -> (found: Result<User, StoreError>)
        requires
            self.wf(),
        ensures
            same_outcome(found, by_email(self@, email@)),
    {
        match self.position_of_email(email) {
            Some(i) => {
                proof {
                    lemma_by_email(self@, email@, i as int);
                }
                Ok(self.rows[i].clone())
            },
            None => Err(StoreError::NotFound),
        }
    }

    /// Looks an account up by its identifier.
    pub fn find_by_id(&self, id: i64) -> (found: Result<User, StoreError>)
        requires
            self.wf(),
        ensures
            same_outcome(found, by_id(self@, id)),
    {
        match self.position_of_id(id) {
            Some(i) => {
                proof {
                    lemma_by_id(self@, id, i as int);
                }
                Ok(self.rows[i].clone())
            },
            None => Err(StoreError::NotFound),
        }
    }

    /// Adds an account, unless its identifier or its e-mail address is taken: the
    /// table is then left as it was. Returns whether the account was added.
    pub fn insert(&mut self, user: User) -> (added: bool)
        requires
            old(self).wf(),
        ensures
            final(self).wf(),
            added == (by_id(old(self)@, user.id).is_err() && by_email(
                old(self)@,
                user.email@,
            ).is_err()),
            added ==> final(self)@ == old(self)@.push(user@),
            !added ==> final(self)@ == old(self)@,
    {
        if self.position_of_id(user.id).is_some() || self.position_of_email(&user.email).is_some() {
            return false;
        }
        let ghost before = self@;
        self.rows.push(user);
        assert(self@ =~= before.push(user@));
        assert forall|i: int, j: int| 0 <= i < j < self@.len() implies (#[trigger] self@[i]).id != (
        #[trigger] self@[j]).id && self@[i].email != self@[j].email by {
            if j == before.len() {
                assert(!has_id(before, user.id, i));
                assert(!has_email(before, user.email@, i));
            } else {
                assert(self@[i] == before[i] && self@[j] == before[j]);
            }
        }
        true
    }
}

} // verus!

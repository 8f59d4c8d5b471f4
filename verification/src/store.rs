//! The store: every record of the directory, found by its identifier.
//!
//! A store is viewed as a finite map from identifiers to records. Records are
//! added and never changed or removed.

use crate::user::next_id;
use crate::user::record_of;
use crate::user::valid_record;
use crate::user::NewUser;
use crate::user::User;
use crate::user::UserId;
use crate::user::UserView;
use std::collections::HashMap;
use vstd::prelude::*;
use vstd::seq_lib::to_multiset_contains;
use vstd::std_specs::iter::IteratorSpec;

verus! {

/// What holds of the view of every store: it is finite, each record is filed
/// under its own identifier, and each record is valid.
pub open spec fn well_formed(records: Map<u128, UserView>) -> bool {
    &&& records.dom().finite()
    &&& forall|id: u128| #[trigger]
        records.contains_key(id) ==> records[id].id == id && valid_record(records[id])
}

/// The views of a list of records.
pub open spec fn record_views(users: Seq<User>) -> Seq<UserView> {
    Seq::new(users.len(), |i: int| users[i]@)
}

/// `list` holds each record of `records` exactly once, in some order.
pub open spec fn is_listing(list: Seq<UserView>, records: Map<u128, UserView>) -> bool {
    &&& list.len() == records.len()
    &&& list.no_duplicates()
    &&& list.to_set() == records.values()
}

/// The users of the directory.
pub struct UserStore {
    users: HashMap<u128, User>,
}

impl View for UserStore {
    type V = Map<u128, UserView>;

    closed spec fn view(&self) -> Map<u128, UserView> {
        self.users@.map_values(|user: User| user@)
    }
}

impl UserStore {
    #[verifier::type_invariant]
    spec fn holds_well_formed_records(self) -> bool {
        well_formed(self@)
    }

    /// A store without records.
    pub fn new() -> (store: UserStore)
        ensures
            store@ == Map::<u128, UserView>::empty(),
            well_formed(store@),
    {
        let users: HashMap<u128, User> = HashMap::new();
        assert(users@.map_values(|user: User| user@) =~= Map::<u128, UserView>::empty());
        UserStore { users }
    }

    /// Files `user` under its identifier. A record that was filed under the
    /// same identifier before is replaced.
    pub fn insert(&mut self, user: User)
        ensures
            final(self)@ == old(self)@.insert(user@.id, user@),
            final(self)@.len() == old(self)@.len() + if old(self)@.contains_key(user@.id) {
                0nat
            } else {
                1nat
            },
            well_formed(final(self)@),
    {
        proof {
            use_type_invariant(&*self);
            use_type_invariant(&user);
        }
        let key = user.id().0;
        // The map leaves the store while it changes, so that the store is
        // well formed at every step.
        let mut users: HashMap<u128, User> = HashMap::new();
        assert(users@.map_values(|user: User| user@) =~= Map::<u128, UserView>::empty());
        std::mem::swap(&mut self.users, &mut users);
        users.insert(key, user);
        assert(users@.map_values(|user: User| user@) =~= old(self)@.insert(user@.id, user@));
        std::mem::swap(&mut self.users, &mut users);
        proof {
            if old(self)@.contains_key(user@.id) {
                assert(self@.dom() =~= old(self)@.dom());
            }
        }
    }

    /// Makes the record of a checked request under `id`, files it, and returns
    /// a copy of it.
    pub fn create_with_id(&mut self, id: UserId, new_user: NewUser) -> (user: User)
        ensures
            user@ == record_of(id.0, new_user@),
            final(self)@ == old(self)@.insert(id.0, user@),
            well_formed(final(self)@),
    {
        let user = User::new(id, new_user);
        let copy = user.clone();
        self.insert(user);
        copy
    }

    /// Files the record of a checked request under a fresh identifier, and
    /// returns a copy of it.
    pub fn create(&mut self, new_user: NewUser) -> (user: User)
        ensures
            user@ == record_of(user@.id, new_user@),
            final(self)@ == old(self)@.insert(user@.id, user@),
            well_formed(final(self)@),
    {
        self.create_with_id(next_id(), new_user)
    }

    /// A copy of the record filed under `id`, if there is one.
    pub fn get(&self, id: UserId) -> (found: Option<User>)
        ensures
            match found {
                Some(user) => self@.contains_key(id.0) && user@ == self@[id.0],
                None => !self@.contains_key(id.0),
            },
            well_formed(self@),
    {
        proof {
            use_type_invariant(self);
        }
        match self.users.get(&id.0) {
            Some(user) => Some(user.clone()),
            None => None,
        }
    }

    /// A copy of every record, each once, in no particular order.
    pub fn list_all(&self) -> (all: Vec<User>)
        ensures
            is_listing(record_views(all@), self@),
            well_formed(self@),
    {
        proof {
            use_type_invariant(self);
        }
        let mut all: Vec<User> = Vec::new();
        let ghost entries = self.users.iter().remaining();
        for entry in it: self.users.iter()
            invariant
                it.seq() == entries,
                all.len() == it.index(),
                forall|i: int| 0 <= i < all.len() ==> all[i]@ == (*entries[i].1)@,
        {
            all.push(entry.1.clone());
        }
        proof {
            let list = record_views(all@);
            let records = self@;
            vstd::std_specs::hash::axiom_spec_hash_map_iter(&self.users);
            assert(records.dom() =~= self.users@.dom());
            assert forall|i: int| 0 <= i < list.len() implies records.contains_key(
                *entries[i].0,
            ) && #[trigger] list[i] == records[*entries[i].0] && list[i].id == *entries[i].0 by {
                assert(self.users@.contains_key(*entries[i].0));
            }
            assert forall|i: int, j: int| 0 <= i < list.len() && 0 <= j < list.len() && i != j
                implies list[i] != list[j] by {
                if list[i] == list[j] {
                    assert(*entries[i].0 == *entries[j].0);
                    assert(entries[i] == entries[j]);
                }
            }
            assert forall|record: UserView| list.to_set().contains(record) <==> records.values()
                .contains(record) by {
                if list.to_set().contains(record) {
                    let i = choose|i: int| 0 <= i < list.len() && list[i] == record;
                    assert(records.contains_key(*entries[i].0));
                }
                if records.values().contains(record) {
                    let id = choose|id: u128| records.contains_key(id) && records[id] == record;
                    assert(self.users@.contains_key(id));
                    assert(entries.contains((&id, &self.users@[id])));
                    let i = choose|i: int|
                        0 <= i < entries.len() && entries[i] == (&id, &self.users@[id]);
                    assert(list[i] == record);
                }
            }
            assert(list.to_set() =~= records.values());
        }
        all
    }

    /// The number of records.
    pub fn count(&self) -> (count: usize)
        ensures
            count == self@.len(),
            well_formed(self@),
    {
        proof {
            use_type_invariant(self);
            assert(self@.dom() =~= self.users@.dom());
        }
        self.users.len()
    }
}

/// The records after each of `users` was inserted in turn, starting from
/// `records`.
pub open spec fn after_inserts(records: Map<u128, UserView>, users: Seq<UserView>) -> Map<
    u128,
    UserView,
>
    decreases users.len(),
{
    if users.len() == 0 {
        records
    } else {
        after_inserts(records, users.drop_last()).insert(users.last().id, users.last())
    }
}

/// The identifiers that occur in `users`.
pub open spec fn ids_of(users: Seq<UserView>) -> Set<u128> {
    Set::new(|id: u128| exists|i: int| 0 <= i < users.len() && #[trigger] users[i].id == id)
}

/// The identifiers in the store after a run of inserts are those that were
/// there before and those that were inserted.
pub proof fn lemma_ids_after_inserts(records: Map<u128, UserView>, users: Seq<UserView>)
    ensures
        after_inserts(records, users).dom() == records.dom().union(ids_of(users)),
    decreases users.len(),
{
    let after = after_inserts(records, users);
    if users.len() == 0 {
        assert(after.dom() =~= records.dom().union(ids_of(users)));
    } else {
        let before = users.drop_last();
        lemma_ids_after_inserts(records, before);
        assert forall|id: u128| ids_of(users).contains(id) <==> ids_of(before).contains(id) || id
            == users.last().id by {
            if ids_of(users).contains(id) {
                let i = choose|i: int| 0 <= i < users.len() && users[i].id == id;
                if i < before.len() {
                    assert(before[i].id == id);
                }
            }
            if ids_of(before).contains(id) {
                let i = choose|i: int| 0 <= i < before.len() && before[i].id == id;
                assert(users[i].id == id);
            }
            if id == users.last().id {
                assert(users[users.len() - 1].id == id);
            }
        }
        assert(after.dom() =~= records.dom().union(ids_of(users)));
    }
}

/// The count of a store that started empty is the number of distinct
/// identifiers that were inserted, however often and in whatever order each
/// was inserted.
pub proof fn lemma_count_is_distinct_ids(users: Seq<UserView>)
    ensures
        after_inserts(Map::empty(), users).dom() == ids_of(users),
        after_inserts(Map::empty(), users).len() == ids_of(users).len(),
{
    lemma_ids_after_inserts(Map::empty(), users);
    assert(Map::<u128, UserView>::empty().dom().union(ids_of(users)) =~= ids_of(users));
}

/// Two runs of inserts that hold the same records, in any two orders, leave
/// stores of the same count.
pub proof fn lemma_count_ignores_order(first: Seq<UserView>, second: Seq<UserView>)
    requires
        first.to_multiset() == second.to_multiset(),
    ensures
        after_inserts(Map::empty(), first).len() == after_inserts(Map::empty(), second).len(),
{
    lemma_count_is_distinct_ids(first);
    lemma_count_is_distinct_ids(second);
    assert forall|id: u128| ids_of(first).contains(id) implies ids_of(second).contains(id) by {
        let i = choose|i: int| 0 <= i < first.len() && first[i].id == id;
        assert(first.contains(first[i]));
        to_multiset_contains(first, first[i]);
        to_multiset_contains(second, first[i]);
        let j = choose|j: int| 0 <= j < second.len() && second[j] == first[i];
        assert(second[j].id == id);
    }
    assert forall|id: u128| ids_of(second).contains(id) implies ids_of(first).contains(id) by {
        let i = choose|i: int| 0 <= i < second.len() && second[i].id == id;
        assert(second.contains(second[i]));
        to_multiset_contains(second, second[i]);
        to_multiset_contains(first, second[i]);
        let j = choose|j: int| 0 <= j < first.len() && first[j] == second[i];
        assert(first[j].id == id);
    }
    assert(ids_of(first) =~= ids_of(second));
}

/// An identifier that was never inserted is not found.
pub proof fn lemma_never_inserted_is_absent(users: Seq<UserView>, id: u128)
    requires
        forall|i: int| 0 <= i < users.len() ==> (#[trigger] users[i]).id != id,
    ensures
        !after_inserts(Map::empty(), users).contains_key(id),
{
    lemma_count_is_distinct_ids(users);
}

/// Inserting records that are valid, each under its own identifier, keeps a
/// store well formed.
pub proof fn lemma_inserts_keep_well_formed(records: Map<u128, UserView>, users: Seq<UserView>)
    requires
        well_formed(records),
        forall|i: int| 0 <= i < users.len() ==> valid_record(#[trigger] users[i]),
    ensures
        well_formed(after_inserts(records, users)),
    decreases users.len(),
{
    if users.len() > 0 {
        lemma_inserts_keep_well_formed(records, users.drop_last());
    }
}

} // verus!

use vstd::prelude::*;

use std::sync::Arc;

use vstd::rwlock::RwLock;
use vstd::rwlock::RwLockPredicate;

use crate::database::Database;
use crate::model::Post;

verus! {

/// The predicate the shared store's lock maintains. Any store contents
/// are allowed: the store itself has no invariant to keep, so the lock
/// serves purely for mutual exclusion.
pub struct StorePred;

impl RwLockPredicate<Database> for StorePred {
    open spec fn inv(self, v: Database) -> bool {
        true
    }
}

/// The store behind the process-wide lock, as each handler holds it.
/// Inserting takes the write lock; the feed and lookup operations read
/// under a read lock, so every store operation appears atomic to other
/// callers.
pub type SharedDatabase = Arc<RwLock<Database, StorePred>>;

/// Wraps a store in a new shared lock.
pub fn share_database(database: Database) -> (r: SharedDatabase) {
    Arc::new(RwLock::new(database, Ghost(StorePred)))
}

/// Relies on std::sync::Arc::clone: a clone is a second handle to the
/// same allocation, equal to the first.
#[verifier::external_body]
pub fn arc_clone(database: &SharedDatabase) -> (r: SharedDatabase)
    ensures
        r == *database,
{
    database.clone()
}

/// Appends through the verified insert while the write lock is held.
/// Nothing can be promised to the caller about the store's contents:
/// other request handlers may change them around the call.
pub fn locked_insert(database: &SharedDatabase, post: Post) {
    let (mut db, handle) = database.acquire_write();
    db.insert_post(post);
    handle.release_write(db);
}

/// Clones the store through the verified clone while a read lock is
/// held, so the caller gets one consistent point-in-time copy. Nothing
/// can be promised about which posts that copy holds.
pub fn locked_snapshot(database: &SharedDatabase) -> Database {
    let handle = database.acquire_read();
    let db = handle.borrow().clone();
    handle.release_read();
    db
}

} // verus!

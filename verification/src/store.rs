//! The authenticated key-value store, consumed as an opaque capability.
//!
//! The transition program commits bindings into a sparse Merkle tree from the
//! monotree crate (in-memory backend, Blake3 hashing).  Every version of the
//! store is named by a 32-byte content hash, its root.  The contracts below
//! therefore speak of roots alone: the root returned by an insertion is a
//! function of the starting root and the inserted binding, and re-inserting a
//! binding that the root already holds hands the same root back.

use vstd::prelude::*;

verus! {

#[verifier::external_type_specification]
#[verifier::external_body]
#[verifier::reject_recursive_types(D)]
#[verifier::reject_recursive_types(H)]
pub struct ExMonotree<D, H>(monotree::Monotree<D, H>);

#[verifier::external_type_specification]
#[verifier::external_body]
pub struct ExMemoryDb(monotree::database::MemoryDB);

#[verifier::external_type_specification]
#[verifier::external_body]
pub struct ExBlake3(monotree::hasher::Blake3);

#[verifier::external_type_specification]
#[verifier::external_body]
pub struct ExErrors(monotree::Errors);

/// The root that the store returns when the binding `key -> leaf` is inserted
/// at version `root`.  The store addresses every version by a content hash,
/// so this is a function of the starting root and the binding alone.
pub uninterp spec fn inserted_root(root: Option<Seq<u8>>, key: Seq<u8>, leaf: Seq<u8>) -> Seq<u8>;

pub(crate) open spec fn opt_bytes_view(root: Option<&Vec<u8>>) -> Option<Seq<u8>> {
    match root {
        Some(v) => Some(v@),
        None => None,
    }
}

/// One in-memory authenticated store.  The ghost field `produced` holds the
/// roots this store has handed out; only those may be passed back to it,
/// since the store resolves a root by looking its nodes up in its own
/// database.
pub(crate) struct AuthStore {
    tree: monotree::Monotree<monotree::database::MemoryDB, monotree::hasher::Blake3>,
    produced: Ghost<Set<Seq<u8>>>,
}

impl AuthStore {
    /// The roots this store has handed out so far.
    pub(crate) closed spec fn roots(&self) -> Set<Seq<u8>> {
        self.produced@
    }
}

/// Relies on monotree's `Monotree::new` with the in-memory backend: a fresh
/// tree whose database holds no node yet.  The path argument is ignored by
/// that backend.
#[verifier::external_body]
fn fresh_tree() -> (t: monotree::Monotree<monotree::database::MemoryDB, monotree::hasher::Blake3>) {
    monotree::Monotree::new("monotree")
}

pub(crate) fn new_store() -> (s: AuthStore)
    ensures
        s.roots() == Set::<Seq<u8>>::empty(),
{
    AuthStore { tree: fresh_tree(), produced: Ghost(Set::empty()) }
}

/// Relies on monotree's `Monotree::insert`: on success it returns the root of
/// the updated version, a 32-byte hash determined by the starting root and
/// the inserted binding (the tree is content-addressed and Blake3 is a fixed,
/// deterministic hash).  Re-inserting the binding that a root was built from
/// reproduces the same nodes byte for byte, hence the same root.  Roots not
/// produced by this store are excluded: the tree resolves a root through its
/// own database and panics on an unknown one.
#[verifier::external_body]
pub(crate) fn store_insert(store: &mut AuthStore, root: Option<&Vec<u8>>, key: &Vec<u8>, leaf: &Vec<u8>) -> (r: Result<
    Vec<u8>,
    monotree::Errors,
>)
    requires
        root matches Some(h) ==> old(store).roots().contains(h@) && h@.len() == 32,
        key@.len() == 32,
        leaf@.len() == 32,
    ensures
        r matches Ok(h) ==> h@.len() == 32 && h@ == inserted_root(opt_bytes_view(root), key@, leaf@)
            && final(store).roots() == old(store).roots().insert(h@),
        opt_bytes_view(root) == Some(inserted_root(None, key@, leaf@))
            ==> (r matches Ok(h) ==> h@ == inserted_root(None, key@, leaf@)),
        r is Err ==> final(store).roots() == old(store).roots(),
{
    let root_hash: Option<monotree::Hash> = match root {
        None => None,
        Some(v) => Some(v.as_slice().try_into().expect("root width")),
    };
    let key_hash: monotree::Hash = key.as_slice().try_into().expect("key width");
    let leaf_hash: monotree::Hash = leaf.as_slice().try_into().expect("leaf width");
    match store.tree.insert(root_hash.as_ref(), &key_hash, &leaf_hash) {
        Ok(Some(h)) => Ok(h.to_vec()),
        Ok(None) => Err(monotree::Errors::new("no root returned")),
        Err(e) => Err(e),
    }
}

/// Relies on monotree's `Monotree::get`: it resolves `key` at the version
/// named by `root`, and an absent root names the empty version, where every
/// key is unbound.  As for insertion, only roots this store produced may be
/// passed in.
#[verifier::external_body]
pub(crate) fn store_get(store: &mut AuthStore, root: Option<&Vec<u8>>, key: &Vec<u8>) -> (r: Result<
    Option<Vec<u8>>,
    monotree::Errors,
>)
    requires
        root matches Some(h) ==> old(store).roots().contains(h@) && h@.len() == 32,
        key@.len() == 32,
    ensures
        final(store).roots() == old(store).roots(),
        opt_bytes_view(root) is None ==> (r matches Ok(v) ==> v is None),
{
    let root_hash: Option<monotree::Hash> = match root {
        None => None,
        Some(v) => Some(v.as_slice().try_into().expect("root width")),
    };
    let key_hash: monotree::Hash = key.as_slice().try_into().expect("key width");
    match store.tree.get(root_hash.as_ref(), &key_hash) {
        Ok(Some(h)) => Ok(Some(h.to_vec())),
        Ok(None) => Ok(None),
        Err(e) => Err(e),
    }
}

} // verus!

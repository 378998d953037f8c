//! Atomic weak reference.

use vstd::prelude::*;
use std::sync::{Arc, Mutex, MutexGuard, Weak};

verus! {

#[verifier::external_type_specification]
#[verifier::external_body]
#[verifier::reject_recursive_types(T)]
pub struct ExMutex<T: ?Sized>(Mutex<T>);

#[verifier::external_type_specification]
#[verifier::external_body]
#[verifier::reject_recursive_types(T)]
pub struct ExMutexGuard<'a, T: ?Sized + 'a>(MutexGuard<'a, T>);

/// A `std::sync::Weak` pointer. Verus cannot declare `Weak` itself (its
/// allocator parameter is unstable), so the pointer travels in this
/// wrapper, which verified code only moves.
#[verifier::external_body]
#[verifier::reject_recursive_types(T)]
pub struct WeakRef<T: ?Sized>(pub Weak<T>);

/// This is essentially a wrapper around `Mutex<Option<Weak<T>>>` which
/// is used for bidirectional communication between the various layers.
///
/// e.g. Engine owns Transport and passes a Weak pointer to itself when
/// calling the `Transport::start` method. That weak pointer is then stored
/// inside the Transport to notify the engine about inbound frames.
///
/// The slot changes behind shared references and a weak pointer upgrades
/// only while its target lives, so no contract here speaks of the slot's
/// content.
#[verifier::reject_recursive_types(T)]
pub struct AtomicWeak<T: Sync + Send + ?Sized>(Mutex<Option<WeakRef<T>>>);

/// `Mutex::new`: a mutex holding `value`.
#[verifier::external_body]
fn mutex_new<V>(value: V) -> Mutex<V> {
    Mutex::new(value)
}

/// `Mutex::lock`: the guard of the locked content. (The lock is poisoned
/// only by a panic while it is held; none of this module's calls between
/// locking and unlocking can panic.)
#[verifier::external_body]
fn mutex_lock<'a, V>(slot: &'a Mutex<V>) -> MutexGuard<'a, V> {
    slot.lock().unwrap()
}

/// `Option::replace` on a guarded option: stores `value` and hands back
/// what was stored before.
#[verifier::external_body]
fn guarded_replace<'a, V>(guard: &mut MutexGuard<'a, Option<V>>, value: V) -> Option<V> {
    guard.replace(value)
}

/// `Option::as_ref` on a guarded option.
#[verifier::external_body]
fn guarded_ref<'a, 'b, V>(guard: &'b MutexGuard<'a, Option<V>>) -> Option<&'b V> {
    guard.as_ref()
}

/// `Weak::upgrade`: a strong pointer to the target, if it still lives.
#[verifier::external_body]
fn weak_upgrade<T: ?Sized>(weak: &WeakRef<T>) -> Option<Arc<T>> {
    weak.0.upgrade()
}

impl<T: Sync + Send + ?Sized> AtomicWeak<T> {
    /// Create new atomic weak reference
    pub fn new(value: WeakRef<T>) -> Self {
        AtomicWeak(mutex_new(Some(value)))
    }


    /// Replace internal weak reference by a new one
    pub fn replace(&self, value: WeakRef<T>) -> Option<WeakRef<T>> {
        let mut guard = mutex_lock(&self.0);
        guarded_replace(&mut guard, value)
    }

    /// Upgrade this weak reference to an `Arc`
    pub fn upgrade(&self) -> Option<Arc<T>> {
        let guard = mutex_lock(&self.0);
        match guarded_ref(&guard) {
            Some(weak) => weak_upgrade(weak),
            None => None,
        }
    }
}

impl<T: Sync + Send + ?Sized> Default for AtomicWeak<T> {
    /// An atomic weak reference that holds nothing.
    fn default() -> Self {
        AtomicWeak(mutex_new(None))
    }
}

} // verus!

//! Non-owning handles to typing-event subscribers.
//!
//! The model must never keep a subscriber alive and must never touch one
//! that has been destroyed, so a subscriber is held through a weak
//! reference.  Liveness and delivery are decided by the reference-counting
//! runtime; the handles are opaque here and nothing is claimed about them
//! beyond what their wrappers state.

use std::cell::RefCell;
use std::rc::Rc;
use std::rc::Weak;

use vstd::prelude::*;

use crate::text_model::Event;
use crate::text_model::Observer;

verus! {

#[verifier::external_type_specification]
#[verifier::external_body]
#[verifier::reject_recursive_types(T)]
pub struct ExRefCell<T: ?Sized>(RefCell<T>);

/// A non-owning reference to a subscriber.  Opaque: whether its target is
/// still alive can change at any time between notifications.
#[verifier::external_body]
pub struct ObserverHandle {
    inner: Weak<RefCell<dyn Observer>>,
}

impl ObserverHandle {
    /// Relies on `Rc::downgrade`: the handle refers to the subscriber
    /// without keeping it alive.
    #[verifier::external_body]
    pub fn new<T: Observer + 'static>(subscriber: &Rc<RefCell<T>>) -> (r: ObserverHandle) {
        let weak: Weak<RefCell<T>> = Rc::downgrade(subscriber);
        let inner: Weak<RefCell<dyn Observer>> = weak;
        ObserverHandle { inner }
    }
}

/// Relies on `std::rc::Weak::upgrade`: it returns a value exactly while
/// some strong reference to the subscriber is still held elsewhere.
#[verifier::external_body]
pub(crate) fn handle_is_live(handle: &ObserverHandle) -> bool {
    handle.inner.upgrade().is_some()
}

/// Relies on `std::rc::Weak::upgrade` and `RefCell::try_borrow_mut`: the
/// event is handed to the subscriber's `notify` only if the subscriber is
/// still alive and not currently borrowed (a subscriber that re-enters the
/// model during notification is not supported and is skipped).
#[verifier::external_body]
pub(crate) fn handle_notify(handle: &ObserverHandle, event: &Event) {
    if let Some(subscriber) = handle.inner.upgrade() {
        if let Ok(mut subscriber) = subscriber.try_borrow_mut() {
            subscriber.notify(event);
        }
    }
}

} // verus!

use std::cell::RefCell;
use std::ops::AddAssign;
use std::rc::Rc;

use qtbridge::access::{
    route_call, route_call_mut, store_conflicts, store_mut_conflicts, BorrowState, CallRoute, RustObjAccess, RustObjAccessError,
};

/// The serving step of a call made while nothing is stored: never taken.
fn unserved<F, R>(_f: F) -> R {
    unreachable!("nothing is stored")
}

// ---------------------------------------------------------------------------
// Construction
// ---------------------------------------------------------------------------

#[test]
fn require_that_new_creates_an_instance() {
    let rc = Rc::new(RefCell::new(0i32));
    let _instance = RustObjAccess::new(rc);
}

#[test]
fn get_rc_returns_the_held_object() {
    let rc = Rc::new(RefCell::new(7i32));
    let instance = RustObjAccess::new(rc.clone());
    let other = instance.get_rc();
    assert!(Rc::ptr_eq(&rc, &other));
    assert_eq!(Rc::strong_count(&rc), 3);
}

// ---------------------------------------------------------------------------
// Basic borrow / borrow_mut
// ---------------------------------------------------------------------------

#[test]
fn require_that_try_call_rust_with_handle_invokes_function_with_value_and_succeeds_when_function_is_not_recursive() {
    let rc = Rc::new(RefCell::new(42));
    let instance = RustObjAccess::new(rc.clone());

    let result = instance.try_call_rust_with_handle(|value| value * 2, unserved).unwrap();
    assert_eq!(result, 84);
}

#[test]
fn require_that_try_call_rust_with_handle_mut_invokes_function_and_succeeds_when_function_is_not_recursive() {
    let rc = Rc::new(RefCell::new(42));
    let instance = RustObjAccess::new(rc.clone());

    assert_eq!(true, instance.try_call_rust_with_handle_mut(|value| *value += 1, unserved).is_ok());
    assert_eq!(*rc.borrow(), 43);
}

// ---------------------------------------------------------------------------
// Dispatch counts as Rust interest
// ---------------------------------------------------------------------------

#[test]
fn require_that_a_running_call_holds_an_extra_strong_reference() {
    let rc = Rc::new(RefCell::new(43));
    let weak = Rc::downgrade(&rc);
    let instance = RustObjAccess::new(rc);
    assert_eq!(weak.strong_count(), 1);
    instance.try_call_rust_with_handle(|_| {
        assert_eq!(weak.strong_count(), 2);
    }, unserved).unwrap();
    assert_eq!(weak.strong_count(), 1);
}

#[test]
fn require_that_a_running_mutable_call_holds_an_extra_strong_reference() {
    let rc = Rc::new(RefCell::new(43));
    let weak = Rc::downgrade(&rc);
    let instance = RustObjAccess::new(rc);
    assert_eq!(weak.strong_count(), 1);
    instance.try_call_rust_with_handle_mut(|_| {
        assert_eq!(weak.strong_count(), 2);
    }, unserved).unwrap();
    assert_eq!(weak.strong_count(), 1);
}

// ---------------------------------------------------------------------------
// Direct recursion
// ---------------------------------------------------------------------------

struct RecursionChecker {
    value: RustObjAccess<i32>,
}
impl RecursionChecker {
    pub fn new(obj: Rc<RefCell<i32>>) -> Self {
        Self {
            value: RustObjAccess::new(obj)
        }
    }

    fn calc_product_recursively_borrow_immut(&self, times: u32, init_value: u32) -> u32 {
        self.value.try_call_rust_with_handle(|value| -> u32 {
            let new_value = init_value + *value as u32;
            if times > 1 {
                return self.calc_product_recursively_borrow_immut(times - 1, new_value);
            }
            new_value
        }, unserved).unwrap()
    }
}

#[test]
fn require_that_borrowing_immutably_recursively_succeeds() {
    let rc = Rc::new(RefCell::new(10));
    let checker = RecursionChecker::new(rc.clone());
    let result = checker.calc_product_recursively_borrow_immut(4, 0);
    assert_eq!(result, 40)
}

#[test]
fn require_that_borrowing_mutably_recursively_fails() {
    let rc = Rc::new(RefCell::new(10));
    let instance = RustObjAccess::new(rc.clone());
    let result = instance.try_call_rust_with_handle_mut(|value| {
        *value += 1;
        instance.try_call_rust_with_handle_mut(|_| {}, unserved)
    }, unserved);
    assert!(result.is_ok());
    let inner = result.unwrap();
    assert!(matches!(inner, Err(RustObjAccessError::BorrowMutError(_))));
}

#[test]
fn require_that_borrowing_immutably_within_mutable_borrow_fails() {
    let rc = Rc::new(RefCell::new(10));
    let instance = RustObjAccess::new(rc.clone());
    let result = instance.try_call_rust_with_handle_mut(|_| {
        instance.try_call_rust_with_handle(|_| {}, unserved)
    }, unserved);
    assert!(result.is_ok());
    let inner = result.unwrap();
    assert!(matches!(inner, Err(RustObjAccessError::BorrowError(_))));
}

// ---------------------------------------------------------------------------
// Borrow conflicts between try_call_rust_with_handle and try_call_rust_with_handle_mut
// ---------------------------------------------------------------------------

#[test]
fn require_that_try_call_rust_with_handle_mut_within_try_call_rust_with_handle_fails() {
    let rc = Rc::new(RefCell::new(0));
    let instance = RustObjAccess::new(rc);
    let result = instance.try_call_rust_with_handle(|_| {
        instance.try_call_rust_with_handle_mut(|_| {}, unserved)
            .expect_err("Expected to be borrowed")
    }, unserved);
    let error = result.unwrap();
    assert!(matches!(error, RustObjAccessError::BorrowMutError(_)))
}

// ---------------------------------------------------------------------------
// Interaction with original RefCell
// ---------------------------------------------------------------------------

#[test]
fn require_that_try_borrow_original_ref_cell_succeeds_when_called_within_try_call_rust_with_handle() {
    let rc = Rc::new(RefCell::new(36));
    let instance = RustObjAccess::new(rc.clone());
    instance.try_call_rust_with_handle(|_| {
        let nested_borrow_result = rc.try_borrow();
        assert!(nested_borrow_result.is_ok());
        assert_eq!(*nested_borrow_result.unwrap(), 36);
    }, unserved).unwrap();
}

#[test]
fn require_that_try_borrow_from_original_ref_cell_fails_when_called_within_try_call_rust_with_handle_mut() {
    let rc = Rc::new(RefCell::new(37));
    let instance = RustObjAccess::new(rc.clone());
    instance.try_call_rust_with_handle_mut(|_| {
        let nested_borrow_result = rc.try_borrow();
        assert!(nested_borrow_result.is_err());
    }, unserved).unwrap();
}

#[test]
fn require_that_try_borrow_mut_from_original_ref_cell_fails_when_called_within_try_call_rust_with_handle_mut() {
    let rc = Rc::new(RefCell::new(39));
    let instance = RustObjAccess::new(rc.clone());
    instance.try_call_rust_with_handle_mut(|_| {
        let nested_borrow_result = rc.try_borrow_mut();
        assert!(nested_borrow_result.is_err());
    }, unserved).unwrap();
}

#[test]
fn require_that_try_borrow_mut_from_original_ref_cell_fails_when_called_within_try_call_rust_with_handle() {
    let rc = Rc::new(RefCell::new(38));
    let instance = RustObjAccess::new(rc.clone());
    instance.try_call_rust_with_handle(|_| {
        let nested_borrow_result = rc.try_borrow_mut();
        assert!(nested_borrow_result.is_err());
    }, unserved).unwrap();
}

// ---------------------------------------------------------------------------
// External borrow then try_call_rust_with_handle
// ---------------------------------------------------------------------------

#[test]
fn require_that_try_call_rust_with_handle_succeeds_when_called_within_scope_of_borrow_of_original_ref_cell() {
    let rc = Rc::new(RefCell::new(40));
    let ref_ = rc.borrow();
    let instance: RustObjAccess<i32> = RustObjAccess::new(rc.clone());
    instance.try_call_rust_with_handle(|value| {
        assert_eq!(*value, 40);
    }, unserved).unwrap();
    assert_eq!(*ref_, 40);
}

#[test]
fn require_that_try_call_rust_with_handle_fails_when_called_within_scope_of_borrow_mut_of_original_ref_cell() {
    let rc = Rc::new(RefCell::new(41));
    let mut ref_mut = rc.borrow_mut();
    let instance = RustObjAccess::new(rc.clone());
    let result = instance.try_call_rust_with_handle(|_| { panic!("Not supposed to be called") }, unserved);
    assert!(result.is_err());
    assert!(matches!(result.unwrap_err(), RustObjAccessError::BorrowError(_)));
    ref_mut.add_assign(1);
}

#[test]
fn require_that_try_call_rust_with_handle_mut_fails_when_called_within_scope_of_borrow_of_original_ref_cell() {
    let rc = Rc::new(RefCell::new(42));
    let ref_ = rc.borrow();
    let instance = RustObjAccess::new(rc.clone());
    let result = instance.try_call_rust_with_handle_mut(|_| { panic!("Not supposed to be called") }, unserved);
    assert!(result.is_err());
    assert!(matches!(result.unwrap_err(), RustObjAccessError::BorrowMutError(_)));
    assert_eq!(*ref_, 42);
}

#[test]
fn require_that_try_call_rust_with_handle_mut_fails_when_called_within_scope_of_borrow_mut_of_original_ref_cell() {
    let rc = Rc::new(RefCell::new(42));
    let mut ref_mut = rc.borrow_mut();
    let instance = RustObjAccess::new(rc.clone());
    let result = instance.try_call_rust_with_handle_mut(|_| { panic!("Not supposed to be called") }, unserved);
    assert!(result.is_err());
    assert!(matches!(result.unwrap_err(), RustObjAccessError::BorrowMutError(_)));
    ref_mut.add_assign(1);
}

// ---------------------------------------------------------------------------
// store_handle: the C++ re-entry path
// ---------------------------------------------------------------------------

#[test]
fn require_that_try_store_handle_and_call_cpp_succeeds_when_called_with_immutable_reference() {
    let rc = Rc::new(RefCell::new(44));
    let instance = RustObjAccess::new(rc.clone());
    let b = rc.borrow();
    let result = instance.try_store_handle_and_call_cpp(&*b, || *b + 6);
    assert!(result.is_ok());
    assert_eq!(result.unwrap(), 50);
}

#[test]
fn require_that_try_call_rust_with_handle_succeeds_when_called_after_try_store_handle_and_call_cpp() {
    let rc = Rc::new(RefCell::new(46));
    let instance = RustObjAccess::new(rc.clone());
    let b = rc.borrow();
    let result = instance.try_store_handle_and_call_cpp(&*b, || {
        instance.try_call_rust_with_handle(|value| value + 8, |f| f(&*b))
    });

    assert!(result.is_ok());
    let inner = result.unwrap();
    assert!(inner.is_ok());
    assert_eq!(inner.unwrap(), 54);
}

#[test]
fn require_that_try_store_handle_and_call_cpp_succeeds_when_called_while_already_stored() {
    let rc = Rc::new(RefCell::new(48));
    let instance = RustObjAccess::new(rc.clone());
    let b = rc.borrow();
    let mark_hit = std::cell::Cell::new(false);
    let result = instance.try_store_handle_and_call_cpp(&*b, || {
        instance.try_store_handle_and_call_cpp(&*b, || {
            mark_hit.set(true);
        })
    });
    assert!(result.is_ok());
    assert!(mark_hit.get(), "Inner callback should have been called");
}

// ---------------------------------------------------------------------------
// Decisions taken from the stored reference
// ---------------------------------------------------------------------------

#[test]
fn mutable_call_within_stored_shared_reference_is_a_conflict() {
    let rc = Rc::new(RefCell::new(49));
    let instance = RustObjAccess::new(rc.clone());
    let b = rc.borrow();
    let result = instance.try_store_handle_and_call_cpp(&*b, || {
        instance.try_call_rust_with_handle_mut(|_| { panic!("Not supposed to be called") }, unserved)
    });
    assert!(matches!(result.unwrap(), Err(RustObjAccessError::BorrowConflict)));
}

#[test]
fn foreign_reference_is_refused_while_an_exclusive_one_is_stored() {
    let rc = Rc::new(RefCell::new(50));
    let other = Rc::new(RefCell::new(50));
    let instance = RustObjAccess::new(rc.clone());
    let mut b = rc.borrow_mut();
    let result = instance.try_store_handle_and_call_cpp_mut(&mut *b, || {
        let o = other.borrow();
        // A reference to another object is refused before anything is stored.
        let foreign = instance.try_store_handle_and_call_cpp(&*o, || {});
        assert!(matches!(foreign, Err(RustObjAccessError::ForeignObject)));
        17
    });
    assert_eq!(result.unwrap(), 17);
}

#[test]
fn storing_a_reference_to_another_object_is_refused() {
    let rc = Rc::new(RefCell::new(1));
    let other = Rc::new(RefCell::new(1));
    let instance = RustObjAccess::new(rc);
    let o = other.borrow();
    let result = instance.try_store_handle_and_call_cpp(&*o, || { panic!("Not supposed to be called") });
    assert!(matches!(result, Err(RustObjAccessError::ForeignObject)));
}

#[test]
fn the_stored_reference_is_given_back_after_the_call() {
    let rc = Rc::new(RefCell::new(3));
    let instance = RustObjAccess::new(rc.clone());
    let b = rc.borrow();
    let first = instance.try_store_handle_and_call_cpp(&*b, || 1);
    assert_eq!(first.unwrap(), 1);
    drop(b);
    // Nothing stays stored: an exclusive call goes through the RefCell again.
    assert!(instance.try_call_rust_with_handle_mut(|v| *v += 1, unserved).is_ok());
    assert_eq!(*rc.borrow(), 4);
}

#[test]
fn route_decisions() {
    assert_eq!(route_call(BorrowState::Empty), CallRoute::Cell);
    assert_eq!(route_call(BorrowState::Immutable), CallRoute::Handle);
    assert_eq!(route_call(BorrowState::Mutable), CallRoute::Handle);
    assert_eq!(route_call_mut(BorrowState::Empty), CallRoute::Cell);
    assert_eq!(route_call_mut(BorrowState::Immutable), CallRoute::Conflict);
    assert_eq!(route_call_mut(BorrowState::Mutable), CallRoute::Handle);
    assert!(!store_conflicts(BorrowState::Empty));
    assert!(!store_conflicts(BorrowState::Immutable));
    assert!(store_conflicts(BorrowState::Mutable));
    assert!(!store_mut_conflicts(BorrowState::Empty));
    assert!(store_mut_conflicts(BorrowState::Immutable));
    assert!(store_mut_conflicts(BorrowState::Mutable));
}

// ---------------------------------------------------------------------------
// Calls served by the stored reference
// ---------------------------------------------------------------------------

#[test]
fn a_stored_shared_reference_serves_a_re_entering_shared_call() {
    let rc = Rc::new(RefCell::new(46));
    let instance = RustObjAccess::new(rc.clone());
    let b = rc.borrow();
    let served = std::cell::Cell::new(false);
    let result = instance.try_store_handle_and_call_cpp(&*b, || {
        instance.try_call_rust_with_handle(|value| value + 8, |f| {
            served.set(true);
            f(&*b)
        })
    });
    assert_eq!(result.unwrap().unwrap(), 54);
    assert!(served.get());
}

#[test]
fn a_stored_exclusive_reference_serves_a_re_entering_exclusive_call() {
    let rc = Rc::new(RefCell::new(45));
    let instance = RustObjAccess::new(rc.clone());
    // The serving step reaches the stored reference through its address,
    // which safe code cannot follow; a stand-in object takes its place.
    let handle = RefCell::new(45);
    {
        let mut b = rc.borrow_mut();
        let result = instance.try_store_handle_and_call_cpp_mut(&mut *b, || {
            instance.try_call_rust_with_handle_mut(|value| *value += 6, |f| f(&mut *handle.borrow_mut()))
        });
        assert!(result.unwrap().is_ok());
    }
    assert_eq!(*handle.borrow(), 51);
    // The call did not borrow the cell, which the caller still held.
    assert_eq!(*rc.borrow(), 45);
}

#[test]
fn a_stored_exclusive_reference_serves_a_re_entering_shared_call() {
    let rc = Rc::new(RefCell::new(47));
    let instance = RustObjAccess::new(rc.clone());
    let handle = RefCell::new(47);
    let mut b = rc.borrow_mut();
    let result = instance.try_store_handle_and_call_cpp_mut(&mut *b, || {
        instance.try_call_rust_with_handle(|value| value + 8, |f| f(&*handle.borrow()))
    });
    assert_eq!(result.unwrap().unwrap(), 55);
}

#[test]
fn a_stored_shared_reference_refuses_a_served_exclusive_call() {
    let rc = Rc::new(RefCell::new(49));
    let instance = RustObjAccess::new(rc.clone());
    let b = rc.borrow();
    let result = instance.try_store_handle_and_call_cpp(&*b, || {
        instance.try_call_rust_with_handle_mut(|_| panic!("Not supposed to be called"), |_| {
            panic!("Not supposed to be served")
        })
    });
    assert!(matches!(result.unwrap(), Err(RustObjAccessError::BorrowConflict)));
}

#[test]
fn without_a_stored_reference_served_calls_go_through_the_cell() {
    let rc = Rc::new(RefCell::new(10));
    let instance = RustObjAccess::new(rc.clone());
    let read = instance.try_call_rust_with_handle(|value| *value, |_| panic!("Not supposed to be served"));
    assert_eq!(read.unwrap(), 10);
    let write = instance.try_call_rust_with_handle_mut(|value| *value += 5, |_| panic!("Not supposed to be served"));
    assert!(write.is_ok());
    assert_eq!(*rc.borrow(), 15);
    let b = rc.borrow_mut();
    let refused = instance.try_call_rust_with_handle(|value| *value, |_| panic!("Not supposed to be served"));
    assert!(matches!(refused, Err(RustObjAccessError::BorrowError(_))));
    drop(b);
}

#[test]
fn the_stored_exclusive_reference_still_serves_after_a_refused_foreign_store() {
    let rc = Rc::new(RefCell::new(48));
    let instance = RustObjAccess::new(rc.clone());
    let handle = RefCell::new(48);
    let mut b = rc.borrow_mut();
    let result = instance.try_store_handle_and_call_cpp_mut(&mut *b, || {
        let refused = instance.try_store_handle_and_call_cpp_mut(&mut *handle.borrow_mut(), || {});
        assert!(matches!(refused, Err(RustObjAccessError::ForeignObject)));
        instance.try_call_rust_with_handle_mut(|value| *value += 2, |f| f(&mut *handle.borrow_mut()))
    });
    assert!(result.unwrap().is_ok());
    assert_eq!(*handle.borrow(), 50);
}

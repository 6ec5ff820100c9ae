//! Shared access to a Rust object across the Rust/C++ boundary.
//!
//! A [`RustObjAccess`] holds the strong reference that keeps a Rust object
//! alive, and remembers which reference to the object a call into C++ has
//! stored: none, a shared one or an exclusive one. A call back into Rust
//! consumes what is stored for its duration and puts it back afterwards; the
//! decisions it takes from the stored reference are the functions
//! [`route_call`], [`route_call_mut`], [`store_conflicts`] and
//! [`store_mut_conflicts`], and the protocol they make up is [`AccessState`] with its laws.
//!
//! Only the kind of the stored reference is kept here: a reference that
//! outlives its borrow can only be kept as an address, and safe code cannot
//! turn an address back into a reference. So the calls into Rust take the
//! step that serves them from the stored reference as an argument
//! (`via_handle`), given by the code that kept the address; the library
//! decides when that step is taken.
use std::cell::{BorrowError, BorrowMutError, Cell, Ref, RefCell, RefMut};
use std::rc::Rc;
use vstd::prelude::*;

verus! {

/// `std::cell::RefCell`, carried through as an opaque value.
#[verifier::external_type_specification]
#[verifier::external_body]
#[verifier::reject_recursive_types(T)]
pub struct ExRefCell<T: ?Sized>(RefCell<T>);

/// `std::cell::Cell`, carried through as an opaque value.
#[verifier::external_type_specification]
#[verifier::external_body]
#[verifier::reject_recursive_types(T)]
pub struct ExCell<T: ?Sized>(Cell<T>);

/// `std::cell::Ref`, the guard of a shared borrow of a `RefCell`.
#[verifier::external_type_specification]
#[verifier::external_body]
#[verifier::reject_recursive_types(T)]
pub struct ExRef<'b, T: ?Sized>(Ref<'b, T>);

/// `std::cell::RefMut`, the guard of an exclusive borrow of a `RefCell`.
#[verifier::external_type_specification]
#[verifier::external_body]
#[verifier::reject_recursive_types(T)]
pub struct ExRefMut<'b, T: ?Sized + 'b>(RefMut<'b, T>);

/// `std::cell::BorrowError`, the error of a refused shared borrow.
#[verifier::external_type_specification]
#[verifier::external_body]
pub struct ExBorrowError(BorrowError);

/// `std::cell::BorrowMutError`, the error of a refused exclusive borrow.
#[verifier::external_type_specification]
#[verifier::external_body]
pub struct ExBorrowMutError(BorrowMutError);

/// `Rc::clone`: another strong reference to the same object, which the
/// contract states as equality of the two references.
#[verifier::external_body]
fn rc_clone<T: ?Sized>(rc: &Rc<T>) -> (r: Rc<T>)
    ensures
        r == *rc,
{
    Rc::clone(rc)
}

/// `RefCell::try_borrow`. Whether the borrow is granted depends on the
/// borrows alive elsewhere, so nothing is stated of the result.
#[verifier::external_body]
fn refcell_try_borrow<T: ?Sized>(cell: &RefCell<T>) -> Result<Ref<'_, T>, BorrowError> {
    cell.try_borrow()
}

/// `RefCell::try_borrow_mut`. Whether the borrow is granted depends on the
/// borrows alive elsewhere, so nothing is stated of the result.
#[verifier::external_body]
fn refcell_try_borrow_mut<T: ?Sized>(cell: &RefCell<T>) -> Result<RefMut<'_, T>, BorrowMutError> {
    cell.try_borrow_mut()
}

/// `Ref`'s `Deref`: the borrowed object. Its value is not modelled.
#[verifier::external_body]
fn ref_get<'a, 'b, T: ?Sized>(r: &'a Ref<'b, T>) -> &'a T {
    &**r
}

/// `RefMut`'s `DerefMut`: the exclusively borrowed object. Its value is not
/// modelled.
#[verifier::external_body]
fn ref_mut_get<'a, 'b, T: ?Sized>(r: &'a mut RefMut<'b, T>) -> &'a mut T {
    &mut **r
}

/// `Cell::new`.
#[verifier::external_body]
fn cell_new<T>(v: T) -> Cell<T> {
    Cell::new(v)
}

/// `Cell::replace`: stores `v` and returns what the cell held. The cell is
/// shared with the calls that re-enter through it, so nothing is stated of
/// the value returned.
#[verifier::external_body]
fn cell_replace<T>(cell: &Cell<T>, v: T) -> T {
    cell.replace(v)
}

/// `Cell::set`: stores `v`.
#[verifier::external_body]
fn cell_set<T>(cell: &Cell<T>, v: T) {
    cell.set(v)
}

/// `std::ptr::addr_eq` of the `RefCell`'s contents and `obj`: whether `obj` is the
/// object in the cell. Addresses are not modelled, so nothing is stated of
/// the result.
#[verifier::external_body]
fn refers_to_contents<T: ?Sized>(cell: &RefCell<T>, obj: &T) -> bool {
    std::ptr::addr_eq(obj, cell.as_ptr())
}

/// `v` is a value that `f` returns for some shared reference to an object.
pub open spec fn returned_by<T: ?Sized, R, F: FnOnce(&T) -> R>(f: F, v: R) -> bool {
    exists|x: &T| #[trigger] f.ensures((x,), v)
}

/// `v` is a value that `f` returns for some exclusive reference to an
/// object.
pub open spec fn returned_by_mut<T: ?Sized, R, F: FnOnce(&mut T) -> R>(f: F, v: R) -> bool {
    exists|x: &mut T| #[trigger] f.ensures((x,), v)
}

proof fn lemma_returned_by<T: ?Sized, R, F: FnOnce(&T) -> R>(f: F, x: &T, v: R)
    requires
        f.ensures((x,), v),
    ensures
        returned_by(f, v),
{
}

/// The reference to the object that a call into C++ has stored.
#[derive(Clone, Copy, PartialEq, Eq, Structural, Debug)]
pub enum BorrowState {
    Empty,
    Immutable,
    Mutable,
}

/// How a call reaches the object.
#[derive(Clone, Copy, PartialEq, Eq, Structural, Debug)]
pub enum CallRoute {
    /// Through the stored exclusive reference.
    Handle,
    /// Refused: an exclusive call while a shared reference is stored.
    Conflict,
    /// Through an exclusive borrow of the `RefCell`.
    Cell,
}

/// How a shared call reaches the object, from what is stored: any stored
/// reference serves it, else the `RefCell`.
pub open spec fn spec_route_call(stored: BorrowState) -> CallRoute {
    if stored == BorrowState::Empty {
        CallRoute::Cell
    } else {
        CallRoute::Handle
    }
}

/// How a shared call reaches the object.
pub fn route_call(stored: BorrowState) -> (r: CallRoute)
    ensures
        r == spec_route_call(stored),
{
    if stored == BorrowState::Empty {
        CallRoute::Cell
    } else {
        CallRoute::Handle
    }
}

/// How an exclusive call reaches the object, from what is stored: a stored
/// exclusive reference serves it, a stored shared one refuses it, else the
/// `RefCell`.
pub open spec fn spec_route_call_mut(stored: BorrowState) -> CallRoute {
    match stored {
        BorrowState::Mutable => CallRoute::Handle,
        BorrowState::Immutable => CallRoute::Conflict,
        BorrowState::Empty => CallRoute::Cell,
    }
}

/// How an exclusive call reaches the object.
pub fn route_call_mut(stored: BorrowState) -> (r: CallRoute)
    ensures
        r == spec_route_call_mut(stored),
{
    match stored {
        BorrowState::Mutable => CallRoute::Handle,
        BorrowState::Immutable => CallRoute::Conflict,
        BorrowState::Empty => CallRoute::Cell,
    }
}

/// Whether storing a shared reference conflicts with what was stored: with
/// a stored exclusive one. Several shared references may be alive.
pub open spec fn spec_store_conflicts(previous: BorrowState) -> bool {
    previous == BorrowState::Mutable
}

/// Whether storing an exclusive reference conflicts with what was stored:
/// with any stored reference.
pub open spec fn spec_store_mut_conflicts(previous: BorrowState) -> bool {
    previous != BorrowState::Empty
}

/// Whether storing a shared reference conflicts with what was stored.
pub fn store_conflicts(previous: BorrowState) -> (b: bool)
    ensures
        b == spec_store_conflicts(previous),
{
    previous == BorrowState::Mutable
}

/// Whether storing an exclusive reference conflicts with what was stored.
pub fn store_mut_conflicts(previous: BorrowState) -> (b: bool)
    ensures
        b == spec_store_mut_conflicts(previous),
{
    previous != BorrowState::Empty
}

/// The state of the access protocol that [`RustObjAccess`] follows: what is
/// stored, and the borrows of the object's `RefCell` (the number of shared
/// borrows and whether it is borrowed exclusively), following `RefCell`'s
/// documented rules.
pub struct AccessState {
    pub stored: BorrowState,
    pub shared_borrows: nat,
    pub exclusive: bool,
}

/// Why an access is refused.
pub enum Refusal {
    /// The `RefCell` refuses a shared borrow.
    Borrow,
    /// The `RefCell` refuses an exclusive borrow.
    BorrowMut,
    /// The stored reference forbids the access.
    Conflict,
}

/// An access either runs its closure in the given state, or is refused.
pub enum Outcome {
    Runs(AccessState),
    Refused(Refusal),
}

/// A shared call: served by the stored reference if there is one, without a
/// new borrow; else it holds a shared borrow of the `RefCell`, which an
/// exclusive borrow refuses. Nothing is stored while it runs.
pub open spec fn spec_call(s: AccessState) -> Outcome {
    if spec_route_call(s.stored) == CallRoute::Handle {
        Outcome::Runs(AccessState { stored: BorrowState::Empty, ..s })
    } else if s.exclusive {
        Outcome::Refused(Refusal::Borrow)
    } else {
        Outcome::Runs(
            AccessState { stored: BorrowState::Empty, shared_borrows: s.shared_borrows + 1, exclusive: false },
        )
    }
}

/// An exclusive call, along [`spec_route_call_mut`]: served by a stored
/// exclusive reference without a new borrow, refused while a shared one is
/// stored, else it holds an exclusive borrow of the `RefCell`, which any
/// other borrow refuses. Nothing is stored while it runs.
pub open spec fn spec_call_mut(s: AccessState) -> Outcome {
    match spec_route_call_mut(s.stored) {
        CallRoute::Handle => Outcome::Runs(AccessState { stored: BorrowState::Empty, ..s }),
        CallRoute::Conflict => Outcome::Refused(Refusal::Conflict),
        CallRoute::Cell => if s.exclusive || s.shared_borrows > 0 {
            Outcome::Refused(Refusal::BorrowMut)
        } else {
            Outcome::Runs(AccessState { stored: BorrowState::Empty, shared_borrows: 0, exclusive: true })
        },
    }
}

/// Storing a shared reference for a call into C++.
pub open spec fn spec_store(s: AccessState) -> Outcome {
    if spec_store_conflicts(s.stored) {
        Outcome::Refused(Refusal::Conflict)
    } else {
        Outcome::Runs(AccessState { stored: BorrowState::Immutable, ..s })
    }
}

/// Storing an exclusive reference for a call into C++.
pub open spec fn spec_store_mut(s: AccessState) -> Outcome {
    if spec_store_mut_conflicts(s.stored) {
        Outcome::Refused(Refusal::Conflict)
    } else {
        Outcome::Runs(AccessState { stored: BorrowState::Mutable, ..s })
    }
}

/// C++ can call back into Rust while Rust has stored an exclusive reference
/// for its call into C++: both a shared and an exclusive call are served by
/// the stored reference, whatever the `RefCell`'s borrows.
pub proof fn law_stored_exclusive_serves_calls(s: AccessState)
    requires
        spec_store_mut(s) is Runs,
    ensures
        spec_call_mut(spec_store_mut(s)->Runs_0) is Runs,
        spec_call(spec_store_mut(s)->Runs_0) is Runs,
{
}

/// A shared call back into Rust is served while Rust has stored a shared
/// reference for its call into C++, and an exclusive one is refused.
pub proof fn law_stored_shared_serves_shared_calls(s: AccessState)
    requires
        spec_store(s) is Runs,
    ensures
        spec_call(spec_store(s)->Runs_0) is Runs,
        spec_call_mut(spec_store(s)->Runs_0) == Outcome::Refused(Refusal::Conflict),
{
}

/// Shared calls nest while the `RefCell` is not borrowed exclusively.
pub proof fn law_shared_calls_nest(s: AccessState)
    requires
        !s.exclusive,
    ensures
        spec_call(s) is Runs,
        spec_call(spec_call(s)->Runs_0) is Runs,
{
}

/// Exclusive calls through the `RefCell` do not nest: an exclusive call made
/// while one runs is refused by the `RefCell`.
pub proof fn law_exclusive_calls_do_not_nest(s: AccessState)
    requires
        s.stored == BorrowState::Empty,
        spec_call_mut(s) is Runs,
    ensures
        spec_call_mut(spec_call_mut(s)->Runs_0) == Outcome::Refused(Refusal::BorrowMut),
{
}

/// Through the `RefCell`, no shared call runs inside an exclusive one, and
/// no exclusive call runs inside a shared one.
pub proof fn law_exclusive_excludes_shared(s: AccessState)
    requires
        s.stored == BorrowState::Empty,
    ensures
        spec_call_mut(s) is Runs ==> spec_call(spec_call_mut(s)->Runs_0) == Outcome::Refused(
            Refusal::Borrow,
        ),
        spec_call(s) is Runs ==> spec_call_mut(spec_call(s)->Runs_0) == Outcome::Refused(
            Refusal::BorrowMut,
        ),
{
}

/// Stored shared references nest, a stored exclusive one admits no other,
/// and no exclusive one is stored over another stored reference.
pub proof fn law_stored_handles(s: AccessState)
    ensures
        spec_store(s) is Runs ==> spec_store(spec_store(s)->Runs_0) is Runs,
        spec_store(s) is Runs ==> spec_store_mut(spec_store(s)->Runs_0) == Outcome::Refused(
            Refusal::Conflict,
        ),
        spec_store_mut(s) is Runs ==> spec_store(spec_store_mut(s)->Runs_0) == Outcome::Refused(
            Refusal::Conflict,
        ),
        spec_store_mut(s) is Runs ==> spec_store_mut(spec_store_mut(s)->Runs_0) == Outcome::Refused(
            Refusal::Conflict,
        ),
{
}

/// What a call took from the cell of stored references, and gives back.
struct BorrowGuard<'a> {
    cell: &'a Cell<BorrowState>,
    consumed: BorrowState,
}

impl BorrowState {
    /// Takes what is stored, leaving nothing stored for the duration of the
    /// call.
    fn consume(cell: &Cell<BorrowState>) -> (g: BorrowGuard<'_>)
        ensures
            g.cell == cell,
    {
        let consumed = cell_replace(cell, BorrowState::Empty);
        BorrowGuard { cell, consumed }
    }

    /// Stores a shared reference for the duration of the call.
    fn store(cell: &Cell<BorrowState>) -> (g: BorrowGuard<'_>)
        ensures
            g.cell == cell,
    {
        let consumed = cell_replace(cell, BorrowState::Immutable);
        BorrowGuard { cell, consumed }
    }

    /// Stores an exclusive reference for the duration of the call.
    fn store_mut(cell: &Cell<BorrowState>) -> (g: BorrowGuard<'_>)
        ensures
            g.cell == cell,
    {
        let consumed = cell_replace(cell, BorrowState::Mutable);
        BorrowGuard { cell, consumed }
    }
}

impl<'a> BorrowGuard<'a> {
    /// What was stored before the call.
    fn content(&self) -> (c: BorrowState)
        ensures
            c == self.consumed,
    {
        self.consumed
    }

    /// Gives back what was stored before the call.
    fn restore(self) {
        cell_set(self.cell, self.consumed);
    }
}

/// Why a call did not reach the object.
#[derive(Debug)]
pub enum RustObjAccessError {
    /// The `RefCell` refused a shared borrow.
    BorrowError(BorrowError),
    /// The `RefCell` refused an exclusive borrow.
    BorrowMutError(BorrowMutError),
    /// The stored reference forbids the access.
    BorrowConflict,
    /// The reference to store is not to the object held here.
    ForeignObject,
}

/// Access to a Rust object shared between Rust and C++.
#[verifier::reject_recursive_types(T)]
pub struct RustObjAccess<T: ?Sized> {
    /// The strong reference that keeps the object alive.
    shared_reference: Rc<RefCell<T>>,
    borrow: Cell<BorrowState>,
}

impl<T: ?Sized> RustObjAccess<T> {
    /// The strong reference held.
    pub closed spec fn shared(&self) -> Rc<RefCell<T>> {
        self.shared_reference
    }

    /// Takes over a strong reference to the object; nothing is stored.
    pub fn new(ptr: Rc<RefCell<T>>) -> (r: Self)
        ensures
            r.shared() == ptr,
    {
        RustObjAccess { shared_reference: ptr, borrow: cell_new(BorrowState::Empty) }
    }

    /// Another strong reference to the object.
    pub fn get_rc(&self) -> (r: Rc<RefCell<T>>)
        ensures
            r == self.shared(),
    {
        rc_clone(&self.shared_reference)
    }

    /// Whether `obj` is the object held here.
    fn contains(&self, obj: &T) -> bool {
        refers_to_contents(&*self.shared_reference, obj)
    }

    /// Calls `f` with a shared borrow of the `RefCell`, holding a strong
    /// reference to the object for the duration of the call.
    fn call_through_cell<F, R>(&self, f: F) -> (r: Result<R, RustObjAccessError>) where
        F: FnOnce(&T) -> R,
        requires
            forall|x: &T| f.requires((x,)),
        ensures
            r matches Ok(v) ==> returned_by(f, v),
            r matches Err(e) ==> e is BorrowError,
    {
        let rc = rc_clone(&self.shared_reference);
        let attempt = refcell_try_borrow(&*rc);
        match attempt {
            Ok(borrowed) => {
                let x = ref_get(&borrowed);
                let v = f(x);
                proof {
                    lemma_returned_by(f, x, v);
                }
                Ok(v)
            },
            Err(e) => Err(RustObjAccessError::BorrowError(e)),
        }
    }

    /// Calls `f` with an exclusive borrow of the `RefCell`, holding a strong
    /// reference to the object for the duration of the call.
    fn call_mut_through_cell<F, R>(&self, f: F) -> (r: Result<R, RustObjAccessError>) where
        F: FnOnce(&mut T) -> R,
        requires
            forall|x: &mut T| f.requires((x,)),
        ensures
            r matches Ok(v) ==> returned_by_mut(f, v),
            r matches Err(e) ==> e is BorrowMutError,
    {
        let rc = rc_clone(&self.shared_reference);
        let attempt = refcell_try_borrow_mut(&*rc);
        match attempt {
            Ok(mut borrowed) => {
                let x = ref_mut_get(&mut borrowed);
                let v = f(x);
                assert(returned_by_mut(f, v));
                Ok(v)
            },
            Err(e) => Err(RustObjAccessError::BorrowMutError(e)),
        }
    }

    /// Calls `f` with a shared reference to the object, along
    /// [`route_call`]: while a call into C++ has a reference stored, `f` is
    /// handed to `via_handle`, which serves it from that reference without a
    /// second borrow; otherwise the `RefCell` is borrowed. For the duration
    /// of the call nothing is stored, so a call that re-enters goes through
    /// the `RefCell`. The value is `f`'s result.
    pub fn try_call_rust_with_handle<F, R, G>(&self, f: F, via_handle: G) -> (r: Result<
        R,
        RustObjAccessError,
    >) where F: FnOnce(&T) -> R, G: FnOnce(F) -> R
        requires
            forall|x: &T| f.requires((x,)),
            via_handle.requires((f,)),
        ensures
            r matches Ok(v) ==> returned_by(f, v) || via_handle.ensures((f,), v),
            r matches Err(e) ==> e is BorrowError,
    {
        let guard = BorrowState::consume(&self.borrow);
        let r = if route_call(guard.content()) == CallRoute::Handle {
            Ok(via_handle(f))
        } else {
            self.call_through_cell(f)
        };
        guard.restore();
        r
    }

    /// Calls `f` with an exclusive reference to the object, along
    /// [`route_call_mut`]: while a call into C++ has an exclusive reference
    /// stored, `f` is handed to `via_handle`, which serves it from that
    /// reference; while a shared one is stored the call is refused;
    /// otherwise the `RefCell` is borrowed exclusively. For the duration of
    /// the call nothing is stored. The value is `f`'s result.
    pub fn try_call_rust_with_handle_mut<F, R, G>(&self, f: F, via_handle: G) -> (r: Result<
        R,
        RustObjAccessError,
    >) where F: FnOnce(&mut T) -> R, G: FnOnce(F) -> R
        requires
            forall|x: &mut T| f.requires((x,)),
            via_handle.requires((f,)),
        ensures
            r matches Ok(v) ==> returned_by_mut(f, v) || via_handle.ensures((f,), v),
            r matches Err(e) ==> e is BorrowMutError || e is BorrowConflict,
    {
        let guard = BorrowState::consume(&self.borrow);
        let route = route_call_mut(guard.content());
        let r = if route == CallRoute::Handle {
            Ok(via_handle(f))
        } else if route == CallRoute::Conflict {
            Err(RustObjAccessError::BorrowConflict)
        } else {
            self.call_mut_through_cell(f)
        };
        guard.restore();
        r
    }

    /// Stores the shared reference `rust_obj` to the object and calls `f`
    /// (into C++), which may re-enter. Refused while an exclusive reference
    /// is stored, and for a reference to another object. The value is `f`'s
    /// result; what was stored before is stored again afterwards.
    pub fn try_store_handle_and_call_cpp<F, R>(&self, rust_obj: &T, f: F) -> (r: Result<
        R,
        RustObjAccessError,
    >) where F: FnOnce() -> R
        requires
            f.requires(()),
        ensures
            r matches Ok(v) ==> f.ensures((), v),
            r matches Err(e) ==> e is BorrowConflict || e is ForeignObject,
    {
        if !self.contains(rust_obj) {
            return Err(RustObjAccessError::ForeignObject);
        }
        let guard = BorrowState::store(&self.borrow);
        if store_conflicts(guard.content()) {
            guard.restore();
            return Err(RustObjAccessError::BorrowConflict);
        }
        let v = f();
        guard.restore();
        Ok(v)
    }

    /// Stores the exclusive reference `rust_obj` to the object and calls
    /// `f` (into C++), which may re-enter. Refused while any reference is
    /// stored, and for a reference to another object. The value is `f`'s
    /// result; what was stored before is stored again afterwards.
    pub fn try_store_handle_and_call_cpp_mut<F, R>(&self, rust_obj: &mut T, f: F) -> (r: Result<
        R,
        RustObjAccessError,
    >) where F: FnOnce() -> R
        requires
            f.requires(()),
        ensures
            r matches Ok(v) ==> f.ensures((), v),
            r matches Err(e) ==> e is BorrowConflict || e is ForeignObject,
    {
        if !self.contains(rust_obj) {
            return Err(RustObjAccessError::ForeignObject);
        }
        let guard = BorrowState::store_mut(&self.borrow);
        if store_mut_conflicts(guard.content()) {
            guard.restore();
            return Err(RustObjAccessError::BorrowConflict);
        }
        let v = f();
        guard.restore();
        Ok(v)
    }
}

} // verus!

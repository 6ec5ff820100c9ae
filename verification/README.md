# qtbridge

The verified core of a bridge between Rust objects and Qt's meta-object
system, written in Verus.

- `src/access.rs`: shared access to a Rust object across the Rust/C++
  boundary (`RustObjAccess`), the decisions taken from the reference that a
  call into C++ has stored, the serving of a call back into Rust from that
  reference, and a model of nested accesses with its laws.
- `src/registry.rs`: the index of attached objects, their ownership, the
  owned count, and the sweep of a garbage collection (which objects are
  freed, which are handed to the QML engine, the next collection threshold).
- `src/qproperty.rs`: the `qproperty!` grammar over a token model, the
  validation of a declaration against the type's signals and accessors, and
  the plans of the generated registration, read and write code.
- `src/meta.rs`: the registration of all properties of a type.
- `app/`: the thread-local registry and its collection loop over the Qt
  ownership calls, the address of the stored reference and the proxies'
  dispatch macros, and the conversion between `syn` tokens and the
  library's plans.

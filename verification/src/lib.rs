//! Reconstruction of C type layouts from a graph of type descriptors.
//!
//! The descriptors are those that the debug information of a binary holds:
//! primitive types, aliases, structures, unions, enumerations, arrays and
//! modifiers, each with its size and, for composite types, the layout of its
//! members in bits. From these the library builds, for every wanted type and
//! all that it depends on, a packed C definition with explicit padding, and a
//! C program that checks the offset and the size of every field.
//!
//! A type whose layout cannot be told is left out, and the run records which
//! type that was and why.
//!
//! `driver::run` does a whole run. `process` holds the processors of the
//! kinds of types, `semantics` says what each of them does, and `advance`,
//! `memo`, `fidelity`, `cycle`, `fresh` and `distinct` prove what holds of
//! every run.

pub mod advance;
pub mod cycle;
pub mod distinct;
pub mod driver;
pub mod fidelity;
pub mod fresh;
pub mod ids;
pub mod layout;
pub mod member;
pub mod memo;
pub mod model;
pub mod names;
pub mod printer;
pub mod process;
pub mod semantics;
pub mod state;
pub mod text;

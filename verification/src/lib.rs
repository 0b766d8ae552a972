//! Scrap your boilerplate: write a transformation, a query or a mutation for
//! one type, and have it applied wherever a value of that type occurs inside
//! a value of any shape, without a traversal written by hand for every type
//! on the way.
//!
//! The pieces, from the bottom up:
//!
//! - [`Cast`] tests whether two types are one type and, if they are, hands
//!   a value of the one over as a value of the other.
//! - [`Transformation`], [`Query`] and [`Mutation`] lift a function on one
//!   type `U` to a function on every type: on a `U` they call the function,
//!   on anything else they are the identity, or return a fallback. They are
//!   the [`TransformForAll`], [`GenericQuery`] and [`MutateForAll`] that the
//!   library offers.
//! - [`Term`] is what a type implements to take part: one layer of
//!   traversal over its immediate children, for each of the three kinds of
//!   operation.
//! - [`Everywhere`] and [`EverywhereBut`] transform a whole term bottom up,
//!   [`Everything`] folds a query over it top down, and
//!   [`MutateEverything`] does the same while mutating it in place.
//!
//! # The model
//!
//! Contracts speak of values through [`tree_of`]: the [`Tree`] of a value
//! holds the [`Sort`] of its type, what the value holds itself, and the
//! trees of its immediate children. A type states its part of this in
//! [`Typed`]. A lifted function is specified as a relation between trees,
//! and a traversal as the relation that arises from it along the tree; the
//! module [`laws`] proves what follows for all terms.
//!
//! A function handed to the library is specified by what Verus knows of it:
//! its `requires` and `ensures`. A traversal requires, through `accepts`,
//! that every call it may make meets the `requires` of the function called.
//!
//! Whether a value is one of the type of a lifted function is decided by
//! the types, where the program runs. To a contract it is whether the tree
//! of the value has the mark of that type: [`mark`](model::mark) stands for
//! what `TypeId::of` gives. Two marks can be shown equal only where the two
//! types are one, and never different; that a value is of another type is
//! shown by its sort. So a lifted function is known to be applied to every
//! value of its type, and to leave alone every value of another sort.
//! What is done once the cast has been made is stated by
//! [`Transformation::apply`], [`Query::answer`] and [`Mutation::edit`].
//!
//! # Why `Term` names the traversals
//!
//! A traversal calls the protocol of a term, and the protocol calls the
//! traversal back for each child. Two traits that name each other cannot be
//! verified, so [`Term`] names the traversals themselves instead of a trait
//! that they implement: [`EverywhereBut`], of which [`Everywhere`] is the
//! case of a guard that lets it in anywhere, [`Everything`] and
//! [`MutateEverything`]. For the same reason the lifted functions take any
//! [`Typed`] value, of which every [`Term`] is one. The accumulator of a
//! fold is handed through the protocol and back, since a closure that
//! updates a variable of its caller is not available to verified code.

pub mod cast;
pub mod laws;
pub mod model;
pub mod mutation;
pub mod query;
pub mod term;
pub mod term_impls;
pub mod transform;
pub mod tuples;
pub mod typed;

pub use cast::Cast;
pub use model::{mark, Mark, Name, Sort, Tree};
pub use mutation::{MutateEverything, MutateForAll, Mutation};
pub use query::{ByDefault, Everything, Fallback, GenericQuery, Query};
pub use term::Term;
pub use transform::{Anywhere, Everywhere, EverywhereBut, TransformForAll, Transformation};
pub use typed::{is_a, tree_of, Typed};

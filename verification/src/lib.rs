//! A growable sequence container that keeps its own books: one buffer of
//! element slots, grown by amortized doubling, with a live element count
//! beside it. Every operation is verified against a model in which the
//! container is a `Seq<T>` laid over a sequence of optional slots.

pub mod josie_vec;

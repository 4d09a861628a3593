//! A schema-driven decoder for the saved games of grand-strategy titles.
//!
//! A saved game is text: nested blocks of `key = value` pairs in which a key
//! may repeat and no value says what type it has. Once tokenized ([`tape`]),
//! it is a token tree ([`token`]). A schema ([`schema`]) says which fields a
//! record has, under which keys they are written, how often they may occur
//! and how their values are read. The binder ([`binder`]) walks the tree as
//! the schema directs and produces typed values ([`value`]), reading scalars
//! with the value decoders ([`decoders`], [`number`], [`date`]) and
//! gathering every failure of every field into one report ([`error`]).
//!
//! What the binder computes is stated as mathematical functions in
//! [`semantics`]; [`laws`] holds what follows for every tree and every
//! schema. [`record`] and [`models`] read bound records into the structs of
//! a saved game, and [`document`] decodes a saved game from its text.
//! [`writers`] and [`encoder`] write values back as tokens and token trees,
//! and [`roundtrip`] shows that what was written binds to the same value
//! again.

pub mod binder;
pub mod date;
pub mod decoders;
pub mod digits;
pub mod document;
pub mod encoder;
pub mod error;
pub mod laws;
pub mod models;
pub mod number;
pub mod record;
pub mod roundtrip;
pub mod schema;
pub mod semantics;
pub mod tape;
pub mod token;
pub mod value;
pub mod writers;

//! The caching core of a chat bot for a rhythm game, and the small argument
//! and text rules of its commands.
//!
//! The cache mirrors the chat platform's entities and memoizes expensive
//! outside lookups in a key-value backend:
//!
//! - [`records`] and [`codec`]: the archive format of cached entities, with a
//!   validating decoder that gives back exactly what was encoded;
//! - [`keys`]: one key per entity and index;
//! - [`store`]: the backend's operations and what they do, as a model;
//! - [`entity`] and [`change`]: the operations of each entity write, and the
//!   count of index memberships it added;
//! - [`laws`]: what holds of those writes over the model;
//! - [`resource`]: the fetch-validate-populate protocol of outside lookups.
//!
//! The remaining modules hold the commands' argument rules ([`args`],
//! [`rank`], [`names`]) and pieces of their replies ([`osu`], [`embeds`],
//! [`errors`], [`labels`], [`stats_list`], [`text`]).
pub mod args;
pub mod change;
pub mod codec;
pub mod embeds;
pub mod entity;
pub mod errors;
pub mod keys;
pub mod labels;
pub mod laws;
pub mod names;
pub mod osu;
pub mod rank;
pub mod records;
pub mod resource;
pub mod stats_list;
pub mod store;
pub mod text;

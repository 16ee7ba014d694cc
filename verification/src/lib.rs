//! Turns a draft into a published record and its translation entry, and
//! builds the search index from the published records.
//!
//! A draft is a document: a metadata block of keys and values, and a body.
//! Publishing reads the draft, holds each field to its rule, derives the slug
//! and the author, and writes the record and the entry of the translation
//! catalog from their templates. Indexing reads the records and the catalogs
//! back, and joins each record with the title that the catalog holds for its
//! slug.
//!
//! Nothing here reads or writes a file: a command takes the texts it works on
//! and gives back the texts to write.
//!
//! - [`text`]: text as a sequence of Unicode scalar values: trimming,
//!   cutting, joining, replacing.
//! - [`table`]: keys with their values, in the order in which the keys came.
//! - [`grow`]: the record format: the fields and their rules, reading a
//!   document, filling a template, the slug, the instant of publication.
//! - [`config`]: the arguments of a command.
//! - [`command`]: the commands: publishing a draft, building the index, and
//!   what a command reports.

pub mod command;
pub mod config;
pub mod grow;
pub mod table;
pub mod text;

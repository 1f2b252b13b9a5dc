//! Small, self-contained programs about ownership, traits, closures and
//! collections, each with its behaviour stated and proved.

pub mod basics;
pub mod challenges;
pub mod closures;
pub mod collections;
pub mod colors;
pub mod company;
pub mod generics;
pub mod grep;
pub mod media;
pub mod messages;
pub mod pointers;
pub mod restaurant;
pub mod text;

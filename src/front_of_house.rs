//! The part of the restaurant that guests see.
pub mod hosting;
mod serving;

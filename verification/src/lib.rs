//! Random keys made of letters, symbols and digits.
//!
//! A [`RandKey`] holds how many characters of each class a key is to have,
//! the alphabet to draw them from, and the last key made. The counts are
//! integers of any size, read from decimal numerals; to make a key a count
//! is split into pieces of at most a unit, which are drawn side by side,
//! and the characters of all classes are then put in a random order.
//!
//! Every function of the library comes with a contract that Verus proves:
//! which texts are taken for numbers, what each change does to counts,
//! alphabet and key, when a key can be made, and that a made key has the
//! length and the counts that were asked for and is drawn from the
//! alphabet. What is taken on trust from `num-bigint`, `num-traits`, `rand`
//! and `rayon` stands in a few small functions, each with the name of the
//! call it makes.

pub mod alphabet;
pub mod chunk;
pub mod class;
pub mod count;
pub mod error;
pub mod items;
pub mod randkey;
pub mod sample;

pub use alphabet::{Alphabet, AlphabetView};
pub use class::CharClass;
pub use count::{AsBiguint, Count};
pub use error::GenError;
pub use randkey::{RandKey, RandKeyView, SetRandKeyOp, ToRandKey};

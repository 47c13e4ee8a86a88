//! A bookkeeping aid for solving monoalphabetic substitution ciphers by hand.
//!
//! The crate keeps a ciphertext together with a partial guess of the
//! substitution, shows the ciphertext through that guess, and flags guesses
//! that send two ciphertext letters to the same plaintext letter.
//!
//! * [`unicode`] holds what is taken on trust from the standard library.
//! * [`model`] is the substitution model with its invariant.
//! * [`command`] reads lines of input as commands and applies replacements.
//! * [`display`] turns what the model shows into lines of text.
//! * [`laws`] states what holds across updates.
//! * [`session`] carries out commands and says what to answer.

pub mod command;
pub mod display;
pub mod laws;
pub mod model;
pub mod session;
pub mod unicode;

pub use command::{Command, ReplaceError};
pub use display::{inverse_text, normal_text};
pub use model::{Cryptoquip, QuipView, RenderedChar};
pub use session::{initial_ciphertext, Reply, DEFAULT_CRYPTOGRAM};

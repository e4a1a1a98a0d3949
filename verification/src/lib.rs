//! A supervillain and the collaborators that carry out its plans.
//!
//! The [`Supervillain`] gives the orders. Its [`Sidekick`] agrees or not,
//! knows where the world is weak and keeps what it is told; a [`Henchman`]
//! does the work; a [`Cipher`] hides what is said; a weapon is fired. What
//! each of them is asked to do, and in which sequence, is stated in the
//! contracts of the supervillain's methods and proved.
//!
//! Nothing here reads a file or waits: a listing comes in as the text or the
//! lines that were read, and the plan is there at once.
mod chance;
pub mod cipher;
pub mod doubles;
pub mod gadget;
pub mod henchman;
pub mod listing;
pub mod sidekick;
pub mod supervillain;
pub mod text;

pub use cipher::Cipher;
pub use gadget::Gadget;
pub use henchman::Henchman;
pub use sidekick::Sidekick;
pub use supervillain::Supervillain;

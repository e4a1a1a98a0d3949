//! Gadgets, which a sidekick uses to find out where the world is weak.
use vstd::prelude::*;

verus! {

/// Something a sidekick can work with. What a gadget does is its own affair:
/// nothing here depends on it.
pub trait Gadget: Send {
    fn do_stuff(&self);
}

} // verus!

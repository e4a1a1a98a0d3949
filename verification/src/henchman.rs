//! Henchmen, who do what they are ordered to.
use vstd::prelude::*;

verus! {

/// One order given to a henchman.
#[derive(Debug, PartialEq, Eq)]
pub enum Order {
    /// Build a secret headquarters at the location.
    BuildSecretHq(String),
    /// Fight whoever stands in the way.
    FightEnemies,
    /// Do the hard work.
    DoHardThings,
}

/// An order as a plain value.
pub ghost enum OrderView {
    BuildSecretHq(Seq<char>),
    FightEnemies,
    DoHardThings,
}

impl View for Order {
    type V = OrderView;

    open spec fn view(&self) -> OrderView {
        match self {
            Order::BuildSecretHq(location) => OrderView::BuildSecretHq(location@),
            Order::FightEnemies => OrderView::FightEnemies,
            Order::DoHardThings => OrderView::DoHardThings,
        }
    }
}

/// Someone who takes orders.
///
/// A henchman remembers, at least in the eyes of the proof, every order it
/// was given and the sequence in which they came.
pub trait Henchman {
    /// The orders received so far, the oldest first.
    spec fn orders(&self) -> Seq<OrderView>;

    /// Orders a secret headquarters to be built at `location`.
    fn build_secret_hq(&mut self, location: String)
        ensures
            final(self).orders() == old(self).orders().push(OrderView::BuildSecretHq(location@)),
    ;

    /// Orders the hard work to be done.
    fn do_hard_things(&mut self)
        ensures
            final(self).orders() == old(self).orders().push(OrderView::DoHardThings),
    ;

    /// Orders the enemies to be fought.
    fn fight_enemies(&mut self)
        ensures
            final(self).orders() == old(self).orders().push(OrderView::FightEnemies),
    ;
}

} // verus!

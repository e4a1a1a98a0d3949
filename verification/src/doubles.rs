//! Plain collaborators that keep a record of what was asked of them.
//!
//! They serve to try a supervillain out: after the deed, the record shows
//! what the supervillain had them do.
use crate::cipher::Cipher;
use crate::henchman::{Henchman, Order, OrderView};
use crate::supervillain::Megaweapon;
use vstd::prelude::*;

verus! {

/// A henchman that writes every order into a log and does nothing else.
pub struct LoggingHenchman {
    /// The orders received, the oldest first.
    pub log: Vec<Order>,
}

impl LoggingHenchman {
    /// A henchman that has received no order yet.
    pub fn new() -> (made: LoggingHenchman)
        ensures
            made.orders() == Seq::<OrderView>::empty(),
    {
        LoggingHenchman { log: Vec::new() }
    }
}

impl Henchman for LoggingHenchman {
    open spec fn orders(&self) -> Seq<OrderView> {
        self.log@.map_values(|order: Order| order@)
    }

    fn build_secret_hq(&mut self, location: String) {
        self.log.push(Order::BuildSecretHq(location));
    }

    fn do_hard_things(&mut self) {
        self.log.push(Order::DoHardThings);
    }

    fn fight_enemies(&mut self) {
        self.log.push(Order::FightEnemies);
    }
}

/// A weapon that does no harm and counts how often it was fired.
pub struct CountingWeapon {
    count: u64,
    fired: Ghost<nat>,
}

impl CountingWeapon {
    /// The count keeps up with the shots as long as it can be told apart
    /// from a count that has run out of numbers.
    #[verifier::type_invariant]
    spec fn count_follows_shots(self) -> bool {
        if self.fired@ < u64::MAX {
            self.count == self.fired@
        } else {
            self.count == u64::MAX
        }
    }

    /// A weapon that was never fired.
    pub fn new() -> (made: CountingWeapon)
        ensures
            made.shots() == 0,
    {
        CountingWeapon { count: 0, fired: Ghost(0) }
    }

    /// How often this weapon was fired. A count of `u64::MAX` stands for
    /// that many shots or more.
    pub fn count(&self) -> (count: u64)
        ensures
            self.shots() < u64::MAX ==> count == self.shots(),
            self.shots() >= u64::MAX ==> count == u64::MAX,
    {
        proof {
            use_type_invariant(self);
        }
        self.count
    }
}

impl Megaweapon for CountingWeapon {
    closed spec fn shots(&self) -> nat {
        self.fired@
    }

    fn shoot(&mut self) {
        proof {
            use_type_invariant(&*self);
        }
        let count = if self.count < u64::MAX {
            self.count + 1
        } else {
            self.count
        };
        *self = CountingWeapon { count, fired: Ghost((self.fired@ + 1) as nat) };
    }
}

/// A cipher that hides nothing: it puts a wrapping before and behind the
/// secret and pays no heed to the key.
pub struct WrappingCipher {
    /// What is put before and behind the secret.
    pub wrapping: String,
}

impl Cipher for WrappingCipher {
    open spec fn ciphertext(&self, secret: Seq<char>, key: Seq<char>) -> Seq<char> {
        self.wrapping@ + secret + self.wrapping@
    }

    fn transform(&self, secret: &str, key: &str) -> (ciphered: String) {
        self.wrapping.clone().concat(secret).concat(self.wrapping.as_str())
    }
}

} // verus!

//! Sidekicks, the closest helpers of a supervillain.
use crate::gadget::Gadget;
use vstd::prelude::*;

verus! {

/// A sidekick: it holds a gadget, has a mind of its own, knows where the
/// world is weak, and keeps what it is told.
pub struct Sidekick<'a> {
    gadget: Box<dyn Gadget + 'a>,
    loyal: bool,
    weak_targets: Vec<String>,
    heard: Vec<String>,
}

/// What matters of a sidekick.
pub ghost struct SidekickView {
    /// Whether it agrees with its master's conspiracies.
    pub loyal: bool,
    /// The weak targets it knows of, in the sequence it names them.
    pub weak_targets: Seq<Seq<char>>,
    /// The ciphered messages it was told, the oldest first.
    pub heard: Seq<Seq<char>>,
}

impl<'a> View for Sidekick<'a> {
    type V = SidekickView;

    closed spec fn view(&self) -> SidekickView {
        SidekickView {
            loyal: self.loyal,
            weak_targets: self.weak_targets.deep_view(),
            heard: self.heard.deep_view(),
        }
    }
}

impl<'a> Sidekick<'a> {
    /// A loyal sidekick with `gadget` in hand, which knows no weak target
    /// yet and was told nothing.
    pub fn new<G: Gadget + 'a>(gadget: G) -> (made: Sidekick<'a>)
        ensures
            made@ == (SidekickView {
                loyal: true,
                weak_targets: Seq::empty(),
                heard: Seq::empty(),
            }),
    {
        let made = Sidekick {
            gadget: Box::new(gadget),
            loyal: true,
            weak_targets: Vec::new(),
            heard: Vec::new(),
        };
        assert(made.weak_targets.deep_view() =~= Seq::<Seq<char>>::empty());
        assert(made.heard.deep_view() =~= Seq::<Seq<char>>::empty());
        made
    }

    /// Makes this sidekick loyal, or disloyal.
    pub fn set_loyal(&mut self, loyal: bool)
        ensures
            final(self)@ == (SidekickView { loyal, ..old(self)@ }),
    {
        self.loyal = loyal;
    }

    /// Lets this sidekick know of `targets`, in place of those it knew.
    pub fn set_weak_targets(&mut self, targets: Vec<String>)
        ensures
            final(self)@ == (SidekickView { weak_targets: targets.deep_view(), ..old(self)@ }),
    {
        self.weak_targets = targets;
    }

    /// The ciphered messages that this sidekick was told, the oldest first.
    pub fn heard(&self) -> (messages: &Vec<String>)
        ensures
            messages.deep_view() == self@.heard,
    {
        &self.heard
    }

    /// Whether this sidekick goes along with a conspiracy.
    pub fn agree(&self) -> (agreed: bool)
        ensures
            agreed == self@.loyal,
    {
        self.loyal
    }

    /// The weak targets that this sidekick knows of, the most promising
    /// first. The gadget is at its disposal for the search.
    pub fn get_weak_targets<G: Gadget>(&self, _gadget: &G) -> (targets: Vec<String>)
        ensures
            targets.deep_view() == self@.weak_targets,
    {
        let mut targets: Vec<String> = Vec::new();
        let mut at: usize = 0;
        while at < self.weak_targets.len()
            invariant
                at <= self.weak_targets.len(),
                targets.deep_view() == self.weak_targets.deep_view().take(at as int),
            decreases self.weak_targets.len() - at,
        {
            let ghost before = targets.deep_view();
            targets.push(self.weak_targets[at].clone());
            assert(targets.deep_view() =~= before.push(self.weak_targets[at as int]@));
            at = at + 1;
        }
        targets
    }

    /// Hands this sidekick a ciphered message, which it keeps.
    pub fn tell(&mut self, ciphered_msg: &str)
        ensures
            final(self)@ == (SidekickView {
                heard: old(self)@.heard.push(ciphered_msg@),
                ..old(self)@
            }),
    {
        let ghost before = self.heard.deep_view();
        self.heard.push(ciphered_msg.to_owned());
        assert(self.heard.deep_view() =~= before.push(ciphered_msg@));
    }
}

} // verus!

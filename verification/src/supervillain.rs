//! Supervillains and what they do to take over the world.
use crate::chance::draw_between;
use crate::cipher::Cipher;
use crate::gadget::Gadget;
use crate::henchman::{Henchman, OrderView};
use crate::listing::{
    listing_has_weak_line, reads_view, stream_has_weak_line, streamed_verdict, whole_verdict,
};
use crate::sidekick::{Sidekick, SidekickView};
use crate::text::{
    lemma_join_of_split, lemma_split_on_one_more_piece, lemma_split_on_without_sep, split,
    split_on,
};
use vstd::prelude::*;

verus! {

/// How long a supervillain thinks before a plan is ready, in milliseconds.
pub const THINKING_TIME_MILLIS: u64 = 100;

/// A supervillain.
pub struct Supervillain<'a> {
    pub first_name: String,
    pub last_name: String,
    /// The sidekick, as long as there is one.
    pub sidekick: Option<Sidekick<'a>>,
    /// The key under which secrets for the sidekick are ciphered.
    pub shared_key: String,
}

/// What matters of a supervillain.
pub ghost struct SupervillainView {
    pub first_name: Seq<char>,
    pub last_name: Seq<char>,
    pub sidekick: Option<SidekickView>,
    pub shared_key: Seq<char>,
}

impl<'a> View for Supervillain<'a> {
    type V = SupervillainView;

    open spec fn view(&self) -> SupervillainView {
        SupervillainView {
            first_name: self.first_name@,
            last_name: self.last_name@,
            sidekick: match self.sidekick {
                Some(present) => Some(present@),
                None => None,
            },
            shared_key: self.shared_key@,
        }
    }
}

/// A weapon of mass destruction, which counts its shots.
pub trait Megaweapon {
    /// How often this weapon has been fired.
    spec fn shots(&self) -> nat;

    /// Fires the weapon once.
    fn shoot(&mut self)
        ensures
            final(self).shots() == old(self).shots() + 1,
    ;
}

/// What can go wrong in the making of a supervillain.
#[derive(Debug)]
pub enum EvilError {
    /// A text could not be understood as what `purpose` names, for `reason`.
    ParseError { purpose: String, reason: String },
}

/// An error as a plain value.
pub ghost enum EvilErrorView {
    ParseError { purpose: Seq<char>, reason: Seq<char> },
}

impl View for EvilError {
    type V = EvilErrorView;

    open spec fn view(&self) -> EvilErrorView {
        match self {
            EvilError::ParseError { purpose, reason } => EvilErrorView::ParseError {
                purpose: purpose@,
                reason: reason@,
            },
        }
    }
}

/// The parts of a name: what stands between its single spaces.
pub open spec fn name_components(name: Seq<char>) -> Seq<Seq<char>> {
    split_on(name, ' ')
}

/// A first and a last name written as one full name.
pub open spec fn joined_name(first_name: Seq<char>, last_name: Seq<char>) -> Seq<char> {
    first_name.push(' ') + last_name
}

/// What becomes of a full name: a supervillain with the first two parts of
/// `name` for first and last name, without sidekick or key, or the refusal of
/// a name of fewer than two parts.
pub open spec fn supervillain_of_name(name: Seq<char>) -> Result<SupervillainView, EvilErrorView> {
    let parts = name_components(name);
    if parts.len() >= 2 {
        Ok(
            SupervillainView {
                first_name: parts[0],
                last_name: parts[1],
                sidekick: None,
                shared_key: Seq::empty(),
            },
        )
    } else {
        Err(EvilErrorView::ParseError { purpose: "full_name"@, reason: "Too few arguments"@ })
    }
}

/// What an error says of itself.
pub open spec fn message_of(error: EvilErrorView) -> Seq<char> {
    match error {
        EvilErrorView::ParseError { purpose, reason } => "Parse error: purpose='"@ + purpose
            + "', reason='"@ + reason + "'"@,
    }
}

/// How often an attack fires its weapon: once, and `extra` times more when
/// it is intense.
pub open spec fn shots_of_attack(intense: bool, extra: nat) -> nat {
    if intense {
        1 + extra
    } else {
        1
    }
}

/// The sidekick that is left after a conspiracy: the one there was, unless
/// it disagreed.
pub open spec fn sidekick_after_conspiracy(sidekick: Option<SidekickView>) -> Option<
    SidekickView,
> {
    match sidekick {
        Some(present) => if present.loyal {
            sidekick
        } else {
            None
        },
        None => None,
    }
}

/// The orders a henchman has after the first stage, given what the sidekick,
/// if there is one, knows: one more, to build at the first weak target, when
/// there is a first weak target.
pub open spec fn orders_after_stage1(
    before: Seq<OrderView>,
    sidekick: Option<SidekickView>,
) -> Seq<OrderView> {
    match sidekick {
        Some(present) => if present.weak_targets.len() > 0 {
            before.push(OrderView::BuildSecretHq(present.weak_targets[0]))
        } else {
            before
        },
        None => before,
    }
}

/// The orders a henchman has after the second stage: to fight, and then to
/// do the hard work.
pub open spec fn orders_after_stage2(before: Seq<OrderView>) -> Seq<OrderView> {
    before.push(OrderView::FightEnemies).push(OrderView::DoHardThings)
}

/// The sidekick, if there is one, after it was told `message`.
pub open spec fn sidekick_after_telling(
    sidekick: Option<SidekickView>,
    message: Seq<char>,
) -> Option<SidekickView> {
    match sidekick {
        Some(present) => Some(SidekickView { heard: present.heard.push(message), ..present }),
        None => None,
    }
}

/// A text as a plain value, where there is one.
pub open spec fn text_view(text: Option<&str>) -> Option<Seq<char>> {
    match text {
        Some(present) => Some(present@),
        None => None,
    }
}

/// The lines of a stream as plain values, where there is a stream.
pub open spec fn stream_view(reads: Option<&Vec<Option<String>>>) -> Option<
    Seq<Option<Seq<char>>>,
> {
    match reads {
        Some(present) => Some(reads_view(present@)),
        None => None,
    }
}

/// A name of exactly two parts is its two parts joined again.
pub proof fn lemma_two_part_name_is_joined(name: Seq<char>)
    requires
        name_components(name).len() == 2,
    ensures
        joined_name(name_components(name)[0], name_components(name)[1]) == name,
{
    let parts = name_components(name);
    lemma_join_of_split(name, ' ');
    assert(crate::text::join_with(parts.drop_last(), ' ') == parts[0]);
}

/// A first and a last name without a space in them, written as one full
/// name, are the two parts of that name.
pub proof fn lemma_joined_name_has_two_parts(first_name: Seq<char>, last_name: Seq<char>)
    requires
        !first_name.contains(' '),
        !last_name.contains(' '),
    ensures
        name_components(joined_name(first_name, last_name)) == seq![first_name, last_name],
{
    lemma_split_on_without_sep(first_name, ' ');
    lemma_split_on_one_more_piece(first_name, ' ', last_name);
}

/// A supervillain made of a name of exactly two parts has that name for its
/// full name.
pub proof fn lemma_supervillain_of_two_part_name(name: Seq<char>)
    requires
        name_components(name).len() == 2,
    ensures
        supervillain_of_name(name) matches Ok(villain) && joined_name(
            villain.first_name,
            villain.last_name,
        ) == name,
{
    lemma_two_part_name_is_joined(name);
}

/// A second conspiracy changes nothing: the sidekick that stayed after the
/// first stays after the next.
pub proof fn lemma_conspiracy_is_idempotent(sidekick: Option<SidekickView>)
    ensures
        sidekick_after_conspiracy(sidekick_after_conspiracy(sidekick))
            == sidekick_after_conspiracy(sidekick),
{
}

/// The second stage adds two orders and no more to those a henchman had: to
/// fight comes first, the hard work directly after it.
pub proof fn lemma_stage2_fights_before_hard_work(before: Seq<OrderView>)
    ensures
        orders_after_stage2(before).len() == before.len() + 2,
        orders_after_stage2(before).take(before.len() as int) == before,
        orders_after_stage2(before)[before.len() as int] == OrderView::FightEnemies,
        orders_after_stage2(before)[before.len() as int + 1] == OrderView::DoHardThings,
{
}

impl<'a> Default for Supervillain<'a> {
    /// A supervillain without names, sidekick or key.
    fn default() -> (made: Supervillain<'a>)
        ensures
            made@ == (SupervillainView {
                first_name: Seq::empty(),
                last_name: Seq::empty(),
                sidekick: None,
                shared_key: Seq::empty(),
            }),
    {
        Supervillain {
            first_name: String::new(),
            last_name: String::new(),
            sidekick: None,
            shared_key: String::new(),
        }
    }
}

impl<'a> TryFrom<&str> for Supervillain<'a> {
    type Error = EvilError;

    /// Makes a supervillain of a full name, taking the first two parts of
    /// `name` for first and last name and passing over any further part. A
    /// name of fewer than two parts is refused.
    fn try_from(name: &str) -> (made: Result<Supervillain<'a>, EvilError>)
        ensures
            match made {
                Ok(villain) => supervillain_of_name(name@) == Ok::<
                    SupervillainView,
                    EvilErrorView,
                >(villain@),
                Err(error) => supervillain_of_name(name@) == Err::<
                    SupervillainView,
                    EvilErrorView,
                >(error@),
            },
    {
        let components = split(name, ' ');
        if components.len() < 2 {
            Err(
                EvilError::ParseError {
                    purpose: "full_name".to_owned(),
                    reason: "Too few arguments".to_owned(),
                },
            )
        } else {
            Ok(
                Supervillain {
                    first_name: components[0].clone(),
                    last_name: components[1].clone(),
                    sidekick: None,
                    shared_key: String::new(),
                },
            )
        }
    }
}

/// What `try_from` returns is stated on `try_from` itself, over the views of
/// the supervillain and of the error.
impl<'a> vstd::std_specs::convert::TryFromSpecImpl<&str> for Supervillain<'a> {
    open spec fn obeys_try_from_spec() -> bool {
        false
    }

    open spec fn try_from_spec(name: &str) -> Result<Self, EvilError> {
        arbitrary()
    }
}

impl EvilError {
    /// The message of this error.
    pub fn to_string(&self) -> (message: String)
        ensures
            message@ == message_of(self@),
    {
        match self {
            EvilError::ParseError { purpose, reason } => {
                "Parse error: purpose='".to_owned().concat(purpose.as_str()).concat(
                    "', reason='",
                ).concat(reason.as_str()).concat("'")
            },
        }
    }
}

impl<'a> Supervillain<'a> {
    /// The full name as a plain value.
    pub open spec fn spec_full_name(&self) -> Seq<char> {
        joined_name(self.first_name@, self.last_name@)
    }

    /// The full name: the first name, a space, and the last name. It is
    /// never empty, since the space is always there.
    pub fn full_name(&self) -> (name: String)
        ensures
            name@ == self.spec_full_name(),
            name@.len() == self.first_name@.len() + 1 + self.last_name@.len(),
    {
        proof {
            reveal_strlit(" ");
        }
        self.first_name.clone().concat(" ").concat(self.last_name.as_str())
    }

    /// Takes first and last name from `name`, which must consist of exactly
    /// these two, with a single space between them.
    pub fn set_full_name(&mut self, name: &str)
        requires
            name_components(name@).len() == 2,
        ensures
            final(self)@ == (SupervillainView {
                first_name: name_components(name@)[0],
                last_name: name_components(name@)[1],
                ..old(self)@
            }),
            final(self).sidekick == old(self).sidekick,
            final(self).spec_full_name() == name@,
    {
        let components = split(name, ' ');
        self.first_name = components[0].clone();
        self.last_name = components[1].clone();
        proof {
            lemma_two_part_name_is_joined(name@);
        }
    }

    /// Fires `weapon` once, and `extra` times more if the attack is intense.
    pub fn attack_with_extra_shots<W: Megaweapon>(&self, weapon: &mut W, intense: bool, extra: u32)
        ensures
            final(weapon).shots() == old(weapon).shots() + shots_of_attack(intense, extra as nat),
    {
        weapon.shoot();
        if intense {
            let mut fired: u32 = 0;
            while fired < extra
                invariant
                    fired <= extra,
                    weapon.shots() == old(weapon).shots() + 1 + fired,
                decreases extra - fired,
            {
                weapon.shoot();
                fired = fired + 1;
            }
        }
    }

    /// Fires `weapon` once, and if the attack is intense once or twice more,
    /// as chance has it.
    pub fn attack<W: Megaweapon>(&self, weapon: &mut W, intense: bool)
        ensures
            !intense ==> final(weapon).shots() == old(weapon).shots() + 1,
            intense ==> old(weapon).shots() + 2 <= final(weapon).shots() <= old(weapon).shots()
                + 3,
    {
        let extra = if intense {
            draw_between(1, 3)
        } else {
            0
        };
        self.attack_with_extra_shots(weapon, intense, extra);
    }

    /// The plan, once the thinking is done.
    pub fn come_up_with_plan(&self) -> (plan: String)
        ensures
            plan@ == "Take over the world!"@,
    {
        "Take over the world!".to_owned()
    }

    /// Asks the sidekick, if there is one, whether it agrees, and parts with
    /// one that does not.
    pub fn conspire(&mut self)
        ensures
            final(self)@ == (SupervillainView {
                sidekick: sidekick_after_conspiracy(old(self)@.sidekick),
                ..old(self)@
            }),
            final(self).sidekick is Some ==> final(self).sidekick == old(self).sidekick,
    {
        let disagrees = match &self.sidekick {
            Some(sidekick) => !sidekick.agree(),
            None => false,
        };
        if disagrees {
            self.sidekick = None;
        }
    }

    /// Has `henchman` build a secret headquarters at the first weak target
    /// that the sidekick finds with `gadget`. Without a sidekick, or without
    /// a weak target, nothing is ordered.
    pub fn start_world_domination_stage1<H: Henchman, G: Gadget>(
        &self,
        henchman: &mut H,
        gadget: &G,
    )
        ensures
            final(henchman).orders() == orders_after_stage1(old(henchman).orders(), self@.sidekick),
    {
        match &self.sidekick {
            Some(sidekick) => {
                let targets = sidekick.get_weak_targets(gadget);
                if targets.len() > 0 {
                    henchman.build_secret_hq(targets[0].clone());
                }
            },
            None => {},
        }
    }

    /// Has `henchman` fight the enemies and then do the hard work, and hands
    /// the henchman back.
    pub fn start_world_domination_stage2<H: Henchman>(&self, henchman: H) -> (done: H)
        ensures
            done.orders() == orders_after_stage2(henchman.orders()),
    {
        let mut henchman = henchman;
        henchman.fight_enemies();
        henchman.do_hard_things();
        henchman
    }

    /// Tells the sidekick, if there is one, the `secret`, ciphered by
    /// `cipher` under the shared key. Without a sidekick nothing happens.
    pub fn tell_plans<C: Cipher>(&mut self, secret: &str, cipher: &C)
        ensures
            final(self)@ == (SupervillainView {
                sidekick: sidekick_after_telling(
                    old(self)@.sidekick,
                    cipher.ciphertext(secret@, old(self)@.shared_key),
                ),
                ..old(self)@
            }),
    {
        match &mut self.sidekick {
            Some(sidekick) => {
                let ciphered_msg = cipher.transform(secret, self.shared_key.as_str());
                sidekick.tell(ciphered_msg.as_str());
            },
            None => {},
        }
    }

    /// Whether the listing, read in one piece, names a vulnerable location.
    /// `listing` is the text that was read, or nothing where the listing
    /// could not be opened or read to its end; then there is no answer.
    pub fn are_there_vulnerable_locations(&self, listing: Option<&str>) -> (verdict: Option<bool>)
        ensures
            verdict == whole_verdict(text_view(listing)),
    {
        match listing {
            Some(text) => Some(listing_has_weak_line(text)),
            None => None,
        }
    }

    /// Whether the listing, read line by line, names a vulnerable location.
    /// `reads` holds what the reader gave for each line, nothing for a line
    /// that did not decode, or is nothing itself where the listing could not
    /// be opened; then there is no answer.
    pub fn are_there_vulnerable_locations_efficient(
        &self,
        reads: Option<&Vec<Option<String>>>,
    ) -> (verdict: Option<bool>)
        ensures
            verdict == streamed_verdict(stream_view(reads)),
    {
        match reads {
            Some(lines) => Some(stream_has_weak_line(lines)),
            None => None,
        }
    }
}

} // verus!

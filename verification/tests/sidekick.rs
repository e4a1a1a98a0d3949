use evil::{Gadget, Sidekick};

struct Trinket;

impl Gadget for Trinket {
    fn do_stuff(&self) {}
}

#[test]
fn new_sidekick_agrees() {
    assert!(Sidekick::new(Trinket).agree());
}

#[test]
fn new_sidekick_knows_no_weak_target() {
    assert!(Sidekick::new(Trinket).get_weak_targets(&Trinket).is_empty());
}

#[test]
fn new_sidekick_was_told_nothing() {
    assert!(Sidekick::new(Trinket).heard().is_empty());
}

#[test]
fn sidekick_agrees_as_long_as_it_is_loyal() {
    let mut sidekick = Sidekick::new(Trinket);
    sidekick.set_loyal(false);
    assert!(!sidekick.agree());
    sidekick.set_loyal(true);
    assert!(sidekick.agree());
}

#[test]
fn sidekick_names_its_weak_targets_in_their_sequence() {
    let mut sidekick = Sidekick::new(Trinket);
    sidekick.set_weak_targets(vec![String::from("Metropolis"), String::from("Gotham")]);
    assert_eq!(
        sidekick.get_weak_targets(&Trinket),
        vec![String::from("Metropolis"), String::from("Gotham")]
    );
    assert_eq!(
        sidekick.get_weak_targets(&Trinket),
        vec![String::from("Metropolis"), String::from("Gotham")]
    );
    sidekick.set_weak_targets(vec![String::from("Smallville")]);
    assert_eq!(sidekick.get_weak_targets(&Trinket), vec![String::from("Smallville")]);
}

#[test]
fn sidekick_keeps_what_it_is_told() {
    let mut sidekick = Sidekick::new(Trinket);
    sidekick.tell("first");
    sidekick.tell("second");
    assert_eq!(sidekick.heard(), &vec![String::from("first"), String::from("second")]);
    assert!(sidekick.agree());
    assert!(sidekick.get_weak_targets(&Trinket).is_empty());
}

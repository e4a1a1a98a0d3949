use evil::doubles::{CountingWeapon, LoggingHenchman, WrappingCipher};
use evil::henchman::{Henchman, Order};
use evil::supervillain::Megaweapon;
use evil::Cipher;

#[test]
fn counting_weapon_counts_its_shots() {
    let mut weapon = CountingWeapon::new();
    assert_eq!(weapon.count(), 0);
    weapon.shoot();
    assert_eq!(weapon.count(), 1);
    weapon.shoot();
    weapon.shoot();
    assert_eq!(weapon.count(), 3);
}

#[test]
fn logging_henchman_logs_orders_as_they_come() {
    let mut henchman = LoggingHenchman::new();
    assert!(henchman.log.is_empty());
    henchman.do_hard_things();
    henchman.build_secret_hq(String::from("Gotham"));
    henchman.fight_enemies();
    henchman.do_hard_things();
    assert_eq!(
        henchman.log,
        vec![
            Order::DoHardThings,
            Order::BuildSecretHq(String::from("Gotham")),
            Order::FightEnemies,
            Order::DoHardThings,
        ]
    );
}

#[test]
fn wrapping_cipher_wraps_the_secret() {
    let cipher = WrappingCipher { wrapping: String::from("+") };
    assert_eq!(cipher.transform("LAUNCH", "key"), "+LAUNCH+");
    assert_eq!(cipher.transform("", ""), "++");
    let cipher = WrappingCipher { wrapping: String::from("<>") };
    assert_eq!(cipher.transform("x", "another key"), "<>x<>");
}

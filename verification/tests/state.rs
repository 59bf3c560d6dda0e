use fixfifa::state::{Club, GlobalData, Player, State};
use fixfifa::text::decimal;

#[test]
fn decimals() {
    assert_eq!(decimal(0), "0");
    assert_eq!(decimal(-42), "-42");
    assert_eq!(decimal(29227), "29227");
    assert_eq!(decimal(i64::MIN), "-9223372036854775808");
}

#[test]
fn unknown_club_and_player() {
    let p = Player::new();
    assert_eq!((p.id(), p.name()), (-1, ""));
    let c = Club::new();
    assert_eq!(c.to_string(), "Club: id=-1, name=, abbr=");
    assert!(c.players().is_empty());
    assert_eq!(c.captain().id(), -1);
}

#[test]
fn club_is_written_out() {
    let c = Club::with(29227, "Atletico Squad", "AS", vec![Player::with(1, "a")], Player::with(2, "b"));
    assert_eq!(c.to_string(), "Club: id=29227, name=Atletico Squad, abbr=AS");
}

#[test]
fn new_state_has_two_unknown_clubs() {
    let s = State::new();
    assert_eq!(
        s.to_string(),
        "team0=Club: id=-1, name=, abbr= team1=Club: id=-1, name=, abbr="
    );
}

#[test]
fn global_data_parts() {
    let g = GlobalData::with(vec![Club::with(24154, "Fecking Pirates", "FEK", vec![], Player::new())], "v1", 3);
    assert_eq!(g.bad_clubs().len(), 1);
    assert_eq!(g.bad_clubs()[0].abbr(), "FEK");
    assert_eq!(g.version_name(), "v1");
    assert_eq!(*g.version_code(), 3);
}

#[test]
fn state_of_a_match() {
    let home = Club::with(24249, "Bazinga", "BAZ", vec![], Player::with(7, "Ecc0Problems"));
    let away = Club::with(822, "Hulkfc", "WOB", vec![], Player::with(8, "teeee2011"));
    let s = State::with(home, away);
    assert_eq!(s.team0().id(), 24249);
    assert_eq!(s.team1().abbr(), "WOB");
    assert_eq!(
        s.to_string(),
        "team0=Club: id=24249, name=Bazinga, abbr=BAZ team1=Club: id=822, name=Hulkfc, abbr=WOB"
    );
}

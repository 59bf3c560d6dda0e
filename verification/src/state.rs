//! The game state the hacks keep: players, clubs, the two teams of a match, and the
//! blacklist that is fetched at start-up.
use vstd::prelude::*;
use crate::text::{decimal, int_decimal, owned};

verus! {

/// What a player is.
pub struct PlayerView {
    pub id: int,
    pub name: Seq<char>,
}

/// A player, by id and name.
pub struct Player {
    id: i32,
    name: String,
}

impl View for Player {
    type V = PlayerView;

    closed spec fn view(&self) -> PlayerView {
        PlayerView { id: self.id as int, name: self.name@ }
    }
}

impl Player {
    /// The unknown player: id -1, no name.
    pub fn new() -> (p: Player)
        ensures
            p@.id == -1,
            p@.name == Seq::<char>::empty(),
    {
        Player { id: -1, name: String::new() }
    }

    /// The player with this id and name.
    pub fn with(id: i32, name: &str) -> (p: Player)
        ensures
            p@.id == id,
            p@.name == name@,
    {
        Player { id, name: owned(name) }
    }

    pub fn id(&self) -> (r: i32)
        ensures
            r == self@.id,
    {
        self.id
    }

    pub fn name(&self) -> (r: &str)
        ensures
            r@ == self@.name,
    {
        self.name.as_str()
    }
}

/// What a club is.
pub struct ClubView {
    pub id: int,
    pub name: Seq<char>,
    pub abbr: Seq<char>,
    pub players: Seq<PlayerView>,
    pub captain: PlayerView,
}

/// A club: its id, name and abbreviation, its players and its captain.
pub struct Club {
    id: i32,
    name: String,
    abbr: String,
    players: Vec<Player>,
    captain: Player,
}

impl View for Club {
    type V = ClubView;

    closed spec fn view(&self) -> ClubView {
        ClubView {
            id: self.id as int,
            name: self.name@,
            abbr: self.abbr@,
            players: self.players@.map_values(|p: Player| p@),
            captain: self.captain@,
        }
    }
}

/// How a club is written out: "Club: id=…, name=…, abbr=…".
pub open spec fn club_text(c: ClubView) -> Seq<char> {
    "Club: id="@ + int_decimal(c.id) + ", name="@ + c.name + ", abbr="@ + c.abbr
}

impl Club {
    /// The unknown club: id -1, no name, no abbreviation, no players, and the
    /// unknown player as captain.
    pub fn new() -> (c: Club)
        ensures
            c@.id == -1,
            c@.name == Seq::<char>::empty(),
            c@.abbr == Seq::<char>::empty(),
            c@.players == Seq::<PlayerView>::empty(),
            c@.captain == (PlayerView { id: -1, name: Seq::empty() }),
    {
        let c = Club {
            id: -1,
            name: String::new(),
            abbr: String::new(),
            players: Vec::new(),
            captain: Player::new(),
        };
        assert(c@.players =~= Seq::<PlayerView>::empty());
        c
    }

    /// The club with these parts.
    pub fn with(id: i32, name: &str, abbr: &str, players: Vec<Player>, captain: Player) -> (c: Club)
        ensures
            c@.id == id,
            c@.name == name@,
            c@.abbr == abbr@,
            c@.players == players@.map_values(|p: Player| p@),
            c@.captain == captain@,
    {
        Club { id, name: owned(name), abbr: owned(abbr), players, captain }
    }

    pub fn id(&self) -> (r: i32)
        ensures
            r == self@.id,
    {
        self.id
    }

    pub fn name(&self) -> (r: &str)
        ensures
            r@ == self@.name,
    {
        self.name.as_str()
    }

    pub fn abbr(&self) -> (r: &str)
        ensures
            r@ == self@.abbr,
    {
        self.abbr.as_str()
    }

    pub fn players(&self) -> (r: &Vec<Player>)
        ensures
            r@.map_values(|p: Player| p@) == self@.players,
    {
        &self.players
    }

    pub fn captain(&self) -> (r: &Player)
        ensures
            r@ == self@.captain,
    {
        &self.captain
    }

    /// The club written out, as its `Display` has it.
    pub fn to_string(&self) -> (s: String)
        ensures
            s@ == club_text(self@),
    {
        proof {
            reveal_strlit("Club: id=");
            reveal_strlit(", name=");
            reveal_strlit(", abbr=");
        }
        let mut s = owned("Club: id=");
        s.append(decimal(self.id as i64).as_str());
        s.append(", name=");
        s.append(self.name.as_str());
        s.append(", abbr=");
        s.append(self.abbr.as_str());
        s
    }
}

/// What the blacklist data is.
pub struct GlobalDataView {
    pub bad_clubs: Seq<ClubView>,
    pub version_name: Seq<char>,
    pub version_code: int,
}

/// The data fetched at start-up: the clubs known to cheat, and the version of the list.
pub struct GlobalData {
    bad_clubs: Vec<Club>,
    version_name: String,
    version_code: u16,
}

impl View for GlobalData {
    type V = GlobalDataView;

    closed spec fn view(&self) -> GlobalDataView {
        GlobalDataView {
            bad_clubs: self.bad_clubs@.map_values(|c: Club| c@),
            version_name: self.version_name@,
            version_code: self.version_code as int,
        }
    }
}

impl GlobalData {
    /// The data with these parts, as the published list gives them.
    pub fn with(bad_clubs: Vec<Club>, version_name: &str, version_code: u16) -> (g: GlobalData)
        ensures
            g@.bad_clubs == bad_clubs@.map_values(|c: Club| c@),
            g@.version_name == version_name@,
            g@.version_code == version_code,
    {
        GlobalData { bad_clubs, version_name: owned(version_name), version_code }
    }

    /// The clubs known to cheat.
    pub fn bad_clubs(&self) -> (r: &Vec<Club>)
        ensures
            r@.map_values(|c: Club| c@) == self@.bad_clubs,
    {
        &self.bad_clubs
    }

    /// The name of the list's version.
    pub fn version_name(&self) -> (r: &String)
        ensures
            r@ == self@.version_name,
    {
        &self.version_name
    }

    /// The number of the list's version.
    pub fn version_code(&self) -> (r: &u16)
        ensures
            *r == self@.version_code,
    {
        &self.version_code
    }
}

/// What the state of a match is.
pub struct StateView {
    pub team0: ClubView,
    pub team1: ClubView,
}

/// The two clubs of a match.
pub struct State {
    team0: Club,
    team1: Club,
}

impl View for State {
    type V = StateView;

    closed spec fn view(&self) -> StateView {
        StateView { team0: self.team0@, team1: self.team1@ }
    }
}

impl State {
    /// A match of two unknown clubs.
    pub fn new() -> (s: State)
        ensures
            s@.team0 == s@.team1,
            s@.team0.id == -1,
            s@.team0.name == Seq::<char>::empty(),
            s@.team0.abbr == Seq::<char>::empty(),
            s@.team0.players == Seq::<PlayerView>::empty(),
            s@.team0.captain == (PlayerView { id: -1, name: Seq::empty() }),
    {
        State { team0: Club::new(), team1: Club::new() }
    }

    /// The state of a match between `team0` and `team1`.
    pub fn with(team0: Club, team1: Club) -> (s: State)
        ensures
            s@.team0 == team0@,
            s@.team1 == team1@,
    {
        State { team0, team1 }
    }

    pub fn team0(&self) -> (r: &Club)
        ensures
            r@ == self@.team0,
    {
        &self.team0
    }

    pub fn team1(&self) -> (r: &Club)
        ensures
            r@ == self@.team1,
    {
        &self.team1
    }

    /// The match written out, as its `Display` has it: "team0=… team1=…".
    pub fn to_string(&self) -> (s: String)
        ensures
            s@ == "team0="@ + club_text(self@.team0) + " team1="@ + club_text(self@.team1),
    {
        proof {
            reveal_strlit("team0=");
            reveal_strlit(" team1=");
        }
        let mut s = owned("team0=");
        s.append(self.team0.to_string().as_str());
        s.append(" team1=");
        s.append(self.team1.to_string().as_str());
        s
    }
}

} // verus!

use fixfifa::event::{club_id_part, GroupAttribute};

#[test]
fn attribute_from_event_data() {
    let g = GroupAttribute::from_str("I_29227;O_AMK;N_FC AMKAR PERM;Z_99020102;T_5;J_7664;C_hop1q;").unwrap();
    assert_eq!(g.o(), "O_AMK");
    assert_eq!(g.i(), "I_29227");
    assert_eq!(g.n(), "N_FC AMKAR PERM");
    assert_eq!(g.z(), "Z_99020102");
    assert_eq!(g.t(), "T_5");
    assert_eq!(g.j(), "J_7664");
    assert_eq!(g.c(), "C_hop1q");
}

#[test]
fn parts_are_searched_in_order() {
    assert_eq!(GroupAttribute::from_str("O_AMK;I_1;N_n;Z_z;T_t;J_j;C_c"), None);
    let g = GroupAttribute::from_str("X_0;I_1;Q_9;O_AMK;N_n;Z_z;T_t;J_j;C_c").unwrap();
    assert_eq!(g.c(), "C_c");
    assert_eq!(g.i(), "I_1");
    let g = GroupAttribute::from_str("I_1;O_AB;N_C;Z_2;T_3;J_4;C_cap").unwrap();
    assert_eq!((g.i(), g.o(), g.n(), g.z(), g.t(), g.j(), g.c()), ("I_1", "O_AB", "N_C", "Z_2", "T_3", "J_4", "C_cap"));
}

#[test]
fn missing_part_gives_none() {
    assert_eq!(GroupAttribute::from_str("I_1;O_2;N_3;Z_4;T_5;J_6"), None);
    assert_eq!(GroupAttribute::from_str(""), None);
}

#[test]
fn empty_attribute() {
    let g = GroupAttribute::new();
    assert_eq!((g.c(), g.i(), g.o(), g.n(), g.z(), g.t(), g.j()), ("", "", "", "", "", "", ""));
}

#[test]
fn club_id_is_first_i_part() {
    assert_eq!(club_id_part("O_x;I_24154;I_2").unwrap(), "I_24154");
    assert_eq!(club_id_part("O_x;N_y"), None);
}

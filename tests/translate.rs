use puddle_core::{Action, DropletId, Location, Placement};

fn loc(y: i32, x: i32) -> Location {
    Location { y, x }
}

fn did(id: usize) -> DropletId {
    DropletId { id }
}

fn shifted() -> Placement {
    let mut p = Placement::new();
    p.insert(loc(0, 0), loc(10, 20));
    p.insert(loc(1, 2), loc(11, 22));
    p.insert(loc(3, 4), loc(13, 24));
    p
}

fn identity() -> Placement {
    let mut p = Placement::new();
    p.insert(loc(0, 0), loc(0, 0));
    p.insert(loc(1, 2), loc(1, 2));
    p
}

#[test]
fn placement_lookup() {
    let p = shifted();
    assert_eq!(p.get(loc(1, 2)), Some(loc(11, 22)));
    assert_eq!(p.get(loc(5, 5)), None);
    assert_eq!(Placement::new().get(loc(0, 0)), None);
}

#[test]
fn placement_insert_replaces() {
    let mut p = shifted();
    p.insert(loc(1, 2), loc(-1, -2));
    assert_eq!(p.get(loc(1, 2)), Some(loc(-1, -2)));
    assert_eq!(p.get(loc(0, 0)), Some(loc(10, 20)));
}

#[test]
fn translate_add_droplet() {
    let mut a = Action::AddDroplet { id: did(1), location: loc(0, 0) };
    a.translate(&shifted());
    match a {
        Action::AddDroplet { id, location } => {
            assert_eq!(id, did(1));
            assert_eq!(location, loc(10, 20));
        }
        other => panic!("unexpected {:?}", other),
    }
}

#[test]
fn translate_move_droplet() {
    let mut a = Action::MoveDroplet { id: did(4), location: loc(3, 4) };
    a.translate(&shifted());
    match a {
        Action::MoveDroplet { id, location } => {
            assert_eq!(id, did(4));
            assert_eq!(location, loc(13, 24));
        }
        other => panic!("unexpected {:?}", other),
    }
}

#[test]
fn translate_leaves_other_commands() {
    let mut a = Action::Mix { in0: did(1), in1: did(2), out: did(3) };
    a.translate(&shifted());
    match a {
        Action::Mix { in0, in1, out } => {
            assert_eq!((in0, in1, out), (did(1), did(2), did(3)));
        }
        other => panic!("unexpected {:?}", other),
    }
    let mut b = Action::SetCollisionGroup { id: did(2), cg: 7 };
    b.translate(&Placement::new());
    match b {
        Action::SetCollisionGroup { id, cg } => {
            assert_eq!(id, did(2));
            assert_eq!(cg, 7);
        }
        other => panic!("unexpected {:?}", other),
    }
}

#[test]
fn translate_identity_keeps_locations() {
    let p = identity();
    let mut a = Action::Lockstep {
        actions: vec![
            Action::AddDroplet { id: did(1), location: loc(0, 0) },
            Action::MoveDroplet { id: did(1), location: loc(1, 2) },
        ],
    };
    a.translate(&p);
    match a {
        Action::Lockstep { actions } => {
            assert_eq!(actions.len(), 2);
            match (&actions[0], &actions[1]) {
                (
                    Action::AddDroplet { location: l0, .. },
                    Action::MoveDroplet { location: l1, .. },
                ) => {
                    assert_eq!(*l0, loc(0, 0));
                    assert_eq!(*l1, loc(1, 2));
                }
                other => panic!("unexpected {:?}", other),
            }
        }
        other => panic!("unexpected {:?}", other),
    }
}

#[test]
fn translate_pair_matches_members() {
    let p = shifted();
    let mut group = Action::Lockstep {
        actions: vec![
            Action::MoveDroplet { id: did(1), location: loc(1, 2) },
            Action::AddDroplet { id: did(2), location: loc(3, 4) },
        ],
    };
    group.translate(&p);
    let mut c1 = Action::MoveDroplet { id: did(1), location: loc(1, 2) };
    let mut c2 = Action::AddDroplet { id: did(2), location: loc(3, 4) };
    c1.translate(&p);
    c2.translate(&p);
    let (g1, g2) = match &group {
        Action::Lockstep { actions } => {
            assert_eq!(actions.len(), 2);
            (format!("{:?}", actions[0]), format!("{:?}", actions[1]))
        }
        other => panic!("unexpected {:?}", other),
    };
    assert_eq!(g1, format!("{:?}", c1));
    assert_eq!(g2, format!("{:?}", c2));
    assert!(g1.contains("11"));
    assert!(g2.contains("13"));
}

#[test]
fn translate_nested_groups() {
    let mut a = Action::Lockstep {
        actions: vec![Action::Lockstep {
            actions: vec![Action::AddDroplet { id: did(9), location: loc(0, 0) }],
        }],
    };
    a.translate(&shifted());
    match a {
        Action::Lockstep { actions } => match &actions[0] {
            Action::Lockstep { actions: inner } => match &inner[0] {
                Action::AddDroplet { location, .. } => assert_eq!(*location, loc(10, 20)),
                other => panic!("unexpected {:?}", other),
            },
            other => panic!("unexpected {:?}", other),
        },
        other => panic!("unexpected {:?}", other),
    }
}

#[test]
fn translate_empty_group() {
    let mut a = Action::Lockstep { actions: vec![] };
    a.translate(&Placement::new());
    match a {
        Action::Lockstep { actions } => assert!(actions.is_empty()),
        other => panic!("unexpected {:?}", other),
    }
}

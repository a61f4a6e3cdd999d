use rensa::action::{get_actions, push_action, Action};

#[test]
fn all_actions_lists_the_placements_and_then_the_ability() {
    let all = Action::all_actions();
    assert_eq!(all.len(), 37);
    assert_eq!(all[0], Action::PutBlock { pos: 0, rot: 0 });
    assert_eq!(all[1], Action::PutBlock { pos: 0, rot: 1 });
    assert_eq!(all[4], Action::PutBlock { pos: 1, rot: 0 });
    assert_eq!(all[35], Action::PutBlock { pos: 8, rot: 3 });
    assert_eq!(all[36], Action::UseSkill);
}

#[test]
fn codes_run_from_one_to_thirty_seven() {
    assert_eq!(Action::PutBlock { pos: 0, rot: 0 }.to_code(), 1);
    assert_eq!(Action::PutBlock { pos: 5, rot: 2 }.to_code(), 23);
    assert_eq!(Action::PutBlock { pos: 8, rot: 3 }.to_code(), 36);
    assert_eq!(Action::UseSkill.to_code(), 37);
    assert_eq!(Action::from_code(1), Action::PutBlock { pos: 0, rot: 0 });
    assert_eq!(Action::from_code(23), Action::PutBlock { pos: 5, rot: 2 });
    assert_eq!(Action::from_code(37), Action::UseSkill);
}

#[test]
fn every_action_is_the_action_of_its_code() {
    let all = Action::all_actions();
    for (i, a) in all.iter().enumerate() {
        assert_eq!(a.to_code() as usize, i + 1);
        assert_eq!(Action::from_code(a.to_code()), *a);
    }
}

#[test]
fn a_packed_sequence_holds_one_move_per_byte() {
    let a = Action::PutBlock { pos: 5, rot: 2 };
    let b = Action::UseSkill;
    let c = Action::PutBlock { pos: 0, rot: 0 };
    let s1 = push_action(0, 0, &a);
    assert_eq!(s1, 23);
    let s2 = push_action(s1, 1, &b);
    assert_eq!(s2, 23 | (37 << 8));
    let s3 = push_action(s2, 2, &c);
    assert_eq!(s3, 23 | (37 << 8) | (1 << 16));
    assert_eq!(get_actions(s3), vec![a, b, c]);
    assert_eq!(get_actions(0), Vec::<Action>::new());
}

#[test]
fn sixteen_moves_fit_in_a_packed_sequence() {
    let all = Action::all_actions();
    let mut s: u128 = 0;
    let mut want = Vec::new();
    for i in 0..16 {
        let a = all[(i * 7 + 3) % 37];
        s = push_action(s, i, &a);
        want.push(a);
    }
    assert_eq!(get_actions(s), want);
    assert_eq!((s >> 120) as u8, want[15].to_code());
}

use word_search::WordDirection;

#[test]
fn from_index_lists_all_eight_directions() {
    assert_eq!(WordDirection::from_index(0), WordDirection::Up);
    assert_eq!(WordDirection::from_index(1), WordDirection::Down);
    assert_eq!(WordDirection::from_index(2), WordDirection::Left);
    assert_eq!(WordDirection::from_index(3), WordDirection::Right);
    assert_eq!(WordDirection::from_index(4), WordDirection::DiagonalUpLeft);
    assert_eq!(WordDirection::from_index(5), WordDirection::DiagonalUpRight);
    assert_eq!(WordDirection::from_index(6), WordDirection::DiagonalDownLeft);
    assert_eq!(WordDirection::from_index(7), WordDirection::DiagonalDownRight);
}

#[test]
fn forward_from_index_lists_the_four_forward_directions() {
    assert_eq!(WordDirection::forward_from_index(0), WordDirection::Down);
    assert_eq!(WordDirection::forward_from_index(1), WordDirection::Right);
    assert_eq!(
        WordDirection::forward_from_index(2),
        WordDirection::DiagonalUpRight
    );
    assert_eq!(
        WordDirection::forward_from_index(3),
        WordDirection::DiagonalDownRight
    );
}

#[test]
fn faces_forward_tells_the_forward_directions_apart() {
    assert!(WordDirection::Down.faces_forward());
    assert!(WordDirection::Right.faces_forward());
    assert!(WordDirection::DiagonalUpRight.faces_forward());
    assert!(WordDirection::DiagonalDownRight.faces_forward());
    assert!(!WordDirection::Up.faces_forward());
    assert!(!WordDirection::Left.faces_forward());
    assert!(!WordDirection::DiagonalUpLeft.faces_forward());
    assert!(!WordDirection::DiagonalDownLeft.faces_forward());
}

#[test]
fn random_forward_always_faces_forward() {
    for _ in 0..500 {
        assert!(WordDirection::random_forward().faces_forward());
    }
}

#[test]
fn random_reaches_every_direction() {
    let all = [
        WordDirection::Up,
        WordDirection::Down,
        WordDirection::Left,
        WordDirection::Right,
        WordDirection::DiagonalUpLeft,
        WordDirection::DiagonalUpRight,
        WordDirection::DiagonalDownLeft,
        WordDirection::DiagonalDownRight,
    ];
    let mut seen = [false; 8];
    for _ in 0..4000 {
        let d = WordDirection::random();
        let at = all.iter().position(|x| *x == d).unwrap();
        seen[at] = true;
    }
    assert!(seen.iter().all(|s| *s));
}

#[test]
fn random_forward_reaches_every_forward_direction() {
    let mut seen = [false; 4];
    for _ in 0..2000 {
        match WordDirection::random_forward() {
            WordDirection::Down => seen[0] = true,
            WordDirection::Right => seen[1] = true,
            WordDirection::DiagonalUpRight => seen[2] = true,
            WordDirection::DiagonalDownRight => seen[3] = true,
            other => panic!("{:?} does not face forward", other),
        }
    }
    assert!(seen.iter().all(|s| *s));
}

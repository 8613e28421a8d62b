use st7789v2::rect::Rect;

#[test]
fn intersection_of_nested_rectangles_is_the_inner_one() {
    let outer = Rect { x: 0, y: 0, width: 240, height: 280 };
    let inner = Rect { x: 10, y: 20, width: 30, height: 40 };
    assert_eq!(inner.intersection(&outer), inner);
    assert_eq!(outer.intersection(&inner), inner);
}

#[test]
fn intersection_of_overlapping_rectangles_is_the_overlap() {
    let a = Rect { x: 0, y: 0, width: 10, height: 10 };
    let b = Rect { x: 5, y: 7, width: 10, height: 10 };
    let expected = Rect { x: 5, y: 7, width: 5, height: 3 };
    assert_eq!(a.intersection(&b), expected);
    assert_eq!(b.intersection(&a), expected);
}

#[test]
fn intersection_of_disjoint_rectangles_is_empty() {
    let a = Rect { x: 0, y: 0, width: 10, height: 10 };
    let b = Rect { x: 10, y: 0, width: 5, height: 5 };
    assert!(a.intersection(&b).is_empty());
    let c = Rect { x: -20, y: -20, width: 5, height: 5 };
    assert!(a.intersection(&c).is_empty());
}

#[test]
fn intersection_with_negative_corner_clips_to_origin() {
    let panel = Rect { x: 0, y: 0, width: 4, height: 3 };
    let request = Rect { x: -1, y: -1, width: 3, height: 3 };
    assert_eq!(
        request.intersection(&panel),
        Rect { x: 0, y: 0, width: 2, height: 2 }
    );
}

#[test]
fn empty_rectangles_cover_nothing() {
    let zero = Rect { x: 3, y: 4, width: 0, height: 7 };
    assert!(zero.is_empty());
    let panel = Rect { x: 0, y: 0, width: 10, height: 10 };
    assert!(zero.intersection(&panel).is_empty());
}

use subniri::tray_icon::decode_pixmaps;

#[test]
fn pixels_turn_from_argb_into_rgba() {
    let r = decode_pixmaps(&vec![(1, 1, vec![1, 2, 3, 4])]);
    assert_eq!(r, Some((1, 1, vec![2, 3, 4, 1])));
    let r = decode_pixmaps(&vec![(2, 1, vec![10, 20, 30, 40, 50, 60, 70, 80, 99])]);
    assert_eq!(r, Some((2, 1, vec![20, 30, 40, 10, 60, 70, 80, 50])));
}

#[test]
fn the_pixmap_nearest_the_icon_size_is_chosen_first_on_ties() {
    let small = (16, 16, vec![0u8; 16 * 16 * 4]);
    let large = (32, 32, vec![1u8; 32 * 32 * 4]);
    let exact = (24, 24, vec![2u8; 24 * 24 * 4]);
    let r = decode_pixmaps(&vec![small.clone(), large.clone()]).unwrap();
    assert_eq!((r.0, r.1), (16, 16));
    let r = decode_pixmaps(&vec![large.clone(), small.clone()]).unwrap();
    assert_eq!((r.0, r.1), (32, 32));
    let r = decode_pixmaps(&vec![small, exact, large]).unwrap();
    assert_eq!((r.0, r.1), (24, 24));
    let tall = (24, 48, vec![3u8; 24 * 48 * 4]);
    let r = decode_pixmaps(&vec![tall, (24, 30, vec![4u8; 24 * 30 * 4])]).unwrap();
    assert_eq!((r.0, r.1), (24, 30));
}

#[test]
fn unusable_pixmaps_are_skipped() {
    assert_eq!(decode_pixmaps(&vec![]), None);
    assert_eq!(decode_pixmaps(&vec![(0, 24, vec![]), (24, 24, vec![0u8; 10])]), None);
    let r = decode_pixmaps(&vec![(24, 24, vec![0u8; 10]), (8, 8, vec![5u8; 256])]).unwrap();
    assert_eq!((r.0, r.1, r.2.len()), (8, 8, 256));
}

use anime_tui::player::kitty::{
    delete_image, delete_placement, free_image, place, transmit_data, transmit_png, CellRect,
    DELETE_ALL_IMAGES, DELETE_POSTER, POSTER_ID, THUMB_ID_BASE,
};

#[test]
fn delete_all_is_well_formed() {
    assert!(DELETE_ALL_IMAGES.starts_with("\x1b_G"));
    assert!(DELETE_ALL_IMAGES.ends_with("\x1b\\"));
}

#[test]
fn empty_rect_detected() {
    assert!(CellRect { left: 0, top: 0, cols: 0, rows: 10, pixel_width: None, pixel_height: None }.is_empty());
    assert!(!CellRect { left: 1, top: 1, cols: 40, rows: 20, pixel_width: None, pixel_height: None }.is_empty());
}

#[test]
fn delete_poster_is_well_formed() {
    assert!(DELETE_POSTER.starts_with("\x1b_G"));
    assert!(DELETE_POSTER.ends_with("\x1b\\"));
    assert!(DELETE_POSTER.contains(&format!("i={POSTER_ID}")));
}

#[test]
fn delete_image_by_id() {
    let s = delete_image(THUMB_ID_BASE + 2);
    assert_eq!(s, format!("\x1b_Ga=d,d=i,i={}\x1b\\", THUMB_ID_BASE + 2));
}

#[test]
fn transmit_data_stores_without_display() {
    // >4096 base64 → 2+ chunks; first carries a=t, last has m=0.
    let png = vec![0u8; 5000];
    let s = transmit_data(&png, 101);
    assert!(s.contains("\x1b_Ga=t,i=101,f=100,q=2,m=1;"));
    assert!(s.contains("\x1b_Gm=0,q=2;")); // final chunk
    assert!(!s.contains("a=T")); // never the display action
    assert!(!s.contains("\x1b7")); // no cursor save (not displayed)
}

#[test]
fn place_and_delete_placement_forms() {
    let rect = CellRect { left: 3, top: 4, cols: 8, rows: 5, pixel_width: None, pixel_height: None };
    let p = place(101, 2, rect);
    assert!(p.starts_with("\x1b7\x1b[5;4H")); // save + move to 1-based (row 5, col 4)
    assert!(p.contains("a=p,i=101,p=2,c=8,r=5,C=1,q=2"));
    assert!(p.ends_with("\x1b8")); // restore cursor
    assert_eq!(delete_placement(101, 2), "\x1b_Ga=d,d=i,i=101,p=2,q=2\x1b\\");
    assert_eq!(free_image(101), "\x1b_Ga=d,d=I,i=101,q=2\x1b\\");
}

#[test]
fn transmit_png_places_and_chunks() {
    // ~9336 base64 chars → 3 chunks (control + a middle m=1 + final m=0).
    let png = vec![0u8; 7000];
    let rect = CellRect { left: 3, top: 2, cols: 20, rows: 30, pixel_width: None, pixel_height: None };
    let s = transmit_png(&png, rect);
    // Saves cursor and moves to 1-based (row=3, col=4).
    assert!(s.starts_with("\x1b7\x1b[3;4H"));
    // First chunk carries the control keys.
    assert!(s.contains(&format!("a=T,f=100,i={POSTER_ID},c=20,r=30,m=1;")));
    // Continuation chunk with just m=.
    assert!(s.contains("\x1b_Gm=1;"));
    // Ends by restoring the cursor after a final chunk (m=0).
    assert!(s.contains("m=0;"));
    assert!(s.ends_with("\x1b8"));
}

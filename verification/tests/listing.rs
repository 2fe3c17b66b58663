use jane_doe::listing::{entry_number, Listing, PageButton, ARTISTS_PER_PAGE};

#[test]
fn ten_artists_fill_a_page() {
    assert_eq!(ARTISTS_PER_PAGE, 10);
    assert_eq!(Listing::new(1).unwrap().pages(), 1);
    assert_eq!(Listing::new(10).unwrap().pages(), 1);
    assert_eq!(Listing::new(11).unwrap().pages(), 2);
    assert_eq!(Listing::new(20).unwrap().pages(), 2);
    assert_eq!(Listing::new(21).unwrap().pages(), 3);
    assert_eq!(Listing::new(usize::MAX).unwrap().pages(), usize::MAX / 10 + 1);
}

#[test]
fn no_artists_give_no_listing() {
    assert!(Listing::new(0).is_none());
}

#[test]
fn a_listing_opens_at_its_first_page() {
    let listing = Listing::new(25).unwrap();
    assert_eq!(listing.current(), 0);
    assert!(listing.at_first());
    assert!(!listing.at_last());
    assert_eq!(listing.shown(), (0, 10));
    let single = Listing::new(7).unwrap();
    assert!(single.at_first());
    assert!(single.at_last());
    assert_eq!(single.shown(), (0, 7));
}

#[test]
fn buttons_lead_through_the_pages() {
    let mut listing = Listing::new(25).unwrap();
    listing.press(PageButton::Next);
    assert_eq!(listing.current(), 1);
    assert_eq!(listing.shown(), (10, 20));
    assert!(!listing.at_first());
    assert!(!listing.at_last());
    listing.press(PageButton::Next);
    assert_eq!(listing.current(), 2);
    assert_eq!(listing.shown(), (20, 25));
    assert!(listing.at_last());
    listing.press(PageButton::Prev);
    assert_eq!(listing.current(), 1);
    listing.press(PageButton::First);
    assert_eq!(listing.current(), 0);
    listing.press(PageButton::Prev);
    assert_eq!(listing.current(), 0);
    listing.press(PageButton::Last);
    assert_eq!(listing.current(), 2);
    listing.press(PageButton::Last);
    assert_eq!(listing.current(), 2);
    assert_eq!(listing.pages(), 3);
}

#[test]
fn artists_are_numbered_through_all_pages() {
    assert_eq!(entry_number(0, 0), 1);
    assert_eq!(entry_number(0, 9), 10);
    assert_eq!(entry_number(1, 0), 11);
    assert_eq!(entry_number(2, 4), 25);
}

//! The paged list of artists: ten to a page, with buttons to the first, the
//! previous, the next and the last page.

use vstd::prelude::*;

verus! {

/// The number of artists on a full page.
pub const ARTISTS_PER_PAGE: usize = 10;

/// A button under the list.
#[derive(Debug, Clone, Copy, PartialEq, Eq, Structural)]
pub enum PageButton {
    First,
    Prev,
    Next,
    Last,
}

/// What a [`Listing`] is: the number of artists and the page that is shown,
/// counted from 0.
pub struct ListingView {
    pub entries: nat,
    pub current: nat,
}

/// The number of pages that a number of artists fills.
pub open spec fn page_count(entries: nat) -> nat {
    ((entries + ARTISTS_PER_PAGE - 1) / (ARTISTS_PER_PAGE as int)) as nat
}

/// The page that is shown after a button is pressed.
pub open spec fn after_press(listing: ListingView, button: PageButton) -> ListingView {
    ListingView {
        current: match button {
            PageButton::First => 0,
            PageButton::Prev => if listing.current == 0 {
                0
            } else {
                (listing.current - 1) as nat
            },
            PageButton::Next => listing.current + 1,
            PageButton::Last => (page_count(listing.entries) - 1) as nat,
        },
        ..listing
    }
}

/// A list of at least one artist, open at one of its pages.
#[derive(Debug)]
pub struct Listing {
    entries: usize,
    current: usize,
}

impl View for Listing {
    type V = ListingView;

    closed spec fn view(&self) -> ListingView {
        ListingView { entries: self.entries as nat, current: self.current as nat }
    }
}

impl Listing {
    /// There is at least one artist, and the page that is shown exists.
    #[verifier::type_invariant]
    closed spec fn well_formed(self) -> bool {
        &&& self.entries > 0
        &&& self.current < page_count(self.entries as nat)
    }

    /// The list of `entries` artists, open at its first page, or `None`
    /// where there is no artist to list.
    pub fn new(entries: usize) -> (listing: Option<Listing>)
        ensures
            entries == 0 ==> listing is None,
            entries > 0 ==> (listing matches Some(l) && l@ == (ListingView {
                entries: entries as nat,
                current: 0,
            })),
    {
        if entries == 0 {
            None
        } else {
            Some(Listing { entries, current: 0 })
        }
    }

    /// The number of pages, at least one.
    pub fn pages(&self) -> (pages: usize)
        ensures
            pages == page_count(self@.entries),
            pages >= 1,
            self@.current < pages,
    {
        proof {
            use_type_invariant(self);
        }
        (self.entries - 1) / ARTISTS_PER_PAGE + 1
    }

    /// The page that is shown, counted from 0.
    pub fn current(&self) -> (current: usize)
        ensures
            current == self@.current,
            current < page_count(self@.entries),
    {
        proof {
            use_type_invariant(self);
        }
        self.current
    }

    /// Whether the first page is shown: the buttons to the first and to the
    /// previous page are then switched off.
    pub fn at_first(&self) -> (first: bool)
        ensures
            first == (self@.current == 0),
    {
        self.current == 0
    }

    /// Whether the last page is shown: the buttons to the next and to the
    /// last page are then switched off.
    pub fn at_last(&self) -> (last: bool)
        ensures
            last == (self@.current + 1 == page_count(self@.entries)),
    {
        self.current == self.pages() - 1
    }

    /// The artists of the page that is shown, as the place of its first and
    /// the place behind its last in the whole list. A page holds ten
    /// artists, the last one what is left.
    pub fn shown(&self) -> (range: (usize, usize))
        ensures
            range.0 == self@.current * ARTISTS_PER_PAGE,
            range.1 == if range.0 + ARTISTS_PER_PAGE <= self@.entries {
                range.0 + ARTISTS_PER_PAGE
            } else {
                self@.entries as int
            },
            range.0 < range.1 <= self@.entries,
    {
        proof {
            use_type_invariant(self);
        }
        let start = self.current * ARTISTS_PER_PAGE;
        let end = if self.entries - start >= ARTISTS_PER_PAGE {
            start + ARTISTS_PER_PAGE
        } else {
            self.entries
        };
        (start, end)
    }

    /// Shows the page to which the button leads. The button to the previous
    /// page stays on the first page when that is shown; the button to the
    /// next page is switched off on the last page and cannot be pressed
    /// there.
    pub fn press(&mut self, button: PageButton)
        requires
            button == PageButton::Next ==> old(self)@.current + 1 < page_count(old(self)@.entries),
        ensures
            final(self)@ == after_press(old(self)@, button),
    {
        proof {
            use_type_invariant(&*self);
        }
        let pages = self.pages();
        let current = match button {
            PageButton::First => 0,
            PageButton::Prev => if self.current == 0 {
                0
            } else {
                self.current - 1
            },
            PageButton::Next => self.current + 1,
            PageButton::Last => pages - 1,
        };
        self.current = current;
    }
}

/// The number under which an artist is listed: artists are counted from 1
/// through all pages.
pub fn entry_number(page: usize, index: usize) -> (number: usize)
    requires
        page * ARTISTS_PER_PAGE + index + 1 <= usize::MAX,
    ensures
        number == page * ARTISTS_PER_PAGE + index + 1,
{
    index + 1 + page * ARTISTS_PER_PAGE
}

} // verus!

//! The page switcher shared by the list pages.
use vstd::prelude::*;

use crate::text::{concat_str, decimal_digits, u64_to_string};

verus! {

/// The page switcher's state: the page shown (from 1) and the number of
/// pages.
#[derive(Clone, Copy, PartialEq, Eq, Structural, Debug)]
pub struct Pagination {
    pub current_page: u32,
    pub total_pages: u32,
}

impl Pagination {
    /// Whether there is a page before this one.
    pub fn has_prev(&self) -> (r: bool)
        ensures
            r == (self.current_page > 1),
    {
        self.current_page > 1
    }

    /// Whether there is a page after this one.
    pub fn has_next(&self) -> (r: bool)
        ensures
            r == (self.current_page < self.total_pages),
    {
        self.current_page < self.total_pages
    }

    /// The "previous" button: one page back when there is one.
    pub fn prev(&mut self)
        ensures
            old(self).current_page > 1 ==> final(self).current_page == old(self).current_page - 1,
            old(self).current_page <= 1 ==> final(self).current_page == old(self).current_page,
            final(self).total_pages == old(self).total_pages,
    {
        if self.has_prev() {
            self.current_page = self.current_page - 1;
        }
    }

    /// The "next" button: one page on when there is one.
    pub fn next(&mut self)
        ensures
            old(self).current_page < old(self).total_pages ==> final(self).current_page == old(
                self,
            ).current_page + 1,
            old(self).current_page >= old(self).total_pages ==> final(self).current_page == old(
                self,
            ).current_page,
            final(self).total_pages == old(self).total_pages,
    {
        if self.has_next() {
            self.current_page = self.current_page + 1;
        }
    }

    /// The text between the buttons: `current / total`.
    pub fn label(&self) -> (r: String)
        ensures
            r@ == decimal_digits(self.current_page as nat) + " / "@ + decimal_digits(
                self.total_pages as nat,
            ),
    {
        let a = concat_str(u64_to_string(self.current_page as u64).as_str(), " / ");
        concat_str(a.as_str(), u64_to_string(self.total_pages as u64).as_str())
    }
}

/// The buttons never leave the range of pages: from a page in 1..=total,
/// "previous" and "next" stay in it, and "previous" undoes "next" when
/// "next" moved.
pub proof fn lemma_buttons_stay_in_range(current: int, total: int)
    requires
        1 <= current <= total,
    ensures
        ({
            let after_next = if current < total { current + 1 } else { current };
            let after_prev = if current > 1 { current - 1 } else { current };
            &&& 1 <= after_next <= total
            &&& 1 <= after_prev <= total
            &&& current < total ==> (if after_next > 1 { after_next - 1 } else { after_next })
                == current
        }),
{
}

} // verus!

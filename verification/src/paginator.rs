use vstd::prelude::*;

use crate::numbers::{dec_chars, u64_to_dec};
use crate::text::chars_to_string;
use crate::urls::{url_with_params, url_with_params_of};

verus! {

/// Walks the pages of a paginated listing endpoint: each step yields the
/// page URL with the current `count` and `offset` query pairs and advances
/// the position by one page.
pub struct ListenbrainzPaginator {
    base_url: String,
    current_position: usize,
    count_per_page: usize,
}

impl ListenbrainzPaginator {
    pub closed spec fn base(&self) -> Seq<char> {
        self.base_url@
    }

    pub closed spec fn position(&self) -> int {
        self.current_position as int
    }

    pub closed spec fn per_page(&self) -> int {
        self.count_per_page as int
    }

    pub fn new(base_url: &str, start_position: usize, count_per_page: usize) -> (r: Self)
        ensures
            r.base() == base_url@,
            r.position() == start_position,
            r.per_page() == count_per_page,
    {
        ListenbrainzPaginator {
            base_url: String::from_str(base_url),
            current_position: start_position,
            count_per_page,
        }
    }

    /// The query pairs of the page starting at `offset`.
    pub open spec fn page_params(&self, offset: int) -> Seq<(Seq<char>, Seq<char>)> {
        seq![("count"@, dec_chars(self.per_page() as nat)), ("offset"@, dec_chars(offset as nat))]
    }

    /// The URL of the next page, and a step of the position. A URL comes
    /// back exactly when the base parses as a URL and the position can still
    /// advance; otherwise the paginator stays put.
    pub fn next_url(&mut self) -> (r: Option<String>)
        ensures
            r is Some <==> url_with_params_of(
                old(self).base(),
                old(self).page_params(old(self).position()),
            ) is Some && old(self).position() + old(self).per_page() <= usize::MAX,
            r matches Some(u) ==> Some(u@) == url_with_params_of(
                old(self).base(),
                old(self).page_params(old(self).position()),
            ) && final(self).base() == old(self).base() && final(self).per_page() == old(
                self,
            ).per_page() && final(self).position() == old(self).position() + old(self).per_page(),
            r is None ==> *final(self) == *old(self),
    {
        if self.current_position > usize::MAX - self.count_per_page {
            return None;
        }
        let mut params: Vec<(String, String)> = Vec::new();
        params.push(
            (String::from_str("count"), chars_to_string(&u64_to_dec(self.count_per_page as u64))),
        );
        params.push(
            (
                String::from_str("offset"),
                chars_to_string(&u64_to_dec(self.current_position as u64)),
            ),
        );
        proof {
            assert(crate::urls::param_views(params@) =~= self.page_params(self.position()));
        }
        match url_with_params(self.base_url.as_str(), &params) {
            Some(u) => {
                self.current_position = self.current_position + self.count_per_page;
                Some(u)
            },
            None => None,
        }
    }
}

} // verus!

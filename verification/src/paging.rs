//! Pages of a score list: how many there are, which scores a page shows,
//! and how the page buttons move between pages.

use vstd::prelude::*;
use crate::text::{decimal, push_decimal, join, views, join_strings};

verus! {

/// How many scores a page of a score list shows.
pub const SCORES_PER_PAGE: usize = 5;

/// The number of pages that `score_count` scores fill, `scores_per_page`
/// to a page: the count divided by the page size, rounded up.
pub fn count_score_pages(score_count: usize, scores_per_page: usize) -> (r: usize)
    requires
        scores_per_page > 0,
        score_count + scores_per_page <= usize::MAX,
    ensures
        r == (score_count + scores_per_page - 1) / (scores_per_page as int),
        r * scores_per_page >= score_count,
        r == 0 || (r - 1) * scores_per_page < score_count,
{
    let r = (score_count + scores_per_page - 1) / scores_per_page;
    proof {
        let total = score_count + scores_per_page - 1;
        let per = scores_per_page as int;
        assert(r * per <= total && total < r * per + per) by (nonlinear_arith)
            requires
                r == total / per,
                per > 0,
                total >= 0,
        ;
        assert((r - 1) * per == r * per - per) by (nonlinear_arith);
    }
    r
}

/// A button under a paged score list.
#[derive(Debug, Clone, Copy, PartialEq, Eq, Structural)]
pub enum PageButton {
    /// `<`: the previous page, or the last one from the first.
    LastPage,
    /// `>`: the next page, or the first one from the last.
    NextPage,
    /// Back to the first page.
    Reset,
    /// Any other component.
    Other,
}

/// The button that a component id names.
pub open spec fn button_named(id: Seq<char>) -> PageButton {
    if id == seq!['l', 'a', 's', 't', '_', 'p', 'a', 'g', 'e'] {
        PageButton::LastPage
    } else if id == seq!['n', 'e', 'x', 't', '_', 'p', 'a', 'g', 'e'] {
        PageButton::NextPage
    } else if id == seq!['r', 'e', 's', 'e', 't'] {
        PageButton::Reset
    } else {
        PageButton::Other
    }
}

/// Reads the button from an interaction's component id.
pub fn page_button(custom_id: &str) -> (r: PageButton)
    ensures
        r == button_named(custom_id@),
{
    proof {
        reveal_strlit("last_page");
        reveal_strlit("next_page");
        reveal_strlit("reset");
        assert("last_page"@ =~= seq!['l', 'a', 's', 't', '_', 'p', 'a', 'g', 'e']);
        assert("next_page"@ =~= seq!['n', 'e', 'x', 't', '_', 'p', 'a', 'g', 'e']);
        assert("reset"@ =~= seq!['r', 'e', 's', 'e', 't']);
    }
    if crate::text::str_eq(custom_id, "last_page") {
        PageButton::LastPage
    } else if crate::text::str_eq(custom_id, "next_page") {
        PageButton::NextPage
    } else if crate::text::str_eq(custom_id, "reset") {
        PageButton::Reset
    } else {
        PageButton::Other
    }
}

/// Where a paged score list stands: the page shown (from 1), the position
/// of its first score, and the number of pages.
#[derive(Debug, Clone, Copy, PartialEq, Eq, Structural)]
pub struct PageState {
    pub page: usize,
    pub offset: usize,
    pub max_pages: usize,
}

impl PageState {
    /// The page is one of the pages, and the offset is where it starts.
    pub open spec fn wf(self) -> bool {
        &&& 1 <= self.page <= self.max_pages
        &&& self.max_pages * 5 <= usize::MAX
        &&& self.offset == (self.page - 1) * 5
    }

    /// The state for a fresh list: the first page of `max_pages`.
    pub fn new(max_pages: usize) -> (r: Self)
        requires
            1 <= max_pages,
            max_pages * 5 <= usize::MAX,
        ensures
            r.wf(),
            r == (PageState { page: 1, offset: 0, max_pages }),
    {
        PageState { page: 1, offset: 0, max_pages }
    }

    /// The state after a press of `button`.
    pub open spec fn after(self, button: PageButton) -> PageState {
        match button {
            PageButton::LastPage => if self.page == 1 {
                PageState {
                    page: self.max_pages,
                    offset: ((self.max_pages - 1) * 5) as usize,
                    max_pages: self.max_pages,
                }
            } else {
                PageState {
                    page: (self.page - 1) as usize,
                    offset: (self.offset - 5) as usize,
                    max_pages: self.max_pages,
                }
            },
            PageButton::NextPage => if self.page == self.max_pages {
                PageState { page: 1, offset: 0, max_pages: self.max_pages }
            } else {
                PageState {
                    page: (self.page + 1) as usize,
                    offset: (self.offset + 5) as usize,
                    max_pages: self.max_pages,
                }
            },
            PageButton::Reset => PageState { page: 1, offset: 0, max_pages: self.max_pages },
            PageButton::Other => self,
        }
    }

    /// Moves to the page that a press of `button` asks for; returns
    /// whether the shown page must be redrawn.
    pub fn press(&mut self, button: PageButton) -> (redraw: bool)
        requires
            old(self).wf(),
        ensures
            *final(self) == old(self).after(button),
            final(self).wf(),
            redraw == (button != PageButton::Other),
    {
        match button {
            PageButton::LastPage => {
                if self.page == 1 {
                    self.page = self.max_pages;
                    self.offset = (self.max_pages - 1) * 5;
                } else {
                    self.page = self.page - 1;
                    self.offset = self.offset - 5;
                }
                true
            },
            PageButton::NextPage => {
                if self.page == self.max_pages {
                    self.page = 1;
                    self.offset = 0;
                } else {
                    self.page = self.page + 1;
                    self.offset = self.offset + 5;
                }
                true
            },
            PageButton::Reset => {
                self.page = 1;
                self.offset = 0;
                true
            },
            PageButton::Other => false,
        }
    }
}

/// Every press keeps the state well formed.
pub proof fn lemma_press_keeps_wf(s: PageState, button: PageButton)
    requires
        s.wf(),
    ensures
        s.after(button).wf(),
{
}

/// `>` undoes `<`, and `<` undoes `>`.
pub proof fn lemma_next_undoes_last(s: PageState)
    requires
        s.wf(),
    ensures
        s.after(PageButton::LastPage).after(PageButton::NextPage) == s,
        s.after(PageButton::NextPage).after(PageButton::LastPage) == s,
{
}

/// The state after pressing `>` `n` times.
pub open spec fn after_nexts(s: PageState, n: nat) -> PageState
    decreases n,
{
    if n == 0 {
        s
    } else {
        after_nexts(s, (n - 1) as nat).after(PageButton::NextPage)
    }
}

/// From the first page, `k` presses of `>` (fewer than the page count)
/// show page `k + 1`, and as many presses as there are pages come back
/// to the first page.
pub proof fn lemma_nexts_cycle(s: PageState, k: nat)
    requires
        s.wf(),
        s.page == 1,
        k <= s.max_pages,
    ensures
        k < s.max_pages ==> after_nexts(s, k) == (PageState {
            page: (k + 1) as usize,
            offset: (k * 5) as usize,
            max_pages: s.max_pages,
        }),
        k == s.max_pages ==> after_nexts(s, k) == s,
    decreases k,
{
    if k > 0 {
        lemma_nexts_cycle(s, (k - 1) as nat);
    }
}

/// The footer under a page: `Page <page> of <pages>`.
pub open spec fn page_footer(page: nat, pages: nat) -> Seq<char> {
    seq!['P', 'a', 'g', 'e', ' '] + decimal(page) + seq![' ', 'o', 'f', ' '] + decimal(pages)
}

/// Writes the footer under a page.
pub fn format_page_footer(page: usize, pages: usize) -> (r: String)
    ensures
        r@ == page_footer(page as nat, pages as nat),
{
    let mut r = String::new();
    r.append("Page ");
    push_decimal(&mut r, page as u64);
    r.append(" of ");
    push_decimal(&mut r, pages as u64);
    proof {
        reveal_strlit("Page ");
        reveal_strlit(" of ");
    }
    r
}

/// A score as a score list shows it: its rank in the list, its text, when
/// it was set (a Unix timestamp) and the line under it (empty for none).
#[derive(Debug, Clone)]
pub struct ListedScore {
    pub position: usize,
    pub text: String,
    pub ended_at: i64,
    pub footer: String,
}

/// The block of one score: `<position>.`, its text, the relative time
/// `<t:<ended_at>:R>`, the footer on a line of its own if there is one,
/// and a line break.
pub open spec fn listed_block(s: ListedScore) -> Seq<char> {
    decimal(s.position as nat) + seq!['.', '\n'] + s.text@ + seq!['<', 't', ':']
        + crate::text::signed_decimal(s.ended_at as int) + seq![':', 'R', '>'] + (if s.footer@.len()
        == 0 {
        Seq::empty()
    } else {
        seq!['\n'] + s.footer@
    }) + seq!['\n']
}

/// The scores that a page starting at `offset` shows, `limit` of them.
pub open spec fn page_window<T>(scores: Seq<T>, limit: nat, offset: nat) -> Seq<T> {
    if offset >= scores.len() {
        Seq::empty()
    } else if offset + limit >= scores.len() {
        scores.skip(offset as int)
    } else {
        scores.subrange(offset as int, (offset + limit) as int)
    }
}

/// The text of a page of a score list: the blocks of the scores at
/// positions `offset` to `offset + limit - 1` (5 and 0 when not given),
/// separated by blank lines.
pub open spec fn score_list_text(scores: Seq<ListedScore>, limit: nat, offset: nat) -> Seq<char> {
    join(page_window(scores, limit, offset).map_values(|s: ListedScore| listed_block(s)), seq!['\n'])
}

fn format_listed_block(s: &ListedScore) -> (r: String)
    ensures
        r@ == listed_block(*s),
{
    let mut r = String::new();
    push_decimal(&mut r, s.position as u64);
    r.append(".\n");
    r.append(s.text.as_str());
    r.append("<t:");
    crate::text::push_signed_decimal(&mut r, s.ended_at);
    r.append(":R>");
    if s.footer.unicode_len() > 0 {
        r.append("\n");
        r.append(s.footer.as_str());
    }
    r.append("\n");
    proof {
        reveal_strlit(".\n");
        reveal_strlit("<t:");
        reveal_strlit(":R>");
        reveal_strlit("\n");
    }
    r
}

/// Writes a page of a score list.
pub fn format_score_list(scores: &Vec<ListedScore>, limit: Option<usize>, offset: Option<usize>) -> (r:
    String)
    requires
        1 <= limit.unwrap_or(5) + offset.unwrap_or(0) <= usize::MAX,
    ensures
        r@ == score_list_text(scores@, limit.unwrap_or(5) as nat, offset.unwrap_or(0) as nat),
{
    let off = match offset {
        Some(o) => o,
        None => 0,
    };
    let lim = match limit {
        Some(l) => l,
        None => 5,
    };
    let mut blocks: Vec<String> = Vec::new();
    let n = scores.len();
    let end: usize = if off >= n {
        off
    } else if lim >= n - off {
        n
    } else {
        off + lim
    };
    let ghost window = page_window(scores@, lim as nat, off as nat);
    let ghost mapped = window.map_values(|s: ListedScore| listed_block(s));
    let mut pos: usize = off;
    proof {
        if off < n {
            assert(window =~= scores@.subrange(off as int, end as int));
        } else {
            assert(window =~= Seq::<ListedScore>::empty());
        }
    }
    while pos < end
        invariant
            n == scores@.len(),
            off <= pos <= end,
            end <= n || end == off,
            off < n ==> window =~= scores@.subrange(off as int, end as int),
            off >= n ==> window.len() == 0 && end == off,
            mapped == window.map_values(|s: ListedScore| listed_block(s)),
            blocks@.len() == pos - off,
            views(blocks@) == mapped.take(pos - off),
        decreases end - pos,
    {
        let b = format_listed_block(&scores[pos]);
        blocks.push(b);
        proof {
            assert(views(blocks@) =~= mapped.take(pos + 1 - off));
        }
        pos = pos + 1;
    }
    proof {
        assert(mapped.len() == window.len());
        assert(mapped.take(pos - off) =~= mapped);
    }
    let r = join_strings(&blocks, "\n");
    proof {
        reveal_strlit("\n");
        assert("\n"@ =~= seq!['\n']);
    }
    r
}

} // verus!

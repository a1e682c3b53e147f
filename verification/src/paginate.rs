use vstd::prelude::*;

use crate::model::{ItemView, Page, PlaylistItem, views};

verus! {

/// Mathematical view of a page: its items and whether a cursor to a next
/// page is present.
pub ghost struct PageView {
    pub items: Seq<ItemView>,
    pub has_next: bool,
}

impl View for Page {
    type V = PageView;

    open spec fn view(&self) -> PageView {
        PageView { items: views(self.items@), has_next: self.next is Some }
    }
}

/// Mathematical view of the reader's running state.
#[verifier::ext_equal]
pub ghost struct PaginatorView {
    pub items: Seq<ItemView>,
    pub offset: int,
    pub done: bool,
}

/// The full-listing reader's running state: the items gathered so far in
/// order, the offset the next page is to be requested at, and whether
/// the final page — one without a cursor — has been seen. Only when
/// `done` holds is the gathered set complete; a partial accumulation is
/// never handed out as final.
pub struct Paginator {
    pub items: Vec<PlaylistItem>,
    pub offset: u64,
    pub done: bool,
}

impl View for Paginator {
    type V = PaginatorView;

    open spec fn view(&self) -> PaginatorView {
        PaginatorView { items: views(self.items@), offset: self.offset as int, done: self.done }
    }
}

impl Paginator {
    /// The state a fresh reader starts in.
    pub open spec fn spec_init() -> PaginatorView {
        PaginatorView { items: Seq::empty(), offset: 0, done: false }
    }

    /// One page absorbed: its items appended in order, the offset
    /// advanced by the fixed page size of 50, and the reader finished
    /// exactly when the page carried no cursor.
    pub open spec fn spec_absorb(p: PaginatorView, pg: PageView) -> PaginatorView {
        PaginatorView { items: p.items + pg.items, offset: p.offset + 50, done: !pg.has_next }
    }

    /// A fresh reader: nothing gathered, at offset zero.
    pub fn new() -> (r: Paginator)
        ensures
            r@ == Paginator::spec_init(),
    {
        let r = Paginator { items: Vec::new(), offset: 0, done: false };
        proof {
            assert(r@ =~= Paginator::spec_init());
        }
        r
    }

    /// Absorbs one fetched page.
    pub fn absorb_page(&mut self, page: Page)
        requires
            !old(self)@.done,
            old(self)@.offset + 50 <= u64::MAX,
        ensures
            final(self)@ == Paginator::spec_absorb(old(self)@, page@),
    {
        let ghost p0 = self@;
        let ghost pg = page@;
        let mut page = page;
        let ghost pi = page.items@;
        let has_next = page.next.is_some();
        self.items.append(&mut page.items);
        self.offset = self.offset + 50;
        self.done = !has_next;
        proof {
            assert(views(old(self).items@ + pi) =~= p0.items + views(pi));
            assert(views(pi) == pg.items);
            assert(self@ =~= Paginator::spec_absorb(p0, pg));
        }
    }
}

/// The reader run over a sequence of fetched pages, stopping with the
/// first page that carries no cursor.
pub open spec fn run_pages(p: PaginatorView, pages: Seq<PageView>) -> PaginatorView
    decreases pages.len(),
{
    if pages.len() == 0 || p.done {
        p
    } else {
        run_pages(Paginator::spec_absorb(p, pages[0]), pages.skip(1))
    }
}

/// All items of the pages, in page order.
pub open spec fn flat_items(pages: Seq<PageView>) -> Seq<ItemView>
    decreases pages.len(),
{
    if pages.len() == 0 {
        Seq::empty()
    } else {
        pages[0].items + flat_items(pages.skip(1))
    }
}

/// The reader accumulates the items of every page, in order, until the
/// first page without a cursor, and only then reports itself done: fed a
/// run of pages of which exactly the last lacks the cursor, it gathers
/// all their items and finishes.
pub proof fn lemma_pagination_accumulates(p: PaginatorView, pages: Seq<PageView>)
    requires
        !p.done,
        pages.len() > 0,
        forall|i: int| 0 <= i < pages.len() - 1 ==> (#[trigger] pages[i]).has_next,
        !pages[pages.len() - 1].has_next,
    ensures
        run_pages(p, pages).items == p.items + flat_items(pages),
        run_pages(p, pages).done,
        run_pages(p, pages).offset == p.offset + 50 * pages.len(),
    decreases pages.len(),
{
    let q = Paginator::spec_absorb(p, pages[0]);
    if pages.len() == 1 {
        assert(q.done);
        assert(pages.skip(1).len() == 0);
        assert(run_pages(q, pages.skip(1)) == q);
        assert(run_pages(p, pages) == q);
        assert(flat_items(pages.skip(1)) =~= Seq::<ItemView>::empty());
        assert(p.items + flat_items(pages) =~= p.items + pages[0].items);
    } else {
        assert(pages[0].has_next);
        assert(!q.done);
        assert forall|i: int| 0 <= i < pages.skip(1).len() - 1 implies (#[trigger] pages.skip(
            1,
        )[i]).has_next by {
            assert(pages.skip(1)[i] == pages[i + 1]);
        }
        assert(pages.skip(1)[pages.skip(1).len() - 1] == pages[pages.len() - 1]);
        lemma_pagination_accumulates(q, pages.skip(1));
        assert(q.items + flat_items(pages.skip(1)) =~= p.items + flat_items(pages));
    }
}

} // verus!

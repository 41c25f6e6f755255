//! Splitting a list of rules into pages.

use vstd::prelude::*;
use vstd::arithmetic::div_mod::{lemma_fundamental_div_mod, lemma_fundamental_div_mod_converse};

verus! {

/// `b` holds clones of the items of `a`, in order.
pub open spec fn clones_of<T: Clone>(a: Seq<T>, b: Seq<T>) -> bool {
    &&& a.len() == b.len()
    &&& forall|i: int| 0 <= i < a.len() ==> cloned::<T>(#[trigger] a[i], b[i])
}

/// The ceiling of `a / b`, for `b != 0`.
pub open spec fn ceil_div(a: int, b: int) -> int {
    if b > 0 {
        -((-a) / b)
    } else {
        -(a / (-b))
    }
}

/// `x`, saturated to the `i32` range.
pub open spec fn saturate_i32(x: int) -> i32 {
    if x > i32::MAX {
        i32::MAX
    } else if x < i32::MIN {
        i32::MIN
    } else {
        x as i32
    }
}

/// The number of pages of `size` items that `count` items fill: the ceiling
/// of `count / size` saturated to `i32`; for a size of zero, the largest
/// `i32` for a positive count, the smallest for a negative one, and zero for
/// none (as the ceiling of the quotient of the two as floats gives).
pub open spec fn pages_for(count: i32, size: i32) -> i32 {
    if size == 0 {
        if count > 0 {
            i32::MAX
        } else if count < 0 {
            i32::MIN
        } else {
            0
        }
    } else {
        saturate_i32(ceil_div(count as int, size as int))
    }
}

proof fn lemma_neg_div(a: int, b: int)
    requires
        a >= 0,
        b > 0,
    ensures
        -((-a) / b) == a / b + (if a % b != 0 { 1int } else { 0int }),
        0 <= a / b <= a,
        a / b + (if a % b != 0 { 1int } else { 0int }) <= a,
{
    lemma_fundamental_div_mod(a, b);
    let q = a / b;
    let r = a % b;
    assert(0 <= r < b);
    assert(a == b * q + r);
    if r == 0 {
        assert(-a == (-q) * b + 0) by (nonlinear_arith)
            requires
                a == b * q + r,
                r == 0,
        ;
        lemma_fundamental_div_mod_converse(-a, b, -q, 0);
    } else {
        assert(-a == (-q - 1) * b + (b - r)) by (nonlinear_arith)
            requires
                a == b * q + r,
        ;
        lemma_fundamental_div_mod_converse(-a, b, -q - 1, b - r);
    }
    assert(0 <= q <= a && (r != 0 ==> q + 1 <= a)) by (nonlinear_arith)
        requires
            a == b * q + r,
            0 <= r < b,
            a >= 0,
            b > 0,
    ;
}

/// The ceiling of `a / b`, saturated to `i32`.
fn ceil_pages(a: i32, b: i32) -> (res: i32)
    ensures
        res == pages_for(a, b),
{
    if b == 0 {
        return if a > 0 {
            i32::MAX
        } else if a < 0 {
            i32::MIN
        } else {
            0
        };
    }
    let a_mag: u64 = if a >= 0 {
        a as u64
    } else {
        (-(a as i64)) as u64
    };
    let b_mag: u64 = if b >= 0 {
        b as u64
    } else {
        (-(b as i64)) as u64
    };
    let q = a_mag / b_mag;
    let r = a_mag % b_mag;
    proof {
        lemma_neg_div(a_mag as int, b_mag as int);
    }
    // the quotient rounded up where `a` and `b` have the same sign, down otherwise
    let c: i64 = if (a >= 0) == (b > 0) {
        if r != 0 {
            q as i64 + 1
        } else {
            q as i64
        }
    } else {
        -(q as i64)
    };
    if c > i32::MAX as i64 {
        i32::MAX
    } else if c < i32::MIN as i64 {
        i32::MIN
    } else {
        c as i32
    }
}

/// `s` cut into pieces of `c` items, the last piece holding what is left
/// (what `slice::chunks` gives), for `c > 0`.
pub open spec fn chunked<T>(s: Seq<T>, c: nat) -> Seq<Seq<T>>
    decreases s.len(),
{
    if s.len() == 0 || c == 0 {
        Seq::empty()
    } else if s.len() <= c {
        seq![s]
    } else {
        seq![s.take(c as int)] + chunked(s.skip(c as int), c)
    }
}

/// A list split into pages.
pub struct Book<T: Clone> {
    pub items: Vec<T>,
    pub itemcount: i32,
}

/// The first index and the end of page `page` (counted from 1) of `size` items.
pub open spec fn page_bounds(page: i32, size: i32) -> (int, int) {
    let start = (page - 1) * size;
    (start, start + size)
}

impl<T: Clone> Book<T> {
    pub fn new(items: Vec<T>) -> (res: Self)
        ensures
            res.items@ == items@,
            res.itemcount == items.len() as i32,
    {
        let count = items.len() as i32;
        Book { items: items, itemcount: count }
    }

    /// Reading page `page` of `page_size` items stays within the `i32` range
    /// and within the book.
    pub open spec fn page_defined(&self, page: i32, page_size: i32) -> bool {
        &&& i32::MIN < page
        &&& i32::MIN <= (page - 1) * page_size <= i32::MAX
        &&& (page - 1) * page_size + page_size <= i32::MAX
        &&& 0 <= page_bounds(page, page_size).0 <= page_bounds(page, page_size).1
            <= self.items@.len()
    }

    /// Whether `get_page` can read page `page` of `page_size` items.
    pub fn can_get_page(&self, page: i32, page_size: i32) -> (res: bool)
        ensures
            res == self.page_defined(page, page_size),
    {
        if page == i32::MIN {
            return false;
        }
        let p = page as i64 - 1;
        let z = page_size as i64;
        assert(-0x4000_0001_0000_0000 <= p * z <= 0x4000_0001_0000_0000) by (nonlinear_arith)
            requires
                -0x8000_0001 <= p <= 0x7fff_fffe,
                -0x8000_0000 <= z <= 0x7fff_ffff,
        ;
        let start = p * z;
        if start < i32::MIN as i64 || start > i32::MAX as i64 {
            return false;
        }
        let end = start + z;
        if end > i32::MAX as i64 {
            return false;
        }
        if start < 0 || start > end {
            return false;
        }
        (end as u64) <= (self.items.len() as u64)
    }

    /// The `page_size` items of page `page`, counted from 1.
    pub fn get_page(&self, page: i32, page_size: i32) -> (res: Vec<T>)
        requires
            self.page_defined(page, page_size),
        ensures
            clones_of(
                self.items@.subrange(page_bounds(page, page_size).0, page_bounds(page, page_size).1),
                res@,
            ),
    {
        let start = (page - 1) * page_size;
        let end = start + page_size;
        let start = start as usize;
        let end = end as usize;
        let mut res: Vec<T> = Vec::new();
        let mut i = start;
        while i < end
            invariant
                start <= i <= end <= self.items@.len(),
                start == page_bounds(page, page_size).0,
                end == page_bounds(page, page_size).1,
                clones_of(self.items@.subrange(start as int, i as int), res@),
            decreases end - i,
        {
            let item = self.items[i].clone();
            res.push(item);
            i = i + 1;
            assert(clones_of(self.items@.subrange(start as int, i as int), res@)) by {
                assert forall|k: int| 0 <= k < i - start implies cloned::<T>(
                    #[trigger] self.items@.subrange(start as int, i as int)[k],
                    res@[k],
                ) by {
                    if k < i - 1 - start {
                        assert(self.items@.subrange(start as int, i - 1)[k] == self.items@.subrange(
                            start as int,
                            i as int,
                        )[k]);
                    }
                }
            }
        }
        res
    }

    /// The number of pages of `page_size` items that the book's count fills.
    pub fn get_page_count(&self, page_size: i32) -> (res: i32)
        ensures
            res == pages_for(self.itemcount, page_size),
    {
        ceil_pages(self.itemcount, page_size)
    }

    /// Replaces the count by the number of pages of `page_size` items it fills.
    pub fn change_page_count(&mut self, page_size: i32)
        ensures
            final(self).items == old(self).items,
            final(self).itemcount == pages_for(old(self).itemcount, page_size),
    {
        self.itemcount = self.get_page_count(page_size);
    }

    pub fn add_item(&mut self, item: T)
        requires
            old(self).itemcount < i32::MAX,
        ensures
            final(self).items@ == old(self).items@.push(item),
            final(self).itemcount == old(self).itemcount + 1,
    {
        self.items.push(item);
        self.itemcount = self.itemcount + 1;
    }

    /// The number of pages of `pagecount` items that the book's count fills.
    pub fn page_limit(&mut self, pagecount: i32) -> (res: i32)
        ensures
            *final(self) == *old(self),
            res == pages_for(old(self).itemcount, pagecount),
    {
        ceil_pages(self.itemcount, pagecount)
    }

    /// The book's items cut into pages of `page_size` items, ready to be read
    /// page by page.
    pub fn process_book(&mut self, page_size: i32) -> (res: ProceesedBook<T>)
        requires
            page_size != 0,
        ensures
            *final(self) == *old(self),
            processed_from(old(self).items@, old(self).itemcount, page_size, res),
    {
        let pages = self.get_page_count(page_size);
        let c = #[verifier::truncate] (page_size as usize);
        assert(page_size != 0 ==> #[verifier::truncate] (page_size as usize) != 0) by (bit_vector);
        let ghost whole = chunked(self.items@, c as nat);
        let ghost mut done: Seq<Seq<T>> = Seq::empty();
        let mut out: Vec<Vec<T>> = Vec::new();
        let len = self.items.len();
        let mut start: usize = 0;
        assert(self.items@.skip(0) =~= self.items@);
        while start < len
            invariant
                c == #[verifier::truncate] (page_size as usize),
                c > 0,
                len == self.items@.len(),
                start <= len,
                whole == chunked(self.items@, c as nat),
                whole == done + chunked(self.items@.skip(start as int), c as nat),
                out@.len() == done.len(),
                forall|j: int| 0 <= j < done.len() ==> clones_of(#[trigger] done[j], out@[j]@),
            decreases len - start,
        {
            let end = if len - start > c {
                start + c
            } else {
                len
            };
            let ghost rest = self.items@.skip(start as int);
            let ghost piece = self.items@.subrange(start as int, end as int);
            let mut page: Vec<T> = Vec::new();
            let mut i = start;
            while i < end
                invariant
                    start <= i <= end <= len,
                    len == self.items@.len(),
                    clones_of(self.items@.subrange(start as int, i as int), page@),
                decreases end - i,
            {
                let item = self.items[i].clone();
                page.push(item);
                i = i + 1;
                assert(clones_of(self.items@.subrange(start as int, i as int), page@)) by {
                    assert forall|k: int| 0 <= k < i - start implies cloned::<T>(
                        #[trigger] self.items@.subrange(start as int, i as int)[k],
                        page@[k],
                    ) by {
                        if k < i - 1 - start {
                            assert(self.items@.subrange(start as int, i - 1)[k]
                                == self.items@.subrange(start as int, i as int)[k]);
                        }
                    }
                }
            }
            proof {
                if rest.len() <= c {
                    assert(piece =~= rest);
                    assert(self.items@.skip(end as int).len() == 0);
                    assert(chunked(rest, c as nat) == seq![rest]);
                    assert(chunked(self.items@.skip(end as int), c as nat) =~= Seq::<Seq<T>>::empty());
                    assert(whole =~= (done.push(piece)) + chunked(self.items@.skip(end as int), c as nat));
                } else {
                    assert(piece =~= rest.take(c as int));
                    assert(rest.skip(c as int) =~= self.items@.skip(end as int));
                    assert(chunked(rest, c as nat) == seq![rest.take(c as int)] + chunked(rest.skip(c as int), c as nat));
                    assert(whole =~= (done.push(piece)) + chunked(self.items@.skip(end as int), c as nat));
                }
                done = done.push(piece);
            }
            out.push(page);
            start = end;
        }
        proof {
            assert(self.items@.skip(len as int).len() == 0);
            assert(done =~= whole);
        }
        ProceesedBook { items: out, pages: pages, page_size: page_size, current_page: 0 }
    }
}

/// `pb` is what `process_book` makes of a book with these items and count:
/// clones of the pieces of `page_size` items, the count's number of pages,
/// and the reading position at the start.
pub open spec fn processed_from<T: Clone>(
    items: Seq<T>,
    itemcount: i32,
    page_size: i32,
    pb: ProceesedBook<T>,
) -> bool {
    let c = (#[verifier::truncate] (page_size as usize)) as nat;
    &&& pb.items@.len() == chunked(items, c).len()
    &&& forall|j: int|
        0 <= j < pb.items@.len() ==> clones_of(#[trigger] chunked(items, c)[j], pb.items@[j]@)
    &&& pb.pages == pages_for(itemcount, page_size)
    &&& pb.page_size == page_size
    &&& pb.current_page == 0
}

/// One call of `next` took `before` to `after` and returned `res`: while the
/// position is under the number of pages, a clone of the page there, and the
/// position moves on by one; after that, nothing, and the position stays.
pub open spec fn next_step<T: Clone>(
    before: ProceesedBook<T>,
    after: ProceesedBook<T>,
    res: Option<Vec<T>>,
) -> bool {
    &&& after.items == before.items
    &&& after.pages == before.pages
    &&& after.page_size == before.page_size
    &&& before.current_page < before.pages ==> {
        &&& res matches Some(page)
        &&& clones_of(before.items@[before.current_page as int]@, page@)
        &&& after.current_page == before.current_page + 1
    }
    &&& before.current_page >= before.pages ==> res is None && after.current_page
        == before.current_page
}

/// A book cut into pages, read one page at a time.
pub struct ProceesedBook<T> where T: Clone {
    pub items: Vec<Vec<T>>,
    pub pages: i32,
    pub page_size: i32,
    pub current_page: i32,
}

impl<T: Clone> ProceesedBook<T> {
    /// The next page, while the page counter is under the number of pages.
    pub fn next(&mut self) -> (res: Option<Vec<T>>)
        requires
            old(self).current_page < old(self).pages ==> 0 <= old(self).current_page
                < old(self).items@.len(),
        ensures
            next_step(*old(self), *final(self), res),
    {
        if self.current_page < self.pages {
            let page = self.items[self.current_page as usize].clone();
            self.current_page = self.current_page + 1;
            Some(page)
        } else {
            None
        }
    }
}

} // verus!

verus! {

/// Cutting into pieces and gluing them back gives the list again.
pub proof fn lemma_chunked_flatten<T>(s: Seq<T>, c: nat)
    requires
        c > 0,
    ensures
        chunked(s, c).flatten() == s,
    decreases s.len(),
{
    if s.len() == 0 {
        assert(s =~= Seq::<T>::empty());
    } else if s.len() <= c {
        assert(chunked(s, c).drop_first() =~= Seq::<Seq<T>>::empty());
        assert(chunked(s, c).drop_first().flatten() =~= Seq::<T>::empty());
        assert(s + Seq::<T>::empty() =~= s);
    } else {
        lemma_chunked_flatten(s.skip(c as int), c);
        let ch = chunked(s, c);
        assert(ch.first() == s.take(c as int));
        assert(ch.drop_first() =~= chunked(s.skip(c as int), c));
        assert(s.take(c as int) + s.skip(c as int) =~= s);
    }
}

/// Every piece but the last holds `c` items; the last holds between one and `c`.
pub proof fn lemma_chunked_sizes<T>(s: Seq<T>, c: nat)
    requires
        c > 0,
    ensures
        forall|j: int|
            0 <= j < chunked(s, c).len() ==> {
                let n = #[trigger] chunked(s, c)[j].len();
                &&& 1 <= n <= c
                &&& j < chunked(s, c).len() - 1 ==> n == c
            },
    decreases s.len(),
{
    if s.len() > c {
        lemma_chunked_sizes(s.skip(c as int), c);
        let ch = chunked(s, c);
        assert forall|j: int| 0 < j < ch.len() implies ch[j] == chunked(s.skip(c as int), c)[j
            - 1] by {}
    }
}

/// The number of pieces is the ceiling of the length divided by `c`.
pub proof fn lemma_chunked_len<T>(s: Seq<T>, c: nat)
    requires
        c > 0,
    ensures
        chunked(s, c).len() == ceil_div(s.len() as int, c as int),
    decreases s.len(),
{
    let n = s.len() as int;
    let ci = c as int;
    lemma_neg_div(n, ci);
    if s.len() == 0 {
        lemma_fundamental_div_mod_converse(0, ci, 0, 0);
    } else if s.len() < c {
        lemma_fundamental_div_mod_converse(n, ci, 0, n);
    } else if s.len() == c {
        lemma_fundamental_div_mod_converse(n, ci, 1, 0);
    } else {
        lemma_chunked_len(s.skip(c as int), c);
        let m = n - ci;
        lemma_neg_div(m, ci);
        lemma_fundamental_div_mod(m, ci);
        let q = m / ci;
        let r = m % ci;
        assert(n == (q + 1) * ci + r) by (nonlinear_arith)
            requires
                m == ci * q + r,
                n == m + ci,
        ;
        lemma_fundamental_div_mod_converse(n, ci, q + 1, r);
    }
}

/// Processing a book makes as many pages as it counts, when its count is the
/// number of its items and the page size is positive.
pub proof fn lemma_processed_pages_match_count<T>(items: Seq<T>, itemcount: i32, page_size: i32)
    requires
        page_size > 0,
        itemcount == items.len(),
    ensures
        chunked(items, page_size as nat).len() == pages_for(itemcount, page_size),
{
    lemma_chunked_len(items, page_size as nat);
    lemma_neg_div(items.len() as int, page_size as int);
}

/// A full page read with `get_page` is the page that `process_book` makes at
/// that place.
pub proof fn lemma_page_is_chunk<T>(s: Seq<T>, c: nat, p: nat)
    requires
        c > 0,
        p >= 1,
        p * c <= s.len(),
    ensures
        p - 1 < chunked(s, c).len(),
        s.subrange((p - 1) * c, (p * c) as int) == chunked(s, c)[p - 1],
    decreases p,
{
    assert(s.len() >= c) by (nonlinear_arith)
        requires
            p >= 1,
            p * c <= s.len(),
    ;
    if s.len() == c {
        assert(p * c <= c);
        assert(p == 1) by (nonlinear_arith)
            requires
                p >= 1,
                c > 0,
                p * c <= c,
        ;
        assert((p - 1) * c == 0 && p * c == c) by (nonlinear_arith)
            requires
                p == 1,
        ;
        assert(s.subrange(0, c as int) =~= s);
        assert(chunked(s, c)[0] == s);
    } else if p == 1 {
        assert((p - 1) * c == 0 && p * c == c) by (nonlinear_arith)
            requires
                p == 1,
        ;
        assert(s.subrange(0, c as int) =~= s.take(c as int));
        assert(chunked(s, c)[0] == s.take(c as int));
    } else {
        let t = s.skip(c as int);
        assert((p - 1) * c <= t.len()) by (nonlinear_arith)
            requires
                p * c <= s.len(),
                t.len() == s.len() - c,
        ;
        lemma_page_is_chunk(t, c, (p - 1) as nat);
        assert((p - 1) * c == ((p - 1) as nat - 1) * c + c) by (nonlinear_arith)
            requires
                p >= 2,
        ;
        assert(p * c == (p - 1) * c + c) by (nonlinear_arith);
        assert(chunked(s, c)[p - 1] == chunked(t, c)[p - 2]);
        assert(s.subrange((p - 1) * c, (p * c) as int) =~= t.subrange(
            ((p - 1) as nat - 1) * c,
            (p - 1) * c,
        ));
    }
}

/// A book's count follows its items while items are added: made from a list,
/// it counts the list; each item added adds one.
pub proof fn lemma_count_tracks_items<T: Clone>(b: Book<T>, item: T, after: Book<T>)
    requires
        b.itemcount == b.items@.len(),
        b.itemcount < i32::MAX,
        after.items@ == b.items@.push(item),
        after.itemcount == b.itemcount + 1,
    ensures
        after.itemcount == after.items@.len(),
{
}

} // verus!

verus! {

proof fn lemma_read_position<T: Clone>(
    states: Seq<ProceesedBook<T>>,
    results: Seq<Option<Vec<T>>>,
    i: int,
)
    requires
        states.len() == results.len() + 1,
        states[0].current_page == 0,
        states[0].pages >= 0,
        forall|m: int|
            #![trigger results[m]]
            0 <= m < results.len() ==> next_step(states[m], states[m + 1], results[m]),
        0 <= i < states.len(),
    ensures
        states[i].items == states[0].items,
        states[i].pages == states[0].pages,
        states[i].current_page == (if i < states[0].pages { i } else { states[0].pages as int }),
    decreases i,
{
    if i > 0 {
        lemma_read_position(states, results, i - 1);
        assert(next_step(states[i - 1], states[(i - 1) + 1], results[i - 1]));
    }
}

/// Reading a book that `process_book` has just cut into pages of a positive
/// size, page after page: there are as many pages as pieces; the calls of
/// `next` return clones of the pages in order, then `None` on every later
/// call, the position stopping at the number of pages; the pages are clones
/// of the pieces, and the pieces glued together are the book's items.
pub proof fn lemma_read_processed_book<T: Clone>(
    items: Seq<T>,
    itemcount: i32,
    page_size: i32,
    states: Seq<ProceesedBook<T>>,
    results: Seq<Option<Vec<T>>>,
)
    requires
        page_size > 0,
        itemcount == items.len(),
        states.len() == results.len() + 1,
        processed_from(items, itemcount, page_size, states[0]),
        forall|m: int|
            #![trigger results[m]]
            0 <= m < results.len() ==> next_step(states[m], states[m + 1], results[m]),
    ensures
        states[0].pages == states[0].items@.len(),
        states[0].items@.len() == chunked(items, page_size as nat).len(),
        chunked(items, page_size as nat).flatten() == items,
        forall|j: int|
            0 <= j < states[0].pages ==> clones_of(
                #[trigger] chunked(items, page_size as nat)[j],
                states[0].items@[j]@,
            ),
        forall|i: int|
            0 <= i < states.len() ==> (#[trigger] states[i]).items == states[0].items
                && states[i].current_page == (if i < states[0].pages {
                i
            } else {
                states[0].pages as int
            }),
        forall|i: int|
            0 <= i < results.len() && i < states[0].pages ==> (#[trigger] results[i] matches Some(
                page,
            ) && clones_of(states[0].items@[i]@, page@)),
        forall|i: int| 0 <= i < results.len() && i >= states[0].pages ==> #[trigger] results[i] is None,
{
    assert(page_size > 0 ==> (#[verifier::truncate] (page_size as usize)) as int == page_size as int)
        by (bit_vector);
    lemma_processed_pages_match_count(items, itemcount, page_size);
    lemma_chunked_flatten(items, page_size as nat);
    let pages = states[0].pages;
    assert forall|i: int| 0 <= i < states.len() implies (#[trigger] states[i]).items
        == states[0].items && states[i].current_page == (if i < pages {
        i
    } else {
        pages as int
    }) by {
        lemma_read_position(states, results, i);
    }
    assert forall|i: int| 0 <= i < results.len() && i < pages implies (#[trigger] results[i] matches Some(
        page,
    ) && clones_of(states[0].items@[i]@, page@)) by {
        lemma_read_position(states, results, i);
        assert(next_step(states[i], states[i + 1], results[i]));
    }
    assert forall|i: int| 0 <= i < results.len() && i >= pages implies #[trigger] results[i] is None by {
        lemma_read_position(states, results, i);
        assert(next_step(states[i], states[i + 1], results[i]));
    }
}

} // verus!

verus! {

proof fn lemma_ceil_div_bounds(a: int, b: int)
    requires
        b > 0,
    ensures
        ceil_div(a, b) * b >= a,
        (ceil_div(a, b) - 1) * b < a,
        a >= 0 ==> 0 <= ceil_div(a, b) <= a,
        a < 0 ==> a <= ceil_div(a, b) <= 0,
{
    if a >= 0 {
        lemma_neg_div(a, b);
        lemma_fundamental_div_mod(a, b);
        let q = a / b;
        let r = a % b;
        let c = ceil_div(a, b);
        assert(c == q + (if r != 0 { 1int } else { 0int }));
        assert(c * b >= a && (c - 1) * b < a) by (nonlinear_arith)
            requires
                a == b * q + r,
                0 <= r < b,
                c == q + (if r != 0 { 1int } else { 0int }),
        ;
    } else {
        let m = -a;
        lemma_neg_div(m, b);
        lemma_fundamental_div_mod(m, b);
        let q = m / b;
        let r = m % b;
        let c = ceil_div(a, b);
        assert(c == -q);
        assert(c * b >= a && (c - 1) * b < a) by (nonlinear_arith)
            requires
                m == b * q + r,
                0 <= r < b,
                c == -q,
                a == -m,
        ;
    }
}

/// The page count is the ceiling of the quotient: for a positive size, the
/// fewest pages of `size` items that hold `count` items (`count <= pages *
/// size` and one page less would not do); for a negative size, the same with
/// the inequalities turned (the quotient of the two taken upwards), except
/// for the one quotient above the `i32` range, which saturates; for a zero
/// size, the largest `i32` for a positive count, the smallest for a negative
/// count and zero for none.
pub proof fn lemma_pages_for_is_ceiling(count: i32, size: i32)
    ensures
        size > 0 ==> (pages_for(count, size) as int) * (size as int) >= count as int && (pages_for(
            count,
            size,
        ) as int - 1) * (size as int) < count as int,
        size < 0 && !(count == i32::MIN && size == -1) ==> (pages_for(count, size) as int) * (
        size as int) <= count as int && (pages_for(count, size) as int - 1) * (size as int)
            > count as int,
        size < 0 && count == i32::MIN && size == -1 ==> pages_for(count, size) == i32::MAX,
        size == 0 ==> pages_for(count, size) == (if count > 0 {
            i32::MAX
        } else if count < 0 {
            i32::MIN
        } else {
            0
        }),
{
    if size > 0 {
        lemma_ceil_div_bounds(count as int, size as int);
    } else if size < 0 {
        // ceil(count / size) == ceil(-count / -size)
        let a = -(count as int);
        let b = -(size as int);
        lemma_ceil_div_bounds(a, b);
        let c = ceil_div(a, b);
        assert(ceil_div(count as int, size as int) == -(count as int / b));
        assert(c == -((-a) / b));
        assert(c == ceil_div(count as int, size as int));
        if !(count == i32::MIN && size == -1) {
            assert(c <= i32::MAX) by (nonlinear_arith)
                requires
                    (c - 1) * b < a,
                    b >= 1,
                    a <= 0x8000_0000,
                    !(a == 0x8000_0000 && b == 1),
                    a >= 0 ==> 0 <= c <= a,
                    a < 0 ==> a <= c <= 0,
            ;
        } else {
            assert(c == 0x8000_0000) by (nonlinear_arith)
                requires
                    c * b >= a,
                    (c - 1) * b < a,
                    a == 0x8000_0000,
                    b == 1,
            ;
        }
        assert((c * b >= a && (c - 1) * b < a) ==> (c * (size as int) <= count as int && (c - 1) * (
        size as int) > count as int)) by (nonlinear_arith)
            requires
                a == -(count as int),
                b == -(size as int),
        ;
    }
}

/// Page `page` of `size` items starts where the page before it ends, the
/// first page starts at the first item, and each page spans `size` items.
pub proof fn lemma_page_bounds_adjacent(page: i32, size: i32)
    requires
        i32::MIN < page < i32::MAX,
    ensures
        page_bounds(1, size).0 == 0,
        page_bounds(page, size).1 - page_bounds(page, size).0 == size,
        page_bounds((page + 1) as i32, size).0 == page_bounds(page, size).1,
{
    assert(((page + 1) - 1) * size == (page - 1) * size + size) by (nonlinear_arith);
}

} // verus!

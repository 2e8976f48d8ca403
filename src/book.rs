//! A book as a tree of chapters, separators and part titles.
use vstd::prelude::*;

verus! {

/// A chapter of the book, with the chapters nested under it.
pub struct Chapter {
    pub name: String,
    pub content: String,
    pub number: Option<Vec<u32>>,
    pub sub_items: Vec<BookItem>,
    pub path: Option<String>,
    pub source_path: Option<String>,
    pub parent_names: Vec<String>,
}

/// A node of the book tree.
pub enum BookItem {
    Chapter(Chapter),
    Separator,
    PartTitle(String),
}

/// The book: its top-level items in order.
pub struct Book {
    pub sections: Vec<BookItem>,
}

/// The contents of the chapters in `item`, the chapter itself first and then
/// those nested under it, in order.
pub open spec fn item_contents(item: BookItem) -> Seq<Seq<char>>
    decreases item, 0int,
{
    match item {
        BookItem::Chapter(ch) => seq![ch.content@] + items_contents(
            ch.sub_items@,
            ch.sub_items@.len() as int,
        ),
        _ => Seq::empty(),
    }
}

/// The contents of the chapters in the first `n` items, in order.
pub open spec fn items_contents(items: Seq<BookItem>, n: int) -> Seq<Seq<char>>
    decreases items, n,
{
    if n <= 0 || n > items.len() {
        Seq::empty()
    } else {
        items_contents(items, n - 1) + item_contents(items[n - 1])
    }
}

/// The contents of all chapters of a list of items.
pub open spec fn all_contents(items: Seq<BookItem>) -> Seq<Seq<char>> {
    items_contents(items, items.len() as int)
}

/// `b` is `a` with only the contents of chapters changed.
pub open spec fn same_shape(a: BookItem, b: BookItem) -> bool
    decreases a,
{
    match a {
        BookItem::Chapter(x) => match b {
            BookItem::Chapter(y) => {
                &&& x.name == y.name
                &&& x.number == y.number
                &&& x.path == y.path
                &&& x.source_path == y.source_path
                &&& x.parent_names == y.parent_names
                &&& x.sub_items@.len() == y.sub_items@.len()
                &&& forall|j: int|
                    0 <= j < x.sub_items@.len() ==> same_shape(
                        #[trigger] x.sub_items@[j],
                        y.sub_items@[j],
                    )
            },
            _ => false,
        },
        _ => a == b,
    }
}

/// Two lists of items that differ only in the contents of chapters.
pub open spec fn same_shapes(a: Seq<BookItem>, b: Seq<BookItem>) -> bool {
    &&& a.len() == b.len()
    &&& forall|j: int| 0 <= j < a.len() ==> same_shape(#[trigger] a[j], b[j])
}

/// The views of a list of strings.
pub open spec fn texts(v: Seq<String>) -> Seq<Seq<char>> {
    v.map_values(|s: String| s@)
}

/// The contents of fewer items are a prefix of the contents of more.
proof fn lemma_contents_prefix(items: Seq<BookItem>, k: int, n: int)
    requires
        0 <= k <= n <= items.len(),
    ensures
        items_contents(items, k).len() <= items_contents(items, n).len(),
    decreases n - k,
{
    if k < n {
        lemma_contents_prefix(items, k, n - 1);
    }
}

/// The contents of the first `n` items depend on those items alone.
proof fn lemma_contents_same_prefix(a: Seq<BookItem>, b: Seq<BookItem>, n: int)
    requires
        0 <= n <= a.len(),
        n <= b.len(),
        forall|j: int| 0 <= j < n ==> a[j] == b[j],
    ensures
        items_contents(a, n) == items_contents(b, n),
    decreases n,
{
    if n > 0 {
        lemma_contents_same_prefix(a, b, n - 1);
    }
}

/// Appends the contents of the chapters in `item` to `out`.
fn collect_item(item: &BookItem, out: &mut Vec<String>)
    ensures
        texts(final(out)@) == texts(old(out)@) + item_contents(*item),
    decreases item,
{
    match item {
        BookItem::Chapter(ch) => {
            let ghost before = texts(out@);
            out.push(ch.content.clone());
            assert(texts(out@) =~= before + seq![ch.content@]);
            collect_items(&ch.sub_items, out);
            assert(texts(out@) =~= before + item_contents(*item));
        },
        _ => {
            assert(texts(out@) =~= texts(out@) + item_contents(*item));
        },
    }
}

/// Appends the contents of the chapters in `items` to `out`.
fn collect_items(items: &Vec<BookItem>, out: &mut Vec<String>)
    ensures
        texts(final(out)@) == texts(old(out)@) + all_contents(items@),
    decreases items,
{
    let ghost start = texts(out@);
    let mut i: usize = 0;
    assert(texts(out@) =~= start + items_contents(items@, 0));
    while i < items.len()
        invariant
            i <= items@.len(),
            texts(out@) == start + items_contents(items@, i as int),
        decreases items@.len() - i,
    {
        collect_item(&items[i], out);
        assert(texts(out@) =~= start + items_contents(items@, i as int + 1));
        i = i + 1;
    }
}

/// `item` with the contents of its chapters taken in order from `outputs`,
/// starting at `start`; also the position after the last one taken.
fn fill_item(item: BookItem, outputs: &Vec<String>, start: usize) -> (r: (BookItem, usize))
    requires
        start + item_contents(item).len() <= outputs@.len(),
    ensures
        r.1 == start + item_contents(item).len(),
        same_shape(item, r.0),
        item_contents(r.0) == texts(outputs@.subrange(start as int, r.1 as int)),
    decreases item,
{
    match item {
        BookItem::Chapter(ch) => {
            let Chapter { name, content: _, number, sub_items, path, source_path, parent_names } =
                ch;
            assert(item_contents(item).len() >= 1);
            assert(outputs.len() <= usize::MAX);
            let content = outputs[start].clone();
            let (subs, end) = fill_items(sub_items, outputs, start + 1);
            let new_ch = Chapter {
                name,
                content,
                number,
                sub_items: subs,
                path,
                source_path,
                parent_names,
            };
            assert(texts(outputs@.subrange(start as int, end as int)) =~= seq![content@] + texts(
                outputs@.subrange(start as int + 1, end as int),
            ));
            (BookItem::Chapter(new_ch), end)
        },
        other => {
            assert(texts(outputs@.subrange(start as int, start as int)) =~= Seq::empty());
            (other, start)
        },
    }
}

/// `items` with the contents of their chapters taken in order from
/// `outputs`, starting at `start`; also the position after the last one taken.
fn fill_items(items: Vec<BookItem>, outputs: &Vec<String>, start: usize) -> (r: (
    Vec<BookItem>,
    usize,
))
    requires
        start + all_contents(items@).len() <= outputs@.len(),
    ensures
        r.1 == start + all_contents(items@).len(),
        same_shapes(items@, r.0@),
        all_contents(r.0@) == texts(outputs@.subrange(start as int, r.1 as int)),
    decreases items,
{
    let ghost orig = items@;
    let mut cur = items;
    let mut pos = start;
    let mut i: usize = 0;
    assert(texts(outputs@.subrange(start as int, start as int)) =~= items_contents(cur@, 0));
    while i < cur.len()
        invariant
            orig == items@,
            cur@.len() == orig.len(),
            i <= orig.len(),
            forall|j: int| i <= j < orig.len() ==> cur@[j] == orig[j],
            forall|j: int| 0 <= j < i ==> same_shape(#[trigger] orig[j], cur@[j]),
            pos == start + items_contents(orig, i as int).len(),
            items_contents(cur@, i as int) == texts(outputs@.subrange(start as int, pos as int)),
            start + all_contents(orig).len() <= outputs@.len(),
        decreases orig.len() - i,
    {
        proof {
            lemma_contents_prefix(orig, i as int + 1, orig.len() as int);
        }
        let ghost at_start = cur@;
        let mut taken = BookItem::Separator;
        cur.set_and_swap(i, &mut taken);
        assert(taken == orig[i as int]);
        let (new_item, next) = fill_item(taken, outputs, pos);
        let ghost before = cur@;
        let mut back = new_item;
        cur.set_and_swap(i, &mut back);
        proof {
            lemma_contents_same_prefix(cur@, at_start, i as int);
            assert(texts(outputs@.subrange(start as int, next as int)) =~= texts(
                outputs@.subrange(start as int, pos as int),
            ) + texts(outputs@.subrange(pos as int, next as int)));
        }
        pos = next;
        i = i + 1;
    }
    proof {
        assert(forall|j: int| 0 <= j < orig.len() ==> same_shape(#[trigger] orig[j], cur@[j]));
    }
    (cur, pos)
}

proof fn lemma_shape_item_contents(a: BookItem, b: BookItem)
    requires
        same_shape(a, b),
    ensures
        item_contents(a).len() == item_contents(b).len(),
    decreases a, 0int,
{
    match a {
        BookItem::Chapter(x) => {
            let y = b->Chapter_0;
            lemma_shape_items_contents(x.sub_items@, y.sub_items@, x.sub_items@.len() as int);
        },
        _ => {},
    }
}

proof fn lemma_shape_items_contents(a: Seq<BookItem>, b: Seq<BookItem>, n: int)
    requires
        same_shapes(a, b),
        0 <= n <= a.len(),
    ensures
        items_contents(a, n).len() == items_contents(b, n).len(),
    decreases a, n,
{
    if n > 0 {
        lemma_shape_items_contents(a, b, n - 1);
        lemma_shape_item_contents(a[n - 1], b[n - 1]);
    }
}

/// Rewriting a book's chapters keeps its structure: a book that differs from
/// another only in chapter contents has as many chapters, so the converter
/// runs as often on it, and holds every separator and part title unchanged
/// in its place.
pub proof fn lemma_rewrite_keeps_structure(a: Seq<BookItem>, b: Seq<BookItem>)
    requires
        same_shapes(a, b),
    ensures
        all_contents(a).len() == all_contents(b).len(),
        a.len() == b.len(),
        forall|j: int| 0 <= j < a.len() && !(a[j] is Chapter) ==> #[trigger] b[j] == a[j],
        forall|j: int| 0 <= j < a.len() && (a[j] is Chapter) ==> #[trigger] b[j] is Chapter,
{
    lemma_shape_items_contents(a, b, a.len() as int);
    assert forall|j: int| 0 <= j < a.len() && !(a[j] is Chapter) implies #[trigger] b[j] == a[j] by {
        assert(same_shape(a[j], b[j]));
    }
    assert forall|j: int| 0 <= j < a.len() && (a[j] is Chapter) implies #[trigger] b[j] is Chapter by {
        assert(same_shape(a[j], b[j]));
    }
}

impl Book {
    /// A book without items.
    pub fn new() -> (r: Book)
        ensures
            r.sections@.len() == 0,
    {
        Book { sections: Vec::new() }
    }

    /// Adds `item` after the last top-level item.
    pub fn push_item(&mut self, item: BookItem)
        ensures
            final(self).sections@ == old(self).sections@.push(item),
    {
        self.sections.push(item);
    }

    /// The contents of every chapter, in document order: each chapter before
    /// those nested under it.
    pub fn chapter_contents(&self) -> (r: Vec<String>)
        ensures
            texts(r@) == all_contents(self.sections@),
    {
        let mut out = Vec::new();
        collect_items(&self.sections, &mut out);
        assert(texts(out@) =~= all_contents(self.sections@));
        out
    }

    /// Gives the chapters, in document order, the contents in `outputs`;
    /// everything else in the book stays as it was.
    pub fn set_chapter_contents(&mut self, outputs: &Vec<String>)
        requires
            outputs@.len() == all_contents(old(self).sections@).len(),
        ensures
            same_shapes(old(self).sections@, final(self).sections@),
            all_contents(final(self).sections@) == texts(outputs@),
    {
        let mut sections = Vec::new();
        core::mem::swap(&mut self.sections, &mut sections);
        let (filled, end) = fill_items(sections, outputs, 0);
        assert(outputs@.subrange(0, end as int) =~= outputs@);
        self.sections = filled;
    }
}

} // verus!

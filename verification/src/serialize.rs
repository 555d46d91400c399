//! The entry-list serializer shared by both document kinds.
//!
//! A sitemap document and a sitemap-index document have one shape: the XML
//! declaration, an opening root tag carrying the protocol namespace, one
//! child element per record in input order, and the closing root tag, all
//! concatenated with no whitespace in between.  The two kinds differ only
//! in their tag names and in what a record renders to, so each record type
//! implements [`SitemapEntry`] and the assembly logic lives here once.
//!
//! [`build_document`] returns the document as one string;
//! [`document_chunks`] returns it as the pieces that a file sink writes
//! one by one, and [`lemma_chunks_concat`] proves that those pieces,
//! written in order, spell exactly the built document.

use vstd::prelude::*;

verus! {

/// The XML declaration that opens every document.
pub open spec fn spec_xml_decl() -> Seq<char> {
    "<?xml version=\"1.0\" encoding=\"UTF-8\"?>"@
}

/// One record kind that a sitemap document lists.
pub trait SitemapEntry {
    /// The child element that this record contributes to the document.
    spec fn spec_row(&self) -> Seq<char>;

    /// Renders this record's child element.
    fn render(&self) -> (r: String)
        ensures
            r@ == self.spec_row(),
    ;
}

/// The child elements of all records, concatenated in input order.
pub open spec fn spec_rows<T: SitemapEntry>(entries: Seq<T>) -> Seq<char>
    decreases entries.len(),
{
    if entries.len() == 0 {
        Seq::empty()
    } else {
        entries[0].spec_row() + spec_rows(entries.skip(1))
    }
}

/// The complete document: declaration, opening root tag, one child element
/// per record in input order, closing root tag.
pub open spec fn spec_document<T: SitemapEntry>(
    root_open: Seq<char>,
    root_close: Seq<char>,
    entries: Seq<T>,
) -> Seq<char> {
    spec_xml_decl() + root_open + spec_rows(entries) + root_close
}

/// The document cut into the pieces that a file sink writes one by one:
/// the declaration, the opening root tag, one piece per record, and the
/// closing root tag.
pub open spec fn spec_chunks<T: SitemapEntry>(
    root_open: Seq<char>,
    root_close: Seq<char>,
    entries: Seq<T>,
) -> Seq<Seq<char>> {
    seq![spec_xml_decl(), root_open] + entries.map_values(|e: T| e.spec_row()) + seq![
        root_close,
    ]
}

/// Appending a record appends its child element to the concatenated rows.
pub proof fn lemma_rows_push<T: SitemapEntry>(entries: Seq<T>, e: T)
    ensures
        spec_rows(entries.push(e)) == spec_rows(entries) + e.spec_row(),
    decreases entries.len(),
{
    assert(entries.push(e)[entries.len() as int] == e);
    if entries.len() == 0 {
        assert(entries.push(e).skip(1) =~= Seq::<T>::empty());
        assert(spec_rows(entries.push(e)) == e.spec_row() + spec_rows(Seq::<T>::empty()));
        assert(spec_rows(entries.push(e)) =~= spec_rows(entries) + e.spec_row());
    } else {
        assert(entries.push(e)[0] == entries[0]);
        assert(entries.push(e).skip(1) =~= entries.skip(1).push(e));
        lemma_rows_push(entries.skip(1), e);
        assert(spec_rows(entries.push(e)) =~= spec_rows(entries) + e.spec_row());
    }
}

/// Law: an empty record sequence yields the declaration followed by the
/// bare root element pair, nothing else.
pub proof fn lemma_document_empty<T: SitemapEntry>(root_open: Seq<char>, root_close: Seq<char>)
    ensures
        spec_document(root_open, root_close, Seq::<T>::empty()) == spec_xml_decl() + root_open
            + root_close,
{
    assert(spec_rows(Seq::<T>::empty()) == Seq::<char>::empty());
    assert(spec_document(root_open, root_close, Seq::<T>::empty()) =~= spec_xml_decl() + root_open
        + root_close);
}

/// Where the `i`-th record's child element starts within the concatenated
/// rows: after the rows of the records before it.
pub open spec fn spec_rows_offset<T: SitemapEntry>(entries: Seq<T>, i: int) -> int {
    spec_rows(entries.take(i)).len() as int
}

/// The concatenated rows split, at any record boundary, into the rows
/// before it and the rows from it on.
pub proof fn lemma_rows_split<T: SitemapEntry>(entries: Seq<T>, i: int)
    requires
        0 <= i <= entries.len(),
    ensures
        spec_rows(entries) == spec_rows(entries.take(i)) + spec_rows(entries.skip(i)),
    decreases i,
{
    if i == 0 {
        assert(entries.take(0) =~= Seq::<T>::empty());
        assert(entries.skip(0) =~= entries);
        assert(spec_rows(entries) =~= spec_rows(entries.take(0)) + spec_rows(entries.skip(0)));
    } else {
        lemma_rows_split(entries.skip(1), i - 1);
        assert(entries.skip(1).skip(i - 1) =~= entries.skip(i));
        assert(entries.take(i)[0] == entries[0]);
        assert(entries.take(i).skip(1) =~= entries.skip(1).take(i - 1));
        assert(spec_rows(entries) =~= spec_rows(entries.take(i)) + spec_rows(entries.skip(i)));
    }
}

/// Law: the document carries one child element per record, each at the
/// offset that the records before it determine, and each directly
/// followed by the next — exactly the input records, in input order.
pub proof fn lemma_document_child_at<T: SitemapEntry>(
    root_open: Seq<char>,
    root_close: Seq<char>,
    entries: Seq<T>,
    i: int,
)
    requires
        0 <= i < entries.len(),
    ensures
        ({
            let doc = spec_document(root_open, root_close, entries);
            let start = spec_xml_decl().len() + root_open.len() + spec_rows_offset(entries, i);
            &&& 0 <= spec_rows_offset(entries, i)
            &&& start + entries[i].spec_row().len() + root_close.len() <= doc.len()
            &&& doc.subrange(start, start + entries[i].spec_row().len()) == entries[i].spec_row()
            &&& spec_rows_offset(entries, i + 1) == spec_rows_offset(entries, i)
                + entries[i].spec_row().len()
        }),
{
    let doc = spec_document(root_open, root_close, entries);
    let row = entries[i].spec_row();
    let start = spec_xml_decl().len() + root_open.len() + spec_rows_offset(entries, i);
    lemma_rows_split(entries, i);
    assert(entries.skip(i)[0] == entries[i]);
    assert(entries.skip(i).skip(1) =~= entries.skip(i + 1));
    assert(spec_rows(entries.skip(i)) == row + spec_rows(entries.skip(i + 1)));
    assert(entries.take(i + 1) =~= entries.take(i).push(entries[i]));
    lemma_rows_push(entries.take(i), entries[i]);
    let pre = spec_xml_decl() + root_open + spec_rows(entries.take(i));
    assert(doc =~= pre + row + (spec_rows(entries.skip(i + 1)) + root_close));
    assert(pre.len() == start);
    assert(doc.subrange(start, start + row.len()) =~= row);
}

/// Builds the whole document as one string.
pub fn build_document<T: SitemapEntry>(
    root_open: &str,
    root_close: &str,
    entries: &Vec<T>,
) -> (r: String)
    ensures
        r@ == spec_document(root_open@, root_close@, entries@),
{
    let mut content = String::from_str("<?xml version=\"1.0\" encoding=\"UTF-8\"?>");
    content.append(root_open);
    let mut i: usize = 0;
    while i < entries.len()
        invariant
            i <= entries@.len(),
            content@ == spec_xml_decl() + root_open@ + spec_rows(entries@.take(i as int)),
        decreases entries@.len() - i,
    {
        let e: &T = &entries[i];
        let row = e.render();
        content.append(row.as_str());
        proof {
            assert(entries@.take(i + 1) =~= entries@.take(i as int).push(entries@[i as int]));
            lemma_rows_push(entries@.take(i as int), entries@[i as int]);
            assert(content@ =~= spec_xml_decl() + root_open@ + spec_rows(entries@.take(i + 1)));
        }
        i = i + 1;
    }
    content.append(root_close);
    proof {
        assert(entries@.take(entries@.len() as int) =~= entries@);
        assert(content@ =~= spec_document(root_open@, root_close@, entries@));
    }
    content
}

/// Builds the document as the pieces that a file sink writes one by one.
pub fn document_chunks<T: SitemapEntry>(
    root_open: &str,
    root_close: &str,
    entries: &Vec<T>,
) -> (r: Vec<String>)
    ensures
        r@.map_values(|s: String| s@) == spec_chunks(root_open@, root_close@, entries@),
{
    let mut out: Vec<String> = Vec::new();
    out.push(String::from_str("<?xml version=\"1.0\" encoding=\"UTF-8\"?>"));
    out.push(String::from_str(root_open));
    let mut i: usize = 0;
    while i < entries.len()
        invariant
            i <= entries@.len(),
            out@.len() == i + 2,
            out@[0]@ == spec_xml_decl(),
            out@[1]@ == root_open@,
            forall|j: int| 0 <= j < i ==> #[trigger] out@[j + 2]@ == entries@[j].spec_row(),
        decreases entries@.len() - i,
    {
        let e: &T = &entries[i];
        out.push(e.render());
        i = i + 1;
    }
    out.push(String::from_str(root_close));
    proof {
        let lhs = out@.map_values(|s: String| s@);
        let rhs = spec_chunks(root_open@, root_close@, entries@);
        let mid = entries@.map_values(|e: T| e.spec_row());
        assert(lhs.len() == rhs.len());
        assert forall|j: int| 0 <= j < lhs.len() implies lhs[j] == rhs[j] by {
            assert(lhs[j] == out@[j]@);
            if j < 2 {
                assert(rhs[j] == seq![spec_xml_decl(), root_open@][j]);
            } else if j < 2 + entries@.len() {
                assert(rhs[j] == mid[j - 2]);
                assert(mid[j - 2] == entries@[j - 2].spec_row());
                assert(out@[(j - 2) + 2]@ == entries@[j - 2].spec_row());
            } else {
                assert(rhs[j] == root_close@);
            }
        }
        assert(lhs =~= rhs);
    }
    out
}

/// Concatenation of a sequence of pieces.
pub open spec fn spec_concat(parts: Seq<Seq<char>>) -> Seq<char>
    decreases parts.len(),
{
    if parts.len() == 0 {
        Seq::empty()
    } else {
        parts[0] + spec_concat(parts.skip(1))
    }
}

/// Concatenation distributes over appending two sequences of pieces.
pub proof fn lemma_concat_app(xs: Seq<Seq<char>>, ys: Seq<Seq<char>>)
    ensures
        spec_concat(xs + ys) == spec_concat(xs) + spec_concat(ys),
    decreases xs.len(),
{
    if xs.len() == 0 {
        assert(xs + ys =~= ys);
        assert(spec_concat(xs + ys) =~= spec_concat(xs) + spec_concat(ys));
    } else {
        assert((xs + ys)[0] == xs[0]);
        assert((xs + ys).skip(1) =~= xs.skip(1) + ys);
        lemma_concat_app(xs.skip(1), ys);
        assert(spec_concat(xs + ys) =~= spec_concat(xs) + spec_concat(ys));
    }
}

/// Concatenating each record's piece yields the concatenated rows.
pub proof fn lemma_concat_rows<T: SitemapEntry>(entries: Seq<T>)
    ensures
        spec_concat(entries.map_values(|e: T| e.spec_row())) == spec_rows(entries),
    decreases entries.len(),
{
    let m = entries.map_values(|e: T| e.spec_row());
    if entries.len() == 0 {
        assert(m.len() == 0);
    } else {
        assert(m[0] == entries[0].spec_row());
        assert(m.skip(1) =~= entries.skip(1).map_values(|e: T| e.spec_row()));
        lemma_concat_rows(entries.skip(1));
        assert(spec_concat(m) =~= spec_rows(entries));
    }
}

/// Law: writing the chunks one after another writes exactly the document
/// that [`build_document`] returns.
pub proof fn lemma_chunks_concat<T: SitemapEntry>(
    root_open: Seq<char>,
    root_close: Seq<char>,
    entries: Seq<T>,
)
    ensures
        spec_concat(spec_chunks(root_open, root_close, entries)) == spec_document(
            root_open,
            root_close,
            entries,
        ),
{
    let head = seq![spec_xml_decl(), root_open];
    let mid = entries.map_values(|e: T| e.spec_row());
    let tail = seq![root_close];
    assert(spec_chunks(root_open, root_close, entries) == (head + mid) + tail);
    lemma_concat_app(head + mid, tail);
    lemma_concat_app(head, mid);
    lemma_concat_rows(entries);
    assert(spec_concat(Seq::<Seq<char>>::empty()) == Seq::<char>::empty());
    assert(head.skip(1) =~= seq![root_open]);
    assert(seq![root_open].skip(1) =~= Seq::<Seq<char>>::empty());
    assert(seq![root_open][0] == root_open);
    assert(spec_concat(seq![root_open]) =~= root_open);
    assert(head[0] == spec_xml_decl());
    assert(spec_concat(head) =~= spec_xml_decl() + root_open);
    assert(tail.skip(1) =~= Seq::<Seq<char>>::empty());
    assert(tail[0] == root_close);
    assert(spec_concat(tail) =~= root_close);
    assert(spec_concat(spec_chunks(root_open, root_close, entries)) =~= spec_document(
        root_open,
        root_close,
        entries,
    ));
}

} // verus!

use vstd::prelude::*;
use crate::lines::content_lines;
use crate::lines::page_count;
use crate::lines::window;
use crate::model::EventView;
use crate::pager::line_record;
use crate::pager::page_records;
use crate::pager::records;
use crate::project::is_reserved_key;
use crate::project::project;

verus! {

/// The records of pages `0` to `n - 1`, one page after the other.
pub open spec fn pages_through(lines: Seq<Seq<char>>, page_size: nat, n: nat) -> Seq<crate::model::RecordView>
    decreases n,
{
    if n == 0 {
        Seq::empty()
    } else {
        pages_through(lines, page_size, (n - 1) as nat) + page_records(lines, (n - 1) as nat, page_size)
    }
}

proof fn lemma_records_add(a: Seq<Seq<char>>, b: Seq<Seq<char>>)
    ensures
        records(a + b) == records(a) + records(b),
    decreases b.len(),
{
    if b.len() == 0 {
        assert(a + b =~= a);
        assert(records(b) =~= Seq::<crate::model::RecordView>::empty());
        assert(records(a) + records(b) =~= records(a));
    } else {
        let c = b.drop_last();
        lemma_records_add(a, c);
        assert((a + b).drop_last() =~= a + c);
        assert((a + b).last() == b.last());
        match line_record(b.last()) {
            Some(x) => {
                assert(records(a) + records(b) =~= records(a) + records(c) + seq![x]);
            },
            None => {},
        }
    }
}

proof fn lemma_page_product(k: nat, size: nat)
    ensures
        (k + 1) * size == k * size + size,
{
    assert((k + 1) * size == k * size + size) by (nonlinear_arith);
}

proof fn lemma_pages_prefix(s: Seq<Seq<char>>, lines: Seq<Seq<char>>, page_size: nat, k: nat)
    requires
        s == content_lines(lines),
    ensures
        pages_through(lines, page_size, k) == records(
            s.subrange(0, if k * page_size <= s.len() { (k * page_size) as int } else { s.len() as int }),
        ),
    decreases k,
{
    if k == 0 {
        assert(0 * page_size == 0);
        assert(s.subrange(0, 0) =~= Seq::<Seq<char>>::empty());
        assert(records(s.subrange(0, 0)) =~= Seq::<crate::model::RecordView>::empty());
    } else {
        let j = (k - 1) as nat;
        lemma_pages_prefix(s, lines, page_size, j);
        lemma_page_product(j, page_size);
        let start = j * page_size;
        let head = s.subrange(0, if start <= s.len() { start as int } else { s.len() as int });
        let w = window(s, j, page_size);
        lemma_records_add(head, w);
        if start >= s.len() {
            assert(head + w =~= head);
        } else {
            assert(head + w =~= s.subrange(
                0,
                if k * page_size <= s.len() { (k * page_size) as int } else { s.len() as int },
            ));
        }
    }
}

proof fn lemma_page_count_covers(n: nat, size: nat)
    requires
        size > 0,
    ensures
        page_count(n, size) * size >= n,
{
    vstd::arithmetic::div_mod::lemma_fundamental_div_mod(n as int, size as int);
    let q = n / size;
    let r = n % size;
    if r == 0 {
        assert(q * size == size * q) by (nonlinear_arith);
    } else {
        assert((q + 1) * size == size * q + size) by (nonlinear_arith);
    }
}

/// A page at or past the last one, `page_count` of the non-blank lines, holds
/// no record.
pub proof fn lemma_page_past_end(lines: Seq<Seq<char>>, page: nat, page_size: nat)
    requires
        page_size > 0,
        page >= page_count(content_lines(lines).len(), page_size),
    ensures
        page_records(lines, page, page_size) == Seq::<crate::model::RecordView>::empty(),
{
    let n = content_lines(lines).len();
    let c = page_count(n, page_size);
    lemma_page_count_covers(n, page_size);
    assert(page * page_size >= c * page_size) by (nonlinear_arith)
        requires
            page >= c,
    ;
    assert(window(content_lines(lines), page, page_size) =~= Seq::<Seq<char>>::empty());
    assert(records(Seq::<Seq<char>>::empty()) =~= Seq::<crate::model::RecordView>::empty());
}

/// The pages of a file, read one after the other up to the last, hold the
/// same records in the same order as the whole file decoded at once.
pub proof fn lemma_pages_concatenate(lines: Seq<Seq<char>>, page_size: nat)
    requires
        page_size > 0,
    ensures
        pages_through(lines, page_size, page_count(content_lines(lines).len(), page_size)) == records(
            content_lines(lines),
        ),
{
    let s = content_lines(lines);
    let c = page_count(s.len(), page_size);
    lemma_page_count_covers(s.len(), page_size);
    lemma_pages_prefix(s, lines, page_size, c);
    assert(s.subrange(0, s.len() as int) =~= s);
}

/// No key of a record's custom properties names a standard field.
pub proof fn lemma_properties_exclude_reserved(line: Seq<char>, ev: EventView)
    ensures
        match project(line, ev).property_keys {
            Some(keys) => forall|i: int| 0 <= i < keys.len() ==> !is_reserved_key(#[trigger] keys[i]),
            None => true,
        },
{
    match crate::json::parsed_object_keys(line) {
        Some(keys) => {
            let p = |k: Seq<char>| !is_reserved_key(k);
            assert forall|i: int| 0 <= i < keys.filter(p).len() implies !is_reserved_key(#[trigger] keys.filter(p)[i]) by {
                keys.lemma_filter_pred(p, i);
            }
        },
        None => {},
    }
}

/// A record leaves its template out exactly when the event's template is empty
/// or the same as the record's message; where it is kept, it is the event's.
pub proof fn lemma_template_omitted(line: Seq<char>, ev: EventView)
    ensures
        project(line, ev).template is None <==> (ev.template.len() == 0 || ev.template == project(line, ev).message),
        project(line, ev).template is Some ==> project(line, ev).template == Some(ev.template),
{
}

} // verus!

use vstd::prelude::*;
use crate::text::is_blank;
use crate::text::is_blank_line;

verus! {

/// The lines that count: those that are not blank, in file order.
pub open spec fn content_lines(lines: Seq<Seq<char>>) -> Seq<Seq<char>> {
    lines.filter(|l: Seq<char>| !is_blank(l))
}

/// The page `page` of `size` lines: skip `page * size` lines, take up to `size`.
pub open spec fn window(s: Seq<Seq<char>>, page: nat, size: nat) -> Seq<Seq<char>> {
    let start = page * size;
    if start >= s.len() {
        Seq::empty()
    } else if start + size >= s.len() {
        s.subrange(start as int, s.len() as int)
    } else {
        s.subrange(start as int, (start + size) as int)
    }
}

/// The number of pages of `size` that `n` lines fill, the last one perhaps in part.
pub open spec fn page_count(n: nat, size: nat) -> nat
    recommends
        size > 0,
{
    if n % size == 0 {
        n / size
    } else {
        n / size + 1
    }
}

proof fn lemma_content_push(lines: Seq<Seq<char>>, l: Seq<char>)
    ensures
        content_lines(lines.push(l)) == if is_blank(l) {
            content_lines(lines)
        } else {
            content_lines(lines).push(l)
        },
{
    lines.lemma_filter_push(l, |l: Seq<char>| !is_blank(l));
}

/// How many lines of the file are not blank.
pub fn count_content_lines(lines: &Vec<String>) -> (r: usize)
    ensures
        r == content_lines(lines.deep_view()).len(),
{
    let ghost all = lines.deep_view();
    let mut n: usize = 0;
    let mut i: usize = 0;
    while i < lines.len()
        invariant
            all == lines.deep_view(),
            i <= lines.len(),
            n == content_lines(all.subrange(0, i as int)).len(),
            n <= i,
        decreases lines.len() - i,
    {
        proof {
            assert(all.subrange(0, i + 1) =~= all.subrange(0, i as int).push(all[i as int]));
            lemma_content_push(all.subrange(0, i as int), all[i as int]);
        }
        if !is_blank_line(lines[i].as_str()) {
            n = n + 1;
        }
        i = i + 1;
    }
    assert(all.subrange(0, i as int) =~= all);
    n
}

/// The lines of page `page`, `page_size` non-blank lines to a page; blank lines
/// are passed over and never counted.
pub fn select_page(lines: &Vec<String>, page: usize, page_size: usize) -> (r: Vec<String>)
    ensures
        r.deep_view() == window(content_lines(lines.deep_view()), page as nat, page_size as nat),
{
    let ghost all = lines.deep_view();
    let mut r: Vec<String> = Vec::new();
    let start = match page.checked_mul(page_size) {
        Some(s) => s,
        None => {
            proof {
                assert(content_lines(all).len() <= all.len()) by {
                    all.lemma_filter_len(|l: Seq<char>| !is_blank(l));
                }
                assert(all.len() == lines.len());
                assert(page * page_size > usize::MAX);
                assert(page * page_size >= content_lines(all).len());
            }
            assert(r.deep_view() =~= Seq::<Seq<char>>::empty());
            return r;
        },
    };
    let end = start.saturating_add(page_size);
    let mut seen: usize = 0;
    let mut i: usize = 0;
    assert(r.deep_view() =~= window(content_lines(all.subrange(0, 0)), page as nat, page_size as nat));
    while i < lines.len()
        invariant
            all == lines.deep_view(),
            start == page * page_size,
            end == if start + page_size <= usize::MAX { start + page_size } else { usize::MAX as int },
            i <= lines.len(),
            seen == content_lines(all.subrange(0, i as int)).len(),
            seen <= i,
            r.deep_view() == window(content_lines(all.subrange(0, i as int)), page as nat, page_size as nat),
        decreases lines.len() - i,
    {
        let ghost before = content_lines(all.subrange(0, i as int));
        proof {
            assert(all.subrange(0, i + 1) =~= all.subrange(0, i as int).push(all[i as int]));
            lemma_content_push(all.subrange(0, i as int), all[i as int]);
        }
        if !is_blank_line(lines[i].as_str()) {
            if start <= seen && seen < end {
                let ghost old_r = r.deep_view();
                let line = lines[i].clone();
                r.push(line);
                proof {
                    let after = before.push(all[i as int]);
                    assert(line@ == all[i as int]);
                    assert(r.deep_view() =~= old_r.push(all[i as int]));
                    assert(old_r =~= before.subrange(start as int, before.len() as int));
                    assert(r.deep_view() =~= window(after, page as nat, page_size as nat));
                }
            } else {
                proof {
                    let after = before.push(all[i as int]);
                    assert(window(after, page as nat, page_size as nat) =~= window(before, page as nat, page_size as nat));
                }
            }
            seen = seen + 1;
        }
        i = i + 1;
    }
    assert(all.subrange(0, i as int) =~= all);
    r
}

} // verus!

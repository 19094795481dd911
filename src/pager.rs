use vstd::prelude::*;
use crate::aggregate::collect_events;
use crate::aggregate::decoded;
use crate::aggregate::DecodedLine;
use crate::json::clef_decode;
use crate::lines::content_lines;
use crate::lines::select_page;
use crate::lines::window;
use crate::model::EventRecord;
use crate::model::EventView;
use crate::model::LogFileInfo;
use crate::model::RecordView;
use crate::project::project;
use crate::project::project_event;
use crate::scan::is_summary;
use crate::scan::summarize;

verus! {

/// The record of a line, where it decodes.
pub open spec fn line_record(l: Seq<char>) -> Option<RecordView> {
    match clef_decode(l) {
        Some(e) => Some(project(l, e)),
        None => None,
    }
}

/// The record of a decoded line.
pub open spec fn pair_record(p: (Seq<char>, EventView)) -> RecordView {
    project(p.0, p.1)
}

/// The records of the lines of `s` that decode, in order.
pub open spec fn records(s: Seq<Seq<char>>) -> Seq<RecordView> {
    s.filter_map(|l: Seq<char>| line_record(l))
}

/// The records of page `page` of the file, `page_size` lines to a page.
pub open spec fn page_records(lines: Seq<Seq<char>>, page: nat, page_size: nat) -> Seq<RecordView> {
    records(window(content_lines(lines), page, page_size))
}

proof fn lemma_records_of_decoded(s: Seq<Seq<char>>)
    ensures
        records(s) == decoded(s).map_values(|p: (Seq<char>, EventView)| pair_record(p)),
    decreases s.len(),
{
    if s.len() > 0 {
        lemma_records_of_decoded(s.drop_last());
        let d = decoded(s.drop_last());
        match clef_decode(s.last()) {
            Some(e) => {
                let f = |p: (Seq<char>, EventView)| pair_record(p);
                assert((d + seq![(s.last(), e)]).map_values(f) =~= d.map_values(f) + seq![
                    project(s.last(), e),
                ]);
            },
            None => {},
        }
    } else {
        assert(decoded(s).map_values(|p: (Seq<char>, EventView)| pair_record(p)) =~= Seq::<RecordView>::empty());
    }
}

/// The records of the lines in `lines` that decode, in order; lines that do
/// not decode are passed over.
pub fn records_of(lines: &Vec<String>) -> (r: Vec<EventRecord>)
    ensures
        r@.map_values(|e: EventRecord| e@) == records(lines.deep_view()),
{
    let batch = match collect_events(lines, true) {
        Ok(b) => b,
        Err(_) => {
            proof {
                assert(false);
            }
            return Vec::new();
        },
    };
    let ghost d = batch.entries@.map_values(|e: DecodedLine| e@);
    proof {
        lemma_records_of_decoded(lines.deep_view());
    }
    let mut out: Vec<EventRecord> = Vec::new();
    for entry in it: batch.entries
        invariant
            d == it.seq().map_values(|e: DecodedLine| e@),
            out@.map_values(|e: EventRecord| e@) == d.subrange(0, it.index() as int).map_values(
                |p: (Seq<char>, EventView)| pair_record(p),
            ),
    {
        let ghost k = it.index();
        let ghost old_out = out@.map_values(|e: EventRecord| e@);
        proof {
            assert(d[k] == entry@);
        }
        let rec = project_event(entry.line.as_str(), entry.event);
        out.push(rec);
        proof {
            assert(out@.map_values(|e: EventRecord| e@) =~= old_out.push(pair_record(d[k])));
            assert(d.subrange(0, k + 1).map_values(|p: (Seq<char>, EventView)| pair_record(p))
                =~= d.subrange(0, k).map_values(|p: (Seq<char>, EventView)| pair_record(p)).push(pair_record(d[k])));
        }
    }
    proof {
        assert(d.subrange(0, d.len() as int) =~= d);
    }
    out
}

/// Page `page` of the file, given as its lines: `page_size` lines that are not
/// blank to a page, and one record for each of them that decodes. A page past
/// the end is empty.
pub fn load_page(lines: &Vec<String>, page: usize, page_size: usize) -> (r: Vec<EventRecord>)
    ensures
        r@.map_values(|e: EventRecord| e@) == page_records(lines.deep_view(), page as nat, page_size as nat),
{
    let selected = select_page(lines, page, page_size);
    records_of(&selected)
}

/// The records of the whole file, given as its lines: one for each line that
/// is not blank and decodes.
pub fn load_all(lines: &Vec<String>) -> (r: Vec<EventRecord>)
    ensures
        r@.map_values(|e: EventRecord| e@) == records(content_lines(lines.deep_view())),
{
    let ghost all = lines.deep_view();
    let mut kept: Vec<String> = Vec::new();
    let mut i: usize = 0;
    while i < lines.len()
        invariant
            all == lines.deep_view(),
            i <= lines.len(),
            kept.deep_view() == content_lines(all.subrange(0, i as int)),
        decreases lines.len() - i,
    {
        proof {
            assert(all.subrange(0, i + 1) =~= all.subrange(0, i as int).push(all[i as int]));
            all.subrange(0, i as int).lemma_filter_push(all[i as int], |l: Seq<char>| !crate::text::is_blank(l));
        }
        if !crate::text::is_blank_line(lines[i].as_str()) {
            let ghost old_kept = kept.deep_view();
            let line = lines[i].clone();
            kept.push(line);
            proof {
                assert(kept.deep_view() =~= old_kept.push(all[i as int]));
            }
        }
        i = i + 1;
    }
    assert(all.subrange(0, i as int) =~= all);
    records_of(&kept)
}

/// The summary of a file together with its first page.
pub fn open_file(path: String, lines: &Vec<String>, sample_size: usize, page_size: usize) -> (r: (
    LogFileInfo,
    Vec<EventRecord>,
))
    ensures
        is_summary(r.0, path@, lines.deep_view(), sample_size as nat),
        r.1@.map_values(|e: EventRecord| e@) == page_records(lines.deep_view(), 0, page_size as nat),
{
    let info = summarize(path, lines, sample_size);
    let first = load_page(lines, 0, page_size);
    (info, first)
}

} // verus!

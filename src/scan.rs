use vstd::prelude::*;
use crate::aggregate::collect_events;
use crate::aggregate::decoded;
use crate::aggregate::level_set;
use crate::aggregate::strictly_sorted;
use crate::aggregate::DecodedLine;
use crate::lines::content_lines;
use crate::lines::count_content_lines;
use crate::lines::select_page;
use crate::lines::window;
use crate::model::EventView;
use crate::model::LogFileInfo;
use crate::text::lemma_lex_irreflexive;
use crate::text::lemma_lex_total;
use crate::text::lemma_lex_transitive;
use crate::text::lex_less;
use crate::text::str_less;

verus! {

/// The timestamps that decoded events carry.
pub open spec fn time_set(d: Seq<(Seq<char>, EventView)>) -> Set<Seq<char>> {
    Set::new(|t: Seq<char>| exists|i: int| 0 <= i < d.len() && d[i].1.time == Some(t))
}

/// `first` and `last` are the least and the greatest of the timestamps in `d`,
/// compared as text.
pub open spec fn is_time_span(d: Seq<(Seq<char>, EventView)>, first: Seq<char>, last: Seq<char>) -> bool {
    &&& time_set(d).contains(first)
    &&& time_set(d).contains(last)
    &&& forall|t: Seq<char>| #[trigger] time_set(d).contains(t) ==> !lex_less(t, first) && !lex_less(last, t)
}

/// The least and the greatest timestamp of the decoded events, compared as
/// text, or `None` where no event has one.
pub fn time_span(entries: &Vec<DecodedLine>) -> (r: Option<(String, String)>)
    ensures
        ({
            let d = entries@.map_values(|e: DecodedLine| e@);
            match r {
                Some((first, last)) => is_time_span(d, first@, last@),
                None => time_set(d).is_empty(),
            }
        }),
{
    let ghost d = entries@.map_values(|e: DecodedLine| e@);
    let mut span: Option<(String, String)> = None;
    let mut i: usize = 0;
    while i < entries.len()
        invariant
            d == entries@.map_values(|e: DecodedLine| e@),
            i <= entries.len(),
            match span {
                Some((first, last)) => is_time_span(d.subrange(0, i as int), first@, last@),
                None => time_set(d.subrange(0, i as int)).is_empty(),
            },
        decreases entries.len() - i,
    {
        let ghost before = d.subrange(0, i as int);
        let ghost after = d.subrange(0, i + 1);
        proof {
            assert forall|t: Seq<char>| #[trigger] time_set(after).contains(t) implies time_set(before).contains(t)
                || d[i as int].1.time == Some(t) by {
                let k = choose|k: int| 0 <= k < after.len() && after[k].1.time == Some(t);
                if k < i {
                    assert(before[k] == after[k]);
                }
            }
            assert forall|t: Seq<char>| #[trigger] time_set(before).contains(t) implies time_set(after).contains(t) by {
                let k = choose|k: int| 0 <= k < before.len() && before[k].1.time == Some(t);
                assert(after[k] == before[k]);
            }
        }
        match &entries[i].event.time {
            Some(t) => {
                proof {
                    assert(after[i as int].1.time == Some(t@));
                    assert(time_set(after).contains(t@));
                }
                match span {
                    Some((first, last)) => {
                        let new_first = if str_less(t.as_str(), first.as_str()) {
                            t.clone()
                        } else {
                            first
                        };
                        let new_last = if str_less(last.as_str(), t.as_str()) {
                            t.clone()
                        } else {
                            last
                        };
                        proof {
                            lemma_lex_total(t@, first@);
                            lemma_lex_total(last@, t@);
                            lemma_lex_irreflexive(t@);
                            assert forall|u: Seq<char>| #[trigger] time_set(after).contains(u) implies !lex_less(u, new_first@)
                                && !lex_less(new_last@, u) by {
                                lemma_lex_total(u, new_first@);
                                lemma_lex_total(u, new_last@);
                                lemma_lex_irreflexive(u);
                                if u != t@ {
                                    if lex_less(u, new_first@) {
                                        lemma_lex_total(u, first@);
                                        if lex_less(u, first@) {
                                        } else if u == first@ {
                                        } else {
                                            lemma_lex_transitive(first@, u, new_first@);
                                            lemma_lex_transitive(new_first@, first@, u);
                                        }
                                    }
                                    if lex_less(new_last@, u) {
                                        lemma_lex_total(last@, u);
                                        if lex_less(last@, u) {
                                        } else if u == last@ {
                                        } else {
                                            lemma_lex_transitive(new_last@, u, last@);
                                            lemma_lex_transitive(u, last@, new_last@);
                                        }
                                    }
                                }
                            }
                        }
                        span = Some((new_first, new_last));
                    },
                    None => {
                        proof {
                            lemma_lex_irreflexive(t@);
                            assert forall|u: Seq<char>| #[trigger] time_set(after).contains(u) implies u == t@ by {
                                assert(!time_set(before).contains(u));
                            }
                        }
                        span = Some((t.clone(), t.clone()));
                    },
                }
            },
            None => {
                proof {
                    assert forall|u: Seq<char>| #[trigger] time_set(after).contains(u) implies time_set(before).contains(u) by {
                        assert(d[i as int].1.time != Some(u));
                    }
                    assert(time_set(after) =~= time_set(before));
                }
            },
        }
        i = i + 1;
    }
    assert(d.subrange(0, i as int) =~= d);
    span
}

/// The lines whose events stand for the file in its summary: the first
/// `sample_size` lines that are not blank.
pub open spec fn sample_lines(lines: Seq<Seq<char>>, sample_size: nat) -> Seq<Seq<char>> {
    window(content_lines(lines), 0, sample_size)
}

/// `info` summarises the file of `lines` at `path`: the count covers every
/// line that is not blank; the levels, sorted and distinct, and the time span
/// are those of the sample's events.
pub open spec fn is_summary(info: LogFileInfo, path: Seq<char>, lines: Seq<Seq<char>>, sample_size: nat) -> bool {
    let sample = sample_lines(lines, sample_size);
    &&& info.path@ == path
    &&& info.total_count == content_lines(lines).len()
    &&& strictly_sorted(info.log_levels.deep_view())
    &&& info.log_levels.deep_view().to_set() == level_set(sample)
    &&& match info.date_range {
        Some((first, last)) => is_time_span(decoded(sample), first@, last@),
        None => time_set(decoded(sample)).is_empty(),
    }
}

/// Summarises a file, given as its lines. The count covers every line that is
/// not blank; the levels and the time span are read from the events of the
/// first `sample_size` such lines, where lines that do not decode are passed
/// over.
pub fn summarize(path: String, lines: &Vec<String>, sample_size: usize) -> (r: LogFileInfo)
    ensures
        is_summary(r, path@, lines.deep_view(), sample_size as nat),
{
    let total_count = count_content_lines(lines);
    let sample = select_page(lines, 0, sample_size);
    match collect_events(&sample, true) {
        Ok(batch) => {
            let date_range = time_span(&batch.entries);
            LogFileInfo { path, total_count, log_levels: batch.levels, date_range }
        },
        Err(_) => {
            proof {
                assert(false);
            }
            LogFileInfo { path, total_count, log_levels: Vec::new(), date_range: None }
        },
    }
}

} // verus!

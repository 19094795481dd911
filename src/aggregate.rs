use vstd::prelude::*;
use crate::json::clef_decode;
use crate::json::decode_event;
use crate::json::error_text;
use crate::model::EventView;
use crate::model::LogError;
use crate::model::SerializableEvent;
use crate::text::lemma_lex_total;
use crate::text::lemma_lex_transitive;
use crate::text::lex_less;
use crate::text::str_less;

verus! {

/// A line that decoded, beside the event it decoded to.
#[derive(Clone, Debug, PartialEq, Eq)]
pub struct DecodedLine {
    pub line: String,
    pub event: SerializableEvent,
}

impl View for DecodedLine {
    type V = (Seq<char>, EventView);

    open spec fn view(&self) -> (Seq<char>, EventView) {
        (self.line@, self.event@)
    }
}

/// What one batch of lines decodes to: the decoded lines in order, and the
/// distinct levels among them, sorted.
#[derive(Clone, Debug, PartialEq, Eq)]
pub struct EventBatch {
    pub entries: Vec<DecodedLine>,
    pub levels: Vec<String>,
}

/// A line paired with its event, where it decodes.
pub open spec fn decode_pair(l: Seq<char>) -> Option<(Seq<char>, EventView)> {
    match clef_decode(l) {
        Some(e) => Some((l, e)),
        None => None,
    }
}

/// The lines of `s` that decode, each with its event, in order.
pub open spec fn decoded(s: Seq<Seq<char>>) -> Seq<(Seq<char>, EventView)> {
    s.filter_map(|l: Seq<char>| decode_pair(l))
}

/// The level of the event a line decodes to, where it has one.
pub open spec fn line_level(l: Seq<char>) -> Option<Seq<char>> {
    match clef_decode(l) {
        Some(e) => e.level,
        None => None,
    }
}

/// The levels that the lines of `s` carry.
pub open spec fn level_set(s: Seq<Seq<char>>) -> Set<Seq<char>> {
    Set::new(|lv: Seq<char>| exists|i: int| 0 <= i < s.len() && line_level(s[i]) == Some(lv))
}

/// Each element comes strictly before every later one.
pub open spec fn strictly_sorted(v: Seq<Seq<char>>) -> bool {
    forall|i: int, j: int| 0 <= i < j < v.len() ==> lex_less(#[trigger] v[i], #[trigger] v[j])
}

/// Every line of `s` before `n` decodes.
pub open spec fn all_decode_before(s: Seq<Seq<char>>, n: int) -> bool {
    forall|j: int| 0 <= j < n ==> (#[trigger] clef_decode(s[j])) is Some
}

/// Adds a level to a sorted list of distinct levels, where it is not there yet.
pub fn insert_level(levels: &mut Vec<String>, lv: String)
    requires
        strictly_sorted(old(levels).deep_view()),
    ensures
        strictly_sorted(final(levels).deep_view()),
        final(levels).deep_view().to_set() == old(levels).deep_view().to_set().insert(lv@),
{
    let ghost v = levels.deep_view();
    let mut i: usize = 0;
    while i < levels.len() && str_less(levels[i].as_str(), lv.as_str())
        invariant
            v == levels.deep_view(),
            strictly_sorted(v),
            i <= levels.len(),
            forall|j: int| 0 <= j < i ==> lex_less(#[trigger] v[j], lv@),
        decreases levels.len() - i,
    {
        i = i + 1;
    }
    if i < levels.len() && levels[i] == lv {
        proof {
            assert(v.to_set().insert(lv@) =~= v.to_set()) by {
                assert(v[i as int] == lv@);
            }
        }
        return;
    }
    proof {
        if i < v.len() {
            lemma_lex_total(v[i as int], lv@);
            assert forall|j: int| i <= j < v.len() implies lex_less(lv@, #[trigger] v[j]) by {
                if j > i {
                    lemma_lex_transitive(lv@, v[i as int], v[j]);
                }
            }
        }
    }
    levels.insert(i, lv);
    proof {
        let w = levels.deep_view();
        assert(w =~= v.insert(i as int, lv@));
        assert forall|a: int, b: int| 0 <= a < b < w.len() implies lex_less(
            #[trigger] w[a],
            #[trigger] w[b],
        ) by {
            if b < i {
            } else if a < i && b == i {
            } else if a < i {
                assert(w[b] == v[b - 1]);
            } else if a == i {
                assert(w[b] == v[b - 1]);
            } else {
                assert(w[a] == v[a - 1]);
                assert(w[b] == v[b - 1]);
            }
        }
        assert(w.to_set() =~= v.to_set().insert(lv@)) by {
            assert forall|x: Seq<char>| w.to_set().contains(x) implies v.to_set().insert(lv@).contains(x) by {
                let k = choose|k: int| 0 <= k < w.len() && w[k] == x;
                if k < i {
                    assert(v[k] == x);
                } else if k > i {
                    assert(v[k - 1] == x);
                }
            }
            assert forall|x: Seq<char>| v.to_set().insert(lv@).contains(x) implies w.to_set().contains(x) by {
                if x == lv@ {
                    assert(w[i as int] == x);
                } else {
                    let k = choose|k: int| 0 <= k < v.len() && v[k] == x;
                    if k < i {
                        assert(w[k] == x);
                    } else {
                        assert(w[k + 1] == x);
                    }
                }
            }
        }
    }
}

proof fn lemma_decoded_push(s: Seq<Seq<char>>, l: Seq<char>)
    ensures
        decoded(s.push(l)) == match decode_pair(l) {
            Some(p) => decoded(s).push(p),
            None => decoded(s),
        },
{
    let f = |l: Seq<char>| decode_pair(l);
    assert(s.push(l).drop_last() =~= s);
    assert(s.push(l).last() == l);
    assert(decoded(s.push(l)) == s.push(l).filter_map(f));
    match decode_pair(l) {
        Some(p) => {
            assert(decoded(s).push(p) =~= decoded(s) + seq![p]);
        },
        None => {},
    }
}

proof fn lemma_level_set_push(s: Seq<Seq<char>>, l: Seq<char>)
    ensures
        level_set(s.push(l)) == match line_level(l) {
            Some(lv) => level_set(s).insert(lv),
            None => level_set(s),
        },
{
    let t = s.push(l);
    let expected = match line_level(l) {
        Some(lv) => level_set(s).insert(lv),
        None => level_set(s),
    };
    assert forall|x: Seq<char>| level_set(t).contains(x) implies expected.contains(x) by {
        let i = choose|i: int| 0 <= i < t.len() && line_level(t[i]) == Some(x);
        if i < s.len() {
            assert(s[i] == t[i]);
        }
    }
    assert forall|x: Seq<char>| expected.contains(x) implies level_set(t).contains(x) by {
        if line_level(l) == Some(x) {
            assert(t[s.len() as int] == l);
        } else {
            let i = choose|i: int| 0 <= i < s.len() && line_level(s[i]) == Some(x);
            assert(t[i] == s[i]);
        }
    }
    assert(level_set(t) =~= expected);
}

/// Decodes a batch of lines in order. Where `ignore_errors` holds, a line that
/// does not decode is passed over; else the first such line fails the whole
/// batch with `DecodeFailure` at its index.
pub fn collect_events(lines: &Vec<String>, ignore_errors: bool) -> (r: Result<EventBatch, LogError>)
    ensures
        match r {
            Ok(b) => {
                &&& ignore_errors || all_decode_before(lines.deep_view(), lines.len() as int)
                &&& b.entries@.map_values(|d: DecodedLine| d@) == decoded(lines.deep_view())
                &&& strictly_sorted(b.levels.deep_view())
                &&& b.levels.deep_view().to_set() == level_set(lines.deep_view())
            },
            Err(e) => {
                &&& !ignore_errors
                &&& e matches LogError::DecodeFailure { line, .. }
                &&& line < lines.len()
                &&& clef_decode(lines.deep_view()[line as int]) is None
                &&& all_decode_before(lines.deep_view(), line as int)
            },
        },
{
    let ghost all = lines.deep_view();
    let mut entries: Vec<DecodedLine> = Vec::new();
    let mut levels: Vec<String> = Vec::new();
    let mut i: usize = 0;
    assert(all.subrange(0, 0) =~= Seq::<Seq<char>>::empty());
    assert(level_set(all.subrange(0, 0)) =~= Set::<Seq<char>>::empty());
    assert(levels.deep_view().to_set() =~= Set::<Seq<char>>::empty());
    assert(entries@.map_values(|d: DecodedLine| d@) =~= decoded(all.subrange(0, 0)));
    while i < lines.len()
        invariant
            all == lines.deep_view(),
            i <= lines.len(),
            ignore_errors || all_decode_before(all, i as int),
            entries@.map_values(|d: DecodedLine| d@) == decoded(all.subrange(0, i as int)),
            strictly_sorted(levels.deep_view()),
            levels.deep_view().to_set() == level_set(all.subrange(0, i as int)),
        decreases lines.len() - i,
    {
        let ghost prefix = all.subrange(0, i as int);
        proof {
            assert(all.subrange(0, i + 1) =~= prefix.push(all[i as int]));
            lemma_decoded_push(prefix, all[i as int]);
            lemma_level_set_push(prefix, all[i as int]);
        }
        match decode_event(lines[i].as_str()) {
            Ok(event) => {
                match &event.level {
                    Some(lv) => {
                        insert_level(&mut levels, lv.clone());
                    },
                    None => {},
                }
                let ghost old_entries = entries@.map_values(|d: DecodedLine| d@);
                let d = DecodedLine { line: lines[i].clone(), event };
                entries.push(d);
                proof {
                    assert(entries@.map_values(|d: DecodedLine| d@) =~= old_entries.push(d@));
                }
            },
            Err(err) => {
                if !ignore_errors {
                    return Err(LogError::DecodeFailure { line: i, detail: error_text(&err) });
                }
            },
        }
        i = i + 1;
    }
    assert(all.subrange(0, i as int) =~= all);
    Ok(EventBatch { entries, levels })
}

} // verus!

//! What holds of entity-tag lists as a whole.

use vstd::prelude::*;

use crate::etag;
use crate::etag::{COMMA, SLASH, UPPER_W};

verus! {

/// The marker of a weak tag.
pub open spec fn weak_marker() -> Seq<u8> {
    seq![UPPER_W, SLASH]
}

/// Nothing in `s` that a list would take for the end of an entry: no comma, and
/// no blank at its end.
pub open spec fn is_closed(s: Seq<u8>) -> bool {
    &&& !s.contains(COMMA)
    &&& s.len() > 0 ==> !etag::is_blank(s.last())
}

/// `entries` can be the entries of a list: none of them is empty, or could be
/// over before its end, and none but the first begins with a blank.
pub open spec fn are_entries(entries: Seq<Seq<u8>>) -> bool {
    forall|i: int|
        #![trigger entries[i]]
        0 <= i < entries.len() ==> {
            &&& entries[i].len() > 0
            &&& is_closed(entries[i])
            &&& i > 0 ==> !etag::is_blank(entries[i].first())
        }
}

/// `gaps` can stand behind as many entries: padding, with a comma in each but
/// the last.
pub open spec fn are_gaps(gaps: Seq<Seq<u8>>) -> bool {
    forall|i: int|
        #![trigger gaps[i]]
        0 <= i < gaps.len() ==> etag::all_padding(gaps[i]) && (i < gaps.len() - 1
            ==> gaps[i].contains(COMMA))
}

/// A list: each of the `entries`, with its gap behind it.
pub open spec fn listed(entries: Seq<Seq<u8>>, gaps: Seq<Seq<u8>>) -> Seq<u8>
    decreases entries.len(),
{
    if entries.len() == 0 {
        Seq::empty()
    } else {
        entries[0] + (gaps[0] + listed(entries.drop_first(), gaps.drop_first()))
    }
}

/// What stands for entry `i` in a comparison: under weak comparison, the entry
/// without its marker. A bare `W/` with anything behind it in the list is a
/// marker too, of nothing.
pub open spec fn compared_as(
    entries: Seq<Seq<u8>>,
    gaps: Seq<Seq<u8>>,
    i: int,
    weak: bool,
) -> Seq<u8> {
    if weak && entries[i] == weak_marker() && (i < entries.len() - 1 || gaps[i].len() > 0) {
        Seq::empty()
    } else {
        etag::comparable(entries[i], weak)
    }
}

/// Where an entry is closed behind the tag that it begins with, the tag is all
/// of it.
proof fn lemma_whole_entry(entry: Seq<u8>, more: Seq<u8>, tag: Seq<u8>)
    requires
        is_closed(entry),
        is_closed(tag),
        etag::closes_entry(more),
    ensures
        etag::opens_with(entry + more, tag) <==> entry == tag,
{
    let list = entry + more;
    let m = choose|m: int|
        0 <= m <= more.len() && etag::all_blank(#[trigger] more.take(m)) && (m == more.len()
            || more[m] == COMMA);
    if entry == tag {
        assert(list.skip(tag.len() as int) =~= more);
        assert(list.subrange(0, tag.len() as int) =~= tag);
    }
    if etag::opens_with(list, tag) {
        let e = entry.len() as int;
        let t = tag.len() as int;
        assert forall|k: int| 0 <= k < t implies tag[k] == #[trigger] list[k] by {
            assert(list.subrange(0, t)[k] == list[k]);
        }
        if t < e {
            let tail = list.skip(t);
            let n = choose|n: int|
                0 <= n <= tail.len() && etag::all_blank(#[trigger] tail.take(n)) && (n
                    == tail.len() || tail[n] == COMMA);
            if n < e - t {
                assert(tail[n] == entry[t + n]);
            } else {
                assert(tail.take(n)[e - t - 1] == entry.last());
            }
        } else if t > e {
            if t - e <= m {
                assert(more.take(m)[t - e - 1] == tag.last());
            } else {
                assert(tag[e + m] == more[m]);
            }
        }
        assert(entry =~= tag);
    }
}

/// Whether an entry carries a marker does not depend on what closes it, but for
/// the bare marker.
proof fn lemma_marker_is_its_own(entry: Seq<u8>, more: Seq<u8>, weak: bool)
    requires
        entry.len() > 0,
        etag::closes_entry(more),
        weak && more.len() > 0 ==> entry != weak_marker(),
    ensures
        etag::comparable(entry + more, weak) == etag::comparable(entry, weak) + more,
{
    let list = entry + more;
    if weak && more.len() > 0 {
        if entry.len() == 1 {
            let m = choose|m: int|
                0 <= m <= more.len() && etag::all_blank(#[trigger] more.take(m)) && (m
                    == more.len() || more[m] == COMMA);
            if m > 0 {
                assert(more.take(m)[0] == more[0]);
            }
            assert(list[1] == more[0]);
        }
        if entry.len() == 2 && list[0] == UPPER_W && list[1] == SLASH {
            assert(entry =~= weak_marker());
        }
        assert(etag::has_weak_marker(list) == etag::has_weak_marker(entry));
    }
    assert(etag::comparable(list, weak) =~= etag::comparable(entry, weak) + more);
}

/// The first entry of a list that goes on with `more` is compared as if it stood
/// alone, but for the bare marker, which then marks nothing.
proof fn lemma_first_entry(entry: Seq<u8>, more: Seq<u8>, tag: Seq<u8>, weak: bool)
    requires
        entry.len() > 0,
        is_closed(entry),
        is_closed(tag),
        etag::closes_entry(more),
    ensures
        etag::opens_with(etag::comparable(entry + more, weak), tag) <==> tag == (if weak && entry
            == weak_marker() && more.len() > 0 {
            Seq::empty()
        } else {
            etag::comparable(entry, weak)
        }),
{
    if weak && entry == weak_marker() && more.len() > 0 {
        let nothing = Seq::<u8>::empty();
        assert(etag::comparable(entry + more, weak) =~= nothing + more);
        lemma_whole_entry(nothing, more, tag);
    } else {
        let compared = etag::comparable(entry, weak);
        lemma_marker_is_its_own(entry, more, weak);
        assert(is_closed(compared)) by {
            if compared.contains(COMMA) {
                let k = choose|k: int| 0 <= k < compared.len() && compared[k] == COMMA;
                if compared.len() < entry.len() {
                    assert(entry[k + 2] == COMMA);
                }
            }
            assert(compared.last() == entry.last());
        }
        lemma_whole_entry(compared, more, tag);
    }
}

/// The walk over a list whose first entry is `first`.
proof fn lemma_front_entry(
    first: Seq<u8>,
    gap: Seq<u8>,
    rest: Seq<u8>,
    tag: Seq<u8>,
    weak: bool,
)
    requires
        first.len() > 0,
        is_closed(first),
        is_closed(tag),
        etag::all_padding(gap),
        gap.contains(COMMA) || rest.len() == 0,
        rest.len() > 0 ==> !etag::is_padding(rest[0]),
    ensures
        etag::list_contains(first + (gap + rest), tag, weak) <==> {
            ||| etag::opens_with(etag::comparable(first + (gap + rest), weak), tag)
            ||| etag::list_contains(rest, tag, weak)
        },
{
    let more = gap + rest;
    let list = first + more;
    if gap.contains(COMMA) {
        lemma_first_comma(gap);
        let c = choose|c: int| is_first_comma(gap, c);
        let comma = first.len() + c;
        let next = (first.len() + gap.len()) as int;
        assert forall|k: int| 0 <= k < comma implies list[k] != COMMA by {
            if k < first.len() {
                assert(first.contains(list[k]));
            } else {
                assert(list[k] == gap[k - first.len()]);
            }
        }
        assert(list[comma] == COMMA);
        assert forall|k: int| 0 <= k < next - comma implies etag::is_padding(
            #[trigger] list.subrange(comma, next)[k],
        ) by {
            assert(list[comma + k] == gap[c + k]);
        }
        assert(next < list.len() ==> list[next] == rest[0]);
        etag::lemma_next_entry(list, tag, weak, comma, next);
        assert(list.skip(next) =~= rest);
    } else {
        assert forall|k: int| 0 <= k < list.len() implies list[k] != COMMA by {
            if k < first.len() {
                assert(first.contains(list[k]));
            } else {
                assert(gap.contains(list[k]));
            }
        }
        etag::lemma_only_entry(list, tag, weak);
    }
}

/// A tag is in a comma-separated list if and only if it is one of the entries,
/// whatever the padding between them and at the end. Under weak comparison the
/// entries count without their markers.
///
/// Left out are tags that a list would cut short or lengthen: those with a comma
/// in them, or a blank at their end.
pub proof fn law_list_contains_its_entries(
    entries: Seq<Seq<u8>>,
    gaps: Seq<Seq<u8>>,
    tag: Seq<u8>,
    weak: bool,
)
    requires
        are_entries(entries),
        gaps.len() == entries.len(),
        are_gaps(gaps),
        is_closed(tag),
    ensures
        etag::list_contains(listed(entries, gaps), tag, weak) <==> exists|i: int|
            0 <= i < entries.len() && #[trigger] compared_as(entries, gaps, i, weak) == tag,
    decreases entries.len(),
{
    if entries.len() == 0 {
        law_empty_list_matches_nothing(tag, weak);
    } else {
        let first = entries[0];
        let gap = gaps[0];
        let others = entries.drop_first();
        let other_gaps = gaps.drop_first();
        let rest = listed(others, other_gaps);
        assert forall|i: int| #![trigger others[i]] 0 <= i < others.len() implies {
            &&& others[i].len() > 0
            &&& is_closed(others[i])
            &&& !etag::is_blank(others[i].first())
        } by {
            assert(others[i] == entries[i + 1]);
        }
        assert forall|i: int|
            #![trigger other_gaps[i]]
            0 <= i < other_gaps.len() implies etag::all_padding(other_gaps[i]) && (i
            < other_gaps.len() - 1 ==> other_gaps[i].contains(COMMA)) by {
            assert(other_gaps[i] == gaps[i + 1]);
        }
        law_list_contains_its_entries(others, other_gaps, tag, weak);
        if others.len() > 0 {
            assert(rest[0] == others[0][0]);
            assert(others[0].contains(others[0][0]));
        }
        lemma_front_entry(first, gap, rest, tag, weak);
        lemma_gap_closes(gap, rest);
        lemma_first_entry(first, gap + rest, tag, weak);
        lemma_one_of_them(entries, gaps, tag, weak);
    }
}

/// One of the entries stands for `tag` if the first or one of the others does.
proof fn lemma_one_of_them(
    entries: Seq<Seq<u8>>,
    gaps: Seq<Seq<u8>>,
    tag: Seq<u8>,
    weak: bool,
)
    requires
        entries.len() > 0,
        gaps.len() == entries.len(),
    ensures
        (exists|i: int|
            0 <= i < entries.len() && #[trigger] compared_as(entries, gaps, i, weak) == tag) <==> {
            ||| compared_as(entries, gaps, 0, weak) == tag
            ||| exists|i: int|
                0 <= i < entries.len() - 1 && #[trigger] compared_as(
                    entries.drop_first(),
                    gaps.drop_first(),
                    i,
                    weak,
                ) == tag
        },
{
    let others = entries.drop_first();
    let other_gaps = gaps.drop_first();
    assert forall|i: int| 0 <= i < others.len() implies #[trigger] compared_as(
        others,
        other_gaps,
        i,
        weak,
    ) == compared_as(entries, gaps, i + 1, weak) by {
        assert(others[i] == entries[i + 1] && other_gaps[i] == gaps[i + 1]);
    }
    if exists|i: int|
        0 <= i < others.len() && #[trigger] compared_as(others, other_gaps, i, weak) == tag {
        let i = choose|i: int|
            0 <= i < others.len() && #[trigger] compared_as(others, other_gaps, i, weak) == tag;
        assert(compared_as(entries, gaps, i + 1, weak) == tag);
    }
    if exists|i: int|
        0 <= i < entries.len() && #[trigger] compared_as(entries, gaps, i, weak) == tag {
        let i = choose|i: int|
            0 <= i < entries.len() && #[trigger] compared_as(entries, gaps, i, weak) == tag;
        if i > 0 {
            assert(compared_as(others, other_gaps, i - 1, weak) == tag);
        }
    }
}

/// A gap closes the entry before it.
proof fn lemma_gap_closes(gap: Seq<u8>, rest: Seq<u8>)
    requires
        etag::all_padding(gap),
        gap.contains(COMMA) || rest.len() == 0,
    ensures
        etag::closes_entry(gap + rest),
{
    let more = gap + rest;
    let c = if gap.contains(COMMA) {
        lemma_first_comma(gap);
        choose|c: int| is_first_comma(gap, c)
    } else {
        gap.len() as int
    };
    assert forall|k: int| 0 <= k < c implies etag::is_blank(#[trigger] more.take(c)[k]) by {
        assert(etag::is_padding(gap[k]));
        assert(gap.contains(gap[k]));
    }
    assert(etag::all_blank(more.take(c)));
    assert(c < more.len() ==> more[c] == gap[c]);
}

/// The first comma of `s` stands at `c`.
spec fn is_first_comma(s: Seq<u8>, c: int) -> bool {
    0 <= c < s.len() && s[c] == COMMA && forall|k: int| 0 <= k < c ==> s[k] != COMMA
}

/// A sequence with a comma has a first one.
proof fn lemma_first_comma(s: Seq<u8>)
    requires
        s.contains(COMMA),
    ensures
        exists|c: int| is_first_comma(s, c),
    decreases s.len(),
{
    let shorter = s.drop_last();
    if shorter.contains(COMMA) {
        lemma_first_comma(shorter);
        let c = choose|c: int| is_first_comma(shorter, c);
        assert(forall|k: int| 0 <= k <= c ==> s[k] == #[trigger] shorter[k]);
        assert forall|k: int| 0 <= k < c implies s[k] != COMMA by {
            assert(shorter[k] != COMMA);
        }
        assert(is_first_comma(s, c));
    } else {
        let c = s.len() - 1;
        let i = choose|i: int| 0 <= i < s.len() && s[i] == COMMA;
        assert(i < c ==> shorter[i] == COMMA);
        assert forall|k: int| 0 <= k < c implies s[k] != COMMA by {
            assert(shorter.contains(shorter[k]));
        }
        assert(is_first_comma(s, c));
    }
}

/// An empty list matches nothing.
pub proof fn law_empty_list_matches_nothing(tag: Seq<u8>, weak: bool)
    ensures
        !etag::list_contains(Seq::empty(), tag, weak),
{
}

/// A list that is nothing but the tag contains the tag, under either comparison.
pub proof fn law_tag_matches_itself(tag: Seq<u8>, weak: bool)
    requires
        tag.len() > 0,
    ensures
        etag::list_contains(tag, etag::comparable(tag, weak), weak),
{
    let compared = etag::comparable(tag, weak);
    assert(tag.skip(0) =~= tag);
    assert(etag::entry_starts_at(tag, 0));
    assert(compared.subrange(0, compared.len() as int) =~= compared);
    let tail = compared.skip(compared.len() as int);
    assert(etag::all_blank(tail.take(0)));
}

/// A tag is found wherever it stands in a list, as long as a comma and padding
/// come before it, and blanks and a comma, or the end, after it.
///
/// The bare marker `W/` is left out where weak comparison takes it for the marker
/// of what follows.
pub proof fn law_found_among_others(
    before: Seq<u8>,
    padding: Seq<u8>,
    tag: Seq<u8>,
    after: Seq<u8>,
    weak: bool,
)
    requires
        tag.len() > 0,
        !etag::is_padding(tag[0]),
        weak && after.len() > 0 ==> tag != weak_marker(),
        etag::all_padding(padding),
        etag::closes_entry(after),
    ensures
        etag::list_contains(
            before + seq![COMMA] + padding + tag + after,
            etag::comparable(tag, weak),
            weak,
        ),
{
    let list = before + seq![COMMA] + padding + tag + after;
    let j = before.len() as int;
    let i = j + 1 + padding.len();
    let rest = tag + after;
    let compared = etag::comparable(tag, weak);
    assert(list.skip(i) =~= rest);
    assert(etag::entry_starts_at(list, i)) by {
        assert(list[j] == COMMA);
        assert forall|k: int| 0 <= k < i - j implies etag::is_padding(
            #[trigger] list.subrange(j, i)[k],
        ) by {
            if k > 0 {
                assert(list[j + k] == padding[k - 1]);
            }
        }
    }
    lemma_marker_is_its_own(tag, after, weak);
    assert((compared + after).subrange(0, compared.len() as int) =~= compared);
    assert((compared + after).skip(compared.len() as int) =~= after);
}

/// What matches under strong comparison matches under weak comparison too.
///
/// The bare marker `W/` is left out: where an entry consists of it, weak
/// comparison takes it for the marker of what follows.
pub proof fn law_strong_match_is_weak_match(list: Seq<u8>, tag: Seq<u8>)
    requires
        tag != weak_marker(),
        etag::list_contains(list, tag, false),
    ensures
        etag::list_contains(list, etag::comparable(tag, true), true),
{
    let i = choose|i: int|
        etag::entry_starts_at(list, i) && etag::opens_with(
            etag::comparable(#[trigger] list.skip(i), false),
            tag,
        );
    let rest = list.skip(i);
    let t = tag.len() as int;
    let tail = rest.skip(t);
    let n = choose|n: int|
        0 <= n <= tail.len() && etag::all_blank(#[trigger] tail.take(n)) && (n == tail.len()
            || tail[n] == COMMA);
    assert forall|k: int| 0 <= k < t implies tag[k] == #[trigger] rest[k] by {
        assert(rest.subrange(0, t)[k] == rest[k]);
    }
    if etag::has_weak_marker(tag) {
        let compared = tag.skip(2);
        assert(rest.skip(2).subrange(0, t - 2) =~= compared);
        assert(rest.skip(2).skip(t - 2) =~= tail);
    } else if etag::has_weak_marker(rest) {
        if t == 2 {
            assert(tag =~= weak_marker());
        }
        assert(t < 2);
        assert(tail[0] == rest[t]);
        if n > 0 {
            assert(tail.take(n)[0] == tail[0]);
        }
        assert(false);
    }
    assert(etag::opens_with(etag::comparable(list.skip(i), true), etag::comparable(tag, true)));
}

/// An entry marked as weak matches the tag without the marker under weak
/// comparison.
pub proof fn law_marked_entry_matches_weakly(tag: Seq<u8>)
    requires
        tag.len() > 0,
    ensures
        etag::list_contains(weak_marker() + tag, tag, true),
{
    let list = weak_marker() + tag;
    law_tag_matches_itself(list, true);
    assert(etag::comparable(list, true) =~= tag);
}

/// Under strong comparison the marker counts: an entry marked as weak is not the
/// tag without the marker.
pub proof fn law_marked_entry_differs_strongly(tag: Seq<u8>)
    ensures
        !etag::list_contains(weak_marker() + tag, tag, false),
{
    let list = weak_marker() + tag;
    assert forall|i: int| i > 0 && #[trigger] etag::entry_starts_at(list, i) implies list.len() - i
        < tag.len() by {
        lemma_later_entry_behind_marker(tag, i);
    }
    lemma_marked_front_differs(tag);
    lemma_matches_nowhere(list, tag);
}

/// A tag that is not the first entry, and too long for the later ones, is in none.
proof fn lemma_matches_nowhere(list: Seq<u8>, tag: Seq<u8>)
    requires
        !etag::opens_with(list, tag),
        forall|i: int|
            i > 0 && #[trigger] etag::entry_starts_at(list, i) ==> list.len() - i < tag.len(),
    ensures
        !etag::list_contains(list, tag, false),
{
    assert(list.skip(0) =~= list);
}

/// An entry that is not the first one of a marked tag starts behind a comma, and
/// so behind the marker and at least one byte more.
proof fn lemma_later_entry_behind_marker(tag: Seq<u8>, i: int)
    requires
        etag::entry_starts_at(weak_marker() + tag, i),
    ensures
        i == 0 || i > 2,
{
    let list = weak_marker() + tag;
    if i > 0 {
        let j = choose|j: int|
            0 <= j < i && #[trigger] list[j] == COMMA && etag::all_padding(list.subrange(j, i));
        assert(list[0] == UPPER_W && list[1] == SLASH);
    }
}

/// A marked tag does not begin with the whole of the tag.
proof fn lemma_marked_front_differs(tag: Seq<u8>)
    ensures
        !etag::opens_with(weak_marker() + tag, tag),
{
    let list = weak_marker() + tag;
    let t = tag.len() as int;
    if etag::opens_with(list, tag) {
        assert forall|k: int| 0 <= k < t implies tag[k] == #[trigger] list[k] by {
            assert(list.subrange(0, t)[k] == list[k]);
        }
        if t >= 2 {
            lemma_repeats_marker(tag, t - 2);
        }
        let tail = list.skip(t);
        let n = choose|n: int|
            0 <= n <= tail.len() && etag::all_blank(#[trigger] tail.take(n)) && (n == tail.len()
                || tail[n] == COMMA);
        assert(tail[0] == list[t]);
        if n > 0 {
            assert(tail.take(n)[0] == tail[0]);
        }
    }
}

/// A tag that agrees with itself two bytes further on, from the marker on,
/// repeats the marker.
proof fn lemma_repeats_marker(tag: Seq<u8>, k: int)
    requires
        0 <= k < tag.len(),
        forall|i: int| 0 <= i < tag.len() ==> tag[i] == #[trigger] (weak_marker() + tag)[i],
    ensures
        tag[k] == UPPER_W || tag[k] == SLASH,
    decreases k,
{
    assert(tag[k] == (weak_marker() + tag)[k]);
    if k >= 2 {
        lemma_repeats_marker(tag, k - 2);
    }
}

} // verus!

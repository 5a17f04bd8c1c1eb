//! Entity-tag lists byte by byte: what is found in them, and what is not.
//!
//! Bytes are written out here: `0x20` is the space, `0x09` the tab, `0x2c` the
//! comma, and `0x57 0x2f` the marker `W/`.

use vstd::prelude::*;

use crate::etag;
use crate::etag_laws;

verus! {

/// Blank are the space and the tab and nothing else; padding is the comma besides.
pub proof fn law_blanks_and_padding(b: u8)
    ensures
        etag::is_blank(b) <==> b == 0x20 || b == 0x09,
        etag::is_padding(b) <==> b == 0x20 || b == 0x09 || b == 0x2c,
{
}

/// A stretch is blank, or padding, if and only if each of its bytes is.
pub proof fn law_blank_and_padding_stretches(s: Seq<u8>)
    ensures
        etag::all_blank(s) <==> forall|k: int|
            0 <= k < s.len() ==> #[trigger] s[k] == 0x20 || s[k] == 0x09,
        etag::all_padding(s) <==> forall|k: int|
            0 <= k < s.len() ==> #[trigger] s[k] == 0x20 || s[k] == 0x09 || s[k] == 0x2c,
{
    if forall|k: int| 0 <= k < s.len() ==> #[trigger] s[k] == 0x20 || s[k] == 0x09 {
        assert(forall|k: int| 0 <= k < s.len() ==> etag::is_blank(#[trigger] s[k]));
    }
    if forall|k: int| 0 <= k < s.len() ==> #[trigger] s[k] == 0x20 || s[k] == 0x09 || s[k] == 0x2c {
        assert(forall|k: int| 0 <= k < s.len() ==> etag::is_padding(#[trigger] s[k]));
    }
}

/// Weak comparison drops the two bytes `W/` in front of something, and nothing
/// else; strong comparison drops nothing.
pub proof fn law_only_the_marker_is_dropped(s: Seq<u8>, body: Seq<u8>)
    ensures
        etag::comparable(s, false) == s,
        !(s.len() > 2 && s[0] == 0x57 && s[1] == 0x2f) ==> etag::comparable(s, true) == s,
        body.len() > 0 ==> etag::comparable(seq![0x57u8, 0x2fu8] + body, true) == body,
{
    if body.len() > 0 {
        let marked = seq![0x57u8, 0x2fu8] + body;
        assert(marked.skip(2) =~= body);
    }
}

/// A tag is found where it stands as an entry.
///
/// The entry starts at `start`: at the front, or, as something other than
/// padding, behind the comma at `comma` and padding. The tag starts there too,
/// or, under weak comparison, behind a `W/` that has something behind it. After
/// the tag come blanks up to `end`, and there a comma, or the end of the list.
pub proof fn law_an_entry_is_found(
    list: Seq<u8>,
    tag: Seq<u8>,
    weak: bool,
    comma: int,
    start: int,
    tag_start: int,
    end: int,
)
    requires
        0 <= start < list.len(),
        start == 0 || {
            &&& 0 <= comma < start
            &&& list[comma] == 0x2c
            &&& forall|k: int|
                comma < k < start ==> #[trigger] list[k] == 0x20 || list[k] == 0x09 || list[k]
                    == 0x2c
            &&& list[start] != 0x20 && list[start] != 0x09 && list[start] != 0x2c
        },
        tag_start == (if weak && list.len() - start > 2 && list[start] == 0x57 && list[start + 1]
            == 0x2f {
            start + 2
        } else {
            start
        }),
        tag_start + tag.len() <= end <= list.len(),
        forall|k: int| 0 <= k < tag.len() ==> #[trigger] list[tag_start + k] == tag[k],
        forall|k: int|
            tag_start + tag.len() <= k < end ==> #[trigger] list[k] == 0x20 || list[k] == 0x09,
        end == list.len() || list[end] == 0x2c,
    ensures
        etag::list_contains(list, tag, weak),
{
    let t = tag.len() as int;
    let rest = list.skip(start);
    let compared = etag::comparable(rest, weak);
    assert(rest.len() == list.len() - start);
    assert(rest[0] == list[start]);
    if rest.len() > 2 {
        assert(rest[1] == list[start + 1]);
    }
    assert(compared =~= list.skip(tag_start));
    assert(compared.subrange(0, t) =~= tag) by {
        assert forall|k: int| 0 <= k < t implies compared.subrange(0, t)[k] == tag[k] by {
            assert(list[tag_start + k] == tag[k]);
        }
    }
    let tail = compared.skip(t);
    let n = end - tag_start - t;
    assert(etag::closes_entry(tail)) by {
        assert forall|k: int| 0 <= k < tail.take(n).len() implies etag::is_blank(
            #[trigger] tail.take(n)[k],
        ) by {
            assert(tail.take(n)[k] == list[tag_start + t + k]);
        }
        assert(etag::all_blank(tail.take(n)));
        if n < tail.len() {
            assert(tail[n] == list[end]);
        }
    }
    assert(etag::entry_starts_at(list, start)) by {
        if start > 0 {
            let gap = list.subrange(comma, start);
            assert forall|k: int| 0 <= k < gap.len() implies etag::is_padding(#[trigger] gap[k]) by {
                assert(gap[k] == list[comma + k]);
            }
            assert(list[comma] == 0x2c && etag::all_padding(gap));
        }
    }
}

/// A tag that is found stands in the list as an entry: the places returned, of
/// the comma before the entry, its start, the start of the tag in it, and its
/// end, are such as make it one.
pub proof fn law_what_is_found_is_an_entry(list: Seq<u8>, tag: Seq<u8>, weak: bool) -> (places: (
    int,
    int,
    int,
    int,
))
    requires
        etag::list_contains(list, tag, weak),
    ensures
        0 <= places.1 < list.len(),
        places.1 == 0 || {
            &&& 0 <= places.0 < places.1
            &&& list[places.0] == 0x2c
            &&& forall|k: int|
                places.0 < k < places.1 ==> #[trigger] list[k] == 0x20 || list[k] == 0x09
                    || list[k] == 0x2c
            &&& list[places.1] != 0x20 && list[places.1] != 0x09 && list[places.1] != 0x2c
        },
        places.2 == (if weak && list.len() - places.1 > 2 && list[places.1] == 0x57
            && list[places.1 + 1] == 0x2f {
            places.1 + 2
        } else {
            places.1
        }),
        places.2 + tag.len() <= places.3 <= list.len(),
        forall|k: int| 0 <= k < tag.len() ==> #[trigger] list[places.2 + k] == tag[k],
        forall|k: int|
            places.2 + tag.len() <= k < places.3 ==> #[trigger] list[k] == 0x20 || list[k] == 0x09,
        places.3 == list.len() || list[places.3] == 0x2c,
{
    let t = tag.len() as int;
    let start = choose|i: int|
        etag::entry_starts_at(list, i) && etag::opens_with(
            etag::comparable(#[trigger] list.skip(i), weak),
            tag,
        );
    let rest = list.skip(start);
    let compared = etag::comparable(rest, weak);
    assert(rest.len() == list.len() - start);
    assert(rest[0] == list[start]);
    if rest.len() > 2 {
        assert(rest[1] == list[start + 1]);
    }
    let tag_start = if weak && list.len() - start > 2 && list[start] == 0x57 && list[start + 1]
        == 0x2f {
        start + 2
    } else {
        start
    };
    assert(compared =~= list.skip(tag_start));
    assert forall|k: int| 0 <= k < t implies #[trigger] list[tag_start + k] == tag[k] by {
        assert(compared.subrange(0, t)[k] == list[tag_start + k]);
    }
    let tail = compared.skip(t);
    let n = choose|n: int|
        0 <= n <= tail.len() && etag::all_blank(#[trigger] tail.take(n)) && (n == tail.len()
            || tail[n] == etag::COMMA);
    let end = tag_start + t + n;
    assert forall|k: int| tag_start + t <= k < end implies #[trigger] list[k] == 0x20 || list[k]
        == 0x09 by {
        assert(tail.take(n)[k - tag_start - t] == list[k]);
    }
    if n < tail.len() {
        assert(tail[n] == list[end]);
    }
    let comma = if start == 0 {
        0
    } else {
        choose|j: int|
            0 <= j < start && #[trigger] list[j] == etag::COMMA && etag::all_padding(
                list.subrange(j, start),
            )
    };
    if start > 0 {
        assert forall|k: int| comma < k < start implies #[trigger] list[k] == 0x20 || list[k]
            == 0x09 || list[k] == 0x2c by {
            assert(list.subrange(comma, start)[k - comma] == list[k]);
        }
    }
    (comma, start, tag_start, end)
}

/// A list that is a tag without a marker and nothing else contains that tag, under
/// weak as under strong comparison; and so does a list that is the tag behind the
/// marker, under weak comparison.
pub proof fn law_unmarked_tag_matches_itself(tag: Seq<u8>, weak: bool)
    requires
        tag.len() > 0,
    ensures
        !(tag.len() > 2 && tag[0] == 0x57 && tag[1] == 0x2f) ==> etag::list_contains(
            tag,
            tag,
            weak,
        ),
        etag::list_contains(tag, tag, false),
        etag::list_contains(seq![0x57u8, 0x2fu8] + tag, tag, true),
{
    law_only_the_marker_is_dropped(tag, tag);
    etag_laws::law_tag_matches_itself(tag, weak);
    etag_laws::law_tag_matches_itself(tag, false);
    etag_laws::law_tag_matches_itself(seq![0x57u8, 0x2fu8] + tag, true);
}

/// A list of one entry, without a comma and without a blank at its end, contains
/// exactly one such tag: the entry itself, byte for byte, or, where the entry is
/// marked and the comparison weak, what is behind the marker.
pub proof fn law_one_entry_is_one_tag(entry: Seq<u8>, tag: Seq<u8>, weak: bool)
    requires
        entry.len() > 0,
        forall|k: int| 0 <= k < entry.len() ==> #[trigger] entry[k] != 0x2c,
        entry.last() != 0x20 && entry.last() != 0x09,
        forall|k: int| 0 <= k < tag.len() ==> #[trigger] tag[k] != 0x2c,
        tag.len() > 0 ==> tag.last() != 0x20 && tag.last() != 0x09,
    ensures
        !weak || !(entry.len() > 2 && entry[0] == 0x57 && entry[1] == 0x2f) ==> (
        etag::list_contains(entry, tag, weak) <==> entry == tag),
        weak && entry.len() > 2 && entry[0] == 0x57 && entry[1] == 0x2f ==> (etag::list_contains(
            entry,
            tag,
            weak,
        ) <==> entry == seq![0x57u8, 0x2fu8] + tag),
{
    let entries = seq![entry];
    let gaps = seq![Seq::<u8>::empty()];
    assert(entries.drop_first() =~= Seq::<Seq<u8>>::empty());
    assert(etag_laws::listed(entries.drop_first(), gaps.drop_first()) =~= Seq::<u8>::empty());
    assert(etag_laws::listed(entries, gaps) =~= entry);
    assert(!entry.contains(0x2c) && !tag.contains(0x2c));
    etag_laws::law_list_contains_its_entries(entries, gaps, tag, weak);
    assert(etag_laws::compared_as(entries, gaps, 0, weak) == etag::comparable(entry, weak));
    law_only_the_marker_is_dropped(entry, tag);
    if entry.len() > 2 && entry[0] == 0x57 && entry[1] == 0x2f {
        let body = entry.skip(2);
        let marked = seq![0x57u8, 0x2fu8] + tag;
        assert(entry =~= seq![0x57u8, 0x2fu8] + body);
        law_only_the_marker_is_dropped(entry, body);
        if entry == marked {
            assert(marked.skip(2) =~= tag);
        }
    }
}

} // verus!

//! Entity-tag list matching: pure byte slicing.

use vstd::prelude::*;

verus! {

/// The ASCII space.
pub const SPACE: u8 = 0x20;

/// The ASCII horizontal tab.
pub const TAB: u8 = 0x09;

/// The ASCII comma, which separates list entries.
pub const COMMA: u8 = 0x2c;

/// The ASCII letter `W`, which opens the marker of a weak tag.
pub const UPPER_W: u8 = 0x57;

/// The ASCII slash, which ends the marker of a weak tag.
pub const SLASH: u8 = 0x2f;

/// A space or a horizontal tab.
pub open spec fn is_blank(b: u8) -> bool {
    b == SPACE || b == TAB
}

/// What may stand between two entries of a list: blanks and commas.
pub open spec fn is_padding(b: u8) -> bool {
    is_blank(b) || b == COMMA
}

/// Does `s` carry the marker `W/` in front of something else?
///
/// The marker alone, with nothing behind it, does not count.
pub open spec fn has_weak_marker(s: Seq<u8>) -> bool {
    s.len() > 2 && s[0] == UPPER_W && s[1] == SLASH
}

/// What a comparison looks at: under weak comparison, `s` without its marker.
pub open spec fn comparable(s: Seq<u8>, weak: bool) -> Seq<u8> {
    if weak && has_weak_marker(s) {
        s.skip(2)
    } else {
        s
    }
}

/// An entry starts at the very front of the list, and at every byte that is
/// not padding and has nothing but padding between itself and an earlier comma.
pub open spec fn entry_starts_at(list: Seq<u8>, i: int) -> bool {
    &&& 0 <= i < list.len()
    &&& i == 0 || {
        &&& !is_padding(list[i])
        &&& exists|j: int|
            0 <= j < i && #[trigger] list[j] == COMMA && all_padding(list.subrange(j, i))
    }
}

/// Every byte of `s` is padding.
pub open spec fn all_padding(s: Seq<u8>) -> bool {
    forall|k: int| 0 <= k < s.len() ==> is_padding(#[trigger] s[k])
}

/// Every byte of `s` is blank.
pub open spec fn all_blank(s: Seq<u8>) -> bool {
    forall|k: int| 0 <= k < s.len() ==> is_blank(#[trigger] s[k])
}

/// After some blanks, `tail` is over or goes on with a comma.
pub open spec fn closes_entry(tail: Seq<u8>) -> bool {
    exists|n: int|
        0 <= n <= tail.len() && all_blank(#[trigger] tail.take(n)) && (n == tail.len() || tail[n]
            == COMMA)
}

/// `rest` begins with an entry that is `tag`, the whole of it.
pub open spec fn opens_with(rest: Seq<u8>, tag: Seq<u8>) -> bool {
    tag.is_prefix_of(rest) && closes_entry(rest.skip(tag.len() as int))
}

/// Some entry of the list is `tag`.
pub open spec fn list_contains(list: Seq<u8>, tag: Seq<u8>, weak: bool) -> bool {
    exists|i: int|
        entry_starts_at(list, i) && opens_with(comparable(#[trigger] list.skip(i), weak), tag)
}

/// Behind the first comma and its padding the entries are those of what is left.
proof fn lemma_later_starts(list: Seq<u8>, comma: int, next: int, i: int)
    requires
        0 <= comma < next <= list.len(),
        forall|k: int| 0 <= k < comma ==> list[k] != COMMA,
        list[comma] == COMMA,
        all_padding(list.subrange(comma, next)),
        next < list.len() ==> !is_padding(list[next]),
        0 < i,
    ensures
        entry_starts_at(list, i) <==> i >= next && entry_starts_at(list.skip(next), i - next),
{
    let rest = list.skip(next);
    if entry_starts_at(list, i) {
        let j = choose|j: int|
            0 <= j < i && #[trigger] list[j] == COMMA && all_padding(list.subrange(j, i));
        if i < next {
            assert(list.subrange(comma, next)[i - comma] == list[i]);
        }
        if i > next {
            if j < next {
                assert(list.subrange(j, i)[next - j] == list[next]);
            }
            assert(rest[j - next] == COMMA);
            assert(rest.subrange(j - next, i - next) =~= list.subrange(j, i));
        }
    }
    if i >= next && entry_starts_at(rest, i - next) {
        assert(rest[i - next] == list[i]);
        if i > next {
            let j = choose|j: int|
                0 <= j < i - next && #[trigger] rest[j] == COMMA && all_padding(
                    rest.subrange(j, i - next),
                );
            assert(list[next + j] == COMMA);
            assert(list.subrange(next + j, i) =~= rest.subrange(j, i - next));
        }
    }
}

/// The walk looks at the first entry, then at what follows the first comma and
/// the padding behind it.
pub(crate) proof fn lemma_next_entry(list: Seq<u8>, tag: Seq<u8>, weak: bool, comma: int, next: int)
    requires
        0 <= comma < next <= list.len(),
        forall|k: int| 0 <= k < comma ==> list[k] != COMMA,
        list[comma] == COMMA,
        all_padding(list.subrange(comma, next)),
        next < list.len() ==> !is_padding(list[next]),
    ensures
        list_contains(list, tag, weak) <==> {
            ||| opens_with(comparable(list, weak), tag)
            ||| list_contains(list.skip(next), tag, weak)
        },
{
    let rest = list.skip(next);
    assert(list.skip(0) =~= list);
    if opens_with(comparable(list, weak), tag) {
        assert(entry_starts_at(list, 0));
    }
    if list_contains(rest, tag, weak) {
        let i = choose|i: int|
            entry_starts_at(rest, i) && opens_with(comparable(#[trigger] rest.skip(i), weak), tag);
        assert(rest.skip(i) =~= list.skip(next + i));
        lemma_later_starts(list, comma, next, next + i);
    }
    if list_contains(list, tag, weak) && !opens_with(comparable(list, weak), tag) {
        let i = choose|i: int|
            entry_starts_at(list, i) && opens_with(comparable(#[trigger] list.skip(i), weak), tag);
        lemma_later_starts(list, comma, next, i);
        assert(rest.skip(i - next) =~= list.skip(i));
    }
}

/// A list without a comma has the one entry at its front.
pub(crate) proof fn lemma_only_entry(list: Seq<u8>, tag: Seq<u8>, weak: bool)
    requires
        list.len() > 0,
        forall|k: int| 0 <= k < list.len() ==> list[k] != COMMA,
    ensures
        list_contains(list, tag, weak) <==> opens_with(comparable(list, weak), tag),
{
    assert(list.skip(0) =~= list);
    assert(entry_starts_at(list, 0));
}

/// A tag longer than what is left to compare with is in none of the entries.
proof fn lemma_too_long(rest: Seq<u8>, tag: Seq<u8>, weak: bool)
    requires
        tag.len() > comparable(rest, weak).len(),
    ensures
        !list_contains(rest, tag, weak),
{
    assert(rest.skip(0) =~= rest);
    if list_contains(rest, tag, weak) {
        let i = choose|i: int|
            entry_starts_at(rest, i) && opens_with(comparable(#[trigger] rest.skip(i), weak), tag);
        if i > 0 {
            let j = choose|j: int|
                0 <= j < i && #[trigger] rest[j] == COMMA && all_padding(rest.subrange(j, i));
            assert(tag.len() <= rest.len() - i);
        }
    }
}

/// Does `s` begin with `prefix`?
fn starts_with(s: &[u8], prefix: &[u8]) -> (r: bool)
    ensures
        r == prefix@.is_prefix_of(s@),
{
    if prefix.len() > s.len() {
        return false;
    }
    let mut i: usize = 0;
    while i < prefix.len()
        invariant
            i <= prefix@.len() <= s@.len(),
            forall|k: int| 0 <= k < i ==> prefix@[k] == s@[k],
        decreases prefix@.len() - i,
    {
        if s[i] != prefix[i] {
            assert(prefix@[i as int] != s@.subrange(0, prefix@.len() as int)[i as int]);
            return false;
        }
        i += 1;
    }
    assert(prefix@ =~= s@.subrange(0, prefix@.len() as int));
    true
}

/// Where the first comma of `s` stands.
fn comma_position(s: &[u8]) -> (r: Option<usize>)
    ensures
        match r {
            Some(i) => i < s@.len() && s@[i as int] == COMMA && forall|k: int|
                0 <= k < i ==> s@[k] != COMMA,
            None => forall|k: int| 0 <= k < s@.len() ==> s@[k] != COMMA,
        },
{
    let mut i: usize = 0;
    while i < s.len()
        invariant
            i <= s@.len(),
            forall|k: int| 0 <= k < i ==> s@[k] != COMMA,
        decreases s@.len() - i,
    {
        if s[i] == COMMA {
            return Some(i);
        }
        i += 1;
    }
    None
}

/// `s` from its first byte on that is not blank.
pub fn trim_start_spaces(s: &[u8]) -> (r: &[u8])
    ensures
        r@.len() <= s@.len(),
        r@ == s@.skip(s@.len() - r@.len()),
        all_blank(s@.take(s@.len() - r@.len())),
        r@.len() > 0 ==> !is_blank(r@[0]),
        r@.len() > 0 ==> r@[0] != 0x20 && r@[0] != 0x09,
        forall|k: int|
            0 <= k < s@.len() - r@.len() ==> #[trigger] s@[k] == 0x20 || s@[k] == 0x09,
{
    let mut i: usize = 0;
    while i < s.len() && (s[i] == SPACE || s[i] == TAB)
        invariant
            i <= s@.len(),
            forall|k: int| 0 <= k < i ==> is_blank(#[trigger] s@[k]),
        decreases s@.len() - i,
    {
        i += 1;
    }
    let r = &s[i..s.len()];
    assert(r@ =~= s@.skip(i as int));
    r
}

/// `s` from its first byte on that is neither blank nor a comma.
pub fn trim_start_list_padding(s: &[u8]) -> (r: &[u8])
    ensures
        r@.len() <= s@.len(),
        r@ == s@.skip(s@.len() - r@.len()),
        all_padding(s@.take(s@.len() - r@.len())),
        r@.len() > 0 ==> !is_padding(r@[0]),
        r@.len() > 0 ==> r@[0] != 0x20 && r@[0] != 0x09 && r@[0] != 0x2c,
        forall|k: int|
            0 <= k < s@.len() - r@.len() ==> #[trigger] s@[k] == 0x20 || s@[k] == 0x09 || s@[k]
                == 0x2c,
{
    let mut i: usize = 0;
    while i < s.len() && (s[i] == SPACE || s[i] == TAB || s[i] == COMMA)
        invariant
            i <= s@.len(),
            forall|k: int| 0 <= k < i ==> is_padding(#[trigger] s@[k]),
        decreases s@.len() - i,
    {
        i += 1;
    }
    let r = &s[i..s.len()];
    assert(r@ =~= s@.skip(i as int));
    r
}

/// Walks a comma-separated entity-tag list looking for `etag`.
///
/// With `weak` set, the marker `W/` of a list entry is left out of the
/// comparison; `etag` is taken as it is given.
pub fn etag_list_contains(list: &[u8], etag: &[u8], weak: bool) -> (found: bool)
    ensures
        found == list_contains(list@, etag@, weak),
{
    let mut rest = list;
    while !rest.is_empty()
        invariant
            list_contains(list@, etag@, weak) == list_contains(rest@, etag@, weak),
        decreases rest@.len(),
    {
        let ghost entry = rest@;
        if weak && rest.len() > 2 && rest[0] == UPPER_W && rest[1] == SLASH {
            rest = &rest[2..rest.len()];
            assert(rest@ =~= entry.skip(2));
        }
        assert(rest@ == comparable(entry, weak));
        if etag.len() > rest.len() {
            proof {
                lemma_too_long(entry, etag@, weak);
            }
            return false;
        }
        if starts_with(rest, etag) {
            let tail = &rest[etag.len()..rest.len()];
            assert(tail@ =~= rest@.skip(etag@.len() as int));
            let after = trim_start_spaces(tail);
            let ghost n = tail@.len() - after@.len();
            if after.is_empty() || after[0] == COMMA {
                proof {
                    assert(closes_entry(tail@)) by {
                        assert(all_blank(tail@.take(n)));
                    }
                    assert(entry.skip(0) =~= entry);
                    assert(entry_starts_at(entry, 0));
                }
                return true;
            }
            assert(!closes_entry(tail@)) by {
                lemma_blanks_end(tail@, n);
            }
        }
        // Skip to just past the next comma, then over any padding.
        match comma_position(rest) {
            Some(i) => {
                let from_comma = &rest[i..rest.len()];
                let next = trim_start_list_padding(from_comma);
                proof {
                    let marker = entry.len() - rest@.len();
                    let comma = marker + i;
                    let n = entry.len() - next@.len();
                    assert(from_comma@ =~= entry.skip(comma));
                    assert(next@ =~= entry.skip(n));
                    assert(entry.subrange(comma, n) =~= from_comma@.take(n - comma));
                    assert forall|k: int| 0 <= k < comma implies entry[k] != COMMA by {
                        if k >= marker {
                            assert(entry[k] == rest@[k - marker]);
                        }
                    }
                    assert(n > comma) by {
                        if n == comma {
                            assert(next@[0] == COMMA);
                        }
                    }
                    lemma_next_entry(entry, etag@, weak, comma, n);
                }
                rest = next;
            },
            None => {
                proof {
                    let marker = entry.len() - rest@.len();
                    assert forall|k: int| 0 <= k < entry.len() implies entry[k] != COMMA by {
                        if k >= marker {
                            assert(entry[k] == rest@[k - marker]);
                        }
                    }
                    lemma_only_entry(entry, etag@, weak);
                }
                return false;
            },
        }
    }
    false
}

/// Where a byte that is neither blank nor a comma follows the blanks, the entry
/// is not closed.
proof fn lemma_blanks_end(tail: Seq<u8>, n: int)
    requires
        0 <= n < tail.len(),
        all_blank(tail.take(n)),
        !is_padding(tail[n]),
    ensures
        !closes_entry(tail),
{
    if closes_entry(tail) {
        let m = choose|m: int|
            0 <= m <= tail.len() && all_blank(#[trigger] tail.take(m)) && (m == tail.len()
                || tail[m] == COMMA);
        if m > n {
            assert(tail.take(m)[n] == tail[n]);
        } else if m < n {
            assert(tail.take(n)[m] == tail[m]);
        }
    }
}

} // verus!

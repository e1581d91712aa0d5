//! From the items of a structure to the byte spans of its fields.
//!
//! The items of a layout are given in bits. A field of the reconstructed
//! structure begins at an item whose offset is a whole number of bytes and
//! reaches to the next such item, or to the end of the structure; the items
//! between them, which begin inside a byte, belong to the field before them.

use crate::member::Member;
use crate::member::MemberView;
use crate::member::member_views;
use crate::model::Layout;
use crate::model::LayoutItem;
use crate::text::BITS_PER_BYTE;
use vstd::prelude::*;

verus! {

/// The item begins at a whole number of bytes.
pub open spec fn byte_aligned(l: Layout) -> bool {
    l.bit_offset % 8 == 0
}

/// The byte in which the item begins.
pub open spec fn byte_offset(l: Layout) -> u64 {
    (l.bit_offset / 8) as u64
}

/// The item is a bit-field: its size is known and is not a whole number of
/// bytes.
pub open spec fn bitfield(l: Layout) -> bool {
    match l.bit_size {
        Some(s) => s % 8 != 0,
        None => false,
    }
}

/// The position of the first byte-aligned item at or after `start`.
pub open spec fn next_aligned(layout: Seq<Layout>, start: int) -> Option<int>
    decreases layout.len() - start,
{
    if start < 0 || start >= layout.len() {
        None
    } else if byte_aligned(layout[start]) {
        Some(start)
    } else {
        next_aligned(layout, start + 1)
    }
}

/// `next_aligned` gives the first byte-aligned item from `start` on.
pub proof fn lemma_next_aligned(layout: Seq<Layout>, start: int)
    requires
        0 <= start,
    ensures
        match next_aligned(layout, start) {
            Some(n) => start <= n < layout.len() && byte_aligned(layout[n]) && forall|k: int|
                start <= k < n ==> !byte_aligned(#[trigger] layout[k]),
            None => forall|k: int|
                start <= k < layout.len() ==> !byte_aligned(#[trigger] layout[k]),
        },
    decreases layout.len() - start,
{
    if start < layout.len() && !byte_aligned(layout[start]) {
        lemma_next_aligned(layout, start + 1);
    }
}

/// Finds the first item at or after `start` that begins at a whole number of
/// bytes.
pub fn find_next_idx(tylayout: &[Layout], start: usize) -> (found: Option<usize>)
    ensures
        match found {
            Some(n) => next_aligned(tylayout@, start as int) == Some(n as int) && start <= n
                < tylayout@.len(),
            None => next_aligned(tylayout@, start as int) is None,
        },
{
    let mut idx: usize = start;
    while idx < tylayout.len()
        invariant
            start <= idx,
            next_aligned(tylayout@, start as int) == next_aligned(tylayout@, idx as int),
        decreases tylayout.len() - idx,
    {
        if tylayout[idx].bit_offset % BITS_PER_BYTE == 0 {
            return Some(idx);
        }
        idx = idx + 1;
    }
    None
}

/// Tells whether the item is a bit-field.
pub fn is_bitfield(l: &Layout) -> (b: bool)
    ensures
        b == bitfield(*l),
{
    match l.bit_size {
        Some(s) => s % BITS_PER_BYTE != 0,
        None => false,
    }
}

/// The number of items that are left when the padding items at the end are
/// taken away.
pub open spec fn trimmed_len(layout: Seq<Layout>) -> nat
    decreases layout.len(),
{
    if layout.len() == 0 || !(layout.last().item is Padding) {
        layout.len()
    } else {
        trimmed_len(layout.drop_last())
    }
}

/// The bits that are left of `bits` when the sizes of the padding items at
/// the end are taken away; `None` where one of them has no size or they take
/// more than `bits`.
pub open spec fn trimmed_bits(layout: Seq<Layout>, bits: int) -> Option<int>
    decreases layout.len(),
{
    if layout.len() == 0 || !(layout.last().item is Padding) {
        Some(bits)
    } else {
        match layout.last().bit_size {
            Some(s) => {
                if s <= bits {
                    trimmed_bits(layout.drop_last(), bits - s)
                } else {
                    None
                }
            },
            None => None,
        }
    }
}

/// Taking padding away leaves a prefix and no more bits than before.
pub proof fn lemma_trimmed(layout: Seq<Layout>, bits: int)
    ensures
        trimmed_len(layout) <= layout.len(),
        trimmed_bits(layout, bits) is Some ==> trimmed_bits(layout, bits)->0 <= bits,
        trimmed_bits(layout, bits) is Some && bits >= 0 ==> trimmed_bits(layout, bits)->0 >= 0,
    decreases layout.len(),
{
    if layout.len() > 0 && layout.last().item is Padding {
        match layout.last().bit_size {
            Some(s) => {
                lemma_trimmed(layout.drop_last(), bits - s);
            },
            None => {
                lemma_trimmed(layout.drop_last(), bits);
            },
        }
    }
}

/// Takes the padding items at the end of a layout away. Returns the number
/// of items that are left and what is left of `bit_size`, or `None` where a
/// padding item has no size or the padding is larger than `bit_size`.
pub fn trim_trailing_padding(tylayout: &[Layout], bit_size: u64) -> (r: Option<(usize, u64)>)
    ensures
        match r {
            Some((kept, bits)) => trimmed_bits(tylayout@, bit_size as int) == Some(bits as int)
                && kept == trimmed_len(tylayout@) && kept <= tylayout@.len() && bits <= bit_size,
            None => trimmed_bits(tylayout@, bit_size as int) is None,
        },
{
    let mut n: usize = tylayout.len();
    let mut bits: u64 = bit_size;
    proof {
        assert(tylayout@.take(n as int) =~= tylayout@);
    }
    while n > 0
        invariant
            n <= tylayout.len(),
            bits <= bit_size,
            trimmed_len(tylayout@) == trimmed_len(tylayout@.take(n as int)),
            trimmed_bits(tylayout@, bit_size as int) == trimmed_bits(
                tylayout@.take(n as int),
                bits as int,
            ),
        decreases n,
    {
        proof {
            assert(tylayout@.take(n as int).drop_last() =~= tylayout@.take(n - 1));
        }
        match tylayout[n - 1].item {
            LayoutItem::Padding => {
                match tylayout[n - 1].bit_size {
                    Some(s) => {
                        if s > bits {
                            return None;
                        }
                        bits = bits - s;
                    },
                    None => {
                        return None;
                    },
                }
                n = n - 1;
            },
            _ => {
                return Some((n, bits));
            },
        }
    }
    Some((n, bits))
}

/// A field span: the item at which it begins and the bytes that it covers.
#[derive(Debug, Clone, Copy, PartialEq, Eq, Structural)]
pub struct Span {
    /// The position of the item at which the span begins.
    pub idx: usize,
    /// The byte at which the span begins.
    pub off: u64,
    /// The number of bytes that the span covers.
    pub len: u64,
}

/// The byte at which the span that begins at item `i` ends: where the next
/// byte-aligned item begins, or `end` where there is none.
pub open spec fn span_stop(layout: Seq<Layout>, i: int, end: u64) -> u64 {
    match next_aligned(layout, i + 1) {
        Some(n) => byte_offset(layout[n]),
        None => end,
    }
}

/// The spans of the items from `i` on, in a structure that ends at byte
/// `end`. Each byte-aligned item begins a span. A span without bytes is left
/// out where another byte-aligned item follows, and kept where it is the last.
/// Where a span would end before it begins, there are no spans at all.
pub open spec fn spans_at(layout: Seq<Layout>, i: int, end: u64) -> Option<Seq<Span>>
    decreases layout.len() - i,
{
    if i < 0 || i >= layout.len() {
        Some(Seq::empty())
    } else if !byte_aligned(layout[i]) {
        spans_at(layout, i + 1, end)
    } else {
        let off = byte_offset(layout[i]);
        let stop = span_stop(layout, i, end);
        if stop < off {
            None
        } else {
            match spans_at(layout, i + 1, end) {
                None => None,
                Some(rest) => {
                    if stop == off && next_aligned(layout, i + 1) is Some {
                        Some(rest)
                    } else {
                        Some(
                            seq![Span { idx: i as usize, off, len: (stop - off) as u64 }] + rest,
                        )
                    }
                },
            }
        }
    }
}

/// The spans of a whole layout.
pub open spec fn struct_spans(layout: Seq<Layout>, end: u64) -> Option<Seq<Span>> {
    spans_at(layout, 0, end)
}

/// The items before the next byte-aligned one begin no span.
pub proof fn lemma_spans_skip(layout: Seq<Layout>, i: int, end: u64)
    requires
        0 <= i,
    ensures
        spans_at(layout, i, end) == match next_aligned(layout, i) {
            Some(n) => spans_at(layout, n, end),
            None => Some(Seq::empty()),
        },
    decreases layout.len() - i,
{
    if i < layout.len() && !byte_aligned(layout[i]) {
        lemma_spans_skip(layout, i + 1, end);
    }
}

/// Every span begins at an item of the layout, at the byte of that item, and
/// ends at or before `end`.
pub proof fn lemma_spans_at(layout: Seq<Layout>, i: int, end: u64)
    requires
        0 <= i,
        layout.len() <= usize::MAX,
        spans_at(layout, i, end) is Some,
    ensures
        forall|k: int|
            0 <= k < spans_at(layout, i, end)->0.len() ==> {
                let s = #[trigger] spans_at(layout, i, end)->0[k];
                &&& i <= s.idx < layout.len()
                &&& s.off == byte_offset(layout[s.idx as int])
                &&& s.off + s.len <= end
            },
        next_aligned(layout, i) is Some ==> byte_offset(layout[next_aligned(layout, i)->0])
            <= end,
    decreases layout.len() - i,
{
    if i < layout.len() {
        lemma_spans_at(layout, i + 1, end);
        if byte_aligned(layout[i]) {
            let spans = spans_at(layout, i, end)->0;
            let rest = spans_at(layout, i + 1, end)->0;
            assert forall|k: int| 0 <= k < spans.len() implies {
                let s = #[trigger] spans[k];
                &&& i <= s.idx < layout.len()
                &&& s.off == byte_offset(layout[s.idx as int])
                &&& s.off + s.len <= end
            } by {
                if spans != rest && k > 0 {
                    assert(spans[k] == rest[k - 1]);
                }
            }
        }
    }
}

/// Works out the field spans of a layout in a structure that ends at byte
/// `end`. Returns `None` where a span would end before it begins.
pub fn spans_of(tylayout: &[Layout], end: u64) -> (r: Option<Vec<Span>>)
    ensures
        match struct_spans(tylayout@, end) {
            Some(spans) => r is Some && r->0@ == spans,
            None => r is None,
        },
{
    let ghost layout = tylayout@;
    let mut spans: Vec<Span> = Vec::new();
    let mut next_idx = find_next_idx(tylayout, 0);
    proof {
        lemma_spans_skip(layout, 0, end);
        lemma_next_aligned(layout, 0);
        match next_idx {
            Some(n) => {
                let rest = spans_at(layout, n as int, end);
            },
            None => {},
        }
    }
    loop
        invariant
            layout == tylayout@,
            layout.len() == tylayout.len(),
            match next_idx {
                Some(n) => n < layout.len() && byte_aligned(layout[n as int]) && struct_spans(
                    layout,
                    end,
                ) == (match spans_at(layout, n as int, end) {
                    Some(rest) => Some(spans@ + rest),
                    None => None,
                }),
                None => struct_spans(layout, end) == Some(spans@),
            },
        decreases
                (match next_idx {
                    Some(n) => layout.len() - n,
                    None => 0,
                }),
    {
        let item_idx = match next_idx {
            Some(n) => n,
            None => {
                return Some(spans);
            },
        };
        next_idx = find_next_idx(tylayout, item_idx + 1);
        proof {
            lemma_spans_skip(layout, item_idx + 1, end);
            lemma_next_aligned(layout, item_idx + 1);
        }
        let off = tylayout[item_idx].bit_offset / BITS_PER_BYTE;
        let stop = match next_idx {
            Some(v) => tylayout[v].bit_offset / BITS_PER_BYTE,
            None => end,
        };
        if stop < off {
            return None;
        }
        if stop == off && next_idx.is_some() {
            continue ;
        }
        spans.push(Span { idx: item_idx, off, len: stop - off });
    }
}

/// The fields that are left when the padding fields at the end are taken
/// away.
pub open spec fn without_trailing_padding(members: Seq<MemberView>) -> Seq<MemberView>
    decreases members.len(),
{
    if members.len() == 0 || !members.last().is_padding {
        members
    } else {
        without_trailing_padding(members.drop_last())
    }
}

/// What is left is a prefix of the fields, and does not end in padding.
pub proof fn lemma_without_trailing_padding(members: Seq<MemberView>)
    ensures
        ({
            let kept = without_trailing_padding(members);
            &&& kept.len() <= members.len()
            &&& kept == members.take(kept.len() as int)
            &&& kept.len() > 0 ==> !kept.last().is_padding
        }),
    decreases members.len(),
{
    if members.len() > 0 && members.last().is_padding {
        lemma_without_trailing_padding(members.drop_last());
    }
}

/// Takes the padding fields at the end of `members` away.
pub fn drop_trailing_padding(members: &mut Vec<Member>)
    ensures
        member_views(final(members)@) == without_trailing_padding(member_views(old(members)@)),
{
    let ghost all = member_views(members@);
    loop
        invariant
            without_trailing_padding(member_views(members@)) == without_trailing_padding(all),
            all == member_views(old(members)@),
        ensures
            member_views(members@) == without_trailing_padding(all),
        decreases members.len(),
    {
        let n = members.len();
        if n == 0 {
            break ;
        }
        if !members[n - 1].is_padding {
            break ;
        }
        let ghost before = member_views(members@);
        members.pop();
        proof {
            assert(member_views(members@) =~= before.drop_last());
        }
    }
}

} // verus!

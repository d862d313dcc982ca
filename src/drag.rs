//! Interprets drag-and-drop gestures over the attachment list: which drags
//! belong to this list, hover highlighting that survives nested elements,
//! and the reorder that a valid drop asks for.

use vstd::prelude::*;
use crate::attachment::AttachmentAction;
use crate::search::same_text;

verus! {

/// The data type under which an entry's position travels in a drag; drags
/// of other features carry other types and are refused.
pub const MOVE_PAYLOAD_TYPE: &'static str = "text/id";

/// The kind that a transfer item of dragged data has.
pub const STRING_KIND: &'static str = "string";

/// The kind that a transfer item of a dragged file has.
pub const FILE_KIND: &'static str = "file";

/// Whether `c` is an ASCII decimal digit.
pub open spec fn is_digit(c: char) -> bool {
    '0' <= c && c <= '9'
}

/// A non-empty run of decimal digits.
pub open spec fn is_decimal(cs: Seq<char>) -> bool {
    cs.len() > 0 && forall|i: int| 0 <= i < cs.len() ==> is_digit(#[trigger] cs[i])
}

/// The number that a run of decimal digits writes.
pub open spec fn decimal_value(cs: Seq<char>) -> nat
    decreases cs.len(),
{
    if cs.len() == 0 {
        0
    } else {
        decimal_value(cs.drop_last()) * 10 + ((cs.last() as u32) - ('0' as u32)) as nat
    }
}

/// The decimal digits of `n`, without leading zeros.
pub open spec fn decimal_digits(n: nat) -> Seq<char>
    decreases n,
{
    if n < 10 {
        seq![((n + 48) as u8) as char]
    } else {
        decimal_digits(n / 10).push((((n % 10) + 48) as u8) as char)
    }
}

/// The digits of any number read back as that number: the position that
/// a drag carries is the position it was started from.
pub proof fn lemma_position_round_trip(n: nat)
    ensures
        is_decimal(decimal_digits(n)),
        decimal_value(decimal_digits(n)) == n,
    decreases n,
{
    if n < 10 {
        let c = ((n + 48) as u8) as char;
        assert((c as u32) == n + 48);
        let d = decimal_digits(n);
        assert(d == seq![c]);
        assert(d.drop_last() =~= Seq::<char>::empty());
        assert(decimal_value(d.drop_last()) == 0);
    } else {
        lemma_position_round_trip(n / 10);
        let c = (((n % 10) + 48) as u8) as char;
        assert((c as u32) == (n % 10) + 48);
        let d = decimal_digits(n);
        let prev = decimal_digits(n / 10);
        assert(d == prev.push(c));
        assert(d.drop_last() =~= prev);
        assert forall|i: int| 0 <= i < d.len() implies is_digit(#[trigger] d[i]) by {
            if i < prev.len() {
                assert(d[i] == prev[i]);
            }
        }
        assert(decimal_value(d) == (n / 10) * 10 + n % 10);
    }
}

/// Relies on `ToString` for `usize`, which writes the number in decimal.
#[verifier::external_body]
fn decimal_text(n: usize) -> (r: String)
    ensures
        r@ == decimal_digits(n as nat),
{
    n.to_string()
}

/// The drag data that carries position `p`.
pub fn encode_position(p: usize) -> (r: String)
    ensures
        r@ == decimal_digits(p as nat),
{
    decimal_text(p)
}

proof fn lemma_value_prefix(cs: Seq<char>, k: int)
    requires
        is_decimal(cs),
        0 <= k <= cs.len(),
    ensures
        decimal_value(cs.subrange(0, k)) <= decimal_value(cs),
    decreases cs.len() - k,
{
    if k < cs.len() {
        lemma_value_prefix(cs, k + 1);
        let p = cs.subrange(0, k + 1);
        assert(p.drop_last() =~= cs.subrange(0, k));
    } else {
        assert(cs.subrange(0, k) =~= cs);
    }
}

/// The position that drag data carries: a run of decimal digits whose value
/// fits in `usize`; anything else carries none.
pub fn parse_position(s: &str) -> (r: Option<usize>)
    ensures
        r == (if is_decimal(s@) && decimal_value(s@) <= usize::MAX {
            Some(decimal_value(s@) as usize)
        } else {
            None
        }),
{
    let n = s.unicode_len();
    if n == 0 {
        return None;
    }
    let mut i: usize = 0;
    while i < n
        invariant
            i <= n,
            n == s@.len(),
            forall|k: int| 0 <= k < i ==> is_digit(#[trigger] s@[k]),
        decreases n - i,
    {
        let c = s.get_char(i);
        if !('0' <= c && c <= '9') {
            assert(!is_decimal(s@));
            return None;
        }
        i = i + 1;
    }
    assert(is_decimal(s@));
    let mut acc: usize = 0;
    let mut j: usize = 0;
    while j < n
        invariant
            j <= n,
            n == s@.len(),
            is_decimal(s@),
            acc as nat == decimal_value(s@.subrange(0, j as int)),
        decreases n - j,
    {
        let c = s.get_char(j);
        assert(is_digit(s@[j as int]));
        let d = ((c as u32) - ('0' as u32)) as usize;
        assert(s@.subrange(0, j + 1).drop_last() =~= s@.subrange(0, j as int));
        match acc.checked_mul(10) {
            Some(m) => match m.checked_add(d) {
                Some(v) => {
                    acc = v;
                },
                None => {
                    proof {
                        lemma_value_prefix(s@, j + 1);
                    }
                    return None;
                },
            },
            None => {
                proof {
                    lemma_value_prefix(s@, j + 1);
                }
                return None;
            },
        }
        j = j + 1;
    }
    assert(s@.subrange(0, n as int) =~= s@);
    Some(acc)
}

/// Mathematical model of a [`TransferItem`].
pub ghost struct TransferItemView {
    pub kind: Seq<char>,
    pub item_type: Seq<char>,
}

/// One item of the data carried by a drag: its kind (`"string"` or
/// `"file"`) and its data type.
#[derive(Debug)]
pub struct TransferItem {
    pub kind: String,
    pub item_type: String,
}

impl View for TransferItem {
    type V = TransferItemView;

    open spec fn view(&self) -> TransferItemView {
        TransferItemView { kind: self.kind@, item_type: self.item_type@ }
    }
}

pub open spec fn item_views(v: Seq<TransferItem>) -> Seq<TransferItemView> {
    v.map_values(|t: TransferItem| t@)
}

/// A drag started by this list: exactly one string item of the move type.
pub open spec fn is_move_drag(items: Seq<TransferItemView>) -> bool {
    items.len() == 1 && items[0].kind == STRING_KIND@ && items[0].item_type == MOVE_PAYLOAD_TYPE@
}

/// Number of file items among `items`.
pub open spec fn file_items(items: Seq<TransferItemView>) -> nat
    decreases items.len(),
{
    if items.len() == 0 {
        0
    } else {
        file_items(items.drop_last()) + if items.last().kind == FILE_KIND@ { 1nat } else { 0nat }
    }
}

/// Whether the drag carries data of this list's move type.
pub fn is_move_transfer(items: &Vec<TransferItem>) -> (r: bool)
    ensures
        r == is_move_drag(item_views(items@)),
{
    if items.len() != 1 {
        return false;
    }
    same_text(items[0].kind.as_str(), STRING_KIND) && same_text(items[0].item_type.as_str(), MOVE_PAYLOAD_TYPE)
}

/// The number of files a drag carries, when it carries any.
pub fn file_count(items: &Vec<TransferItem>) -> (r: Option<usize>)
    ensures
        r == (if file_items(item_views(items@)) > 0 {
            Some(file_items(item_views(items@)) as usize)
        } else {
            None
        }),
{
    let mut num: usize = 0;
    let mut i: usize = 0;
    while i < items.len()
        invariant
            i <= items@.len(),
            num as nat == file_items(item_views(items@.subrange(0, i as int))),
            num <= i,
        decreases items@.len() - i,
    {
        assert(item_views(items@.subrange(0, i + 1)).drop_last() =~= item_views(items@.subrange(0, i as int)));
        assert(item_views(items@.subrange(0, i + 1)).last() == items@[i as int]@);
        if same_text(items[i].kind.as_str(), FILE_KIND) {
            num = num + 1;
        }
        i = i + 1;
    }
    assert(items@.subrange(0, items@.len() as int) =~= items@);
    if num > 0 {
        Some(num)
    } else {
        None
    }
}

/// Balance of drag-enter over drag-leave events on one drop target. Nested
/// elements fire their own enter and leave, so a flag would flicker; the
/// count never goes below zero nor wraps.
#[derive(Debug, Clone, Copy, PartialEq, Eq)]
pub struct HoverCounter {
    count: u32,
}

impl View for HoverCounter {
    type V = nat;

    closed spec fn view(&self) -> nat {
        self.count as nat
    }
}

impl HoverCounter {
    /// A counter at zero.
    pub fn new() -> (r: HoverCounter)
        ensures
            r@ == 0,
    {
        HoverCounter { count: 0 }
    }

    /// The current count.
    pub fn count(&self) -> (r: u32)
        ensures
            r as nat == self@,
    {
        self.count
    }

    /// One more enter than leave; saturates at `u32::MAX`.
    pub fn enter(&mut self)
        ensures
            final(self)@ == if old(self)@ < u32::MAX { old(self)@ + 1 } else { old(self)@ },
    {
        if self.count < u32::MAX {
            self.count = self.count + 1;
        }
    }

    /// One more leave; stays at zero.
    pub fn leave(&mut self)
        ensures
            final(self)@ == if old(self)@ > 0 { (old(self)@ - 1) as nat } else { 0 },
    {
        if self.count > 0 {
            self.count = self.count - 1;
        }
    }

    /// Back to zero.
    pub fn reset(&mut self)
        ensures
            final(self)@ == 0,
    {
        self.count = 0;
    }

    /// The target shows as hovered while the count is positive.
    pub fn is_hovered(&self) -> (r: bool)
        ensures
            r == (self@ > 0),
    {
        self.count > 0
    }
}

/// What a drop carries, as far as this list is concerned.
#[derive(Debug, Clone, Copy, PartialEq, Eq)]
pub enum DragPayload {
    /// An entry of this list, dragged from this position.
    AttachmentMove(usize),
    /// Anything else: another feature's drag, or unreadable data.
    Foreign,
}

/// The payload of a drop: an entry move when the drag is of this list's
/// move type and its data is a position; foreign otherwise.
pub fn decode_payload(items: &Vec<TransferItem>, data: &str) -> (r: DragPayload)
    ensures
        r == (if is_move_drag(item_views(items@)) && is_decimal(data@) && decimal_value(data@) <= usize::MAX {
            DragPayload::AttachmentMove(decimal_value(data@) as usize)
        } else {
            DragPayload::Foreign
        }),
{
    if !is_move_transfer(items) {
        return DragPayload::Foreign;
    }
    match parse_position(data) {
        Some(p) => DragPayload::AttachmentMove(p),
        None => DragPayload::Foreign,
    }
}

/// Drag state of one entry of the list, which is both a drag source and a
/// drop target.
#[derive(Debug, Clone, Copy, PartialEq, Eq)]
pub struct EntryDrag {
    pub being_dragged: bool,
    pub hover: HoverCounter,
}

impl EntryDrag {
    /// Idle: not dragged, not hovered.
    pub fn new() -> (r: EntryDrag)
        ensures
            !r.being_dragged,
            r.hover@ == 0,
    {
        EntryDrag { being_dragged: false, hover: HoverCounter::new() }
    }

    /// A drag starts on the entry at `position`: the entry is marked as
    /// dragged, and the returned text is the drag data, to be set under
    /// [`MOVE_PAYLOAD_TYPE`].
    pub fn start(&mut self, position: usize) -> (r: String)
        ensures
            final(self).being_dragged,
            final(self).hover == old(self).hover,
            r@ == decimal_digits(position as nat),
    {
        self.being_dragged = true;
        encode_position(position)
    }

    /// A drag enters the entry; only drags of this list count.
    pub fn enter(&mut self, items: &Vec<TransferItem>)
        ensures
            final(self).being_dragged == old(self).being_dragged,
            final(self).hover@ == if is_move_drag(item_views(items@)) && old(self).hover@ < u32::MAX {
                old(self).hover@ + 1
            } else {
                old(self).hover@
            },
    {
        if is_move_transfer(items) {
            self.hover.enter();
        }
    }

    /// A drag leaves the entry; only drags of this list count.
    pub fn leave(&mut self, items: &Vec<TransferItem>)
        ensures
            final(self).being_dragged == old(self).being_dragged,
            final(self).hover@ == if is_move_drag(item_views(items@)) && old(self).hover@ > 0 {
                (old(self).hover@ - 1) as nat
            } else {
                old(self).hover@
            },
    {
        if is_move_transfer(items) {
            self.hover.leave();
        }
    }

    /// Something is dropped on the entry at `target`. An entry of this list
    /// resets the hover count and yields the move of that entry to
    /// `target`; a foreign payload changes nothing and yields no action.
    pub fn drop_on(&mut self, payload: DragPayload, target: usize) -> (r: Option<AttachmentAction>)
        ensures
            final(self).being_dragged == old(self).being_dragged,
            match payload {
                DragPayload::AttachmentMove(from) => final(self).hover@ == 0 && r == Some(
                    AttachmentAction::Move(from, target),
                ),
                DragPayload::Foreign => *final(self) == *old(self) && r is None,
            },
    {
        match payload {
            DragPayload::AttachmentMove(from) => {
                self.hover.reset();
                Some(AttachmentAction::Move(from, target))
            },
            DragPayload::Foreign => None,
        }
    }

    /// The drag that started on this entry ends, dropped or not.
    pub fn end(&mut self)
        ensures
            !final(self).being_dragged,
            final(self).hover == old(self).hover,
    {
        self.being_dragged = false;
    }

    /// Whether the entry shows as a drop target: hovered, and not itself the
    /// entry being dragged.
    pub fn highlighted(&self) -> (r: bool)
        ensures
            r == (!self.being_dragged && self.hover@ > 0),
    {
        !self.being_dragged && self.hover.is_hovered()
    }
}

/// The zone where files are dropped to be added to the list.
#[derive(Debug, Clone, Copy, PartialEq, Eq)]
pub struct FileDropZone {
    pub hover: HoverCounter,
}

impl FileDropZone {
    pub fn new() -> (r: FileDropZone)
        ensures
            r.hover@ == 0,
    {
        FileDropZone { hover: HoverCounter::new() }
    }

    /// A drag enters the zone; only drags that carry files count.
    pub fn enter(&mut self, items: &Vec<TransferItem>)
        ensures
            final(self).hover@ == if file_items(item_views(items@)) > 0 && old(self).hover@ < u32::MAX {
                old(self).hover@ + 1
            } else {
                old(self).hover@
            },
    {
        if file_count(items).is_some() {
            self.hover.enter();
        }
    }

    /// A drag leaves the zone; only drags that carry files count.
    pub fn leave(&mut self, items: &Vec<TransferItem>)
        ensures
            final(self).hover@ == if file_items(item_views(items@)) > 0 && old(self).hover@ > 0 {
                (old(self).hover@ - 1) as nat
            } else {
                old(self).hover@
            },
    {
        if file_count(items).is_some() {
            self.hover.leave();
        }
    }

    /// Files are dropped on the zone: the highlight ends.
    pub fn drop_files(&mut self)
        ensures
            final(self).hover@ == 0,
    {
        self.hover.reset();
    }

    /// Whether the zone shows as hovered.
    pub fn highlighted(&self) -> (r: bool)
        ensures
            r == (self.hover@ > 0),
    {
        self.hover.is_hovered()
    }
}

} // verus!

//! Column descriptions and ordering state of the sortable tables.

use vstd::prelude::*;

verus! {

/// One column of a table.
#[derive(Clone, PartialEq, Default, Debug)]
pub struct Column {
    pub name: String,
    pub short_name: Option<String>,
    pub data_property: Option<String>,
    pub orderable: bool,
}

impl Column {
    /// The header text: the short name when there is one, else the name.
    pub fn label(&self) -> (r: String)
        ensures
            r@ == match self.short_name {
                Some(s) => s@,
                None => self.name@,
            },
    {
        match &self.short_name {
            Some(s) => s.clone(),
            None => self.name.clone(),
        }
    }
}

/// How a column orders the rows.
#[derive(Copy, Clone, PartialEq, Eq, Debug)]
pub enum TableOrder {
    Unordered,
    Ascending,
    Descending,
}

impl Default for TableOrder {
    fn default() -> (r: Self)
        ensures
            r == TableOrder::Unordered,
    {
        TableOrder::Unordered
    }
}

impl TableOrder {
    /// The next order when the header is clicked: unordered, ascending,
    /// descending, and round again.
    pub fn rotate(&self) -> (r: Self)
        ensures
            r == match *self {
                TableOrder::Unordered => TableOrder::Ascending,
                TableOrder::Ascending => TableOrder::Descending,
                TableOrder::Descending => TableOrder::Unordered,
            },
    {
        match *self {
            TableOrder::Unordered => TableOrder::Ascending,
            TableOrder::Ascending => TableOrder::Descending,
            TableOrder::Descending => TableOrder::Unordered,
        }
    }
}

/// The order that [`TableOrder::rotate`] moves to.
pub open spec fn rotated(o: TableOrder) -> TableOrder {
    match o {
        TableOrder::Unordered => TableOrder::Ascending,
        TableOrder::Ascending => TableOrder::Descending,
        TableOrder::Descending => TableOrder::Unordered,
    }
}

/// The order of each column of a table.
#[derive(Clone, PartialEq, Default, Debug)]
pub struct TableState {
    pub order: Vec<TableOrder>,
}

impl TableState {
    /// Every column of `columns` unordered.
    pub fn new(columns: usize) -> (r: TableState)
        ensures
            r.order@.len() == columns,
            forall|j: int| 0 <= j < columns ==> r.order@[j] == TableOrder::Unordered,
    {
        let mut order: Vec<TableOrder> = Vec::new();
        let mut j: usize = 0;
        while j < columns
            invariant
                j <= columns,
                order@.len() == j,
                forall|k: int| 0 <= k < j ==> order@[k] == TableOrder::Unordered,
            decreases columns - j,
        {
            order.push(TableOrder::Unordered);
            j = j + 1;
        }
        TableState { order }
    }

    /// The header of column `i` is clicked: that column moves to its next
    /// order and every other column becomes unordered. Returns the new order
    /// of column `i`, by which the rows are then sorted; none when there is
    /// no such column.
    pub fn sort_column(&mut self, i: usize) -> (r: Option<TableOrder>)
        ensures
            final(self).order@.len() == old(self).order@.len(),
            forall|j: int| 0 <= j < old(self).order@.len() ==> #[trigger] final(self).order@[j] == if j == i {
                rotated(old(self).order@[j])
            } else {
                TableOrder::Unordered
            },
            r == if i < old(self).order@.len() {
                Some(rotated(old(self).order@[i as int]))
            } else {
                None
            },
    {
        let ghost before = self.order@;
        let mut j: usize = 0;
        while j < self.order.len()
            invariant
                j <= self.order@.len(),
                self.order@.len() == before.len(),
                forall|k: int| 0 <= k < j ==> #[trigger] self.order@[k] == if k == i {
                    rotated(before[k])
                } else {
                    TableOrder::Unordered
                },
                forall|k: int| j <= k < before.len() ==> #[trigger] self.order@[k] == before[k],
            decreases before.len() - j,
        {
            if j == i {
                let next = self.order[j].rotate();
                self.order.set(j, next);
            } else {
                self.order.set(j, TableOrder::Unordered);
            }
            j = j + 1;
        }
        if i < self.order.len() {
            Some(self.order[i])
        } else {
            None
        }
    }
}

} // verus!

//! Tables: a header row over a rule over a scrolling list of pressable
//! rows, each row's cells as wide as their column's header says.

use crate::bounds::Cling;
use crate::combine::{Before, Pack, Padding};
use crate::focus::FocusKeys;
use crate::layout::Yard;
use crate::link::{random_id, SyncLink};
use crate::palette::{FillGrade, StrokeColor};
use crate::scroll::{list, ListYard, ScrollModel};
use crate::widgets::PressYard;
use crate::yards::{
    glyph_yard, grade, label_yard, printable, BeforeYard, ColumnsYard, GlyphYard, GradeYard, LabelYard, PackYard,
    PadYard, Split,
};
use vstd::prelude::*;

verus! {

/// The columns of margin each side of a cell's text.
pub const CELL_PADDING: i32 = 2;

/// One cell: a label with margins at its sides.
pub type CellYard = PadYard<LabelYard>;

/// The yard of a whole table.
pub type TableYard = BeforeYard<
    PackYard<ColumnsYard<CellYard>, PackYard<GlyphYard, ListYard<PressYard<ColumnsYard<CellYard>>>>>,
    GradeYard,
>;

/// A table: its columns' widths and headers, its rows of cell texts, the
/// scrolling of its rows, and the links on which it reports scrolling and
/// the index of a pressed row.
#[derive(Debug)]
pub struct Table {
    pub list: ScrollModel,
    pub list_link: SyncLink,
    pub headers: Vec<(usize, String)>,
    pub rows: Vec<Vec<String>>,
    pub link: SyncLink,
}

/// `c` shows `text` in the body colour, clinging where `cling` says, with
/// the cell margins at its sides.
pub open spec fn cell_ok(c: CellYard, text: Seq<char>, cling: Cling) -> bool {
    &&& c.left_cols == CELL_PADDING
    &&& c.right_cols == CELL_PADDING
    &&& c.top_rows == 0
    &&& c.bottom_rows == 0
    &&& c.yard.string@ == printable(text)
    &&& c.yard.color == StrokeColor::Body
    &&& c.yard.cling == cling
}

/// `row` shows `texts` in cells as wide as the headers' columns.
pub open spec fn row_ok(row: ColumnsYard<CellYard>, texts: Seq<String>, headers: Seq<(usize, String)>, cling: Cling) -> bool {
    &&& row.items@.len() == texts.len()
    &&& forall|i: int|
        0 <= i < texts.len() ==> (#[trigger] row.items@[i]).0 == headers[i].0 as i32 && cell_ok(
            row.items@[i].1,
            texts[i]@,
            cling,
        )
}

impl Table {
    /// The table can be drawn: its list has one item per row, and no row
    /// has more cells than there are headers.
    pub open spec fn wf(&self) -> bool {
        &&& self.list.item_heights@.len() == self.rows@.len()
        &&& forall|r: int| 0 <= r < self.rows@.len() ==> (#[trigger] self.rows@[r])@.len() <= self.headers@.len()
    }

    /// `t` is the yard of this table: the headers, clinging to the bottom
    /// left of the top two rows; a rule of `_` below them; and the rows,
    /// each pressable to send its index on the table's link, in the list;
    /// all over a selected shade.
    pub open spec fn yard_ok(&self, t: TableYard) -> bool {
        let header_row = t.near_yard.first_yard;
        let rule = t.near_yard.second_yard.first_yard;
        let rows = t.near_yard.second_yard.second_yard;
        &&& t.far_yard.grade == FillGrade::Select
        &&& t.near_yard.divide == Split::Top(2)
        &&& t.near_yard.second_yard.divide == Split::Top(1)
        &&& rule.glyph == '_'
        &&& rule.color == StrokeColor::Comment
        &&& header_row.items@.len() == self.headers@.len()
        &&& forall|k: int|
            0 <= k < self.headers@.len() ==> (#[trigger] header_row.items@[k]).0 == self.headers@[k].0 as i32
                && cell_ok(header_row.items@[k].1, self.headers@[k].1@, Cling::LeftBottom)
        &&& rows.spec_scroll() == self.list
        &&& rows.spec_scroll_link() == self.list_link
        &&& rows.spec_yards().len() == self.rows@.len()
        &&& forall|r: int|
            0 <= r < self.rows@.len() ==> {
                let p = #[trigger] rows.spec_yards()[r];
                &&& p.press_keys == (FocusKeys::Select { link: self.link, index: r as usize })
                &&& row_ok(p.yard, self.rows@[r]@, self.headers@, Cling::Left)
            }
    }

    /// The yard of the table.
    pub fn into_yard(self) -> (r: TableYard)
        requires
            self.wf(),
        ensures
            self.yard_ok(r),
    {
        let ghost this = self;
        let Table { list: scroll, list_link, headers, rows, link } = self;
        let mut header_cells: Vec<(i32, CellYard)> = Vec::new();
        let mut k: usize = 0;
        while k < headers.len()
            invariant
                k <= headers@.len(),
                header_cells@.len() == k,
                forall|j: int|
                    0 <= j < k ==> (#[trigger] header_cells@[j]).0 == headers@[j].0 as i32 && cell_ok(
                        header_cells@[j].1,
                        headers@[j].1@,
                        Cling::LeftBottom,
                    ),
            decreases headers@.len() - k,
        {
            let width = headers[k].0 as i32;
            let cell = label_yard(headers[k].1.as_str(), StrokeColor::Body, Cling::LeftBottom).pad_cols(CELL_PADDING);
            header_cells.push((width, cell));
            k = k + 1;
        }
        let header_row = ColumnsYard { id: random_id(), items: header_cells };
        let mut item_yards: Vec<PressYard<ColumnsYard<CellYard>>> = Vec::new();
        let mut r: usize = 0;
        while r < rows.len()
            invariant
                this.wf(),
                rows@ == this.rows@,
                headers@ == this.headers@,
                link == this.link,
                r <= rows@.len(),
                item_yards@.len() == r,
                forall|j: int|
                    0 <= j < r ==> {
                        let p = #[trigger] item_yards@[j];
                        &&& p.press_keys == (FocusKeys::Select { link, index: j as usize })
                        &&& row_ok(p.yard, rows@[j]@, headers@, Cling::Left)
                    },
            decreases rows@.len() - r,
        {
            let texts = &rows[r];
            let mut cells: Vec<(i32, CellYard)> = Vec::new();
            let mut i: usize = 0;
            while i < texts.len()
                invariant
                    texts@.len() <= headers@.len(),
                    i <= texts@.len(),
                    cells@.len() == i,
                    forall|j: int|
                        0 <= j < i ==> (#[trigger] cells@[j]).0 == headers@[j].0 as i32 && cell_ok(
                            cells@[j].1,
                            texts@[j]@,
                            Cling::Left,
                        ),
                decreases texts@.len() - i,
            {
                let width = headers[i].0 as i32;
                let cell = label_yard(texts[i].as_str(), StrokeColor::Body, Cling::Left).pad_cols(CELL_PADDING);
                cells.push((width, cell));
                i = i + 1;
            }
            let row = ColumnsYard { id: random_id(), items: cells };
            item_yards.push(PressYard { id: random_id(), yard: row, press_keys: FocusKeys::Select { link, index: r } });
            r = r + 1;
        }
        let rows_yard = list(item_yards, scroll, list_link);
        let rule = glyph_yard('_', StrokeColor::Comment);
        rows_yard.pack_top(1, rule).pack_top(2, header_row).before(grade(FillGrade::Select))
    }
}

/// The yard of a table of `rows` under `headers`.
pub fn table(
    list: ScrollModel,
    list_link: SyncLink,
    headers: Vec<(usize, String)>,
    rows: Vec<Vec<String>>,
    link: SyncLink,
) -> (r: TableYard)
    requires
        (Table { list, list_link, headers, rows, link }).wf(),
    ensures
        (Table { list, list_link, headers, rows, link }).yard_ok(r),
{
    Table { list, list_link, headers, rows, link }.into_yard()
}

} // verus!

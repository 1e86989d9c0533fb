//! The output stream as a whole: which records a workbook gives rise to,
//! in which order, and the executable driver that renders them.
//!
//! The model is `record_stream`: one meta record, then, for each sheet in
//! workbook order, that sheet's record followed by one row record per row.
//! `dump_lines` is proved to return exactly the encodings of that stream,
//! line for line.

use vstd::prelude::*;

use crate::records::{
    cells_view, meta_json, row_json, sheet_json, Cell, Json, Meta, Row, Sheet,
};

verus! {

/// The version number written in the meta record.
pub const OUTPUT_VERSION: u32 = 0;

/// One sheet of a workbook as the library receives it: the sheet's name
/// and its rows of cells, in order.
pub struct SheetData {
    pub name: String,
    pub rows: Vec<Vec<Cell>>,
}

/// The mathematical model of a sheet: its name and, per row, the views of
/// its cells.
pub struct SheetModel {
    pub name: Seq<char>,
    pub rows: Seq<Seq<Option<Seq<char>>>>,
}

impl View for SheetData {
    type V = SheetModel;

    open spec fn view(&self) -> SheetModel {
        SheetModel {
            name: self.name@,
            rows: self.rows@.map_values(|r: Vec<Cell>| cells_view(r@)),
        }
    }
}

/// The model of a whole workbook: its sheets in file order.
pub open spec fn wb_view(w: Seq<SheetData>) -> Seq<SheetModel> {
    w.map_values(|sd: SheetData| sd@)
}

/// A workbook the stream is defined for: sheet and row counts fit the
/// index fields of the records.
pub open spec fn wf_workbook(w: Seq<SheetModel>) -> bool {
    &&& w.len() <= u32::MAX
    &&& forall|s: int| 0 <= s < w.len() ==> #[trigger] w[s].rows.len() <= u32::MAX
}

/// One record of the output stream.
pub enum Rec {
    MetaRec { version: u32 },
    SheetRec { idx: u32, name: Seq<char> },
    RowRec { sheet: u32, idx: u32, data: Seq<Option<Seq<char>>> },
}

/// The exact text of one record's output line.
pub open spec fn encode_rec(r: Rec) -> Seq<char> {
    match r {
        Rec::MetaRec { version } => meta_json(version),
        Rec::SheetRec { idx, name } => sheet_json(idx, name),
        Rec::RowRec { sheet, idx, data } => row_json(idx, sheet, data),
    }
}

/// The records of one sheet: the sheet record, then one row record per
/// row, with row indices counted from zero within the sheet.
pub open spec fn block(s: u32, sd: SheetModel) -> Seq<Rec> {
    seq![Rec::SheetRec { idx: s, name: sd.name }] + Seq::new(
        sd.rows.len(),
        |r: int| Rec::RowRec { sheet: s, idx: r as u32, data: sd.rows[r] },
    )
}

/// The records of the sheets from position `i` on, in workbook order.
pub open spec fn blocks(w: Seq<SheetModel>, i: int) -> Seq<Rec>
    decreases w.len() - i,
{
    if i < 0 || i >= w.len() {
        Seq::empty()
    } else {
        block(i as u32, w[i]) + blocks(w, i + 1)
    }
}

/// The whole stream: the meta record first, then every sheet's block.
pub open spec fn record_stream(w: Seq<SheetModel>) -> Seq<Rec> {
    seq![Rec::MetaRec { version: OUTPUT_VERSION }] + blocks(w, 0)
}

/// The lines for one sheet: the sheet record's line, then one line per
/// row, exactly the encodings of `block(idx, sd@)`.
pub fn sheet_lines(idx: u32, sd: &SheetData) -> (lines: Vec<String>)
    requires
        sd.rows@.len() <= u32::MAX,
    ensures
        lines@.len() == block(idx, sd@).len(),
        forall|k: int|
            0 <= k < lines@.len() ==> #[trigger] lines@[k]@ == encode_rec(block(idx, sd@)[k]),
{
    let mut lines: Vec<String> = Vec::new();
    let sheet = Sheet::new(idx, sd.name.as_str());
    lines.push(sheet.to_json());
    let n: usize = sd.rows.len();
    let mut ri: usize = 0;
    while ri < n
        invariant
            n == sd.rows@.len(),
            n <= u32::MAX,
            ri <= n,
            sheet.idx == idx,
            sheet.name@ == sd@.name,
            lines@.len() == 1 + ri,
            forall|k: int|
                0 <= k < lines@.len() ==> #[trigger] lines@[k]@ == encode_rec(block(idx, sd@)[k]),
        decreases n - ri,
    {
        let row = Row::new(ri as u32, &sheet, sd.rows[ri].as_slice());
        lines.push(row.to_json());
        proof {
            assert(block(idx, sd@)[1 + ri] == (Rec::RowRec {
                sheet: idx,
                idx: ri as u32,
                data: sd@.rows[ri as int],
            }));
            assert(cells_view(sd.rows@[ri as int]@) == sd@.rows[ri as int]);
        }
        ri = ri + 1;
    }
    lines
}

/// The whole dump: every line of the output stream for the workbook, in
/// order — exactly the encodings of `record_stream(wb_view(w@))`.
pub fn dump_lines(w: &Vec<SheetData>) -> (lines: Vec<String>)
    requires
        wf_workbook(wb_view(w@)),
    ensures
        lines@.len() == record_stream(wb_view(w@)).len(),
        forall|k: int|
            0 <= k < lines@.len() ==> #[trigger] lines@[k]@ == encode_rec(
                record_stream(wb_view(w@))[k],
            ),
{
    let ghost wv = wb_view(w@);
    let mut lines: Vec<String> = Vec::new();
    let meta = Meta { version: OUTPUT_VERSION };
    lines.push(meta.to_json());
    let ghost mut done: Seq<Rec> = Seq::empty();
    let n: usize = w.len();
    let mut si: usize = 0;
    while si < n
        invariant
            wv == wb_view(w@),
            wf_workbook(wv),
            n == w@.len(),
            si <= n,
            done + blocks(wv, si as int) =~= blocks(wv, 0),
            lines@.len() == 1 + done.len(),
            forall|k: int|
                0 <= k < lines@.len() ==> #[trigger] lines@[k]@ == encode_rec(
                    (seq![Rec::MetaRec { version: OUTPUT_VERSION }] + done)[k],
                ),
        decreases n - si,
    {
        proof {
            assert(wv[si as int] == w@[si as int]@);
            assert(wv[si as int].rows.len() <= u32::MAX);
        }
        let mut sl = sheet_lines(si as u32, &w[si]);
        let ghost b = block(si as u32, w@[si as int]@);
        let ghost slv = sl@;
        lines.append(&mut sl);
        proof {
            let donep = done + b;
            assert(blocks(wv, si as int) == block(si as u32, wv[si as int]) + blocks(
                wv,
                si as int + 1,
            ));
            assert(donep + blocks(wv, si as int + 1) =~= done + blocks(wv, si as int));
            assert forall|k: int| 0 <= k < lines@.len() implies #[trigger] lines@[k]@
                == encode_rec((seq![Rec::MetaRec { version: OUTPUT_VERSION }] + donep)[k]) by {
                if k >= 1 + done.len() {
                    assert(lines@[k] == slv[k - 1 - done.len()]);
                    assert((seq![Rec::MetaRec { version: OUTPUT_VERSION }] + donep)[k] == b[k - 1
                        - done.len()]);
                }
            }
        }
        proof {
            done = done + b;
        }
        si = si + 1;
    }
    proof {
        assert(blocks(wv, n as int) =~= Seq::<Rec>::empty());
        assert(done =~= blocks(wv, 0));
        assert(seq![Rec::MetaRec { version: OUTPUT_VERSION }] + done =~= record_stream(wv));
    }
    lines
}

} // verus!

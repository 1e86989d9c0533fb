//! The three output record kinds — meta, sheet and row — and their JSON
//! encodings. Each record type's `to_json` is proved equal to a spec
//! function that gives the record's exact text.

use vstd::prelude::*;
use vstd::string::*;

use crate::json::{dec_str, json_string_of, push_dec, push_json_string};

verus! {

/// One cell of a row: either empty, or a value carried as its display
/// text. The view of a cell is `None` for an empty cell and `Some` of the
/// text otherwise.
pub enum Cell {
    Empty,
    Value(String),
}

impl View for Cell {
    type V = Option<Seq<char>>;

    open spec fn view(&self) -> Option<Seq<char>> {
        match self {
            Cell::Empty => None,
            Cell::Value(s) => Some(s@),
        }
    }
}

/// The views of a row's cells, in order.
pub open spec fn cells_view(s: Seq<Cell>) -> Seq<Option<Seq<char>>> {
    s.map_values(|c: Cell| c@)
}

/// The JSON encoding of one cell: `null` for an empty cell, a JSON string
/// of the display text otherwise.
pub open spec fn cell_json(c: Option<Seq<char>>) -> Seq<char> {
    match c {
        None => "null"@,
        Some(s) => json_string_of(s),
    }
}

/// The JSON encoding of a row's cells, comma-separated.
pub open spec fn cells_json(d: Seq<Option<Seq<char>>>) -> Seq<char>
    decreases d.len(),
{
    if d.len() == 0 {
        Seq::empty()
    } else if d.len() == 1 {
        cell_json(d[0])
    } else {
        cells_json(d.drop_last()) + seq![','] + cell_json(d.last())
    }
}

/// The exact text of a meta record.
pub open spec fn meta_json(version: u32) -> Seq<char> {
    "{\"type\":\"meta\",\"version\":"@ + dec_str(version as int) + "}"@
}

/// The exact text of a sheet record.
pub open spec fn sheet_json(idx: u32, name: Seq<char>) -> Seq<char> {
    "{\"type\":\"sheet\",\"idx\":"@ + dec_str(idx as int) + ",\"name\":"@ + json_string_of(name)
        + "}"@
}

/// The exact text of a row record.
pub open spec fn row_json(idx: u32, sheet: u32, d: Seq<Option<Seq<char>>>) -> Seq<char> {
    "{\"type\":\"row\",\"idx\":"@ + dec_str(idx as int) + ",\"sheet\":"@ + dec_str(sheet as int)
        + ",\"data\":["@ + cells_json(d) + "]}"@
}

/// A record that can render itself as one line of JSON text.
pub trait Json {
    /// The exact text that `to_json` returns.
    spec fn json_view(&self) -> Seq<char>;

    fn to_json(&self) -> (r: String)
        ensures
            r@ == self.json_view(),
    ;
}

/// The metadata header of the output stream.
pub struct Meta {
    pub version: u32,
}

impl Json for Meta {
    open spec fn json_view(&self) -> Seq<char> {
        meta_json(self.version)
    }

    fn to_json(&self) -> (r: String) {
        let mut out = String::new();
        out.append("{\"type\":\"meta\",\"version\":");
        push_dec(&mut out, self.version);
        out.append("}");
        proof {
            assert(out@ =~= meta_json(self.version));
        }
        out
    }
}

/// A worksheet's identity in the output: its position and its name.
pub struct Sheet {
    pub idx: u32,
    pub name: String,
}

impl Sheet {
    pub fn new(idx: u32, name: &str) -> (s: Sheet)
        ensures
            s.idx == idx,
            s.name@ == name@,
    {
        Sheet { idx, name: name.to_owned() }
    }
}

impl Json for Sheet {
    open spec fn json_view(&self) -> Seq<char> {
        sheet_json(self.idx, self.name@)
    }

    fn to_json(&self) -> (r: String) {
        let mut out = String::new();
        out.append("{\"type\":\"sheet\",\"idx\":");
        push_dec(&mut out, self.idx);
        out.append(",\"name\":");
        push_json_string(&mut out, self.name.as_str());
        out.append("}");
        proof {
            assert(out@ =~= sheet_json(self.idx, self.name@));
        }
        out
    }
}

/// One row of one sheet: the row's position, the sheet it belongs to, and
/// the row's cells in column order.
pub struct Row<'a> {
    pub idx: u32,
    pub sheet: &'a Sheet,
    pub data: &'a [Cell],
}

impl<'a> Row<'a> {
    pub fn new(idx: u32, sheet: &'a Sheet, data: &'a [Cell]) -> (r: Row<'a>)
        ensures
            r.idx == idx,
            r.sheet == sheet,
            r.data == data,
    {
        Row { idx, sheet, data }
    }
}

fn push_cells(out: &mut String, data: &[Cell])
    ensures
        final(out)@ == old(out)@ + cells_json(cells_view(data@)),
{
    let ghost d = cells_view(data@);
    let n: usize = data.len();
    let mut i: usize = 0;
    while i < n
        invariant
            d == cells_view(data@),
            n == data@.len(),
            i <= n,
            out@ == old(out)@ + cells_json(d.take(i as int)),
        decreases n - i,
    {
        if i > 0 {
            crate::json::push_char(out, ',');
        }
        match &data[i] {
            Cell::Empty => {
                out.append("null");
            },
            Cell::Value(s) => {
                push_json_string(out, s.as_str());
            },
        }
        proof {
            assert(d.take(i + 1).drop_last() =~= d.take(i as int));
            assert(d.take(i + 1).last() == d[i as int]);
            if i == 0 {
                assert(cells_json(d.take(1)) == cell_json(d[0]));
            }
            assert(out@ =~= old(out)@ + cells_json(d.take(i + 1)));
        }
        i = i + 1;
    }
    proof {
        assert(d.take(n as int) =~= d);
    }
}

impl<'a> Json for Row<'a> {
    open spec fn json_view(&self) -> Seq<char> {
        row_json(self.idx, self.sheet.idx, cells_view(self.data@))
    }

    fn to_json(&self) -> (r: String) {
        let mut out = String::new();
        out.append("{\"type\":\"row\",\"idx\":");
        push_dec(&mut out, self.idx);
        out.append(",\"sheet\":");
        push_dec(&mut out, self.sheet.idx);
        out.append(",\"data\":[");
        push_cells(&mut out, self.data);
        out.append("]}");
        proof {
            assert(out@ =~= row_json(self.idx, self.sheet.idx, cells_view(self.data@)));
        }
        out
    }
}

} // verus!

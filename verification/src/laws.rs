//! Properties of the record stream, stated and proved once and for all:
//! the meta record is unique and first; sheet records appear in strictly
//! increasing index order from zero, one per sheet, carrying the sheet's
//! exact name; each sheet's row records sit directly after its sheet
//! record with row indices contiguous from zero, restarting per sheet;
//! and the stream is a function of the workbook alone.

use vstd::prelude::*;

use crate::json::json_string_of;
use crate::records::cell_json;
use crate::stream::{
    block, blocks, encode_rec, record_stream, wf_workbook, Rec, SheetModel, OUTPUT_VERSION,
};

verus! {

/// The number of records the sheets at positions `i .. s` contribute.
pub open spec fn span(w: Seq<SheetModel>, i: int, s: int) -> int
    decreases s - i,
{
    if s <= i {
        0
    } else {
        1 + w[i].rows.len() + span(w, i + 1, s)
    }
}

/// The position of sheet `s`'s sheet record in the stream.
pub open spec fn sheet_pos(w: Seq<SheetModel>, s: int) -> int {
    1 + span(w, 0, s)
}

proof fn lemma_blocks_no_meta(w: Seq<SheetModel>, i: int)
    ensures
        forall|k: int|
            0 <= k < blocks(w, i).len() ==> !(#[trigger] blocks(w, i)[k] is MetaRec),
    decreases w.len() - i,
{
    if 0 <= i < w.len() {
        lemma_blocks_no_meta(w, i + 1);
        assert forall|k: int| 0 <= k < blocks(w, i).len() implies !(#[trigger] blocks(w, i)[k]
            is MetaRec) by {
            let b = block(i as u32, w[i]);
            if k >= b.len() {
                assert(blocks(w, i)[k] == blocks(w, i + 1)[k - b.len()]);
            }
        }
    }
}

proof fn lemma_blocks_len(w: Seq<SheetModel>, i: int)
    requires
        0 <= i <= w.len(),
    ensures
        blocks(w, i).len() == span(w, i, w.len() as int),
    decreases w.len() - i,
{
    if i < w.len() {
        lemma_blocks_len(w, i + 1);
    }
}

proof fn lemma_span_step(w: Seq<SheetModel>, i: int, s: int)
    requires
        0 <= i <= s < w.len(),
    ensures
        span(w, i, s + 1) == span(w, i, s) + 1 + w[s].rows.len(),
    decreases s - i,
{
    if i < s {
        lemma_span_step(w, i + 1, s);
        assert(span(w, i, s + 1) == 1 + w[i].rows.len() + span(w, i + 1, s + 1));
        assert(span(w, i, s) == 1 + w[i].rows.len() + span(w, i + 1, s));
    } else {
        assert(span(w, i, s) == 0);
        assert(span(w, i + 1, s + 1) == 0);
        assert(span(w, i, s + 1) == 1 + w[i].rows.len() + span(w, i + 1, s + 1));
    }
}

proof fn lemma_span_nonneg(w: Seq<SheetModel>, i: int, s: int)
    ensures
        span(w, i, s) >= 0,
    decreases s - i,
{
    if i < s {
        lemma_span_nonneg(w, i + 1, s);
    }
}

proof fn lemma_blocks_at(w: Seq<SheetModel>, i: int, s: int)
    requires
        0 <= i <= s < w.len(),
    ensures
        span(w, i, s) + 1 + w[s].rows.len() <= blocks(w, i).len(),
        blocks(w, i)[span(w, i, s)] == (Rec::SheetRec { idx: s as u32, name: w[s].name }),
        forall|r: int|
            0 <= r < w[s].rows.len() ==> blocks(w, i)[span(w, i, s) + 1 + r] == (Rec::RowRec {
                sheet: s as u32,
                idx: r as u32,
                data: w[s].rows[r],
            }),
    decreases s - i,
{
    lemma_blocks_len(w, i);
    lemma_blocks_len(w, i + 1);
    lemma_span_step(w, i, s);
    if s > i {
        lemma_span_step(w, i + 1, s);
    }
    let b = block(i as u32, w[i]);
    if s == i {
        assert(span(w, i, s) == 0);
        assert(blocks(w, i)[0] == b[0]);
        assert forall|r: int| 0 <= r < w[s].rows.len() implies blocks(w, i)[span(w, i, s) + 1 + r]
            == (Rec::RowRec { sheet: s as u32, idx: r as u32, data: w[s].rows[r] }) by {
            assert(blocks(w, i)[1 + r] == b[1 + r]);
        }
    } else {
        lemma_blocks_at(w, i + 1, s);
        lemma_span_nonneg(w, i + 1, s);
        assert(span(w, i, s) == 1 + w[i].rows.len() + span(w, i + 1, s));
        assert(blocks(w, i) == b + blocks(w, i + 1));
        assert((b + blocks(w, i + 1))[span(w, i, s)] == blocks(w, i + 1)[span(w, i + 1, s)]);
        assert forall|r: int| 0 <= r < w[s].rows.len() implies blocks(w, i)[span(w, i, s) + 1 + r]
            == (Rec::RowRec { sheet: s as u32, idx: r as u32, data: w[s].rows[r] }) by {
            assert((b + blocks(w, i + 1))[span(w, i, s) + 1 + r] == blocks(w, i + 1)[span(
                w,
                i + 1,
                s,
            ) + 1 + r]);
        }
    }
}

/// Exactly one meta record is emitted: it is the first record of the
/// stream, it carries the current output version, and no later record is
/// a meta record.
pub proof fn lemma_meta_record_first(w: Seq<SheetModel>)
    ensures
        record_stream(w).len() >= 1,
        record_stream(w)[0] == (Rec::MetaRec { version: OUTPUT_VERSION }),
        forall|k: int|
            0 < k < record_stream(w).len() ==> !(#[trigger] record_stream(w)[k] is MetaRec),
{
    lemma_blocks_no_meta(w, 0);
    assert forall|k: int| 0 < k < record_stream(w).len() implies !(#[trigger] record_stream(w)[k]
        is MetaRec) by {
        assert(record_stream(w)[k] == blocks(w, 0)[k - 1]);
    }
}

/// The shape of the whole stream. Sheet `s`'s sheet record stands at
/// `sheet_pos(w, s)`; these positions start right after the meta record
/// and strictly increase with `s`, so sheet records come one per sheet,
/// in workbook order, with indices counted from zero and the sheet's
/// exact name. The records strictly between sheet `s`'s sheet record and
/// the next sheet's are exactly sheet `s`'s row records, with row indices
/// contiguous from zero — restarting at zero for every sheet — and each
/// row record carries that row's cells unchanged. The final position
/// equation says the blocks tile the stream completely.
pub proof fn lemma_stream_structure(w: Seq<SheetModel>)
    requires
        wf_workbook(w),
    ensures
        sheet_pos(w, 0) == 1,
        record_stream(w).len() == sheet_pos(w, w.len() as int),
        forall|s: int|
            0 <= s < w.len() ==> #[trigger] sheet_pos(w, s + 1) == sheet_pos(w, s) + 1
                + w[s].rows.len(),
        forall|s: int|
            0 <= s < w.len() ==> #[trigger] record_stream(w)[sheet_pos(w, s)] == (Rec::SheetRec {
                idx: s as u32,
                name: w[s].name,
            }),
        forall|s: int, r: int|
            0 <= s < w.len() && 0 <= r < w[s].rows.len() ==> #[trigger] record_stream(w)[sheet_pos(
                w,
                s,
            ) + 1 + r] == (Rec::RowRec { sheet: s as u32, idx: r as u32, data: w[s].rows[r] }),
{
    lemma_blocks_len(w, 0);
    assert forall|s: int| 0 <= s < w.len() implies #[trigger] sheet_pos(w, s + 1) == sheet_pos(
        w,
        s,
    ) + 1 + w[s].rows.len() by {
        lemma_span_step(w, 0, s);
    }
    assert forall|s: int| 0 <= s < w.len() implies #[trigger] record_stream(w)[sheet_pos(w, s)]
        == (Rec::SheetRec { idx: s as u32, name: w[s].name }) by {
        lemma_blocks_at(w, 0, s);
        lemma_span_nonneg(w, 0, s);
        assert(record_stream(w) == seq![Rec::MetaRec { version: OUTPUT_VERSION }] + blocks(w, 0));
        assert((seq![Rec::MetaRec { version: OUTPUT_VERSION }] + blocks(w, 0))[sheet_pos(w, s)]
            == blocks(w, 0)[span(w, 0, s)]);
    }
    assert forall|s: int, r: int| 0 <= s < w.len() && 0 <= r < w[s].rows.len() implies #[trigger]
    record_stream(w)[sheet_pos(w, s) + 1 + r] == (Rec::RowRec {
        sheet: s as u32,
        idx: r as u32,
        data: w[s].rows[r],
    }) by {
        lemma_blocks_at(w, 0, s);
        lemma_span_nonneg(w, 0, s);
        assert(record_stream(w) == seq![Rec::MetaRec { version: OUTPUT_VERSION }] + blocks(w, 0));
        assert((seq![Rec::MetaRec { version: OUTPUT_VERSION }] + blocks(w, 0))[sheet_pos(w, s) + 1
            + r] == blocks(w, 0)[span(w, 0, s) + 1 + r]);
    }
}

proof fn lemma_blocks_placement(w: Seq<SheetModel>, i: int, p: int)
    requires
        wf_workbook(w),
        0 <= i <= w.len(),
        0 <= p < blocks(w, i).len(),
    ensures
        blocks(w, i)[p] matches Rec::SheetRec { idx, name } ==> (i <= idx as int && (idx as int)
            < w.len() && p == span(w, i, idx as int) && name == w[idx as int].name),
        blocks(w, i)[p] matches Rec::RowRec { sheet, idx, data } ==> (i <= sheet as int && (
        sheet as int) < w.len() && (idx as int) < w[sheet as int].rows.len() && data == w[
            sheet as int
        ].rows[idx as int] && p == span(w, i, sheet as int) + 1 + idx as int),
    decreases w.len() - i,
{
    let b = block(i as u32, w[i]);
    if p < b.len() {
        assert(blocks(w, i)[p] == b[p]);
        assert(span(w, i, i) == 0);
    } else {
        lemma_blocks_placement(w, i + 1, p - b.len());
        assert(blocks(w, i)[p] == blocks(w, i + 1)[p - b.len()]);
        let r = blocks(w, i)[p];
        match r {
            Rec::MetaRec { .. } => {
            },
            Rec::SheetRec { idx, .. } => {
                assert(span(w, i, idx as int) == 1 + w[i].rows.len() + span(w, i + 1, idx as int));
            },
            Rec::RowRec { sheet, .. } => {
                assert(span(w, i, sheet as int) == 1 + w[i].rows.len() + span(
                    w,
                    i + 1,
                    sheet as int,
                ));
            },
        }
    }
}

/// The converse of `lemma_stream_structure` for sheet records: a sheet
/// record occurs nowhere but at `sheet_pos` of its own index, so there is
/// exactly one per sheet, and its name is that sheet's.
pub proof fn lemma_sheet_record_placement(
    w: Seq<SheetModel>,
    p: int,
    idx: u32,
    name: Seq<char>,
)
    requires
        wf_workbook(w),
        0 <= p < record_stream(w).len(),
        record_stream(w)[p] == (Rec::SheetRec { idx, name }),
    ensures
        (idx as int) < w.len(),
        p == sheet_pos(w, idx as int),
        name == w[idx as int].name,
{
    assert(record_stream(w)[p] == (seq![Rec::MetaRec { version: OUTPUT_VERSION }] + blocks(
        w,
        0,
    ))[p]);
    assert(p >= 1);
    assert(record_stream(w)[p] == blocks(w, 0)[p - 1]);
    lemma_blocks_placement(w, 0, p - 1);
}

/// The converse of `lemma_stream_structure` for row records: a row record
/// naming sheet `sheet` occurs only inside that sheet's block — strictly
/// after the sheet's sheet record and before the next one — at the
/// position its row index dictates, and its `data` is that row's cells.
pub proof fn lemma_row_record_placement(
    w: Seq<SheetModel>,
    p: int,
    sheet: u32,
    idx: u32,
    data: Seq<Option<Seq<char>>>,
)
    requires
        wf_workbook(w),
        0 <= p < record_stream(w).len(),
        record_stream(w)[p] == (Rec::RowRec { sheet, idx, data }),
    ensures
        (sheet as int) < w.len(),
        (idx as int) < w[sheet as int].rows.len(),
        data == w[sheet as int].rows[idx as int],
        p == sheet_pos(w, sheet as int) + 1 + idx as int,
        sheet_pos(w, sheet as int) < p < sheet_pos(w, sheet as int + 1),
{
    assert(record_stream(w)[p] == (seq![Rec::MetaRec { version: OUTPUT_VERSION }] + blocks(
        w,
        0,
    ))[p]);
    assert(p >= 1);
    assert(record_stream(w)[p] == blocks(w, 0)[p - 1]);
    lemma_blocks_placement(w, 0, p - 1);
    lemma_span_step(w, 0, sheet as int);
}

/// The record kinds are told apart by the emitted text itself: the
/// character right after the opening `{"type":"` is `m` for the meta
/// record, `s` for a sheet record and `r` for a row record. With
/// `lemma_meta_record_first` this makes the meta line unique as a line of
/// text, not only as a record.
pub proof fn lemma_kind_char(r: Rec)
    ensures
        encode_rec(r).len() > 9,
        r is MetaRec <==> encode_rec(r)[9] == 'm',
        r is SheetRec <==> encode_rec(r)[9] == 's',
        r is RowRec <==> encode_rec(r)[9] == 'r',
{
    reveal_strlit("{\"type\":\"meta\",\"version\":");
    reveal_strlit("{\"type\":\"sheet\",\"idx\":");
    reveal_strlit("{\"type\":\"row\",\"idx\":");
    match r {
        Rec::MetaRec { .. } => {
            assert(encode_rec(r)[9] == "{\"type\":\"meta\",\"version\":"@[9]);
        },
        Rec::SheetRec { .. } => {
            assert(encode_rec(r)[9] == "{\"type\":\"sheet\",\"idx\":"@[9]);
        },
        Rec::RowRec { .. } => {
            assert(encode_rec(r)[9] == "{\"type\":\"row\",\"idx\":"@[9]);
        },
    }
}

/// How one cell appears in a row record's `data` array: an empty cell is
/// the literal `null`, a non-empty cell is the JSON string of its display
/// text.
pub proof fn lemma_cell_encoding(c: Option<Seq<char>>)
    ensures
        c is None ==> cell_json(c) == "null"@,
        c is Some ==> cell_json(c) == json_string_of(c->0),
{
}

/// The stream is a function of the workbook alone: equal workbooks give
/// equal streams, so two runs over the same unchanged input emit
/// identical output.
pub proof fn lemma_stream_deterministic(w1: Seq<SheetModel>, w2: Seq<SheetModel>)
    requires
        w1 == w2,
    ensures
        record_stream(w1) == record_stream(w2),
{
}

} // verus!

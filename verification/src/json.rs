//! The JSON that crosses the wire: the board as an array of rows, and the
//! list of cell indices that a client sends. Encoding and decoding are done
//! by `serde_json`; what is stated of them here is taken on trust.

use crate::board::Board;
use crate::board::Grid;
use vstd::pervasive::unreached;
use vstd::prelude::*;
use vstd::string::StringSliceAdditionalSpecFns;

verus! {

/// The byte `[`.
pub const OPEN: u8 = 91;

/// The byte `]`.
pub const CLOSE: u8 = 93;

/// The byte `,`.
pub const COMMA: u8 = 44;

/// The JSON text of a truth value.
pub open spec fn json_bool(value: bool) -> Seq<u8> {
    if value {
        "true".spec_bytes()
    } else {
        "false".spec_bytes()
    }
}

/// The given texts with a comma between each two, and no space.
pub open spec fn json_items(items: Seq<Seq<u8>>) -> Seq<u8>
    decreases items.len(),
{
    if items.len() == 0 {
        Seq::empty()
    } else if items.len() == 1 {
        items[0]
    } else {
        json_items(items.drop_last()) + seq![COMMA] + items.last()
    }
}

/// The JSON text of an array whose items have the given texts.
pub open spec fn json_array(items: Seq<Seq<u8>>) -> Seq<u8> {
    seq![OPEN] + json_items(items) + seq![CLOSE]
}

/// The JSON text of one row of cells.
pub open spec fn json_row(row: Seq<bool>) -> Seq<u8> {
    json_array(Seq::new(row.len(), |col: int| json_bool(row[col])))
}

/// The JSON text of a grid: an array of rows, each an array of `true` and
/// `false`, in compact form.
pub open spec fn json_grid(grid: Grid) -> Seq<u8> {
    json_array(Seq::new(grid.len(), |row: int| json_row(grid[row])))
}

/// The list of numbers that `text` denotes as JSON: an array of whole
/// numbers from 0 to 2^64 - 1, as `serde_json` reads it. `None` where `text`
/// is no such array.
pub uninterp spec fn json_index_list(text: Seq<u8>) -> Option<Seq<u64>>;

/// The error of `serde_json`, carried through as it is.
#[verifier::external_type_specification]
#[verifier::external_body]
pub struct ExJsonError(serde_json::Error);

/// Calls `serde_json::to_vec` on the cells of the board.
///
/// Taken on trust: the call succeeds, and what it writes is the compact
/// JSON text of the grid. The serializer writes into a vector, which takes
/// every write, an array is written as `[`, its items with `,` between them,
/// and `]`, and a truth value as `true` or `false`.
#[verifier::external_body]
fn encode_board(board: &Board) -> (encoded: Result<Vec<u8>, serde_json::Error>)
    ensures
        encoded is Ok,
        encoded->Ok_0@ == json_grid(board@),
{
    serde_json::to_vec(&board.cells)
}

/// Calls `serde_json::from_slice` for a vector of `u64`.
///
/// Taken on trust: the outcome depends on the bytes of `text` alone; it is
/// the list that `json_index_list` names, or an error where that names none.
#[verifier::external_body]
fn decode_indices(text: &[u8]) -> (decoded: Result<Vec<u64>, serde_json::Error>)
    ensures
        match decoded {
            Ok(indices) => json_index_list(text@) == Some(indices@),
            Err(_) => json_index_list(text@) is None,
        },
{
    serde_json::from_slice(text)
}

/// The JSON text of a board.
pub fn board_json(board: &Board) -> (text: Vec<u8>)
    ensures
        text@ == json_grid(board@),
{
    match encode_board(board) {
        Ok(text) => text,
        Err(_) => unreached(),
    }
}

/// Reads a JSON list of indices. `None` where `text` is no such list.
pub fn read_index_list(text: &[u8]) -> (indices: Option<Vec<u64>>)
    ensures
        match indices {
            Some(list) => json_index_list(text@) == Some(list@),
            None => json_index_list(text@) is None,
        },
{
    match decode_indices(text) {
        Ok(list) => Some(list),
        Err(_) => None,
    }
}

} // verus!

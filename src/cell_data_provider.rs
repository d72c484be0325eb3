use vstd::prelude::*;
use crate::types::{Byte32, OutPoint};

verus! {

/// A live cell: where it is, and its data with the data's hash if they
/// were loaded already.
#[derive(Clone, Debug)]
pub struct CellMeta {
    pub out_point: OutPoint,
    pub mem_cell_data: Option<(Vec<u8>, Byte32)>,
}

/// Gives access to the data of cells.
pub trait CellDataProvider {
    /// The data and data hash the provider holds for a cell.
    fn get_cell_data(&self, out_point: &OutPoint) -> Option<(Vec<u8>, Byte32)>;

    /// The cell's data: what was loaded with it, else whatever the
    /// provider holds (see `get_cell_data`).
    fn load_cell_data(&self, cell: &CellMeta) -> (r: Option<(Vec<u8>, Byte32)>)
        ensures
            cell.mem_cell_data matches Some(m) ==> r matches Some(x) && x.0@ == m.0@ && x.1 == m.1,
    {
        match &cell.mem_cell_data {
            Some((data, hash)) => {
                let copy = data.clone();
                assert(copy@ =~= data@);
                Some((copy, *hash))
            },
            None => self.get_cell_data(&cell.out_point),
        }
    }
}

} // verus!

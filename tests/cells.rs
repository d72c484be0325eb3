use ckb_sync::cell_data_provider::{CellDataProvider, CellMeta};
use ckb_sync::types::{Byte32, OutPoint};

struct Store {
    cells: Vec<(OutPoint, Vec<u8>, Byte32)>,
}

impl CellDataProvider for Store {
    fn get_cell_data(&self, out_point: &OutPoint) -> Option<(Vec<u8>, Byte32)> {
        self.cells
            .iter()
            .find(|(op, _, _)| op == out_point)
            .map(|(_, d, h)| (d.clone(), *h))
    }
}

fn out_point(n: u32) -> OutPoint {
    OutPoint { tx_hash: Byte32 { w0: 1, w1: 2, w2: 3, w3: 4 }, index: n }
}

fn data_hash(n: u64) -> Byte32 {
    Byte32 { w0: n, w1: 0, w2: 0, w3: 0 }
}

#[test]
fn loaded_data_wins_over_store() {
    let store = Store { cells: vec![(out_point(0), vec![1, 2], data_hash(12))] };
    let cell = CellMeta { out_point: out_point(0), mem_cell_data: Some((vec![9], data_hash(9))) };
    assert_eq!(store.load_cell_data(&cell), Some((vec![9], data_hash(9))));
}

#[test]
fn store_consulted_when_not_loaded() {
    let store = Store { cells: vec![(out_point(0), vec![1, 2], data_hash(12))] };
    let cell = CellMeta { out_point: out_point(0), mem_cell_data: None };
    assert_eq!(store.load_cell_data(&cell), Some((vec![1, 2], data_hash(12))));
    let missing = CellMeta { out_point: out_point(1), mem_cell_data: None };
    assert_eq!(store.load_cell_data(&missing), None);
}

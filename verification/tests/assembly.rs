use ckb_client::assemble::{disperse_transaction, gather_transaction, sum_capacities};
use ckb_client::errors::ClientError;
use ckb_client::model::{Cell, Digest, OutPoint, Script, Transaction};

fn digest(fill: u8) -> Digest {
    Digest { bytes: [fill; 32] }
}

fn lock(fill: u8) -> Script {
    Script { code_hash: digest(fill), args: vec![vec![fill]] }
}

fn cell(index: u32, capacity: &str) -> Cell {
    Cell {
        out_point: OutPoint { tx_hash: digest(7), index },
        capacity: String::from(capacity),
    }
}

fn three_cells() -> Vec<Cell> {
    vec![cell(0, "1000"), cell(1, "2000"), cell(2, "3000")]
}

fn output_capacities(tx: &Transaction) -> Vec<u64> {
    tx.outputs.iter().map(|o| o.capacity).collect()
}

fn assert_skeleton(tx: &Transaction) {
    assert_eq!(tx.version, 0);
    assert!(tx.deps.is_empty());
    assert!(tx.witnesses.is_empty());
    assert_eq!(tx.hash, Digest { bytes: [0u8; 32] });
}

#[test]
fn sum_of_three() {
    assert_eq!(sum_capacities(&three_cells()), Ok(6000));
}

#[test]
fn sum_of_none_is_zero() {
    assert_eq!(sum_capacities(&Vec::new()), Ok(0));
}

#[test]
fn sum_accepts_the_largest_capacity() {
    let cells = vec![cell(0, "18446744073709551615"), cell(1, "0")];
    assert_eq!(sum_capacities(&cells), Ok(u64::MAX));
}

#[test]
fn sum_detects_overflow() {
    let cells = vec![cell(0, "18446744073709551615"), cell(1, "1")];
    assert_eq!(sum_capacities(&cells), Err(ClientError::Overflow));
}

#[test]
fn sum_rejects_an_unreadable_capacity() {
    let cells = vec![cell(0, "1000"), cell(1, "20x0")];
    assert_eq!(sum_capacities(&cells), Err(ClientError::Parse));
}

#[test]
fn sum_reports_parse_before_overflow() {
    let cells = vec![
        cell(0, "18446744073709551615"),
        cell(1, "18446744073709551615"),
        cell(2, "bad"),
    ];
    assert_eq!(sum_capacities(&cells), Err(ClientError::Parse));
}

#[test]
fn gather_three_cells() {
    let tx = gather_transaction(&three_cells(), lock(9)).unwrap();
    assert_skeleton(&tx);
    assert_eq!(tx.inputs.len(), 3);
    for (i, input) in tx.inputs.iter().enumerate() {
        assert_eq!(input.previous_output, three_cells()[i].out_point);
        assert!(input.args.is_empty());
        assert_eq!(input.since, 0);
    }
    assert_eq!(output_capacities(&tx), vec![6000]);
    assert_eq!(tx.outputs[0].lock, lock(9));
    assert!(tx.outputs[0].data.is_empty());
    assert!(tx.outputs[0].type_script.is_none());
}

#[test]
fn gather_of_nothing_is_a_zero_output() {
    let tx = gather_transaction(&Vec::new(), lock(9)).unwrap();
    assert_skeleton(&tx);
    assert!(tx.inputs.is_empty());
    assert_eq!(output_capacities(&tx), vec![0]);
}

#[test]
fn gather_conserves_capacity() {
    let cells = vec![cell(0, "123"), cell(1, "456"), cell(2, "789")];
    let tx = gather_transaction(&cells, lock(1)).unwrap();
    let input_total: u64 = 123 + 456 + 789;
    let output_total: u64 = output_capacities(&tx).iter().sum();
    assert_eq!(output_total, input_total);
}

#[test]
fn gather_detects_overflow() {
    let cells = vec![cell(0, "18446744073709551615"), cell(1, "1")];
    assert_eq!(gather_transaction(&cells, lock(1)), Err(ClientError::Overflow));
}

#[test]
fn gather_rejects_an_unreadable_capacity() {
    let cells = vec![cell(0, "ten")];
    assert_eq!(gather_transaction(&cells, lock(1)), Err(ClientError::Parse));
}

#[test]
fn disperse_three_cells_across_two_outputs() {
    let tx = disperse_transaction(&three_cells(), lock(9), 2500, 2).unwrap();
    assert_skeleton(&tx);
    assert_eq!(tx.inputs.len(), 3);
    assert_eq!(output_capacities(&tx), vec![3500, 2500]);
    for output in &tx.outputs {
        assert_eq!(output.lock, lock(9));
        assert!(output.data.is_empty());
        assert!(output.type_script.is_none());
    }
}

#[test]
fn disperse_stops_when_the_next_minimum_does_not_fit() {
    // 6000 = 2 * 2500 + 1000 within a budget of 4: two outputs, the
    // first absorbing the leftover.
    let tx = disperse_transaction(&three_cells(), lock(9), 2500, 4).unwrap();
    assert_eq!(output_capacities(&tx), vec![3500, 2500]);
}

#[test]
fn disperse_with_an_exact_split() {
    let tx = disperse_transaction(&three_cells(), lock(9), 2000, 3).unwrap();
    assert_eq!(output_capacities(&tx), vec![2000, 2000, 2000]);
}

#[test]
fn disperse_conserves_capacity() {
    let tx = disperse_transaction(&three_cells(), lock(9), 700, 5).unwrap();
    let output_total: u64 = output_capacities(&tx).iter().sum();
    assert_eq!(output_total, 6000);
    assert!(tx.outputs.iter().all(|o| o.capacity >= 700));
}

#[test]
fn disperse_of_nothing_is_refused() {
    assert_eq!(
        disperse_transaction(&Vec::new(), lock(9), 2500, 2),
        Err(ClientError::EmptyInput)
    );
}

#[test]
fn disperse_detects_overflow() {
    let cells = vec![cell(0, "18446744073709551615"), cell(1, "1")];
    assert_eq!(
        disperse_transaction(&cells, lock(9), 2500, 2),
        Err(ClientError::Overflow)
    );
}

#[test]
fn disperse_rejects_an_unreadable_capacity() {
    let cells = vec![cell(0, "")];
    assert_eq!(
        disperse_transaction(&cells, lock(9), 2500, 2),
        Err(ClientError::Parse)
    );
}

#[test]
fn disperse_with_no_budget_has_no_output_for_the_leftover() {
    assert_eq!(
        disperse_transaction(&three_cells(), lock(9), 2500, 0),
        Err(ClientError::NoOutputProduced)
    );
}

#[test]
fn disperse_with_a_minimum_above_the_total_has_no_output() {
    assert_eq!(
        disperse_transaction(&three_cells(), lock(9), 6001, 3),
        Err(ClientError::NoOutputProduced)
    );
}

#[test]
fn disperse_of_worthless_cells_builds_no_output() {
    // A total of zero leaves nothing to distribute: inputs are consumed
    // and no output is produced.
    let cells = vec![cell(0, "0"), cell(1, "0")];
    let tx = disperse_transaction(&cells, lock(9), 2500, 2).unwrap();
    assert_eq!(tx.inputs.len(), 2);
    assert!(tx.outputs.is_empty());
}

#[test]
fn disperse_with_a_zero_minimum_fills_the_budget() {
    // Every output takes the minimum of zero, and the first absorbs the
    // whole total.
    let tx = disperse_transaction(&three_cells(), lock(9), 0, 3).unwrap();
    assert_eq!(output_capacities(&tx), vec![6000, 0, 0]);
}

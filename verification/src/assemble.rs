//! The transaction assembler: overflow-checked capacity summation and
//! the two assembly operations, gathering a cell set into one output or
//! dispersing its value across minimally sized outputs.

use vstd::prelude::*;
use crate::errors::ClientError;
use crate::model::{
    Cell, CellInput, CellOutput, Digest, OutPoint, Script, ScriptModel, Transaction,
    input_consumes, inputs_consume, output_is, outputs_total, skeleton,
};
use crate::parse::{is_u64_decimal, u64_decimal_value, parse_u64};

verus! {

/// Whether a cell's capacity string is a decimal numeral that fits in
/// 64 bits.
pub open spec fn cell_parseable(c: Cell) -> bool {
    is_u64_decimal(c.capacity@)
}

/// The capacity a cell's capacity string names.
pub open spec fn cell_value(c: Cell) -> nat {
    u64_decimal_value(c.capacity@)
}

/// Whether every cell of a set has a readable capacity.
pub open spec fn cells_parseable(cells: Seq<Cell>) -> bool {
    forall|i: int| 0 <= i < cells.len() ==> cell_parseable(#[trigger] cells[i])
}

/// The exact sum of the capacities of a cell set, as an unbounded
/// natural number.
pub open spec fn cells_total(cells: Seq<Cell>) -> nat
    decreases cells.len(),
{
    if cells.len() == 0 {
        0
    } else {
        cells_total(cells.drop_last()) + cell_value(cells.last())
    }
}

/// One more cell adds exactly its own capacity to the total.
proof fn lemma_cells_total_step(cells: Seq<Cell>, i: int)
    requires
        0 <= i < cells.len(),
    ensures
        cells_total(cells.take(i + 1)) == cells_total(cells.take(i)) + cell_value(cells[i]),
{
    assert(cells.take(i + 1).drop_last() =~= cells.take(i));
    assert(cells.take(i + 1).last() == cells[i]);
}

/// The total of a cell set is no less than the total of any of its
/// prefixes.
proof fn lemma_cells_total_prefix_le(cells: Seq<Cell>, i: int)
    requires
        0 <= i <= cells.len(),
    ensures
        cells_total(cells.take(i)) <= cells_total(cells),
    decreases cells.len() - i,
{
    if i == cells.len() {
        assert(cells.take(i) =~= cells);
    } else {
        lemma_cells_total_step(cells, i);
        lemma_cells_total_prefix_le(cells, i + 1);
    }
}

/// Sums the capacities of a cell set: reads every capacity string first,
/// failing with `Parse` if any one is unreadable, then folds them with
/// checked addition, failing with `Overflow` as soon as the running sum
/// would leave the 64-bit range.  No partial or wrapped sum is ever
/// returned.
pub fn sum_capacities(cells: &Vec<Cell>) -> (r: Result<u64, ClientError>)
    ensures
        cells_parseable(cells@) && cells_total(cells@) <= u64::MAX ==> r == Ok::<
            u64,
            ClientError,
        >(cells_total(cells@) as u64),
        !cells_parseable(cells@) ==> r == Err::<u64, ClientError>(ClientError::Parse),
        cells_parseable(cells@) && cells_total(cells@) > u64::MAX ==> r == Err::<
            u64,
            ClientError,
        >(ClientError::Overflow),
{
    let mut values: Vec<u64> = Vec::new();
    let mut i: usize = 0;
    while i < cells.len()
        invariant
            i <= cells.len(),
            values.len() == i,
            forall|j: int| 0 <= j < i ==> cell_parseable(#[trigger] cells@[j]),
            forall|j: int| 0 <= j < i ==> #[trigger] values@[j] == cell_value(cells@[j]),
        decreases cells.len() - i,
    {
        match parse_u64(cells[i].capacity.as_str()) {
            Ok(v) => {
                values.push(v);
            },
            Err(_) => {
                assert(!cell_parseable(cells@[i as int]));
                return Err(ClientError::Parse);
            },
        }
        i += 1;
    }
    let mut acc: u64 = 0;
    let mut k: usize = 0;
    while k < values.len()
        invariant
            k <= values.len(),
            values.len() == cells.len(),
            forall|j: int| 0 <= j < cells.len() ==> cell_parseable(#[trigger] cells@[j]),
            forall|j: int| 0 <= j < cells.len() ==> #[trigger] values@[j] == cell_value(cells@[j]),
            acc == cells_total(cells@.take(k as int)),
        decreases values.len() - k,
    {
        proof {
            lemma_cells_total_step(cells@, k as int);
        }
        match acc.checked_add(values[k]) {
            Some(v) => {
                acc = v;
            },
            None => {
                proof {
                    lemma_cells_total_prefix_le(cells@, k as int + 1);
                }
                return Err(ClientError::Overflow);
            },
        }
        k += 1;
    }
    proof {
        assert(cells@.take(cells@.len() as int) =~= cells@);
    }
    Ok(acc)
}

/// Builds the input list that consumes a cell set: one input per cell in
/// query order, each with no auxiliary arguments and a zero time lock.
pub fn build_inputs(cells: &Vec<Cell>) -> (r: Vec<CellInput>)
    ensures
        inputs_consume(r@, cells@),
{
    let mut inputs: Vec<CellInput> = Vec::new();
    let mut i: usize = 0;
    while i < cells.len()
        invariant
            i <= cells.len(),
            inputs.len() == i,
            forall|j: int| 0 <= j < i ==> input_consumes(#[trigger] inputs@[j], cells@[j]),
        decreases cells.len() - i,
    {
        let input = CellInput { previous_output: cells[i].out_point, args: Vec::new(), since: 0 };
        proof {
            assert(input.args.deep_view() =~= Seq::<Seq<u8>>::empty());
        }
        inputs.push(input);
        i += 1;
    }
    inputs
}

/// What a successful gathering returns: a skeleton transaction that
/// consumes every queried cell in order and carries the whole summed
/// capacity in one output under the destination condition, so that the
/// output total equals the input total exactly.
pub open spec fn gather_ok(tx: Transaction, cells: Seq<Cell>, lock_out: ScriptModel) -> bool {
    &&& skeleton(tx)
    &&& inputs_consume(tx.inputs@, cells)
    &&& tx.outputs@.len() == 1
    &&& output_is(tx.outputs@[0], cells_total(cells) as u64, lock_out)
    &&& outputs_total(tx.outputs@) == cells_total(cells)
}

/// Consolidates a cell set into an unsigned transaction with a single
/// output: one input per cell in query order, and one output holding the
/// exact overflow-checked sum of their capacities under `lock_out`.  An
/// empty cell set is tolerated and yields a degenerate transaction with
/// no inputs and one output of capacity zero.
pub fn gather_transaction(cells: &Vec<Cell>, lock_out: Script) -> (r: Result<
    Transaction,
    ClientError,
>)
    ensures
        match r {
            Ok(tx) => {
                &&& cells_parseable(cells@)
                &&& cells_total(cells@) <= u64::MAX
                &&& gather_ok(tx, cells@, lock_out@)
            },
            Err(e) => {
                ||| (e == ClientError::Parse && !cells_parseable(cells@))
                ||| (e == ClientError::Overflow && cells_parseable(cells@) && cells_total(cells@)
                    > u64::MAX)
            },
        },
{
    let capacity = match sum_capacities(cells) {
        Ok(c) => c,
        Err(e) => {
            return Err(e);
        },
    };
    let inputs = build_inputs(cells);
    let data: Vec<u8> = Vec::new();
    let output = CellOutput { capacity, data, lock: lock_out, type_script: None };
    let mut outputs: Vec<CellOutput> = Vec::new();
    outputs.push(output);
    proof {
        assert(outputs@.drop_last() =~= Seq::<CellOutput>::empty());
        assert(outputs_total(Seq::<CellOutput>::empty()) == 0);
        assert(output.data@ =~= Seq::<u8>::empty());
    }
    let tx = finish_transaction(inputs, outputs);
    Ok(tx)
}

/// How many outputs a dispersal produces: starting from the summed
/// capacity, one output of the minimum capacity is split off at a time
/// until the output budget is spent or what remains no longer covers
/// another minimum.
pub open spec fn dispersal_count(total: nat, min: nat, budget: nat) -> nat
    decreases budget,
{
    if budget == 0 || total == 0 || total < min {
        0
    } else {
        1 + dispersal_count((total - min) as nat, min, (budget - 1) as nat)
    }
}

/// The capacity left over once every produced output took the minimum.
pub open spec fn dispersal_leftover(total: nat, min: nat, budget: nat) -> nat {
    (total - min * dispersal_count(total, min, budget)) as nat
}

/// A dispersal never produces more outputs than its budget, and what the
/// produced outputs take at the minimum never exceeds the total.
pub proof fn lemma_dispersal_count_bounds(total: nat, min: nat, budget: nat)
    ensures
        dispersal_count(total, min, budget) <= budget,
        min * dispersal_count(total, min, budget) <= total,
    decreases budget,
{
    if !(budget == 0 || total == 0 || total < min) {
        lemma_dispersal_count_bounds((total - min) as nat, min, (budget - 1) as nat);
        let c = dispersal_count((total - min) as nat, min, (budget - 1) as nat);
        let q = dispersal_count(total, min, budget);
        assert(q == 1 + c);
        assert(min * c <= total - min);
        assert(min * q == min * c + min) by (nonlinear_arith)
            requires
                q == 1 + c,
        ;
        assert(min * q <= total);
    } else {
        assert(dispersal_count(total, min, budget) == 0);
        assert(min * dispersal_count(total, min, budget) == 0) by (nonlinear_arith)
            requires
                dispersal_count(total, min, budget) == 0,
        ;
    }
}

/// While the budget is not exhausted, the leftover of a dispersal is
/// smaller than the minimum: another output did not fit.
proof fn lemma_dispersal_leftover_small(total: nat, min: nat, budget: nat)
    requires
        min > 0,
    ensures
        dispersal_count(total, min, budget) < budget ==> total - min * dispersal_count(
            total,
            min,
            budget,
        ) < min,
    decreases budget,
{
    if budget == 0 || total == 0 || total < min {
        assert(dispersal_count(total, min, budget) == 0);
        assert(min * dispersal_count(total, min, budget) == 0) by (nonlinear_arith)
            requires
                dispersal_count(total, min, budget) == 0,
        ;
    } else {
        lemma_dispersal_leftover_small((total - min) as nat, min, (budget - 1) as nat);
        let c = dispersal_count((total - min) as nat, min, (budget - 1) as nat);
        let q = dispersal_count(total, min, budget);
        assert(q == 1 + c);
        assert(min * q == min * c + min) by (nonlinear_arith)
            requires
                q == 1 + c,
        ;
    }
}

/// Dispersal counts outputs by division: with a positive minimum `min`,
/// a total of `q * min + r` with `0 <= r < min` yields `q` outputs and
/// leftover `r` while `q` is within the budget, and otherwise exactly
/// the budgeted number of outputs, the leftover being whatever the
/// budgeted outputs' minimums leave of the total.
pub proof fn lemma_dispersal_is_division(total: nat, min: nat, budget: nat)
    requires
        min > 0,
    ensures
        total / min <= budget ==> dispersal_count(total, min, budget) == total / min
            && dispersal_leftover(total, min, budget) == total % min,
        total / min > budget ==> dispersal_count(total, min, budget) == budget
            && dispersal_leftover(total, min, budget) == total - min * budget,
{
    let q = dispersal_count(total, min, budget);
    lemma_dispersal_count_bounds(total, min, budget);
    lemma_dispersal_leftover_small(total, min, budget);
    if q < budget {
        let r = (total - min * q) as nat;
        assert(total as int == q as int * min as int + r as int) by (nonlinear_arith)
            requires
                min * q + r == total,
        ;
        vstd::arithmetic::div_mod::lemma_fundamental_div_mod_converse(
            total as int,
            min as int,
            q as int,
            r as int,
        );
    } else {
        vstd::arithmetic::div_mod::lemma_fundamental_div_mod(total as int, min as int);
        let quot = total as int / min as int;
        if quot < budget {
            assert(min as int * budget as int - min as int * quot >= min) by (nonlinear_arith)
                requires
                    min >= 1,
                    budget as int - quot >= 1,
            ;
            assert(false);
        }
    }
}

/// Appending an output adds exactly its capacity to the output total.
proof fn lemma_outputs_total_push(outputs: Seq<CellOutput>, output: CellOutput)
    ensures
        outputs_total(outputs.push(output)) == outputs_total(outputs) + output.capacity,
{
    assert(outputs.push(output).drop_last() =~= outputs);
    assert(outputs.push(output).last() == output);
}

/// Replacing one output changes the output total by exactly the change
/// in that output's capacity.
proof fn lemma_outputs_total_update(outputs: Seq<CellOutput>, i: int, output: CellOutput)
    requires
        0 <= i < outputs.len(),
    ensures
        outputs_total(outputs.update(i, output)) == outputs_total(outputs) - outputs[i].capacity
            + output.capacity,
    decreases outputs.len(),
{
    if i == outputs.len() - 1 {
        assert(outputs.update(i, output).drop_last() =~= outputs.drop_last());
        assert(outputs.update(i, output).last() == output);
    } else {
        assert(outputs.update(i, output).drop_last() =~= outputs.drop_last().update(i, output));
        assert(outputs.update(i, output).last() == outputs.last());
        lemma_outputs_total_update(outputs.drop_last(), i, output);
    }
}

/// What a successful dispersal returns: a skeleton transaction that
/// consumes every queried cell in order and splits the summed capacity
/// across the produced outputs, every one at the destination minimum
/// except the first, which also absorbs the leftover — so each output
/// is at least the minimum and the output total equals the input total
/// exactly.
pub open spec fn disperse_ok(
    tx: Transaction,
    cells: Seq<Cell>,
    lock_out: ScriptModel,
    min_capacity: u64,
    budget: nat,
) -> bool {
    let total = cells_total(cells);
    let produced = dispersal_count(total, min_capacity as nat, budget);
    let leftover = dispersal_leftover(total, min_capacity as nat, budget);
    &&& skeleton(tx)
    &&& inputs_consume(tx.inputs@, cells)
    &&& tx.outputs@.len() == produced
    &&& (produced > 0 ==> output_is(
        tx.outputs@[0],
        (min_capacity + leftover) as u64,
        lock_out,
    ))
    &&& (forall|i: int|
        1 <= i < produced ==> output_is(#[trigger] tx.outputs@[i], min_capacity, lock_out))
    &&& (forall|i: int|
        0 <= i < produced ==> (#[trigger] tx.outputs@[i]).capacity >= min_capacity)
    &&& outputs_total(tx.outputs@) == total
}

/// Splits a cell set's summed capacity across up to `max_count` outputs
/// under `lock_out`, each of exactly `min_capacity` — the externally
/// computed minimum-occupied capacity of such an output — and adds any
/// leftover to the first output.  Fails with `EmptyInput` on an empty
/// cell set, with `Parse` or `Overflow` as summation does, and with
/// `NoOutputProduced` when capacity remains but no output was produced
/// to absorb it, the budget being zero or the first minimum exceeding
/// the total.
pub fn disperse_transaction(
    cells: &Vec<Cell>,
    lock_out: Script,
    min_capacity: u64,
    max_count: usize,
) -> (r: Result<Transaction, ClientError>)
    ensures
        match r {
            Ok(tx) => {
                &&& cells@.len() > 0
                &&& cells_parseable(cells@)
                &&& cells_total(cells@) <= u64::MAX
                &&& (dispersal_count(cells_total(cells@), min_capacity as nat, max_count as nat)
                    > 0 || cells_total(cells@) == 0)
                &&& disperse_ok(tx, cells@, lock_out@, min_capacity, max_count as nat)
            },
            Err(e) => {
                ||| (e == ClientError::EmptyInput && cells@.len() == 0)
                ||| (e == ClientError::Parse && cells@.len() > 0 && !cells_parseable(cells@))
                ||| (e == ClientError::Overflow && cells@.len() > 0 && cells_parseable(cells@)
                    && cells_total(cells@) > u64::MAX)
                ||| (e == ClientError::NoOutputProduced && cells@.len() > 0 && cells_parseable(
                    cells@,
                ) && 0 < cells_total(cells@) <= u64::MAX && dispersal_count(
                    cells_total(cells@),
                    min_capacity as nat,
                    max_count as nat,
                ) == 0)
            },
        },
{
    if cells.len() == 0 {
        return Err(ClientError::EmptyInput);
    }
    let total = match sum_capacities(cells) {
        Ok(c) => c,
        Err(e) => {
            return Err(e);
        },
    };
    let inputs = build_inputs(cells);
    let ghost total_n = cells_total(cells@);
    let ghost produced = dispersal_count(total_n, min_capacity as nat, max_count as nat);
    let mut outputs: Vec<CellOutput> = Vec::new();
    let mut remaining: u64 = total;
    proof {
        assert(outputs_total(outputs@) == 0);
    }
    while remaining > 0 && outputs.len() < max_count
        invariant
            outputs.len() <= max_count,
            total_n == cells_total(cells@),
            total_n <= u64::MAX,
            min_capacity as nat * outputs@.len() + remaining as nat == total_n,
            outputs_total(outputs@) + remaining as nat == total_n,
            produced == outputs@.len() + dispersal_count(
                remaining as nat,
                min_capacity as nat,
                (max_count - outputs@.len()) as nat,
            ),
            forall|i: int|
                0 <= i < outputs@.len() ==> output_is(
                    #[trigger] outputs@[i],
                    min_capacity,
                    lock_out@,
                ),
        ensures
            outputs.len() <= max_count,
            min_capacity as nat * outputs@.len() + remaining as nat == total_n,
            outputs_total(outputs@) + remaining as nat == total_n,
            produced == outputs@.len(),
            forall|i: int|
                0 <= i < outputs@.len() ==> output_is(
                    #[trigger] outputs@[i],
                    min_capacity,
                    lock_out@,
                ),
        decreases max_count - outputs.len(),
    {
        if remaining < min_capacity {
            break ;
        }
        let data: Vec<u8> = Vec::new();
        let output = CellOutput {
            capacity: min_capacity,
            data,
            lock: lock_out.duplicate(),
            type_script: None,
        };
        proof {
            let k = outputs@.len() as int;
            assert(dispersal_count(remaining as nat, min_capacity as nat, (max_count - k) as nat)
                == 1 + dispersal_count(
                (remaining - min_capacity) as nat,
                min_capacity as nat,
                (max_count - k - 1) as nat,
            ));
            assert(min_capacity as nat * (k + 1) == min_capacity as nat * k
                + min_capacity as nat) by (nonlinear_arith);
            lemma_outputs_total_push(outputs@, output);
            assert(output.data@ =~= Seq::<u8>::empty());
        }
        remaining = remaining - min_capacity;
        outputs.push(output);
    }
    if remaining > 0 {
        if outputs.len() == 0 {
            proof {
                assert(total_n == remaining as nat);
            }
            return Err(ClientError::NoOutputProduced);
        }
        proof {
            let q = outputs@.len() as nat;
            assert(min_capacity as nat * q >= min_capacity as nat * 1) by (nonlinear_arith)
                requires
                    q >= 1,
            ;
        }
        let ghost held = outputs@;
        let mut first = outputs.remove(0);
        first.capacity = first.capacity + remaining;
        outputs.insert(0, first);
        proof {
            assert(outputs@ =~= held.update(0, first));
            lemma_outputs_total_update(held, 0, first);
        }
    }
    let tx = finish_transaction(inputs, outputs);
    Ok(tx)
}

/// Wraps finished input and output lists as an unsigned skeleton:
/// version 0, no dependency references, no witnesses, and the all-zero
/// placeholder hash.
fn finish_transaction(inputs: Vec<CellInput>, outputs: Vec<CellOutput>) -> (tx: Transaction)
    ensures
        skeleton(tx),
        tx.inputs == inputs,
        tx.outputs == outputs,
{
    let deps: Vec<OutPoint> = Vec::new();
    let witnesses: Vec<Vec<u8>> = Vec::new();
    let tx = Transaction { version: 0, deps, inputs, outputs, witnesses, hash: Digest::zero() };
    proof {
        assert(tx.deps@ =~= Seq::<OutPoint>::empty());
        assert(tx.witnesses.deep_view() =~= Seq::<Seq<u8>>::empty());
    }
    tx
}

} // verus!

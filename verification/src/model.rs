//! The chain data that the client reads and the transactions it builds,
//! modelled as plain values.

use vstd::prelude::*;

verus! {

/// A fixed-size digest, as the chain uses for block, transaction and
/// script identities.
#[derive(Clone, Copy, Debug, PartialEq, Eq)]
pub struct Digest {
    pub bytes: [u8; 32],
}

impl Digest {
    /// The all-zero digest, used as the placeholder transaction hash of an
    /// unsigned transaction skeleton.
    pub fn zero() -> (r: Digest)
        ensures
            r.bytes@ == Seq::new(32, |i: int| 0u8),
    {
        let bytes = [0u8; 32];
        assert(bytes@ =~= Seq::new(32, |i: int| 0u8));
        Digest { bytes }
    }
}

/// A reference to one output of one prior transaction.
#[derive(Clone, Copy, Debug, PartialEq, Eq)]
pub struct OutPoint {
    pub tx_hash: Digest,
    pub index: u32,
}

/// A spending condition (a lock script): who may spend a cell.  The client
/// never interprets it; identity is by its externally computed digest.
#[derive(Clone, Debug, PartialEq, Eq)]
pub struct Script {
    pub code_hash: Digest,
    pub args: Vec<Vec<u8>>,
}

/// The mathematical content of a `Script`.
pub struct ScriptModel {
    pub code_hash: Digest,
    pub args: Seq<Seq<u8>>,
}

impl View for Script {
    type V = ScriptModel;

    open spec fn view(&self) -> ScriptModel {
        ScriptModel { code_hash: self.code_hash, args: self.args.deep_view() }
    }
}

impl Script {
    /// A copy of this script whose model is provably the same.
    pub fn duplicate(&self) -> (r: Script)
        ensures
            r@ == self@,
    {
        let mut args: Vec<Vec<u8>> = Vec::new();
        let mut i: usize = 0;
        while i < self.args.len()
            invariant
                i <= self.args.len(),
                args.len() == i,
                forall|j: int| 0 <= j < i ==> args@[j]@ == self.args@[j]@,
            decreases self.args.len() - i,
        {
            let entry = copy_bytes(&self.args[i]);
            args.push(entry);
            i += 1;
        }
        let r = Script { code_hash: self.code_hash, args };
        assert(r@.args =~= self@.args);
        r
    }
}

/// A byte-for-byte copy of a byte string.
pub fn copy_bytes(v: &Vec<u8>) -> (r: Vec<u8>)
    ensures
        r@ == v@,
{
    let mut r: Vec<u8> = Vec::new();
    let mut i: usize = 0;
    while i < v.len()
        invariant
            i <= v.len(),
            r@ == v@.take(i as int),
        decreases v.len() - i,
    {
        r.push(v[i]);
        assert(r@ =~= v@.take(i as int + 1));
        i += 1;
    }
    assert(r@ =~= v@);
    r
}

/// An unspent cell as the node reports it: where it sits and its capacity,
/// the latter still the decimal string of the wire format.
#[derive(Clone, Debug, PartialEq, Eq)]
pub struct Cell {
    pub out_point: OutPoint,
    pub capacity: String,
}

/// One input of a transaction: the consumed cell's out-point, an auxiliary
/// argument list and a relative-time lock.  This client always builds inputs
/// with no arguments and a zero time lock.
#[derive(Clone, Debug, PartialEq, Eq)]
pub struct CellInput {
    pub previous_output: OutPoint,
    pub args: Vec<Vec<u8>>,
    pub since: u64,
}

/// One output of a transaction: a capacity, a data payload, the spending
/// condition, and an optional secondary condition.
#[derive(Clone, Debug, PartialEq, Eq)]
pub struct CellOutput {
    pub capacity: u64,
    pub data: Vec<u8>,
    pub lock: Script,
    pub type_script: Option<Script>,
}

/// An unsigned transaction skeleton: version 0, no dependency references,
/// the inputs and outputs, no witnesses, and a placeholder hash.
#[derive(Clone, Debug, PartialEq, Eq)]
pub struct Transaction {
    pub version: u32,
    pub deps: Vec<OutPoint>,
    pub inputs: Vec<CellInput>,
    pub outputs: Vec<CellOutput>,
    pub witnesses: Vec<Vec<u8>>,
    pub hash: Digest,
}

/// Whether `input` consumes exactly `cell`, with the fields this client
/// always fixes: no auxiliary arguments and a zero time lock.
pub open spec fn input_consumes(input: CellInput, cell: Cell) -> bool {
    &&& input.previous_output == cell.out_point
    &&& input.args.deep_view() == Seq::<Seq<u8>>::empty()
    &&& input.since == 0
}

/// Whether `inputs` consumes exactly the cells of `cells`, in order.
pub open spec fn inputs_consume(inputs: Seq<CellInput>, cells: Seq<Cell>) -> bool {
    &&& inputs.len() == cells.len()
    &&& forall|i: int| 0 <= i < cells.len() ==> input_consumes(#[trigger] inputs[i], cells[i])
}

/// Whether `output` carries exactly `capacity` under `lock`, with an empty
/// data payload and no secondary condition, as every output this client
/// builds does.
pub open spec fn output_is(output: CellOutput, capacity: u64, lock: ScriptModel) -> bool {
    &&& output.capacity == capacity
    &&& output.data@ == Seq::<u8>::empty()
    &&& output.lock@ == lock
    &&& output.type_script is None
}

/// The sum of the capacities of a list of outputs.
pub open spec fn outputs_total(outputs: Seq<CellOutput>) -> nat
    decreases outputs.len(),
{
    if outputs.len() == 0 {
        0
    } else {
        outputs_total(outputs.drop_last()) + outputs.last().capacity as nat
    }
}

/// Whether `tx` is an unsigned skeleton as this client builds them:
/// version 0, nothing but inputs and outputs, and a placeholder hash.
pub open spec fn skeleton(tx: Transaction) -> bool {
    &&& tx.version == 0
    &&& tx.deps@ == Seq::<OutPoint>::empty()
    &&& tx.witnesses.deep_view() == Seq::<Seq<u8>>::empty()
    &&& tx.hash.bytes@ == Seq::new(32, |i: int| 0u8)
}

} // verus!

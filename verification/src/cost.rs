//! What an instruction costs: a table from mnemonics to costs, with a cost
//! for every mnemonic that the table does not list.

use crate::wasm::{instruction_text, text_of};
use parity_wasm::elements::Instruction;
use vstd::hash_map::StringHashMap;
use vstd::prelude::*;
use vstd::string::StrSliceExecFns;

verus! {

/// The characters that Unicode classes as white space.
pub open spec fn is_whitespace(c: char) -> bool {
    let code = c as u32;
    (0x09 <= code <= 0x0D) || code == 0x20 || code == 0x85 || code == 0xA0 || code == 0x1680 || (
    0x2000 <= code <= 0x200A) || code == 0x2028 || code == 0x2029 || code == 0x202F || code
        == 0x205F || code == 0x3000
}

/// The first index at or behind `from` at which `text` holds something other
/// than white space; the length of `text` if there is none.
pub open spec fn token_start(text: Seq<char>, from: int) -> int
    decreases text.len() - from,
{
    if 0 <= from < text.len() && is_whitespace(text[from]) {
        token_start(text, from + 1)
    } else {
        from
    }
}

/// The first index at or behind `from` at which `text` holds white space; the
/// length of `text` if there is none.
pub open spec fn token_end(text: Seq<char>, from: int) -> int
    decreases text.len() - from,
{
    if 0 <= from < text.len() && !is_whitespace(text[from]) {
        token_end(text, from + 1)
    } else {
        from
    }
}

/// The first run of characters of `text` that holds no white space; empty if
/// `text` holds nothing else.
pub open spec fn first_token(text: Seq<char>) -> Seq<char> {
    let start = token_start(text, 0);
    text.subrange(start, token_end(text, start))
}

/// The mnemonic of an instruction: the first token of its text.
pub open spec fn mnemonic_of(instruction: Instruction) -> Seq<char> {
    first_token(instruction_text(instruction))
}

fn is_whitespace_char(c: char) -> (res: bool)
    ensures
        res == is_whitespace(c),
{
    let code: u32 = c as u32;
    (0x09 <= code && code <= 0x0D) || code == 0x20 || code == 0x85 || code == 0xA0 || code
        == 0x1680 || (0x2000 <= code && code <= 0x200A) || code == 0x2028 || code == 0x2029
        || code == 0x202F || code == 0x205F || code == 0x3000
}

/// The first token of `text`.
pub fn leading_token(text: &str) -> (res: String)
    ensures
        res@ == first_token(text@),
{
    let len = text.unicode_len();
    let mut start: usize = 0;
    while start < len && is_whitespace_char(text.get_char(start))
        invariant
            start <= len,
            len == text@.len(),
            token_start(text@, 0) == token_start(text@, start as int),
        decreases len - start,
    {
        start += 1;
    }
    let mut end: usize = start;
    while end < len && !is_whitespace_char(text.get_char(end))
        invariant
            start <= end <= len,
            len == text@.len(),
            token_end(text@, start as int) == token_end(text@, end as int),
        decreases len - end,
    {
        end += 1;
    }
    text.substring_char(start, end).to_owned()
}

/// Converts an instruction to its mnemonic.
pub fn instruction_to_mnemonic(instruction: &Instruction) -> (res: String)
    ensures
        res@ == mnemonic_of(*instruction),
{
    let text = text_of(instruction);
    leading_token(text.as_str())
}

/// A cost table as a mathematical value.
pub struct CostTableView {
    pub instruction_cost: Map<Seq<char>, u64>,
    pub default_cost: u64,
}

impl CostTableView {
    /// The cost of the instruction with the given mnemonic.
    pub open spec fn cost(self, mnemonic: Seq<char>) -> u64 {
        if self.instruction_cost.contains_key(mnemonic) {
            self.instruction_cost[mnemonic]
        } else {
            self.default_cost
        }
    }
}

/// The table that is used where none is configured: every instruction costs
/// 1, but for the four that only mark where a block starts or ends.
pub open spec fn default_cost_table() -> CostTableView {
    CostTableView {
        instruction_cost: Map::empty().insert("block"@, 0u64).insert("else"@, 0u64).insert(
            "end"@,
            0u64,
        ).insert("loop"@, 0u64),
        default_cost: 1,
    }
}

/// The cost of each instruction by its mnemonic, and the cost of an
/// instruction whose mnemonic is not listed.
pub struct InstructionCostTable {
    instruction_cost: StringHashMap<u64>,
    default_cost: u64,
}

impl View for InstructionCostTable {
    type V = CostTableView;

    closed spec fn view(&self) -> CostTableView {
        CostTableView { instruction_cost: self.instruction_cost@, default_cost: self.default_cost }
    }
}

impl Default for InstructionCostTable {
    /// Every instruction costs 1, but for `block`, `else`, `end` and `loop`,
    /// which cost nothing: they only mark where a block starts or ends.
    fn default() -> (res: Self)
        ensures
            res@ == default_cost_table(),
    {
        let mut instruction_cost: StringHashMap<u64> = StringHashMap::new();
        instruction_cost.insert("block".to_owned(), 0);
        instruction_cost.insert("else".to_owned(), 0);
        instruction_cost.insert("end".to_owned(), 0);
        instruction_cost.insert("loop".to_owned(), 0);
        InstructionCostTable { instruction_cost, default_cost: 1 }
    }
}

impl InstructionCostTable {
    /// The default table.
    pub fn new() -> (res: Self)
        ensures
            res@ == default_cost_table(),
    {
        Self::default()
    }

    /// The same table with another cost for the instructions that it does not
    /// list.
    pub fn with_default_cost(self, cost: u64) -> (res: Self)
        ensures
            res@ == (CostTableView { default_cost: cost, ..self@ }),
    {
        let mut table = self;
        table.default_cost = cost;
        table
    }

    /// The same table with `cost` for the instruction whose mnemonic is `id`,
    /// whatever it cost before.
    pub fn with_instruction_cost(self, id: String, cost: u64) -> (res: Self)
        ensures
            res@ == (CostTableView {
                instruction_cost: self@.instruction_cost.insert(id@, cost),
                ..self@
            }),
    {
        let mut table = self;
        table.instruction_cost.insert(id, cost);
        table
    }

    /// The cost of the instruction with the given mnemonic: the cost that the
    /// table lists for it, or the default cost.
    pub fn mnemonic_cost(&self, mnemonic: &str) -> (res: u64)
        ensures
            res == self@.cost(mnemonic@),
    {
        match self.instruction_cost.get(mnemonic) {
            Some(cost) => *cost,
            None => self.default_cost,
        }
    }

    /// The cost of an instruction.
    pub fn cost(&self, instruction: &Instruction) -> (res: u64)
        ensures
            res == self@.cost(mnemonic_of(*instruction)),
    {
        let mnemonic = instruction_to_mnemonic(instruction);
        self.mnemonic_cost(mnemonic.as_str())
    }
}

} // verus!

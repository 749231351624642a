//! Lexical blocks and the execution frame that holds them.
//!
//! A block is the scope of the variables bound inside it. A frame holds the
//! value stack and the stack of the blocks that are open, innermost on top. A
//! name is resolved from the innermost block outwards.

use super::stack::{Stack, StackKind};
use super::value::Value;
use super::ErrorKind;
use vstd::hash_map::StringHashMap;
use vstd::prelude::*;

verus! {

/// An open lexical block.
pub struct Block {
    /// How long the value stack was when the block was entered.
    pub stack_level: usize,
    /// The index of the instruction to go on with when the block is left.
    pub after_instr: usize,
    /// The variables bound in this block.
    pub locals: StringHashMap<Value>,
}

/// A [`Block`] with its variables as a map from names to values.
#[verifier::ext_equal]
pub struct BlockView {
    pub stack_level: nat,
    pub after_instr: nat,
    pub locals: Map<Seq<char>, Value>,
}

impl View for Block {
    type V = BlockView;

    open spec fn view(&self) -> BlockView {
        BlockView {
            stack_level: self.stack_level as nat,
            after_instr: self.after_instr as nat,
            locals: self.locals@,
        }
    }
}

impl BlockView {
    /// The block with `name` bound to `value`, whatever it was bound to before.
    pub open spec fn bind(self, name: Seq<char>, value: Value) -> BlockView {
        BlockView { locals: self.locals.insert(name, value), ..self }
    }
}

impl Block {
    /// A block without variables.
    pub fn new(stack_level: usize, after_instr: usize) -> (r: Self)
        ensures
            r@ == (BlockView {
                stack_level: stack_level as nat,
                after_instr: after_instr as nat,
                locals: Map::empty(),
            }),
    {
        Block { stack_level, after_instr, locals: StringHashMap::new() }
    }
}

/// An execution context: the value stack and the stack of open blocks.
pub struct Frame {
    pub vals: Stack<Value>,
    pub blocks: Stack<Block>,
}

/// A [`Frame`] as two sequences, each bottom first, with the kinds that the
/// two stacks are labelled with: the kinds that their errors carry.
#[verifier::ext_equal]
pub struct FrameView {
    pub vals: Seq<Value>,
    pub blocks: Seq<BlockView>,
    pub vals_kind: StackKind,
    pub blocks_kind: StackKind,
}

impl View for Frame {
    type V = FrameView;

    open spec fn view(&self) -> FrameView {
        FrameView {
            vals: self.vals@,
            blocks: self.blocks@.map_values(|b: Block| b@),
            vals_kind: self.vals.kind,
            blocks_kind: self.blocks.kind,
        }
    }
}

impl FrameView {
    /// A frame with an empty value stack and the one outermost block open.
    pub open spec fn fresh() -> FrameView {
        FrameView {
            vals: Seq::empty(),
            blocks: seq![BlockView { stack_level: 0, after_instr: 0, locals: Map::empty() }],
            vals_kind: StackKind::Value,
            blocks_kind: StackKind::Scope,
        }
    }

    /// The frame with another value stack.
    pub open spec fn with_vals(self, vals: Seq<Value>) -> FrameView {
        FrameView { vals, ..self }
    }

    /// The frame with other blocks.
    pub open spec fn with_blocks(self, blocks: Seq<BlockView>) -> FrameView {
        FrameView { blocks, ..self }
    }
}

/// The index of the innermost of `blocks` that binds `name`, if any does.
pub open spec fn owner(blocks: Seq<BlockView>, name: Seq<char>) -> Option<int>
    decreases blocks.len(),
{
    if blocks.len() == 0 {
        None
    } else if blocks.last().locals.contains_key(name) {
        Some(blocks.len() - 1)
    } else {
        owner(blocks.drop_last(), name)
    }
}

/// The value that `name` resolves to in `blocks`: its binding in the
/// innermost block that has one.
pub open spec fn lookup(blocks: Seq<BlockView>, name: Seq<char>) -> Option<Value> {
    match owner(blocks, name) {
        Some(i) => Some(blocks[i].locals[name]),
        None => None,
    }
}

/// The owner of a name is a block that binds it, and no block further in
/// does; a name without an owner is bound nowhere.
pub proof fn lemma_owner(blocks: Seq<BlockView>, name: Seq<char>)
    ensures
        match owner(blocks, name) {
            Some(i) => {
                &&& 0 <= i < blocks.len()
                &&& blocks[i].locals.contains_key(name)
                &&& forall|j: int| i < j < blocks.len() ==> !blocks[j].locals.contains_key(name)
            },
            None => forall|j: int| 0 <= j < blocks.len() ==> !blocks[j].locals.contains_key(name),
        },
    decreases blocks.len(),
{
    if blocks.len() > 0 && !blocks.last().locals.contains_key(name) {
        let rest = blocks.drop_last();
        lemma_owner(rest, name);
        assert forall|j: int| 0 <= j < rest.len() implies rest[j] == blocks[j] by {}
    }
}

impl Frame {
    /// A frame with an empty value stack and the one outermost block open.
    pub fn new() -> (r: Result<Self, ErrorKind>)
        ensures
            r is Ok,
            r->Ok_0@ == FrameView::fresh(),
    {
        let mut frame = Frame {
            vals: Stack::new(StackKind::Value),
            blocks: Stack::new(StackKind::Scope),
        };
        frame.blocks.push(Block::new(0, 0))?;
        assert(frame@.blocks =~= FrameView::fresh().blocks);
        Ok(frame)
    }

    /// The index of the innermost block that binds `name`.
    fn owner_index(&self, name: &String) -> (r: Option<usize>)
        ensures
            r is Some <==> owner(self@.blocks, name@) is Some,
            r matches Some(i) ==> i < self.blocks@.len() && owner(self@.blocks, name@) == Some(
                i as int,
            ),
    {
        let mut i: usize = self.blocks.len();
        assert(self@.blocks.take(i as int) == self@.blocks);
        while i > 0
            invariant
                i <= self.blocks@.len(),
                owner(self@.blocks, name@) == owner(self@.blocks.take(i as int), name@),
            decreases i,
        {
            proof {
                let prefix = self@.blocks.take(i as int);
                assert(prefix.last() == self.blocks@[i - 1]@);
                assert(prefix.drop_last() == self@.blocks.take(i - 1));
            }
            i -= 1;
            if self.blocks.stack[i].locals.contains_key(name.as_str()) {
                return Some(i);
            }
        }
        None
    }

    /// The value that `name` is bound to in the innermost block that binds it.
    pub fn get_local(&self, name: &String) -> (r: Option<&Value>)
        ensures
            match lookup(self@.blocks, name@) {
                Some(v) => r == Some(&v),
                None => r is None,
            },
    {
        proof {
            lemma_owner(self@.blocks, name@);
        }
        match self.owner_index(name) {
            Some(i) => {
                assert(self@.blocks[i as int] == self.blocks@[i as int]@);
                self.blocks.stack[i].locals.get(name.as_str())
            },
            None => None,
        }
    }

    /// The innermost block that binds `name`, for writing. What the caller
    /// makes of that block takes its place; nothing else in the frame changes.
    pub fn get_local_mut(&mut self, name: &String) -> (r: Option<&mut Block>)
        ensures
            match owner(old(self)@.blocks, name@) {
                Some(i) => {
                    &&& r is Some
                    &&& r->0@ == old(self)@.blocks[i]
                    &&& final(self)@ == old(self)@.with_blocks(
                        old(self)@.blocks.update(i, final(r->0)@),
                    )
                },
                None => r is None && final(self)@ == old(self)@,
            },
    {
        proof {
            lemma_owner(self@.blocks, name@);
        }
        match self.owner_index(name) {
            Some(i) => Some(&mut self.blocks.stack[i]),
            None => None,
        }
    }
}

} // verus!

use vstd::prelude::*;

use crate::instr::Instr;

verus! {

/// Bytes in one memory word; every store and load moves one aligned word.
pub const WORD_BYTES: u32 = 4;

/// Alignment of a word as a power of two.
pub const ALIGN: u32 = 2;

/// Pages the linear memory starts with.
pub const MEMORY_PAGES: u32 = 10;

/// Pages the linear memory may grow to.
pub const MEMORY_MAX_PAGES: u32 = 100;

/// Bytes addressable without growing the memory: `MEMORY_PAGES` pages of 64 KiB.
pub const MEMORY_BYTES: u32 = 655360;

/// A word to be written to memory: the content of a local slot, or a constant.
#[derive(Clone, Copy, Debug, PartialEq, Eq, Structural)]
pub enum MemoryValue {
    Local(u32),
    Const(i32),
}

/// The instruction that pushes a memory value.
pub open spec fn push_value(v: MemoryValue) -> Instr {
    match v {
        MemoryValue::Local(l) => Instr::LocalGet(l),
        MemoryValue::Const(n) => Instr::Const(n),
    }
}

/// Code that writes `vals` to consecutive words from byte offset `start`.
pub open spec fn store_code(start: int, vals: Seq<MemoryValue>) -> Seq<Instr>
    decreases vals.len(),
{
    if vals.len() == 0 {
        seq![]
    } else {
        let n = vals.len() - 1;
        store_code(start, vals.subrange(0, n)) + seq![
            Instr::Const((start + 4 * n) as i32),
            push_value(vals[n]),
            Instr::Store,
        ]
    }
}

/// Code that copies `n` words from byte offset `src` to byte offset `dst`,
/// one word at a time, with no loop at run time.
pub open spec fn copy_code(dst: int, src: int, n: nat) -> Seq<Instr>
    decreases n,
{
    if n == 0 {
        seq![]
    } else {
        let k = n - 1;
        copy_code(dst, src, k as nat) + seq![
            Instr::Const((dst + 4 * k) as i32),
            Instr::Const((src + 4 * k) as i32),
            Instr::Load,
            Instr::Store,
        ]
    }
}

/// The one linear memory of a compiled module, with a bump cursor that marks
/// the first byte past everything allocated so far.
pub struct Memory {
    id: u32,
    last_offset: u32,
}

impl Memory {
    pub closed spec fn memory_id(&self) -> u32 {
        self.id
    }

    pub closed spec fn cursor(&self) -> nat {
        self.last_offset as nat
    }

    /// Where a store begins: at `offset` if one is given, else at the cursor.
    pub open spec fn start_of(&self, offset: Option<u32>) -> nat {
        match offset {
            Some(o) => o as nat,
            None => self.cursor(),
        }
    }

    pub fn new(id: u32) -> (r: Memory)
        ensures
            r.memory_id() == id,
            r.cursor() == 0,
    {
        Memory { id, last_offset: 0 }
    }

    pub fn id(&self) -> (r: u32)
        ensures
            r == self.memory_id(),
    {
        self.id
    }

    pub fn cursor_offset(&self) -> (r: u32)
        ensures
            r == self.cursor(),
    {
        self.last_offset
    }

    /// Emits code that writes `values` as consecutive words, from `offset` or
    /// else from the cursor, and moves the cursor past them. Returns the
    /// memory's id and the starting offset.
    pub fn store(&mut self, code: &mut Vec<Instr>, offset: Option<u32>, values: &Vec<MemoryValue>) -> (r: (
        u32,
        u32,
    ))
        requires
            old(self).start_of(offset) + 4 * values@.len() <= MEMORY_BYTES,
        ensures
            r.0 == old(self).memory_id(),
            r.1 == old(self).start_of(offset),
            final(self).memory_id() == old(self).memory_id(),
            final(code)@ == old(code)@ + store_code(r.1 as int, values@),
            offset is None ==> final(self).cursor() == old(self).cursor() + 4 * values@.len(),
            final(self).cursor() == if old(self).cursor() >= r.1 + 4 * values@.len() {
                old(self).cursor()
            } else {
                (r.1 + 4 * values@.len()) as nat
            },
    {
        let start: u32 = match offset {
            Some(o) => o,
            None => self.last_offset,
        };
        let mut at: u32 = start;
        let n = values.len();
        let mut i: usize = 0;
        while i < n
            invariant
                n == values@.len(),
                i <= n,
                start + 4 * n <= MEMORY_BYTES,
                at == start + 4 * i,
                code@ == old(code)@ + store_code(start as int, values@.subrange(0, i as int)),
            decreases n - i,
        {
            let ghost before = code@;
            code.push(Instr::Const(at as i32));
            match values[i] {
                MemoryValue::Local(l) => code.push(Instr::LocalGet(l)),
                MemoryValue::Const(c) => code.push(Instr::Const(c)),
            }
            code.push(Instr::Store);
            proof {
                let s = values@.subrange(0, i + 1);
                assert(s.subrange(0, i as int) =~= values@.subrange(0, i as int));
                assert(code@ =~= before + seq![
                    Instr::Const((start + 4 * i) as i32),
                    push_value(s[i as int]),
                    Instr::Store,
                ]);
            }
            at = at + WORD_BYTES;
            i = i + 1;
        }
        assert(values@.subrange(0, n as int) =~= values@);
        if self.last_offset < at {
            self.last_offset = at;
        }
        (self.id, start)
    }

    /// Emits code that copies `length` words from `src` to `dst`.
    pub fn copy(&self, code: &mut Vec<Instr>, dst: u32, src: u32, length: u32)
        requires
            dst + 4 * length <= MEMORY_BYTES,
            src + 4 * length <= MEMORY_BYTES,
        ensures
            final(code)@ == old(code)@ + copy_code(dst as int, src as int, length as nat),
    {
        let mut i: u32 = 0;
        while i < length
            invariant
                i <= length,
                dst + 4 * length <= MEMORY_BYTES,
                src + 4 * length <= MEMORY_BYTES,
                code@ == old(code)@ + copy_code(dst as int, src as int, i as nat),
            decreases length - i,
        {
            let ghost before = code@;
            let d: u32 = dst + WORD_BYTES * i;
            let s: u32 = src + WORD_BYTES * i;
            code.push(Instr::Const(d as i32));
            code.push(Instr::Const(s as i32));
            code.push(Instr::Load);
            code.push(Instr::Store);
            assert(code@ =~= before + seq![
                Instr::Const((dst + 4 * i) as i32),
                Instr::Const((src + 4 * i) as i32),
                Instr::Load,
                Instr::Store,
            ]);
            i = i + 1;
        }
    }
}

} // verus!

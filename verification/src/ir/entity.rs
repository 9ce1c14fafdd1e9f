//! Handles into a function's arenas.
//!
//! Every entity is a `u32` index rather than a reference: the rustc shim needs
//! `Copy` handles carrying no lifetime, and a pass rewriting one instruction
//! while reading another borrows the arena, not the graph twice.
//!
//! How a handle renders is part of the dump format.

use vstd::prelude::*;

use crate::text::{decimal, push_decimal};

verus! {

/// A single definition — an instruction result or a block parameter. A value's index is its frame slot: the arena is the slot map.
#[derive(Debug, Clone, Copy, PartialEq, Eq, Structural, PartialOrd, Ord, Hash)]
pub struct Value(pub u32);

impl Value {
    /// The handle at arena position `index`. An index past `u32::MAX` wraps,
    /// as the arena's `u32` handles do.
    pub fn new(index: usize) -> (r: Value)
        ensures
            r.0 == index as u32,
    {
        Value(index as u32)
    }

    /// Position in the arena that defined it.
    pub fn index(self) -> (r: usize)
        ensures
            r == self.0,
    {
        self.0 as usize
    }

    /// How the handle reads in a dump: `v` and the index.
    pub open spec fn text(self) -> Seq<char> {
        "v"@ + decimal(self.0 as nat)
    }

    pub fn to_string(&self) -> (r: String)
        ensures
            r@ == self.text(),
    {
        let mut s = String::new();
        s.append("v");
        push_decimal(&mut s, self.0 as u64);
        s
    }
}

/// One instruction in a function's arena. Terminators are not instructions and have no `Inst`.
#[derive(Debug, Clone, Copy, PartialEq, Eq, Structural, PartialOrd, Ord, Hash)]
pub struct Inst(pub u32);

impl Inst {
    /// The handle at arena position `index`. An index past `u32::MAX` wraps,
    /// as the arena's `u32` handles do.
    pub fn new(index: usize) -> (r: Inst)
        ensures
            r.0 == index as u32,
    {
        Inst(index as u32)
    }

    /// Position in the arena that defined it.
    pub fn index(self) -> (r: usize)
        ensures
            r == self.0,
    {
        self.0 as usize
    }

    /// How the handle reads in a dump: `i` and the index.
    pub open spec fn text(self) -> Seq<char> {
        "i"@ + decimal(self.0 as nat)
    }

    pub fn to_string(&self) -> (r: String)
        ensures
            r@ == self.text(),
    {
        let mut s = String::new();
        s.append("i");
        push_decimal(&mut s, self.0 as u64);
        s
    }
}

/// A basic block: parameters, straight-line instructions, one terminator.
#[derive(Debug, Clone, Copy, PartialEq, Eq, Structural, PartialOrd, Ord, Hash)]
pub struct Block(pub u32);

impl Block {
    /// The handle at arena position `index`. An index past `u32::MAX` wraps,
    /// as the arena's `u32` handles do.
    pub fn new(index: usize) -> (r: Block)
        ensures
            r.0 == index as u32,
    {
        Block(index as u32)
    }

    /// Position in the arena that defined it.
    pub fn index(self) -> (r: usize)
        ensures
            r == self.0,
    {
        self.0 as usize
    }

    /// How the handle reads in a dump: `block` and the index.
    pub open spec fn text(self) -> Seq<char> {
        "block"@ + decimal(self.0 as nat)
    }

    pub fn to_string(&self) -> (r: String)
        ensures
            r@ == self.text(),
    {
        let mut s = String::new();
        s.append("block");
        push_decimal(&mut s, self.0 as u64);
        s
    }
}

/// A function within a module. May be declared before it is defined, so a call site can name a callee whose body does not exist yet.
#[derive(Debug, Clone, Copy, PartialEq, Eq, Structural, PartialOrd, Ord, Hash)]
pub struct Func(pub u32);

impl Func {
    /// The handle at arena position `index`. An index past `u32::MAX` wraps,
    /// as the arena's `u32` handles do.
    pub fn new(index: usize) -> (r: Func)
        ensures
            r.0 == index as u32,
    {
        Func(index as u32)
    }

    /// Position in the arena that defined it.
    pub fn index(self) -> (r: usize)
        ensures
            r == self.0,
    {
        self.0 as usize
    }

    /// How the handle reads in a dump: `@f` and the index.
    pub open spec fn text(self) -> Seq<char> {
        "@f"@ + decimal(self.0 as nat)
    }

    pub fn to_string(&self) -> (r: String)
        ensures
            r@ == self.text(),
    {
        let mut s = String::new();
        s.append("@f");
        push_decimal(&mut s, self.0 as u64);
        s
    }
}

} // verus!

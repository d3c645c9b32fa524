//! The symbol / debug-information provider, modelled as data.
//!
//! The debugger consults a provider that maps program addresses to function
//! names and source lines and back. Here the provider is a plain table of
//! address ranges, so every lookup is verified: each query returns the
//! first entry whose range contains the address (or carries the name or
//! line asked for).

use vstd::prelude::*;

verus! {

/// One function: its name and the half-open address range `[low, high)` it
/// covers.
pub struct FuncSym {
    pub name: String,
    pub low: u64,
    pub high: u64,
}

/// One source line: its number and the half-open address range `[low,
/// high)` of the code compiled from it.
pub struct LineSym {
    pub line: u64,
    pub low: u64,
    pub high: u64,
}

/// The symbol table: function and line entries, queried in order.
pub struct SymbolTable {
    pub functions: Vec<FuncSym>,
    pub lines: Vec<LineSym>,
}

/// The name of the first function entry whose range contains `addr`.
pub open spec fn spec_function_at(fs: Seq<FuncSym>, addr: u64) -> Option<Seq<char>>
    decreases fs.len(),
{
    if fs.len() == 0 {
        None
    } else if fs[0].low <= addr && addr < fs[0].high {
        Some(fs[0].name@)
    } else {
        spec_function_at(fs.drop_first(), addr)
    }
}

/// The number of the first line entry whose range contains `addr`.
pub open spec fn spec_line_at(ls: Seq<LineSym>, addr: u64) -> Option<u64>
    decreases ls.len(),
{
    if ls.len() == 0 {
        None
    } else if ls[0].low <= addr && addr < ls[0].high {
        Some(ls[0].line)
    } else {
        spec_line_at(ls.drop_first(), addr)
    }
}

/// The low address of the first function entry with this name.
pub open spec fn spec_function_addr(fs: Seq<FuncSym>, name: Seq<char>) -> Option<u64>
    decreases fs.len(),
{
    if fs.len() == 0 {
        None
    } else if fs[0].name@ == name {
        Some(fs[0].low)
    } else {
        spec_function_addr(fs.drop_first(), name)
    }
}

/// The low address of the first line entry with this number.
pub open spec fn spec_line_addr(ls: Seq<LineSym>, line: u64) -> Option<u64>
    decreases ls.len(),
{
    if ls.len() == 0 {
        None
    } else if ls[0].line == line {
        Some(ls[0].low)
    } else {
        spec_line_addr(ls.drop_first(), line)
    }
}

impl SymbolTable {
    /// An empty table.
    pub fn new() -> (r: SymbolTable)
        ensures
            r.functions@ =~= Seq::<FuncSym>::empty(),
            r.lines@ =~= Seq::<LineSym>::empty(),
    {
        SymbolTable { functions: Vec::new(), lines: Vec::new() }
    }

    /// Records that the function `name` covers `[low, high)`.
    pub fn add_function(&mut self, name: String, low: u64, high: u64)
        ensures
            final(self).functions@ == old(self).functions@.push(
                FuncSym { name, low, high },
            ),
            final(self).lines@ == old(self).lines@,
    {
        self.functions.push(FuncSym { name, low, high });
    }

    /// Records that source line `line` covers `[low, high)`.
    pub fn add_line(&mut self, line: u64, low: u64, high: u64)
        ensures
            final(self).lines@ == old(self).lines@.push(LineSym { line, low, high }),
            final(self).functions@ == old(self).functions@,
    {
        self.lines.push(LineSym { line, low, high });
    }

    /// The name of the function containing `addr`, if the table knows one.
    pub fn get_function_from_addr(&self, addr: u64) -> (r: Option<String>)
        ensures
            match r {
                Some(name) => spec_function_at(self.functions@, addr) == Some(name@),
                None => spec_function_at(self.functions@, addr) is None,
            },
    {
        proof {
            assert(self.functions@.skip(0) =~= self.functions@);
        }
        let mut i: usize = 0;
        while i < self.functions.len()
            invariant
                i <= self.functions@.len(),
                spec_function_at(self.functions@, addr) == spec_function_at(
                    self.functions@.skip(i as int),
                    addr,
                ),
            decreases self.functions@.len() - i,
        {
            proof {
                assert(self.functions@.skip(i as int)[0] == self.functions@[i as int]);
                assert(self.functions@.skip(i as int).drop_first() =~= self.functions@.skip(
                    i + 1,
                ));
            }
            let f = &self.functions[i];
            if f.low <= addr && addr < f.high {
                return Some(f.name.clone());
            }
            i += 1;
        }
        None
    }

    /// The number of the source line containing `addr`, if known.
    pub fn get_line_from_addr(&self, addr: u64) -> (r: Option<u64>)
        ensures
            r == spec_line_at(self.lines@, addr),
    {
        proof {
            assert(self.lines@.skip(0) =~= self.lines@);
        }
        let mut i: usize = 0;
        while i < self.lines.len()
            invariant
                i <= self.lines@.len(),
                spec_line_at(self.lines@, addr) == spec_line_at(
                    self.lines@.skip(i as int),
                    addr,
                ),
            decreases self.lines@.len() - i,
        {
            proof {
                assert(self.lines@.skip(i as int)[0] == self.lines@[i as int]);
                assert(self.lines@.skip(i as int).drop_first() =~= self.lines@.skip(i + 1));
            }
            let l = &self.lines[i];
            if l.low <= addr && addr < l.high {
                return Some(l.line);
            }
            i += 1;
        }
        None
    }

    /// The address of the function named `name`, if the table knows it.
    pub fn get_addr_for_function(&self, name: &str) -> (r: Option<u64>)
        ensures
            r == spec_function_addr(self.functions@, name@),
    {
        let key = String::from_str(name);
        proof {
            assert(self.functions@.skip(0) =~= self.functions@);
        }
        let mut i: usize = 0;
        while i < self.functions.len()
            invariant
                key@ == name@,
                i <= self.functions@.len(),
                spec_function_addr(self.functions@, name@) == spec_function_addr(
                    self.functions@.skip(i as int),
                    name@,
                ),
            decreases self.functions@.len() - i,
        {
            proof {
                assert(self.functions@.skip(i as int)[0] == self.functions@[i as int]);
                assert(self.functions@.skip(i as int).drop_first() =~= self.functions@.skip(
                    i + 1,
                ));
            }
            let f = &self.functions[i];
            if f.name == key {
                return Some(f.low);
            }
            i += 1;
        }
        None
    }

    /// The address compiled from source line `line`, if the table knows it.
    pub fn get_addr_for_line(&self, line: u64) -> (r: Option<u64>)
        ensures
            r == spec_line_addr(self.lines@, line),
    {
        proof {
            assert(self.lines@.skip(0) =~= self.lines@);
        }
        let mut i: usize = 0;
        while i < self.lines.len()
            invariant
                i <= self.lines@.len(),
                spec_line_addr(self.lines@, line) == spec_line_addr(
                    self.lines@.skip(i as int),
                    line,
                ),
            decreases self.lines@.len() - i,
        {
            proof {
                assert(self.lines@.skip(i as int)[0] == self.lines@[i as int]);
                assert(self.lines@.skip(i as int).drop_first() =~= self.lines@.skip(i + 1));
            }
            let l = &self.lines[i];
            if l.line == line {
                return Some(l.low);
            }
            i += 1;
        }
        None
    }
}

} // verus!

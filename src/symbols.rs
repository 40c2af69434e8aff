use vstd::prelude::*;

verus! {

/// The kinds of symbol the assembler records.
#[derive(Debug, PartialEq, Eq, Clone, Copy, Structural)]
pub enum SymbolType {
    Label,
}

/// A named offset.
#[derive(Debug, PartialEq, Clone)]
pub struct Symbol {
    pub name: String,
    pub offset: u32,
    pub symbol_type: SymbolType,
}

/// Symbols in the order they were added.
#[derive(Debug, PartialEq, Clone)]
pub struct SymbolTable {
    pub symbols: Vec<Symbol>,
}

/// A symbol as its name and offset.
pub type SymbolView = (Seq<char>, u32);

impl View for Symbol {
    type V = SymbolView;

    open spec fn view(&self) -> SymbolView {
        (self.name@, self.offset)
    }
}

impl View for SymbolTable {
    type V = Seq<SymbolView>;

    open spec fn view(&self) -> Seq<SymbolView> {
        self.symbols@.map_values(|s: Symbol| s@)
    }
}

/// The index of the first symbol at or after `i` named `name`, or the length.
pub open spec fn find_symbol(t: Seq<SymbolView>, name: Seq<char>, i: int) -> int
    decreases t.len() - i,
{
    if i < 0 || i >= t.len() {
        t.len() as int
    } else if t[i].0 == name {
        i
    } else {
        find_symbol(t, name, i + 1)
    }
}

/// The offset of the first symbol named `name`, if there is one.
pub open spec fn symbol_lookup(t: Seq<SymbolView>, name: Seq<char>) -> Option<u32> {
    let k = find_symbol(t, name, 0);
    if k < t.len() {
        Some(t[k].1)
    } else {
        None
    }
}

/// The table with the first symbol named `name`, if any, moved to `offset`.
pub open spec fn symbol_table_with_offset(t: Seq<SymbolView>, name: Seq<char>, offset: u32) -> Seq<
    SymbolView,
> {
    let k = find_symbol(t, name, 0);
    if k < t.len() {
        t.update(k, (t[k].0, offset))
    } else {
        t
    }
}

proof fn lemma_find_symbol_bounds(t: Seq<SymbolView>, name: Seq<char>, i: int)
    requires
        0 <= i <= t.len(),
    ensures
        i <= find_symbol(t, name, i) <= t.len(),
        find_symbol(t, name, i) < t.len() ==> t[find_symbol(t, name, i)].0 == name,
        forall|j: int| i <= j < find_symbol(t, name, i) ==> t[j].0 != name,
    decreases t.len() - i,
{
    if i < t.len() && t[i].0 != name {
        lemma_find_symbol_bounds(t, name, i + 1);
    }
}

impl Symbol {
    pub fn new(name: String, symbol_type: SymbolType, offset: u32) -> (r: Symbol)
        ensures
            r.name@ == name@,
            r.offset == offset,
            r.symbol_type == symbol_type,
    {
        Symbol { name, symbol_type, offset }
    }
}

impl SymbolTable {
    pub fn new() -> (r: SymbolTable)
        ensures
            r@ == Seq::<SymbolView>::empty(),
    {
        SymbolTable { symbols: Vec::new() }
    }

    /// The index of the first symbol named `name`, or the table's length.
    fn position(&self, name: &str) -> (r: usize)
        ensures
            r == find_symbol(self@, name@, 0),
    {
        let key = name.to_owned();
        let mut i: usize = 0;
        while i < self.symbols.len()
            invariant
                key@ == name@,
                i <= self.symbols@.len(),
                find_symbol(self@, name@, 0) == find_symbol(self@, name@, i as int),
            decreases self.symbols@.len() - i,
        {
            if self.symbols[i].name == key {
                return i;
            }
            i = i + 1;
        }
        i
    }

    /// Whether a symbol named `name` is in the table.
    pub fn has_symbol(&self, name: &str) -> (r: bool)
        ensures
            r == symbol_lookup(self@, name@).is_some(),
    {
        self.position(name) < self.symbols.len()
    }

    /// Adds a symbol after those already there.
    pub fn add_symbol(&mut self, s: Symbol)
        ensures
            final(self)@ == old(self)@.push(s@),
    {
        self.symbols.push(s);
        proof {
            assert(self@ =~= old(self)@.push(s@));
        }
    }

    /// The offset of the first symbol named `s`.
    pub fn symbol_value(&self, s: &str) -> (r: Option<u32>)
        ensures
            r == symbol_lookup(self@, s@),
    {
        let k = self.position(s);
        if k < self.symbols.len() {
            Some(self.symbols[k].offset)
        } else {
            None
        }
    }

    /// Moves the first symbol named `s` to `offset`; returns whether there was one.
    pub fn set_symbol_offset(&mut self, s: &str, offset: u32) -> (r: bool)
        ensures
            r == symbol_lookup(old(self)@, s@).is_some(),
            final(self)@ == symbol_table_with_offset(old(self)@, s@, offset),
    {
        let k = self.position(s);
        if k < self.symbols.len() {
            self.symbols[k].offset = offset;
            proof {
                assert(self@ =~= symbol_table_with_offset(old(self)@, s@, offset));
            }
            true
        } else {
            false
        }
    }
}

/// A symbol added under a new name reads back its offset; after its offset
/// is set, it reads back the new one; and a symbol added or moved under
/// another name leaves it as it was.
pub proof fn lemma_symbol_value_law(
    t: Seq<SymbolView>,
    s: SymbolView,
    other: SymbolView,
    name: Seq<char>,
    k: u32,
)
    requires
        symbol_lookup(t, s.0).is_none(),
        other.0 != s.0,
        name != s.0,
    ensures
        symbol_lookup(t.push(s), s.0) == Some(s.1),
        symbol_lookup(symbol_table_with_offset(t.push(s), s.0, k), s.0) == Some(k),
        symbol_lookup(t.push(s).push(other), s.0) == Some(s.1),
        symbol_lookup(symbol_table_with_offset(t.push(s), name, k), s.0) == Some(s.1),
{
    let u = t.push(s);
    lemma_find_symbol_bounds(t, s.0, 0);
    assert(u[t.len() as int] == s);
    lemma_find_symbol_bounds(u, s.0, 0);
    assert(find_symbol(u, s.0, 0) == t.len()) by {
        if find_symbol(u, s.0, 0) < t.len() {
            assert(u[find_symbol(u, s.0, 0)] == t[find_symbol(u, s.0, 0)]);
        }
    }
    let w = u.push(other);
    lemma_find_symbol_bounds(w, s.0, 0);
    assert(w[t.len() as int] == s);
    assert(find_symbol(w, s.0, 0) == t.len()) by {
        let j = find_symbol(w, s.0, 0);
        if j < t.len() {
            assert(w[j] == t[j]);
        }
    }
    let v = symbol_table_with_offset(u, s.0, k);
    lemma_find_symbol_bounds(v, s.0, 0);
    assert(v[t.len() as int].0 == s.0);
    assert(find_symbol(v, s.0, 0) == t.len()) by {
        let j = find_symbol(v, s.0, 0);
        if j < t.len() {
            assert(v[j] == t[j]);
        }
    }
    let x = symbol_table_with_offset(u, name, k);
    lemma_find_symbol_bounds(u, name, 0);
    lemma_find_symbol_bounds(x, s.0, 0);
    assert(x.len() == u.len());
    assert(x[t.len() as int].0 == s.0);
    assert(find_symbol(x, s.0, 0) == t.len()) by {
        let j = find_symbol(x, s.0, 0);
        if j < t.len() {
            assert(x[j].0 == t[j].0);
        }
    }
}

} // verus!

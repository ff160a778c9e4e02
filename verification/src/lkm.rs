//! The loadable-kernel-module manager: symbols the kernel offers to
//! modules, the modules loaded, and the lookup of a symbol by name.
use vstd::prelude::*;
use crate::elf::{ElfSymbol, ElfSymbolView};

verus! {

/// A named symbol and its address.
pub struct ModuleSymbol {
    pub name: String,
    pub loc: usize,
}

impl ModuleSymbol {
    /// The symbol `symbol_name` at `symbol_loc`.
    pub fn create_symbol(symbol_name: &str, symbol_loc: usize) -> (r: Self)
        ensures
            r.name@ == symbol_name@,
            r.loc == symbol_loc,
    {
        ModuleSymbol { name: String::from_str(symbol_name), loc: symbol_loc }
    }
}

/// Life-cycle state of a loaded module.
#[derive(Clone, Copy, PartialEq, Eq, Structural)]
pub enum ModuleState {
    Ready,
    PrepareUnload,
    Unloading,
}

/// A reference to a loaded module.
pub struct ModuleRef;

/// A module in memory: its name, the symbols it exports, how many modules
/// depend on it, how many references to it are held (the module's own
/// included), the address range it occupies, and its state.
pub struct LoadedModule {
    pub name: String,
    pub exported_symbols: Vec<ModuleSymbol>,
    pub used_counts: i32,
    pub using_counts: usize,
    pub vspace: (usize, usize),
    pub state: ModuleState,
}

impl LoadedModule {
    /// Takes a reference to the module.
    pub fn grab(&mut self) -> (r: ModuleRef)
        requires
            old(self).using_counts < usize::MAX,
        ensures
            final(self).using_counts == old(self).using_counts + 1,
            final(self).name == old(self).name,
            final(self).exported_symbols == old(self).exported_symbols,
            final(self).used_counts == old(self).used_counts,
            final(self).vspace == old(self).vspace,
            final(self).state == old(self).state,
    {
        self.using_counts = self.using_counts + 1;
        ModuleRef
    }
}

/// A symbol the kernel offers to modules, under a lookup key.
pub struct StubSymbol {
    pub key: String,
    pub symbol: ModuleSymbol,
}

/// Address of the first stub whose key is `key`.
pub open spec fn stub_lookup(stubs: Seq<StubSymbol>, key: Seq<char>) -> Option<usize>
    decreases stubs.len(),
{
    if stubs.len() == 0 {
        None
    } else if stubs[0].key@ == key {
        Some(stubs[0].symbol.loc)
    } else {
        stub_lookup(stubs.drop_first(), key)
    }
}

/// Address of the first symbol named `name`.
pub open spec fn sym_lookup(syms: Seq<ModuleSymbol>, name: Seq<char>) -> Option<usize>
    decreases syms.len(),
{
    if syms.len() == 0 {
        None
    } else if syms[0].name@ == name {
        Some(syms[0].loc)
    } else {
        sym_lookup(syms.drop_first(), name)
    }
}

/// Address of `name` among the symbols the modules export, the most
/// recently loaded module first.
pub open spec fn module_lookup(mods: Seq<LoadedModule>, name: Seq<char>) -> Option<usize>
    decreases mods.len(),
{
    if mods.len() == 0 {
        None
    } else {
        match sym_lookup(mods.last().exported_symbols@, name) {
            Some(l) => Some(l),
            None => module_lookup(mods.drop_last(), name),
        }
    }
}

/// Address that a symbol named `name` resolves to: a kernel stub first,
/// then the exports of the modules, newest first.
pub open spec fn resolve_spec(stubs: Seq<StubSymbol>, mods: Seq<LoadedModule>, name: Seq<char>) -> Option<
    usize,
> {
    match stub_lookup(stubs, name) {
        Some(l) => Some(l),
        None => module_lookup(mods, name),
    }
}

proof fn lemma_stub_lookup_prefix(stubs: Seq<StubSymbol>, key: Seq<char>, i: int)
    requires
        0 <= i < stubs.len(),
        forall|k: int| 0 <= k < i ==> stubs[k].key@ != key,
    ensures
        stub_lookup(stubs, key) == stub_lookup(stubs.subrange(i, stubs.len() as int), key),
    decreases i,
{
    if i > 0 {
        lemma_stub_lookup_prefix(stubs.drop_first(), key, i - 1);
        assert(stubs.drop_first().subrange(i - 1, stubs.len() - 1) =~= stubs.subrange(
            i,
            stubs.len() as int,
        ));
    } else {
        assert(stubs.subrange(0, stubs.len() as int) =~= stubs);
    }
}

proof fn lemma_stub_lookup_none(stubs: Seq<StubSymbol>, key: Seq<char>)
    requires
        forall|k: int| 0 <= k < stubs.len() ==> stubs[k].key@ != key,
    ensures
        stub_lookup(stubs, key) is None,
    decreases stubs.len(),
{
    if stubs.len() > 0 {
        lemma_stub_lookup_none(stubs.drop_first(), key);
    }
}

proof fn lemma_sym_lookup_prefix(syms: Seq<ModuleSymbol>, name: Seq<char>, i: int)
    requires
        0 <= i < syms.len(),
        forall|k: int| 0 <= k < i ==> syms[k].name@ != name,
    ensures
        sym_lookup(syms, name) == sym_lookup(syms.subrange(i, syms.len() as int), name),
    decreases i,
{
    if i > 0 {
        lemma_sym_lookup_prefix(syms.drop_first(), name, i - 1);
        assert(syms.drop_first().subrange(i - 1, syms.len() - 1) =~= syms.subrange(
            i,
            syms.len() as int,
        ));
    } else {
        assert(syms.subrange(0, syms.len() as int) =~= syms);
    }
}

proof fn lemma_sym_lookup_none(syms: Seq<ModuleSymbol>, name: Seq<char>)
    requires
        forall|k: int| 0 <= k < syms.len() ==> syms[k].name@ != name,
    ensures
        sym_lookup(syms, name) is None,
    decreases syms.len(),
{
    if syms.len() > 0 {
        lemma_sym_lookup_none(syms.drop_first(), name);
    }
}

/// Looks `name` up among `syms`, first match first.
fn find_in_symbols(syms: &Vec<ModuleSymbol>, name: &String) -> (r: Option<usize>)
    ensures
        r == sym_lookup(syms@, name@),
{
    let mut i: usize = 0;
    while i < syms.len()
        invariant
            i <= syms@.len(),
            forall|k: int| 0 <= k < i ==> syms@[k].name@ != name@,
        decreases syms@.len() - i,
    {
        if syms[i].name == *name {
            proof {
                lemma_sym_lookup_prefix(syms@, name@, i as int);
            }
            return Some(syms[i].loc);
        }
        i = i + 1;
    }
    proof {
        lemma_sym_lookup_none(syms@, name@);
    }
    None
}

/// The module manager: the kernel's stubs and the loaded modules, oldest
/// first.
pub struct ModuleManager {
    stub_symbols: Vec<StubSymbol>,
    loaded_modules: Vec<LoadedModule>,
}

impl ModuleManager {
    /// The kernel's stubs.
    pub closed spec fn stubs(&self) -> Seq<StubSymbol> {
        self.stub_symbols@
    }

    /// The loaded modules, oldest first.
    pub closed spec fn modules(&self) -> Seq<LoadedModule> {
        self.loaded_modules@
    }

    /// A manager with no stub and no module.
    pub fn new() -> (r: Self)
        ensures
            r.stubs() == Seq::<StubSymbol>::empty(),
            r.modules() == Seq::<LoadedModule>::empty(),
    {
        ModuleManager { stub_symbols: Vec::new(), loaded_modules: Vec::new() }
    }

    /// Offers `symbol` to modules under `key`, in place of what `key`
    /// offered before.
    pub fn insert_stub(&mut self, key: &str, symbol: ModuleSymbol)
        ensures
            final(self).modules() == old(self).modules(),
            forall|k: Seq<char>|
                stub_lookup(final(self).stubs(), k) == if k == key@ {
                    Some(symbol.loc)
                } else {
                    stub_lookup(old(self).stubs(), k)
                },
    {
        let key_s = String::from_str(key);
        let ghost old_stubs = self.stub_symbols@;
        let mut i: usize = 0;
        while i < self.stub_symbols.len()
            invariant
                i <= self.stub_symbols@.len(),
                self.stub_symbols@ == old_stubs,
                self.loaded_modules@ == old(self).loaded_modules@,
                old_stubs == old(self).stub_symbols@,
                key_s@ == key@,
                forall|k: int| 0 <= k < i ==> self.stub_symbols@[k].key@ != key@,
            decreases self.stub_symbols@.len() - i,
        {
            if self.stub_symbols[i].key == key_s {
                let ghost before = self.stub_symbols@;
                let entry = StubSymbol { key: key_s, symbol };
                self.stub_symbols.set(i, entry);
                proof {
                    let after = self.stub_symbols@;
                    assert forall|k: Seq<char>|
                        stub_lookup(after, k) == if k == key@ {
                            Some(symbol.loc)
                        } else {
                            stub_lookup(before, k)
                        } by {
                        lemma_stub_lookup_update(before, i as int, after, k, key@);
                    }
                }
                return;
            }
            i = i + 1;
        }
        let entry = StubSymbol { key: key_s, symbol };
        self.stub_symbols.push(entry);
        proof {
            let after = self.stub_symbols@;
            assert forall|k: Seq<char>|
                stub_lookup(after, k) == if k == key@ {
                    Some(symbol.loc)
                } else {
                    stub_lookup(old_stubs, k)
                } by {
                lemma_stub_lookup_push(old_stubs, after, k, key@);
            }
        }
    }

    /// Address of symbol `symbol`: a kernel stub first, then the exports of
    /// the modules, newest first.
    pub fn resolve_symbol(&self, symbol: &str) -> (r: Option<usize>)
        ensures
            r == resolve_spec(self.stubs(), self.modules(), symbol@),
    {
        self.find_symbol_in_deps(symbol, 0)
    }

    /// Address of symbol `symbol` as seen from module `this_module`, which
    /// sees every stub and every loaded module.
    pub fn find_symbol_in_deps(&self, symbol: &str, this_module: usize) -> (r: Option<usize>)
        ensures
            r == resolve_spec(self.stubs(), self.modules(), symbol@),
    {
        let name = String::from_str(symbol);
        let mut i: usize = 0;
        while i < self.stub_symbols.len()
            invariant
                i <= self.stub_symbols@.len(),
                name@ == symbol@,
                forall|k: int| 0 <= k < i ==> self.stub_symbols@[k].key@ != symbol@,
            decreases self.stub_symbols@.len() - i,
        {
            if self.stub_symbols[i].key == name {
                proof {
                    lemma_stub_lookup_prefix(self.stub_symbols@, symbol@, i as int);
                }
                return Some(self.stub_symbols[i].symbol.loc);
            }
            i = i + 1;
        }
        proof {
            lemma_stub_lookup_none(self.stub_symbols@, symbol@);
        }
        let mut j: usize = self.loaded_modules.len();
        proof {
            assert(self.loaded_modules@.subrange(0, j as int) =~= self.loaded_modules@);
        }
        while j > 0
            invariant
                j <= self.loaded_modules@.len(),
                name@ == symbol@,
                stub_lookup(self.stub_symbols@, symbol@) is None,
                module_lookup(self.loaded_modules@, symbol@) == module_lookup(
                    self.loaded_modules@.subrange(0, j as int),
                    symbol@,
                ),
            decreases j,
        {
            let ghost prefix = self.loaded_modules@.subrange(0, j as int);
            proof {
                assert(prefix.drop_last() =~= self.loaded_modules@.subrange(0, j - 1));
            }
            match find_in_symbols(&self.loaded_modules[j - 1].exported_symbols, &name) {
                Some(loc) => {
                    return Some(loc);
                },
                None => {},
            }
            j = j - 1;
        }
        proof {
            assert(self.loaded_modules@.subrange(0, 0) =~= Seq::<LoadedModule>::empty());
        }
        None
    }

    /// Whether a module named `module_name` is loaded.
    pub fn is_loaded(&self, module_name: &str) -> (r: bool)
        ensures
            r == exists|i: int| 0 <= i < self.modules().len() && self.modules()[i].name@ == module_name@,
    {
        let name = String::from_str(module_name);
        let mut i: usize = 0;
        while i < self.loaded_modules.len()
            invariant
                i <= self.loaded_modules@.len(),
                name@ == module_name@,
                forall|k: int| 0 <= k < i ==> self.loaded_modules@[k].name@ != module_name@,
            decreases self.loaded_modules@.len() - i,
        {
            if self.loaded_modules[i].name == name {
                return true;
            }
            i = i + 1;
        }
        false
    }

    /// Adds a loaded module, newest last.
    pub fn push_module(&mut self, module: LoadedModule)
        ensures
            final(self).stubs() == old(self).stubs(),
            final(self).modules() == old(self).modules().push(module),
    {
        self.loaded_modules.push(module);
    }

    /// Unloading a module: refused when no module named `name` is loaded,
    /// when other modules depend on it, or when references to it are held;
    /// a loaded module always holds a reference to itself, so every request
    /// is refused and nothing changes.
    pub fn delete_module(&mut self, name: &str, _flags: u32) -> (r: Result<(), ()>)
        requires
            forall|i: int|
                0 <= i < old(self).modules().len() ==> (#[trigger] old(self).modules()[i]).using_counts
                    >= 1,
        ensures
            r is Err,
            final(self).stubs() == old(self).stubs(),
            final(self).modules() == old(self).modules(),
    {
        let name_s = String::from_str(name);
        let mut i: usize = 0;
        proof {
            assert forall|k: int| 0 <= k < self.loaded_modules@.len() implies (#[trigger] self.loaded_modules@[k]).using_counts >= 1 by {
                assert(old(self).modules()[k] == self.loaded_modules@[k]);
            }
        }
        while i < self.loaded_modules.len()
            invariant
                i <= self.loaded_modules@.len(),
                forall|k: int|
                    0 <= k < self.loaded_modules@.len() ==> (#[trigger] self.loaded_modules@[k]).using_counts >= 1,
            decreases self.loaded_modules@.len() - i,
        {
            if self.loaded_modules[i].name == name_s {
                if self.loaded_modules[i].used_counts > 0 {
                    return Err(());
                }
                if self.loaded_modules[i].using_counts > 0 {
                    return Err(());
                }
            }
            i = i + 1;
        }
        Err(())
    }
}

proof fn lemma_stub_lookup_update(
    before: Seq<StubSymbol>,
    i: int,
    after: Seq<StubSymbol>,
    k: Seq<char>,
    key: Seq<char>,
)
    requires
        0 <= i < before.len(),
        after.len() == before.len(),
        forall|j: int| 0 <= j < before.len() && j != i ==> after[j] == before[j],
        after[i].key@ == key,
        before[i].key@ == key,
        forall|j: int| 0 <= j < i ==> before[j].key@ != key,
    ensures
        stub_lookup(after, k) == if k == key {
            Some(after[i].symbol.loc)
        } else {
            stub_lookup(before, k)
        },
    decreases i,
{
    if i > 0 {
        assert(after[0] == before[0]);
        if before[0].key@ == k {
        } else {
            lemma_stub_lookup_update(before.drop_first(), i - 1, after.drop_first(), k, key);
        }
    } else {
        assert(after.drop_first() =~= before.drop_first());
    }
}

proof fn lemma_stub_lookup_push(before: Seq<StubSymbol>, after: Seq<StubSymbol>, k: Seq<char>, key: Seq<char>)
    requires
        after.len() == before.len() + 1,
        forall|j: int| 0 <= j < before.len() ==> after[j] == before[j],
        after[before.len() as int].key@ == key,
        forall|j: int| 0 <= j < before.len() ==> before[j].key@ != key,
    ensures
        stub_lookup(after, k) == if k == key {
            Some(after[before.len() as int].symbol.loc)
        } else {
            stub_lookup(before, k)
        },
    decreases before.len(),
{
    if before.len() > 0 {
        assert(after[0] == before[0]);
        if before[0].key@ == k {
        } else {
            lemma_stub_lookup_push(before.drop_first(), after.drop_first(), k, key);
        }
    } else {
        assert(after.drop_first().len() == 0);
        assert(stub_lookup(after.drop_first(), k) is None);
    }
}

/// Value of the last symbol named `name` among the first `n` of `syms`, 0
/// when none is.
pub open spec fn symbol_addr_spec(syms: Seq<ElfSymbolView>, name: Seq<char>, n: int) -> usize
    decreases n,
{
    if n <= 0 {
        0
    } else if syms[n - 1].name == Some(name) {
        syms[n - 1].value as usize
    } else {
        symbol_addr_spec(syms, name, n - 1)
    }
}

/// Every symbol of `syms` has a readable name.
pub open spec fn names_readable(syms: Seq<ElfSymbolView>) -> bool {
    forall|i: int| 0 <= i < syms.len() ==> (#[trigger] syms[i]).name is Some
}

/// Value of the last symbol named `symbol_name` in the symbol table
/// `symtab`, 0 when none is.
pub fn get_symbol_addr(symtab: &Vec<ElfSymbol>, symbol_name: &str) -> (r: usize)
    requires
        names_readable(symtab@.map_values(|s: ElfSymbol| s@)),
    ensures
        r == symbol_addr_spec(symtab@.map_values(|s: ElfSymbol| s@), symbol_name@, symtab@.len() as int),
{
    let ghost sv = symtab@.map_values(|s: ElfSymbol| s@);
    let name = String::from_str(symbol_name);
    let mut entry: usize = 0;
    let mut i: usize = 0;
    while i < symtab.len()
        invariant
            i <= symtab@.len(),
            sv == symtab@.map_values(|s: ElfSymbol| s@),
            names_readable(sv),
            name@ == symbol_name@,
            entry == symbol_addr_spec(sv, symbol_name@, i as int),
        decreases symtab@.len() - i,
    {
        proof {
            assert(sv[i as int] == symtab@[i as int]@);
            assert(sv[i as int].name is Some);
        }
        match &symtab[i].name {
            Some(n) => {
                if *n == name {
                    entry = symtab[i].value as usize;
                }
            },
            None => {},
        }
        i = i + 1;
    }
    entry
}

/// A stub offered under `key` for the symbol `name` at `loc`.
fn stub(key: &str, name: &str, loc: usize) -> (r: StubSymbol)
    ensures
        r.key@ == key@,
        r.symbol.name@ == name@,
        r.symbol.loc == loc,
{
    StubSymbol { key: String::from_str(key), symbol: ModuleSymbol::create_symbol(name, loc) }
}

/// The symbols the kernel offers to modules, at the given addresses of its
/// own functions: `put_str` (recorded under the name `put_char`), `alloc`,
/// `dealloc`, `main` and `executor_ptr`.
pub fn kernel_rt(put_str: usize, alloc_fn: usize, dealloc_fn: usize, main_fn: usize, executor_ptr: usize) -> (r: Vec<StubSymbol>)
    ensures
        r@.len() == 5,
        r@[0].key@ == "put_str"@ && r@[0].symbol.name@ == "put_char"@ && r@[0].symbol.loc == put_str,
        r@[1].key@ == "alloc"@ && r@[1].symbol.name@ == "alloc"@ && r@[1].symbol.loc == alloc_fn,
        r@[2].key@ == "dealloc"@ && r@[2].symbol.name@ == "dealloc"@ && r@[2].symbol.loc == dealloc_fn,
        r@[3].key@ == "main"@ && r@[3].symbol.name@ == "main"@ && r@[3].symbol.loc == main_fn,
        r@[4].key@ == "executor_ptr"@ && r@[4].symbol.name@ == "executor_ptr"@ && r@[4].symbol.loc
            == executor_ptr,
{
    let mut symbols: Vec<StubSymbol> = Vec::new();
    symbols.push(stub("put_str", "put_char", put_str));
    symbols.push(stub("alloc", "alloc", alloc_fn));
    symbols.push(stub("dealloc", "dealloc", dealloc_fn));
    symbols.push(stub("main", "main", main_fn));
    symbols.push(stub("executor_ptr", "executor_ptr", executor_ptr));
    symbols
}

/// The symbols a user program offers, read from its symbol table `symtab`:
/// `put_str`, `alloc`, `dealloc`, `main` and `executor_ptr`, each at the
/// address [`get_symbol_addr`] finds.
pub fn user_rt(symtab: &Vec<ElfSymbol>) -> (r: Vec<StubSymbol>)
    requires
        names_readable(symtab@.map_values(|s: ElfSymbol| s@)),
    ensures
        ({
            let sv = symtab@.map_values(|s: ElfSymbol| s@);
            let n = symtab@.len() as int;
            &&& r@.len() == 5
            &&& r@[0].key@ == "put_str"@ && r@[0].symbol.name@ == "put_str"@ && r@[0].symbol.loc
                == symbol_addr_spec(sv, "put_str"@, n)
            &&& r@[1].key@ == "alloc"@ && r@[1].symbol.name@ == "alloc"@ && r@[1].symbol.loc
                == symbol_addr_spec(sv, "alloc"@, n)
            &&& r@[2].key@ == "dealloc"@ && r@[2].symbol.name@ == "dealloc"@ && r@[2].symbol.loc
                == symbol_addr_spec(sv, "dealloc"@, n)
            &&& r@[3].key@ == "main"@ && r@[3].symbol.name@ == "main"@ && r@[3].symbol.loc
                == symbol_addr_spec(sv, "main"@, n)
            &&& r@[4].key@ == "executor_ptr"@ && r@[4].symbol.name@ == "executor_ptr"@
                && r@[4].symbol.loc == symbol_addr_spec(sv, "executor_ptr"@, n)
        }),
{
    let put_str_sym = get_symbol_addr(symtab, "put_str");
    let alloc_sym = get_symbol_addr(symtab, "alloc");
    let dealloc_sym = get_symbol_addr(symtab, "dealloc");
    let main_sym = get_symbol_addr(symtab, "main");
    let executor_ptr_sym = get_symbol_addr(symtab, "executor_ptr");
    let mut symbols: Vec<StubSymbol> = Vec::new();
    symbols.push(stub("put_str", "put_str", put_str_sym));
    symbols.push(stub("alloc", "alloc", alloc_sym));
    symbols.push(stub("dealloc", "dealloc", dealloc_sym));
    symbols.push(stub("main", "main", main_sym));
    symbols.push(stub("executor_ptr", "executor_ptr", executor_ptr_sym));
    symbols
}

} // verus!

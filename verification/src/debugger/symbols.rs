//! Symbols of the debuggee: the table built from its debugging entries,
//! lookups by address and by source location, and cached source text.
use crate::seqs::{
    first_index, lemma_first_index, lemma_first_index_is, lemma_first_index_none,
    lemma_first_index_only,
};
use crate::text::{chars_of, push_all, string_from_chars};
use vstd::prelude::*;

verus! {

/// Why symbols could not be had.
#[derive(Debug, Clone, Copy, PartialEq, Eq, Structural)]
pub enum SymbolError {
    /// The binary, or a source file, could not be opened or read.
    OpenFailed,
    /// An entry of the debugging information could not be used.
    ParseFailed,
}

/// A place in the source text.
#[derive(Debug, Clone)]
pub struct SourceLocation {
    pub file: String,
    pub line: u32,
    pub column: u32,
}

/// What a `SourceLocation` holds, as mathematical values.
pub struct LocationView {
    pub file: Seq<char>,
    pub line: u32,
    pub column: u32,
}

impl View for SourceLocation {
    type V = LocationView;

    open spec fn view(&self) -> LocationView {
        LocationView { file: self.file@, line: self.line, column: self.column }
    }
}

/// A named range of addresses.
#[derive(Debug)]
pub struct SymbolInfo {
    pub name: String,
    pub address: u64,
    pub size: u64,
    pub location: Option<SourceLocation>,
}

/// What a `SymbolInfo` holds, as mathematical values.
pub struct SymbolView {
    pub name: Seq<char>,
    pub address: u64,
    pub size: u64,
    pub location: Option<LocationView>,
}

impl View for SymbolInfo {
    type V = SymbolView;

    open spec fn view(&self) -> SymbolView {
        SymbolView {
            name: self.name@,
            address: self.address,
            size: self.size,
            location: match self.location {
                Some(l) => Some(l@),
                None => None,
            },
        }
    }
}

/// A local variable of a frame, with the expression that locates it.
#[derive(Debug)]
pub struct LocalVariable {
    pub name: String,
    pub type_label: String,
    pub location_expression: Vec<u8>,
}

/// The value of one attribute of a debugging entry, by its form.
#[derive(Debug, Clone, Copy, PartialEq, Eq, Structural)]
pub enum AttributeValue {
    /// The entry has no such attribute, or it could not be read.
    Absent,
    /// An address.
    Address(u64),
    /// An unsigned constant.
    Unsigned(u64),
    /// An index into the file table of the line-number program.
    FileIndex(u64),
    /// A value of any other form.
    Other,
}

/// What the file table of the line-number program holds for one file:
/// its directory and its name, each `None` where it could not be read.
pub struct FileEntry {
    pub directory: Option<String>,
    pub path_name: Option<String>,
}

/// The attributes of one debugging entry that the symbol table is built
/// from.
pub struct DebugEntry {
    /// The name of the entry, `None` where it has none or it is not text.
    pub name: Option<String>,
    pub low_pc: AttributeValue,
    pub high_pc: AttributeValue,
    pub decl_file: AttributeValue,
    pub decl_line: AttributeValue,
    pub decl_column: AttributeValue,
    /// The file-table entry that `decl_file` names, `None` where the unit
    /// has no line-number program or the program has no such file.
    pub file_entry: Option<FileEntry>,
}

/// `path` with `component` appended as a path is appended to: an absolute
/// component replaces the path, any other follows it after one separator.
pub open spec fn pushed(path: Seq<char>, component: Seq<char>) -> Seq<char> {
    if component.len() > 0 && component[0] == '/' {
        component
    } else if path.len() == 0 {
        component
    } else if path.last() == '/' {
        path + component
    } else {
        path + seq!['/'] + component
    }
}

/// The path of a file-table entry: its directory, then its name.
pub open spec fn file_path(entry: FileEntry) -> Seq<char> {
    let directory = match entry.directory {
        Some(d) => pushed(Seq::<char>::empty(), d@),
        None => Seq::<char>::empty(),
    };
    match entry.path_name {
        Some(n) => pushed(directory, n@),
        None => directory,
    }
}

/// The declaration place of an entry: present where the file is given as
/// a file index that the file table resolves and the line is an unsigned
/// constant that fits; the column is 0 unless it is such a constant too.
pub open spec fn location_of(entry: DebugEntry) -> Option<LocationView> {
    match (entry.decl_file, entry.decl_line, entry.file_entry) {
        (AttributeValue::FileIndex(_), AttributeValue::Unsigned(line), Some(file)) => if line
            <= u32::MAX {
            Some(
                LocationView {
                    file: file_path(file),
                    line: line as u32,
                    column: match entry.decl_column {
                        AttributeValue::Unsigned(c) => if c <= u32::MAX {
                            c as u32
                        } else {
                            0
                        },
                        _ => 0,
                    },
                },
            )
        } else {
            None
        },
        _ => None,
    }
}

/// The size of the range of an entry at `address`: an unsigned high
/// address is the size itself, an address is the end of the range, which
/// must not lie below its start; without either the size is 0.
pub open spec fn size_of(high_pc: AttributeValue, address: u64) -> Option<u64> {
    match high_pc {
        AttributeValue::Unsigned(s) => Some(s),
        AttributeValue::Address(end) => if end >= address {
            Some((end - address) as u64)
        } else {
            None
        },
        _ => Some(0),
    }
}

/// The symbol that an entry describes: it has one where it has a name, a
/// low address and a size.  Any other entry is passed over.
pub open spec fn symbol_of(entry: DebugEntry) -> Option<SymbolView> {
    match (entry.name, entry.low_pc) {
        (Some(name), AttributeValue::Address(address)) => match size_of(entry.high_pc, address) {
            Some(size) => Some(
                SymbolView { name: name@, address, size, location: location_of(entry) },
            ),
            None => None,
        },
        _ => None,
    }
}

/// Whether a symbol starts at `address`.
pub open spec fn at_address(address: u64) -> spec_fn(SymbolView) -> bool {
    |s: SymbolView| s.address == address
}

/// Whether the range of a symbol contains `address`.
pub open spec fn covers(s: SymbolView, address: u64) -> bool {
    s.address <= address < s.address + s.size
}

/// Whether the range of a symbol contains `address`, as a predicate.
pub open spec fn covering(address: u64) -> spec_fn(SymbolView) -> bool {
    |s: SymbolView| covers(s, address)
}

/// Whether a symbol was declared at `line` of `file`.
pub open spec fn declared_at(file: Seq<char>, line: u32) -> spec_fn(SymbolView) -> bool {
    |s: SymbolView| s.location is Some && s.location->0.file == file && s.location->0.line == line
}

/// The table with `s` entered: in place of the symbol at the same
/// address where there is one, else at the end.
pub open spec fn upsert(table: Seq<SymbolView>, s: SymbolView) -> Seq<SymbolView> {
    let i = first_index(table, at_address(s.address));
    if i < table.len() {
        table.update(i, s)
    } else {
        table.push(s)
    }
}

/// The table built from the entries in their order.
pub open spec fn built(entries: Seq<DebugEntry>) -> Seq<SymbolView>
    decreases entries.len(),
{
    if entries.len() == 0 {
        Seq::<SymbolView>::empty()
    } else {
        let before = built(entries.drop_last());
        match symbol_of(entries.last()) {
            Some(s) => upsert(before, s),
            None => before,
        }
    }
}

/// Whether no two symbols of a table start at the same address.
pub open spec fn unique_addresses(table: Seq<SymbolView>) -> bool {
    forall|i: int, j: int| 0 <= i < j < table.len() ==> table[i].address != table[j].address
}

/// The views of a vector of symbols.
pub open spec fn symbol_views(symbols: Seq<SymbolInfo>) -> Seq<SymbolView> {
    Seq::new(symbols.len(), |i: int| symbols[i]@)
}

/// Entering a symbol keeps the addresses of a table distinct.
pub proof fn lemma_upsert_unique(table: Seq<SymbolView>, s: SymbolView)
    requires
        unique_addresses(table),
    ensures
        unique_addresses(upsert(table, s)),
{
    lemma_first_index(table, at_address(s.address));
}

/// The table built from any entries holds no address twice.
pub proof fn lemma_built_unique(entries: Seq<DebugEntry>)
    ensures
        unique_addresses(built(entries)),
    decreases entries.len(),
{
    if entries.len() > 0 {
        lemma_built_unique(entries.drop_last());
        match symbol_of(entries.last()) {
            Some(s) => lemma_upsert_unique(built(entries.drop_last()), s),
            None => {},
        }
    }
}

/// Where exactly one symbol of a table contains an address, the lookup by
/// containment finds that symbol.
pub proof fn lemma_containing_symbol_found(table: Seq<SymbolView>, address: u64, n: int)
    requires
        0 <= n < table.len(),
        covers(table[n], address),
        forall|i: int| 0 <= i < table.len() && i != n ==> !covers(#[trigger] table[i], address),
    ensures
        first_index(table, covering(address)) == n,
{
    lemma_first_index_only(table, covering(address), n);
}

/// Where no symbol of a table contains an address, the lookup by
/// containment finds nothing.
pub proof fn lemma_containing_symbol_absent(table: Seq<SymbolView>, address: u64)
    requires
        forall|i: int| 0 <= i < table.len() ==> !covers(#[trigger] table[i], address),
    ensures
        first_index(table, covering(address)) == table.len(),
{
    lemma_first_index_none(table, covering(address));
}

/// Index of the first line feed, or the length where there is none.
pub open spec fn line_end(text: Seq<char>) -> int {
    first_index(text, |c: char| c == '\n')
}

/// A line without its ending: without the carriage return before the line
/// feed that ended it.
pub open spec fn trimmed(line: Seq<char>, ended: bool) -> Seq<char> {
    if ended && line.len() > 0 && line.last() == '\r' {
        line.drop_last()
    } else {
        line
    }
}

/// Line `n` of a text, counted from 0.  Lines end with a line feed or with
/// a carriage return and a line feed; the last line need not end.  `None`
/// where the text has no such line.
pub open spec fn line_at(text: Seq<char>, n: nat) -> Option<Seq<char>>
    decreases text.len(),
{
    if text.len() == 0 {
        None
    } else {
        let k = line_end(text);
        if n == 0 {
            Some(trimmed(text.take(k), k < text.len()))
        } else if 0 <= k < text.len() {
            line_at(text.skip(k + 1), (n - 1) as nat)
        } else {
            None
        }
    }
}

/// The path made of a file-table entry.
pub fn join_path(entry: &FileEntry) -> (path: String)
    ensures
        path@ == file_path(*entry),
{
    let mut out: Vec<char> = Vec::new();
    match &entry.directory {
        Some(d) => {
            let component = chars_of(d.as_str());
            push_component(&mut out, &component);
        },
        None => {},
    }
    match &entry.path_name {
        Some(n) => {
            let component = chars_of(n.as_str());
            push_component(&mut out, &component);
        },
        None => {},
    }
    string_from_chars(&out)
}

/// Appends a component to a path.
pub fn push_component(path: &mut Vec<char>, component: &Vec<char>)
    ensures
        final(path)@ == pushed(old(path)@, component@),
{
    if component.len() > 0 && component[0] == '/' {
        path.clear();
        push_all(path, component);
        assert(Seq::<char>::empty() + component@ == component@);
    } else if path.len() == 0 {
        push_all(path, component);
        assert(Seq::<char>::empty() + component@ == component@);
    } else if path[path.len() - 1] == '/' {
        push_all(path, component);
    } else {
        path.push('/');
        push_all(path, component);
        assert(old(path)@.push('/') == old(path)@ + seq!['/']);
    }
}

/// The declaration place of an entry.
pub fn source_location(entry: &DebugEntry) -> (location: Option<SourceLocation>)
    ensures
        match location {
            Some(l) => location_of(*entry) == Some(l@),
            None => location_of(*entry) is None,
        },
{
    let line: u64 = match (entry.decl_file, entry.decl_line) {
        (AttributeValue::FileIndex(_), AttributeValue::Unsigned(l)) => l,
        _ => {
            return None;
        },
    };
    if line > 0xffff_ffff {
        return None;
    }
    let file = match &entry.file_entry {
        Some(f) => f,
        None => {
            return None;
        },
    };
    let column: u32 = match entry.decl_column {
        AttributeValue::Unsigned(c) => if c <= 0xffff_ffff {
            c as u32
        } else {
            0
        },
        _ => 0,
    };
    Some(SourceLocation { file: join_path(file), line: line as u32, column })
}

/// The symbol that an entry describes, if it describes one.
pub fn symbol_from_entry(entry: &DebugEntry) -> (symbol: Option<SymbolInfo>)
    ensures
        match symbol {
            Some(s) => symbol_of(*entry) == Some(s@),
            None => symbol_of(*entry) is None,
        },
{
    let name = match &entry.name {
        Some(n) => n,
        None => {
            return None;
        },
    };
    let address: u64 = match entry.low_pc {
        AttributeValue::Address(a) => a,
        _ => {
            return None;
        },
    };
    let size: u64 = match entry.high_pc {
        AttributeValue::Unsigned(s) => s,
        AttributeValue::Address(end) => {
            if end < address {
                return None;
            }
            end - address
        },
        _ => 0,
    };
    Some(SymbolInfo { name: name.clone(), address, size, location: source_location(entry) })
}

/// The symbols of one binary, the local variables known for its frames,
/// and the source files read so far.
pub struct DebugSymbols {
    /// The symbol table; no two symbols start at the same address.
    pub symbols: Vec<SymbolInfo>,
    /// Local variables by frame address; no address occurs twice.
    pub variables: Vec<(u64, Vec<LocalVariable>)>,
    /// Source text by path; no path occurs twice.
    pub source_files: Vec<(String, String)>,
}

/// Whether a pair is keyed by `address`.
pub open spec fn keyed_by(address: u64) -> spec_fn((u64, Vec<LocalVariable>)) -> bool {
    |p: (u64, Vec<LocalVariable>)| p.0 == address
}

/// Whether a cached file has the path `path`.
pub open spec fn has_path(path: Seq<char>) -> spec_fn((String, String)) -> bool {
    |p: (String, String)| p.0@ == path
}

impl DebugSymbols {
    /// The symbol table, as mathematical values.
    pub open spec fn table(&self) -> Seq<SymbolView> {
        symbol_views(self.symbols@)
    }

    /// The invariant of the tables: each key occurs once.
    pub open spec fn wf(&self) -> bool {
        &&& unique_addresses(self.table())
        &&& forall|i: int, j: int|
            0 <= i < j < self.variables@.len() ==> self.variables@[i].0 != self.variables@[j].0
        &&& forall|i: int, j: int|
            0 <= i < j < self.source_files@.len() ==> self.source_files@[i].0@
                != self.source_files@[j].0@
    }

    /// The cached text of `path`, if the file has been loaded.
    pub open spec fn cached(&self, path: Seq<char>) -> Option<Seq<char>> {
        let i = first_index(self.source_files@, has_path(path));
        if i < self.source_files@.len() {
            Some(self.source_files@[i].1@)
        } else {
            None
        }
    }

    /// The symbols of a binary.  `opened` holds the entries of its
    /// debugging information in their order, or `None` where the binary
    /// could not be opened or mapped, which is the one fatal failure.  An
    /// entry that describes no symbol is passed over; of two symbols at
    /// one address the later one stays.
    pub fn new(opened: Option<&Vec<DebugEntry>>) -> (r: Result<Self, SymbolError>)
        ensures
            match opened {
                None => r == Err::<Self, SymbolError>(SymbolError::OpenFailed),
                Some(entries) => r is Ok && r->Ok_0.wf() && r->Ok_0.table() == built(entries@)
                    && r->Ok_0.variables@.len() == 0 && r->Ok_0.source_files@.len() == 0,
            },
    {
        let entries = match opened {
            Some(e) => e,
            None => {
                return Err(SymbolError::OpenFailed);
            },
        };
        let mut symbols: Vec<SymbolInfo> = Vec::new();
        let mut k: usize = 0;
        assert(entries@.take(0) =~= Seq::<DebugEntry>::empty());
        assert(symbol_views(symbols@) =~= built(entries@.take(0)));
        while k < entries.len()
            invariant
                k <= entries@.len(),
                symbol_views(symbols@) == built(entries@.take(k as int)),
            decreases entries@.len() - k,
        {
            let ghost before = symbol_views(symbols@);
            proof {
                let next = entries@.take(k as int + 1);
                assert(next.drop_last() == entries@.take(k as int));
                assert(next.last() == entries@[k as int]);
            }
            match symbol_from_entry(&entries[k]) {
                Some(symbol) => {
                    let i = Self::position_of(&symbols, symbol.address);
                    if i < symbols.len() {
                        symbols.set(i, symbol);
                        assert(symbol_views(symbols@) =~= before.update(i as int, symbol@));
                    } else {
                        symbols.push(symbol);
                        assert(symbol_views(symbols@) =~= before.push(symbol@));
                    }
                },
                None => {},
            }
            k += 1;
        }
        proof {
            assert(entries@.take(entries@.len() as int) == entries@);
            lemma_built_unique(entries@);
        }
        Ok(DebugSymbols { symbols, variables: Vec::new(), source_files: Vec::new() })
    }

    /// Index of the symbol at `address`, or the length of the table.
    fn position_of(symbols: &Vec<SymbolInfo>, address: u64) -> (i: usize)
        ensures
            i == first_index(symbol_views(symbols@), at_address(address)),
            i <= symbols@.len(),
    {
        let mut i: usize = 0;
        while i < symbols.len() && symbols[i].address != address
            invariant
                i <= symbols@.len(),
                forall|j: int|
                    0 <= j < i ==> !at_address(address)(#[trigger] symbol_views(symbols@)[j]),
            decreases symbols@.len() - i,
        {
            i += 1;
        }
        proof {
            lemma_first_index_is(symbol_views(symbols@), at_address(address), i as int);
        }
        i
    }

    /// The symbol that starts at exactly `address`.
    pub fn get_symbol_at_address(&self, address: u64) -> (r: Option<&SymbolInfo>)
        ensures
            ({
                let i = first_index(self.table(), at_address(address));
                r == if i < self.symbols@.len() {
                    Some(&self.symbols@[i])
                } else {
                    None
                }
            }),
            r is Some ==> r->0.address == address,
            r is None <==> forall|i: int|
                0 <= i < self.symbols@.len() ==> (#[trigger] self.symbols@[i]).address != address,
    {
        let i = Self::position_of(&self.symbols, address);
        proof {
            lemma_first_index(self.table(), at_address(address));
            if i < self.symbols@.len() {
                assert(at_address(address)(self.table()[i as int]));
            } else {
                assert forall|j: int| 0 <= j < self.symbols@.len() implies (
                #[trigger] self.symbols@[j]).address != address by {
                    assert(!at_address(address)(self.table()[j]));
                }
            }
        }
        if i < self.symbols.len() {
            Some(&self.symbols[i])
        } else {
            None
        }
    }

    /// The first symbol of the table whose range, from its address up to
    /// but not including its address plus its size, contains `address`.
    pub fn find_symbol_containing_address(&self, address: u64) -> (r: Option<&SymbolInfo>)
        ensures
            ({
                let i = first_index(self.table(), covering(address));
                r == if i < self.symbols@.len() {
                    Some(&self.symbols@[i])
                } else {
                    None
                }
            }),
            r is Some ==> covers(r->0@, address),
            r is None <==> forall|i: int|
                0 <= i < self.symbols@.len() ==> !covers((#[trigger] self.symbols@[i])@, address),
    {
        let mut i: usize = 0;
        while i < self.symbols.len() && !(self.symbols[i].address <= address && address
            - self.symbols[i].address < self.symbols[i].size)
            invariant
                i <= self.symbols@.len(),
                forall|j: int| 0 <= j < i ==> !covering(address)(#[trigger] self.table()[j]),
            decreases self.symbols@.len() - i,
        {
            i += 1;
        }
        proof {
            lemma_first_index_is(self.table(), covering(address), i as int);
            if i < self.symbols@.len() {
                assert(covering(address)(self.table()[i as int]));
            } else {
                assert forall|j: int| 0 <= j < self.symbols@.len() implies !covers(
                    (#[trigger] self.symbols@[j])@,
                    address,
                ) by {
                    assert(!covering(address)(self.table()[j]));
                }
            }
        }
        if i < self.symbols.len() {
            Some(&self.symbols[i])
        } else {
            None
        }
    }

    /// The address of the first symbol of the table that was declared at
    /// `line` of `file`.
    pub fn find_address_for_location(&self, file: &String, line: u32) -> (r: Option<u64>)
        ensures
            ({
                let i = first_index(self.table(), declared_at(file@, line));
                r == if i < self.symbols@.len() {
                    Some(self.symbols@[i].address)
                } else {
                    None
                }
            }),
            r is None <==> forall|i: int|
                0 <= i < self.symbols@.len() ==> !declared_at(file@, line)(
                    (#[trigger] self.symbols@[i])@,
                ),
    {
        let mut i: usize = 0;
        while i < self.symbols.len()
            invariant
                i <= self.symbols@.len(),
                forall|j: int|
                    0 <= j < i ==> !declared_at(file@, line)(#[trigger] self.table()[j]),
            decreases self.symbols@.len() - i,
        {
            let found = match &self.symbols[i].location {
                Some(l) => l.line == line && l.file == *file,
                None => false,
            };
            if found {
                proof {
                    assert(declared_at(file@, line)(self.table()[i as int]));
                    lemma_first_index_is(self.table(), declared_at(file@, line), i as int);
                }
                return Some(self.symbols[i].address);
            }
            i += 1;
        }
        proof {
            lemma_first_index_is(self.table(), declared_at(file@, line), i as int);
            assert forall|j: int| 0 <= j < self.symbols@.len() implies !declared_at(file@, line)(
                (#[trigger] self.symbols@[j])@,
            ) by {
                assert(!declared_at(file@, line)(self.table()[j]));
            }
        }
        None
    }

    /// Index of the cached file `path`, or the number of cached files.
    fn file_position(&self, path: &String) -> (i: usize)
        ensures
            i == first_index(self.source_files@, has_path(path@)),
            i <= self.source_files@.len(),
    {
        let mut i: usize = 0;
        while i < self.source_files.len() && !(self.source_files[i].0 == *path)
            invariant
                i <= self.source_files@.len(),
                forall|j: int| 0 <= j < i ==> !has_path(path@)(#[trigger] self.source_files@[j]),
            decreases self.source_files@.len() - i,
        {
            i += 1;
        }
        proof {
            lemma_first_index_is(self.source_files@, has_path(path@), i as int);
        }
        i
    }

    /// Whether the text of `path` has been loaded.
    pub fn is_loaded(&self, path: &String) -> (loaded: bool)
        ensures
            loaded == self.cached(path@) is Some,
    {
        self.file_position(path) < self.source_files.len()
    }

    /// The line of source text at `location`, lines counted from 1:
    /// absent where the file has not been loaded or has no such line.
    pub fn get_source_line(&self, location: &SourceLocation) -> (r: Option<String>)
        ensures
            match r {
                Some(line) => location.line >= 1 && self.cached(location.file@) is Some
                    && line_at(self.cached(location.file@)->0, (location.line - 1) as nat) == Some(
                    line@,
                ),
                None => location.line == 0 || self.cached(location.file@) is None || line_at(
                    self.cached(location.file@)->0,
                    (location.line - 1) as nat,
                ) is None,
            },
    {
        if location.line == 0 {
            return None;
        }
        let i = self.file_position(&location.file);
        if i >= self.source_files.len() {
            return None;
        }
        let text = chars_of(self.source_files[i].1.as_str());
        match nth_line(&text, (location.line - 1) as usize) {
            Some(line) => Some(string_from_chars(&line)),
            None => None,
        }
    }

    /// Enters the text of a source file on its first access.  `content` is
    /// what reading the file gave, `None` where it could not be read.  A
    /// file that is loaded already stays as it is, whatever `content`
    /// holds.
    pub fn load_source_file(&mut self, path: &String, content: Option<String>) -> (r: Result<
        (),
        SymbolError,
    >)
        requires
            old(self).wf(),
        ensures
            final(self).wf(),
            final(self).symbols == old(self).symbols,
            final(self).variables == old(self).variables,
            old(self).cached(path@) is Some ==> r is Ok && final(self).source_files == old(self).source_files,
            old(self).cached(path@) is None && content is None ==> r == Err::<(), SymbolError>(
                SymbolError::OpenFailed,
            ) && final(self).source_files == old(self).source_files,
            old(self).cached(path@) is None && content is Some ==> r is Ok && final(self).cached(
                path@,
            ) == Some(content->0@) && final(self).source_files@.len() == old(self).source_files@.len() + 1,
            forall|other: Seq<char>|
                other != path@ ==> final(self).cached(other) == old(self).cached(other),
    {
        let i = self.file_position(path);
        if i < self.source_files.len() {
            return Ok(());
        }
        match content {
            None => Err(SymbolError::OpenFailed),
            Some(text) => {
                proof {
                    lemma_first_index(self.source_files@, has_path(path@));
                }
                self.source_files.push((path.clone(), text));
                proof {
                    let files = self.source_files@;
                    let before = old(self).source_files@;
                    assert(files == before.push(files[before.len() as int]));
                    lemma_first_index_is(files, has_path(path@), before.len() as int);
                    assert forall|other: Seq<char>| other != path@ implies self.cached(other)
                        == old(self).cached(other) by {
                        let p = has_path(other);
                        lemma_first_index(before, p);
                        let n = first_index(before, p);
                        if n < before.len() {
                            assert(files[n] == before[n]);
                            lemma_first_index_is(files, p, n);
                        } else {
                            assert(!p(files[before.len() as int]));
                            lemma_first_index_is(files, p, files.len() as int);
                        }
                    }
                }
                Ok(())
            },
        }
    }

    /// The line of source text at `location`, with the file loaded on its
    /// first access: `content` is what reading the file gives, `None`
    /// where it cannot be read, and is looked at only where the file has
    /// not been loaded yet.  Absent where the file is neither loaded nor
    /// readable, or has no such line.
    pub fn source_line(&mut self, location: &SourceLocation, content: Option<String>) -> (r:
        Option<String>)
        requires
            old(self).wf(),
        ensures
            final(self).wf(),
            final(self).symbols == old(self).symbols,
            final(self).variables == old(self).variables,
            ({
                let text = match old(self).cached(location.file@) {
                    Some(t) => Some(t),
                    None => match content {
                        Some(c) => Some(c@),
                        None => None,
                    },
                };
                &&& final(self).cached(location.file@) == text
                &&& match r {
                    Some(line) => location.line >= 1 && text is Some && line_at(
                        text->0,
                        (location.line - 1) as nat,
                    ) == Some(line@),
                    None => location.line == 0 || text is None || line_at(
                        text->0,
                        (location.line - 1) as nat,
                    ) is None,
                }
            }),
    {
        let _ = self.load_source_file(&location.file, content);
        self.get_source_line(location)
    }

    /// Enters the local variables of the frame at `frame_address`, in place
    /// of those entered for it before.
    pub fn set_local_variables(&mut self, frame_address: u64, variables: Vec<LocalVariable>)
        requires
            old(self).wf(),
        ensures
            final(self).wf(),
            final(self).symbols == old(self).symbols,
            final(self).source_files == old(self).source_files,
            ({
                let i = first_index(final(self).variables@, keyed_by(frame_address));
                i < final(self).variables@.len() && final(self).variables@[i].1 == variables
            }),
    {
        let mut i: usize = 0;
        while i < self.variables.len() && self.variables[i].0 != frame_address
            invariant
                i <= self.variables@.len(),
                forall|j: int| 0 <= j < i ==> !keyed_by(frame_address)(#[trigger] self.variables@[j]),
            decreases self.variables@.len() - i,
        {
            i += 1;
        }
        if i < self.variables.len() {
            self.variables.set(i, (frame_address, variables));
        } else {
            self.variables.push((frame_address, variables));
        }
        proof {
            lemma_first_index_is(self.variables@, keyed_by(frame_address), i as int);
        }
    }

    /// The local variables known for the frame at `frame_address`.
    pub fn get_local_variables(&self, frame_address: u64) -> (r: Option<&Vec<LocalVariable>>)
        ensures
            ({
                let i = first_index(self.variables@, keyed_by(frame_address));
                r == if i < self.variables@.len() {
                    Some(&self.variables@[i].1)
                } else {
                    None
                }
            }),
    {
        let mut i: usize = 0;
        while i < self.variables.len() && self.variables[i].0 != frame_address
            invariant
                i <= self.variables@.len(),
                forall|j: int| 0 <= j < i ==> !keyed_by(frame_address)(#[trigger] self.variables@[j]),
            decreases self.variables@.len() - i,
        {
            i += 1;
        }
        proof {
            lemma_first_index_is(self.variables@, keyed_by(frame_address), i as int);
        }
        if i < self.variables.len() {
            Some(&self.variables[i].1)
        } else {
            None
        }
    }
}

/// Line `n` of a text, counted from 0.
pub fn nth_line(text: &Vec<char>, n: usize) -> (r: Option<Vec<char>>)
    ensures
        match r {
            Some(line) => line_at(text@, n as nat) == Some(line@),
            None => line_at(text@, n as nat) is None,
        },
{
    let mut start: usize = 0;
    let mut left: usize = n;
    assert(text@.skip(0) == text@);
    loop
        invariant
            start <= text@.len(),
            line_at(text@, n as nat) == line_at(text@.skip(start as int), left as nat),
        decreases text@.len() - start,
    {
        if start >= text.len() {
            return None;
        }
        let ghost rest = text@.skip(start as int);
        let mut end: usize = start;
        while end < text.len() && text[end] != '\n'
            invariant
                start <= end <= text@.len(),
                rest == text@.skip(start as int),
                forall|j: int| 0 <= j < end - start ==> rest[j] != '\n',
            decreases text@.len() - end,
        {
            end += 1;
        }
        proof {
            lemma_first_index_is(rest, |c: char| c == '\n', end - start);
        }
        let ended = end < text.len();
        if left == 0 {
            let stop: usize = if ended && end > start && text[end - 1] == '\r' {
                end - 1
            } else {
                end
            };
            let mut line: Vec<char> = Vec::new();
            let mut i: usize = start;
            while i < stop
                invariant
                    start <= i <= stop <= text@.len(),
                    line@ == text@.subrange(start as int, i as int),
                decreases stop - i,
            {
                line.push(text[i]);
                assert(text@.subrange(start as int, i as int + 1) == text@.subrange(
                    start as int,
                    i as int,
                ).push(text@[i as int]));
                i += 1;
            }
            proof {
                let raw = rest.take(end - start);
                assert(raw == text@.subrange(start as int, end as int));
                if ended && end > start && text@[end - 1] == '\r' {
                    assert(raw.last() == text@[end - 1]);
                    assert(raw.drop_last() == text@.subrange(start as int, stop as int));
                }
            }
            return Some(line);
        }
        if !ended {
            return None;
        }
        proof {
            assert(rest.skip(end - start + 1) == text@.skip(end as int + 1));
        }
        left -= 1;
        start = end + 1;
    }
}

} // verus!

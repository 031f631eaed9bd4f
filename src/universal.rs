//! Language-neutral symbols with stable ids, and a table of them by id.
use vstd::prelude::*;
use crate::text::{text_from, text_of};

verus! {

/// Kinds of symbols across languages.
#[derive(Clone, Copy, Debug, PartialEq, Eq, Structural)]
pub enum SymbolType {
    Struct,
    Trait,
    ImplBlock,
    Method,
    Function,
    MemberVar,
    Class,
    Interface,
    Enum,
    Namespace,
    Module,
    Package,
    Constructor,
    Destructor,
    Property,
    Parameter,
    Variable,
    Constant,
    Unknown,
}

/// The name of a symbol kind as written in its declaration.
pub open spec fn type_label(t: SymbolType) -> Seq<char> {
    match t {
        SymbolType::Struct => "Struct"@,
        SymbolType::Trait => "Trait"@,
        SymbolType::ImplBlock => "ImplBlock"@,
        SymbolType::Method => "Method"@,
        SymbolType::Function => "Function"@,
        SymbolType::MemberVar => "MemberVar"@,
        SymbolType::Class => "Class"@,
        SymbolType::Interface => "Interface"@,
        SymbolType::Enum => "Enum"@,
        SymbolType::Namespace => "Namespace"@,
        SymbolType::Module => "Module"@,
        SymbolType::Package => "Package"@,
        SymbolType::Constructor => "Constructor"@,
        SymbolType::Destructor => "Destructor"@,
        SymbolType::Property => "Property"@,
        SymbolType::Parameter => "Parameter"@,
        SymbolType::Variable => "Variable"@,
        SymbolType::Constant => "Constant"@,
        SymbolType::Unknown => "Unknown"@,
    }
}

fn type_label_exec(t: SymbolType) -> (r: &'static str)
    ensures
        r@ == type_label(t),
{
    match t {
        SymbolType::Struct => "Struct",
        SymbolType::Trait => "Trait",
        SymbolType::ImplBlock => "ImplBlock",
        SymbolType::Method => "Method",
        SymbolType::Function => "Function",
        SymbolType::MemberVar => "MemberVar",
        SymbolType::Class => "Class",
        SymbolType::Interface => "Interface",
        SymbolType::Enum => "Enum",
        SymbolType::Namespace => "Namespace",
        SymbolType::Module => "Module",
        SymbolType::Package => "Package",
        SymbolType::Constructor => "Constructor",
        SymbolType::Destructor => "Destructor",
        SymbolType::Property => "Property",
        SymbolType::Parameter => "Parameter",
        SymbolType::Variable => "Variable",
        SymbolType::Constant => "Constant",
        SymbolType::Unknown => "Unknown",
    }
}

/// The decimal digits of `n`, most significant first.
pub open spec fn decimal_bytes(n: nat) -> Seq<u8>
    decreases n,
{
    if n < 10 {
        seq![(48 + n) as u8]
    } else {
        decimal_bytes(n / 10).push((48 + n % 10) as u8)
    }
}

fn push_decimal(n: u64, out: &mut Vec<u8>)
    ensures
        final(out)@ == old(out)@ + decimal_bytes(n as nat),
    decreases n,
{
    if n >= 10 {
        push_decimal(n / 10, out);
    }
    let ghost mid = out@;
    out.push(48 + (n % 10) as u8);
    proof {
        if n >= 10 {
            assert(out@ =~= old(out)@ + decimal_bytes(n as nat));
        } else {
            assert(out@ =~= old(out)@ + decimal_bytes(n as nat));
        }
    }
}

/// The decimal form of a number.
pub fn decimal_string(n: u64) -> (r: String)
    ensures
        r@ == text_of(decimal_bytes(n as nat)),
{
    let mut digits: Vec<u8> = Vec::new();
    push_decimal(n, &mut digits);
    proof {
        assert(digits@ =~= decimal_bytes(n as nat));
    }
    text_from(digits.as_slice())
}

/// What `str::to_lowercase` makes of a text.
pub uninterp spec fn lower_of(s: Seq<char>) -> Seq<char>;

/// Relies on `str::to_lowercase`: the Unicode lower-case form, which depends
/// on the characters alone.
#[verifier::external_body]
pub(crate) fn lowercase(s: &str) -> (r: String)
    ensures
        r@ == lower_of(s@),
{
    s.to_lowercase()
}

/// A symbol of any language.
#[derive(Clone, Debug)]
pub struct UniversalSymbol {
    pub symbol_type: SymbolType,
    pub name: String,
    pub qualified_name: String,
    pub start_line: usize,
    pub end_line: usize,
    pub symbol_id: String,
    pub parent_id: String,
    pub child_ids: Vec<String>,
    pub parameters: Vec<String>,
}

/// The id of a symbol: its kind, name and sequence number joined by `_`,
/// in lower case.
pub open spec fn symbol_id_for(t: SymbolType, name: Seq<char>, sequence: nat) -> Seq<char> {
    lower_of(type_label(t) + "_"@ + name + "_"@ + text_of(decimal_bytes(sequence)))
}

impl UniversalSymbol {
    /// A symbol whose qualified name is its name, with no id, parent or
    /// children yet.
    pub fn new(symbol_type: SymbolType, name: String) -> (r: UniversalSymbol)
        ensures
            r.symbol_type == symbol_type,
            r.name@ == name@,
            r.qualified_name@ == name@,
            r.start_line == 0,
            r.end_line == 0,
            r.symbol_id@.len() == 0,
            r.parent_id@.len() == 0,
            r.child_ids@.len() == 0,
            r.parameters@.len() == 0,
    {
        let qualified = name.clone();
        UniversalSymbol {
            symbol_type,
            name,
            qualified_name: qualified,
            start_line: 0,
            end_line: 0,
            symbol_id: String::new(),
            parent_id: String::new(),
            child_ids: Vec::new(),
            parameters: Vec::new(),
        }
    }

    /// Sets the id from the kind, the name and a sequence number.
    pub fn generate_id(&mut self, sequence: usize)
        ensures
            final(self).symbol_id@ == symbol_id_for(old(self).symbol_type, old(self).name@, sequence as nat),
            final(self).symbol_type == old(self).symbol_type,
            final(self).name == old(self).name,
            final(self).qualified_name == old(self).qualified_name,
            final(self).start_line == old(self).start_line,
            final(self).end_line == old(self).end_line,
            final(self).parent_id == old(self).parent_id,
            final(self).child_ids == old(self).child_ids,
            final(self).parameters == old(self).parameters,
    {
        let mut s = type_label_exec(self.symbol_type).to_owned();
        s.append("_");
        s.append(self.name.as_str());
        s.append("_");
        let digits = decimal_string(sequence as u64);
        s.append(digits.as_str());
        self.symbol_id = lowercase(s.as_str());
    }
}

pub open spec fn symbol_ids(v: Seq<UniversalSymbol>) -> Seq<Seq<char>> {
    v.map_values(|s: UniversalSymbol| s.symbol_id@)
}

/// Symbols by id; an id names one symbol.
pub struct SymbolTable {
    pub symbols: Vec<UniversalSymbol>,
}

impl SymbolTable {
    pub open spec fn wf(&self) -> bool {
        symbol_ids(self.symbols@).no_duplicates()
    }

    pub fn new() -> (r: SymbolTable)
        ensures
            r.wf(),
            r.symbols@.len() == 0,
    {
        let r = SymbolTable { symbols: Vec::new() };
        assert(symbol_ids(r.symbols@) =~= Seq::<Seq<char>>::empty());
        r
    }

    fn find(&self, id: &str) -> (r: Option<usize>)
        ensures
            match r {
                Some(i) => i < self.symbols@.len() && symbol_ids(self.symbols@)[i as int] == id@,
                None => !symbol_ids(self.symbols@).contains(id@),
            },
    {
        let mut i: usize = 0;
        while i < self.symbols.len()
            invariant
                i <= self.symbols@.len(),
                forall|j: int| 0 <= j < i ==> symbol_ids(self.symbols@)[j] != id@,
            decreases self.symbols@.len() - i,
        {
            if crate::text::bytes_eq(self.symbols[i].symbol_id.as_str().as_bytes(), id.as_bytes()) {
                proof {
                    vstd::utf8::encode_utf8_decode_utf8(symbol_ids(self.symbols@)[i as int]);
                    vstd::utf8::encode_utf8_decode_utf8(id@);
                }
                return Some(i);
            }
            i = i + 1;
        }
        None
    }

    /// Adds a symbol under its id, replacing the symbol that had that id.
    pub fn add_symbol(&mut self, symbol: UniversalSymbol)
        requires
            old(self).wf(),
        ensures
            final(self).wf(),
            symbol_ids(old(self).symbols@).contains(symbol.symbol_id@) ==> exists|i: int|
                0 <= i < old(self).symbols@.len() && symbol_ids(old(self).symbols@)[i] == symbol.symbol_id@
                    && final(self).symbols@ == old(self).symbols@.update(i, symbol),
            !symbol_ids(old(self).symbols@).contains(symbol.symbol_id@) ==> final(self).symbols@
                == old(self).symbols@.push(symbol),
    {
        match self.find(symbol.symbol_id.as_str()) {
            Some(i) => {
                let ghost before = self.symbols@;
                self.symbols.set(i, symbol);
                proof {
                    assert(symbol_ids(self.symbols@) =~= symbol_ids(before));
                }
            },
            None => {
                let ghost before = self.symbols@;
                self.symbols.push(symbol);
                proof {
                    assert(symbol_ids(self.symbols@) =~= symbol_ids(before).push(symbol.symbol_id@));
                }
            },
        }
    }

    /// The symbol with id `symbol_id`.
    pub fn get_symbol(&self, symbol_id: &str) -> (r: Option<&UniversalSymbol>)
        ensures
            !symbol_ids(self.symbols@).contains(symbol_id@) <==> r is None,
            r matches Some(s) ==> s.symbol_id@ == symbol_id@ && self.symbols@.contains(*s),
    {
        match self.find(symbol_id) {
            Some(i) => Some(&self.symbols[i]),
            None => None,
        }
    }

    pub fn get_all_symbols(&self) -> (r: &Vec<UniversalSymbol>)
        ensures
            r == &self.symbols,
    {
        &self.symbols
    }
}

} // verus!

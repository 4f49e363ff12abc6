//! The symbols that the specification documents and the source files
//! declare, and their mathematical views.
use vstd::prelude::*;

verus! {

#[derive(Debug, Clone, Copy, PartialEq, Eq, Structural)]
pub enum SymbolKind {
    Variable,
    Function,
}

impl SymbolKind {
    /// The name that `Debug` prints for the kind.
    pub open spec fn spec_label(self) -> Seq<char> {
        match self {
            SymbolKind::Variable => "Variable"@,
            SymbolKind::Function => "Function"@,
        }
    }

    pub fn label(&self) -> (s: String)
        ensures
            s@ == self.spec_label(),
    {
        match self {
            SymbolKind::Variable => String::from_str("Variable"),
            SymbolKind::Function => String::from_str("Function"),
        }
    }
}

/// A variable or function, as a specification document declares it or as a
/// source file defines it.
#[derive(Debug, Clone, PartialEq)]
pub struct SymbolInfo {
    pub name: String,
    pub kind: SymbolKind,
    /// Parameters as (name, type).
    pub params: Option<Vec<(String, String)>>,
    pub return_type: Option<String>,
    pub var_type: Option<String>,
    /// First and last line of the definition, counted from 1.
    pub line_range: Option<(usize, usize)>,
    /// The line of the specification document that declares the symbol, counted from 1.
    pub spec_line: Option<usize>,
    /// Specification side: the symbols this one depends on.
    pub dependencies: Option<Vec<String>>,
    /// Code side: the identifiers that the definition uses.
    pub used_symbols: Option<Vec<String>>,
}

/// The mathematical value of a `SymbolInfo`.
pub struct SymbolView {
    pub name: Seq<char>,
    pub kind: SymbolKind,
    pub params: Option<Seq<(Seq<char>, Seq<char>)>>,
    pub return_type: Option<Seq<char>>,
    pub var_type: Option<Seq<char>>,
    pub line_range: Option<(usize, usize)>,
    pub spec_line: Option<usize>,
    pub dependencies: Option<Seq<Seq<char>>>,
    pub used_symbols: Option<Seq<Seq<char>>>,
}

pub open spec fn opt_string_view(o: Option<String>) -> Option<Seq<char>> {
    match o {
        Some(s) => Some(s@),
        None => None,
    }
}

pub open spec fn strings_view(v: Seq<String>) -> Seq<Seq<char>> {
    v.map_values(|s: String| s@)
}

pub open spec fn opt_strings_view(o: Option<Vec<String>>) -> Option<Seq<Seq<char>>> {
    match o {
        Some(v) => Some(strings_view(v@)),
        None => None,
    }
}

pub open spec fn pairs_view(v: Seq<(String, String)>) -> Seq<(Seq<char>, Seq<char>)> {
    v.map_values(|p: (String, String)| (p.0@, p.1@))
}

pub open spec fn opt_pairs_view(o: Option<Vec<(String, String)>>) -> Option<Seq<(Seq<char>, Seq<char>)>> {
    match o {
        Some(v) => Some(pairs_view(v@)),
        None => None,
    }
}

impl View for SymbolInfo {
    type V = SymbolView;

    open spec fn view(&self) -> SymbolView {
        SymbolView {
            name: self.name@,
            kind: self.kind,
            params: opt_pairs_view(self.params),
            return_type: opt_string_view(self.return_type),
            var_type: opt_string_view(self.var_type),
            line_range: self.line_range,
            spec_line: self.spec_line,
            dependencies: opt_strings_view(self.dependencies),
            used_symbols: opt_strings_view(self.used_symbols),
        }
    }
}

/// The views of a list of symbols.
pub open spec fn symbols_view(v: Seq<SymbolInfo>) -> Seq<SymbolView> {
    v.map_values(|s: SymbolInfo| s@)
}

pub fn copy_string(s: &String) -> (r: String)
    ensures
        r@ == s@,
{
    s.clone()
}

pub fn copy_opt_string(o: &Option<String>) -> (r: Option<String>)
    ensures
        opt_string_view(r) == opt_string_view(*o),
{
    match o {
        Some(s) => Some(s.clone()),
        None => None,
    }
}

pub fn copy_strings(v: &Vec<String>) -> (r: Vec<String>)
    ensures
        strings_view(r@) == strings_view(v@),
{
    let mut r: Vec<String> = Vec::new();
    let mut i: usize = 0;
    while i < v.len()
        invariant
            i <= v@.len(),
            r@.len() == i,
            forall|k: int| 0 <= k < i ==> r@[k]@ == v@[k]@,
        decreases v@.len() - i,
    {
        r.push(v[i].clone());
        i = i + 1;
    }
    assert(strings_view(r@) =~= strings_view(v@));
    r
}

} // verus!

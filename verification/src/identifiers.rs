//! The identifiers that the sources of a workspace use: the words of each
//! source file, or, in Rust, the identifiers of its syntax tree other than
//! the names that definitions give.
use vstd::prelude::*;
use vstd::hash_set::StringHashSet;
use crate::grammars::{syntax_of, syntax_tree, Grammar};
use crate::scan::{is_word, lemma_run_end_bounds, run_end, scan_run, word_char, CharClass};
use crate::parser::{code_symbols, grammar_named, grammar_of_name, parse_with};
use crate::symbols::{strings_view, symbols_view, SymbolInfo, SymbolView};
use crate::workspace::{language_of_extension, language_of_extension_of};
use crate::syntax::{field_child, field_of, has_substring, node_kind_is, SyntaxNode};
use crate::text::{chars_of, str_is, string_of, trim, trim_string};

verus! {

// ---------------------------------------------------------------------------
// A set of identifiers

/// A set of identifiers that can be handed out as a slice: each once.
pub struct IdentifierSet {
    seen: StringHashSet,
    items: Vec<String>,
}

impl View for IdentifierSet {
    type V = Set<Seq<char>>;

    closed spec fn view(&self) -> Set<Seq<char>> {
        strings_view(self.items@).to_set()
    }
}

impl IdentifierSet {
    /// The set and the list agree, and the list holds nothing twice.
    pub closed spec fn wf(&self) -> bool {
        &&& self.seen@ == strings_view(self.items@).to_set()
        &&& strings_view(self.items@).no_duplicates()
    }

    pub fn new() -> (r: IdentifierSet)
        ensures
            r.wf(),
            r@ == Set::<Seq<char>>::empty(),
    {
        let r = IdentifierSet { seen: StringHashSet::new(), items: Vec::new() };
        assert(strings_view(r.items@) =~= Seq::<Seq<char>>::empty());
        assert(strings_view(r.items@).to_set() =~= Set::<Seq<char>>::empty());
        r
    }

    pub fn insert(&mut self, s: String)
        requires
            old(self).wf(),
        ensures
            final(self).wf(),
            final(self)@ == old(self)@.insert(s@),
    {
        if self.seen.contains(s.as_str()) {
            assert(self@.insert(s@) =~= self@);
            return;
        }
        let ghost before = strings_view(self.items@);
        self.seen.insert(s.clone());
        self.items.push(s);
        assert(strings_view(self.items@) =~= before.push(s@));
        assert(before.push(s@).to_set() =~= before.to_set().insert(s@)) by {
            assert forall|x: Seq<char>| before.push(s@).contains(x) <==> before.to_set().insert(s@).contains(x) by {
                if before.push(s@).contains(x) {
                    let k = choose|k: int| 0 <= k < before.push(s@).len() && before.push(s@)[k] == x;
                    if k < before.len() {
                        assert(before[k] == x);
                    }
                }
                if before.contains(x) {
                    let k = choose|k: int| 0 <= k < before.len() && before[k] == x;
                    assert(before.push(s@)[k] == x);
                }
                if x == s@ {
                    assert(before.push(s@)[before.len() as int] == x);
                }
            }
        }
        assert(strings_view(self.items@).no_duplicates()) by {
            assert forall|a: int, b: int| 0 <= a < b < before.push(s@).len() implies before.push(s@)[a] != before.push(s@)[b] by {
                if b == before.len() {
                    assert(before.contains(before[a]));
                }
            }
        }
    }

    pub fn contains(&self, s: &str) -> (b: bool)
        requires
            self.wf(),
        ensures
            b == self@.contains(s@),
    {
        self.seen.contains(s)
    }

    /// The identifiers of the set, each once.
    pub fn as_slice(&self) -> (r: &[String])
        requires
            self.wf(),
        ensures
            strings_view(r@).to_set() == self@,
            strings_view(r@).no_duplicates(),
    {
        self.items.as_slice()
    }
}

// ---------------------------------------------------------------------------
// Words

/// A character that can begin an identifier: an ASCII letter or `_`.
pub open spec fn starts_identifier(c: char) -> bool {
    ('a' <= c && c <= 'z') || ('A' <= c && c <= 'Z') || c == '_'
}

/// The matches of `\b[a-zA-Z_]\w*\b` in `t` from `i` on: every whole run of
/// word characters that begins with an ASCII letter or `_`.
pub open spec fn word_tokens(t: Seq<char>, i: int) -> Set<Seq<char>>
    decreases t.len() - i,
{
    if i < 0 || i >= t.len() {
        Set::empty()
    } else if is_word(t[i]) {
        let j = run_end(t, i, CharClass::Word);
        proof {
            lemma_run_end_bounds(t, i, CharClass::Word);
        }
        if starts_identifier(t[i]) {
            word_tokens(t, j).insert(t.subrange(i, j))
        } else {
            word_tokens(t, j)
        }
    } else {
        word_tokens(t, i + 1)
    }
}

/// Adds the words of `content` that can be identifiers.
pub fn add_word_tokens(set: &mut IdentifierSet, content: &str)
    requires
        old(set).wf(),
    ensures
        final(set).wf(),
        final(set)@ == old(set)@.union(word_tokens(content@, 0)),
{
    let t = chars_of(content);
    let n = t.len();
    let ghost start = set@;
    let mut i: usize = 0;
    while i < n
        invariant
            i <= n == t@.len(),
            t@ == content@,
            set.wf(),
            set@.union(word_tokens(t@, i as int)) == start.union(word_tokens(t@, 0)),
        decreases n - i,
    {
        let c = t[i];
        if word_char(c) {
            let j = scan_run(t.as_slice(), i, CharClass::Word);
            proof { lemma_run_end_bounds(t@, i as int, CharClass::Word); }
            let ghost before = set@;
            if ('a' <= c && c <= 'z') || ('A' <= c && c <= 'Z') || c == '_' {
                let w = string_of(t.as_slice(), i, j);
                set.insert(w);
                assert(set@.union(word_tokens(t@, j as int)) =~= before.union(word_tokens(t@, i as int)));
            } else {
                assert(set@.union(word_tokens(t@, j as int)) =~= before.union(word_tokens(t@, i as int)));
            }
            i = j;
        } else {
            i = i + 1;
        }
    }
    assert(word_tokens(t@, n as int) =~= Set::<Seq<char>>::empty());
    assert(set@ =~= set@.union(Set::<Seq<char>>::empty()));
}

// ---------------------------------------------------------------------------
// Splitting at a separator

/// The first occurrence of `sep` in `s` at or after `i`.
pub open spec fn find_from(s: Seq<char>, sep: Seq<char>, i: int) -> Option<int>
    decreases s.len() - i,
{
    if i < 0 || i >= s.len() || i + sep.len() > s.len() {
        None
    } else if s.subrange(i, i + sep.len()) == sep {
        Some(i)
    } else {
        find_from(s, sep, i + 1)
    }
}

pub proof fn lemma_find_from(s: Seq<char>, sep: Seq<char>, i: int)
    requires
        0 <= i,
    ensures
        find_from(s, sep, i) matches Some(k) ==> i <= k && k + sep.len() <= s.len(),
    decreases s.len() - i,
{
    if i < s.len() && i + sep.len() <= s.len() && s.subrange(i, i + sep.len()) != sep {
        lemma_find_from(s, sep, i + 1);
    }
}

/// The pieces of `s` from `start` on between the occurrences of `sep`, as
/// `str::split` gives them.
pub open spec fn split_from(s: Seq<char>, sep: Seq<char>, start: int) -> Seq<Seq<char>>
    decreases s.len() - start,
{
    if sep.len() == 0 || start < 0 || start > s.len() {
        seq![]
    } else {
        match find_from(s, sep, start) {
            Some(k) => {
                proof {
                    lemma_find_from(s, sep, start);
                }
                seq![s.subrange(start, k)] + split_from(s, sep, k + sep.len())
            },
            None => seq![s.subrange(start, s.len() as int)],
        }
    }
}

/// Splits `t` at each `sep`.
pub fn split_at(t: &[char], sep: &str) -> (r: Vec<String>)
    requires
        sep@.len() > 0,
    ensures
        strings_view(r@) == split_from(t@, sep@, 0),
{
    let n = t.len();
    let m = sep.unicode_len();
    let mut parts: Vec<String> = Vec::new();
    let mut start: usize = 0;
    let mut i: usize = 0;
    while i < n && m <= n - i
        invariant
            start <= i <= n == t@.len(),
            m == sep@.len() > 0,
            strings_view(parts@) + split_from(t@, sep@, start as int) == split_from(t@, sep@, 0),
            find_from(t@, sep@, start as int) == find_from(t@, sep@, i as int),
        decreases n - i,
    {
        if crate::text::range_eq(t, i, i + m, sep) {
            proof { lemma_find_from(t@, sep@, start as int); }
            let ghost before = strings_view(parts@);
            parts.push(string_of(t, start, i));
            assert(strings_view(parts@) =~= before.push(t@.subrange(start as int, i as int)));
            assert(split_from(t@, sep@, start as int) == seq![t@.subrange(start as int, i as int)] + split_from(t@, sep@, i + m));
            assert(strings_view(parts@) + split_from(t@, sep@, (i + m) as int) =~= before + split_from(t@, sep@, start as int));
            start = i + m;
            i = i + m;
        } else {
            i = i + 1;
        }
    }
    assert(find_from(t@, sep@, i as int) is None);
    let ghost before = strings_view(parts@);
    parts.push(string_of(t, start, n));
    assert(strings_view(parts@) =~= before + split_from(t@, sep@, start as int));
    parts
}

// ---------------------------------------------------------------------------
// Identifiers of a Rust syntax tree

pub open spec fn identifier_kind(n: SyntaxNode) -> bool {
    n.kind@ == "identifier"@ || n.kind@ == "type_identifier"@ || n.kind@ == "scoped_identifier"@
        || n.kind@ == "field_identifier"@
}

/// `n` is the name that its parent defines: the parent's child under field
/// `name` spans the same bytes.
pub open spec fn is_definition(n: SyntaxNode, parent: Option<SyntaxNode>) -> bool {
    match parent {
        Some(p) => match field_child(p, "name"@) {
            Some(m) => m.start_byte == n.start_byte && m.end_byte == n.end_byte,
            None => false,
        },
        None => false,
    }
}

/// The pieces of a path `a::b` or `a.b`, each trimmed.
pub open spec fn path_pieces(t: Seq<char>) -> Seq<Seq<char>> {
    let parts = if has_substring(t, "::"@) {
        split_from(t, "::"@, 0)
    } else if has_substring(t, "."@) {
        split_from(t, "."@, 0)
    } else {
        seq![]
    };
    parts.map_values(|p: Seq<char>| trim(p))
}

/// What identifier node `n` adds: its trimmed text, and the pieces of a
/// path; nothing for a name that a definition gives.
pub open spec fn node_uses(n: SyntaxNode, parent: Option<SyntaxNode>) -> Set<Seq<char>> {
    if identifier_kind(n) && !is_definition(n, parent) && n.text is Some && trim(n.text->0@).len() > 0 {
        let t = trim(n.text->0@);
        path_pieces(t).to_set().insert(t)
    } else {
        Set::empty()
    }
}

/// The identifiers that the tree of `n` uses, `parent` being the parent of `n`.
pub open spec fn tree_uses(n: SyntaxNode, parent: Option<SyntaxNode>) -> Set<Seq<char>>
    decreases n,
{
    node_uses(n, parent).union(forest_uses(n.children@, n))
}

pub open spec fn forest_uses(cs: Seq<SyntaxNode>, parent: SyntaxNode) -> Set<Seq<char>>
    decreases cs,
{
    if cs.len() == 0 {
        Set::empty()
    } else {
        forest_uses(cs.drop_last(), parent).union(tree_uses(cs.last(), Some(parent)))
    }
}

fn is_definition_of(n: &SyntaxNode, parent: Option<&SyntaxNode>) -> (b: bool)
    ensures
        b == is_definition(*n, match parent {
            Some(p) => Some(*p),
            None => None,
        }),
{
    match parent {
        Some(p) => match field_of(p, "name") {
            Some(m) => m.start_byte == n.start_byte && m.end_byte == n.end_byte,
            None => false,
        },
        None => false,
    }
}

fn add_node_uses(set: &mut IdentifierSet, n: &SyntaxNode, parent: Option<&SyntaxNode>)
    requires
        old(set).wf(),
    ensures
        final(set).wf(),
        final(set)@ == old(set)@.union(node_uses(*n, match parent {
            Some(p) => Some(*p),
            None => None,
        })),
{
    let ghost par = match parent {
        Some(p) => Some(*p),
        None => None,
    };
    let kind_ok = node_kind_is(n, "identifier") || node_kind_is(n, "type_identifier")
        || node_kind_is(n, "scoped_identifier") || node_kind_is(n, "field_identifier");
    if !kind_ok || is_definition_of(n, parent) {
        assert(set@.union(node_uses(*n, par)) =~= set@);
        return;
    }
    let text = match &n.text {
        Some(t) => t,
        None => {
            assert(set@.union(node_uses(*n, par)) =~= set@);
            return;
        },
    };
    let t = trim_string(text.as_str());
    if t.as_str().is_empty() {
        assert(set@.union(node_uses(*n, par)) =~= set@);
        return;
    }
    let v = chars_of(t.as_str());
    proof {
        reveal_strlit("::");
        reveal_strlit(".");
    }
    let parts: Vec<String> = if has_substring_of(v.as_slice(), "::") {
        split_at(v.as_slice(), "::")
    } else if has_substring_of(v.as_slice(), ".") {
        split_at(v.as_slice(), ".")
    } else {
        let e: Vec<String> = Vec::new();
        assert(strings_view(e@) =~= Seq::<Seq<char>>::empty());
        e
    };
    let ghost pieces = path_pieces(t@);
    assert(strings_view(parts@).map_values(|p: Seq<char>| trim(p)) =~= pieces);
    let ghost start = set@;
    let mut k: usize = 0;
    while k < parts.len()
        invariant
            k <= parts@.len(),
            set.wf(),
            pieces == strings_view(parts@).map_values(|p: Seq<char>| trim(p)),
            set@ == start.union(pieces.take(k as int).to_set()),
        decreases parts@.len() - k,
    {
        let ghost before = set@;
        set.insert(trim_string(parts[k].as_str()));
        assert(pieces.take(k + 1) =~= pieces.take(k as int).push(pieces[k as int]));
        assert(pieces.take(k + 1).to_set() =~= pieces.take(k as int).to_set().insert(pieces[k as int])) by {
            let a = pieces.take(k as int);
            let x0 = pieces[k as int];
            assert forall|x: Seq<char>| a.push(x0).contains(x) <==> a.to_set().insert(x0).contains(x) by {
                if a.push(x0).contains(x) {
                    let j = choose|j: int| 0 <= j < a.push(x0).len() && a.push(x0)[j] == x;
                    if j < a.len() {
                        assert(a[j] == x);
                    }
                }
                if a.contains(x) {
                    let j = choose|j: int| 0 <= j < a.len() && a[j] == x;
                    assert(a.push(x0)[j] == x);
                }
                if x == x0 {
                    assert(a.push(x0)[a.len() as int] == x);
                }
            }
        }
        assert(set@ =~= start.union(pieces.take(k + 1).to_set()));
        k = k + 1;
    }
    assert(pieces.take(parts@.len() as int) == pieces);
    set.insert(t);
    assert(set@ =~= start.union(node_uses(*n, par)));
}

/// `true` when `lit` occurs in `v`.
pub fn has_substring_of(v: &[char], lit: &str) -> (b: bool)
    ensures
        b == has_substring(v@, lit@),
{
    let n = v.len();
    let m = lit.unicode_len();
    if m > n {
        assert(!has_substring(v@, lit@));
        return false;
    }
    if m == 0 {
        assert(v@.subrange(0, 0 + lit@.len() as int) =~= lit@);
        return true;
    }
    let mut i: usize = 0;
    while i <= n - m
        invariant
            0 < m == lit@.len() <= n == v@.len(),
            forall|k: int| 0 <= k < i ==> #[trigger] v@.subrange(k, k + m) != lit@,
        decreases n - m + 1 - i,
    {
        if crate::text::range_eq(v, i, i + m, lit) {
            return true;
        }
        i = i + 1;
    }
    assert(!has_substring(v@, lit@)) by {
        if has_substring(v@, lit@) {
            let k = choose|k: int| 0 <= k && k + lit@.len() <= v@.len() && #[trigger] v@.subrange(k, k + lit@.len()) == lit@;
            assert(k < i);
        }
    }
    false
}

fn add_tree_uses(set: &mut IdentifierSet, n: &SyntaxNode, parent: Option<&SyntaxNode>)
    requires
        old(set).wf(),
    ensures
        final(set).wf(),
        final(set)@ == old(set)@.union(tree_uses(*n, match parent {
            Some(p) => Some(*p),
            None => None,
        })),
    decreases n,
{
    let ghost par = match parent {
        Some(p) => Some(*p),
        None => None,
    };
    let ghost start = set@;
    add_node_uses(set, n, parent);
    let ghost mid = set@;
    let mut i: usize = 0;
    assert(forest_uses(n.children@.take(0), *n) =~= Set::<Seq<char>>::empty());
    while i < n.children.len()
        invariant
            i <= n.children@.len(),
            set.wf(),
            set@ == mid.union(forest_uses(n.children@.take(i as int), *n)),
        decreases n.children@.len() - i,
    {
        add_tree_uses(set, &n.children[i], Some(n));
        assert(n.children@.take(i + 1).drop_last() == n.children@.take(i as int));
        assert(set@ =~= mid.union(forest_uses(n.children@.take(i + 1), *n)));
        i = i + 1;
    }
    assert(n.children@.take(n.children@.len() as int) == n.children@);
    assert(set@ =~= start.union(tree_uses(*n, par)));
}

// ---------------------------------------------------------------------------
// Source files

/// The extensions of the source files whose identifiers count.
pub open spec fn is_source_extension(ext: Seq<char>) -> bool {
    ext == "rs"@ || ext == "ts"@ || ext == "js"@ || ext == "py"@ || ext == "go"@ || ext == "c"@ || ext == "h"@
        || ext == "cpp"@ || ext == "hpp"@ || ext == "cc"@ || ext == "cxx"@ || ext == "cs"@ || ext == "rb"@
        || ext == "swift"@ || ext == "kt"@ || ext == "kts"@ || ext == "java"@
}

pub fn is_source_extension_of(ext: &str) -> (b: bool)
    ensures
        b == is_source_extension(ext@),
{
    str_is(ext, "rs") || str_is(ext, "ts") || str_is(ext, "js") || str_is(ext, "py") || str_is(ext, "go")
        || str_is(ext, "c") || str_is(ext, "h") || str_is(ext, "cpp") || str_is(ext, "hpp") || str_is(ext, "cc")
        || str_is(ext, "cxx") || str_is(ext, "cs") || str_is(ext, "rb") || str_is(ext, "swift") || str_is(ext, "kt")
        || str_is(ext, "kts") || str_is(ext, "java")
}

/// The matches of `\b[a-zA-Z_]\w*\b` in `t` from `i` on, in order.
pub open spec fn word_list(t: Seq<char>, i: int) -> Seq<Seq<char>>
    decreases t.len() - i,
{
    if i < 0 || i >= t.len() {
        seq![]
    } else if is_word(t[i]) {
        let j = run_end(t, i, CharClass::Word);
        proof {
            lemma_run_end_bounds(t, i, CharClass::Word);
        }
        if starts_identifier(t[i]) {
            seq![t.subrange(i, j)] + word_list(t, j)
        } else {
            word_list(t, j)
        }
    } else {
        word_list(t, i + 1)
    }
}

/// How often `w` occurs in `s`.
pub open spec fn count_in(s: Seq<Seq<char>>, w: Seq<char>) -> nat
    decreases s.len(),
{
    if s.len() == 0 {
        0
    } else {
        count_in(s.drop_last(), w) + if s.last() == w { 1nat } else { 0nat }
    }
}

/// How many of `syms` are named `w`.
pub open spec fn named_count(syms: Seq<SymbolView>, w: Seq<char>) -> nat
    decreases syms.len(),
{
    if syms.len() == 0 {
        0
    } else {
        named_count(syms.drop_last(), w) + if syms.last().name == w { 1nat } else { 0nat }
    }
}

/// The definitions of a source file of extension `ext`, as the rules of its
/// language read them; none where no grammar reads the extension.
pub open spec fn file_definitions(ext: Seq<char>, content: Seq<char>) -> Seq<SymbolView> {
    match grammar_named(language_of_extension(ext).0) {
        Some(g) => code_symbols(g, content),
        None => seq![],
    }
}

/// The words of a file that it uses: those that occur more often than the
/// file defines them, so that the name a definition gives does not count as
/// a use of itself.
pub open spec fn used_words(words: Seq<Seq<char>>, defs: Seq<SymbolView>) -> Set<Seq<char>> {
    Set::new(|w: Seq<char>| words.contains(w) && count_in(words, w) > named_count(defs, w))
}

/// The identifiers that a source file of extension `ext` uses: in Rust,
/// those of its syntax tree other than the names definitions give; in the
/// other languages, its words less the names that its definitions give;
/// none in a file of another extension.
pub open spec fn file_uses(ext: Seq<char>, content: Seq<char>) -> Set<Seq<char>> {
    if !is_source_extension(ext) {
        Set::empty()
    } else if ext == "rs"@ {
        match syntax_of(Grammar::Rust, content) {
            Some(t) => tree_uses(t, None),
            None => Set::empty(),
        }
    } else {
        used_words(word_list(content, 0), file_definitions(ext, content))
    }
}

/// The words of `content` that can be identifiers, in order.
pub fn word_list_of(content: &str) -> (r: Vec<String>)
    ensures
        strings_view(r@) == word_list(content@, 0),
{
    let t = chars_of(content);
    let n = t.len();
    let mut out: Vec<String> = Vec::new();
    let mut i: usize = 0;
    while i < n
        invariant
            i <= n == t@.len(),
            t@ == content@,
            strings_view(out@) + word_list(t@, i as int) == word_list(t@, 0),
        decreases n - i,
    {
        let c = t[i];
        if word_char(c) {
            let j = scan_run(t.as_slice(), i, CharClass::Word);
            proof { lemma_run_end_bounds(t@, i as int, CharClass::Word); }
            if ('a' <= c && c <= 'z') || ('A' <= c && c <= 'Z') || c == '_' {
                let ghost before = strings_view(out@);
                out.push(string_of(t.as_slice(), i, j));
                assert(strings_view(out@) =~= before.push(t@.subrange(i as int, j as int)));
                assert(strings_view(out@) + word_list(t@, j as int) =~= before + word_list(t@, i as int));
            }
            i = j;
        } else {
            i = i + 1;
        }
    }
    assert(word_list(t@, n as int) =~= Seq::<Seq<char>>::empty());
    assert(strings_view(out@) + Seq::<Seq<char>>::empty() =~= strings_view(out@));
    out
}

fn count_of(words: &Vec<String>, w: &String) -> (c: usize)
    ensures
        c as nat == count_in(strings_view(words@), w@),
{
    let ghost ws = strings_view(words@);
    let mut c: usize = 0;
    let mut j: usize = 0;
    while j < words.len()
        invariant
            j <= words@.len(),
            ws == strings_view(words@),
            c as nat == count_in(ws.take(j as int), w@),
            c <= j,
        decreases words@.len() - j,
    {
        assert(ws.take(j + 1).drop_last() == ws.take(j as int));
        if words[j] == *w {
            c = c + 1;
        }
        j = j + 1;
    }
    assert(ws.take(words@.len() as int) == ws);
    c
}

fn named_count_of(syms: &Vec<SymbolInfo>, w: &String) -> (c: usize)
    ensures
        c as nat == named_count(symbols_view(syms@), w@),
{
    let ghost ss = symbols_view(syms@);
    let mut c: usize = 0;
    let mut j: usize = 0;
    while j < syms.len()
        invariant
            j <= syms@.len(),
            ss == symbols_view(syms@),
            c as nat == named_count(ss.take(j as int), w@),
            c <= j,
        decreases syms@.len() - j,
    {
        assert(ss.take(j + 1).drop_last() == ss.take(j as int));
        if syms[j].name == *w {
            c = c + 1;
        }
        j = j + 1;
    }
    assert(ss.take(syms@.len() as int) == ss);
    c
}

/// Adds the words of a file that it uses, given the definitions it makes.
fn add_used_words(set: &mut IdentifierSet, words: &Vec<String>, defs: &Vec<SymbolInfo>)
    requires
        old(set).wf(),
    ensures
        final(set).wf(),
        final(set)@ == old(set)@.union(used_words(strings_view(words@), symbols_view(defs@))),
{
    let ghost ws = strings_view(words@);
    let ghost ds = symbols_view(defs@);
    let ghost start = set@;
    let mut k: usize = 0;
    while k < words.len()
        invariant
            k <= words@.len(),
            set.wf(),
            ws == strings_view(words@),
            ds == symbols_view(defs@),
            set@ == start.union(Set::new(|w: Seq<char>| ws.take(k as int).contains(w) && count_in(ws, w) > named_count(ds, w))),
        decreases words@.len() - k,
    {
        let w = &words[k];
        let ghost before = set@;
        let d = named_count_of(defs, w);
        let keep = if d == 0 {
            proof {
                assert(ws.contains(ws[k as int]));
                lemma_count_positive(ws, ws[k as int], k as int);
            }
            true
        } else {
            count_of(words, w) > d
        };
        let ghost wk = ws[k as int];
        assert(w@ == wk);
        assert(keep == (count_in(ws, wk) > named_count(ds, wk)));
        if keep {
            set.insert(w.clone());
        }
        assert(set@ =~= start.union(Set::new(|x: Seq<char>| ws.take(k + 1).contains(x) && count_in(ws, x) > named_count(ds, x)))) by {
            assert forall|x: Seq<char>| ws.take(k + 1).contains(x) <==> (ws.take(k as int).contains(x) || x == ws[k as int]) by {
                if ws.take(k + 1).contains(x) {
                    let j = choose|j: int| 0 <= j < k + 1 && #[trigger] ws.take(k + 1)[j] == x;
                    if j < k {
                        assert(ws.take(k as int)[j] == x);
                    }
                }
                if ws.take(k as int).contains(x) {
                    let j = choose|j: int| 0 <= j < k && #[trigger] ws.take(k as int)[j] == x;
                    assert(ws.take(k + 1)[j] == x);
                }
                if x == ws[k as int] {
                    assert(ws.take(k + 1)[k as int] == x);
                }
            }
            assert forall|x: Seq<char>| set@.contains(x) <==> start.union(Set::new(|y: Seq<char>| ws.take(k + 1).contains(y) && count_in(ws, y) > named_count(ds, y))).contains(x) by {
                assert(ws.take(k + 1).contains(x) <==> (ws.take(k as int).contains(x) || x == wk));
            }
        }
        k = k + 1;
    }
    assert(ws.take(words@.len() as int) == ws);
    assert(set@ =~= start.union(used_words(ws, ds)));
}

/// A word that occurs at `k` occurs at least once.
proof fn lemma_count_positive(s: Seq<Seq<char>>, w: Seq<char>, k: int)
    requires
        0 <= k < s.len(),
        s[k] == w,
    ensures
        count_in(s, w) > 0,
    decreases s.len(),
{
    if k < s.len() - 1 {
        assert(s.drop_last()[k] == w);
        lemma_count_positive(s.drop_last(), w, k);
    }
}

/// Adds the identifiers that a source file of extension `ext` uses.
pub fn add_file_identifiers(set: &mut IdentifierSet, ext: &str, content: &str)
    requires
        old(set).wf(),
    ensures
        final(set).wf(),
        final(set)@ == old(set)@.union(file_uses(ext@, content@)),
{
    if !is_source_extension_of(ext) {
        assert(set@.union(file_uses(ext@, content@)) =~= set@);
        return;
    }
    if str_is(ext, "rs") {
        match syntax_tree(Grammar::Rust, content) {
            Some(t) => add_tree_uses(set, &t, None),
            None => {
                assert(set@.union(file_uses(ext@, content@)) =~= set@);
            },
        }
    } else {
        let words = word_list_of(content);
        let (lang, _) = language_of_extension_of(ext);
        let defs: Vec<SymbolInfo> = match grammar_of_name(lang) {
            Some(g) => parse_with(g, content),
            None => {
                let v: Vec<SymbolInfo> = Vec::new();
                assert(symbols_view(v@) =~= Seq::<SymbolView>::empty());
                v
            },
        };
        add_used_words(set, &words, &defs);
    }
}

} // verus!

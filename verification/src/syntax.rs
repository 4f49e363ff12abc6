//! Syntax trees of source files, as tree-sitter parses them, held as plain
//! values: each node with its kind, the field under which its parent holds
//! it, its text, its position and its children.
use vstd::prelude::*;
use crate::text::{trim};

verus! {

/// One node of a syntax tree.
pub struct SyntaxNode {
    pub kind: String,
    /// The name of the field under which the parent holds this node.
    pub field: Option<String>,
    /// The source text of the node; `None` where it is no valid UTF-8.
    pub text: Option<String>,
    pub start_byte: usize,
    pub end_byte: usize,
    /// Rows count from 0.
    pub start_row: usize,
    pub end_row: usize,
    pub children: Vec<SyntaxNode>,
}

/// The number of line feeds in `s`.
pub open spec fn line_feeds(s: Seq<char>) -> nat
    decreases s.len(),
{
    if s.len() == 0 {
        0
    } else {
        line_feeds(s.drop_last()) + if s.last() == '\n' {
            1nat
        } else {
            0nat
        }
    }
}

/// Every node of the tree of `n` starts on a row no later than the one it
/// ends on, and ends on a row no later than `k`.
pub open spec fn rows_within(n: SyntaxNode, k: nat) -> bool
    decreases n,
{
    n.start_row <= n.end_row && n.end_row <= k && rows_within_all(n.children@, k)
}

pub open spec fn rows_within_all(cs: Seq<SyntaxNode>, k: nat) -> bool
    decreases cs,
{
    if cs.len() == 0 {
        true
    } else {
        rows_within_all(cs.drop_last(), k) && rows_within(cs.last(), k)
    }
}

/// The trimmed text of an identifier node, where the node is one and its
/// trimmed text is not empty.
pub open spec fn ident_of(n: SyntaxNode) -> Set<Seq<char>> {
    if (n.kind@ == "identifier"@ || n.kind@ == "type_identifier"@ || n.kind@ == "scoped_identifier"@
        || n.kind@ == "field_identifier"@) && n.text is Some && trim(n.text->0@).len() > 0 {
        set![trim(n.text->0@)]
    } else {
        Set::empty()
    }
}

/// The identifiers used in the tree of `n`.
pub open spec fn idents_in(n: SyntaxNode) -> Set<Seq<char>>
    decreases n,
{
    ident_of(n).union(idents_in_list(n.children@))
}

pub open spec fn idents_in_list(cs: Seq<SyntaxNode>) -> Set<Seq<char>>
    decreases cs,
{
    if cs.len() == 0 {
        Set::empty()
    } else {
        idents_in_list(cs.drop_last()).union(idents_in(cs.last()))
    }
}

/// `true` when `n` is an identifier node with a non-empty trimmed text.
pub open spec fn is_ident_node(n: SyntaxNode) -> bool {
    (n.kind@ == "identifier"@ || n.kind@ == "type_identifier"@ || n.kind@ == "scoped_identifier"@
        || n.kind@ == "field_identifier"@) && n.text is Some && trim(n.text->0@).len() > 0
}

/// `acc` with the identifier of `n` added at the end, unless it holds it.
pub open spec fn add_ident(acc: Seq<Seq<char>>, n: SyntaxNode) -> Seq<Seq<char>> {
    if is_ident_node(n) && !acc.contains(trim(n.text->0@)) {
        acc.push(trim(n.text->0@))
    } else {
        acc
    }
}

/// `acc` followed by the identifiers of the tree of `n` that it does not
/// hold yet, in the order in which a walk of the tree meets them.
pub open spec fn idents_acc(acc: Seq<Seq<char>>, n: SyntaxNode) -> Seq<Seq<char>>
    decreases n,
{
    idents_acc_list(add_ident(acc, n), n.children@)
}

pub open spec fn idents_acc_list(acc: Seq<Seq<char>>, cs: Seq<SyntaxNode>) -> Seq<Seq<char>>
    decreases cs,
{
    if cs.len() == 0 {
        acc
    } else {
        idents_acc(idents_acc_list(acc, cs.drop_last()), cs.last())
    }
}

/// The identifiers that the definition `n` uses, once each, without the
/// name it defines.
pub open spec fn used_identifiers(n: SyntaxNode, name: Seq<char>) -> Seq<Seq<char>> {
    idents_acc(seq![], n).filter(other_than(name))
}

/// The identifiers other than `name`.
pub open spec fn other_than(name: Seq<char>) -> spec_fn(Seq<char>) -> bool {
    |x: Seq<char>| x != name
}

pub open spec fn kind_is(n: SyntaxNode, k: Seq<char>) -> bool {
    n.kind@ == k
}

pub fn node_kind_is(n: &SyntaxNode, k: &str) -> (b: bool)
    ensures
        b == (n.kind@ == k@),
{
    crate::text::str_is(n.kind.as_str(), k)
}

fn collect_idents(n: &SyntaxNode, out: &mut Vec<String>)
    ensures
        crate::symbols::strings_view(final(out)@) == idents_acc(crate::symbols::strings_view(old(out)@), *n),
    decreases n,
{
    let ghost before = crate::symbols::strings_view(out@);
    let is_ident = node_kind_is(n, "identifier") || node_kind_is(n, "type_identifier")
        || node_kind_is(n, "scoped_identifier") || node_kind_is(n, "field_identifier");
    if is_ident {
        if let Some(t) = &n.text {
            let tt = crate::text::trim_string(t.as_str());
            if !tt.as_str().is_empty() && !crate::auditor::contains_string(out.as_slice(), &tt) {
                out.push(tt);
                assert(crate::symbols::strings_view(out@) =~= before.push(trim(n.text->0@)));
            }
        }
    }
    assert(crate::symbols::strings_view(out@) == add_ident(before, *n));
    let ghost start = crate::symbols::strings_view(out@);
    let mut i: usize = 0;
    assert(n.children@.take(0) =~= Seq::<SyntaxNode>::empty());
    while i < n.children.len()
        invariant
            i <= n.children@.len(),
            crate::symbols::strings_view(out@) == idents_acc_list(start, n.children@.take(i as int)),
        decreases n.children@.len() - i,
    {
        collect_idents(&n.children[i], out);
        assert(n.children@.take(i + 1).drop_last() == n.children@.take(i as int));
        i = i + 1;
    }
    assert(n.children@.take(n.children@.len() as int) == n.children@);
}


// ---------------------------------------------------------------------------
// Reading nodes

/// The first of `cs` that its parent holds under field `f`.
pub open spec fn first_in_field(cs: Seq<SyntaxNode>, f: Seq<char>) -> Option<SyntaxNode>
    decreases cs.len(),
{
    if cs.len() == 0 {
        None
    } else if cs[0].field is Some && cs[0].field->0@ == f {
        Some(cs[0])
    } else {
        first_in_field(cs.drop_first(), f)
    }
}

/// The child of `n` under field `f`, as `Node::child_by_field_name` finds it.
pub open spec fn field_child(n: SyntaxNode, f: Seq<char>) -> Option<SyntaxNode> {
    first_in_field(n.children@, f)
}

/// The child of `n` under field `f`.
pub fn field_of<'a>(n: &'a SyntaxNode, f: &str) -> (r: Option<&'a SyntaxNode>)
    ensures
        match r {
            Some(c) => field_child(*n, f@) == Some(*c),
            None => field_child(*n, f@) is None,
        },
{
    let ghost cs = n.children@;
    let mut i: usize = 0;
    assert(cs.skip(0) == cs);
    while i < n.children.len()
        invariant
            i <= cs.len(),
            cs == n.children@,
            first_in_field(cs, f@) == first_in_field(cs.skip(i as int), f@),
        decreases cs.len() - i,
    {
        let c = &n.children[i];
        let hit = match &c.field {
            Some(name) => crate::text::str_is(name.as_str(), f),
            None => false,
        };
        if hit {
            return Some(c);
        }
        assert(cs.skip(i as int).drop_first() == cs.skip(i + 1));
        i = i + 1;
    }
    None
}

pub open spec fn text_of(n: SyntaxNode) -> Option<Seq<char>> {
    crate::symbols::opt_string_view(n.text)
}

/// The trimmed text of `n`.
pub open spec fn trimmed_text(n: SyntaxNode) -> Option<Seq<char>> {
    match n.text {
        Some(t) => Some(trim(t@)),
        None => None,
    }
}

pub fn node_text(n: &SyntaxNode) -> (r: Option<String>)
    ensures
        crate::symbols::opt_string_view(r) == text_of(*n),
{
    match &n.text {
        Some(t) => Some(t.clone()),
        None => None,
    }
}

pub fn node_trimmed_text(n: &SyntaxNode) -> (r: Option<String>)
    ensures
        crate::symbols::opt_string_view(r) == trimmed_text(*n),
{
    match &n.text {
        Some(t) => Some(crate::text::trim_string(t.as_str())),
        None => None,
    }
}

/// The line, counted from 1, of a row counted from 0.
pub open spec fn line_of_row(row: usize) -> usize {
    if row < usize::MAX {
        (row + 1) as usize
    } else {
        row
    }
}

pub open spec fn lines_of_node(n: SyntaxNode) -> Option<(usize, usize)> {
    Some((line_of_row(n.start_row), line_of_row(n.end_row)))
}

pub fn node_lines(n: &SyntaxNode) -> (r: Option<(usize, usize)>)
    ensures
        r == lines_of_node(*n),
{
    let a = if n.start_row < usize::MAX { n.start_row + 1 } else { n.start_row };
    let b = if n.end_row < usize::MAX { n.end_row + 1 } else { n.end_row };
    Some((a, b))
}

/// `s` without every leading repetition of `p`, as `str::trim_start_matches`
/// gives it.
pub open spec fn strip_leading(s: Seq<char>, p: Seq<char>) -> Seq<char>
    decreases s.len(),
{
    if p.len() > 0 && crate::text::starts_with(s, p) {
        strip_leading(s.skip(p.len() as int), p)
    } else {
        s
    }
}

/// `s` without every leading repetition of `p`.
pub fn strip_leading_string(s: &String, p: &str) -> (r: String)
    ensures
        r@ == strip_leading(s@, p@),
{
    let v = crate::text::chars_of(s.as_str());
    let n = v.len();
    let plen = p.unicode_len();
    let mut i: usize = 0;
    assert(v@.skip(0) == v@);
    while plen > 0 && i <= n && plen <= n - i && crate::text::range_starts_with(v.as_slice(), i, n, p)
        invariant
            n == v@.len(),
            plen == p@.len(),
            i <= n,
            strip_leading(s@, p@) == strip_leading(v@.skip(i as int), p@),
            v@ == s@,
        decreases n - i,
    {
        assert(v@.subrange(i as int, n as int) == v@.skip(i as int));
        assert(v@.skip(i as int).skip(plen as int) == v@.skip(i + plen));
        i = i + plen;
    }
    proof {
        assert(v@.subrange(i as int, n as int) == v@.skip(i as int));
        if plen > 0 && plen > n - i {
            assert(!crate::text::starts_with(v@.skip(i as int), p@));
        }
    }
    assert(v@.subrange(i as int, n as int) == v@.skip(i as int));
    crate::text::string_of(v.as_slice(), i, n)
}

/// `true` when `needle` occurs in `s`.
pub open spec fn has_substring(s: Seq<char>, needle: Seq<char>) -> bool {
    exists|i: int| 0 <= i && i + needle.len() <= s.len() && #[trigger] s.subrange(i, i + needle.len()) == needle
}

/// `true` when the kind of `n` has `type` in it.
pub open spec fn kind_mentions_type(n: SyntaxNode) -> bool {
    has_substring(n.kind@, "type"@)
}

pub fn node_kind_mentions_type(n: &SyntaxNode) -> (b: bool)
    ensures
        b == kind_mentions_type(*n),
{
    let v = crate::text::chars_of(n.kind.as_str());
    let len = v.len();
    proof { reveal_strlit("type"); }
    if len < 4 {
        assert(!has_substring(n.kind@, "type"@)) by {
            if has_substring(n.kind@, "type"@) {
                let i = choose|i: int| 0 <= i && i + 4 <= v@.len() && #[trigger] v@.subrange(i, i + 4) == "type"@;
            }
        }
        return false;
    }
    let mut i: usize = 0;
    while i <= len - 4
        invariant
            len == v@.len(),
            v@ == n.kind@,
            4 <= len,
            i <= len - 3,
            forall|k: int| 0 <= k < i ==> #[trigger] v@.subrange(k, k + 4) != "type"@,
        decreases len - i,
    {
        if crate::text::range_eq(v.as_slice(), i, i + 4, "type") {
            assert(n.kind@.subrange(i as int, i + "type"@.len()) == "type"@);
            return true;
        }
        i = i + 1;
    }
    assert(!has_substring(n.kind@, "type"@)) by {
        if has_substring(n.kind@, "type"@) {
            let k = choose|k: int| 0 <= k && k + 4 <= v@.len() && #[trigger] v@.subrange(k, k + 4) == "type"@;
            assert(k < i);
        }
    }
    false
}

/// The identifiers that the definition `n` uses, once each, without `name`.
pub fn used_identifiers_of(n: &SyntaxNode, name: &String) -> (r: Vec<String>)
    ensures
        crate::symbols::strings_view(r@) == used_identifiers(*n, name@),
{
    let mut all: Vec<String> = Vec::new();
    assert(crate::symbols::strings_view(all@) =~= Seq::<Seq<char>>::empty());
    collect_idents(n, &mut all);
    let ghost full = crate::symbols::strings_view(all@);
    let mut r: Vec<String> = Vec::new();
    let mut i: usize = 0;
    while i < all.len()
        invariant
            i <= all@.len(),
            full == crate::symbols::strings_view(all@),
            crate::symbols::strings_view(r@) == full.take(i as int).filter(other_than(name@)),
        decreases all@.len() - i,
    {
        assert(full.take(i + 1).drop_last() == full.take(i as int));
        proof { reveal_with_fuel(Seq::<_>::filter, 1); }
        let ghost before = crate::symbols::strings_view(r@);
        if !(all[i] == *name) {
            r.push(all[i].clone());
            assert(crate::symbols::strings_view(r@) =~= before.push(full[i as int]));
        }
        i = i + 1;
    }
    assert(full.take(all@.len() as int) == full);
    r
}


/// The text of `n`, or `default` where it has none.
pub open spec fn text_or(n: SyntaxNode, default: Seq<char>) -> Seq<char> {
    match n.text {
        Some(t) => t@,
        None => default,
    }
}

/// The trimmed text of `n`, or of `default` where it has none.
pub fn node_trimmed_text_or(n: &SyntaxNode, default: &str) -> (r: String)
    ensures
        r@ == trim(text_or(*n, default@)),
{
    match &n.text {
        Some(t) => crate::text::trim_string(t.as_str()),
        None => crate::text::trim_string(default),
    }
}

} // verus!

verus! {

/// A child that `field_child` finds is one of the node's children.
pub proof fn lemma_field_child_is_child(n: SyntaxNode, f: Seq<char>)
    ensures
        field_child(n, f) matches Some(c) ==> exists|i: int| 0 <= i < n.children@.len() && n.children@[i] == c,
{
    lemma_first_in_field_member(n.children@, f);
}

proof fn lemma_first_in_field_member(cs: Seq<SyntaxNode>, f: Seq<char>)
    ensures
        first_in_field(cs, f) matches Some(c) ==> exists|i: int| 0 <= i < cs.len() && cs[i] == c,
    decreases cs.len(),
{
    if cs.len() > 0 {
        lemma_first_in_field_member(cs.drop_first(), f);
        if !(cs[0].field is Some && cs[0].field->0@ == f) {
            if let Some(c) = first_in_field(cs.drop_first(), f) {
                let i = choose|i: int| 0 <= i < cs.drop_first().len() && cs.drop_first()[i] == c;
                assert(cs[i + 1] == c);
            }
        }
    }
}

} // verus!

verus! {

proof fn lemma_idents_acc_no_dups(acc: Seq<Seq<char>>, n: SyntaxNode)
    requires
        acc.no_duplicates(),
    ensures
        idents_acc(acc, n).no_duplicates(),
    decreases n,
{
    let a = add_ident(acc, n);
    if is_ident_node(n) && !acc.contains(trim(n.text->0@)) {
        let x = trim(n.text->0@);
        assert forall|i: int, j: int| 0 <= i < j < a.len() implies a[i] != a[j] by {
            if j == acc.len() {
                assert(acc.contains(acc[i]));
            }
        }
    }
    lemma_idents_acc_list_no_dups(a, n.children@);
}

proof fn lemma_idents_acc_list_no_dups(acc: Seq<Seq<char>>, cs: Seq<SyntaxNode>)
    requires
        acc.no_duplicates(),
    ensures
        idents_acc_list(acc, cs).no_duplicates(),
    decreases cs,
{
    if cs.len() > 0 {
        lemma_idents_acc_list_no_dups(acc, cs.drop_last());
        lemma_idents_acc_no_dups(idents_acc_list(acc, cs.drop_last()), cs.last());
    }
}

proof fn lemma_filter_out_no_dups(s: Seq<Seq<char>>, name: Seq<char>)
    requires
        s.no_duplicates(),
    ensures
        s.filter(other_than(name)).no_duplicates(),
        !s.filter(other_than(name)).contains(name),
    decreases s.len(),
{
    let p = other_than(name);
    reveal(Seq::filter);
    if s.len() > 0 {
        let rest = s.drop_last();
        assert(rest.no_duplicates()) by {
            assert forall|i: int, j: int| 0 <= i < j < rest.len() implies rest[i] != rest[j] by {
                assert(rest[i] == s[i] && rest[j] == s[j]);
            }
        }
        lemma_filter_out_no_dups(rest, name);
        let f = rest.filter(p);
        if p(s.last()) {
            assert(!f.contains(s.last())) by {
                if f.contains(s.last()) {
                    rest.lemma_filter_contains_rev(p, s.last());
                    let k = choose|k: int| 0 <= k < rest.len() && rest[k] == s.last();
                    assert(s[k] == s[s.len() - 1]);
                }
            }
            assert forall|i: int, j: int| 0 <= i < j < f.push(s.last()).len() implies f.push(s.last())[i] != f.push(
                s.last(),
            )[j] by {
                if j == f.len() {
                    assert(f.contains(f[i]));
                }
            }
            assert(!f.push(s.last()).contains(name)) by {
                if f.push(s.last()).contains(name) {
                    let k = choose|k: int| 0 <= k < f.push(s.last()).len() && f.push(s.last())[k] == name;
                    if k < f.len() {
                        assert(f.contains(name));
                    }
                }
            }
        }
    }
}

/// Law: the identifiers that a definition uses are listed each once, and
/// never with the name that the definition gives.
pub proof fn lemma_used_identifiers_distinct(n: SyntaxNode, name: Seq<char>)
    ensures
        used_identifiers(n, name).no_duplicates(),
        !used_identifiers(n, name).contains(name),
{
    lemma_idents_acc_no_dups(seq![], n);
    lemma_filter_out_no_dups(idents_acc(seq![], n), name);
}

/// The distinctness law for every definition node and name at once.
pub proof fn lemma_all_used_identifiers_distinct()
    ensures
        forall|n: SyntaxNode, name: Seq<char>|
            (#[trigger] used_identifiers(n, name)).no_duplicates() && !used_identifiers(n, name).contains(name),
{
    assert forall|n: SyntaxNode, name: Seq<char>|
        (#[trigger] used_identifiers(n, name)).no_duplicates() && !used_identifiers(n, name).contains(name) by {
        lemma_used_identifiers_distinct(n, name);
    }
}

} // verus!

//! Rename: replace every occurrence of the symbol under the cursor, after
//! checking that the new name is a valid identifier that clashes with no
//! declaration.

use vstd::prelude::*;
use crate::ast::{declares_directly, AstNode, Program};
use crate::definition::{
    collect_references, doc_refs, find_definition_in_ast, import_budget, lists_others, locs_view,
    refs_over, search_fits, spec_definition_in_ast, doc_definition, Location, ReferenceWalk,
};
use crate::document::{DocumentManager, uri_fits};
use crate::packages::PackageSearch;
use crate::position::{Position, Range};
use crate::strings::{chars_vec, text_eq};
use crate::unicode::{char_is_alphabetic, char_is_cjk, is_cjk, spec_char_is_alphabetic};
use crate::word::{get_word_at_position, is_word_char, spec_doc_word, spec_is_word_char};

verus! {

/// A replacement of the text in a range.
#[derive(Debug, Clone, PartialEq, Eq)]
pub struct TextEdit {
    /// The range replaced.
    pub range: Range,
    /// The text put in its place.
    pub new_text: String,
}

/// The edits to make in one document.
#[derive(Debug, Clone, PartialEq, Eq)]
pub struct DocumentEdits {
    /// The document's URI.
    pub uri: String,
    /// The edits, in the order their occurrences were found.
    pub edits: Vec<TextEdit>,
}

/// The changes of a rename, by document; `None` for an edit that changes
/// nothing.
#[derive(Debug, Clone, PartialEq, Eq)]
pub struct WorkspaceEdit {
    /// The edits of each document concerned.
    pub changes: Option<Vec<DocumentEdits>>,
}

/// The keywords of the Qi language.
pub open spec fn spec_is_qi_keyword(s: Seq<char>) -> bool {
    ||| s == "包"@ ||| s == "导入"@ ||| s == "导出"@ ||| s == "公开"@ ||| s == "私有"@
    ||| s == "可变"@ ||| s == "不可变"@ ||| s == "函数"@ ||| s == "异步函数"@ ||| s == "方法"@
    ||| s == "返回"@ ||| s == "等待"@ ||| s == "循环"@ ||| s == "当"@ ||| s == "对于"@
    ||| s == "如果"@ ||| s == "否则"@ ||| s == "匹配"@ ||| s == "跳出"@ ||| s == "继续"@
    ||| s == "结构体"@ ||| s == "枚举"@ ||| s == "接口"@ ||| s == "实现"@ ||| s == "使用"@
    ||| s == "作为"@ ||| s == "整数"@ ||| s == "浮点数"@ ||| s == "字符串"@ ||| s == "布尔"@
    ||| s == "字符"@ ||| s == "空"@ ||| s == "真"@ ||| s == "假"@ ||| s == "无"@
}

/// Check if a string is a Qi language keyword.
pub fn is_qi_keyword(name: &str) -> (r: bool)
    ensures
        r == spec_is_qi_keyword(name@),
{
    text_eq(name, "包") || text_eq(name, "导入") || text_eq(name, "导出") || text_eq(name, "公开")
        || text_eq(name, "私有") || text_eq(name, "可变") || text_eq(name, "不可变") || text_eq(
        name,
        "函数",
    ) || text_eq(name, "异步函数") || text_eq(name, "方法") || text_eq(name, "返回") || text_eq(
        name,
        "等待",
    ) || text_eq(name, "循环") || text_eq(name, "当") || text_eq(name, "对于") || text_eq(name, "如果")
        || text_eq(name, "否则") || text_eq(name, "匹配") || text_eq(name, "跳出") || text_eq(
        name,
        "继续",
    ) || text_eq(name, "结构体") || text_eq(name, "枚举") || text_eq(name, "接口") || text_eq(
        name,
        "实现",
    ) || text_eq(name, "使用") || text_eq(name, "作为") || text_eq(name, "整数") || text_eq(
        name,
        "浮点数",
    ) || text_eq(name, "字符串") || text_eq(name, "布尔") || text_eq(name, "字符") || text_eq(name, "空")
        || text_eq(name, "真") || text_eq(name, "假") || text_eq(name, "无")
}

/// A valid identifier: not empty, starting with a letter, `_` or a CJK
/// ideograph, made of word characters, and not a keyword.
pub open spec fn spec_is_valid_identifier(s: Seq<char>) -> bool {
    &&& s.len() > 0
    &&& (spec_char_is_alphabetic(s[0]) || s[0] == '_' || is_cjk(s[0]))
    &&& forall|i: int| 0 <= i < s.len() ==> #[trigger] spec_is_word_char(s[i])
    &&& !spec_is_qi_keyword(s)
}

/// Validate if a string is a valid identifier.
pub fn is_valid_identifier(name: &str) -> (r: bool)
    ensures
        r == spec_is_valid_identifier(name@),
{
    let cs = chars_vec(name);
    if cs.len() == 0 {
        return false;
    }
    let first = cs[0];
    if !char_is_alphabetic(first) && first != '_' && !char_is_cjk(first) {
        return false;
    }
    let mut i: usize = 0;
    while i < cs.len()
        invariant
            i <= cs@.len(),
            cs@ == name@,
            forall|j: int| 0 <= j < i ==> #[trigger] spec_is_word_char(cs@[j]),
        decreases cs.len() - i,
    {
        if !is_word_char(cs[i]) {
            return false;
        }
        i = i + 1;
    }
    if is_qi_keyword(name) {
        return false;
    }
    true
}

/// Whether a node declares `name`: a function, struct, enum, variable or
/// method of that name, or such a declaration inside a block, a branch or
/// a loop body.
pub open spec fn spec_node_contains_name(n: AstNode, name: Seq<char>) -> bool
    decreases n, 0int,
{
    match n {
        AstNode::FunctionDecl(f) => f.name@ == name,
        AstNode::StructDecl(sd) => sd.name@ == name,
        AstNode::EnumDecl(e) => e.name@ == name,
        AstNode::VariableDecl(v) => v.name@ == name,
        AstNode::MethodDecl(m) => m.method_name@ == name,
        AstNode::Block { statements } => spec_any_contains_name(statements@, 0, name),
        AstNode::If { condition, then_branch, else_branch } => spec_any_contains_name(
            then_branch@,
            0,
            name,
        ) || match else_branch {
            Some(b) => spec_node_contains_name(*b, name),
            None => false,
        },
        AstNode::While { condition, body } => spec_any_contains_name(body@, 0, name),
        AstNode::For { variable, range, body, span } => spec_any_contains_name(body@, 0, name),
        AstNode::Loop { body } => spec_any_contains_name(body@, 0, name),
        _ => false,
    }
}

/// Whether any of the nodes `ns[i..]` declares `name`.
pub open spec fn spec_any_contains_name(ns: Seq<AstNode>, i: int, name: Seq<char>) -> bool
    decreases ns, ns.len() - i,
{
    if 0 <= i < ns.len() {
        spec_node_contains_name(ns[i], name) || spec_any_contains_name(ns, i + 1, name)
    } else {
        false
    }
}

fn any_contains_name(nodes: &Vec<AstNode>, name: &str) -> (r: bool)
    ensures
        r == spec_any_contains_name(nodes@, 0, name@),
    decreases nodes, 1int,
{
    let mut i: usize = 0;
    while i < nodes.len()
        invariant
            i <= nodes@.len(),
            spec_any_contains_name(nodes@, 0, name@) == spec_any_contains_name(nodes@, i as int, name@),
        decreases nodes.len() - i,
    {
        assert(decreases_to!(nodes => nodes@[i as int]));
        if symbol_node_contains_name(&nodes[i], name) {
            return true;
        }
        i = i + 1;
    }
    false
}

/// Check if a syntax tree node declares a symbol with the given name.
pub fn symbol_node_contains_name(node: &AstNode, name: &str) -> (r: bool)
    ensures
        r == spec_node_contains_name(*node, name@),
    decreases node, 0int,
{
    match node {
        AstNode::FunctionDecl(f) => text_eq(f.name.as_str(), name),
        AstNode::StructDecl(sd) => text_eq(sd.name.as_str(), name),
        AstNode::EnumDecl(e) => text_eq(e.name.as_str(), name),
        AstNode::VariableDecl(v) => text_eq(v.name.as_str(), name),
        AstNode::MethodDecl(m) => text_eq(m.method_name.as_str(), name),
        AstNode::Block { statements } => any_contains_name(statements, name),
        AstNode::If { condition, then_branch, else_branch } => {
            if any_contains_name(then_branch, name) {
                return true;
            }
            match else_branch {
                Some(b) => symbol_node_contains_name(b, name),
                None => false,
            }
        },
        AstNode::While { condition, body } => any_contains_name(body, name),
        AstNode::For { variable, range, body, span } => any_contains_name(body, name),
        AstNode::Loop { body } => any_contains_name(body, name),
        _ => false,
    }
}

/// Whether a program declares `name` among its statements.
pub open spec fn spec_has_symbol_conflict(ast: Program, name: Seq<char>) -> bool {
    spec_any_contains_name(ast.statements@, 0, name)
}

/// Check if a syntax tree declares a symbol that clashes with the new name.
pub fn has_symbol_conflict(ast: &Program, new_name: &str) -> (r: bool)
    ensures
        r == spec_has_symbol_conflict(*ast, new_name@),
{
    any_contains_name(&ast.statements, new_name)
}

/// A rename is safe when the old name is no keyword and no open document's
/// syntax tree declares the new name.
pub open spec fn spec_is_rename_safe(dm: DocumentManager, old_name: Seq<char>, new_name: Seq<char>) -> bool {
    &&& !spec_is_qi_keyword(old_name)
    &&& forall|k: Seq<char>|
        #[trigger] dm.view().contains_key(k) && dm.view()[k].ast is Some ==> !spec_has_symbol_conflict(
            *dm.view()[k].ast->0,
            new_name,
        )
}

/// Check if a rename is safe.
pub fn is_rename_safe(old_name: &str, new_name: &str, document_manager: &DocumentManager) -> (r: bool)
    ensures
        r == spec_is_rename_safe(*document_manager, old_name@, new_name@),
{
    if is_qi_keyword(old_name) {
        return false;
    }
    let all_uris = document_manager.get_all_uris();
    let ghost dm = *document_manager;
    let mut i: usize = 0;
    while i < all_uris.len()
        invariant
            i <= all_uris@.len(),
            dm == *document_manager,
            forall|j: int|
                0 <= j < i && #[trigger] dm.view().contains_key(all_uris@[j]@) && dm.view()[all_uris@[j]@].ast is Some
                    ==> !spec_has_symbol_conflict(*dm.view()[all_uris@[j]@].ast->0, new_name@),
        decreases all_uris.len() - i,
    {
        match document_manager.get_document_ast(all_uris[i].as_str()) {
            Some(ast) => {
                if has_symbol_conflict(&ast, new_name) {
                    return false;
                }
            },
            None => {},
        }
        i = i + 1;
    }
    proof {
        assert forall|k: Seq<char>|
            #[trigger] dm.view().contains_key(k) && dm.view()[k].ast is Some implies !spec_has_symbol_conflict(
            *dm.view()[k].ast->0,
            new_name@,
        ) by {
            let j = choose|j: int| 0 <= j < all_uris@.len() && #[trigger] all_uris@[j]@ == k;
            assert(dm.view().contains_key(all_uris@[j]@));
        }
    }
    true
}

/// The walk of the rename's reference search: field accesses, array
/// indexing and address operations are not looked into.
pub open spec fn rename_walk() -> ReferenceWalk {
    ReferenceWalk { field_access: false, array_access: false, address_ops: false }
}

/// The occurrences a rename replaces, given the order of the other
/// documents: the definition in the current document's syntax tree, then
/// the uses in the current document, then in the others.
pub open spec fn rename_occurrences(
    dm: DocumentManager,
    search: PackageSearch,
    uri: Seq<char>,
    symbol: Seq<char>,
    order: Seq<Seq<char>>,
) -> Seq<(Seq<char>, Range)> {
    (match doc_definition(dm, search, uri, symbol) {
        Some(l) => seq![l],
        None => Seq::empty(),
    }) + doc_refs(dm, uri, symbol, rename_walk()) + refs_over(dm, order, symbol, rename_walk())
}

/// Find all occurrences of a symbol for a rename.
pub fn find_all_references(symbol: &str, uri: &str, document_manager: &DocumentManager, search: &PackageSearch) -> (r:
    Vec<Location>)
    requires
        document_manager.wf(),
        uri_fits(uri@),
        search_fits(*search),
    ensures
        exists|order: Seq<Seq<char>>|
            lists_others(*document_manager, uri@, order) && locs_view(r@) == rename_occurrences(
                *document_manager,
                *search,
                uri@,
                symbol@,
                order,
            ),
{
    let mut references: Vec<Location> = Vec::new();
    match document_manager.get_document_ast(uri) {
        Some(ast) => {
            match find_definition_in_ast(symbol, uri, &ast, document_manager, search) {
                Some(definition) => {
                    references.push(definition);
                },
                None => {},
            }
        },
        None => {},
    }
    let ghost head = locs_view(references@);
    let walk = ReferenceWalk { field_access: false, array_access: false, address_ops: false };
    let mut found = collect_references(symbol, uri, walk, document_manager);
    let ghost found_view = locs_view(found@);
    references.append(&mut found);
    proof {
        assert(locs_view(references@) =~= head + found_view);
        let dm = *document_manager;
        let order = choose|order: Seq<Seq<char>>|
            lists_others(dm, uri@, order) && found_view == doc_refs(dm, uri@, symbol@, rename_walk())
                + refs_over(dm, order, symbol@, rename_walk());
        assert(locs_view(references@) =~= rename_occurrences(dm, *search, uri@, symbol@, order));
    }
    references
}

/// The ranges of the occurrences in document `u`, in order.
pub open spec fn ranges_for(refs: Seq<(Seq<char>, Range)>, u: Seq<char>) -> Seq<Range>
    decreases refs.len(),
{
    if refs.len() == 0 {
        Seq::empty()
    } else {
        ranges_for(refs.drop_last(), u) + if refs.last().0 == u {
            seq![refs.last().1]
        } else {
            Seq::empty()
        }
    }
}

/// The ranges of a document's edits.
pub open spec fn edit_ranges(edits: Seq<TextEdit>) -> Seq<Range> {
    edits.map_values(|e: TextEdit| e.range)
}

/// `groups` holds the edits for `refs` by document: one group per
/// document that has occurrences, each with the occurrences' ranges in
/// order, every edit writing `new_name`.
pub open spec fn groups_match(groups: Seq<DocumentEdits>, refs: Seq<(Seq<char>, Range)>, new_name: Seq<char>) -> bool {
    &&& forall|a: int, b: int| 0 <= a < b < groups.len() ==> #[trigger] groups[a].uri@ != #[trigger] groups[b].uri@
    &&& forall|a: int| 0 <= a < groups.len() ==> edit_ranges(#[trigger] groups[a].edits@) == ranges_for(refs, groups[a].uri@)
    &&& forall|a: int| 0 <= a < groups.len() ==> ranges_for(refs, #[trigger] groups[a].uri@).len() > 0
    &&& forall|a: int, e: int|
        0 <= a < groups.len() && 0 <= e < groups[a].edits@.len() ==> (#[trigger] groups[a].edits@[e]).new_text@
            == new_name
    &&& forall|u: Seq<char>|
        #[trigger] ranges_for(refs, u).len() > 0 ==> exists|a: int| 0 <= a < groups.len() && #[trigger] groups[a].uri@ == u
}

fn find_group(groups: &Vec<DocumentEdits>, uri: &str) -> (r: Option<usize>)
    ensures
        match r {
            Some(g) => g < groups@.len() && groups@[g as int].uri@ == uri@,
            None => forall|a: int| 0 <= a < groups@.len() ==> #[trigger] groups@[a].uri@ != uri@,
        },
{
    let mut g: usize = 0;
    while g < groups.len()
        invariant
            g <= groups@.len(),
            forall|a: int| 0 <= a < g ==> #[trigger] groups@[a].uri@ != uri@,
        decreases groups.len() - g,
    {
        if text_eq(groups[g].uri.as_str(), uri) {
            return Some(g);
        }
        g = g + 1;
    }
    None
}

/// Group the occurrences by document into edits that write `new_name`.
pub fn group_edits(references: Vec<Location>, new_name: &str) -> (r: Vec<DocumentEdits>)
    ensures
        groups_match(r@, locs_view(references@), new_name@),
{
    let mut groups: Vec<DocumentEdits> = Vec::new();
    let ghost refs = locs_view(references@);
    let mut i: usize = 0;
    proof {
        assert(refs.take(0) =~= Seq::<(Seq<char>, Range)>::empty());
    }
    while i < references.len()
        invariant
            i <= references@.len(),
            refs == locs_view(references@),
            groups_match(groups@, refs.take(i as int), new_name@),
        decreases references.len() - i,
    {
        let location = &references[i];
        let edit = TextEdit { range: location.range, new_text: String::from_str(new_name) };
        let ghost pre = refs.take(i as int);
        let ghost post = refs.take(i + 1);
        let ghost u = location.uri@;
        proof {
            assert(post.drop_last() =~= pre);
            assert(post.last() == (u, location.range));
            assert forall|v: Seq<char>| #[trigger] ranges_for(post, v) == ranges_for(pre, v) + (if v == u {
                seq![location.range]
            } else {
                Seq::empty()
            }) by {}
        }
        let ghost old_groups = groups@;
        match find_group(&groups, location.uri.as_str()) {
            Some(g) => {
                let mut group = groups.remove(g);
                let ghost old_edits = group.edits@;
                group.edits.push(edit);
                groups.insert(g, group);
                proof {
                    assert forall|a: int| 0 <= a < groups@.len() && a != g implies groups@[a] == old_groups[a] by {}
                    assert(groups@.len() == old_groups.len());
                    assert(edit_ranges(group.edits@) =~= edit_ranges(old_edits).push(location.range));
                    assert(groups@[g as int] == group);
                    assert forall|a: int| 0 <= a < groups@.len() implies edit_ranges(#[trigger] groups@[a].edits@)
                        == ranges_for(post, groups@[a].uri@) by {
                        if a != g {
                            assert(groups@[a] == old_groups[a]);
                            assert(old_groups[a].uri@ != u);
                        }
                    }
                    assert forall|a: int| 0 <= a < groups@.len() implies ranges_for(post, #[trigger] groups@[a].uri@).len() > 0 by {
                        if a != g {
                            assert(groups@[a] == old_groups[a]);
                        }
                    }
                    assert forall|a: int, e: int|
                        0 <= a < groups@.len() && 0 <= e < groups@[a].edits@.len() implies (#[trigger] groups@[a].edits@[e]).new_text@
                            == new_name@ by {
                        if a != g {
                            assert(groups@[a] == old_groups[a]);
                        } else if e < old_edits.len() {
                            assert(groups@[a].edits@[e] == old_edits[e]);
                        }
                    }
                    assert forall|a: int, b: int| 0 <= a < b < groups@.len() implies #[trigger] groups@[a].uri@ != #[trigger] groups@[b].uri@ by {
                        assert(groups@[a].uri@ == old_groups[a].uri@);
                        assert(groups@[b].uri@ == old_groups[b].uri@);
                    }
                    assert forall|u2: Seq<char>| #[trigger] ranges_for(post, u2).len() > 0 implies exists|a: int|
                        0 <= a < groups@.len() && #[trigger] groups@[a].uri@ == u2 by {
                        if u2 == u {
                            assert(groups@[g as int].uri@ == u2);
                        } else {
                            assert(ranges_for(pre, u2).len() > 0);
                            let a = choose|a: int| 0 <= a < old_groups.len() && #[trigger] old_groups[a].uri@ == u2;
                            assert(a != g);
                            assert(groups@[a].uri@ == u2);
                        }
                    }
                }
            },
            None => {
                let mut edits: Vec<TextEdit> = Vec::new();
                edits.push(edit);
                groups.push(DocumentEdits { uri: location.uri.clone(), edits });
                proof {
                    assert(ranges_for(pre, u).len() == 0);
                    assert(ranges_for(pre, u) =~= Seq::<Range>::empty());
                    assert(edit_ranges(edits@) =~= seq![location.range]);
                    let n = old_groups.len() as int;
                    assert forall|a: int| 0 <= a < n implies #[trigger] groups@[a] == old_groups[a] by {}
                    assert forall|a: int| 0 <= a < groups@.len() implies edit_ranges(#[trigger] groups@[a].edits@)
                        == ranges_for(post, groups@[a].uri@) by {
                        if a < n {
                            assert(groups@[a] == old_groups[a]);
                            assert(old_groups[a].uri@ != u);
                        }
                    }
                    assert forall|a: int| 0 <= a < groups@.len() implies ranges_for(post, #[trigger] groups@[a].uri@).len() > 0 by {
                        if a < n {
                            assert(groups@[a] == old_groups[a]);
                        }
                    }
                    assert forall|a: int, e: int|
                        0 <= a < groups@.len() && 0 <= e < groups@[a].edits@.len() implies (#[trigger] groups@[a].edits@[e]).new_text@
                            == new_name@ by {
                        if a < n {
                            assert(groups@[a] == old_groups[a]);
                        }
                    }
                    assert forall|a: int, b: int| 0 <= a < b < groups@.len() implies #[trigger] groups@[a].uri@ != #[trigger] groups@[b].uri@ by {
                        assert(groups@[a] == old_groups[a]);
                        if b < n {
                            assert(groups@[b] == old_groups[b]);
                        }
                    }
                    assert forall|u2: Seq<char>| #[trigger] ranges_for(post, u2).len() > 0 implies exists|a: int|
                        0 <= a < groups@.len() && #[trigger] groups@[a].uri@ == u2 by {
                        if u2 == u {
                            assert(groups@[groups@.len() - 1].uri@ == u2);
                        } else {
                            assert(ranges_for(pre, u2).len() > 0);
                            let a = choose|a: int| 0 <= a < old_groups.len() && #[trigger] old_groups[a].uri@ == u2;
                            assert(groups@[a] == old_groups[a]);
                            assert(groups@[a].uri@ == u2);
                        }
                    }
                }
            },
        }
        i = i + 1;
    }
    proof {
        assert(refs.take(references@.len() as int) =~= refs);
    }
    groups
}

/// An edit that changes nothing.
pub open spec fn is_empty_edit(e: WorkspaceEdit) -> bool {
    e.changes is None
}

/// What a rename of the symbol at `position` to `new_name` gives: nothing
/// without a word there or for an invalid new name, an empty edit when the
/// name stays, nothing when the rename is not safe, else the edits of
/// every occurrence.
pub open spec fn spec_rename_result(
    dm: DocumentManager,
    search: PackageSearch,
    uri: Seq<char>,
    position: Position,
    new_name: Seq<char>,
    r: Option<WorkspaceEdit>,
) -> bool {
    match spec_doc_word(dm, uri, position) {
        None => r is None,
        Some(old) => if !spec_is_valid_identifier(new_name) {
            r is None
        } else if old == new_name {
            r matches Some(e) && is_empty_edit(e)
        } else if !spec_is_rename_safe(dm, old, new_name) {
            r is None
        } else {
            exists|order: Seq<Seq<char>>|
                lists_others(dm, uri, order) && {
                    let occ = rename_occurrences(dm, search, uri, old, order);
                    if occ.len() == 0 {
                        r matches Some(e) && is_empty_edit(e)
                    } else {
                        r matches Some(e) && (e.changes matches Some(groups) && groups_match(
                            groups@,
                            occ,
                            new_name,
                        ))
                    }
                }
        },
    }
}

/// Perform a rename of the symbol at `position` to `new_name`.
pub fn perform_rename(
    uri: &str,
    position: Position,
    new_name: &str,
    document_manager: &DocumentManager,
    search: &PackageSearch,
) -> (r: Option<WorkspaceEdit>)
    requires
        document_manager.wf(),
        uri_fits(uri@),
        search_fits(*search),
    ensures
        spec_rename_result(*document_manager, *search, uri@, position, new_name@, r),
{
    let old_name = match get_word_at_position(uri, position, document_manager) {
        Some(word) => word,
        None => {
            return None;
        },
    };
    if !is_valid_identifier(new_name) {
        return None;
    }
    if text_eq(old_name.as_str(), new_name) {
        return Some(WorkspaceEdit { changes: None });
    }
    if !is_rename_safe(old_name.as_str(), new_name, document_manager) {
        return None;
    }
    let references = find_all_references(old_name.as_str(), uri, document_manager, search);
    if references.len() == 0 {
        return Some(WorkspaceEdit { changes: None });
    }
    let ghost refs = locs_view(references@);
    let changes = group_edits(references, new_name);
    Some(WorkspaceEdit { changes: Some(changes) })
}

proof fn lemma_any_contains_declared(ns: Seq<AstNode>, j: int, i: int, name: Seq<char>)
    requires
        0 <= j <= i < ns.len(),
        declares_directly(ns[i], name),
    ensures
        spec_any_contains_name(ns, j, name),
    decreases i - j,
{
    if j < i {
        lemma_any_contains_declared(ns, j + 1, i, name);
    } else {
        assert(spec_node_contains_name(ns[i], name)) by {
            match ns[i] {
                AstNode::FunctionDecl(f) => {},
                AstNode::StructDecl(sd) => {},
                AstNode::EnumDecl(e) => {},
                AstNode::VariableDecl(v) => {},
                AstNode::MethodDecl(m) => {},
                _ => {},
            }
        }
    }
}

/// A name that one of a program's top-level statements declares (as a
/// function, struct, enum, variable or method) clashes with the program.
pub proof fn law_declared_name_conflicts(ast: Program, i: int, name: Seq<char>)
    requires
        0 <= i < ast.statements@.len(),
        declares_directly(ast.statements@[i], name),
    ensures
        spec_has_symbol_conflict(ast, name),
{
    lemma_any_contains_declared(ast.statements@, 0, i, name);
}

/// A name declared directly inside the body of a top-level block, loop or
/// the first branch of a conditional clashes with the program too.
pub proof fn law_nested_declared_name_conflicts(ast: Program, i: int, k: int, name: Seq<char>)
    requires
        0 <= i < ast.statements@.len(),
        ({
            let n = ast.statements@[i];
            ||| n matches AstNode::Block { statements } && 0 <= k < statements@.len() && declares_directly(
                statements@[k],
                name,
            )
            ||| n matches AstNode::While { body, .. } && 0 <= k < body@.len() && declares_directly(body@[k], name)
            ||| n matches AstNode::For { body, .. } && 0 <= k < body@.len() && declares_directly(body@[k], name)
            ||| n matches AstNode::Loop { body } && 0 <= k < body@.len() && declares_directly(body@[k], name)
            ||| n matches AstNode::If { then_branch, .. } && 0 <= k < then_branch@.len() && declares_directly(
                then_branch@[k],
                name,
            )
        }),
    ensures
        spec_has_symbol_conflict(ast, name),
{
    let n = ast.statements@[i];
    match n {
        AstNode::Block { statements } => {
            lemma_any_contains_declared(statements@, 0, k, name);
        },
        AstNode::While { body, .. } => {
            lemma_any_contains_declared(body@, 0, k, name);
        },
        AstNode::For { body, .. } => {
            lemma_any_contains_declared(body@, 0, k, name);
        },
        AstNode::Loop { body } => {
            lemma_any_contains_declared(body@, 0, k, name);
        },
        AstNode::If { then_branch, .. } => {
            lemma_any_contains_declared(then_branch@, 0, k, name);
        },
        _ => {},
    }
    assert(spec_node_contains_name(n, name));
    lemma_any_contains_name_at(ast.statements@, 0, i, name);
}

proof fn lemma_any_contains_name_at(ns: Seq<AstNode>, j: int, i: int, name: Seq<char>)
    requires
        0 <= j <= i < ns.len(),
        spec_node_contains_name(ns[i], name),
    ensures
        spec_any_contains_name(ns, j, name),
    decreases i - j,
{
    if j < i {
        lemma_any_contains_name_at(ns, j + 1, i, name);
    }
}

/// A rename to a name that a top-level statement of an open document
/// declares is refused: whatever the symbol under the cursor, the result
/// of `perform_rename` is `None` (unless that symbol already bears the new
/// name, when the edit is empty).
pub proof fn law_rename_to_declared_name_is_refused(
    dm: DocumentManager,
    search: PackageSearch,
    uri: Seq<char>,
    position: Position,
    new_name: Seq<char>,
    r: Option<WorkspaceEdit>,
    k: Seq<char>,
    i: int,
)
    requires
        spec_rename_result(dm, search, uri, position, new_name, r),
        dm.view().contains_key(k),
        dm.view()[k].ast matches Some(a) && 0 <= i < a.statements@.len() && declares_directly(
            a.statements@[i],
            new_name,
        ),
        spec_doc_word(dm, uri, position) != Some(new_name),
    ensures
        r is None,
{
    let a = *dm.view()[k].ast->0;
    law_declared_name_conflicts(a, i, new_name);
    assert(!spec_is_rename_safe(dm, spec_doc_word(dm, uri, position)->0, new_name) || spec_doc_word(
        dm,
        uri,
        position,
    ) is None) by {
        if spec_doc_word(dm, uri, position) is Some {
            assert(dm.view().contains_key(k) && dm.view()[k].ast is Some);
        }
    }
}

/// Every non-empty word made only of CJK ideographs and `_` that is not
/// a reserved word is a valid new name; no reserved word is.
pub proof fn law_valid_identifiers(s: Seq<char>)
    ensures
        s.len() > 0 && (forall|i: int| 0 <= i < s.len() ==> is_cjk(#[trigger] s[i]) || s[i] == '_')
            && !spec_is_qi_keyword(s) ==> spec_is_valid_identifier(s),
        spec_is_qi_keyword(s) ==> !spec_is_valid_identifier(s),
{
}

/// A reserved word cannot be renamed: with a reserved word under the
/// cursor and a valid new name that differs from it, `perform_rename`
/// gives nothing.
pub proof fn law_reserved_word_not_renamed(
    dm: DocumentManager,
    search: PackageSearch,
    uri: Seq<char>,
    position: Position,
    new_name: Seq<char>,
    r: Option<WorkspaceEdit>,
)
    requires
        spec_rename_result(dm, search, uri, position, new_name, r),
        spec_doc_word(dm, uri, position) matches Some(old) && spec_is_qi_keyword(old) && old != new_name,
    ensures
        r is None,
{
}

} // verus!

//! Find all references: every use of the symbol under the cursor, in the
//! current document and in every other open document.

use vstd::prelude::*;
use crate::definition::{
    collect_references, doc_refs, find_definition_in_ast, import_budget, lists_others, locs_view,
    refs_over, search_fits, spec_definition_in_ast, doc_definition, Location, ReferenceWalk,
};
use crate::document::{DocumentManager, uri_fits};
use crate::packages::PackageSearch;
use crate::position::{lsp_pos_of, DocumentPosition, Position, Range};
use crate::word::{get_word_at_position, spec_doc_word};

verus! {

/// The walk of a reference search: every construct is looked into.
pub open spec fn full_walk() -> ReferenceWalk {
    ReferenceWalk { field_access: true, array_access: true, address_ops: true }
}

/// The declaration, when asked for: the definition of `word` in the
/// syntax tree of the document at `uri`.
pub open spec fn declaration_part(
    dm: DocumentManager,
    search: PackageSearch,
    uri: Seq<char>,
    word: Seq<char>,
    include_declaration: bool,
) -> Seq<(Seq<char>, Range)> {
    if include_declaration {
        match doc_definition(dm, search, uri, word) {
            Some(l) => seq![l],
            None => Seq::empty(),
        }
    } else {
        Seq::empty()
    }
}

/// Find all references to the symbol at `position`: its declaration when
/// asked for, then its uses in the document at `uri`, then in every other
/// open document.
pub fn find_all_references(
    uri: &str,
    position: DocumentPosition,
    include_declaration: bool,
    document_manager: &DocumentManager,
    search: &PackageSearch,
) -> (r: Vec<Location>)
    requires
        document_manager.wf(),
        uri_fits(uri@),
        search_fits(*search),
    ensures
        match spec_doc_word(*document_manager, uri@, lsp_pos_of(position)) {
            None => r@.len() == 0,
            Some(word) => exists|order: Seq<Seq<char>>|
                lists_others(*document_manager, uri@, order) && locs_view(r@) == declaration_part(
                    *document_manager,
                    *search,
                    uri@,
                    word,
                    include_declaration,
                ) + doc_refs(*document_manager, uri@, word, full_walk()) + refs_over(
                    *document_manager,
                    order,
                    word,
                    full_walk(),
                ),
        },
{
    let word = match get_word_at_position(uri, Position::from(position), document_manager) {
        Some(word) => word,
        None => {
            return Vec::new();
        },
    };
    let mut references: Vec<Location> = Vec::new();
    if include_declaration {
        match document_manager.get_document_ast(uri) {
            Some(ast) => {
                match find_definition_in_ast(word.as_str(), uri, &ast, document_manager, search) {
                    Some(definition) => {
                        references.push(definition);
                    },
                    None => {},
                }
            },
            None => {},
        }
    }
    let ghost head = locs_view(references@);
    assert(head =~= declaration_part(*document_manager, *search, uri@, word@, include_declaration));
    let walk = ReferenceWalk { field_access: true, array_access: true, address_ops: true };
    let mut found = collect_references(word.as_str(), uri, walk, document_manager);
    let ghost found_view = locs_view(found@);
    let ghost before = references@;
    references.append(&mut found);
    proof {
        assert(locs_view(references@) =~= head + found_view);
        let dm = *document_manager;
        let order = choose|order: Seq<Seq<char>>|
            lists_others(dm, uri@, order) && found_view == doc_refs(dm, uri@, word@, full_walk())
                + refs_over(dm, order, word@, full_walk());
        assert(locs_view(references@) =~= head + doc_refs(dm, uri@, word@, full_walk()) + refs_over(
            dm,
            order,
            word@,
            full_walk(),
        ));
    }
    references
}

} // verus!

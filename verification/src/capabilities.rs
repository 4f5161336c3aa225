use crate::text::texts;
use vstd::string::*;
use vstd::prelude::*;

verus! {

/// The documents a registration applies to: a language, a URI scheme and a
/// glob pattern.
pub struct DocFilter {
    pub language: String,
    pub scheme: String,
    pub pattern: String,
}

/// What the sTeX language server announces of itself to an editor: the
/// values of its capabilities record. Every service it announces reports
/// its progress; what is not here is announced as absent (formatting,
/// colours) or as a plain yes.
pub struct ServerCaps {
    /// The encoding positions are counted in.
    pub position_encoding: String,
    pub sync_open_close: bool,
    /// Changes are sent incrementally (else whole).
    pub sync_incremental: bool,
    pub sync_will_save: bool,
    pub sync_will_save_wait_until: bool,
    pub sync_save: bool,
    /// The semantic token types, by their index (see `STeXSemanticTokens`).
    pub token_types: Vec<String>,
    pub token_modifiers: Vec<String>,
    pub tokens_range: bool,
    pub tokens_delta: bool,
    /// The documents the text-document registrations apply to.
    pub document_filters: Vec<DocFilter>,
    /// The scheme and glob of the files whose creation, renaming and
    /// deletion the server wants to hear of.
    pub file_scheme: String,
    pub file_glob: String,
    pub code_action_kinds: Vec<String>,
    pub workspace_change_listener: String,
    pub document_symbol_label: String,
    pub semantic_tokens_id: String,
    pub selection_range_id: String,
    pub type_definition_id: String,
    pub implementation_id: String,
    pub declaration_id: String,
    pub folding_range_id: String,
    pub inline_value_id: String,
    pub inlay_hint_id: String,
    pub diagnostic_id: String,
    pub linked_editing_range_id: String,
    pub inter_file_dependencies: bool,
    pub workspace_diagnostics: bool,
    pub inlay_hint_resolve: bool,
    pub rename_prepare: bool,
    pub call_hierarchy: bool,
    pub formatting: bool,
}

/// The semantic token types the server announces, in the order of
/// `STeXSemanticTokens`.
pub open spec fn token_type_names() -> Seq<Seq<char>> {
    seq![
        "enumMember"@,
        "keyword"@,
        "string"@,
        "regexp"@,
        "number"@,
        "variable"@,
        "property"@,
        "operator"@,
        "typeParameter"@,
        "type"@,
        "enum"@,
        "modifier"@,
        "comment"@,
        "decorator"@,
    ]
}

/// The kinds of code actions the server announces.
pub open spec fn code_action_kind_names() -> Seq<Seq<char>> {
    seq![
        "quickfix"@,
        "snify/annotate"@,
        "refactor"@,
        "source"@,
        "source.organizeImports"@,
        "source.fixAll"@,
    ]
}

/// The filter has this language, scheme and pattern.
pub open spec fn filter_is(f: DocFilter, language: Seq<char>, scheme: Seq<char>, pattern: Seq<char>) -> bool {
    f.language@ == language && f.scheme@ == scheme && f.pattern@ == pattern
}

/// `c` is what the server announces.
pub open spec fn server_caps(c: ServerCaps) -> bool {
    &&& c.position_encoding@ == "utf-16"@
    &&& c.sync_open_close && c.sync_incremental && !c.sync_will_save && !c.sync_will_save_wait_until
        && c.sync_save
    &&& texts(c.token_types@) == token_type_names()
    &&& c.token_modifiers@.len() == 0
    &&& c.tokens_range && c.tokens_delta
    &&& c.document_filters@.len() == 2
    &&& filter_is(c.document_filters@[0], "tex"@, "file"@, "**/*.tex"@)
    &&& filter_is(c.document_filters@[1], "latex"@, "file"@, "**/*.tex"@)
    &&& c.file_scheme@ == "file"@ && c.file_glob@ == "**/*.tex"@
    &&& texts(c.code_action_kinds@) == code_action_kind_names()
    &&& c.workspace_change_listener@ == "flams-change-listener"@
    &&& c.document_symbol_label@ == "FLAMS"@
    &&& c.semantic_tokens_id@ == "stex-sem-tokens"@
    &&& c.selection_range_id@ == "stex-selec-range"@
    &&& c.type_definition_id@ == "stex-type-def"@
    &&& c.implementation_id@ == "stex-impl"@
    &&& c.declaration_id@ == "stex-decl"@
    &&& c.folding_range_id@ == "stex-folding-range"@
    &&& c.inline_value_id@ == "stex-inline-value"@
    &&& c.inlay_hint_id@ == "stex-inlay-hint"@
    &&& c.diagnostic_id@ == "stex-diagnostic"@
    &&& c.linked_editing_range_id@ == "stex-linked-editing-range"@
    &&& c.inter_file_dependencies && !c.workspace_diagnostics
    &&& !c.inlay_hint_resolve && c.rename_prepare && c.call_hierarchy && !c.formatting
}

fn owned(s: &str) -> (r: String)
    ensures
        r@ == s@,
{
    s.to_string()
}

fn doc_filter(language: &str) -> (f: DocFilter)
    ensures
        filter_is(f, language@, "file"@, "**/*.tex"@),
{
    DocFilter { language: owned(language), scheme: owned("file"), pattern: owned("**/*.tex") }
}

fn strings(v: &[&str]) -> (r: Vec<String>)
    ensures
        r@.len() == v@.len(),
        forall|i: int| 0 <= i < v@.len() ==> (#[trigger] r@[i])@ == v@[i]@,
{
    let mut out: Vec<String> = Vec::new();
    let mut i: usize = 0;
    while i < v.len()
        invariant
            i <= v@.len(),
            out@.len() == i,
            forall|k: int| 0 <= k < i ==> (#[trigger] out@[k])@ == v@[k]@,
        decreases v@.len() - i,
    {
        out.push(owned(v[i]));
        i = i + 1;
    }
    out
}

/// What the server announces of itself (see `server_caps`).
pub fn capabilities() -> (c: ServerCaps)
    ensures
        server_caps(c),
{
    proof {
        reveal_strlit("utf-16");
        reveal_strlit("file");
        reveal_strlit("**/*.tex");
        reveal_strlit("tex");
        reveal_strlit("latex");
    }
    let types: [&str; 14] = [
        "enumMember",
        "keyword",
        "string",
        "regexp",
        "number",
        "variable",
        "property",
        "operator",
        "typeParameter",
        "type",
        "enum",
        "modifier",
        "comment",
        "decorator",
    ];
    let token_types = strings(types.as_slice());
    assert(texts(token_types@) =~= token_type_names());
    let kinds: [&str; 6] = [
        "quickfix",
        "snify/annotate",
        "refactor",
        "source",
        "source.organizeImports",
        "source.fixAll",
    ];
    let code_action_kinds = strings(kinds.as_slice());
    assert(texts(code_action_kinds@) =~= code_action_kind_names());
    let document_filters = vec![doc_filter("tex"), doc_filter("latex")];
    ServerCaps {
        position_encoding: owned("utf-16"),
        sync_open_close: true,
        sync_incremental: true,
        sync_will_save: false,
        sync_will_save_wait_until: false,
        sync_save: true,
        token_types,
        token_modifiers: Vec::new(),
        tokens_range: true,
        tokens_delta: true,
        document_filters,
        file_scheme: owned("file"),
        file_glob: owned("**/*.tex"),
        code_action_kinds,
        workspace_change_listener: owned("flams-change-listener"),
        document_symbol_label: owned("FLAMS"),
        semantic_tokens_id: owned("stex-sem-tokens"),
        selection_range_id: owned("stex-selec-range"),
        type_definition_id: owned("stex-type-def"),
        implementation_id: owned("stex-impl"),
        declaration_id: owned("stex-decl"),
        folding_range_id: owned("stex-folding-range"),
        inline_value_id: owned("stex-inline-value"),
        inlay_hint_id: owned("stex-inlay-hint"),
        diagnostic_id: owned("stex-diagnostic"),
        linked_editing_range_id: owned("stex-linked-editing-range"),
        inter_file_dependencies: true,
        workspace_diagnostics: false,
        inlay_hint_resolve: false,
        rename_prepare: true,
        call_hierarchy: true,
        formatting: false,
    }
}

} // verus!

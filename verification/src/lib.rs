//! Check logs and check results of the FTML type checker, their filtering and
//! rendering, cancellation tokens and rule-splitting strategies, the rules of
//! the checker, the URI combinators of the ontology, and the pieces of the
//! language server and the web server that compute: text positions, symbol
//! disambiguation, diagnostics of symbol checks and request queries.

pub mod actions;
pub mod annotations;
pub mod base;
pub mod html_build;
pub mod beta;
pub mod capabilities;
pub mod colors;
pub mod definition;
pub mod diagnostics;
pub mod extraction;
pub mod images;
pub mod hierarchy;
pub mod hover;
pub mod indent;
pub mod links;
pub mod lsp;
pub mod names;
pub mod plain;
pub mod render;
pub mod results;
pub mod results_render;
pub mod rules;
pub mod semantic_tokens;
pub mod server;
pub mod snify;
pub mod split;
pub mod text;
pub mod token_encoding;
pub mod trace;
pub mod uris;

pub use actions::{code_action, ActionKind, CodeAction};
pub use annotations::{
    as_symbol, semantic_tokens, Annot, AssignKind, DocSymbol, InlineMorphAssign, KeyArg, LineCol,
    MorphismKind, NameAt, ParagraphKind, RefAt, SymRef, SymbolKind, TextRange,
};
pub use hierarchy::{hierarchy_calls, CallKind, HierarchyTarget, IncomingCall};
pub use hover::{graphics_source, hover, range_holds, HoverInfo};
pub use beta::{beta_applicable, beta_split, beta_step, ArgShape, BetaStep, BoundShape};
pub use base::{BaseUriError, PreParsed, UrlFacts};
pub use capabilities::{capabilities, DocFilter, ServerCaps};
pub use definition::{goto_definition, Location};
pub use diagnostics::{symbol_check_diagnostic, CheckedPart, SymbolDiagnostic};
pub use extraction::no_op;
pub use html_build::{
    build_start, font_diagnostics, lsp_severity, rustex_error, BuildStart, Diagnostic, FileTrace, FontReport, Level,
};
pub use images::ImageStore;
pub use indent::Indent;
pub use links::{archive_file, links, DocLink};
pub use lsp::{disamb, LSPText, Position};
pub use names::{InvalidURICharacter, Name, NameStep};
pub use render::{ColorDisplay, FmtTraceDisplay};
pub use results::{
    CheckResult, ContentCheckResult, DocumentCheckResult, ProofStepCheckResult, ProofStepResult,
    SymbolCheckResult, TypeCheckResult,
};
pub use rules::{
    AnyRule, CheckerRule, CommentRule, HOASRule, ImplicitRule, InferredTypeSimplificationRule,
    IsJudgmentRule, MarkerRule, MorphismRule, ProofBarrier, RuleList, UnknownsRule,
};
pub use semantic_tokens::STeXSemanticTokens;
pub use server::{aux_request, image_content_type, Params};
pub use snify::{snify_arg_count, snify_edits, TextEdit};
pub use split::{
    collect_outcomes, combine_pair, no_rule_failures_mt, parallel_split_result, report_split, split,
    split_i_st,
    strategies_st, CancelToken, Cancellation, RayonSplit, RayonStrategiesDepth,
    RayonStrategiesOnly, SingleThreadedSplit, SplitFailures, SplitStrategy,
};
pub use token_encoding::{document_semantic_tokens, encode_tokens, SemToken};
pub use trace::{
    CheckLog, ComponentVar, Displayable, MessageLevel, PreCheckLog, Term, Uri, Variable,
};
pub use uris::{
    ArchiveId, ArchiveURI, BaseURI, DocumentElementURI, DocumentURI, Language, ModuleURI,
    NarrativeURI, PathURI, SymbolURI,
};

use crate::render::put;
use crate::semantic_tokens::STeXSemanticTokens;
use crate::uris::SymbolURI;
use vstd::string::*;
use vstd::prelude::*;

verus! {

/// A place in a source text: a line and a column, both from zero.
#[derive(Clone, Copy)]
pub struct LineCol {
    pub line: u32,
    pub col: u32,
}

/// A stretch of a source text, from `start` up to `end`.
#[derive(Clone, Copy)]
pub struct TextRange {
    pub start: LineCol,
    pub end: LineCol,
}

/// A stretch of text and the semantic token type it is highlighted as.
pub type Token = (TextRange, u32);

/// Where a symbol or module is defined, when its file is known: the file's
/// path and the range of the definition in it.
pub type Def = Option<(String, TextRange)>;

/// A symbol that a name in the source may refer to: its URI, the URI as it
/// is written out, and where it is defined.
pub struct SymRef {
    pub uri: SymbolURI,
    pub text: String,
    pub def: Def,
}

/// A name at `range` and the symbols it may refer to; more than one when
/// the name is ambiguous.
pub struct NameAt {
    pub syms: Vec<SymRef>,
    pub range: TextRange,
}

/// A reference to one symbol at `range`.
pub struct RefAt {
    pub sym: SymRef,
    pub range: TextRange,
}

#[allow(inconsistent_fields)]
/// A `key=value` argument of an sTeX macro or environment, by what
/// highlighting reads of it.
pub enum KeyArg {
    /// Only the key is highlighted, as a keyword.
    Key { key: TextRange },
    /// The key is a keyword; the value holds annotations of its own.
    Nested { key: TextRange, val: Vec<Annot> },
    /// The key and the value are both keywords.
    KeyKeyword { key: TextRange, val: TextRange },
    /// The key is a keyword, the value a name.
    KeyName { key: TextRange, val: TextRange },
    /// The key is a keyword; the value, at `val_range`, lists symbols.
    Fors { key: TextRange, val_range: TextRange, symbols: Vec<NameAt> },
    /// A bare name.
    Id(TextRange),
}

/// How one side of an assignment in an inline morphism assigns.
pub enum AssignKind {
    /// A definiens, with its annotations.
    Df(Vec<Annot>),
    /// A renaming: an optional macro name and the new name.
    Rename(Option<TextRange>, TextRange),
}

/// One assignment of an inline morphism: the symbol assigned to (its URI
/// as text, and where it is named), and up to two sides, each at the place
/// of its `=` or `@` sign.
pub struct InlineMorphAssign {
    pub symbol: String,
    pub def: Def,
    pub symbol_range: TextRange,
    pub first: Option<(LineCol, AssignKind)>,
    pub second: Option<(LineCol, AssignKind)>,
}

/// The kind of a morphism environment.
#[derive(Clone, Copy, PartialEq, Eq, Structural)]
pub enum MorphismKind {
    CopyModule,
    InterpretModule,
}

/// The kind of a paragraph environment; the last stands for every kind
/// whose closing is not highlighted.
#[derive(Clone, Copy, PartialEq, Eq, Structural)]
pub enum ParagraphKind {
    Definition,
    Paragraph,
    Proof,
    Example,
    Assertion,
    Other,
}

#[allow(inconsistent_fields)]
/// An sTeX annotation of a document, by what the editor's services read of
/// it. A URI is held as its text, next to where it is defined (`def`);
/// `domain` is the URI of a morphism's domain when that is a structure, and
/// `domain_def` where the domain is defined (a module at its file's start).
/// `module_name` is the name of a module, the last part of its URI.
/// Among the options of a structure a `KeyArg::Id` is its name; among the
/// arguments of a paragraph or a declaration, a `KeyArg::KeyName` is a
/// `name=` argument.
pub enum Annot {
    /// A reference to a label: `target_path` is the file the label is in,
    /// `in_doc` the file of the document named in the inner arguments, and
    /// `file_arg` / `in_file_arg` the values of the first `file=` among
    /// the outer and the inner arguments.
    SRef {
        token_range: TextRange,
        label_range: TextRange,
        target_path: String,
        in_doc: Option<String>,
        file_arg: Option<TextRange>,
        in_file_arg: Option<TextRange>,
        opt_args: Vec<KeyArg>,
        in_opt_args: Vec<KeyArg>,
    },
    Module {
        uri: String,
        module_name: String,
        smodule_range: TextRange,
        opts: Vec<KeyArg>,
        name_range: TextRange,
        children: Vec<Annot>,
        full_range: TextRange,
    },
    MathStructure {
        uri: String,
        mathstructure_range: TextRange,
        name_range: TextRange,
        opts: Vec<KeyArg>,
        extends: Vec<RefAt>,
        children: Vec<Annot>,
        full_range: TextRange,
    },
    ConservativeExt {
        uri: String,
        def: Def,
        extstructure_range: TextRange,
        ext_range: TextRange,
        children: Vec<Annot>,
        full_range: TextRange,
    },
    MorphismEnv {
        uri: String,
        env_range: TextRange,
        name_range: TextRange,
        domain_is_struct: bool,
        domain: String,
        domain_def: Def,
        domain_range: TextRange,
        children: Vec<Annot>,
        full_range: TextRange,
        kind: MorphismKind,
        star: bool,
    },
    InlineMorphism {
        uri: String,
        full_range: TextRange,
        token_range: TextRange,
        name_range: TextRange,
        domain_is_struct: bool,
        domain: String,
        domain_def: Def,
        domain_range: TextRange,
        assignments: Vec<InlineMorphAssign>,
    },
    UseModule {
        module: String,
        module_name: String,
        module_file: Option<String>,
        archive_range: Option<TextRange>,
        path_range: TextRange,
        full_range: TextRange,
        token_range: TextRange,
    },
    UseStructure {
        structure: String,
        def: Def,
        full_range: TextRange,
        token_range: TextRange,
        structure_range: TextRange,
    },
    IncludeProblem {
        archive: Option<String>,
        filepath: String,
        filepath_range: TextRange,
        full_range: TextRange,
        token_range: TextRange,
        args: Vec<KeyArg>,
    },
    Inputref {
        archive: Option<String>,
        filepath: String,
        full_range: TextRange,
        token_range: TextRange,
    },
    MHInput {
        archive: Option<String>,
        filepath: String,
        full_range: TextRange,
        token_range: TextRange,
    },
    MHGraphics {
        archive: Option<String>,
        filepath: String,
        filepath_range: TextRange,
        full_range: TextRange,
        token_range: TextRange,
    },
    Defnotation { full_range: TextRange },
    SetMetatheory {
        module: String,
        module_file: Option<String>,
        archive_range: Option<TextRange>,
        path_range: TextRange,
        full_range: TextRange,
        token_range: TextRange,
    },
    ImportModule {
        module: String,
        module_name: String,
        module_file: Option<String>,
        archive_range: Option<TextRange>,
        path_range: TextRange,
        full_range: TextRange,
        token_range: TextRange,
    },
    SemanticMacro { uri: String, def: Def, full_range: TextRange, token_range: TextRange },
    VariableMacro { name: String, orig: TextRange, full_range: TextRange, token_range: TextRange },
    Problem {
        name_range: TextRange,
        parsed_args: Vec<KeyArg>,
        children: Vec<Annot>,
        full_range: TextRange,
    },
    Paragraph {
        kind: ParagraphKind,
        kind_name: String,
        has_symbol: bool,
        name_range: TextRange,
        parsed_args: Vec<KeyArg>,
        children: Vec<Annot>,
        full_range: TextRange,
    },
    InlineParagraph {
        kind_name: String,
        full_range: TextRange,
        has_symbol: bool,
        token_range: TextRange,
        parsed_args: Vec<KeyArg>,
        children: Vec<Annot>,
    },
    Symdecl {
        uri: String,
        full_range: TextRange,
        token_range: TextRange,
        main_name_range: TextRange,
        parsed_args: Vec<KeyArg>,
    },
    TextSymdecl {
        uri: String,
        full_range: TextRange,
        token_range: TextRange,
        main_name_range: TextRange,
        parsed_args: Vec<KeyArg>,
    },
    Symdef {
        uri: String,
        full_range: TextRange,
        token_range: TextRange,
        main_name_range: TextRange,
        parsed_args: Vec<KeyArg>,
    },
    RenameDecl {
        uri: String,
        def: Def,
        token_range: TextRange,
        orig_range: TextRange,
        name_range: Option<TextRange>,
        macroname_range: TextRange,
    },
    Assign { uri: String, def: Def, token_range: TextRange, orig_range: TextRange },
    Svar { name: String, full_range: TextRange },
    Vardef {
        name: String,
        full_range: TextRange,
        token_range: TextRange,
        main_name_range: TextRange,
        parsed_args: Vec<KeyArg>,
    },
    Varseq {
        name: String,
        full_range: TextRange,
        token_range: TextRange,
        main_name_range: TextRange,
        parsed_args: Vec<KeyArg>,
    },
    Notation {
        syms: Vec<SymRef>,
        token_range: TextRange,
        name_range: TextRange,
        notation_args: Vec<KeyArg>,
    },
    SymName { syms: Vec<SymRef>, token_range: TextRange, name_range: TextRange },
    Symref { syms: Vec<SymRef>, token_range: TextRange, name_range: TextRange },
    Symuse { syms: Vec<SymRef>, token_range: TextRange, name_range: TextRange },
    Precondition {
        syms: Vec<SymRef>,
        token_range: TextRange,
        dim_range: TextRange,
        symbol_range: TextRange,
    },
    Objective {
        syms: Vec<SymRef>,
        token_range: TextRange,
        dim_range: TextRange,
        symbol_range: TextRange,
    },
    Definiens { syms: Vec<SymRef>, token_range: TextRange, name_range: Option<TextRange> },
    /// A place where a symbol could be annotated: the candidates, each with
    /// whether annotating it needs a `\usemodule`.
    SnifySuggestion { range: TextRange, symbols: Vec<(SymRef, bool)> },
}

/// The closing of an environment whose whole source is `full`: on the last
/// line, the `width` columns before the last column.
pub open spec fn closing_range(full: TextRange, width: int) -> TextRange {
    TextRange {
        start: LineCol { line: full.end.line, col: (full.end.col - 1 - width) as u32 },
        end: LineCol { line: full.end.line, col: (full.end.col - 1) as u32 },
    }
}

/// The one-column range at `at`.
pub open spec fn sign_range(at: LineCol) -> TextRange {
    TextRange { start: at, end: LineCol { line: at.line, col: (at.col + 1) as u32 } }
}

/// How long the closing name of a morphism environment is.
pub open spec fn morphism_width(kind: MorphismKind, star: bool) -> int {
    (match kind {
        MorphismKind::CopyModule => 10int,
        MorphismKind::InterpretModule => 15int,
    }) + if star {
        1int
    } else {
        0int
    }
}

/// How long the closing name of a paragraph environment is; nothing for a
/// kind whose closing is not highlighted.
pub open spec fn paragraph_width(kind: ParagraphKind) -> Option<int> {
    match kind {
        ParagraphKind::Definition => Some(11),
        ParagraphKind::Paragraph => Some(10),
        ParagraphKind::Proof => Some(6),
        ParagraphKind::Example => Some(8),
        ParagraphKind::Assertion => Some(10),
        ParagraphKind::Other => None,
    }
}

/// The token of a declaring or a referencing name.
pub open spec fn decl_or_ref(declares: bool) -> u32 {
    if declares {
        STeXSemanticTokens::DECLARATION
    } else {
        STeXSemanticTokens::REF_MACRO
    }
}

/// The tokens of an annotation, in the order the editor receives them.
pub open spec fn annot_tokens(a: Annot) -> Seq<Token>
    decreases a,
{
    match a {
        Annot::SRef { token_range, opt_args, in_opt_args, .. } => seq![
            (token_range, STeXSemanticTokens::REF_MACRO),
        ] + args_tokens(opt_args@) + args_tokens(in_opt_args@),
        Annot::Module { smodule_range, opts, name_range, children, full_range, .. } => seq![
            (smodule_range, STeXSemanticTokens::DECLARATION),
        ] + args_tokens(opts@) + seq![(name_range, STeXSemanticTokens::NAME)] + annots_tokens(
            children@,
        ) + seq![(closing_range(full_range, 7), STeXSemanticTokens::DECLARATION)],
        Annot::MathStructure {
            mathstructure_range,
            name_range,
            opts,
            extends,
            children,
            full_range, .. } => seq![
            (mathstructure_range, STeXSemanticTokens::DECLARATION),
            (name_range, STeXSemanticTokens::NAME),
        ] + args_tokens(opts@) + refs_as(extends@, STeXSemanticTokens::SYMBOL) + annots_tokens(
            children@,
        ) + seq![
            (
                closing_range(
                    full_range,
                    if extends@.len() == 0 {
                        13
                    } else {
                        12
                    },
                ),
                STeXSemanticTokens::DECLARATION,
            ),
        ],
        Annot::ConservativeExt { extstructure_range, ext_range, children, full_range, .. } => seq![
            (extstructure_range, STeXSemanticTokens::DECLARATION),
            (ext_range, STeXSemanticTokens::SYMBOL),
        ] + annots_tokens(children@) + seq![
            (closing_range(full_range, 13), STeXSemanticTokens::DECLARATION),
        ],
        Annot::MorphismEnv {
            env_range,
            name_range,
            domain_is_struct,
            domain_range,
            children,
            full_range,
            kind,
            star, .. } => seq![
            (env_range, STeXSemanticTokens::DECLARATION),
            (name_range, STeXSemanticTokens::NAME),
        ] + (if domain_is_struct {
            seq![(domain_range, STeXSemanticTokens::SYMBOL)]
        } else {
            Seq::empty()
        }) + annots_tokens(children@) + seq![
            (closing_range(full_range, morphism_width(kind, star)), STeXSemanticTokens::DECLARATION),
        ],
        Annot::InlineMorphism {
            token_range,
            name_range,
            domain_is_struct,
            domain_range,
            assignments, .. } => seq![
            (token_range, STeXSemanticTokens::DECLARATION),
            (name_range, STeXSemanticTokens::NAME),
        ] + (if domain_is_struct {
            seq![(domain_range, STeXSemanticTokens::SYMBOL)]
        } else {
            Seq::empty()
        }) + assigns_tokens(assignments@),
        Annot::UseModule { token_range, .. } => seq![(token_range, STeXSemanticTokens::LOCAL)],
        Annot::UseStructure { token_range, structure_range, .. } => seq![
            (token_range, STeXSemanticTokens::LOCAL),
            (structure_range, STeXSemanticTokens::SYMBOL),
        ],
        Annot::IncludeProblem { token_range, args, .. } => seq![
            (token_range, STeXSemanticTokens::REF_MACRO),
        ] + args_tokens(args@),
        Annot::Inputref { token_range, .. } => seq![(token_range, STeXSemanticTokens::REF_MACRO)],
        Annot::MHInput { token_range, .. } => seq![(token_range, STeXSemanticTokens::REF_MACRO)],
        Annot::MHGraphics { token_range, .. } => seq![(token_range, STeXSemanticTokens::REF_MACRO)],
        Annot::Defnotation { full_range } => seq![(full_range, STeXSemanticTokens::REF_MACRO)],
        Annot::SetMetatheory { token_range, .. } => seq![
            (token_range, STeXSemanticTokens::DECLARATION),
        ],
        Annot::ImportModule { token_range, .. } => seq![(token_range, STeXSemanticTokens::DECLARATION)],
        Annot::SemanticMacro { token_range, .. } => seq![(token_range, STeXSemanticTokens::SYMBOL)],
        Annot::VariableMacro { token_range, .. } => seq![(token_range, STeXSemanticTokens::VARIABLE)],
        Annot::Problem { name_range, parsed_args, children, full_range } => seq![
            (name_range, STeXSemanticTokens::REF_MACRO),
        ] + args_tokens(parsed_args@) + annots_tokens(children@) + seq![
            (
                TextRange {
                    start: LineCol { line: full_range.end.line, col: full_range.start.col },
                    end: LineCol { line: full_range.end.line, col: (full_range.end.col - 1) as u32 },
                },
                STeXSemanticTokens::REF_MACRO,
            ),
        ],
        Annot::Paragraph { kind, has_symbol, name_range, parsed_args, children, full_range, .. } => seq![
            (name_range, decl_or_ref(has_symbol)),
        ] + args_tokens(parsed_args@) + annots_tokens(children@) + match paragraph_width(kind) {
            Some(w) => seq![(closing_range(full_range, w), decl_or_ref(has_symbol))],
            None => Seq::empty(),
        },
        Annot::InlineParagraph { has_symbol, token_range, parsed_args, children, .. } => seq![
            (token_range, decl_or_ref(has_symbol)),
        ] + args_tokens(parsed_args@) + annots_tokens(children@),
        Annot::Symdecl { token_range, main_name_range, parsed_args, .. } => seq![
            (token_range, STeXSemanticTokens::DECLARATION),
            (main_name_range, STeXSemanticTokens::NAME),
        ] + args_tokens(parsed_args@),
        Annot::TextSymdecl { token_range, main_name_range, parsed_args, .. } => seq![
            (token_range, STeXSemanticTokens::DECLARATION),
            (main_name_range, STeXSemanticTokens::NAME),
        ] + args_tokens(parsed_args@),
        Annot::Symdef { token_range, main_name_range, parsed_args, .. } => seq![
            (token_range, STeXSemanticTokens::DECLARATION),
            (main_name_range, STeXSemanticTokens::NAME),
        ] + args_tokens(parsed_args@),
        Annot::RenameDecl { token_range, orig_range, name_range, macroname_range, .. } => seq![
            (token_range, STeXSemanticTokens::DECLARATION),
            (orig_range, STeXSemanticTokens::SYMBOL),
        ] + opt_range_as(name_range, STeXSemanticTokens::NAME) + seq![
            (macroname_range, STeXSemanticTokens::NAME),
        ],
        Annot::Assign { token_range, orig_range, .. } => seq![
            (token_range, STeXSemanticTokens::DECLARATION),
            (orig_range, STeXSemanticTokens::SYMBOL),
        ],
        Annot::Svar { full_range, .. } => seq![(full_range, STeXSemanticTokens::VARIABLE)],
        Annot::Vardef { token_range, main_name_range, parsed_args, .. } => seq![
            (token_range, STeXSemanticTokens::LOCAL),
            (main_name_range, STeXSemanticTokens::NAME),
        ] + args_tokens(parsed_args@),
        Annot::Varseq { token_range, main_name_range, parsed_args, .. } => seq![
            (token_range, STeXSemanticTokens::LOCAL),
            (main_name_range, STeXSemanticTokens::NAME),
        ] + args_tokens(parsed_args@),
        Annot::Notation { token_range, name_range, notation_args, .. } => seq![
            (token_range, STeXSemanticTokens::DECLARATION),
            (name_range, STeXSemanticTokens::SYMBOL),
        ] + args_tokens(notation_args@),
        Annot::SymName { token_range, name_range, .. } => seq![
            (token_range, STeXSemanticTokens::REF_MACRO),
            (name_range, STeXSemanticTokens::SYMBOL),
        ],
        Annot::Symref { token_range, name_range, .. } => seq![
            (token_range, STeXSemanticTokens::REF_MACRO),
            (name_range, STeXSemanticTokens::SYMBOL),
        ],
        Annot::Symuse { token_range, name_range, .. } => seq![
            (token_range, STeXSemanticTokens::REF_MACRO),
            (name_range, STeXSemanticTokens::SYMBOL),
        ],
        Annot::Precondition { token_range, dim_range, symbol_range, .. } => seq![
            (token_range, STeXSemanticTokens::REF_MACRO),
            (dim_range, STeXSemanticTokens::KEYWORD),
            (symbol_range, STeXSemanticTokens::SYMBOL),
        ],
        Annot::Objective { token_range, dim_range, symbol_range, .. } => seq![
            (token_range, STeXSemanticTokens::REF_MACRO),
            (dim_range, STeXSemanticTokens::KEYWORD),
            (symbol_range, STeXSemanticTokens::SYMBOL),
        ],
        Annot::Definiens { token_range, name_range, .. } => seq![
            (token_range, STeXSemanticTokens::REF_MACRO),
        ] + opt_range_as(name_range, STeXSemanticTokens::SYMBOL),
        Annot::SnifySuggestion { .. } => Seq::empty(),
    }
}

/// The tokens of annotations, one after the other.
pub open spec fn annots_tokens(s: Seq<Annot>) -> Seq<Token>
    decreases s,
{
    if s.len() == 0 {
        Seq::empty()
    } else {
        annots_tokens(s.subrange(0, s.len() - 1)) + annot_tokens(s[s.len() - 1])
    }
}

/// The tokens of an argument.
pub open spec fn arg_tokens(k: KeyArg) -> Seq<Token>
    decreases k,
{
    match k {
        KeyArg::Key { key } => seq![(key, STeXSemanticTokens::KEYWORD)],
        KeyArg::Nested { key, val } => seq![(key, STeXSemanticTokens::KEYWORD)] + annots_tokens(val@),
        KeyArg::KeyKeyword { key, val } => seq![
            (key, STeXSemanticTokens::KEYWORD),
            (val, STeXSemanticTokens::KEYWORD),
        ],
        KeyArg::KeyName { key, val } => seq![
            (key, STeXSemanticTokens::KEYWORD),
            (val, STeXSemanticTokens::NAME),
        ],
        KeyArg::Fors { key, symbols, .. } => seq![(key, STeXSemanticTokens::KEYWORD)] + names_as(
            symbols@,
            STeXSemanticTokens::SYMBOL,
        ),
        KeyArg::Id(r) => seq![(r, STeXSemanticTokens::NAME)],
    }
}

/// The tokens of arguments, one after the other.
pub open spec fn args_tokens(s: Seq<KeyArg>) -> Seq<Token>
    decreases s,
{
    if s.len() == 0 {
        Seq::empty()
    } else {
        args_tokens(s.subrange(0, s.len() - 1)) + arg_tokens(s[s.len() - 1])
    }
}

/// The tokens of one side of an assignment: its sign, then a definiens'
/// annotations or a renaming's names.
pub open spec fn side_tokens(side: Option<(LineCol, AssignKind)>) -> Seq<Token>
    decreases side,
{
    match side {
        None => Seq::empty(),
        Some((at, kind)) => seq![(sign_range(at), STeXSemanticTokens::KEYWORD)] + match kind {
            AssignKind::Df(v) => annots_tokens(v@),
            AssignKind::Rename(mn, n) => opt_range_as(mn, STeXSemanticTokens::NAME) + seq![
                (n, STeXSemanticTokens::NAME),
            ],
        },
    }
}

/// The tokens of an assignment of an inline morphism.
pub open spec fn assign_tokens(x: InlineMorphAssign) -> Seq<Token>
    decreases x,
{
    seq![(x.symbol_range, STeXSemanticTokens::SYMBOL)] + side_tokens(x.first) + side_tokens(x.second)
}

/// The tokens of assignments, one after the other.
pub open spec fn assigns_tokens(s: Seq<InlineMorphAssign>) -> Seq<Token>
    decreases s,
{
    if s.len() == 0 {
        Seq::empty()
    } else {
        assigns_tokens(s.subrange(0, s.len() - 1)) + assign_tokens(s[s.len() - 1])
    }
}

/// The range of each name highlighted as `token`, in order.
pub open spec fn names_as(s: Seq<NameAt>, token: u32) -> Seq<Token> {
    s.map_values(|x: NameAt| (x.range, token))
}

/// The range of each reference highlighted as `token`, in order.
pub open spec fn refs_as(s: Seq<RefAt>, token: u32) -> Seq<Token> {
    s.map_values(|x: RefAt| (x.range, token))
}

/// The range, if any, highlighted as `token`.
pub open spec fn opt_range_as(r: Option<TextRange>, token: u32) -> Seq<Token> {
    match r {
        Some(x) => seq![(x, token)],
        None => Seq::empty(),
    }
}

/// The closing of an environment of source `full` fits before the last
/// column when the closing name is `width` long.
pub open spec fn closing_fits(full: TextRange, width: int) -> bool {
    full.end.col >= 1 + width
}

/// The ranges that highlighting computes for the annotation lie within the
/// columns a line can have: every environment closes at least its closing
/// name after the start of its last line, and no assignment sign stands at
/// the last column there is.
pub open spec fn annot_ok(a: Annot) -> bool
    decreases a,
{
    match a {
        Annot::SRef { opt_args, in_opt_args, .. } => args_ok(opt_args@) && args_ok(in_opt_args@),
        Annot::Module { opts, children, full_range, .. } => args_ok(opts@) && annots_ok(children@)
            && closing_fits(full_range, 7),
        Annot::MathStructure { opts, extends, children, full_range, .. } => args_ok(opts@)
            && annots_ok(children@) && closing_fits(
            full_range,
            if extends@.len() == 0 {
                13
            } else {
                12
            },
        ),
        Annot::ConservativeExt { children, full_range, .. } => annots_ok(children@) && closing_fits(
            full_range,
            13,
        ),
        Annot::MorphismEnv { children, full_range, kind, star, .. } => annots_ok(children@)
            && closing_fits(full_range, morphism_width(kind, star)),
        Annot::InlineMorphism { assignments, .. } => assigns_ok(assignments@),
        Annot::IncludeProblem { args, .. } => args_ok(args@),
        Annot::Problem { parsed_args, children, full_range, .. } => args_ok(parsed_args@)
            && annots_ok(children@) && closing_fits(full_range, 0),
        Annot::Paragraph { kind, parsed_args, children, full_range, .. } => args_ok(parsed_args@)
            && annots_ok(children@) && closing_fits(full_range, 0) && match paragraph_width(kind) {
            Some(w) => closing_fits(full_range, w),
            None => true,
        },
        Annot::InlineParagraph { parsed_args, children, .. } => args_ok(parsed_args@) && annots_ok(
            children@,
        ),
        Annot::Symdecl { parsed_args, .. } => args_ok(parsed_args@),
        Annot::TextSymdecl { parsed_args, .. } => args_ok(parsed_args@),
        Annot::Symdef { parsed_args, .. } => args_ok(parsed_args@),
        Annot::Vardef { parsed_args, .. } => args_ok(parsed_args@),
        Annot::Varseq { parsed_args, .. } => args_ok(parsed_args@),
        Annot::Notation { notation_args, .. } => args_ok(notation_args@),
        _ => true,
    }
}

/// Each of the annotations is as `annot_ok` asks.
pub open spec fn annots_ok(s: Seq<Annot>) -> bool
    decreases s,
{
    if s.len() == 0 {
        true
    } else {
        annots_ok(s.subrange(0, s.len() - 1)) && annot_ok(s[s.len() - 1])
    }
}

/// The annotations in the argument are as `annot_ok` asks.
pub open spec fn arg_ok(k: KeyArg) -> bool
    decreases k,
{
    match k {
        KeyArg::Nested { val, .. } => annots_ok(val@),
        _ => true,
    }
}

/// Each of the arguments is as `arg_ok` asks.
pub open spec fn args_ok(s: Seq<KeyArg>) -> bool
    decreases s,
{
    if s.len() == 0 {
        true
    } else {
        args_ok(s.subrange(0, s.len() - 1)) && arg_ok(s[s.len() - 1])
    }
}

/// The side's sign is not at the last column there is, and its annotations
/// are as `annot_ok` asks.
pub open spec fn side_ok(side: Option<(LineCol, AssignKind)>) -> bool
    decreases side,
{
    match side {
        None => true,
        Some((at, kind)) => at.col < u32::MAX && match kind {
            AssignKind::Df(v) => annots_ok(v@),
            AssignKind::Rename(..) => true,
        },
    }
}

/// Both sides of each assignment are as `side_ok` asks.
pub open spec fn assigns_ok(s: Seq<InlineMorphAssign>) -> bool
    decreases s,
{
    if s.len() == 0 {
        true
    } else {
        assigns_ok(s.subrange(0, s.len() - 1)) && side_ok(s[s.len() - 1].first) && side_ok(
            s[s.len() - 1].second,
        )
    }
}

fn push_token(out: &mut Vec<Token>, r: TextRange, t: u32)
    ensures
        final(out)@ == old(out)@.push((r, t)),
{
    out.push((r, t));
}

fn closing(full: TextRange, width: u32) -> (r: TextRange)
    requires
        closing_fits(full, width as int),
    ensures
        r == closing_range(full, width as int),
{
    TextRange {
        start: LineCol { line: full.end.line, col: full.end.col - 1 - width },
        end: LineCol { line: full.end.line, col: full.end.col - 1 },
    }
}

fn names_into(v: &Vec<NameAt>, token: u32, out: &mut Vec<Token>)
    ensures
        final(out)@ == old(out)@ + names_as(v@, token),
{
    let ghost start = out@;
    let mut i: usize = 0;
    while i < v.len()
        invariant
            i <= v@.len(),
            out@ == start + names_as(v@.take(i as int), token),
        decreases v@.len() - i,
    {
        let ghost prev = out@;
        push_token(out, v[i].range, token);
        assert(names_as(v@.take(i + 1), token) =~= names_as(v@.take(i as int), token).push(
            (v@[i as int].range, token),
        ));
        assert(out@ =~= start + names_as(v@.take(i + 1), token));
        i = i + 1;
    }
    assert(v@.take(v@.len() as int) =~= v@);
}

fn refs_into(v: &Vec<RefAt>, token: u32, out: &mut Vec<Token>)
    ensures
        final(out)@ == old(out)@ + refs_as(v@, token),
{
    let ghost start = out@;
    let mut i: usize = 0;
    while i < v.len()
        invariant
            i <= v@.len(),
            out@ == start + refs_as(v@.take(i as int), token),
        decreases v@.len() - i,
    {
        let ghost prev = out@;
        push_token(out, v[i].range, token);
        assert(refs_as(v@.take(i + 1), token) =~= refs_as(v@.take(i as int), token).push(
            (v@[i as int].range, token),
        ));
        assert(out@ =~= start + refs_as(v@.take(i + 1), token));
        i = i + 1;
    }
    assert(v@.take(v@.len() as int) =~= v@);
}

fn opt_range_into(r: &Option<TextRange>, token: u32, out: &mut Vec<Token>)
    ensures
        final(out)@ == old(out)@ + opt_range_as(*r, token),
{
    match r {
        Some(x) => {
            push_token(out, *x, token);
            assert(out@ =~= old(out)@ + opt_range_as(*r, token));
        },
        None => {
            assert(out@ =~= old(out)@ + opt_range_as(*r, token));
        },
    }
}

pub(crate) fn annots_into(v: &Vec<Annot>, out: &mut Vec<Token>)
    requires
        annots_ok(v@),
    ensures
        final(out)@ == old(out)@ + annots_tokens(v@),
    decreases v,
{
    let ghost start = out@;
    let mut i: usize = 0;
    while i < v.len()
        invariant
            i <= v@.len(),
            annots_ok(v@),
            out@ == start + annots_tokens(v@.take(i as int)),
        decreases v@.len() - i,
    {
        proof {
            assert(decreases_to!(v => v@[i as int]));
            assert(v@.take(i + 1).subrange(0, i as int) =~= v@.take(i as int));
            lemma_annots_ok_each(v@, i as int);
        }
        let ghost prev = out@;
        semantic_tokens(&v[i], out);
        assert(out@ =~= start + annots_tokens(v@.take(i + 1)));
        i = i + 1;
    }
    assert(v@.take(v@.len() as int) =~= v@);
}

proof fn lemma_annots_ok_each(s: Seq<Annot>, i: int)
    requires
        annots_ok(s),
        0 <= i < s.len(),
    ensures
        annot_ok(s[i]),
    decreases s.len(),
{
    if i < s.len() - 1 {
        lemma_annots_ok_each(s.subrange(0, s.len() - 1), i);
    }
}

proof fn lemma_args_ok_each(s: Seq<KeyArg>, i: int)
    requires
        args_ok(s),
        0 <= i < s.len(),
    ensures
        arg_ok(s[i]),
    decreases s.len(),
{
    if i < s.len() - 1 {
        lemma_args_ok_each(s.subrange(0, s.len() - 1), i);
    }
}

proof fn lemma_assigns_ok_each(s: Seq<InlineMorphAssign>, i: int)
    requires
        assigns_ok(s),
        0 <= i < s.len(),
    ensures
        side_ok(s[i].first),
        side_ok(s[i].second),
    decreases s.len(),
{
    if i < s.len() - 1 {
        lemma_assigns_ok_each(s.subrange(0, s.len() - 1), i);
    }
}

fn arg_into(k: &KeyArg, out: &mut Vec<Token>)
    requires
        arg_ok(*k),
    ensures
        final(out)@ == old(out)@ + arg_tokens(*k),
    decreases k,
{
    let ghost start = out@;
    match k {
        KeyArg::Key { key } => {
            push_token(out, *key, STeXSemanticTokens::KEYWORD);
        },
        KeyArg::Nested { key, val } => {
            push_token(out, *key, STeXSemanticTokens::KEYWORD);
            annots_into(val, out);
        },
        KeyArg::KeyKeyword { key, val } => {
            push_token(out, *key, STeXSemanticTokens::KEYWORD);
            push_token(out, *val, STeXSemanticTokens::KEYWORD);
        },
        KeyArg::KeyName { key, val } => {
            push_token(out, *key, STeXSemanticTokens::KEYWORD);
            push_token(out, *val, STeXSemanticTokens::NAME);
        },
        KeyArg::Fors { key, symbols, .. } => {
            push_token(out, *key, STeXSemanticTokens::KEYWORD);
            names_into(symbols, STeXSemanticTokens::SYMBOL, out);
        },
        KeyArg::Id(r) => {
            push_token(out, *r, STeXSemanticTokens::NAME);
        },
    }
    assert(out@ =~= start + arg_tokens(*k));
}

fn args_into(v: &Vec<KeyArg>, out: &mut Vec<Token>)
    requires
        args_ok(v@),
    ensures
        final(out)@ == old(out)@ + args_tokens(v@),
    decreases v,
{
    let ghost start = out@;
    let mut i: usize = 0;
    while i < v.len()
        invariant
            i <= v@.len(),
            args_ok(v@),
            out@ == start + args_tokens(v@.take(i as int)),
        decreases v@.len() - i,
    {
        proof {
            assert(decreases_to!(v => v@[i as int]));
            assert(v@.take(i + 1).subrange(0, i as int) =~= v@.take(i as int));
            lemma_args_ok_each(v@, i as int);
        }
        arg_into(&v[i], out);
        assert(out@ =~= start + args_tokens(v@.take(i + 1)));
        i = i + 1;
    }
    assert(v@.take(v@.len() as int) =~= v@);
}

fn side_into(side: &Option<(LineCol, AssignKind)>, out: &mut Vec<Token>)
    requires
        side_ok(*side),
    ensures
        final(out)@ == old(out)@ + side_tokens(*side),
    decreases side,
{
    let ghost start = out@;
    match side {
        None => {},
        Some((at, kind)) => {
            let sign = TextRange { start: *at, end: LineCol { line: at.line, col: at.col + 1 } };
            push_token(out, sign, STeXSemanticTokens::KEYWORD);
            match kind {
                AssignKind::Df(v) => annots_into(v, out),
                AssignKind::Rename(mn, n) => {
                    opt_range_into(mn, STeXSemanticTokens::NAME, out);
                    push_token(out, *n, STeXSemanticTokens::NAME);
                },
            }
        },
    }
    assert(out@ =~= start + side_tokens(*side));
}

fn assigns_into(v: &Vec<InlineMorphAssign>, out: &mut Vec<Token>)
    requires
        assigns_ok(v@),
    ensures
        final(out)@ == old(out)@ + assigns_tokens(v@),
    decreases v,
{
    let ghost start = out@;
    let mut i: usize = 0;
    while i < v.len()
        invariant
            i <= v@.len(),
            assigns_ok(v@),
            out@ == start + assigns_tokens(v@.take(i as int)),
        decreases v@.len() - i,
    {
        proof {
            assert(decreases_to!(v => v@[i as int]));
            assert(v@.take(i + 1).subrange(0, i as int) =~= v@.take(i as int));
            lemma_assigns_ok_each(v@, i as int);
        }
        let x = &v[i];
        let ghost mid = out@;
        push_token(out, x.symbol_range, STeXSemanticTokens::SYMBOL);
        side_into(&x.first, out);
        side_into(&x.second, out);
        assert(out@ =~= mid + assign_tokens(*x));
        assert(out@ =~= start + assigns_tokens(v@.take(i + 1)));
        i = i + 1;
    }
    assert(v@.take(v@.len() as int) =~= v@);
}

/// Appends the semantic tokens of the annotation `a` to `out`, in the
/// order the editor receives them (see `annot_tokens`).
#[verifier::rlimit(100)]
#[verifier::spinoff_prover]
pub fn semantic_tokens(a: &Annot, out: &mut Vec<Token>)
    requires
        annot_ok(*a),
    ensures
        final(out)@ == old(out)@ + annot_tokens(*a),
    decreases a,
{
    let ghost start = out@;
    match a {
        Annot::SRef { token_range, opt_args, in_opt_args, .. } => {
            push_token(out, *token_range, STeXSemanticTokens::REF_MACRO);
            args_into(opt_args, out);
            args_into(in_opt_args, out);
        },
        Annot::Module { smodule_range, opts, name_range, children, full_range, .. } => {
            push_token(out, *smodule_range, STeXSemanticTokens::DECLARATION);
            args_into(opts, out);
            push_token(out, *name_range, STeXSemanticTokens::NAME);
            annots_into(children, out);
            push_token(out, closing(*full_range, 7), STeXSemanticTokens::DECLARATION);
        },
        Annot::MathStructure {
            mathstructure_range,
            name_range,
            opts,
            extends,
            children,
            full_range, .. } => {
            push_token(out, *mathstructure_range, STeXSemanticTokens::DECLARATION);
            push_token(out, *name_range, STeXSemanticTokens::NAME);
            args_into(opts, out);
            refs_into(extends, STeXSemanticTokens::SYMBOL, out);
            annots_into(children, out);
            let width: u32 = if extends.len() == 0 {
                13
            } else {
                12
            };
            push_token(out, closing(*full_range, width), STeXSemanticTokens::DECLARATION);
        },
        Annot::ConservativeExt { extstructure_range, ext_range, children, full_range, .. } => {
            push_token(out, *extstructure_range, STeXSemanticTokens::DECLARATION);
            push_token(out, *ext_range, STeXSemanticTokens::SYMBOL);
            annots_into(children, out);
            push_token(out, closing(*full_range, 13), STeXSemanticTokens::DECLARATION);
        },
        Annot::MorphismEnv {
            env_range,
            name_range,
            domain_is_struct,
            domain_range,
            children,
            full_range,
            kind,
            star, .. } => {
            push_token(out, *env_range, STeXSemanticTokens::DECLARATION);
            push_token(out, *name_range, STeXSemanticTokens::NAME);
            if *domain_is_struct {
                push_token(out, *domain_range, STeXSemanticTokens::SYMBOL);
            }
            annots_into(children, out);
            let len: u32 = match kind {
                MorphismKind::CopyModule => 10,
                MorphismKind::InterpretModule => 15,
            };
            let len: u32 = if *star {
                len + 1
            } else {
                len
            };
            push_token(out, closing(*full_range, len), STeXSemanticTokens::DECLARATION);
        },
        Annot::InlineMorphism {
            token_range,
            name_range,
            domain_is_struct,
            domain_range,
            assignments, .. } => {
            push_token(out, *token_range, STeXSemanticTokens::DECLARATION);
            push_token(out, *name_range, STeXSemanticTokens::NAME);
            if *domain_is_struct {
                push_token(out, *domain_range, STeXSemanticTokens::SYMBOL);
            }
            assigns_into(assignments, out);
        },
        Annot::UseModule { token_range, .. } => {
            push_token(out, *token_range, STeXSemanticTokens::LOCAL);
        },
        Annot::UseStructure { token_range, structure_range, .. } => {
            push_token(out, *token_range, STeXSemanticTokens::LOCAL);
            push_token(out, *structure_range, STeXSemanticTokens::SYMBOL);
        },
        Annot::IncludeProblem { token_range, args, .. } => {
            push_token(out, *token_range, STeXSemanticTokens::REF_MACRO);
            args_into(args, out);
        },
        Annot::Inputref { token_range, .. } | Annot::MHInput { token_range, .. } | Annot::MHGraphics { token_range, .. } | Annot::Defnotation { full_range: token_range } => {
            push_token(out, *token_range, STeXSemanticTokens::REF_MACRO);
        },
        Annot::SetMetatheory { token_range, .. } | Annot::ImportModule { token_range, .. } => {
            push_token(out, *token_range, STeXSemanticTokens::DECLARATION);
        },
        Annot::SemanticMacro { token_range, .. } => {
            push_token(out, *token_range, STeXSemanticTokens::SYMBOL);
        },
        Annot::VariableMacro { token_range, .. } => {
            push_token(out, *token_range, STeXSemanticTokens::VARIABLE);
        },
        Annot::Problem { name_range, parsed_args, children, full_range } => {
            push_token(out, *name_range, STeXSemanticTokens::REF_MACRO);
            args_into(parsed_args, out);
            annots_into(children, out);
            let end = TextRange {
                start: LineCol { line: full_range.end.line, col: full_range.start.col },
                end: LineCol { line: full_range.end.line, col: full_range.end.col - 1 },
            };
            push_token(out, end, STeXSemanticTokens::REF_MACRO);
        },
        Annot::Paragraph { kind, has_symbol, name_range, parsed_args, children, full_range, .. } => {
            let t = if *has_symbol {
                STeXSemanticTokens::DECLARATION
            } else {
                STeXSemanticTokens::REF_MACRO
            };
            push_token(out, *name_range, t);
            args_into(parsed_args, out);
            annots_into(children, out);
            let width: Option<u32> = match kind {
                ParagraphKind::Definition => Some(11),
                ParagraphKind::Paragraph => Some(10),
                ParagraphKind::Proof => Some(6),
                ParagraphKind::Example => Some(8),
                ParagraphKind::Assertion => Some(10),
                ParagraphKind::Other => None,
            };
            if let Some(w) = width {
                push_token(out, closing(*full_range, w), t);
            }
        },
        Annot::InlineParagraph { has_symbol, token_range, parsed_args, children, .. } => {
            let t = if *has_symbol {
                STeXSemanticTokens::DECLARATION
            } else {
                STeXSemanticTokens::REF_MACRO
            };
            push_token(out, *token_range, t);
            args_into(parsed_args, out);
            annots_into(children, out);
        },
        Annot::Symdecl { token_range, main_name_range, parsed_args, .. }
        | Annot::TextSymdecl { token_range, main_name_range, parsed_args, .. }
        | Annot::Symdef { token_range, main_name_range, parsed_args, .. } => {
            push_token(out, *token_range, STeXSemanticTokens::DECLARATION);
            push_token(out, *main_name_range, STeXSemanticTokens::NAME);
            args_into(parsed_args, out);
        },
        Annot::RenameDecl { token_range, orig_range, name_range, macroname_range, .. } => {
            push_token(out, *token_range, STeXSemanticTokens::DECLARATION);
            push_token(out, *orig_range, STeXSemanticTokens::SYMBOL);
            opt_range_into(name_range, STeXSemanticTokens::NAME, out);
            push_token(out, *macroname_range, STeXSemanticTokens::NAME);
        },
        Annot::Assign { token_range, orig_range, .. } => {
            push_token(out, *token_range, STeXSemanticTokens::DECLARATION);
            push_token(out, *orig_range, STeXSemanticTokens::SYMBOL);
        },
        Annot::Svar { full_range, .. } => {
            push_token(out, *full_range, STeXSemanticTokens::VARIABLE);
        },
        Annot::Vardef { token_range, main_name_range, parsed_args, .. }
        | Annot::Varseq { token_range, main_name_range, parsed_args, .. } => {
            push_token(out, *token_range, STeXSemanticTokens::LOCAL);
            push_token(out, *main_name_range, STeXSemanticTokens::NAME);
            args_into(parsed_args, out);
        },
        Annot::Notation { token_range, name_range, notation_args, .. } => {
            push_token(out, *token_range, STeXSemanticTokens::DECLARATION);
            push_token(out, *name_range, STeXSemanticTokens::SYMBOL);
            args_into(notation_args, out);
        },
        Annot::SymName { token_range, name_range, .. } | Annot::Symref { token_range, name_range, .. }
        | Annot::Symuse { token_range, name_range, .. } => {
            push_token(out, *token_range, STeXSemanticTokens::REF_MACRO);
            push_token(out, *name_range, STeXSemanticTokens::SYMBOL);
        },
        Annot::Precondition { token_range, dim_range, symbol_range, .. }
        | Annot::Objective { token_range, dim_range, symbol_range, .. } => {
            push_token(out, *token_range, STeXSemanticTokens::REF_MACRO);
            push_token(out, *dim_range, STeXSemanticTokens::KEYWORD);
            push_token(out, *symbol_range, STeXSemanticTokens::SYMBOL);
        },
        Annot::Definiens { token_range, name_range, .. } => {
            push_token(out, *token_range, STeXSemanticTokens::REF_MACRO);
            opt_range_into(name_range, STeXSemanticTokens::SYMBOL, out);
        },
        Annot::SnifySuggestion { .. } => {},
    }
    assert(out@ =~= start + annot_tokens(*a));
}

/// The kind of an entry of a document's outline, as the editor shows it.
#[derive(Clone, Copy, PartialEq, Eq, Structural)]
pub enum SymbolKind {
    Module,
    Namespace,
    Package,
    Struct,
    Interface,
    Object,
    Variable,
}

/// An entry of a document's outline: its name, an optional detail, its
/// kind, the range it covers and the range to select.
pub struct DocSymbol {
    pub name: String,
    pub detail: Option<String>,
    pub kind: SymbolKind,
    pub range: TextRange,
    pub selection_range: TextRange,
}

/// The text of an optional text.
pub open spec fn opt_text(t: Option<String>) -> Option<Seq<char>> {
    match t {
        Some(x) => Some(x@),
        None => None,
    }
}

/// The outline name of an input of the file `filepath`, optionally in the
/// archive `archive`: `WHAT@FILE` or `WHAT@[ARCHIVE]FILE`.
pub open spec fn input_name(what: Seq<char>, archive: Option<String>, filepath: Seq<char>) -> Seq<char> {
    match archive {
        None => what + "@"@ + filepath,
        Some(a) => what + "@["@ + a@ + "]"@ + filepath,
    }
}

/// What the outline shows for an annotation, if anything: its name, detail,
/// kind, range and selection range, and the annotations nested under it.
pub open spec fn symbol_of(a: Annot) -> Option<
    (Seq<char>, Option<Seq<char>>, SymbolKind, TextRange, TextRange, Seq<Annot>),
> {
    match a {
        Annot::Module { uri, full_range, name_range, children, .. } => Some(
            (uri@, None, SymbolKind::Module, full_range, name_range, children@),
        ),
        Annot::MathStructure { uri, name_range, full_range, children, .. } => Some(
            (uri@, None, SymbolKind::Struct, full_range, name_range, children@),
        ),
        Annot::ConservativeExt { uri, full_range, extstructure_range, children, .. } => Some(
            (uri@ + "_EXT"@, None, SymbolKind::Struct, full_range, extstructure_range, children@),
        ),
        Annot::MorphismEnv { uri, full_range, env_range, children, .. } => Some(
            (uri@, None, SymbolKind::Interface, full_range, env_range, children@),
        ),
        Annot::InlineMorphism { uri, full_range, token_range, .. } => Some(
            (uri@, None, SymbolKind::Interface, full_range, token_range, Seq::empty()),
        ),
        Annot::Paragraph { kind_name, full_range, name_range, children, .. } => Some(
            (kind_name@, None, SymbolKind::Package, full_range, name_range, children@),
        ),
        Annot::InlineParagraph { kind_name, full_range, token_range, children, .. } => Some(
            (kind_name@, None, SymbolKind::Package, full_range, token_range, children@),
        ),
        Annot::Problem { full_range, name_range, children, .. } => Some(
            ("problem"@, None, SymbolKind::Package, full_range, name_range, children@),
        ),
        Annot::Symdecl { uri, main_name_range, full_range, .. } => Some(
            (uri@, None, SymbolKind::Object, full_range, main_name_range, Seq::empty()),
        ),
        Annot::TextSymdecl { uri, main_name_range, full_range, .. } => Some(
            (uri@, None, SymbolKind::Object, full_range, main_name_range, Seq::empty()),
        ),
        Annot::Symdef { uri, main_name_range, full_range, .. } => Some(
            (uri@, None, SymbolKind::Object, full_range, main_name_range, Seq::empty()),
        ),
        Annot::Vardef { name, main_name_range, full_range, .. } => Some(
            (name@, None, SymbolKind::Variable, full_range, main_name_range, Seq::empty()),
        ),
        Annot::Varseq { name, main_name_range, full_range, .. } => Some(
            (name@, None, SymbolKind::Variable, full_range, main_name_range, Seq::empty()),
        ),
        Annot::ImportModule { module, full_range, .. } => Some(
            ("import@"@ + module@, Some(module@), SymbolKind::Package, full_range, full_range, Seq::empty()),
        ),
        Annot::UseModule { module, full_range, .. } => Some(
            ("usemodule@"@ + module@, Some(module@), SymbolKind::Package, full_range, full_range, Seq::empty()),
        ),
        Annot::UseStructure { structure, full_range, .. } => Some(
            ("usestructure@"@ + structure@, None, SymbolKind::Package, full_range, full_range, Seq::empty()),
        ),
        Annot::SetMetatheory { module, full_range, .. } => Some(
            ("metatheory@"@ + module@, Some(module@), SymbolKind::Namespace, full_range, full_range, Seq::empty()),
        ),
        Annot::Inputref { archive, filepath, full_range, .. } => Some(
            (input_name("inputref"@, archive, filepath@), None, SymbolKind::Package, full_range, full_range, Seq::empty()),
        ),
        Annot::IncludeProblem { archive, filepath, full_range, .. } => Some(
            (input_name("inputref"@, archive, filepath@), None, SymbolKind::Package, full_range, full_range, Seq::empty()),
        ),
        Annot::MHInput { archive, filepath, full_range, .. } => Some(
            (input_name("mhinput"@, archive, filepath@), None, SymbolKind::Package, full_range, full_range, Seq::empty()),
        ),
        _ => None,
    }
}

/// The texts `a` and `b`, one after the other.
fn text2(a: &str, b: &str) -> (r: String)
    ensures
        r@ == a@ + b@,
{
    let mut out = String::new();
    put(&mut out, a);
    put(&mut out, b);
    out
}

/// `input_name`, computed.
fn input_text(what: &str, archive: &Option<String>, filepath: &str) -> (r: String)
    ensures
        r@ == input_name(what@, *archive, filepath@),
{
    proof {
        reveal_strlit("@");
        reveal_strlit("@[");
        reveal_strlit("]");
    }
    let mut out = String::new();
    put(&mut out, what);
    match archive {
        None => {
            put(&mut out, "@");
        },
        Some(a) => {
            put(&mut out, "@[");
            put(&mut out, a.as_str());
            put(&mut out, "]");
        },
    }
    put(&mut out, filepath);
    out
}

/// The entry of the document's outline for the annotation `a`, if it has
/// one, and the annotations nested under it (see `symbol_of`).
pub fn as_symbol(a: &Annot) -> (r: Option<(DocSymbol, &[Annot])>)
    ensures
        match (r, symbol_of(*a)) {
            (None, None) => true,
            (Some((d, ch)), Some((name, detail, kind, range, sel, children))) => {
                &&& d.name@ == name
                &&& opt_text(d.detail) == detail
                &&& d.kind == kind
                &&& d.range == range
                &&& d.selection_range == sel
                &&& ch@ == children
            },
            _ => false,
        },
{
    let none: &[Annot] = &[];
    assert(none@ =~= Seq::<Annot>::empty());
    proof {
        reveal_strlit("_EXT");
        reveal_strlit("problem");
        reveal_strlit("import@");
        reveal_strlit("usemodule@");
        reveal_strlit("usestructure@");
        reveal_strlit("metatheory@");
        reveal_strlit("inputref");
        reveal_strlit("mhinput");
    }
    let sym = |name: String, detail: Option<String>, kind: SymbolKind, range: TextRange, selection_range: TextRange| -> (d: DocSymbol)
        ensures
            d.name == name && d.detail == detail && d.kind == kind && d.range == range
                && d.selection_range == selection_range,
    { DocSymbol { name, detail, kind, range, selection_range } };
    match a {
        Annot::Module { uri, full_range, name_range, children, .. } => Some(
            (sym(uri.clone(), None, SymbolKind::Module, *full_range, *name_range), children.as_slice()),
        ),
        Annot::MathStructure { uri, name_range, full_range, children, .. } => Some(
            (sym(uri.clone(), None, SymbolKind::Struct, *full_range, *name_range), children.as_slice()),
        ),
        Annot::ConservativeExt { uri, full_range, extstructure_range, children, .. } => Some(
            (
                sym(text2(uri.as_str(), "_EXT"), None, SymbolKind::Struct, *full_range, *extstructure_range),
                children.as_slice(),
            ),
        ),
        Annot::MorphismEnv { uri, full_range, env_range, children, .. } => Some(
            (sym(uri.clone(), None, SymbolKind::Interface, *full_range, *env_range), children.as_slice()),
        ),
        Annot::InlineMorphism { uri, full_range, token_range, .. } => Some(
            (sym(uri.clone(), None, SymbolKind::Interface, *full_range, *token_range), none),
        ),
        Annot::Paragraph { kind_name, full_range, name_range, children, .. } => Some(
            (sym(kind_name.clone(), None, SymbolKind::Package, *full_range, *name_range), children.as_slice()),
        ),
        Annot::InlineParagraph { kind_name, full_range, token_range, children, .. } => Some(
            (sym(kind_name.clone(), None, SymbolKind::Package, *full_range, *token_range), children.as_slice()),
        ),
        Annot::Problem { full_range, name_range, children, .. } => Some(
            (sym("problem".to_string(), None, SymbolKind::Package, *full_range, *name_range), children.as_slice()),
        ),
        Annot::Symdecl { uri, main_name_range, full_range, .. }
        | Annot::TextSymdecl { uri, main_name_range, full_range, .. }
        | Annot::Symdef { uri, main_name_range, full_range, .. } => Some(
            (sym(uri.clone(), None, SymbolKind::Object, *full_range, *main_name_range), none),
        ),
        Annot::Vardef { name, main_name_range, full_range, .. }
        | Annot::Varseq { name, main_name_range, full_range, .. } => Some(
            (sym(name.clone(), None, SymbolKind::Variable, *full_range, *main_name_range), none),
        ),
        Annot::ImportModule { module, full_range, .. } => Some(
            (
                sym(text2("import@", module.as_str()), Some(module.clone()), SymbolKind::Package, *full_range, *full_range),
                none,
            ),
        ),
        Annot::UseModule { module, full_range, .. } => Some(
            (
                sym(text2("usemodule@", module.as_str()), Some(module.clone()), SymbolKind::Package, *full_range, *full_range),
                none,
            ),
        ),
        Annot::UseStructure { structure, full_range, .. } => Some(
            (
                sym(text2("usestructure@", structure.as_str()), None, SymbolKind::Package, *full_range, *full_range),
                none,
            ),
        ),
        Annot::SetMetatheory { module, full_range, .. } => Some(
            (
                sym(text2("metatheory@", module.as_str()), Some(module.clone()), SymbolKind::Namespace, *full_range, *full_range),
                none,
            ),
        ),
        Annot::Inputref { archive, filepath, full_range, .. }
        | Annot::IncludeProblem { archive, filepath, full_range, .. } => Some(
            (
                sym(input_text("inputref", archive, filepath.as_str()), None, SymbolKind::Package, *full_range, *full_range),
                none,
            ),
        ),
        Annot::MHInput { archive, filepath, full_range, .. } => Some(
            (
                sym(input_text("mhinput", archive, filepath.as_str()), None, SymbolKind::Package, *full_range, *full_range),
                none,
            ),
        ),
        _ => None,
    }
}

/// What highlighting gives a reference to a symbol, a variable or a file:
/// its macro as a reference (or as a declaration, a local, a variable, for
/// the macros that declare, import or stand for one), then the name of
/// what it refers to as a symbol. An environment starts with its opening
/// macro as a declaration or a reference and, where it has a name, the
/// name, and ends with its closing.
pub proof fn lemma_tokens_of_references(a: Annot)
    ensures
        a matches Annot::SymName { token_range, name_range, .. } ==> annot_tokens(a) == seq![
            (token_range, 4u32),
            (name_range, 2u32),
        ],
        a matches Annot::Symref { token_range, name_range, .. } ==> annot_tokens(a) == seq![
            (token_range, 4u32),
            (name_range, 2u32),
        ],
        a matches Annot::Symuse { token_range, name_range, .. } ==> annot_tokens(a) == seq![
            (token_range, 4u32),
            (name_range, 2u32),
        ],
        a matches Annot::Precondition { token_range, dim_range, symbol_range, .. } ==> annot_tokens(a)
            == seq![(token_range, 4u32), (dim_range, 1u32), (symbol_range, 2u32)],
        a matches Annot::Objective { token_range, dim_range, symbol_range, .. } ==> annot_tokens(a)
            == seq![(token_range, 4u32), (dim_range, 1u32), (symbol_range, 2u32)],
        a matches Annot::Definiens { token_range, name_range: Some(r), .. } ==> annot_tokens(a) == seq![
            (token_range, 4u32),
            (r, 2u32),
        ],
        a matches Annot::Definiens { token_range, name_range: None, .. } ==> annot_tokens(a) == seq![
            (token_range, 4u32),
        ],
        a matches Annot::SemanticMacro { token_range, .. } ==> annot_tokens(a) == seq![(token_range, 2u32)],
        a matches Annot::VariableMacro { token_range, .. } ==> annot_tokens(a) == seq![(token_range, 5u32)],
        a matches Annot::Svar { full_range, .. } ==> annot_tokens(a) == seq![(full_range, 5u32)],
        a matches Annot::UseModule { token_range, .. } ==> annot_tokens(a) == seq![(token_range, 6u32)],
        a matches Annot::ImportModule { token_range, .. } ==> annot_tokens(a) == seq![(token_range, 3u32)],
        a matches Annot::SetMetatheory { token_range, .. } ==> annot_tokens(a) == seq![(token_range, 3u32)],
        a matches Annot::UseStructure { token_range, structure_range, .. } ==> annot_tokens(a) == seq![
            (token_range, 6u32),
            (structure_range, 2u32),
        ],
        a matches Annot::Inputref { token_range, .. } ==> annot_tokens(a) == seq![(token_range, 4u32)],
        a matches Annot::MHInput { token_range, .. } ==> annot_tokens(a) == seq![(token_range, 4u32)],
        a matches Annot::MHGraphics { token_range, .. } ==> annot_tokens(a) == seq![(token_range, 4u32)],
        a matches Annot::Defnotation { full_range } ==> annot_tokens(a) == seq![(full_range, 4u32)],
        a matches Annot::Assign { token_range, orig_range, .. } ==> annot_tokens(a) == seq![
            (token_range, 3u32),
            (orig_range, 2u32),
        ],
        a matches Annot::SnifySuggestion { .. } ==> annot_tokens(a).len() == 0,
        a matches Annot::Module { smodule_range, full_range, .. } ==> annot_tokens(a)[0] == (
            smodule_range,
            3u32,
        ) && annot_tokens(a).last() == (closing_range(full_range, 7), 3u32),
        a matches Annot::ConservativeExt { extstructure_range, ext_range, full_range, .. } ==> annot_tokens(
            a,
        )[0] == (extstructure_range, 3u32) && annot_tokens(a)[1] == (ext_range, 2u32) && annot_tokens(
            a,
        ).last() == (closing_range(full_range, 13), 3u32),
        a matches Annot::MathStructure { mathstructure_range, name_range, .. } ==> annot_tokens(a)[0] == (
            mathstructure_range,
            3u32,
        ) && annot_tokens(a)[1] == (name_range, 0u32),
        a matches Annot::MorphismEnv { env_range, name_range, .. } ==> annot_tokens(a)[0] == (
            env_range,
            3u32,
        ) && annot_tokens(a)[1] == (name_range, 0u32),
        a matches Annot::InlineMorphism { token_range, name_range, .. } ==> annot_tokens(a)[0] == (
            token_range,
            3u32,
        ) && annot_tokens(a)[1] == (name_range, 0u32),
        a matches Annot::Symdecl { token_range, main_name_range, .. } ==> annot_tokens(a)[0] == (
            token_range,
            3u32,
        ) && annot_tokens(a)[1] == (main_name_range, 0u32),
        a matches Annot::Symdef { token_range, main_name_range, .. } ==> annot_tokens(a)[0] == (
            token_range,
            3u32,
        ) && annot_tokens(a)[1] == (main_name_range, 0u32),
        a matches Annot::Vardef { token_range, main_name_range, .. } ==> annot_tokens(a)[0] == (
            token_range,
            6u32,
        ) && annot_tokens(a)[1] == (main_name_range, 0u32),
        a matches Annot::Notation { token_range, name_range, .. } ==> annot_tokens(a)[0] == (
            token_range,
            3u32,
        ) && annot_tokens(a)[1] == (name_range, 2u32),
        a matches Annot::SRef { token_range, .. } ==> annot_tokens(a)[0] == (token_range, 4u32),
{
}

/// What the outline shows: a module, structure, morphism or declaration by
/// its URI, a paragraph by its kind, a variable by its name, an import by
/// what it imports; each over its whole range, selecting its name, with
/// the contents of an environment nested under it. Nothing else is shown.
pub proof fn lemma_outline_entries(a: Annot)
    ensures
        a matches Annot::Module { uri, full_range, name_range, children, .. } ==> symbol_of(a) == Some(
            (uri@, None::<Seq<char>>, SymbolKind::Module, full_range, name_range, children@),
        ),
        a matches Annot::MathStructure { uri, full_range, name_range, children, .. } ==> symbol_of(a)
            == Some((uri@, None::<Seq<char>>, SymbolKind::Struct, full_range, name_range, children@)),
        a matches Annot::MorphismEnv { uri, full_range, env_range, children, .. } ==> symbol_of(a) == Some(
            (uri@, None::<Seq<char>>, SymbolKind::Interface, full_range, env_range, children@),
        ),
        a matches Annot::Symdecl { uri, full_range, main_name_range, .. } ==> symbol_of(a) == Some(
            (uri@, None::<Seq<char>>, SymbolKind::Object, full_range, main_name_range, Seq::<Annot>::empty()),
        ),
        a matches Annot::TextSymdecl { uri, full_range, main_name_range, .. } ==> symbol_of(a) == Some(
            (uri@, None::<Seq<char>>, SymbolKind::Object, full_range, main_name_range, Seq::<Annot>::empty()),
        ),
        a matches Annot::Symdef { uri, full_range, main_name_range, .. } ==> symbol_of(a) == Some(
            (uri@, None::<Seq<char>>, SymbolKind::Object, full_range, main_name_range, Seq::<Annot>::empty()),
        ),
        a matches Annot::Vardef { name, full_range, main_name_range, .. } ==> symbol_of(a) == Some(
            (name@, None::<Seq<char>>, SymbolKind::Variable, full_range, main_name_range, Seq::<Annot>::empty()),
        ),
        a matches Annot::Varseq { name, full_range, main_name_range, .. } ==> symbol_of(a) == Some(
            (name@, None::<Seq<char>>, SymbolKind::Variable, full_range, main_name_range, Seq::<Annot>::empty()),
        ),
        a matches Annot::Paragraph { kind_name, full_range, name_range, children, .. } ==> symbol_of(a)
            == Some((kind_name@, None::<Seq<char>>, SymbolKind::Package, full_range, name_range, children@)),
        a matches Annot::ImportModule { module, full_range, .. } ==> symbol_of(a) == Some(
            ("import@"@ + module@, Some(module@), SymbolKind::Package, full_range, full_range, Seq::<Annot>::empty()),
        ),
        a matches Annot::UseModule { module, full_range, .. } ==> symbol_of(a) == Some(
            ("usemodule@"@ + module@, Some(module@), SymbolKind::Package, full_range, full_range, Seq::<Annot>::empty()),
        ),
        (a is SymName || a is Symref || a is Symuse || a is Svar || a is SemanticMacro || a is VariableMacro
            || a is Notation || a is Definiens || a is Assign || a is RenameDecl || a is SRef
            || a is SnifySuggestion || a is MHGraphics || a is Defnotation || a is Precondition
            || a is Objective) ==> symbol_of(a) is None,
{
}

} // verus!

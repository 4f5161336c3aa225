use crate::names::{has_invalid_char, split_steps, InvalidURICharacter, Name, NameStep};
use std::ops::{BitAnd, BitOr, Div, Not, Rem};
use vstd::prelude::*;

verus! {

/// The identifier of an archive, as `some/archive`.
pub struct ArchiveId(pub String);

impl ArchiveId {
    /// The archive identifier `s`.
    pub fn new(s: &str) -> (r: ArchiveId)
        ensures
            r.0@ == s@,
    {
        ArchiveId(s.to_string())
    }
}

/// The base of a family of URIs, such as `https://mathhub.info`.
pub struct BaseURI(pub String);

impl BaseURI {
    /// The base URI `s`, taken as it is.
    pub fn new_unchecked(s: &str) -> (r: BaseURI)
        ensures
            r.0@ == s@,
    {
        BaseURI(s.to_string())
    }

    /// The text of the base URI.
    pub fn as_str(&self) -> (r: &str)
        ensures
            r@ == self.0@,
    {
        self.0.as_str()
    }
}

/// An archive at a base URI.
pub struct ArchiveURI {
    pub base: BaseURI,
    pub archive: ArchiveId,
}

/// A path within an archive; no path is the archive's top.
pub struct PathURI {
    pub archive: ArchiveURI,
    pub path: Option<Name>,
}

/// A module, by its path and name.
pub struct ModuleURI {
    pub path: PathURI,
    pub name: Name,
}

/// A symbol, by its module and name.
pub struct SymbolURI {
    pub module: ModuleURI,
    pub name: Name,
}

/// The language a document is written in.
#[derive(PartialEq, Eq, Structural, Clone, Copy)]
pub enum Language {
    English,
    German,
    French,
    Romanian,
    Arabic,
    Bulgarian,
    Russian,
    Finnish,
    Turkish,
    Slovenian,
}

impl Default for Language {
    /// English.
    fn default() -> (r: Language)
        ensures
            r == Language::English,
    {
        Language::English
    }
}

/// A document, by its path, name and language.
pub struct DocumentURI {
    pub path: PathURI,
    pub name: Name,
    pub language: Language,
}

/// An element of a document, by its document and name.
pub struct DocumentElementURI {
    pub document: DocumentURI,
    pub name: Name,
}

/// A narrative element: a document or an element of one.
pub enum NarrativeURI {
    Document(DocumentURI),
    Element(DocumentElementURI),
}

/// The top of an archive, as a path.
pub open spec fn top_path(archive: ArchiveURI) -> PathURI {
    PathURI { archive, path: None }
}

impl vstd::std_specs::convert::FromSpecImpl<ArchiveURI> for PathURI {
    open spec fn obeys_from_spec() -> bool {
        true
    }

    open spec fn from_spec(v: ArchiveURI) -> PathURI {
        top_path(v)
    }
}

impl From<ArchiveURI> for PathURI {
    /// The top of the archive.
    fn from(v: ArchiveURI) -> (r: PathURI) {
        PathURI { archive: v, path: None }
    }
}

/// `n` is the name that `s` parses to.
pub open spec fn parses_to(s: Seq<char>, n: Name) -> bool {
    n@ == split_steps(s)
}

impl BaseURI {
    /// The archive `rhs` at this base.
    pub fn archive_named(self, rhs: &str) -> (r: ArchiveURI)
        ensures
            r.base == self,
            r.archive.0@ == rhs@,
    {
        ArchiveURI { base: self, archive: ArchiveId::new(rhs) }
    }
}

impl ArchiveURI {
    /// The module named by `rhs` at the top of this archive; refused when
    /// `rhs` holds a reserved character.
    pub fn module_named(self, rhs: &str) -> (r: Result<ModuleURI, InvalidURICharacter>)
        ensures
            has_invalid_char(rhs@) <==> r is Err,
            r matches Ok(m) ==> m.path == top_path(self) && parses_to(rhs@, m.name),
    {
        match Name::parse(rhs) {
            Ok(name) => Ok(ModuleURI { path: PathURI { archive: self, path: None }, name }),
            Err(e) => Err(e),
        }
    }

    /// The document named by `rhs` at the top of this archive, in the
    /// default language; refused when `rhs` holds a reserved character.
    pub fn document_named(self, rhs: &str) -> (r: Result<DocumentURI, InvalidURICharacter>)
        ensures
            has_invalid_char(rhs@) <==> r is Err,
            r matches Ok(d) ==> d.path == top_path(self) && parses_to(rhs@, d.name) && d.language
                == Language::English,
    {
        match Name::parse(rhs) {
            Ok(name) => Ok(
                DocumentURI {
                    path: PathURI { archive: self, path: None },
                    name,
                    language: Language::default(),
                },
            ),
            Err(e) => Err(e),
        }
    }

    /// The path `rhs` in this archive; the empty text is the archive's top.
    /// Refused when `rhs` holds a reserved character.
    pub fn path_named(self, rhs: &str) -> (r: Result<PathURI, InvalidURICharacter>)
        ensures
            has_invalid_char(rhs@) <==> r is Err,
            r matches Ok(p) ==> {
                &&& p.archive == self
                &&& rhs@.len() == 0 ==> p.path is None
                &&& rhs@.len() > 0 ==> (p.path matches Some(n) && parses_to(rhs@, n))
            },
    {
        if rhs.is_empty() {
            proof {
                assert(!has_invalid_char(rhs@));
            }
            Ok(PathURI { archive: self, path: None })
        } else {
            match Name::parse(rhs) {
                Ok(name) => Ok(PathURI { archive: self, path: Some(name) }),
                Err(e) => Err(e),
            }
        }
    }

    /// The document named by the first of `rhs` at the top of this archive,
    /// in the language the second gives; refused when the name holds a
    /// reserved character.
    pub fn document_in_named(self, rhs: (&str, Language)) -> (r: Result<
        DocumentURI,
        InvalidURICharacter,
    >)
        ensures
            has_invalid_char(rhs.0@) <==> r is Err,
            r matches Ok(d) ==> d.path == top_path(self) && parses_to(rhs.0@, d.name) && d.language
                == rhs.1,
    {
        match Name::parse(rhs.0) {
            Ok(name) => Ok(
                DocumentURI { path: PathURI { archive: self, path: None }, name, language: rhs.1 },
            ),
            Err(e) => Err(e),
        }
    }
}

/// The name of the path `p` extended by `rhs`.
pub open spec fn extended_path(p: Option<Name>, rhs: Seq<Seq<char>>) -> Seq<Seq<char>> {
    match p {
        Some(n) => n@ + rhs,
        None => rhs,
    }
}

impl PathURI {
    /// This path extended by `rhs`.
    pub fn join_name(self, rhs: Name) -> (r: PathURI)
        ensures
            r.archive == self.archive,
            r.path matches Some(n) && n@ == extended_path(self.path, rhs@),
    {
        let path = match self.path {
            Some(p) => p.join(rhs),
            None => rhs,
        };
        PathURI { archive: self.archive, path: Some(path) }
    }

    /// This path extended by a copy of `rhs`.
    pub fn join_name_ref(self, rhs: &Name) -> (r: PathURI)
        ensures
            r.archive == self.archive,
            r.path matches Some(n) && n@ == extended_path(self.path, rhs@),
    {
        self.join_name(rhs.copy())
    }

    /// This path extended by the steps of `rhs`; the empty text leaves it
    /// as it is. Refused when `rhs` holds a reserved character.
    pub fn join_str(self, rhs: &str) -> (r: Result<PathURI, InvalidURICharacter>)
        ensures
            has_invalid_char(rhs@) <==> r is Err,
            rhs@.len() == 0 ==> r == Ok::<PathURI, InvalidURICharacter>(self),
            rhs@.len() > 0 ==> (r matches Ok(p) ==> p.archive == self.archive && (p.path matches Some(
                n,
            ) && n@ == extended_path(self.path, split_steps(rhs@)))),
    {
        if rhs.is_empty() {
            proof {
                assert(!has_invalid_char(rhs@));
            }
            Ok(self)
        } else {
            match Name::parse(rhs) {
                Ok(name) => Ok(self.join_name(name)),
                Err(e) => Err(e),
            }
        }
    }

    /// The module named by `rhs` at this path; refused when `rhs` holds a
    /// reserved character.
    pub fn module_named(self, rhs: &str) -> (r: Result<ModuleURI, InvalidURICharacter>)
        ensures
            has_invalid_char(rhs@) <==> r is Err,
            r matches Ok(m) ==> m.path == self && parses_to(rhs@, m.name),
    {
        match Name::parse(rhs) {
            Ok(name) => Ok(ModuleURI { path: self, name }),
            Err(e) => Err(e),
        }
    }

    /// The document named by the first of `rhs` at this path, in the
    /// language the second gives; refused when the name holds a reserved
    /// character.
    pub fn document_in_named(self, rhs: (&str, Language)) -> (r: Result<
        DocumentURI,
        InvalidURICharacter,
    >)
        ensures
            has_invalid_char(rhs.0@) <==> r is Err,
            r matches Ok(d) ==> d.path == self && parses_to(rhs.0@, d.name) && d.language == rhs.1,
    {
        match Name::parse(rhs.0) {
            Ok(name) => Ok(DocumentURI { path: self, name, language: rhs.1 }),
            Err(e) => Err(e),
        }
    }
}

impl ModuleURI {
    /// The symbol named by `rhs` in this module; refused when `rhs` holds a
    /// reserved character.
    pub fn symbol_named(self, rhs: &str) -> (r: Result<SymbolURI, InvalidURICharacter>)
        ensures
            has_invalid_char(rhs@) <==> r is Err,
            r matches Ok(s) ==> s.module == self && parses_to(rhs@, s.name),
    {
        match Name::parse(rhs) {
            Ok(name) => Ok(SymbolURI { module: self, name }),
            Err(e) => Err(e),
        }
    }

    /// The top-level module this module is nested in: the module itself
    /// when its name has a single step, else the module named by the first
    /// step of its name.
    pub fn top(self) -> (r: ModuleURI)
        requires
            self.name@.len() > 0,
        ensures
            r.path == self.path,
            r.name@ == seq![self.name@[0]],
    {
        if self.name.is_simple() {
            assert(self.name@ =~= seq![self.name@[0]]);
            return self;
        }
        let mut steps = self.name.0;
        let first = steps.remove(0);
        ModuleURI { path: self.path, name: Name::from_step(first) }
    }

    /// The module nested in this one by the steps of `rhs`; refused when
    /// `rhs` holds a reserved character.
    pub fn join_str(self, rhs: &str) -> (r: Result<ModuleURI, InvalidURICharacter>)
        ensures
            has_invalid_char(rhs@) <==> r is Err,
            r matches Ok(m) ==> m.path == self.path && m.name@ == self.name@ + split_steps(rhs@),
    {
        match Name::parse(rhs) {
            Ok(name) => Ok(ModuleURI { path: self.path, name: self.name.join(name) }),
            Err(e) => Err(e),
        }
    }

    /// See `join_str`.
    pub fn join_string(self, rhs: String) -> (r: Result<ModuleURI, InvalidURICharacter>)
        ensures
            has_invalid_char(rhs@) <==> r is Err,
            r matches Ok(m) ==> m.path == self.path && m.name@ == self.name@ + split_steps(rhs@),
    {
        self.join_str(rhs.as_str())
    }

    /// The module nested in this one by one more step.
    pub fn push_step(self, rhs: NameStep) -> (r: ModuleURI)
        ensures
            r.path == self.path,
            r.name@ == self.name@.push(rhs@),
    {
        ModuleURI { path: self.path, name: self.name.push_step(rhs) }
    }

    /// The module nested in this one by the steps of `rhs`.
    pub fn join_name(self, rhs: Name) -> (r: ModuleURI)
        ensures
            r.path == self.path,
            r.name@ == self.name@ + rhs@,
    {
        ModuleURI { path: self.path, name: self.name.join(rhs) }
    }
}

impl DocumentURI {
    /// The element named by `rhs` in this document; refused when `rhs`
    /// holds a reserved character.
    pub fn element_named(self, rhs: &str) -> (r: Result<DocumentElementURI, InvalidURICharacter>)
        ensures
            has_invalid_char(rhs@) <==> r is Err,
            r matches Ok(e) ==> e.document == self && parses_to(rhs@, e.name),
    {
        match Name::parse(rhs) {
            Ok(name) => Ok(DocumentElementURI { document: self, name }),
            Err(e) => Err(e),
        }
    }
}

impl DocumentElementURI {
    /// The element nested in this one by the steps of `rhs`; refused when
    /// `rhs` holds a reserved character.
    pub fn join_str(self, rhs: &str) -> (r: Result<DocumentElementURI, InvalidURICharacter>)
        ensures
            has_invalid_char(rhs@) <==> r is Err,
            r matches Ok(e) ==> e.document == self.document && e.name@ == self.name@ + split_steps(
                rhs@,
            ),
    {
        match self.name.join_str(rhs) {
            Ok(name) => Ok(DocumentElementURI { document: self.document, name }),
            Err(e) => Err(e),
        }
    }

    /// See `join_str`.
    pub fn join_string(self, rhs: String) -> (r: Result<DocumentElementURI, InvalidURICharacter>)
        ensures
            has_invalid_char(rhs@) <==> r is Err,
            r matches Ok(e) ==> e.document == self.document && e.name@ == self.name@ + split_steps(
                rhs@,
            ),
    {
        self.join_str(rhs.as_str())
    }

    /// The element nested in this one by one more step.
    pub fn push_step(self, rhs: NameStep) -> (r: DocumentElementURI)
        ensures
            r.document == self.document,
            r.name@ == self.name@.push(rhs@),
    {
        DocumentElementURI { document: self.document, name: self.name.push_step(rhs) }
    }

    /// The element nested in this one by the steps of `rhs`.
    pub fn join_name(self, rhs: Name) -> (r: DocumentElementURI)
        ensures
            r.document == self.document,
            r.name@ == self.name@ + rhs@,
    {
        DocumentElementURI { document: self.document, name: self.name.join(rhs) }
    }
}

impl NarrativeURI {
    /// The element named `rhs` in this document, or nested by `rhs` in this
    /// element.
    pub fn element(self, rhs: Name) -> (r: DocumentElementURI)
        ensures
            match self {
                NarrativeURI::Document(d) => r.document == d && r.name@ == rhs@,
                NarrativeURI::Element(e) => r.document == e.document && r.name@ == e.name@ + rhs@,
            },
    {
        match self {
            NarrativeURI::Document(d) => DocumentElementURI { document: d, name: rhs },
            NarrativeURI::Element(e) => e.join_name(rhs),
        }
    }

    /// As `element`, with the name parsed from `rhs`; refused when `rhs`
    /// holds a reserved character.
    pub fn element_named(self, rhs: &str) -> (r: Result<DocumentElementURI, InvalidURICharacter>)
        ensures
            has_invalid_char(rhs@) <==> r is Err,
            r matches Ok(x) ==> match self {
                NarrativeURI::Document(d) => x.document == d && x.name@ == split_steps(rhs@),
                NarrativeURI::Element(e) => x.document == e.document && x.name@ == e.name@
                    + split_steps(rhs@),
            },
    {
        match Name::parse(rhs) {
            Ok(name) => Ok(self.element(name)),
            Err(e) => Err(e),
        }
    }
}

impl vstd::std_specs::ops::BitAndSpecImpl<ArchiveId> for BaseURI {
    open spec fn obeys_bitand_spec() -> bool {
        true
    }

    open spec fn bitand_req(self, rhs: ArchiveId) -> bool {
        true
    }

    open spec fn bitand_spec(self, rhs: ArchiveId) -> ArchiveURI {
        ArchiveURI { base: self, archive: rhs }
    }
}

impl BitAnd<ArchiveId> for BaseURI {
    type Output = ArchiveURI;

    /// The archive `rhs` at this base.
    fn bitand(self, rhs: ArchiveId) -> Self::Output {
        ArchiveURI { base: self, archive: rhs }
    }
}

impl<'a> vstd::std_specs::ops::BitAndSpecImpl<&'a str> for BaseURI {
    open spec fn obeys_bitand_spec() -> bool {
        false
    }

    open spec fn bitand_req(self, rhs: &'a str) -> bool {
        true
    }

    open spec fn bitand_spec(self, rhs: &'a str) -> ArchiveURI {
        arbitrary()
    }
}

impl<'a> BitAnd<&'a str> for BaseURI {
    type Output = ArchiveURI;

    /// See `BaseURI::archive_named`.
    fn bitand(self, rhs: &'a str) -> (r: Self::Output)
        ensures
            r.base == self,
            r.archive.0@ == rhs@,
    {
        self.archive_named(rhs)
    }
}

impl vstd::std_specs::ops::BitOrSpecImpl<Name> for ArchiveURI {
    open spec fn obeys_bitor_spec() -> bool {
        true
    }

    open spec fn bitor_req(self, rhs: Name) -> bool {
        true
    }

    open spec fn bitor_spec(self, rhs: Name) -> ModuleURI {
        ModuleURI { path: top_path(self), name: rhs }
    }
}

impl BitOr<Name> for ArchiveURI {
    type Output = ModuleURI;

    /// The module `rhs` at the top of this archive.
    fn bitor(self, rhs: Name) -> Self::Output {
        ModuleURI { path: PathURI::from(self), name: rhs }
    }
}

impl<'a> vstd::std_specs::ops::BitOrSpecImpl<&'a str> for ArchiveURI {
    open spec fn obeys_bitor_spec() -> bool {
        false
    }

    open spec fn bitor_req(self, rhs: &'a str) -> bool {
        true
    }

    open spec fn bitor_spec(self, rhs: &'a str) -> Result<ModuleURI, InvalidURICharacter> {
        arbitrary()
    }
}

impl<'a> BitOr<&'a str> for ArchiveURI {
    type Output = Result<ModuleURI, InvalidURICharacter>;

    /// See `ArchiveURI::module_named`.
    fn bitor(self, rhs: &'a str) -> (r: Self::Output)
        ensures
            has_invalid_char(rhs@) <==> r is Err,
            r matches Ok(m) ==> m.path == top_path(self) && parses_to(rhs@, m.name),
    {
        self.module_named(rhs)
    }
}

impl vstd::std_specs::ops::BitOrSpecImpl<Name> for ModuleURI {
    open spec fn obeys_bitor_spec() -> bool {
        true
    }

    open spec fn bitor_req(self, rhs: Name) -> bool {
        true
    }

    open spec fn bitor_spec(self, rhs: Name) -> SymbolURI {
        SymbolURI { module: self, name: rhs }
    }
}

impl BitOr<Name> for ModuleURI {
    type Output = SymbolURI;

    /// The symbol `rhs` in this module.
    fn bitor(self, rhs: Name) -> Self::Output {
        SymbolURI { module: self, name: rhs }
    }
}

impl<'a> vstd::std_specs::ops::BitOrSpecImpl<&'a str> for ModuleURI {
    open spec fn obeys_bitor_spec() -> bool {
        false
    }

    open spec fn bitor_req(self, rhs: &'a str) -> bool {
        true
    }

    open spec fn bitor_spec(self, rhs: &'a str) -> Result<SymbolURI, InvalidURICharacter> {
        arbitrary()
    }
}

impl<'a> BitOr<&'a str> for ModuleURI {
    type Output = Result<SymbolURI, InvalidURICharacter>;

    /// See `ModuleURI::symbol_named`.
    fn bitor(self, rhs: &'a str) -> (r: Self::Output)
        ensures
            has_invalid_char(rhs@) <==> r is Err,
            r matches Ok(s) ==> s.module == self && parses_to(rhs@, s.name),
    {
        self.symbol_named(rhs)
    }
}

impl vstd::std_specs::ops::BitAndSpecImpl<Name> for ArchiveURI {
    open spec fn obeys_bitand_spec() -> bool {
        true
    }

    open spec fn bitand_req(self, rhs: Name) -> bool {
        true
    }

    open spec fn bitand_spec(self, rhs: Name) -> DocumentURI {
        DocumentURI { path: top_path(self), name: rhs, language: Language::English }
    }
}

impl BitAnd<Name> for ArchiveURI {
    type Output = DocumentURI;

    /// The document `rhs` at the top of this archive, in the default language.
    fn bitand(self, rhs: Name) -> Self::Output {
        DocumentURI { path: PathURI::from(self), name: rhs, language: Language::default() }
    }
}

impl<'a> vstd::std_specs::ops::BitAndSpecImpl<&'a str> for ArchiveURI {
    open spec fn obeys_bitand_spec() -> bool {
        false
    }

    open spec fn bitand_req(self, rhs: &'a str) -> bool {
        true
    }

    open spec fn bitand_spec(self, rhs: &'a str) -> Result<DocumentURI, InvalidURICharacter> {
        arbitrary()
    }
}

impl<'a> BitAnd<&'a str> for ArchiveURI {
    type Output = Result<DocumentURI, InvalidURICharacter>;

    /// See `ArchiveURI::document_named`.
    fn bitand(self, rhs: &'a str) -> (r: Self::Output)
        ensures
            has_invalid_char(rhs@) <==> r is Err,
            r matches Ok(d) ==> d.path == top_path(self) && parses_to(rhs@, d.name) && d.language
                == Language::English,
    {
        self.document_named(rhs)
    }
}

impl vstd::std_specs::ops::RemSpecImpl<Name> for ArchiveURI {
    open spec fn obeys_rem_spec() -> bool {
        true
    }

    open spec fn rem_req(self, rhs: Name) -> bool {
        true
    }

    open spec fn rem_spec(self, rhs: Name) -> PathURI {
        PathURI { archive: self, path: Some(rhs) }
    }
}

impl Rem<Name> for ArchiveURI {
    type Output = PathURI;

    /// The path `rhs` in this archive.
    fn rem(self, rhs: Name) -> Self::Output {
        PathURI { archive: self, path: Some(rhs) }
    }
}

impl<'a> vstd::std_specs::ops::RemSpecImpl<&'a str> for ArchiveURI {
    open spec fn obeys_rem_spec() -> bool {
        false
    }

    open spec fn rem_req(self, rhs: &'a str) -> bool {
        true
    }

    open spec fn rem_spec(self, rhs: &'a str) -> Result<PathURI, InvalidURICharacter> {
        arbitrary()
    }
}

impl<'a> Rem<&'a str> for ArchiveURI {
    type Output = Result<PathURI, InvalidURICharacter>;

    /// See `ArchiveURI::path_named`.
    fn rem(self, rhs: &'a str) -> (r: Self::Output)
        ensures
            has_invalid_char(rhs@) <==> r is Err,
            r matches Ok(p) ==> {
                &&& p.archive == self
                &&& rhs@.len() == 0 ==> p.path is None
                &&& rhs@.len() > 0 ==> (p.path matches Some(n) && parses_to(rhs@, n))
            },
    {
        self.path_named(rhs)
    }
}

impl vstd::std_specs::ops::DivSpecImpl<Name> for PathURI {
    open spec fn obeys_div_spec() -> bool {
        false
    }

    open spec fn div_req(self, rhs: Name) -> bool {
        true
    }

    open spec fn div_spec(self, rhs: Name) -> PathURI {
        arbitrary()
    }
}

impl Div<Name> for PathURI {
    type Output = PathURI;

    /// See `PathURI::join_name`.
    fn div(self, rhs: Name) -> (r: Self::Output)
        ensures
            r.archive == self.archive,
            r.path matches Some(n) && n@ == extended_path(self.path, rhs@),
    {
        self.join_name(rhs)
    }
}

impl<'a> vstd::std_specs::ops::DivSpecImpl<&'a Name> for PathURI {
    open spec fn obeys_div_spec() -> bool {
        false
    }

    open spec fn div_req(self, rhs: &'a Name) -> bool {
        true
    }

    open spec fn div_spec(self, rhs: &'a Name) -> PathURI {
        arbitrary()
    }
}

impl<'a> Div<&'a Name> for PathURI {
    type Output = PathURI;

    /// See `PathURI::join_name_ref`.
    fn div(self, rhs: &'a Name) -> (r: Self::Output)
        ensures
            r.archive == self.archive,
            r.path matches Some(n) && n@ == extended_path(self.path, rhs@),
    {
        self.join_name_ref(rhs)
    }
}

impl<'a> vstd::std_specs::ops::DivSpecImpl<&'a str> for PathURI {
    open spec fn obeys_div_spec() -> bool {
        false
    }

    open spec fn div_req(self, rhs: &'a str) -> bool {
        true
    }

    open spec fn div_spec(self, rhs: &'a str) -> Result<PathURI, InvalidURICharacter> {
        arbitrary()
    }
}

impl<'a> Div<&'a str> for PathURI {
    type Output = Result<PathURI, InvalidURICharacter>;

    /// See `PathURI::join_str`.
    fn div(self, rhs: &'a str) -> (r: Self::Output)
        ensures
            has_invalid_char(rhs@) <==> r is Err,
            rhs@.len() == 0 ==> r == Ok::<PathURI, InvalidURICharacter>(self),
            rhs@.len() > 0 ==> (r matches Ok(p) ==> p.archive == self.archive && (p.path matches Some(
                n,
            ) && n@ == extended_path(self.path, split_steps(rhs@)))),
    {
        self.join_str(rhs)
    }
}

impl vstd::std_specs::ops::BitOrSpecImpl<Name> for PathURI {
    open spec fn obeys_bitor_spec() -> bool {
        true
    }

    open spec fn bitor_req(self, rhs: Name) -> bool {
        true
    }

    open spec fn bitor_spec(self, rhs: Name) -> ModuleURI {
        ModuleURI { path: self, name: rhs }
    }
}

impl BitOr<Name> for PathURI {
    type Output = ModuleURI;

    /// The module `rhs` at this path.
    fn bitor(self, rhs: Name) -> Self::Output {
        ModuleURI { path: self, name: rhs }
    }
}

impl<'a> vstd::std_specs::ops::BitOrSpecImpl<&'a str> for PathURI {
    open spec fn obeys_bitor_spec() -> bool {
        false
    }

    open spec fn bitor_req(self, rhs: &'a str) -> bool {
        true
    }

    open spec fn bitor_spec(self, rhs: &'a str) -> Result<ModuleURI, InvalidURICharacter> {
        arbitrary()
    }
}

impl<'a> BitOr<&'a str> for PathURI {
    type Output = Result<ModuleURI, InvalidURICharacter>;

    /// See `PathURI::module_named`.
    fn bitor(self, rhs: &'a str) -> (r: Self::Output)
        ensures
            has_invalid_char(rhs@) <==> r is Err,
            r matches Ok(m) ==> m.path == self && parses_to(rhs@, m.name),
    {
        self.module_named(rhs)
    }
}

impl vstd::std_specs::ops::BitAndSpecImpl<(Name, Language)> for ArchiveURI {
    open spec fn obeys_bitand_spec() -> bool {
        true
    }

    open spec fn bitand_req(self, rhs: (Name, Language)) -> bool {
        true
    }

    open spec fn bitand_spec(self, rhs: (Name, Language)) -> DocumentURI {
        DocumentURI { path: top_path(self), name: rhs.0, language: rhs.1 }
    }
}

impl BitAnd<(Name, Language)> for ArchiveURI {
    type Output = DocumentURI;

    /// The document `rhs.0` at the top of this archive, in the language `rhs.1`.
    fn bitand(self, rhs: (Name, Language)) -> Self::Output {
        DocumentURI { path: PathURI::from(self), name: rhs.0, language: rhs.1 }
    }
}

impl<'a> vstd::std_specs::ops::BitAndSpecImpl<(&'a str, Language)> for ArchiveURI {
    open spec fn obeys_bitand_spec() -> bool {
        false
    }

    open spec fn bitand_req(self, rhs: (&'a str, Language)) -> bool {
        true
    }

    open spec fn bitand_spec(self, rhs: (&'a str, Language)) -> Result<DocumentURI, InvalidURICharacter> {
        arbitrary()
    }
}

impl<'a> BitAnd<(&'a str, Language)> for ArchiveURI {
    type Output = Result<DocumentURI, InvalidURICharacter>;

    /// See `ArchiveURI::document_in_named`.
    fn bitand(self, rhs: (&'a str, Language)) -> (r: Self::Output)
        ensures
            has_invalid_char(rhs.0@) <==> r is Err,
            r matches Ok(d) ==> d.path == top_path(self) && parses_to(rhs.0@, d.name) && d.language
                == rhs.1,
    {
        self.document_in_named(rhs)
    }
}

impl vstd::std_specs::ops::BitAndSpecImpl<(Name, Language)> for PathURI {
    open spec fn obeys_bitand_spec() -> bool {
        true
    }

    open spec fn bitand_req(self, rhs: (Name, Language)) -> bool {
        true
    }

    open spec fn bitand_spec(self, rhs: (Name, Language)) -> DocumentURI {
        DocumentURI { path: self, name: rhs.0, language: rhs.1 }
    }
}

impl BitAnd<(Name, Language)> for PathURI {
    type Output = DocumentURI;

    /// The document `rhs.0` at this path, in the language `rhs.1`.
    fn bitand(self, rhs: (Name, Language)) -> Self::Output {
        DocumentURI { path: self, name: rhs.0, language: rhs.1 }
    }
}

impl<'a> vstd::std_specs::ops::BitAndSpecImpl<(&'a str, Language)> for PathURI {
    open spec fn obeys_bitand_spec() -> bool {
        false
    }

    open spec fn bitand_req(self, rhs: (&'a str, Language)) -> bool {
        true
    }

    open spec fn bitand_spec(self, rhs: (&'a str, Language)) -> Result<DocumentURI, InvalidURICharacter> {
        arbitrary()
    }
}

impl<'a> BitAnd<(&'a str, Language)> for PathURI {
    type Output = Result<DocumentURI, InvalidURICharacter>;

    /// See `PathURI::document_in_named`.
    fn bitand(self, rhs: (&'a str, Language)) -> (r: Self::Output)
        ensures
            has_invalid_char(rhs.0@) <==> r is Err,
            r matches Ok(d) ==> d.path == self && parses_to(rhs.0@, d.name) && d.language == rhs.1,
    {
        self.document_in_named(rhs)
    }
}

impl vstd::std_specs::ops::BitAndSpecImpl<Name> for NarrativeURI {
    open spec fn obeys_bitand_spec() -> bool {
        false
    }

    open spec fn bitand_req(self, rhs: Name) -> bool {
        true
    }

    open spec fn bitand_spec(self, rhs: Name) -> DocumentElementURI {
        arbitrary()
    }
}

impl BitAnd<Name> for NarrativeURI {
    type Output = DocumentElementURI;

    /// See `NarrativeURI::element`.
    fn bitand(self, rhs: Name) -> (r: Self::Output)
        ensures
            match self {
                NarrativeURI::Document(d) => r.document == d && r.name@ == rhs@,
                NarrativeURI::Element(e) => r.document == e.document && r.name@ == e.name@ + rhs@,
            },
    {
        self.element(rhs)
    }
}

impl<'a> vstd::std_specs::ops::BitAndSpecImpl<&'a str> for NarrativeURI {
    open spec fn obeys_bitand_spec() -> bool {
        false
    }

    open spec fn bitand_req(self, rhs: &'a str) -> bool {
        true
    }

    open spec fn bitand_spec(self, rhs: &'a str) -> Result<DocumentElementURI, InvalidURICharacter> {
        arbitrary()
    }
}

impl<'a> BitAnd<&'a str> for NarrativeURI {
    type Output = Result<DocumentElementURI, InvalidURICharacter>;

    /// See `NarrativeURI::element_named`.
    fn bitand(self, rhs: &'a str) -> (r: Self::Output)
        ensures
            has_invalid_char(rhs@) <==> r is Err,
            r matches Ok(x) ==> match self {
                NarrativeURI::Document(d) => x.document == d && x.name@ == split_steps(rhs@),
                NarrativeURI::Element(e) => x.document == e.document && x.name@ == e.name@
                    + split_steps(rhs@),
            },
    {
        self.element_named(rhs)
    }
}

impl vstd::std_specs::ops::BitAndSpecImpl<Name> for DocumentURI {
    open spec fn obeys_bitand_spec() -> bool {
        true
    }

    open spec fn bitand_req(self, rhs: Name) -> bool {
        true
    }

    open spec fn bitand_spec(self, rhs: Name) -> DocumentElementURI {
        DocumentElementURI { document: self, name: rhs }
    }
}

impl BitAnd<Name> for DocumentURI {
    type Output = DocumentElementURI;

    /// The element `rhs` in this document.
    fn bitand(self, rhs: Name) -> Self::Output {
        DocumentElementURI { document: self, name: rhs }
    }
}

impl<'a> vstd::std_specs::ops::BitAndSpecImpl<&'a str> for DocumentURI {
    open spec fn obeys_bitand_spec() -> bool {
        false
    }

    open spec fn bitand_req(self, rhs: &'a str) -> bool {
        true
    }

    open spec fn bitand_spec(self, rhs: &'a str) -> Result<DocumentElementURI, InvalidURICharacter> {
        arbitrary()
    }
}

impl<'a> BitAnd<&'a str> for DocumentURI {
    type Output = Result<DocumentElementURI, InvalidURICharacter>;

    /// See `DocumentURI::element_named`.
    fn bitand(self, rhs: &'a str) -> (r: Self::Output)
        ensures
            has_invalid_char(rhs@) <==> r is Err,
            r matches Ok(e) ==> e.document == self && parses_to(rhs@, e.name),
    {
        self.element_named(rhs)
    }
}

impl<'a> vstd::std_specs::ops::DivSpecImpl<&'a str> for ModuleURI {
    open spec fn obeys_div_spec() -> bool {
        false
    }

    open spec fn div_req(self, rhs: &'a str) -> bool {
        true
    }

    open spec fn div_spec(self, rhs: &'a str) -> Result<ModuleURI, InvalidURICharacter> {
        arbitrary()
    }
}

impl<'a> Div<&'a str> for ModuleURI {
    type Output = Result<ModuleURI, InvalidURICharacter>;

    /// See `ModuleURI::join_str`.
    fn div(self, rhs: &'a str) -> (r: Self::Output)
        ensures
            has_invalid_char(rhs@) <==> r is Err,
            r matches Ok(m) ==> m.path == self.path && m.name@ == self.name@ + split_steps(rhs@),
    {
        self.join_str(rhs)
    }
}

impl vstd::std_specs::ops::DivSpecImpl<String> for ModuleURI {
    open spec fn obeys_div_spec() -> bool {
        false
    }

    open spec fn div_req(self, rhs: String) -> bool {
        true
    }

    open spec fn div_spec(self, rhs: String) -> Result<ModuleURI, InvalidURICharacter> {
        arbitrary()
    }
}

impl Div<String> for ModuleURI {
    type Output = Result<ModuleURI, InvalidURICharacter>;

    /// See `ModuleURI::join_string`.
    fn div(self, rhs: String) -> (r: Self::Output)
        ensures
            has_invalid_char(rhs@) <==> r is Err,
            r matches Ok(m) ==> m.path == self.path && m.name@ == self.name@ + split_steps(rhs@),
    {
        self.join_string(rhs)
    }
}

impl vstd::std_specs::ops::DivSpecImpl<NameStep> for ModuleURI {
    open spec fn obeys_div_spec() -> bool {
        false
    }

    open spec fn div_req(self, rhs: NameStep) -> bool {
        true
    }

    open spec fn div_spec(self, rhs: NameStep) -> ModuleURI {
        arbitrary()
    }
}

impl Div<NameStep> for ModuleURI {
    type Output = ModuleURI;

    /// See `ModuleURI::push_step`.
    fn div(self, rhs: NameStep) -> (r: Self::Output)
        ensures
            r.path == self.path,
            r.name@ == self.name@.push(rhs@),
    {
        self.push_step(rhs)
    }
}

impl vstd::std_specs::ops::DivSpecImpl<Name> for ModuleURI {
    open spec fn obeys_div_spec() -> bool {
        false
    }

    open spec fn div_req(self, rhs: Name) -> bool {
        true
    }

    open spec fn div_spec(self, rhs: Name) -> ModuleURI {
        arbitrary()
    }
}

impl Div<Name> for ModuleURI {
    type Output = ModuleURI;

    /// See `ModuleURI::join_name`.
    fn div(self, rhs: Name) -> (r: Self::Output)
        ensures
            r.path == self.path,
            r.name@ == self.name@ + rhs@,
    {
        self.join_name(rhs)
    }
}

impl<'a> vstd::std_specs::ops::DivSpecImpl<&'a str> for DocumentElementURI {
    open spec fn obeys_div_spec() -> bool {
        false
    }

    open spec fn div_req(self, rhs: &'a str) -> bool {
        true
    }

    open spec fn div_spec(self, rhs: &'a str) -> Result<DocumentElementURI, InvalidURICharacter> {
        arbitrary()
    }
}

impl<'a> Div<&'a str> for DocumentElementURI {
    type Output = Result<DocumentElementURI, InvalidURICharacter>;

    /// See `DocumentElementURI::join_str`.
    fn div(self, rhs: &'a str) -> (r: Self::Output)
        ensures
            has_invalid_char(rhs@) <==> r is Err,
            r matches Ok(e) ==> e.document == self.document && e.name@ == self.name@ + split_steps(
                rhs@,
            ),
    {
        self.join_str(rhs)
    }
}

impl vstd::std_specs::ops::DivSpecImpl<String> for DocumentElementURI {
    open spec fn obeys_div_spec() -> bool {
        false
    }

    open spec fn div_req(self, rhs: String) -> bool {
        true
    }

    open spec fn div_spec(self, rhs: String) -> Result<DocumentElementURI, InvalidURICharacter> {
        arbitrary()
    }
}

impl Div<String> for DocumentElementURI {
    type Output = Result<DocumentElementURI, InvalidURICharacter>;

    /// See `DocumentElementURI::join_string`.
    fn div(self, rhs: String) -> (r: Self::Output)
        ensures
            has_invalid_char(rhs@) <==> r is Err,
            r matches Ok(e) ==> e.document == self.document && e.name@ == self.name@ + split_steps(
                rhs@,
            ),
    {
        self.join_string(rhs)
    }
}

impl vstd::std_specs::ops::DivSpecImpl<NameStep> for DocumentElementURI {
    open spec fn obeys_div_spec() -> bool {
        false
    }

    open spec fn div_req(self, rhs: NameStep) -> bool {
        true
    }

    open spec fn div_spec(self, rhs: NameStep) -> DocumentElementURI {
        arbitrary()
    }
}

impl Div<NameStep> for DocumentElementURI {
    type Output = DocumentElementURI;

    /// See `DocumentElementURI::push_step`.
    fn div(self, rhs: NameStep) -> (r: Self::Output)
        ensures
            r.document == self.document,
            r.name@ == self.name@.push(rhs@),
    {
        self.push_step(rhs)
    }
}

impl vstd::std_specs::ops::DivSpecImpl<Name> for DocumentElementURI {
    open spec fn obeys_div_spec() -> bool {
        false
    }

    open spec fn div_req(self, rhs: Name) -> bool {
        true
    }

    open spec fn div_spec(self, rhs: Name) -> DocumentElementURI {
        arbitrary()
    }
}

impl Div<Name> for DocumentElementURI {
    type Output = DocumentElementURI;

    /// See `DocumentElementURI::join_name`.
    fn div(self, rhs: Name) -> (r: Self::Output)
        ensures
            r.document == self.document,
            r.name@ == self.name@ + rhs@,
    {
        self.join_name(rhs)
    }
}

impl vstd::std_specs::ops::NotSpecImpl for ModuleURI {
    open spec fn obeys_not_spec() -> bool {
        false
    }

    open spec fn not_req(self) -> bool {
        self.name@.len() > 0
    }

    open spec fn not_spec(self) -> ModuleURI {
        arbitrary()
    }
}

impl Not for ModuleURI {
    type Output = ModuleURI;

    /// See `ModuleURI::top`.
    fn not(self) -> (r: Self::Output)
        ensures
            r.path == self.path,
            r.name@ == seq![self.name@[0]],
    {
        self.top()
    }
}

} // verus!

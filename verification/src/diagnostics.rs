use crate::render::put;
use crate::results::SymbolCheckResult;
use vstd::prelude::*;

verus! {

/// The part of a symbol that a diagnostic is about: its type or its
/// definiens.
#[derive(PartialEq, Eq, Structural, Clone, Copy)]
pub enum CheckedPart {
    Type,
    Definiens,
}

/// What the editor is told about a failed check of a symbol: which part
/// failed (and so whose source range the diagnostic marks), and the
/// message shown.
pub struct SymbolDiagnostic {
    pub part: CheckedPart,
    pub message: String,
}

/// Which part of a symbol a failed check is reported for, and whether the
/// message names that part's source range; nothing for a check that
/// succeeded. A type check reports the type; a definiens check without a
/// type reports the definiens, with its range; a definiens that could not
/// be checked against the type reports the type, with its range; one that
/// did not match reports the definiens.
pub open spec fn symbol_failure(result: SymbolCheckResult) -> Option<(CheckedPart, bool)> {
    match result {
        SymbolCheckResult::TypeOnly { result } => if result.success {
            None
        } else {
            Some((CheckedPart::Type, false))
        },
        SymbolCheckResult::DefiniensOnly { inferred, .. } => if inferred is Some {
            None
        } else {
            Some((CheckedPart::Definiens, true))
        },
        SymbolCheckResult::Both { matches, .. } => match matches {
            None => Some((CheckedPart::Type, true)),
            Some(m) => if m.success {
                None
            } else {
                Some((CheckedPart::Definiens, false))
            },
        },
    }
}

/// The message that a failed check of `part` of the symbol `name` shows:
/// `checking type of NAME failed` or `checking definiens of NAME failed`,
/// followed by ` (RANGE)` when the range is to be named.
pub open spec fn failure_message(part: CheckedPart, name: Seq<char>, range: Option<Seq<char>>) -> Seq<char> {
    let what = match part {
        CheckedPart::Type => "checking type of "@,
        CheckedPart::Definiens => "checking definiens of "@,
    };
    let head = what + name + " failed"@;
    match range {
        Some(r) => head + " ("@ + r + ")"@,
        None => head,
    }
}

/// The diagnostic for the check of the symbol `name`, if it failed (see
/// `symbol_failure`); `type_range` and `definiens_range` are the texts of
/// the source ranges of the symbol's type and definiens.
pub fn symbol_check_diagnostic(
    result: &SymbolCheckResult,
    name: &str,
    type_range: &str,
    definiens_range: &str,
) -> (r: Option<SymbolDiagnostic>)
    ensures
        match symbol_failure(*result) {
            None => r is None,
            Some((part, with_range)) => r matches Some(d) && d.part == part && d.message@
                == failure_message(
                part,
                name@,
                if with_range {
                    Some(
                        match part {
                            CheckedPart::Type => type_range@,
                            CheckedPart::Definiens => definiens_range@,
                        },
                    )
                } else {
                    None
                },
            ),
        },
{
    let (part, with_range) = match result {
        SymbolCheckResult::TypeOnly { result } => {
            if result.success {
                return None;
            }
            (CheckedPart::Type, false)
        },
        SymbolCheckResult::DefiniensOnly { inferred, .. } => {
            if inferred.is_some() {
                return None;
            }
            (CheckedPart::Definiens, true)
        },
        SymbolCheckResult::Both { matches, .. } => match matches {
            None => (CheckedPart::Type, true),
            Some(m) => {
                if m.success {
                    return None;
                }
                (CheckedPart::Definiens, false)
            },
        },
    };
    proof {
        reveal_strlit("checking type of ");
        reveal_strlit("checking definiens of ");
        reveal_strlit(" failed");
        reveal_strlit(" (");
        reveal_strlit(")");
    }
    let mut message = String::new();
    match part {
        CheckedPart::Type => put(&mut message, "checking type of "),
        CheckedPart::Definiens => put(&mut message, "checking definiens of "),
    }
    put(&mut message, name);
    put(&mut message, " failed");
    if with_range {
        put(&mut message, " (");
        match part {
            CheckedPart::Type => put(&mut message, type_range),
            CheckedPart::Definiens => put(&mut message, definiens_range),
        }
        put(&mut message, ")");
    }
    Some(SymbolDiagnostic { part, message })
}

} // verus!

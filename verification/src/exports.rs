//! What the exports of a specification module are: properties, action
//! generators, or markers of the module system that are passed over. Any
//! other export is an error, and so is a specification without an action
//! generator.
use vstd::prelude::*;

verus! {

/// One export of a specification module, as far as its kind goes.
pub struct Export {
    /// The value is a formula.
    pub is_formula: bool,
    /// The value is an action generator.
    pub is_action_generator: bool,
    /// The description of the export's key, when the key is a symbol that
    /// has one.
    pub symbol_description: Option<String>,
    /// The export's key as text.
    pub name: String,
}

/// What an export is taken for.
#[derive(Clone, Copy, Debug, PartialEq, Eq, Structural)]
pub enum ExportKind {
    Property,
    ActionGenerator,
    Ignored,
}

/// Why the exports of a specification are refused.
#[derive(Clone, Copy, Debug, PartialEq, Eq, Structural)]
pub enum ExportError {
    /// The export at this position is of no known kind.
    UnknownType(usize),
    /// No export is an action generator.
    NoActionGenerators,
}

/// The kind of an export: a formula is a property; otherwise an action
/// generator is one; otherwise the module's `Symbol.toStringTag` and
/// `__esModule` markers are passed over; anything else has no kind.
pub open spec fn export_kind(export: Export) -> Option<ExportKind> {
    if export.is_formula {
        Some(ExportKind::Property)
    } else if export.is_action_generator {
        Some(ExportKind::ActionGenerator)
    } else if export.symbol_description matches Some(d) && d@ == "Symbol.toStringTag"@ {
        Some(ExportKind::Ignored)
    } else if export.name@ == "__esModule"@ {
        Some(ExportKind::Ignored)
    } else {
        None
    }
}

fn kind_of(export: &Export) -> (r: Option<ExportKind>)
    ensures
        r == export_kind(*export),
{
    if export.is_formula {
        Some(ExportKind::Property)
    } else if export.is_action_generator {
        Some(ExportKind::ActionGenerator)
    } else if match &export.symbol_description {
        Some(d) => *d == String::from_str("Symbol.toStringTag"),
        None => false,
    } {
        Some(ExportKind::Ignored)
    } else if export.name == String::from_str("__esModule") {
        Some(ExportKind::Ignored)
    } else {
        None
    }
}

/// The kinds of the exports of a specification, in order; the first export
/// of no known kind is refused, and so are exports without an action
/// generator.
pub fn classify_exports(exports: &Vec<Export>) -> (r: Result<Vec<ExportKind>, ExportError>)
    ensures
        match r {
            Ok(kinds) => {
                &&& kinds@.len() == exports@.len()
                &&& forall|i: int| 0 <= i < exports@.len() ==> Some(#[trigger] kinds@[i]) == export_kind(exports@[i])
                &&& exists|i: int| 0 <= i < kinds@.len() && #[trigger] kinds@[i] == ExportKind::ActionGenerator
            },
            Err(ExportError::UnknownType(i)) => {
                &&& i < exports@.len()
                &&& export_kind(exports@[i as int]) is None
                &&& forall|j: int| 0 <= j < i ==> export_kind(#[trigger] exports@[j]) is Some
            },
            Err(ExportError::NoActionGenerators) => {
                &&& forall|i: int| 0 <= i < exports@.len() ==> export_kind(#[trigger] exports@[i]) is Some
                &&& forall|i: int| 0 <= i < exports@.len() ==> export_kind(#[trigger] exports@[i]) != Some(
                    ExportKind::ActionGenerator,
                )
            },
        },
{
    let mut kinds: Vec<ExportKind> = Vec::new();
    let mut generators: bool = false;
    let mut i: usize = 0;
    while i < exports.len()
        invariant
            i <= exports@.len(),
            kinds@.len() == i,
            forall|j: int| 0 <= j < i ==> Some(#[trigger] kinds@[j]) == export_kind(exports@[j]),
            generators <==> exists|j: int| 0 <= j < i && #[trigger] kinds@[j] == ExportKind::ActionGenerator,
        decreases exports@.len() - i,
    {
        match kind_of(&exports[i]) {
            None => {
                assert forall|j: int| 0 <= j < i implies export_kind(#[trigger] exports@[j]) is Some by {
                    assert(Some(kinds@[j]) == export_kind(exports@[j]));
                }
                return Err(ExportError::UnknownType(i));
            },
            Some(kind) => {
                let ghost before = kinds@;
                kinds.push(kind);
                proof {
                    assert forall|j: int| 0 <= j < i implies #[trigger] kinds@[j] == before[j] by {}
                    if kind == ExportKind::ActionGenerator {
                        assert(kinds@[i as int] == ExportKind::ActionGenerator);
                    } else {
                        if exists|j: int| 0 <= j < i + 1 && #[trigger] kinds@[j] == ExportKind::ActionGenerator {
                            let j = choose|j: int| 0 <= j < i + 1 && #[trigger] kinds@[j] == ExportKind::ActionGenerator;
                            assert(before[j] == ExportKind::ActionGenerator);
                        }
                        if generators {
                            let j = choose|j: int| 0 <= j < i && #[trigger] before[j] == ExportKind::ActionGenerator;
                            assert(kinds@[j] == ExportKind::ActionGenerator);
                        }
                    }
                }
                if kind == ExportKind::ActionGenerator {
                    generators = true;
                }
            },
        }
        i = i + 1;
    }
    if !generators {
        assert forall|k: int| 0 <= k < exports@.len() implies export_kind(#[trigger] exports@[k]) != Some(
            ExportKind::ActionGenerator,
        ) by {
            assert(Some(kinds@[k]) == export_kind(exports@[k]));
        }
        assert forall|k: int| 0 <= k < exports@.len() implies export_kind(#[trigger] exports@[k]) is Some by {
            assert(Some(kinds@[k]) == export_kind(exports@[k]));
        }
        return Err(ExportError::NoActionGenerators);
    }
    Ok(kinds)
}

/// A formula is a property and an action generator is one, whatever its
/// key; the `Symbol.toStringTag` symbol and the `__esModule` key are passed
/// over; any other export has no kind. A specification is taken only with
/// an action generator among its exports.
pub proof fn law_export_kinds(export: Export)
    ensures
        export.is_formula ==> export_kind(export) == Some(ExportKind::Property),
        !export.is_formula && export.is_action_generator ==> export_kind(export) == Some(ExportKind::ActionGenerator),
        export_kind(export) == Some(ExportKind::Ignored) <==> !export.is_formula && !export.is_action_generator && (
        (export.symbol_description is Some && export.symbol_description->0@ == "Symbol.toStringTag"@)
            || export.name@ == "__esModule"@),
        export_kind(export) is None <==> !export.is_formula && !export.is_action_generator && !(
        export.symbol_description is Some && export.symbol_description->0@ == "Symbol.toStringTag"@)
            && export.name@ != "__esModule"@,
{
}

} // verus!

use bombadil::exports::{classify_exports, Export, ExportError, ExportKind};

fn export(is_formula: bool, is_action_generator: bool, symbol_description: Option<&str>, name: &str) -> Export {
    Export {
        is_formula,
        is_action_generator,
        symbol_description: symbol_description.map(|d| d.to_string()),
        name: name.to_string(),
    }
}

#[test]
fn exports_are_properties_generators_or_markers() {
    let exports = vec![
        export(true, false, None, "noErrors"),
        export(false, true, None, "clicks"),
        export(false, false, Some("Symbol.toStringTag"), "Symbol(Symbol.toStringTag)"),
        export(false, false, None, "__esModule"),
    ];
    assert_eq!(
        classify_exports(&exports),
        Ok(vec![ExportKind::Property, ExportKind::ActionGenerator, ExportKind::Ignored, ExportKind::Ignored])
    );
}

#[test]
fn the_first_export_of_unknown_type_is_refused() {
    let exports = vec![
        export(false, true, None, "clicks"),
        export(false, false, None, "helper"),
        export(false, false, Some("other"), "Symbol(other)"),
    ];
    assert_eq!(classify_exports(&exports), Err(ExportError::UnknownType(1)));
}

#[test]
fn a_specification_needs_an_action_generator() {
    let exports = vec![export(true, false, None, "noErrors"), export(false, false, None, "__esModule")];
    assert_eq!(classify_exports(&exports), Err(ExportError::NoActionGenerators));
    assert_eq!(classify_exports(&vec![]), Err(ExportError::NoActionGenerators));
}

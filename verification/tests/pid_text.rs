use open_cad_studio::text::char_is_whitespace;
use open_cad_studio::pid::EvidenceConfidence::{Decoded, Inferred, ProbeOnly};
use open_cad_studio::pid::{
    carries_a_label, evidence_counts, is_blank, symbol_name, LayerColour, PidLayer,
};

fn name(path: &str) -> Option<String> {
    symbol_name(path)
}

#[test]
fn symbol_name_takes_the_leaf_of_a_unc_path() {
    assert_eq!(
        name("\\\\WIN-SPID\\Ref\\Symbols\\Piping\\Valves\\Angle\\2-Way Angle Globe Valve.sym"),
        Some("2-Way Angle Globe Valve".to_string())
    );
}

#[test]
fn symbol_name_splits_on_forward_slashes_too() {
    assert_eq!(name("Ref/Symbols/Equipment/Gauge Hatch.sym"), Some("Gauge Hatch".to_string()));
    assert_eq!(name("a\\b/c\\Mixed.sym"), Some("Mixed".to_string()));
}

#[test]
fn symbol_name_ignores_the_case_of_the_extension() {
    assert_eq!(name("Lib\\Flanged Nozzle.SYM"), Some("Flanged Nozzle".to_string()));
    assert_eq!(name("Lib\\Flanged Nozzle.Sym"), Some("Flanged Nozzle".to_string()));
}

#[test]
fn symbol_name_keeps_other_extensions() {
    assert_eq!(name("Lib\\Valve.sym.bak"), Some("Valve.sym.bak".to_string()));
    assert_eq!(name("Lib\\Valve.symx"), Some("Valve.symx".to_string()));
    assert_eq!(name("Lib\\a.sym.sym"), Some("a.sym".to_string()));
    assert_eq!(name("plain"), Some("plain".to_string()));
}

#[test]
fn symbol_name_trims_around_the_stem() {
    assert_eq!(name("Lib\\  Flanged Nozzle .sym  "), Some("Flanged Nozzle".to_string()));
    assert_eq!(name("Lib\\\tTank\u{a0}"), Some("Tank".to_string()));
}

#[test]
fn symbol_name_is_none_without_a_stem() {
    assert_eq!(name(""), None);
    assert_eq!(name("Lib\\"), None);
    assert_eq!(name("Lib/   "), None);
    assert_eq!(name("Lib\\.sym"), None);
    assert_eq!(name("Lib\\  .SYM "), None);
}

#[test]
fn symbol_name_keeps_non_ascii_names() {
    assert_eq!(name("库\\设备位号.sym"), Some("设备位号".to_string()));
}

#[test]
fn placeholder_only_runs_carry_no_label() {
    assert!(!carries_a_label("NULL"));
    assert!(!carries_a_label("NULLNULL"));
    assert!(!carries_a_label(" NULL = NULL "));
    assert!(!carries_a_label(""));
    assert!(!carries_a_label("= - ()"));
}

#[test]
fn runs_with_a_word_carry_a_label() {
    assert!(carries_a_label("HH=NULL"));
    assert!(carries_a_label("设备位号"));
    assert!(carries_a_label("NUL"));
    assert!(carries_a_label("NNULL"));
    assert!(carries_a_label("NULL 7"));
    assert!(carries_a_label("null"));
}

#[test]
fn layers_have_their_names_and_colours() {
    let names: Vec<&str> = PidLayer::ALL.iter().map(|l| l.name()).collect();
    assert_eq!(
        names,
        vec![
            "PID-GEOMETRY",
            "PID-TEXT",
            "PID-SYMBOL",
            "PID-SYMBOL-LABEL",
            "PID-POINT",
            "PID-ANNOTATION",
            "PID-CONNECTIVITY",
            "PID-UNRESOLVED",
        ]
    );
    assert_eq!(PidLayer::Geometry.colour(), LayerColour::White);
    assert_eq!(PidLayer::Text.colour(), LayerColour::Green);
    assert_eq!(PidLayer::Symbol.colour(), LayerColour::Cyan);
    assert_eq!(PidLayer::SymbolLabel.colour(), LayerColour::Gray);
    assert_eq!(PidLayer::Point.colour(), LayerColour::Magenta);
    assert_eq!(PidLayer::Annotation.colour(), LayerColour::Yellow);
    assert_eq!(PidLayer::Connectivity.colour(), LayerColour::Blue);
    assert_eq!(PidLayer::Unresolved.colour(), LayerColour::Red);
}

#[test]
fn evidence_layers_open_hidden() {
    for visible in [PidLayer::Geometry, PidLayer::Text, PidLayer::Symbol, PidLayer::Point] {
        assert!(visible.visible_by_default(), "{} must open visible", visible.name());
    }
    for hidden in [
        PidLayer::SymbolLabel,
        PidLayer::Annotation,
        PidLayer::Connectivity,
        PidLayer::Unresolved,
    ] {
        assert!(!hidden.visible_by_default(), "{} must open hidden", hidden.name());
    }
}

#[test]
fn evidence_is_counted_by_confidence() {
    assert_eq!(evidence_counts(&vec![]), (0, 0));
    assert_eq!(
        evidence_counts(&vec![Decoded, Inferred, Decoded, ProbeOnly, Inferred, Decoded]),
        (3, 3)
    );
    assert_eq!(evidence_counts(&vec![ProbeOnly, ProbeOnly]), (0, 2));
}

#[test]
fn blank_text_is_nothing_but_white_space() {
    assert!(is_blank(""));
    assert!(is_blank(" \t\r\n\u{a0}\u{3000}"));
    assert!(!is_blank(" A "));
    assert!(!is_blank("NULL"));
}

#[test]
fn white_space_is_the_unicode_property() {
    for c in (0u32..=0x10FFFF).filter_map(char::from_u32) {
        assert_eq!(char_is_whitespace(c), c.is_whitespace(), "{:?}", c);
    }
}

use jeprof::resolver::{OwnedSymbol, ResolvedStackTrace, SymbolizedFrame};

fn trace(names: &[&str]) -> ResolvedStackTrace {
    ResolvedStackTrace {
        symbols: names
            .iter()
            .enumerate()
            .map(|(i, name)| OwnedSymbol { address: 0x1000 + i as u64, symbol: name.to_string() })
            .collect(),
    }
}

#[test]
fn as_inferno_joins_names_and_appends_the_weight() {
    assert_eq!(trace(&["alloc", "parse", "main"]).as_inferno(42), "alloc;parse;main 42");
}

#[test]
fn as_inferno_of_one_frame_has_no_separator() {
    assert_eq!(trace(&["main"]).as_inferno(0), "main 0");
}

#[test]
fn as_inferno_of_no_frame_is_the_weight_after_a_blank() {
    assert_eq!(trace(&[]).as_inferno(7), " 7");
}

#[test]
fn as_inferno_writes_the_largest_weight() {
    assert_eq!(trace(&["a", "b"]).as_inferno(u64::MAX), "a;b 18446744073709551615");
}

#[test]
fn from_symbolized_keeps_symbols_and_marks_unknown_frames() {
    let frames = vec![
        SymbolizedFrame::Sym { addr: 0xbeef, name: "je_malloc".to_string() },
        SymbolizedFrame::Unknown { reason: "unknown address".to_string() },
        SymbolizedFrame::Sym { addr: 1, name: "main".to_string() },
    ];
    let resolved = ResolvedStackTrace::from_symbolized(&frames);
    assert_eq!(resolved.symbols.len(), 3);
    assert_eq!(resolved.symbols[0].address, 0xbeef);
    assert_eq!(resolved.symbols[0].symbol, "je_malloc");
    assert_eq!(resolved.symbols[1].address, 0);
    assert_eq!(resolved.symbols[1].symbol, "unknown address");
    assert_eq!(resolved.symbols[2].address, 1);
    assert_eq!(resolved.symbols[2].symbol, "main");
    assert!(ResolvedStackTrace::from_symbolized(&Vec::new()).symbols.is_empty());
}

use voxgen::l_system::{Command, LSystem, parse_rule, parse_sentence};

/// Build the expected command sequence by hand, independently of the
/// library's parser.
fn syms(s: &str) -> Vec<Command> {
    s.chars()
        .map(|c| match c {
            'F' => Command::Draw,
            'f' => Command::Step,
            '+' => Command::Left,
            '-' => Command::Right,
            'L' => Command::DrawLeft,
            'R' => Command::DrawRight,
            'A' => Command::SubfigureA,
            'B' => Command::SubfigureB,
            _ => panic!("not a symbol"),
        })
        .collect()
}

#[test]
fn sentence_parses_every_symbol() {
    assert_eq!(parse_sentence("Ff+-LRAB").unwrap(), syms("Ff+-LRAB"));
    assert_eq!(parse_sentence("").unwrap(), Vec::new());
}

#[test]
fn sentence_rejects_unknown_character() {
    assert!(parse_sentence("FxF").is_err());
    assert!(parse_sentence("F F").is_err());
}

#[test]
fn rule_parses_both_sides() {
    let (key, body) = parse_rule("F→F-F").unwrap();
    assert_eq!(key, Command::Draw);
    assert_eq!(body, syms("F-F"));
}

#[test]
fn rule_with_longer_left_side_keys_on_first_symbol() {
    let (key, body) = parse_rule("AB→FF").unwrap();
    assert_eq!(key, Command::SubfigureA);
    assert_eq!(body, syms("FF"));
}

#[test]
fn rule_rejects_malformed_text() {
    assert!(parse_rule("FFF").is_err());
    assert!(parse_rule("→F").is_err());
    assert!(parse_rule("Fx→F").is_err());
    assert!(parse_rule("F→Fx").is_err());
    assert!(parse_rule("F→F→F").is_err());
}

#[test]
fn grammar_construction_surfaces_parse_failure() {
    assert!(LSystem::new("bad", "Fq", vec!["F→FF"]).is_err());
    assert!(LSystem::new("bad", "F", vec!["F*FF"]).is_err());
    assert!(LSystem::new("ok", "F", vec!["F→FF"]).is_ok());
}

#[test]
fn name_is_kept() {
    let ls = LSystem::new("koch-island", "F", vec![]).unwrap();
    assert_eq!(ls.name(), "koch-island");
}

#[test]
fn derive_zero_is_identity() {
    let ls = LSystem::new("koch", "F-F-F-F", vec!["F→F-F+F+FF-F-F+F"]).unwrap();
    let sentence = syms("F-F+FF");
    assert_eq!(ls.derive(&sentence, 0), sentence);
}

#[test]
fn derive_composes_over_generation_counts() {
    let ls = LSystem::new("koch", "F-F-F-F", vec!["F→F-F+F+FF-F-F+F"]).unwrap();
    let sentence = syms("F-F");
    let all_at_once = ls.derive(&sentence, 3);
    let in_two_legs = ls.derive(&ls.derive(&sentence, 1), 2);
    assert_eq!(all_at_once, in_two_legs);
}

#[test]
fn koch_island_first_generation() {
    let ls = LSystem::new("koch", "F-F-F-F", vec!["F→F-F+F+FF-F-F+F"]).unwrap();
    // Each of the four seed `F`s becomes the rule's 14-symbol replacement;
    // the three `-`s are terminal.
    let expected = syms("F-F+F+FF-F-F+F-F-F+F+FF-F-F+F-F-F+F+FF-F-F+F-F-F+F+FF-F-F+F");
    let got = ls.commands(1);
    assert_eq!(got.len(), 4 * 14 + 3);
    assert_eq!(got, expected);
}

#[test]
fn symbols_without_production_are_terminal() {
    let ls = LSystem::new("turns", "F+F", vec!["F→FF"]).unwrap();
    assert_eq!(ls.commands(1), syms("FF+FF"));
    assert_eq!(ls.commands(2), syms("FFFF+FFFF"));
}

#[test]
fn later_rule_for_same_symbol_wins() {
    let ls = LSystem::new("dup", "F", vec!["F→FF", "F→F+F"]).unwrap();
    assert_eq!(ls.commands(1), syms("F+F"));
}

#[test]
fn two_rule_grammar_rewrites_both_symbols() {
    let ls = LSystem::new(
        "sierpinski-gasket",
        "R",
        vec!["L→R+L+R", "R→L-R-L"],
    )
    .unwrap();
    assert_eq!(ls.commands(1), syms("L-R-L"));
    assert_eq!(ls.commands(2), syms("R+L+R-L-R-L-R+L+R"));
}

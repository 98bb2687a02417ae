use copied::symbols::{catalog, emoji_catalog, visible_groups};

#[test]
fn catalog_is_not_empty_and_groups_have_symbols() {
    let catalog = catalog();
    assert!(!catalog.is_empty());
    for group in &catalog {
        assert!(!group.name.is_empty());
        assert!(!group.symbols.is_empty());
    }
}

#[test]
fn emoji_catalog_is_not_empty_and_groups_have_symbols() {
    let catalog = emoji_catalog();
    assert!(!catalog.is_empty());
    for group in &catalog {
        assert!(!group.name.is_empty());
        assert!(!group.symbols.is_empty());
    }
}

#[test]
fn blank_search_shows_every_group_whole() {
    let groups = catalog();
    let shown = visible_groups(&groups, "   ");
    assert_eq!(shown.len(), groups.len());
    for (s, g) in shown.iter().zip(groups.iter()) {
        assert_eq!(s.name, g.name);
        assert_eq!(s.symbols.len(), g.symbols.len());
    }
}

#[test]
fn search_by_group_name_shows_the_whole_group() {
    let groups = catalog();
    let shown = visible_groups(&groups, " SETAS ");
    assert_eq!(shown.len(), 1);
    assert_eq!(shown[0].name, "Setas");
    assert_eq!(shown[0].symbols.len(), 8);
}

#[test]
fn search_by_symbol_keeps_only_matching_symbols() {
    let groups = catalog();
    let shown = visible_groups(&groups, "π");
    let names: Vec<&str> = shown.iter().map(|g| g.name).collect();
    assert_eq!(names, vec!["Matemática", "Letras Gregas"]);
    assert_eq!(shown[0].symbols, vec!["π"]);
    assert_eq!(shown[1].symbols, vec!["π", "Π"]);
    assert!(visible_groups(&groups, "no-such-symbol").is_empty());
}

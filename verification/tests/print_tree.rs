use webrender::print_tree::{PrintTree, PrintTreePrinter};

fn lines(tree: &mut PrintTree) -> Vec<String> {
    tree.take_output()
}

#[test]
fn new_prints_title_line() {
    let mut tree = PrintTree::new("root");
    assert_eq!(tree.level(), 1);
    assert_eq!(lines(&mut tree), vec!["\u{250c} root".to_string()]);
}

#[test]
fn items_and_levels_are_printed_with_their_marks() {
    let mut tree = PrintTree::new("root");
    tree.add_item("a".to_string());
    tree.add_item("b".to_string());
    tree.new_level("sub".to_string());
    tree.add_item("c".to_string());
    tree.end_level();
    tree.finish();
    assert_eq!(
        lines(&mut tree),
        vec![
            "\u{250c} root".to_string(),
            "\u{2502}  \u{251C}\u{2500} a".to_string(),
            "\u{2502}  \u{251C}\u{2500} b".to_string(),
            "\u{2502}  \u{251C}\u{2500} sub".to_string(),
            "\u{2502}  \u{2502}  \u{2514}\u{2500} c".to_string(),
        ]
    );
    assert_eq!(tree.level(), 1);
}

#[test]
fn finish_prints_queued_item_with_branch_ending_mark() {
    let mut tree = PrintTree::new("t");
    tree.add_item("last".to_string());
    let _ = lines(&mut tree);
    tree.finish();
    assert_eq!(lines(&mut tree), vec!["\u{2502}  \u{2514}\u{2500} last".to_string()]);
    // Nothing is left to print.
    tree.finish();
    assert!(lines(&mut tree).is_empty());
}

#[test]
fn end_level_undoes_new_level() {
    let mut tree = PrintTree::new("t");
    tree.new_level("x".to_string());
    assert_eq!(tree.level(), 2);
    tree.end_level();
    assert_eq!(tree.level(), 1);
    assert_eq!(
        lines(&mut tree),
        vec!["\u{250c} t".to_string(), "\u{2502}  \u{251C}\u{2500} x".to_string()]
    );
}

#[test]
fn last_item_of_level_gets_closing_mark() {
    let mut tree = PrintTree::new("t");
    tree.add_item("only".to_string());
    tree.end_level();
    assert_eq!(tree.level(), 0);
    assert_eq!(
        lines(&mut tree),
        vec!["\u{250c} t".to_string(), "\u{2502}  \u{2514}\u{2500} only".to_string()]
    );
}

#[test]
fn every_entry_printed_once() {
    let mut tree = PrintTree::new("t");
    for i in 0..5 {
        tree.add_item(format!("item{}", i));
    }
    tree.new_level("lvl".to_string());
    tree.add_item("deep".to_string());
    tree.end_level();
    tree.finish();
    let out = lines(&mut tree);
    // title + five items + level title + deep item
    assert_eq!(out.len(), 8);
    for i in 0..5 {
        let name = format!("item{}", i);
        assert_eq!(out.iter().filter(|l| l.ends_with(&name)).count(), 1);
    }
}

#[test]
fn output_only_grows_until_taken() {
    let mut tree = PrintTree::new("t");
    tree.add_item("a".to_string());
    tree.add_item("b".to_string());
    let first = lines(&mut tree);
    assert_eq!(first.len(), 2);
    tree.add_item("c".to_string());
    let second = lines(&mut tree);
    assert_eq!(second, vec!["\u{2502}  \u{251C}\u{2500} b".to_string()]);
}

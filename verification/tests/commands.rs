use greek_vocab_test_maker::commands::{EditorCommand, MainCommand, PagerCommand, ReorderCommand};

#[test]
fn main_menu_keys() {
    assert_eq!(MainCommand::from_key('a'), Some(MainCommand::Add));
    assert_eq!(MainCommand::from_key('i'), Some(MainCommand::Import));
    assert_eq!(MainCommand::from_key('r'), Some(MainCommand::Review));
    assert_eq!(MainCommand::from_key('x'), Some(MainCommand::Export));
    assert_eq!(MainCommand::from_key('s'), Some(MainCommand::Restart));
    assert_eq!(MainCommand::from_key('q'), Some(MainCommand::Quit));
    assert_eq!(MainCommand::from_key('n'), None);
    assert_eq!(MainCommand::from_key('Q'), None);
    assert_eq!(MainCommand::from_key(' '), None);
}

#[test]
fn pager_keys() {
    assert_eq!(PagerCommand::from_key('n'), Some(PagerCommand::Next));
    assert_eq!(PagerCommand::from_key('p'), Some(PagerCommand::Previous));
    assert_eq!(PagerCommand::from_key('s'), Some(PagerCommand::Restart));
    assert_eq!(PagerCommand::from_key('e'), Some(PagerCommand::Edit));
    assert_eq!(PagerCommand::from_key('c'), Some(PagerCommand::Copy));
    assert_eq!(PagerCommand::from_key('d'), Some(PagerCommand::Delete));
    assert_eq!(PagerCommand::from_key('q'), Some(PagerCommand::Quit));
    assert_eq!(PagerCommand::from_key('a'), None);
    assert_eq!(PagerCommand::from_key('\n'), None);
}

#[test]
fn editor_keys() {
    assert_eq!(EditorCommand::from_key('e'), Some(EditorCommand::Edit));
    assert_eq!(EditorCommand::from_key('a'), Some(EditorCommand::Add));
    assert_eq!(EditorCommand::from_key('d'), Some(EditorCommand::Delete));
    assert_eq!(EditorCommand::from_key('r'), Some(EditorCommand::Reorder));
    assert_eq!(EditorCommand::from_key('s'), Some(EditorCommand::Substitute));
    assert_eq!(EditorCommand::from_key('b'), Some(EditorCommand::Back));
    assert_eq!(EditorCommand::from_key('q'), None);
}

#[test]
fn reorder_keys() {
    assert_eq!(ReorderCommand::from_key('u'), Some(ReorderCommand::Up));
    assert_eq!(ReorderCommand::from_key('d'), Some(ReorderCommand::Down));
    assert_eq!(ReorderCommand::from_key('a'), Some(ReorderCommand::Accept));
    assert_eq!(ReorderCommand::from_key('b'), None);
}

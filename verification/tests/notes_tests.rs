use quantum_launcher::notes::InstanceNotes;

fn viewing(s: &str) -> InstanceNotes {
    InstanceNotes::Viewing { content: s.to_string() }
}

#[test]
fn edit_and_save_notes() {
    let mut n = viewing("old notes");
    n.open_edit();
    assert_eq!(n.get_text(), "old notes");
    n.edit("new notes".to_string());
    assert_eq!(n.get_text(), "old notes");
    assert_eq!(n.save_edit().as_deref(), Some("new notes"));
    assert_eq!(n.get_text(), "new notes");
    assert!(matches!(n, InstanceNotes::Viewing { .. }));
    assert_eq!(n.save_edit(), None);
}

#[test]
fn cancel_drops_the_edit() {
    let mut n = viewing("keep me");
    n.open_edit();
    n.edit("scratch".to_string());
    n.cancel_edit();
    assert!(matches!(&n, InstanceNotes::Viewing { content } if content == "keep me"));
    n.edit("ignored".to_string());
    assert_eq!(n.get_text(), "keep me");
}

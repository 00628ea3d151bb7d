use basmati::picker::{deletion_line, ArchiveItem, ArchivePicker, Confirmation, Events, KeyPress};

fn archive(id: &str, description: &str) -> ArchiveItem {
    ArchiveItem {
        archive_id: String::from(id),
        archive_description: String::from(description),
        creation_date: String::from("2024-03-28T10:00:00Z"),
        size: 42,
        sha256_tree_hash: String::from("00"),
    }
}

fn three() -> Vec<ArchiveItem> {
    vec![archive("a", "first"), archive("b", "second"), archive("c", "third")]
}

#[test]
fn cursor_starts_on_the_first_item_and_wraps() {
    let mut events = Events::new(vec![10, 20, 30]);
    assert_eq!(events.selected(), Some(0));
    assert_eq!(events.chosen(), Some(10));
    events.next();
    assert_eq!(events.selected(), Some(1));
    events.next();
    assert_eq!(events.chosen(), Some(30));
    events.next();
    assert_eq!(events.selected(), Some(0));
    events.previous();
    assert_eq!(events.selected(), Some(2));
    events.previous();
    assert_eq!(events.selected(), Some(1));
    assert_eq!(events.items(), &vec![10, 20, 30]);
    let copy = events.clone();
    assert_eq!(copy.selected(), Some(1));
    assert_eq!(copy.items(), &vec![10, 20, 30]);
}

#[test]
fn single_item_list_stays_on_its_item() {
    let mut events = Events::new(vec![String::from("only")]);
    events.next();
    assert_eq!(events.selected(), Some(0));
    events.previous();
    assert_eq!(events.selected(), Some(0));
    assert_eq!(events.chosen(), Some(String::from("only")));
}

#[test]
fn space_marks_and_unmarks_the_archive_under_the_cursor() {
    let mut picker = ArchivePicker::new(Events::new(three()));
    assert!(!picker.should_quit());
    picker.handle(KeyPress::Char('j'));
    picker.handle(KeyPress::Char(' '));
    picker.handle(KeyPress::Down);
    picker.handle(KeyPress::Char(' '));
    assert_eq!(picker.events().selected(), Some(2));
    assert_eq!(picker.label(&archive("b", "second")), "second b  *");
    assert_eq!(picker.label(&archive("c", "third")), "third c  *");
    assert_eq!(picker.label(&archive("a", "first")), "first a");
    picker.handle(KeyPress::Up);
    picker.handle(KeyPress::Char(' '));
    assert_eq!(picker.label(&archive("b", "second")), "second b");
    picker.handle(KeyPress::Other);
    picker.handle(KeyPress::Char('x'));
    assert!(!picker.should_quit());
    picker.handle(KeyPress::Enter);
    assert!(picker.should_quit());
    let chosen = picker.finish().unwrap();
    assert_eq!(chosen.len(), 1);
    assert_eq!(chosen[0].archive_id, "c");
    assert_eq!(chosen[0].archive_description, "third");
    assert_eq!(chosen[0].size, 42);
}

#[test]
fn marked_archives_come_in_the_order_of_marking() {
    let mut picker = ArchivePicker::new(Events::new(three()));
    picker.handle(KeyPress::Char('k'));
    picker.handle(KeyPress::Char(' '));
    picker.handle(KeyPress::Char('k'));
    picker.handle(KeyPress::Char('k'));
    picker.handle(KeyPress::Char(' '));
    picker.handle(KeyPress::Char('q'));
    let ids: Vec<String> = picker.finish().unwrap().into_iter().map(|a| a.archive_id).collect();
    assert_eq!(ids, vec!["c", "a"]);
}

#[test]
fn leaving_without_a_mark_selects_nothing() {
    for key in [KeyPress::Char('q'), KeyPress::Esc, KeyPress::Enter] {
        let mut picker = ArchivePicker::new(Events::new(three()));
        picker.handle(KeyPress::Down);
        picker.handle(key);
        assert!(picker.should_quit());
        assert!(picker.finish().is_none());
    }
}

#[test]
fn confirmation_answers_yes_or_no() {
    let mut yes = Confirmation::new();
    assert_eq!(yes.events().items(), &vec![String::from("yes"), String::from("no")]);
    assert!(!yes.should_quit());
    yes.handle(KeyPress::Enter);
    assert!(yes.should_quit());
    assert_eq!(yes.finish(), Some(true));

    let mut no = Confirmation::new();
    no.handle(KeyPress::Char('j'));
    no.handle(KeyPress::Enter);
    assert_eq!(no.finish(), Some(false));

    let mut round = Confirmation::new();
    round.handle(KeyPress::Up);
    assert_eq!(round.events().selected(), Some(1));
    round.handle(KeyPress::Down);
    round.handle(KeyPress::Char('k'));
    round.handle(KeyPress::Char('k'));
    round.handle(KeyPress::Enter);
    assert_eq!(round.finish(), Some(true));
}

#[test]
fn confirmation_left_without_an_answer() {
    for key in [KeyPress::Char('q'), KeyPress::Esc] {
        let mut dialog = Confirmation::new();
        dialog.handle(KeyPress::Char(' '));
        assert!(!dialog.should_quit());
        dialog.handle(key);
        assert!(dialog.should_quit());
        assert_eq!(dialog.finish(), None);
    }
}

#[test]
fn deletion_line_names_description_and_date() {
    assert_eq!(
        deletion_line(&archive("a", "holiday photos")),
        " holiday photos created on 2024-03-28T10:00:00Z"
    );
}

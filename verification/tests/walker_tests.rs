use vaultwalker::client::FromCache;
use vaultwalker::mock::MockStore;
use vaultwalker::render::shorten_string;
use vaultwalker::walker::{Action, EditMode, Mode, Vaultwalker};

fn fresh_walker() -> Vaultwalker<MockStore> {
    let mut vw = Vaultwalker::new(MockStore::new(), "mock/".to_owned()).unwrap();
    vw.update_list(FromCache::No).unwrap();
    vw.update_selected_secret(FromCache::No).unwrap();
    vw
}

#[test]
fn test_shorten_string() {
    assert_eq!(shorten_string("test", 10), "test");
    assert_eq!(shorten_string("test", 3), "tes...");
}

#[test]
fn test_vaultwalker() {
    let mut vw = Vaultwalker::new(MockStore::new(), "mock/".to_owned()).unwrap();

    // test the initial state
    assert!(vw.update_list(FromCache::No).is_ok());
    assert_eq!(vw.selected_item, 0);
    assert_eq!(vw.current_list.len(), 15);
    assert_eq!(vw.current_list[0].name, "key1");
    assert!(vw.current_list[0].is_dir);
    assert_eq!(vw.get_selected_path(), "mock/key1");
    assert!(vw.selected_secret.is_none());
    assert!(vw.update_selected_secret(FromCache::No).is_ok());
    assert!(vw.refresh_all().is_ok());
    assert_eq!(
        vw.selected_line_for_current_mode(&vw.current_list[0], 80)
            .unwrap(),
        "> key1/"
    );

    // test with a key
    assert!(vw.set_selected_item("key2", FromCache::No).is_ok());
    assert_eq!(vw.selected_item, 1);
    assert_eq!(vw.get_selected_path(), "mock/key2");
    assert!(vw.selected_secret.is_some());
    let secret = vw.selected_secret.as_ref().unwrap();
    assert_eq!(secret, "value");
    assert_eq!(
        vw.selected_line_for_current_mode(&vw.current_list[0], 80)
            .unwrap(),
        "> key1/ -> \u{1b}[1mvalue\u{1b}[0m"
    );
    assert_eq!(
        vw.selected_line_for_current_mode(&vw.current_list[0], 15)
            .unwrap(),
        "> key1/ -> \u{1b}[1mv...\u{1b}[0m"
    );

    // test to rename a key into a key that already exists
    assert_eq!(
        vw.rename_key("key3").unwrap_err().message(),
        "the key 'key3' already exists"
    );
}

#[test]
fn entering_a_directory_lists_its_children() {
    let mut vw = fresh_walker();
    assert_eq!(vw.current_list.len(), 15);
    assert!(vw.current_list[0].is_dir);
    assert_eq!(vw.current_list[0].name, "key1");

    let st = vw.handle_navigation(Action::Enter).unwrap();
    assert!(st.redraw);
    assert_eq!(vw.path.entries.len(), 2);
    assert_eq!(vw.path.join(), "mock/key1/");
    assert_eq!(vw.current_list.len(), 1);
    assert_eq!(vw.current_list[0].name, "key");
    assert!(!vw.current_list[0].is_dir);
}

#[test]
fn leaving_a_directory_reselects_it() {
    let mut vw = fresh_walker();
    vw.handle_navigation(Action::Enter).unwrap();
    assert_eq!(vw.path.entries.len(), 2);

    let st = vw.handle_navigation(Action::Leave).unwrap();
    assert!(st.redraw);
    assert_eq!(vw.path.entries.len(), 1);
    assert_eq!(vw.current_list.len(), 15);
    assert_eq!(vw.selected_item, 0);
    assert_eq!(vw.current_list[0].name, "key1");

    // at the root floor, leaving is a no-op
    let st = vw.handle_navigation(Action::Leave).unwrap();
    assert!(!st.redraw);
    assert_eq!(vw.path.entries.len(), 1);
}

#[test]
fn movement_clamps_and_never_wraps() {
    let mut vw = fresh_walker();
    vw.handle_navigation(Action::Up).unwrap();
    assert_eq!(vw.selected_item, 0);

    for _ in 0..20 {
        vw.handle_navigation(Action::Down).unwrap();
    }
    assert_eq!(vw.selected_item, 14);
}

#[test]
fn rename_to_existing_key_is_refused_and_harmless() {
    let mut vw = fresh_walker();
    vw.set_selected_item("key2", FromCache::No).unwrap();

    let err = vw.rename_key("key3").unwrap_err();
    assert_eq!(err.message(), "the key 'key3' already exists");

    // the store still holds both original keys with their original values
    assert_eq!(vw.client.store.leaves.len(), 15);
    assert_eq!(vw.client.store.read_value("mock/key2").unwrap(), "value");
    assert_eq!(vw.client.store.read_value("mock/key3").unwrap(), "value");
}

#[test]
fn rename_moves_value_and_reselects() {
    let mut vw = fresh_walker();
    vw.set_selected_item("key2", FromCache::No).unwrap();
    vw.handle_navigation(Action::RenameKey).unwrap();
    assert_eq!(vw.mode, Mode::TypingKey(EditMode::Update));

    let st = vw
        .handle_typing_key(EditMode::Update, "keyx".to_owned())
        .unwrap();
    assert!(st.redraw);
    assert_eq!(st.message.as_deref(), Some("successfully renamed the key"));
    assert_eq!(vw.mode, Mode::Navigation);
    assert!(vw.client.store.read_value("mock/key2").is_err());
    assert_eq!(vw.client.store.read_value("mock/keyx").unwrap(), "value");
    assert_eq!(vw.current_list[vw.selected_item].name, "keyx");
}

#[test]
fn add_key_flow_inserts_and_selects_the_new_key() {
    let mut vw = fresh_walker();
    let st = vw.handle_navigation(Action::AddKey).unwrap();
    assert!(st.redraw);
    assert_eq!(vw.mode, Mode::TypingKey(EditMode::Insert));
    assert_eq!(vw.selected_item, 15);

    let st = vw
        .handle_typing_key(EditMode::Insert, "newkey".to_owned())
        .unwrap();
    assert!(st.redraw);
    assert_eq!(vw.mode, Mode::TypingSecret(EditMode::Insert));
    assert_eq!(vw.buffered_key, "newkey");

    let st = vw
        .handle_typing_secret(EditMode::Insert, "s3cret".to_owned())
        .unwrap();
    assert_eq!(
        st.message.as_deref(),
        Some("added new key to the vault mock/newkey -> s3cret")
    );
    assert_eq!(vw.mode, Mode::Navigation);
    assert_eq!(vw.buffered_key, "");
    assert_eq!(vw.client.store.read_value("mock/newkey").unwrap(), "s3cret");
    assert_eq!(vw.current_list.len(), 16);
    assert_eq!(vw.current_list[vw.selected_item].name, "newkey");
}

#[test]
fn empty_or_directory_key_names_are_refused() {
    let mut vw = fresh_walker();
    vw.set_selected_item("key2", FromCache::No).unwrap();
    vw.handle_navigation(Action::AddKey).unwrap();
    let err = vw
        .handle_typing_key(EditMode::Insert, "".to_owned())
        .unwrap_err();
    assert_eq!(err.message(), "the key must not be empty");
    assert_eq!(vw.mode, Mode::Navigation);
    assert_eq!(vw.selected_item, 1);

    vw.handle_navigation(Action::AddKey).unwrap();
    let err = vw
        .handle_typing_key(EditMode::Insert, "dir/".to_owned())
        .unwrap_err();
    assert_eq!(
        err.message(),
        "to create a directory, please specify the key name, e.g. directory/keyName"
    );
    assert_eq!(vw.mode, Mode::Navigation);
    assert_eq!(vw.selected_item, 1);
}

#[test]
fn update_value_flow_overwrites_the_selected_key() {
    let mut vw = fresh_walker();
    vw.set_selected_item("key2", FromCache::No).unwrap();
    vw.handle_navigation(Action::UpdateValue).unwrap();
    assert_eq!(vw.mode, Mode::TypingSecret(EditMode::Update));

    let st = vw
        .handle_typing_secret(EditMode::Update, "newval".to_owned())
        .unwrap();
    assert_eq!(
        st.message.as_deref(),
        Some("updated the secret of mock/key2 -> newval")
    );
    assert_eq!(vw.client.store.read_value("mock/key2").unwrap(), "newval");
}

#[test]
fn editing_actions_are_refused_on_directories() {
    let mut vw = fresh_walker();
    assert!(vw.current_list[0].is_dir);

    let err = vw.handle_navigation(Action::UpdateValue).unwrap_err();
    assert_eq!(err.message(), "cannot update a directory, please select a key");
    let err = vw.handle_navigation(Action::RenameKey).unwrap_err();
    assert_eq!(err.message(), "cannot rename a directory, please select a key");
    let err = vw.handle_navigation(Action::DeleteKey).unwrap_err();
    assert_eq!(err.message(), "cannot delete a directory, please select a key");
    assert_eq!(vw.mode, Mode::Navigation);
}

#[test]
fn refusing_the_delete_confirmation_changes_nothing() {
    let mut vw = fresh_walker();
    vw.set_selected_item("key2", FromCache::No).unwrap();
    vw.handle_navigation(Action::DeleteKey).unwrap();
    assert_eq!(vw.mode, Mode::DeletingKey);
    assert_eq!(
        vw.delete_prompt(),
        "Are you sure you want to delete the key 'key2'? (only 'yes' will be accepted): "
    );

    let st = vw.handle_deleting_key("no".to_owned()).unwrap();
    assert!(st.message_is_error);
    assert_eq!(
        st.message.as_deref(),
        Some("received 'no', the key was not deleted")
    );
    assert_eq!(vw.mode, Mode::Navigation);
    assert_eq!(vw.client.store.leaves.len(), 15);
    assert_eq!(vw.client.store.log.len(), 3);
}

#[test]
fn deleting_the_last_leaf_ascends_one_level() {
    let mut vw = fresh_walker();
    vw.handle_navigation(Action::Enter).unwrap();
    assert_eq!(vw.current_list.len(), 1);
    assert_eq!(vw.current_list[0].name, "key");

    vw.handle_navigation(Action::DeleteKey).unwrap();
    let st = vw.handle_deleting_key("yes".to_owned()).unwrap();
    assert!(st.redraw);
    assert_eq!(st.message.as_deref(), Some("deleted the key 'mock/key1/key'"));

    // the path ascended one level and the vacated entry's position was
    // re-selected against the cached listing; the refreshed listing no
    // longer holds the emptied directory
    assert_eq!(vw.path.entries.len(), 1);
    assert_eq!(vw.path.join(), "mock/");
    assert_eq!(vw.current_list.len(), 14);
    assert_eq!(vw.selected_item, 0);
    assert_eq!(vw.current_list[0].name, "key2");
    assert!(vw.client.store.read_value("mock/key1/key").is_err());
}

#[test]
fn deleting_the_last_entry_clamps_the_selection() {
    let mut vw = fresh_walker();
    vw.set_selected_item("key15", FromCache::No).unwrap();
    assert_eq!(vw.selected_item, 14);

    vw.handle_navigation(Action::DeleteKey).unwrap();
    let st = vw.handle_deleting_key("yes".to_owned()).unwrap();
    assert!(st.redraw);

    // no ascent: the directory still has entries; the selection is clamped
    // against the freshly fetched listing, not the stale pre-delete one
    assert_eq!(vw.path.entries.len(), 1);
    assert_eq!(vw.current_list.len(), 14);
    assert_eq!(vw.selected_item, 13);
    assert_eq!(vw.current_list[13].name, "key14");
    assert_eq!(vw.selected_secret.as_deref(), Some("value"));
}

#[test]
fn quit_and_help_actions() {
    let mut vw = fresh_walker();
    let st = vw.handle_navigation(Action::OpenHelp).unwrap();
    assert!(st.message.as_deref().unwrap().starts_with("Navigate with arrows or HJKL"));
    assert!(!vw.quit_requested);

    let st = vw.handle_navigation(Action::Quit).unwrap();
    assert!(st.quit);
    assert!(vw.quit_requested);
}

#[test]
fn repeated_messages_are_not_re_rendered() {
    let mut vw = fresh_walker();
    assert!(vw.note_message("hello"));
    assert!(!vw.note_message("hello"));
    assert!(vw.note_message("other"));
    assert!(vw.note_message("hello"));
}

#[test]
fn render_plan_shows_the_window() {
    let mut vw = fresh_walker();
    let plan = vw.render_plan(80, 10);

    // one row is reserved for the status line
    assert_eq!(plan.lines.len(), 9);
    assert!(plan.cursor.is_none());

    // the first visible row carries the joined path in bold, and the
    // selected row its entry
    assert_eq!(plan.lines[0], "\u{1b}[1mmock/\u{1b}[0m > key1/");
    // other rows are indented under the path prefix
    assert_eq!(plan.lines[1], "        key2");

    // moving the selection far down scrolls the window
    for _ in 0..14 {
        vw.handle_navigation(Action::Down).unwrap();
    }
    let _plan = vw.render_plan(80, 10);
    assert_eq!(vw.selected_item, 14);
    assert!(vw.scroll <= 14 && 14 < vw.scroll + 9);
}

#[test]
fn render_plan_places_cursor_while_typing() {
    let mut vw = fresh_walker();
    vw.handle_navigation(Action::AddKey).unwrap();
    let plan = vw.render_plan(80, 10);
    let (col, row) = plan.cursor.unwrap();
    assert_eq!(row, vw.selected_item - vw.scroll);
    // the virtual row reads "> " after the indent of six columns
    assert_eq!(col, 8);
}

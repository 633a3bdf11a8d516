//! Tests of the data model: records, the store, identifiers, decimal
//! text, configuration and commands.

use freemind::command::AppCommand;
use freemind::errors::SyncError;
use freemind::config::AppConfig;
use freemind::config::AuthMethod;
use freemind::parse_u16;
use freemind::parse_u32;
use freemind::record::AppElement;
use freemind::state::AppState;
use freemind::state::collect_ids;
use freemind::u16_to_string;
use freemind::u32_to_string;

fn test_config() -> AppConfig {
    AppConfig::new(
        String::from("http://server.example"),
        String::from("user"),
        String::from("SECRET-REDACTED"),
        AuthMethod::Password,
    )
}

fn element(id: Option<u16>, title: &str, desc: &str, due: Option<u32>) -> AppElement {
    AppElement::new(id, String::from(title), String::from(desc), due, None)
}

#[test]
fn decimal_rendering_exact() {
    assert_eq!(u16_to_string(0), "0");
    assert_eq!(u16_to_string(42), "42");
    assert_eq!(u16_to_string(65535), "65535");
    assert_eq!(u32_to_string(4294967295), "4294967295");
}

#[test]
fn decimal_parsing_mirrors_str_parse() {
    assert_eq!(parse_u16("7"), "7".parse::<u16>().ok());
    assert_eq!(parse_u16("+7"), "+7".parse::<u16>().ok());
    assert_eq!(parse_u16("007"), "007".parse::<u16>().ok());
    assert_eq!(parse_u16("65535"), "65535".parse::<u16>().ok());
    assert_eq!(parse_u16("65536"), "65536".parse::<u16>().ok());
    assert_eq!(parse_u16(""), "".parse::<u16>().ok());
    assert_eq!(parse_u16("+"), "+".parse::<u16>().ok());
    assert_eq!(parse_u16("-1"), "-1".parse::<u16>().ok());
    assert_eq!(parse_u16("1 2"), "1 2".parse::<u16>().ok());
    assert_eq!(parse_u32("4294967295"), "4294967295".parse::<u32>().ok());
    assert_eq!(parse_u32("4294967296"), "4294967296".parse::<u32>().ok());
}

#[test]
fn identity_rule_identified_records() {
    let a = element(Some(5), "x", "y", None);
    let b = element(Some(5), "other", "fields", Some(9));
    let c = element(Some(6), "x", "y", None);
    assert!(a.same_entry(&b));
    assert!(!a.same_entry(&c));
}

#[test]
fn identity_rule_unidentified_never_equal() {
    let a = element(None, "x", "y", None);
    let b = element(None, "x", "y", None);
    assert!(!a.same_entry(&b));
    assert!(!a.same_entry(&a));
}

#[test]
fn get_text_joins_title_and_description() {
    let a = element(Some(1), "hello", "world", None);
    assert_eq!(a.get_text(), "hello world");
    assert_eq!(a.get_timestamp(), None);
}

#[test]
fn generate_id_is_fresh_and_recorded() {
    let mut el = element(None, "x", "y", None);
    let mut existing: Vec<u16> = vec![1, 2, 3];
    let got = el.generate_id(&mut existing).unwrap();
    assert_ne!(got, 0);
    assert!(!existing[..3].contains(&got));
    assert_eq!(existing.len(), 4);
    assert_eq!(existing[3], got);
    assert_eq!(el.id, Some(got));
}

#[test]
fn add_missing_ids_allocates_batch_disjoint() {
    let mut state = AppState::new(test_config());
    state.push(Some(element(None, "a", "1", None)));
    state.push(Some(element(Some(9), "b", "2", None)));
    state.push(Some(element(None, "c", "3", None)));
    let mut existing: Vec<u16> = vec![9];
    let (added, new_ids) = state.add_missing_ids(&mut existing);
    assert!(added);
    assert_eq!(new_ids.len(), 2);
    assert_ne!(new_ids[0], new_ids[1]);
    assert!(new_ids.iter().all(|v| *v != 0 && *v != 9));
    assert_eq!(existing, vec![9, new_ids[0], new_ids[1]]);
    let elements = state.get_elements();
    assert_eq!(elements[0].id, Some(new_ids[0]));
    assert_eq!(elements[1].id, Some(9));
    assert_eq!(elements[2].id, Some(new_ids[1]));
}

#[test]
fn get_ids_filters_removed() {
    let mut state = AppState::new(test_config());
    state.push(Some(element(Some(1), "a", "x", None)));
    state.push(Some(element(Some(2), "b", "x", None)));
    state.push(Some(element(None, "c", "x", None)));
    assert!(state.remove(2));
    assert_eq!(state.get_ids(true), vec![1]);
    // with the flag cleared the store keeps nothing, as it always has
    assert_eq!(state.get_ids(false), Vec::<u16>::new());
}

#[test]
fn collect_ids_of_decoded_records() {
    let es = vec![
        element(Some(4), "a", "x", None),
        element(None, "b", "x", None),
        element(Some(6), "c", "x", None),
    ];
    assert_eq!(collect_ids(&es, true), vec![4, 6]);
}

#[test]
fn remove_marks_first_match_only() {
    let mut state = AppState::new(test_config());
    state.push(Some(element(Some(3), "a", "x", None)));
    assert!(state.remove(3));
    assert!(state.get_elements()[0].removed);
    assert!(!state.remove(99));
}

#[test]
fn modify_element_replaces_fields() {
    let mut state = AppState::new(test_config());
    state.push(Some(element(Some(3), "a", "x", None)));
    assert!(state.modify_element(
        3,
        String::from("b"),
        String::from("y"),
        Some(8),
        Some(vec![String::from("t1")]),
    ));
    let el = state.find_by_id(3).unwrap();
    assert_eq!(el.title, "b");
    assert_eq!(el.description, "y");
    assert_eq!(el.due, Some(8));
    assert_eq!(el.tags, Some(vec![String::from("t1")]));
    assert!(!state.modify_element(4, String::new(), String::new(), None, None));
}

#[test]
fn synced_flag_lifecycle() {
    let mut state = AppState::new(test_config());
    assert!(!state.is_synced());
    assert_eq!(state.modified_string(), "*");
    let plan = state.prepare_sync("<registry></registry>").unwrap();
    assert!(!plan.needs_upload);
    state.finish_sync(plan.remote);
    assert!(state.is_synced());
    assert_eq!(state.modified_string(), " ");
    state.unsynced();
    assert!(!state.is_synced());
}

#[test]
fn config_default_and_empty() {
    let d = AppConfig::default();
    assert!(d.is_default());
    assert!(!d.is_empty());
    let e = AppConfig::empty();
    assert!(e.is_empty());
    assert!(!e.is_default());
    let c = test_config();
    assert!(!c.is_default());
    assert!(!c.is_empty());
}

#[test]
fn config_display_masks_secret() {
    let c = AppConfig::new(
        String::from("srv"),
        String::from("me"),
        String::from("abcd"),
        AuthMethod::Token,
    );
    assert_eq!(
        c.to_display_string(),
        "Server: srv\nUsername: me\nSecret: ****\nAuth Method: Token"
    );
}

#[test]
fn auth_method_names_and_indices() {
    assert_eq!(AuthMethod::from_index(0), AuthMethod::Token);
    assert_eq!(AuthMethod::from_index(1), AuthMethod::Password);
    assert_eq!(AuthMethod::from_index(9), AuthMethod::Token);
    assert_eq!(AuthMethod::Token.to_string(), "Token");
    assert_eq!(AuthMethod::Password.to_string(), "Password");
}

#[test]
fn command_list_order_and_fallback() {
    let cs = AppCommand::get_command_list();
    assert_eq!(cs.len(), 9);
    assert_eq!(cs[0], AppCommand::List);
    assert_eq!(cs[8], AppCommand::Quit);
    for (i, c) in cs.iter().enumerate() {
        assert_eq!(AppCommand::from_index(i), *c);
    }
    assert_eq!(AppCommand::from_index(100), AppCommand::List);
    assert_eq!(AppCommand::Sync.to_string(), "sync");
    assert_eq!(AppCommand::Boiling.to_string(), "boiling");
}

#[test]
fn sync_error_names() {
    assert_eq!(SyncError::Transport.to_string(), "transport failure");
    assert_eq!(SyncError::Decode.to_string(), "registry decode failure");
}

#[test]
fn due_within_window() {
    let dated = element(Some(1), "a", "x", Some(50));
    assert!(dated.due_within(10, 100));
    assert!(!dated.due_within(50, 100));
    assert!(!dated.due_within(10, 50));
    let undated = element(Some(2), "b", "y", None);
    assert!(!undated.due_within(0, u32::MAX));
}

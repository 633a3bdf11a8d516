//! End-to-end tests of the patch engine and the sync pipeline, run with
//! the real outside XML parser linked.

use freemind::config::AppConfig;
use freemind::config::AuthMethod;
use freemind::decode::decode_registry;
use freemind::errors::SyncError;
use freemind::flatten::flatten_entry;
use freemind::record::AppElement;
use freemind::state::AppState;

fn test_config() -> AppConfig {
    AppConfig::new(
        String::from("http://server.example"),
        String::from("user"),
        String::from("SECRET-REDACTED"),
        AuthMethod::Token,
    )
}

fn element(id: Option<u16>, title: &str, desc: &str, due: Option<u32>) -> AppElement {
    AppElement::new(id, String::from(title), String::from(desc), due, None)
}

#[test]
fn serializer_exact_text() {
    let el = element(Some(42), "T", "D", Some(5));
    assert_eq!(
        el.to_xml_string(),
        "<entry id=\"42\"><name>T</name><description>D</description><due>5</due></entry>"
    );
}

#[test]
fn serializer_without_due_omits_child() {
    let el = element(Some(1), "a", "b", None);
    assert_eq!(
        el.to_xml_string(),
        "<entry id=\"1\"><name>a</name><description>b</description></entry>"
    );
}

#[test]
fn serializer_without_id_is_silent() {
    let el = element(None, "a", "b", Some(3));
    assert_eq!(el.to_xml_string(), "");
}

#[test]
fn serializer_escapes_text() {
    let el = element(Some(2), "a<b", "c&d\"e", None);
    assert_eq!(
        el.to_xml_string(),
        "<entry id=\"2\"><name>a&lt;b</name><description>c&amp;d&quot;e</description></entry>"
    );
}

#[test]
fn deletion_pass_drops_tombstoned_subtree() {
    let mut state = AppState::new(test_config());
    state.push(Some(element(Some(7), "B", "d", None)));
    assert!(state.remove(7));
    let doc = "<registry><entry id=\"7\"><name>B</name><description>d</description></entry><entry id=\"9\"><name>C</name><description>e</description></entry></registry>";
    let (changed, out) = state.delete_removed(doc);
    assert!(changed);
    assert_eq!(
        out,
        "<registry><entry id=\"9\"><name>C</name><description>e</description></entry></registry>"
    );
    assert_eq!(state.get_elements().len(), 0);
}

#[test]
fn deletion_pass_keeps_live_records() {
    let mut state = AppState::new(test_config());
    state.push(Some(element(Some(7), "B", "d", None)));
    let doc = "<registry><entry id=\"7\"><name>B</name><description>d</description></entry></registry>";
    let (changed, out) = state.delete_removed(doc);
    assert!(!changed);
    assert_eq!(out, doc);
    assert_eq!(state.get_elements().len(), 1);
}

#[test]
fn deletion_pass_passes_foreign_entries_through() {
    let mut state = AppState::new(test_config());
    state.push(Some(element(Some(7), "B", "d", None)));
    assert!(state.remove(7));
    // no id, unparsable id, unknown id: all foreign, all pass through
    let doc = "<registry><entry><name>x</name></entry><entry id=\"zz\"><name>y</name></entry><entry id=\"8\"><name>z</name></entry></registry>";
    let (changed, out) = state.delete_removed(doc);
    assert!(!changed);
    assert_eq!(out, doc);
    assert_eq!(state.get_elements().len(), 1);
}

#[test]
fn deletion_pass_round_trip_serialized_record() {
    // serialize a record, mark the identifier removed, delete it again
    let el = element(Some(42), "T", "D", None);
    let doc = format!("<registry>{}</registry>", el.to_xml_string());
    let mut state = AppState::new(test_config());
    state.push(Some(element(Some(42), "T", "D", None)));
    assert!(state.remove(42));
    let (changed, out) = state.delete_removed(doc.as_str());
    assert!(changed);
    assert_eq!(out, "<registry></registry>");
    assert!(!out.contains("42"));
}

#[test]
fn insertion_pass_splices_after_root() {
    let mut state = AppState::new(test_config());
    state.push(Some(element(Some(3), "new", "rec", None)));
    state.push(Some(element(Some(4), "other", "rec", None)));
    let ids = vec![3u16];
    let doc = "<registry><entry id=\"9\"><name>C</name><description>e</description></entry></registry>";
    let out = state.insert_created_entries(doc, &ids);
    assert_eq!(
        out,
        "<registry><entry id=\"3\"><name>new</name><description>rec</description></entry><entry id=\"9\"><name>C</name><description>e</description></entry></registry>"
    );
}

#[test]
fn insertion_pass_without_root_changes_nothing() {
    let state = AppState::new(test_config());
    let ids: Vec<u16> = Vec::new();
    let out = state.insert_created_entries("<other></other>", &ids);
    assert_eq!(out, "<other></other>");
}

#[test]
fn decode_reads_entries() {
    let doc = "<registry><entry id=\"9\"><name>C</name><description>e</description><due>12</due></entry><entry><name>n</name><description>m</description></entry></registry>";
    let es = decode_registry(doc).unwrap();
    assert_eq!(es.len(), 2);
    assert_eq!(es[0].id, Some(9));
    assert_eq!(es[0].title, "C");
    assert_eq!(es[0].description, "e");
    assert_eq!(es[0].due, Some(12));
    assert!(!es[0].removed);
    assert_eq!(es[1].id, None);
    assert_eq!(es[1].due, None);
}

#[test]
fn decode_unescapes_text() {
    let doc = "<registry><entry id=\"1\"><name>a&amp;b</name><description>c&lt;d</description></entry></registry>";
    let es = decode_registry(doc).unwrap();
    assert_eq!(es[0].title, "a&b");
    assert_eq!(es[0].description, "c<d");
}

#[test]
fn decode_empty_document_fails() {
    assert_eq!(decode_registry("").err(), Some(SyncError::Decode));
}

#[test]
fn decode_missing_description_fails() {
    let doc = "<registry><entry id=\"1\"><name>a</name></entry></registry>";
    assert_eq!(decode_registry(doc).err(), Some(SyncError::Decode));
}

#[test]
fn decode_bad_due_fails() {
    let doc = "<registry><entry id=\"1\"><name>a</name><description>b</description><due>soon</due></entry></registry>";
    assert_eq!(decode_registry(doc).err(), Some(SyncError::Decode));
}

#[test]
fn decode_bad_id_fails() {
    let doc = "<registry><entry id=\"99999\"><name>a</name><description>b</description></entry></registry>";
    assert_eq!(decode_registry(doc).err(), Some(SyncError::Decode));
}

#[test]
fn flatten_renders_entry() {
    let doc = "<entry id=\"5\"><name>T</name><description>a&amp;b</description></entry>";
    let out = flatten_entry(doc);
    assert_eq!(out, "name: T\ndescription: a&b\n");
}

#[test]
fn flatten_ignores_content_outside_entry() {
    let doc = "<wrapper><name>skip</name><entry><name>T</name></entry></wrapper>";
    let out = flatten_entry(doc);
    assert_eq!(out, "name: T\n");
}

#[test]
fn sync_scenario_full_pipeline() {
    // local store: A without identifier, B tombstoned under id 7
    let mut state = AppState::new(test_config());
    state.push(Some(element(None, "A", "a", None)));
    state.push(Some(element(Some(7), "B", "d", None)));
    assert!(state.remove(7));
    let fetched = "<registry><entry id=\"7\"><name>B</name><description>d</description></entry><entry id=\"9\"><name>C</name><description>e</description></entry></registry>";
    let plan = state.prepare_sync(fetched).unwrap();
    // the deletion dropped B, the allocator gave A an identifier: upload owed
    assert!(plan.needs_upload);
    assert_eq!(plan.new_ids.len(), 1);
    let new_id = plan.new_ids[0];
    assert_ne!(new_id, 0);
    assert_ne!(new_id, 9);
    // remote records decoded from the surviving document
    assert_eq!(plan.remote.len(), 1);
    assert_eq!(plan.remote[0].id, Some(9));
    // the payload holds the surviving entry and A's fresh subtree
    assert!(plan.payload.starts_with("<registry>"));
    assert!(plan.payload.contains("<name>A</name>"));
    assert!(plan.payload.contains("<entry id=\"9\">"));
    assert!(plan.payload.contains(&format!("<entry id=\"{}\">", new_id)));
    // merge the remote records and mark clean
    let remote = plan.remote;
    state.finish_sync(remote);
    assert!(state.is_synced());
    let elements = state.get_elements();
    assert_eq!(elements.len(), 2);
    assert_eq!(elements[0].title, "A");
    assert_eq!(elements[0].id, Some(new_id));
    assert_eq!(elements[1].id, Some(9));
    assert_eq!(elements[1].title, "C");
}

#[test]
fn sync_without_changes_needs_no_upload() {
    let mut state = AppState::new(test_config());
    let fetched = "<registry><entry id=\"9\"><name>C</name><description>e</description></entry></registry>";
    let plan = state.prepare_sync(fetched).unwrap();
    assert!(!plan.needs_upload);
    assert_eq!(plan.payload, fetched);
    assert!(plan.new_ids.is_empty());
}

#[test]
fn sync_bad_document_aborts_unsynced() {
    let mut state = AppState::new(test_config());
    state.push(Some(element(None, "A", "a", None)));
    let r = state.prepare_sync("not xml at all");
    assert_eq!(r.err(), Some(SyncError::Decode));
    assert!(!state.is_synced());
    // the new record still has no identifier: nothing was allocated
    assert_eq!(state.get_elements()[0].id, None);
}

#[test]
fn merge_skips_known_and_adds_unknown() {
    let mut state = AppState::new(test_config());
    state.push(Some(element(Some(7), "B", "d", None)));
    let incoming = vec![
        element(Some(7), "B-remote", "other", None),
        element(Some(9), "C", "e", None),
    ];
    state.finish_sync(incoming);
    let elements = state.get_elements();
    assert_eq!(elements.len(), 2);
    // the known identifier was skipped: the local record is untouched
    assert_eq!(elements[0].title, "B");
    assert_eq!(elements[1].id, Some(9));
}

#[test]
fn merge_never_deduplicates_unidentified_records() {
    let mut state = AppState::new(test_config());
    state.push(Some(element(None, "A", "a", None)));
    let incoming = vec![element(None, "A", "a", None)];
    state.finish_sync(incoming);
    // a record lacking an identifier is the same entry as nothing
    assert_eq!(state.get_elements().len(), 2);
}

#[test]
fn display_shows_utc_due() {
    let el = element(Some(1), "T", "D", Some(0));
    let shown = el.to_display_string();
    assert!(shown.starts_with("ID: 1\nTitle: T\nDescription: D\nDue: \""));
    assert!(shown.contains("1970"));
    assert!(shown.contains("+0000"));
    let undated = element(None, "T", "D", None);
    assert_eq!(
        undated.to_display_string(),
        "ID: None\nTitle: T\nDescription: D\nDue: \"None\"\n"
    );
}

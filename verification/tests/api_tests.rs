use spur_api::job::{step_id_label, STEP_ID_BATCH, STEP_ID_EXTERN};
use spur_api::payload::FederationPeerView;
use spur_api::util::csv_list;

#[test]
fn step_labels_name_the_implicit_steps() {
    assert_eq!(step_id_label(STEP_ID_BATCH), "batch");
    assert_eq!(step_id_label(STEP_ID_EXTERN), "extern");
    assert_eq!(step_id_label(3), "3");
}

#[test]
fn federation_peers_split_on_the_address_separator() {
    let peer = FederationPeerView::parse("west@10.0.0.1:6817");
    assert_eq!(peer.cluster, "west");
    assert_eq!(peer.address, "10.0.0.1:6817");
}

#[test]
fn a_peer_without_an_address_keeps_its_name() {
    let peer = FederationPeerView::parse("west");
    assert_eq!(peer.cluster, "west");
    assert!(peer.address.is_empty());
}

#[test]
fn csv_list_drops_blanks_and_trims() {
    assert_eq!(csv_list("a, b ,,c"), vec!["a", "b", "c"]);
    assert!(csv_list("").is_empty());
    assert!(csv_list("  ,  ").is_empty());
}

use spur_api::envelope::{ApiError, Envelope, SPUR_VERSION};
use spur_api::payload::JobsPayload;

#[test]
fn csv_list_trims_unicode_white_space_and_keeps_order() {
    assert_eq!(csv_list("\u{3000}research\u{a0},\tml\n"), vec!["research", "ml"]);
    assert_eq!(csv_list("b,a"), vec!["b", "a"]);
    assert_eq!(csv_list("x y, z"), vec!["x y", "z"]);
}

#[test]
fn csv_list_round_trips_a_joined_list() {
    let names = vec!["alice".to_string(), "bob".to_string(), "carol".to_string()];
    assert_eq!(csv_list(&names.join(",")), names);
}

#[test]
fn federation_peer_splits_at_the_first_separator() {
    let peer = FederationPeerView::parse("a@b@c");
    assert_eq!(peer.cluster, "a");
    assert_eq!(peer.address, "b@c");
    let peer = FederationPeerView::parse("@x");
    assert_eq!(peer.cluster, "");
    assert_eq!(peer.address, "x");
}

#[test]
fn envelope_flattens_payload_next_to_meta() {
    let doc = Envelope::new(JobsPayload { jobs: Vec::new() });
    assert!(doc.data.jobs.is_empty());
    assert!(doc.meta.command.is_empty());
}

#[test]
fn empty_error_and_warning_arrays_are_omitted() {
    let doc = Envelope::new(JobsPayload { jobs: Vec::new() });
    assert!(doc.errors.is_empty());
    assert!(doc.warnings.is_empty());
}

#[test]
fn errors_appear_when_populated() {
    let doc = Envelope::new(()).with_errors(vec![ApiError::new("boom")]);
    assert_eq!(doc.errors[0].error, "boom");
    assert!(doc.errors[0].error_number.is_none());
}

#[test]
fn command_is_absent_unless_recorded() {
    let bare = Envelope::new(JobsPayload { jobs: Vec::new() });
    assert!(bare.meta.command.is_empty());

    let with_argv = Envelope::new(JobsPayload { jobs: Vec::new() })
        .with_command(&vec!["squeue".to_string(), "--json".to_string()]);
    assert_eq!(with_argv.meta.command, vec!["squeue", "--json"]);
}

#[test]
fn release_reports_the_spur_version_not_the_plugin_version() {
    let doc = Envelope::new(());
    assert_eq!(SPUR_VERSION, "0.1.0");
    assert_eq!(doc.meta.slurm.release, "spur 0.1.0");
    assert_ne!(doc.meta.slurm.release, "spur 0.0.42");
    assert_eq!(doc.meta.slurm.version.micro, 42);
    assert_eq!(doc.meta.slurm.version.major, 0);
}

#[test]
fn csv_items_are_nonblank_trimmed_and_comma_free() {
    for item in csv_list(" a ,, b\u{a0}c ,\t,d,") {
        assert!(!item.is_empty());
        assert_eq!(item, item.trim());
        assert!(!item.contains(','));
    }
    assert_eq!(csv_list(" a ,, b\u{a0}c ,\t,d,"), vec!["a", "b\u{a0}c", "d"]);
}

use capture_gui::labels::{
    confirm_texts, language_list, model_choices, prune_step, ConfirmKind, PruneChoice, PruneStep,
};
use capture_gui::update::UpdateInfo;

#[test]
fn language_list_caps_at_twelve_rows() {
    let (rows, note) = language_list("");
    assert_eq!(rows, (0..12).collect::<Vec<usize>>());
    assert_eq!(note, Some("+63 more — keep typing".to_string()));
}

#[test]
fn language_list_without_a_match_says_so() {
    let (rows, note) = language_list("zzz");
    assert!(rows.is_empty());
    assert_eq!(note, Some("no match".to_string()));
}

#[test]
fn language_list_of_a_few_matches_has_no_note() {
    let (rows, note) = language_list("de");
    assert_eq!(rows, vec![0, 3]);
    assert_eq!(note, None);
    let (rows, note) = language_list("k");
    assert_eq!(rows.len(), 12);
    assert_eq!(note, None);
}

#[test]
fn model_dropdown_starts_with_the_server_default() {
    let models = vec!["a".to_string(), "b".to_string()];
    let (rows, hint) = model_choices(&models, "b");
    assert_eq!(hint, None);
    assert_eq!(rows.len(), 3);
    assert_eq!(rows[0].value, "");
    assert_eq!(rows[0].label, "server default");
    assert!(!rows[0].active);
    assert_eq!(rows[1].value, "a");
    assert!(!rows[1].active);
    assert_eq!(rows[2].label, "b");
    assert!(rows[2].active);
    let (rows, _) = model_choices(&models, "");
    assert!(rows[0].active);
}

#[test]
fn model_dropdown_shows_at_most_forty_models() {
    let models: Vec<String> = (0..45).map(|i| format!("m{i}")).collect();
    let (rows, hint) = model_choices(&models, "m44");
    assert_eq!(rows.len(), 41);
    assert_eq!(rows[40].value, "m39");
    assert!(rows.iter().all(|r| !r.active));
    assert_eq!(hint, None);
}

#[test]
fn empty_model_list_gives_the_hint() {
    let (rows, hint) = model_choices(&[], "x");
    assert_eq!(rows.len(), 1);
    assert_eq!(hint, Some("no models — set host/port, then Refresh"));
}

#[test]
fn halving_frames_needs_no_question() {
    match prune_step("run-1", PruneChoice::HalveFrames) {
        PruneStep::Now(parts) => assert_eq!(parts, vec!["screenshots_halve".to_string()]),
        PruneStep::Ask(_) => panic!("asked"),
    }
}

#[test]
fn deleting_frames_and_audio_ask_first() {
    match prune_step("run-1", PruneChoice::DeleteFrames) {
        PruneStep::Ask(ConfirmKind::Prune(sid, parts, q)) => {
            assert_eq!(sid, "run-1");
            assert_eq!(parts, vec!["screenshots".to_string()]);
            assert_eq!(q, "Delete all screenshots? The transcript and audio stay.");
        }
        _ => panic!("not asked"),
    }
    match prune_step("run-2", PruneChoice::RemoveAudio) {
        PruneStep::Ask(k) => {
            let (title, body, go) = confirm_texts(&k);
            assert_eq!(title, "Prune this capture?");
            assert_eq!(
                body,
                "Remove the audio stream? Frees the most disk but disables re-transcribe (the transcript stays)."
            );
            assert_eq!(go, "Remove");
        }
        PruneStep::Now(_) => panic!("not asked"),
    }
}

#[test]
fn delete_and_update_questions() {
    let (title, body, go) = confirm_texts(&ConfirmKind::DeleteSession("run-20260101-abc".to_string()));
    assert_eq!(title, "Delete this capture?");
    assert_eq!(body, "abc — removes the folder and its record. This can't be undone.");
    assert_eq!(go, "Delete");
    let info = UpdateInfo { version: "0.3.0".to_string(), dmg_url: "https://x/y.dmg".to_string() };
    let (title, body, go) = confirm_texts(&ConfirmKind::Update(info));
    assert_eq!(title, "Update Capture?");
    assert_eq!(
        body,
        "Download v0.3.0 and install it. The app will quit and relaunch (stop any running captures first)."
    );
    assert_eq!(go, "Update");
}

use kcl_copilot::backend::{Backend, CompletionOutcome};
use kcl_copilot::types::{
    CopilotAcceptCompletionParams, CopilotCompletionResponse, CopilotDocument, CopilotEditorInfo,
    CopilotLspCompletionParams, CopilotPosition, CopilotRejectCompletionParams, WorkspaceFolder,
};
use kcl_copilot::Success;

fn params_for(uri: &str, source: &str, line: u32, character: u32) -> CopilotLspCompletionParams {
    CopilotLspCompletionParams {
        doc: CopilotDocument {
            uri: uri.to_string(),
            source: source.to_string(),
            language_id: "kcl".to_string(),
            position: CopilotPosition { line, character },
        },
    }
}

fn generate(
    backend: &mut Backend,
    params: &CopilotLspCompletionParams,
    texts: &[&str],
) -> CopilotCompletionResponse {
    match backend.get_completions_cycling(params) {
        CompletionOutcome::Cached(resp) => resp,
        CompletionOutcome::NeedsGeneration(doc_params) => {
            let completions: Vec<String> = texts.iter().map(|t| t.to_string()).collect();
            backend.finish_completions(params, &doc_params, &completions)
        }
    }
}

#[test]
fn test_success_new() {
    assert!(Success::new(true).success);
    assert!(!Success::new(false).success);
}

#[test]
fn test_doc_params_mid_document() {
    let backend = Backend::new();
    let params = params_for("a.kcl", "ab\ncd\nef", 1, 1);
    let dp = backend.get_doc_params(&params);
    assert_eq!(dp.uri, "a.kcl");
    assert_eq!(dp.language, "kcl");
    assert_eq!(dp.prefix, "ab\nc");
    assert_eq!(dp.suffix, "d\nef");
    assert_eq!(dp.line_before, "c");
    assert_eq!(dp.pos.line, 1);
    assert_eq!(dp.pos.character, 1);
}

#[test]
fn test_doc_params_clamps_beyond_end() {
    let backend = Backend::new();
    let params = params_for("a.kcl", "ab", 10, 10);
    let dp = backend.get_doc_params(&params);
    assert_eq!(dp.prefix, "ab");
    assert_eq!(dp.suffix, "");
    assert_eq!(dp.line_before, "");
}

#[test]
fn test_doc_params_empty_document() {
    let backend = Backend::new();
    let params = params_for("a.kcl", "", 0, 0);
    let dp = backend.get_doc_params(&params);
    assert_eq!(dp.prefix, "");
    assert_eq!(dp.suffix, "");
    assert_eq!(dp.line_before, "");
}

#[test]
fn test_doc_params_multibyte_characters() {
    let backend = Backend::new();
    let params = params_for("a.kcl", "h\u{e9}llo\nw\u{f6}rld", 1, 2);
    let dp = backend.get_doc_params(&params);
    assert_eq!(dp.prefix, "h\u{e9}llo\nw\u{f6}");
    assert_eq!(dp.suffix, "rld");
    assert_eq!(dp.line_before, "w\u{f6}");
}

#[test]
fn test_completion_scenario_fresh_then_same_identity() {
    // Request for "a.kcl", line 3, column 10, empty document text: the
    // generator answers ["foo()"]; the response holds one suggestion with
    // text "foo()", and an identical second request returns the same
    // identity from the cache.
    let mut backend = Backend::new();
    let params = params_for("a.kcl", "", 3, 10);
    let outcome = backend.get_completions_cycling(&params);
    let doc_params = match outcome {
        CompletionOutcome::NeedsGeneration(dp) => dp,
        CompletionOutcome::Cached(_) => panic!("fresh backend cannot have a cached response"),
    };
    let completions = vec!["foo()".to_string()];
    let response = backend.finish_completions(&params, &doc_params, &completions);
    assert_eq!(response.completions.len(), 1);
    assert_eq!(response.completions[0].text, "foo()");
    assert_eq!(response.completions[0].display_text, "foo()");
    let first_id = response.completions[0].uuid;

    match backend.get_completions_cycling(&params) {
        CompletionOutcome::Cached(cached) => {
            assert_eq!(cached.completions.len(), 1);
            assert_eq!(cached.completions[0].uuid, first_id);
            assert_eq!(cached.completions[0].text, "foo()");
        }
        CompletionOutcome::NeedsGeneration(_) => panic!("second request must be a cache hit"),
    }
}

#[test]
fn test_cache_hit_stability_two_hits_agree() {
    let mut backend = Backend::new();
    let params = params_for("a.kcl", "x = 1\n", 0, 5);
    let first = generate(&mut backend, &params, &["+ 2"]);
    let second = generate(&mut backend, &params, &["unused"]);
    let third = generate(&mut backend, &params, &["unused"]);
    assert_eq!(second.completions.len(), 1);
    assert_eq!(second.completions[0].uuid, first.completions[0].uuid);
    assert_eq!(third.completions[0].uuid, second.completions[0].uuid);
    assert_eq!(second.completions[0].display_text, "+ 2");
}

#[test]
fn test_cache_key_independence() {
    let mut backend = Backend::new();
    let doc_a_line5 = params_for("docA.kcl", "a\nb\nc\nd\ne\nf\ng", 5, 0);
    let doc_a_line6 = params_for("docA.kcl", "a\nb\nc\nd\ne\nf\ng", 6, 0);
    let doc_b_line5 = params_for("docB.kcl", "a\nb\nc\nd\ne\nf\ng", 5, 0);

    let stored = generate(&mut backend, &doc_a_line5, &["alpha"]);

    // Other keys are still misses.
    assert!(matches!(
        backend.get_completions_cycling(&doc_a_line6),
        CompletionOutcome::NeedsGeneration(_)
    ));
    assert!(matches!(
        backend.get_completions_cycling(&doc_b_line5),
        CompletionOutcome::NeedsGeneration(_)
    ));

    // Filling them does not disturb the first entry.
    generate(&mut backend, &doc_a_line6, &["beta"]);
    generate(&mut backend, &doc_b_line5, &["gamma"]);
    match backend.get_completions_cycling(&doc_a_line5) {
        CompletionOutcome::Cached(cached) => {
            assert_eq!(cached.completions[0].uuid, stored.completions[0].uuid);
            assert_eq!(cached.completions[0].display_text, "alpha");
        }
        CompletionOutcome::NeedsGeneration(_) => panic!("entry for (docA, 5) must survive"),
    }
}

#[test]
fn test_accept_unknown_identity_is_silent() {
    // An identity that was never registered: no record, no error.
    let mut backend = Backend::new();
    let result = backend.accept_completion(&CopilotAcceptCompletionParams { uuid: 42 });
    assert!(result.is_none());
}

#[test]
fn test_reject_unknown_identities_is_silent() {
    let mut backend = Backend::new();
    let result = backend.reject_completions(&CopilotRejectCompletionParams {
        uuids: vec![1, 2, 3],
    });
    assert!(result.is_empty());
}

fn fresh_bogus_id(taken: &[u128]) -> u128 {
    let mut candidate: u128 = 0;
    while taken.contains(&candidate) {
        candidate += 1;
    }
    candidate
}

#[test]
fn test_reject_mixed_identities_returns_valid_only() {
    // Two registered identities and one bogus one: records come back for
    // exactly the two valid identities.
    let mut backend = Backend::new();
    let params = params_for("a.kcl", "line0\n", 0, 2);
    let response = generate(&mut backend, &params, &["one", "two"]);
    assert_eq!(response.completions.len(), 2);
    let id_one = response.completions[0].uuid;
    let id_two = response.completions[1].uuid;
    let bogus = fresh_bogus_id(&[id_one, id_two]);

    let records = backend.reject_completions(&CopilotRejectCompletionParams {
        uuids: vec![id_one, bogus, id_two],
    });
    assert_eq!(records.len(), 2);
    assert_eq!(records[0].completion.uuid, id_one);
    assert_eq!(records[1].completion.uuid, id_two);
}

#[test]
fn test_exactly_once_accept_then_reject() {
    let mut backend = Backend::new();
    let params = params_for("a.kcl", "", 0, 0);
    let response = generate(&mut backend, &params, &["only"]);
    let id = response.completions[0].uuid;

    let accepted = backend.accept_completion(&CopilotAcceptCompletionParams { uuid: id });
    assert!(accepted.is_some());
    assert_eq!(accepted.unwrap().completion.display_text, "only");

    let rejected = backend.reject_completions(&CopilotRejectCompletionParams { uuids: vec![id] });
    assert!(rejected.is_empty());
}

#[test]
fn test_exactly_once_reject_then_accept() {
    let mut backend = Backend::new();
    let params = params_for("a.kcl", "", 0, 0);
    let response = generate(&mut backend, &params, &["only"]);
    let id = response.completions[0].uuid;

    let rejected = backend.reject_completions(&CopilotRejectCompletionParams { uuids: vec![id] });
    assert_eq!(rejected.len(), 1);
    assert_eq!(rejected[0].completion.uuid, id);

    let accepted = backend.accept_completion(&CopilotAcceptCompletionParams { uuid: id });
    assert!(accepted.is_none());
}

#[test]
fn test_document_close_purges_cache_and_records() {
    let mut backend = Backend::new();
    let params = params_for("gone.kcl", "text\n", 0, 4);
    let other = params_for("kept.kcl", "text\n", 0, 4);
    let response = generate(&mut backend, &params, &["dropped"]);
    let kept_response = generate(&mut backend, &other, &["kept"]);
    let id = response.completions[0].uuid;
    let kept_id = kept_response.completions[0].uuid;

    backend.close_document(&"gone.kcl".to_string());

    // No cache entry for the closed document remains.
    assert!(matches!(
        backend.get_completions_cycling(&params),
        CompletionOutcome::NeedsGeneration(_)
    ));
    // No correlation record for the closed document remains.
    assert!(backend
        .accept_completion(&CopilotAcceptCompletionParams { uuid: id })
        .is_none());
    // The other document's state is untouched.
    assert!(matches!(
        backend.get_completions_cycling(&other),
        CompletionOutcome::Cached(_)
    ));
    let kept_record = backend.accept_completion(&CopilotAcceptCompletionParams { uuid: kept_id });
    assert!(kept_record.is_some());
}

#[test]
fn test_from_str_vec_builds_exact_items() {
    let position = CopilotPosition { line: 3, character: 10 };
    let line_before = "ab".to_string();
    let uri = "a.kcl".to_string();
    let list = vec!["foo()".to_string()];
    let response = CopilotCompletionResponse::from_str_vec(&list, &line_before, position, &uri);
    assert_eq!(response.completions.len(), 1);
    let item = &response.completions[0];
    assert_eq!(item.text, "abfoo()");
    assert_eq!(item.display_text, "foo()");
    assert_eq!(item.range.start.line, 3);
    assert_eq!(item.range.start.character, 8);
    assert_eq!(item.range.end.line, 3);
    assert_eq!(item.range.end.character, 15);
    assert_eq!(item.position.line, 3);
    assert_eq!(item.position.character, 10);
    assert_eq!(response.uri, "a.kcl");
    assert_eq!(response.position.line, 3);
}

#[test]
fn test_set_editor_info_replaces_whole_value() {
    let mut backend = Backend::new();
    let info = CopilotEditorInfo {
        editor_name: "vscode".to_string(),
        editor_version: "1.90".to_string(),
        plugin_name: "copilot".to_string(),
        plugin_version: "0.1".to_string(),
    };
    let ack = backend.set_editor_info(info);
    assert!(ack.success);
    assert_eq!(backend.editor_info.editor_name, "vscode");
    assert_eq!(backend.editor_info.plugin_version, "0.1");
}

#[test]
fn test_workspace_folders_roundtrip() {
    let mut backend = Backend::new();
    backend.add_workspace_folders(vec![
        WorkspaceFolder { uri: "file:///a".to_string(), name: "a".to_string() },
        WorkspaceFolder { uri: "file:///b".to_string(), name: "b".to_string() },
    ]);
    let mut names: Vec<String> =
        backend.workspace_folders().into_iter().map(|f| f.name).collect();
    names.sort();
    assert_eq!(names, vec!["a".to_string(), "b".to_string()]);

    backend.remove_workspace_folders(vec![WorkspaceFolder {
        uri: "file:///a".to_string(),
        name: "a".to_string(),
    }]);
    let names: Vec<String> = backend.workspace_folders().into_iter().map(|f| f.name).collect();
    assert_eq!(names, vec!["b".to_string()]);
}

#[test]
fn test_code_map_operations() {
    let mut backend = Backend::new();
    backend.insert_code_map("a.kcl".to_string(), b"x = 1".to_vec());
    backend.insert_code_map("b.kcl".to_string(), b"y = 2".to_vec());
    let removed = backend.remove_from_code_map("a.kcl".to_string());
    assert_eq!(removed, Some(b"x = 1".to_vec()));
    assert_eq!(backend.remove_from_code_map("a.kcl".to_string()), None);
    backend.clear_code_state();
    assert_eq!(backend.remove_from_code_map("b.kcl".to_string()), None);
}

#[test]
fn test_initialized_flag() {
    let mut backend = Backend::new();
    assert!(!backend.is_initialized());
    backend.set_is_initialized(true);
    assert!(backend.is_initialized());
}

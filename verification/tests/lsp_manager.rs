use syntax_editor_core::canonicalized_path::CanonicalizedPath;
use syntax_editor_core::lsp::language::{has_language, LanguageRegistry, LspLanguage};
use syntax_editor_core::lsp::manager::{ChannelFailure, LspManager, Outgoing};
use syntax_editor_core::lsp::process::{
    failure_label, ChannelMessage, LspServerProcessChannel, RequestParams, SpawnOutcome,
};
use syntax_editor_core::syntax::Point;
use syntax_editor_core::utils::{consolidate_errors, AggregatedFailure};

fn path(text: &str) -> CanonicalizedPath {
    CanonicalizedPath::new(text)
}

fn params(file: &str) -> RequestParams {
    RequestParams { path: path(file), position: Point { row: 2, column: 7 } }
}

fn started(language: LspLanguage) -> SpawnOutcome {
    SpawnOutcome { language, result: Ok(()) }
}

fn failed(language: LspLanguage, reason: &str) -> SpawnOutcome {
    SpawnOutcome { language, result: Err(reason.to_string()) }
}

/// Opens `file` after every process that it needs has started.
fn open(manager: &mut LspManager, file: CanonicalizedPath) -> Result<(), AggregatedFailure> {
    let spawned = manager.unspawned_languages(&file).into_iter().map(started).collect();
    manager.open_file(file, spawned)
}

fn to(language: LspLanguage, message: ChannelMessage) -> Outgoing {
    Outgoing { language, message }
}

/// A registry in which `.rs` is Rust, `.ts` is TypeScript, and three
/// languages apply to `.tsx`.
fn registry() -> LanguageRegistry {
    let mut registry = LanguageRegistry::new();
    registry.register("rs", LspLanguage::Rust);
    registry.register("tsx", LspLanguage::TypeScriptReact);
    registry.register("ts", LspLanguage::TypeScript);
    registry.register("tsx", LspLanguage::TypeScript);
    registry.register("tsx", LspLanguage::JavaScript);
    registry.register("tsx", LspLanguage::TypeScript);
    registry
}

#[test]
fn registry_gives_each_language_of_an_extension_once() {
    let registry = registry();
    assert_eq!(registry.get_languages(&path("/src/main.rs")), vec![LspLanguage::Rust]);
    assert_eq!(registry.get_languages(&path("/src/a.ts")), vec![LspLanguage::TypeScript]);
    assert_eq!(
        registry.get_languages(&path("/src/a.tsx")),
        vec![LspLanguage::TypeScriptReact, LspLanguage::TypeScript, LspLanguage::JavaScript]
    );
    assert_eq!(registry.get_languages(&path("/src/a.py")), Vec::new());
    assert_eq!(registry.get_languages(&path("/src/Makefile")), Vec::new());
    assert_eq!(registry.languages_for_extension("tsx").len(), 3);
    assert_eq!(LanguageRegistry::new().get_languages(&path("/a.rs")), Vec::new());
    assert!(has_language(&vec![LspLanguage::Rust, LspLanguage::Markdown], LspLanguage::Markdown));
    assert!(!has_language(&vec![LspLanguage::Rust], LspLanguage::Markdown));
}

#[test]
fn path_extension_is_what_follows_the_last_dot_of_the_name() {
    assert_eq!(path("/a/b/main.rs").extension(), Some("rs".to_string()));
    assert_eq!(path("main.test.tsx").extension(), Some("tsx".to_string()));
    assert_eq!(path("/a.b/main").extension(), None);
    assert_eq!(path("/a/.bashrc").extension(), None);
    assert_eq!(path(".bashrc").extension(), None);
    assert_eq!(path("/a/b.").extension(), Some(String::new()));
    assert_eq!(path("").extension(), None);
    assert_eq!(path("/a/é.md").extension(), Some("md".to_string()));
    assert_eq!(path("/a/b.rs").as_str(), "/a/b.rs");
    assert_eq!(path("/a/b.rs").clone(), path("/a/b.rs"));
}

#[test]
fn open_file_spawns_once_and_then_notifies() {
    let mut manager = LspManager::new(registry());
    let file = path("/src/main.rs");
    assert_eq!(open(&mut manager, file.clone()), Ok(()));
    assert_eq!(manager.channel_count(), 1);
    assert_eq!(manager.take_outgoing(), vec![to(LspLanguage::Rust, ChannelMessage::Initialize)]);

    assert_eq!(open(&mut manager, file.clone()), Ok(()));
    assert_eq!(manager.channel_count(), 1);
    assert_eq!(manager.take_outgoing(), Vec::new());

    manager.initialized(LspLanguage::Rust, vec![file.clone()]);
    assert_eq!(
        manager.take_outgoing(),
        vec![to(LspLanguage::Rust, ChannelMessage::DocumentDidOpen(file.clone()))]
    );

    assert_eq!(open(&mut manager, file.clone()), Ok(()));
    assert_eq!(manager.channel_count(), 1);
    assert_eq!(
        manager.take_outgoing(),
        vec![to(LspLanguage::Rust, ChannelMessage::DocumentDidOpen(file))]
    );
}

#[test]
fn open_file_spawns_a_channel_for_each_language_of_the_file() {
    let mut manager = LspManager::new(registry());
    assert_eq!(open(&mut manager, path("/src/a.tsx")), Ok(()));
    assert_eq!(manager.channel_count(), 3);
    assert_eq!(manager.find_channel(LspLanguage::TypeScriptReact), Some(0));
    assert_eq!(manager.find_channel(LspLanguage::TypeScript), Some(1));
    assert_eq!(manager.find_channel(LspLanguage::JavaScript), Some(2));
    assert_eq!(manager.find_channel(LspLanguage::Rust), None);
    assert_eq!(open(&mut manager, path("/src/b.ts")), Ok(()));
    assert_eq!(manager.channel_count(), 3);
    assert_eq!(open(&mut manager, path("/src/notes")), Ok(()));
    assert_eq!(manager.channel_count(), 3);
}

#[test]
fn initialized_replays_the_documents_that_were_opened() {
    let mut manager = LspManager::new(registry());
    let first = path("/src/a.rs");
    let second = path("/src/b.rs");
    assert_eq!(open(&mut manager, first.clone()), Ok(()));
    assert_eq!(open(&mut manager, second.clone()), Ok(()));
    manager.initialized(LspLanguage::Rust, vec![first.clone(), second.clone()]);
    assert_eq!(
        manager.take_outgoing(),
        vec![
            to(LspLanguage::Rust, ChannelMessage::Initialize),
            to(LspLanguage::Rust, ChannelMessage::DocumentDidOpen(first)),
            to(LspLanguage::Rust, ChannelMessage::DocumentDidOpen(second)),
        ]
    );
    manager.initialized(LspLanguage::Markdown, vec![path("/x.md")]);
    assert_eq!(manager.channel_count(), 1);
    assert_eq!(manager.take_outgoing(), Vec::new());
}

#[test]
fn events_for_a_process_that_is_not_initialized_are_dropped() {
    let mut manager = LspManager::new(registry());
    let file = path("/src/main.rs");
    assert_eq!(open(&mut manager, file.clone()), Ok(()));
    assert_eq!(manager.take_outgoing().len(), 1);
    assert_eq!(manager.request_hover(params("/src/main.rs")), Ok(()));
    assert_eq!(manager.document_did_change(file.clone(), "fn f() {}".to_string()), Ok(()));
    assert_eq!(manager.document_did_save(file), Ok(()));
    assert_eq!(manager.take_outgoing(), Vec::new());
}

#[test]
fn requests_reach_every_channel_of_the_file() {
    let mut manager = LspManager::new(registry());
    assert_eq!(open(&mut manager, path("/src/a.tsx")), Ok(()));
    assert_eq!(open(&mut manager, path("/src/main.rs")), Ok(()));
    manager.initialized(LspLanguage::TypeScriptReact, Vec::new());
    manager.initialized(LspLanguage::TypeScript, Vec::new());
    manager.initialized(LspLanguage::Rust, Vec::new());
    assert_eq!(manager.take_outgoing().len(), 4);

    assert_eq!(manager.request_completion(params("/src/a.tsx")), Ok(()));
    assert_eq!(
        manager.take_outgoing(),
        vec![
            to(
                LspLanguage::TypeScriptReact,
                ChannelMessage::RequestCompletion(params("/src/a.tsx"))
            ),
            to(LspLanguage::TypeScript, ChannelMessage::RequestCompletion(params("/src/a.tsx"))),
        ]
    );
    assert_eq!(manager.request_hover(params("/src/main.rs")), Ok(()));
    assert_eq!(manager.request_definition(params("/src/main.rs")), Ok(()));
    assert_eq!(manager.request_references(params("/src/main.rs")), Ok(()));
    assert_eq!(
        manager.document_did_change(path("/src/main.rs"), "fn main() {}".to_string()),
        Ok(())
    );
    assert_eq!(manager.document_did_save(path("/src/main.rs")), Ok(()));
    assert_eq!(
        manager.take_outgoing(),
        vec![
            to(LspLanguage::Rust, ChannelMessage::RequestHover(params("/src/main.rs"))),
            to(LspLanguage::Rust, ChannelMessage::RequestDefinition(params("/src/main.rs"))),
            to(LspLanguage::Rust, ChannelMessage::RequestReferences(params("/src/main.rs"))),
            to(
                LspLanguage::Rust,
                ChannelMessage::DocumentDidChange(path("/src/main.rs"), "fn main() {}".to_string())
            ),
            to(LspLanguage::Rust, ChannelMessage::DocumentDidSave(path("/src/main.rs"))),
        ]
    );
    assert_eq!(manager.request_hover(params("/src/unknown.py")), Ok(()));
    assert_eq!(manager.take_outgoing(), Vec::new());
}

#[test]
fn aggregation_example_one_of_three_channels_fails() {
    let mut manager = LspManager::new(registry());
    assert_eq!(open(&mut manager, path("/src/a.tsx")), Ok(()));
    manager.initialized(LspLanguage::TypeScriptReact, Vec::new());
    manager.initialized(LspLanguage::TypeScript, Vec::new());
    manager.initialized(LspLanguage::JavaScript, Vec::new());
    manager.channel_failed(LspLanguage::TypeScript, "timeout");
    assert_eq!(manager.take_outgoing().len(), 3);

    let failure = manager.request_hover(params("/src/a.tsx")).expect_err("one channel fails");
    assert_eq!(
        failure,
        AggregatedFailure {
            label: "Failed to request hover".to_string(),
            reasons: vec!["timeout".to_string()],
        }
    );
    let message = failure.message();
    assert_eq!(message, "Failed to request hover: timeout");
    assert!(message.contains("Failed to request hover"));
    assert!(message.contains("timeout"));
    assert_eq!(
        manager.take_outgoing(),
        vec![
            to(LspLanguage::TypeScriptReact, ChannelMessage::RequestHover(params("/src/a.tsx"))),
            to(LspLanguage::JavaScript, ChannelMessage::RequestHover(params("/src/a.tsx"))),
        ]
    );
}

#[test]
fn each_call_has_its_label() {
    let mut manager = LspManager::new(registry());
    let file = path("/src/main.rs");
    assert_eq!(open(&mut manager, file.clone()), Ok(()));
    manager.initialized(LspLanguage::Rust, Vec::new());
    manager.channel_failed(LspLanguage::Rust, "broken pipe");
    let label = |result: Result<(), AggregatedFailure>| result.expect_err("the channel failed").label;
    assert_eq!(label(manager.request_completion(params("/src/main.rs"))), "Failed to request completion");
    assert_eq!(label(manager.request_hover(params("/src/main.rs"))), "Failed to request hover");
    assert_eq!(label(manager.request_definition(params("/src/main.rs"))), "Failed to go to definition");
    assert_eq!(label(manager.request_references(params("/src/main.rs"))), "Failed to find references");
    assert_eq!(
        label(manager.document_did_change(file.clone(), String::new())),
        "Failed to notify document did change"
    );
    assert_eq!(label(manager.document_did_save(file.clone())), "Failed to notify document did save");
    assert_eq!(label(open(&mut manager, file)), "Failed to start language server");
    assert_eq!(
        label(manager.invoke_channels(&path("/src/main.rs"), "Custom", &ChannelMessage::Shutdown)),
        "Custom"
    );
}

#[test]
fn every_failing_channel_is_named_in_order() {
    let mut manager = LspManager::new(registry());
    assert_eq!(open(&mut manager, path("/src/a.tsx")), Ok(()));
    manager.channel_failed(LspLanguage::JavaScript, "no such program");
    manager.channel_failed(LspLanguage::TypeScriptReact, "timeout");
    manager.channel_failed(LspLanguage::Markdown, "ignored");
    let failure = manager.request_references(params("/src/a.tsx")).expect_err("two channels fail");
    assert_eq!(failure.reasons, vec!["timeout".to_string(), "no such program".to_string()]);
    assert_eq!(failure.message(), "Failed to find references: timeout, no such program");
    assert_eq!(open(&mut manager, path("/src/a.tsx")), Ok(()));
}

#[test]
fn shutdown_asks_every_channel_and_lets_go_of_them() {
    let mut manager = LspManager::new(registry());
    assert_eq!(open(&mut manager, path("/src/a.tsx")), Ok(()));
    manager.channel_failed(LspLanguage::TypeScript, "gone");
    assert_eq!(manager.take_outgoing().len(), 3);
    assert_eq!(
        manager.shutdown(),
        (
            vec![
                to(LspLanguage::TypeScriptReact, ChannelMessage::Shutdown),
                to(LspLanguage::JavaScript, ChannelMessage::Shutdown),
            ],
            vec![ChannelFailure { language: LspLanguage::TypeScript, reason: "gone".to_string() }],
        )
    );
    assert_eq!(manager.channel_count(), 0);
    assert_eq!(manager.shutdown(), (Vec::new(), Vec::new()));
}

#[test]
fn channel_queues_drops_and_fails() {
    let mut channel = LspServerProcessChannel::spawn(LspLanguage::Rust);
    assert_eq!(channel.language(), LspLanguage::Rust);
    assert!(!channel.is_initialized());
    assert_eq!(channel.document_did_open(path("/a.rs")), Ok(()));
    assert_eq!(channel.take_messages(), vec![ChannelMessage::Initialize]);
    channel.initialized();
    assert!(channel.is_initialized());
    assert_eq!(channel.request_completion(params("/a.rs")), Ok(()));
    assert_eq!(channel.request_hover(params("/a.rs")), Ok(()));
    assert_eq!(channel.request_definition(params("/a.rs")), Ok(()));
    assert_eq!(channel.request_references(params("/a.rs")), Ok(()));
    assert_eq!(channel.documents_did_open(vec![path("/a.rs"), path("/b.rs")]), Ok(()));
    assert_eq!(channel.document_did_change(&path("/a.rs"), "x"), Ok(()));
    assert_eq!(channel.document_did_save(&path("/a.rs")), Ok(()));
    assert_eq!(channel.shutdown(), Ok(()));
    assert_eq!(
        channel.take_messages(),
        vec![
            ChannelMessage::RequestCompletion(params("/a.rs")),
            ChannelMessage::RequestHover(params("/a.rs")),
            ChannelMessage::RequestDefinition(params("/a.rs")),
            ChannelMessage::RequestReferences(params("/a.rs")),
            ChannelMessage::DocumentDidOpen(path("/a.rs")),
            ChannelMessage::DocumentDidOpen(path("/b.rs")),
            ChannelMessage::DocumentDidChange(path("/a.rs"), "x".to_string()),
            ChannelMessage::DocumentDidSave(path("/a.rs")),
            ChannelMessage::Shutdown,
        ]
    );
    assert_eq!(channel.take_messages(), Vec::new());
    channel.fail("timeout".to_string());
    assert_eq!(channel.send(ChannelMessage::Shutdown), Err("timeout".to_string()));
    assert_eq!(channel.request_hover(params("/a.rs")), Err("timeout".to_string()));
    assert_eq!(channel.documents_did_open(vec![path("/a.rs")]), Err("timeout".to_string()));
    assert_eq!(channel.shutdown(), Err("timeout".to_string()));
    assert_eq!(channel.take_messages(), Vec::new());
    assert_eq!(ChannelMessage::Initialize.clone(), ChannelMessage::Initialize);
    assert_eq!(params("/a.rs").clone(), params("/a.rs"));
}

#[test]
fn consolidate_errors_reports_failures_only() {
    assert_eq!(consolidate_errors("Label", Vec::new()), Ok(()));
    assert_eq!(consolidate_errors("Label", vec![Ok(()), Ok(())]), Ok(()));
    let failure = consolidate_errors(
        "Label",
        vec![Ok(()), Err("first".to_string()), Ok(()), Err("second".to_string())],
    )
    .expect_err("two operations failed");
    assert_eq!(failure.label, "Label");
    assert_eq!(failure.reasons, vec!["first".to_string(), "second".to_string()]);
    assert_eq!(failure.message(), "Label: first, second");
    let lone = AggregatedFailure { label: "L".to_string(), reasons: Vec::new() };
    assert_eq!(lone.message(), "L: ");
}

#[test]
fn unspawned_languages_are_those_without_a_channel() {
    let mut manager = LspManager::new(registry());
    let file = path("/src/a.tsx");
    assert_eq!(
        manager.unspawned_languages(&file),
        vec![LspLanguage::TypeScriptReact, LspLanguage::TypeScript, LspLanguage::JavaScript]
    );
    assert_eq!(manager.open_file(path("/src/b.ts"), vec![started(LspLanguage::TypeScript)]), Ok(()));
    assert_eq!(
        manager.unspawned_languages(&file),
        vec![LspLanguage::TypeScriptReact, LspLanguage::JavaScript]
    );
    assert_eq!(manager.unspawned_languages(&path("/src/b.ts")), Vec::new());
    assert_eq!(manager.unspawned_languages(&path("/src/notes")), Vec::new());
}

#[test]
fn a_failed_spawn_is_reported_and_leaves_no_channel() {
    let mut manager = LspManager::new(registry());
    let file = path("/src/a.tsx");
    let failure = manager
        .open_file(
            file.clone(),
            vec![
                failed(LspLanguage::TypeScriptReact, "no such program"),
                started(LspLanguage::TypeScript),
                failed(LspLanguage::JavaScript, "permission denied"),
            ],
        )
        .expect_err("two processes did not start");
    assert_eq!(failure.label, "Failed to start language server");
    assert_eq!(
        failure.reasons,
        vec!["no such program".to_string(), "permission denied".to_string()]
    );
    assert_eq!(
        failure.message(),
        "Failed to start language server: no such program, permission denied"
    );
    assert_eq!(manager.channel_count(), 1);
    assert_eq!(manager.find_channel(LspLanguage::TypeScript), Some(0));
    assert_eq!(manager.find_channel(LspLanguage::TypeScriptReact), None);
    assert_eq!(
        manager.take_outgoing(),
        vec![to(LspLanguage::TypeScript, ChannelMessage::Initialize)]
    );

    assert_eq!(
        manager.unspawned_languages(&file),
        vec![LspLanguage::TypeScriptReact, LspLanguage::JavaScript]
    );
    assert_eq!(
        manager.open_file(
            file,
            vec![started(LspLanguage::TypeScriptReact), started(LspLanguage::JavaScript)]
        ),
        Ok(())
    );
    assert_eq!(manager.channel_count(), 3);
}

#[test]
fn a_language_without_an_outcome_is_passed_over() {
    let mut manager = LspManager::new(registry());
    assert_eq!(manager.open_file(path("/src/main.rs"), Vec::new()), Ok(()));
    assert_eq!(manager.channel_count(), 0);
    assert_eq!(
        manager.open_file(path("/src/main.rs"), vec![started(LspLanguage::Markdown)]),
        Ok(())
    );
    assert_eq!(manager.channel_count(), 0);
    assert_eq!(
        manager.open_file(
            path("/src/main.rs"),
            vec![
                started(LspLanguage::Markdown),
                started(LspLanguage::Rust),
                failed(LspLanguage::Rust, "ignored"),
            ]
        ),
        Ok(())
    );
    assert_eq!(manager.channel_count(), 1);
    assert_eq!(
        manager.open_file(path("/src/main.rs"), vec![failed(LspLanguage::Rust, "ignored")]),
        Ok(())
    );
    assert_eq!(manager.channel_count(), 1);
}

#[test]
fn find_spawn_gives_the_first_outcome_of_the_language() {
    let spawned = vec![
        started(LspLanguage::Markdown),
        failed(LspLanguage::Rust, "first"),
        started(LspLanguage::Rust),
    ];
    assert_eq!(LspManager::find_spawn(&spawned, LspLanguage::Rust), Some(1));
    assert_eq!(LspManager::find_spawn(&spawned, LspLanguage::Markdown), Some(0));
    assert_eq!(LspManager::find_spawn(&spawned, LspLanguage::JavaScript), None);
    assert_eq!(LspManager::find_spawn(&Vec::new(), LspLanguage::Rust), None);
}

#[test]
fn a_message_that_could_not_be_passed_on_fails_its_channel() {
    let mut manager = LspManager::new(registry());
    assert_eq!(open(&mut manager, path("/src/main.rs")), Ok(()));
    manager.initialized(LspLanguage::Rust, Vec::new());
    assert_eq!(manager.request_hover(params("/src/main.rs")), Ok(()));
    let outgoing = manager.take_outgoing();
    assert_eq!(outgoing.len(), 2);
    let failure = manager.delivery_failed(&outgoing[1], "broken pipe");
    assert_eq!(
        failure,
        AggregatedFailure {
            label: "Failed to request hover".to_string(),
            reasons: vec!["broken pipe".to_string()],
        }
    );
    assert_eq!(failure.message(), "Failed to request hover: broken pipe");
    let later = manager.request_definition(params("/src/main.rs")).expect_err("the channel failed");
    assert_eq!(later.reasons, vec!["broken pipe".to_string()]);
    let unknown = to(LspLanguage::Markdown, ChannelMessage::Shutdown);
    assert_eq!(manager.delivery_failed(&unknown, "x").label, "Failed to shut down language server");
    assert_eq!(manager.channel_count(), 1);
}

#[test]
fn every_message_has_the_label_of_its_call() {
    let file = path("/a.rs");
    assert_eq!(failure_label(&ChannelMessage::Initialize), "Failed to start language server");
    assert_eq!(
        failure_label(&ChannelMessage::RequestCompletion(params("/a.rs"))),
        "Failed to request completion"
    );
    assert_eq!(
        failure_label(&ChannelMessage::RequestHover(params("/a.rs"))),
        "Failed to request hover"
    );
    assert_eq!(
        failure_label(&ChannelMessage::RequestDefinition(params("/a.rs"))),
        "Failed to go to definition"
    );
    assert_eq!(
        failure_label(&ChannelMessage::RequestReferences(params("/a.rs"))),
        "Failed to find references"
    );
    assert_eq!(
        failure_label(&ChannelMessage::DocumentDidOpen(file.clone())),
        "Failed to start language server"
    );
    assert_eq!(
        failure_label(&ChannelMessage::DocumentDidChange(file.clone(), String::new())),
        "Failed to notify document did change"
    );
    assert_eq!(
        failure_label(&ChannelMessage::DocumentDidSave(file)),
        "Failed to notify document did save"
    );
    assert_eq!(failure_label(&ChannelMessage::Shutdown), "Failed to shut down language server");
}

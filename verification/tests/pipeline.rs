use basalt_cli::build::context::{EnvOverrides, TemplateContext};
use basalt_cli::build::error::BuildError;
use basalt_cli::build::scripts::ScriptCollector;
use basalt_cli::build::templates::{gather, Rendered, TemplateRegistry};
use basalt_cli::build::{
    build_from_rendered, build_with_output, fixed_archive, BuildOutput, BuildRequest,
};
use basalt_cli::cli::ContainerBackend;
use basalt_cli::config::{BuildConfig, Integrations, Language, Setup};
use tokio::io::AsyncReadExt;
use tokio_stream::StreamExt;

const CONFIG_TEXT: &str = "port = 9550\n\n[languages]\npython3 = \"latest\"\njava = \"21\"\n";

fn runtime() -> tokio::runtime::Runtime {
    tokio::runtime::Builder::new_current_thread().enable_all().build().unwrap()
}

fn listed(bytes: &[u8]) -> Vec<(String, Vec<u8>)> {
    runtime().block_on(async {
        let mut archive = tokio_tar::Archive::new(bytes);
        let mut entries = archive.entries().unwrap();
        let mut found = Vec::new();
        while let Some(entry) = entries.next().await {
            let mut entry = entry.unwrap();
            let path = entry.path().unwrap().to_str().unwrap().to_owned();
            let mut content = Vec::new();
            entry.read_to_end(&mut content).await.unwrap();
            found.push((path, content));
        }
        found
    })
}

fn registry() -> TemplateRegistry {
    TemplateRegistry::new().unwrap()
}

fn config(scripts: &[&str], custom_install: Option<&str>) -> BuildConfig {
    BuildConfig {
        languages: vec![
            Language::BuiltIn {
                install_command: Some(String::from("apt-get install -y python3")),
                init_command: None,
            },
            Language::BuiltIn {
                install_command: Some(String::from("apt-get install -y openjdk-21-jdk")),
                init_command: Some(String::from("java -Xshare:dump")),
            },
        ],
        setup: custom_install.map(|install| Setup {
            install: Some(String::from(install)),
            init: None,
        }),
        web_client: String::from("bundled"),
        integrations: Integrations {
            event_handlers: scripts.iter().map(|p| String::from(*p)).collect(),
            webhooks: vec![],
        },
        port: 9550,
        hash: String::from("3fa9c1"),
    }
}

fn no_overrides() -> EnvOverrides {
    EnvOverrides { server_tag: None, web_tag: None }
}

fn to_file(path: &str) -> BuildRequest {
    BuildRequest {
        output: Some(String::from(path)),
        tag: None,
        container_backend: ContainerBackend::Docker,
        verbose: false,
    }
}

fn to_image(tag: Option<&str>, backend: ContainerBackend, verbose: bool) -> BuildRequest {
    BuildRequest { output: None, tag: tag.map(String::from), container_backend: backend, verbose }
}

fn all_read(cfg: &BuildConfig) -> ScriptCollector {
    let mut collector = ScriptCollector::new(&cfg.integrations.event_handlers);
    for (index, outcome) in readings_of(cfg) {
        collector.record(index, outcome);
    }
    collector
}

/// Every declared script read, the last declared ending first.
fn readings_of(cfg: &BuildConfig) -> Vec<(usize, Result<String, String>)> {
    (0..cfg.integrations.event_handlers.len())
        .rev()
        .map(|index| {
            (index, Ok(format!("// handler {}", cfg.integrations.event_handlers[index])))
        })
        .collect()
}

/// A whole build: the templates rendered, the readings noted in the order
/// given, and the end.
fn build(
    request: BuildRequest,
    text: &str,
    cfg: &BuildConfig,
    env: &EnvOverrides,
    templates: &TemplateRegistry,
    readings: Vec<(usize, Result<String, String>)>,
) -> Result<BuildOutput, BuildError> {
    let mut pending = build_with_output(request, String::from(text), cfg.clone(), env, templates)?;
    assert_eq!(pending.script_paths(), &cfg.integrations.event_handlers);
    for (index, outcome) in readings {
        pending = pending.record(index, outcome);
    }
    pending.finish()
}

fn archive_of(output: BuildOutput) -> Vec<u8> {
    match output {
        BuildOutput::Archive { bytes, .. } => bytes,
        BuildOutput::Image { archive, .. } => archive,
    }
}

fn text_of(entries: &[(String, Vec<u8>)], path: &str) -> String {
    let entry = entries.iter().find(|e| e.0 == path).unwrap();
    String::from_utf8(entry.1.clone()).unwrap()
}

#[test]
fn context_holds_the_derived_values_in_order() {
    let cfg = config(&[], Some("  pip install numpy \n"));
    let ctx = TemplateContext::build(&cfg, &no_overrides());
    let keys: Vec<&str> = (0..ctx.len()).map(|i| ctx.key(i)).collect();
    assert_eq!(
        keys,
        vec!["server_tag", "web_tag", "base_install", "base_init", "custom_install", "web_client"]
    );
    assert_eq!(ctx.get("server_tag"), Some("0.1.0-minimal"));
    assert_eq!(ctx.get("web_tag"), Some("0.1.0"));
    assert_eq!(
        ctx.get("base_install"),
        Some("apt-get install -y python3\napt-get install -y openjdk-21-jdk")
    );
    assert_eq!(ctx.get("base_init"), Some("java -Xshare:dump"));
    assert_eq!(ctx.get("custom_install"), Some("pip install numpy"));
    assert_eq!(ctx.get("custom_init"), None);
    assert_eq!(ctx.get("web_client"), Some("bundled"));
    assert_eq!(ctx.value(5), "bundled");
}

#[test]
fn context_without_setup_has_no_custom_values() {
    let ctx = TemplateContext::build(&config(&[], None), &no_overrides());
    assert_eq!(ctx.len(), 5);
    assert_eq!(ctx.get("custom_install"), None);
    assert_eq!(ctx.get("custom_init"), None);
}

#[test]
fn context_with_both_custom_snippets() {
    let mut cfg = config(&[], None);
    cfg.setup = Some(Setup {
        install: Some(String::from("make deps")),
        init: Some(String::from("\n./warm-up.sh\n")),
    });
    let ctx = TemplateContext::build(&cfg, &no_overrides());
    assert_eq!(ctx.len(), 7);
    assert_eq!(ctx.key(4), "custom_install");
    assert_eq!(ctx.key(5), "custom_init");
    assert_eq!(ctx.get("custom_init"), Some("./warm-up.sh"));
}

#[test]
fn overrides_of_the_environment_win() {
    let env = EnvOverrides {
        server_tag: Some(String::from("nightly")),
        web_tag: Some(String::from("edge")),
    };
    let ctx = TemplateContext::build(&config(&["a.js"], None), &env);
    assert_eq!(ctx.get("server_tag"), Some("nightly"));
    assert_eq!(ctx.get("web_tag"), Some("edge"));
    let only_web = EnvOverrides { server_tag: None, web_tag: Some(String::from("edge")) };
    let ctx = TemplateContext::build(&config(&["a.js"], None), &only_web);
    assert_eq!(ctx.get("server_tag"), Some("0.1.0-scripting"));
}

#[test]
fn a_custom_snippet_is_not_rendered_again() {
    let cfg = config(&[], Some("echo {{ server_tag }} {% if x %}"));
    let ctx = TemplateContext::build(&cfg, &no_overrides());
    let install = registry().render("install.sh", &ctx).unwrap();
    assert!(install.contains("echo {{ server_tag }} {% if x %}"));
}

#[test]
fn templates_are_rendered_with_the_context() {
    let ctx = TemplateContext::build(&config(&[], None), &no_overrides());
    let rendered = registry().render_all(&ctx).unwrap();
    assert_eq!(
        rendered.dockerfile,
        "FROM ghcr.io/basalt-rs/basalt-web:0.1.0 AS web\n\
FROM ghcr.io/basalt-rs/basalt-server:0.1.0-minimal\n\
\n\
WORKDIR /basalt\n\
COPY config.toml /basalt/config.toml\n\
COPY install.sh /basalt/install.sh\n\
COPY entrypoint.sh /basalt/entrypoint.sh\n\
COPY --from=web /web /basalt/web\n\
ENV BASALT_WEB_CLIENT=bundled\n\
RUN sh /basalt/install.sh\n\
\n\
EXPOSE 9550\n\
ENTRYPOINT [\"sh\", \"/basalt/entrypoint.sh\"]\n"
    );
    assert_eq!(
        rendered.install,
        "apt-get install -y python3\napt-get install -y openjdk-21-jdk\n"
    );
    assert_eq!(
        rendered.entrypoint,
        "java -Xshare:dump\nexec basalt-server run /basalt/config.toml\n"
    );
}

#[test]
fn install_script_has_the_two_language_lines_and_then_the_custom_one() {
    let cfg = config(&[], Some("pip install numpy"));
    let output = build(
        to_image(None, ContainerBackend::Docker, false),
        CONFIG_TEXT,
        &cfg,
        &no_overrides(),
        &registry(),
        readings_of(&cfg),
    )
    .unwrap();
    let entries = listed(&archive_of(output));
    let install = text_of(&entries, "install.sh");
    let lines: Vec<&str> = install.lines().filter(|l| !l.is_empty()).collect();
    assert_eq!(
        lines,
        vec![
            "apt-get install -y python3",
            "apt-get install -y openjdk-21-jdk",
            "pip install numpy"
        ]
    );
    assert!(text_of(&entries, "Dockerfile").contains("basalt-server:0.1.0-minimal"));
}

#[test]
fn archive_with_one_script_lists_six_entries_in_the_fixed_order() {
    let cfg = config(&["scripts/on_submit.js"], None);
    let output = build(
        to_file("out/basalt.tar"),
        CONFIG_TEXT,
        &cfg,
        &no_overrides(),
        &registry(),
        readings_of(&cfg),
    )
    .unwrap();
    let bytes = match output {
        BuildOutput::Archive { path, bytes } => {
            assert_eq!(path, "out/basalt.tar");
            bytes
        }
        other => panic!("expected an archive, got {:?}", other),
    };
    let entries = listed(&bytes);
    let names: Vec<&str> = entries.iter().map(|e| e.0.as_str()).collect();
    assert_eq!(
        names,
        vec![
            "config.toml",
            "Dockerfile",
            ".dockerignore",
            "install.sh",
            "entrypoint.sh",
            "scripts/on_submit.js"
        ]
    );
    assert_eq!(entries[5].1, b"// handler scripts/on_submit.js".to_vec());
    assert_eq!(entries[2].1, b"./Dockerfile\n./.dockerignore".to_vec());
}

#[test]
fn three_scripts_follow_the_fixed_entries_in_declared_order() {
    let cfg = config(&["a.js", "b.js", "c.js"], None);
    let mut finished = Vec::new();
    for order in [[0usize, 1, 2], [2, 1, 0], [1, 2, 0]] {
        let readings = order.iter().map(|index| (*index, Ok(format!("// {}", index)))).collect();
        let output =
            build(to_file("out.tar"), CONFIG_TEXT, &cfg, &no_overrides(), &registry(), readings)
                .unwrap();
        let bytes = archive_of(output);
        let names: Vec<String> = listed(&bytes).into_iter().map(|e| e.0).collect();
        assert_eq!(&names[5..], &["a.js", "b.js", "c.js"]);
        finished.push(bytes);
    }
    assert_eq!(finished[0], finished[1]);
    assert_eq!(finished[0], finished[2]);
}

#[test]
fn config_comes_back_byte_for_byte_from_the_unpacked_archive() {
    let cfg = config(&["scripts/on_submit.js"], None);
    let text = "port = 9550 # caf\u{e9}\r\n\ttabs and \"quotes\"\n";
    let output =
        build(to_file("out.tar"), text, &cfg, &no_overrides(), &registry(), readings_of(&cfg))
            .unwrap();
    let bytes = archive_of(output);
    let dir = tempdir::TempDir::new("basalt-roundtrip").unwrap();
    let read_back = runtime().block_on(async {
        let mut archive = tokio_tar::Archive::new(bytes.as_slice());
        archive.unpack(dir.path()).await.unwrap();
        tokio::fs::read(dir.path().join("config.toml")).await.unwrap()
    });
    assert_eq!(read_back, text.as_bytes());
    let script = runtime()
        .block_on(async { tokio::fs::read(dir.path().join("scripts/on_submit.js")).await.unwrap() });
    assert_eq!(script, b"// handler scripts/on_submit.js".to_vec());
}

#[test]
fn building_twice_gives_the_same_tag_and_the_same_bytes() {
    let cfg = config(&["a.js"], Some("pip install numpy"));
    let env = EnvOverrides { server_tag: None, web_tag: Some(String::from("edge")) };
    let once = || {
        build(
            to_image(None, ContainerBackend::Podman, true),
            CONFIG_TEXT,
            &cfg,
            &env,
            &registry(),
            readings_of(&cfg),
        )
        .unwrap()
    };
    match (once(), once()) {
        (
            BuildOutput::Image { tag: first_tag, archive: first, backend, verbose },
            BuildOutput::Image { tag: second_tag, archive: second, .. },
        ) => {
            assert_eq!(first_tag, "bslt-3fa9c1");
            assert_eq!(first_tag, second_tag);
            assert_eq!(first, second);
            assert_eq!(backend, ContainerBackend::Podman);
            assert!(verbose);
        }
        other => panic!("expected two images, got {:?}", other),
    }
}

#[test]
fn an_explicit_tag_is_handed_to_the_backend() {
    let cfg = config(&[], None);
    let output = build(
        to_image(Some("contest:final"), ContainerBackend::Docker, false),
        CONFIG_TEXT,
        &cfg,
        &no_overrides(),
        &registry(),
        readings_of(&cfg),
    )
    .unwrap();
    assert!(matches!(output, BuildOutput::Image { tag, .. } if tag == "contest:final"));
}

#[test]
fn an_output_path_wins_over_a_tag() {
    let cfg = config(&[], None);
    let request = BuildRequest {
        output: Some(String::from("basalt.tar")),
        tag: Some(String::from("ignored")),
        container_backend: ContainerBackend::Podman,
        verbose: true,
    };
    let output =
        build(request, CONFIG_TEXT, &cfg, &no_overrides(), &registry(), readings_of(&cfg)).unwrap();
    assert!(matches!(output, BuildOutput::Archive { path, .. } if path == "basalt.tar"));
}

#[test]
fn a_deleted_script_fails_the_build_and_is_named() {
    let cfg = config(&["a.js", "b.js", "c.js"], None);
    for request in [to_file("out.tar"), to_image(None, ContainerBackend::Docker, false)] {
        let readings = vec![
            (2, Ok(String::from("// c"))),
            (0, Ok(String::from("// a"))),
            (1, Err(String::from("No such file or directory (os error 2)"))),
        ];
        match build(request, CONFIG_TEXT, &cfg, &no_overrides(), &registry(), readings) {
            Err(BuildError::ScriptCollection { paths, causes }) => {
                assert_eq!(paths, vec!["b.js"]);
                assert_eq!(causes, vec!["No such file or directory (os error 2)"]);
            }
            other => panic!("expected a collection error, got {:?}", other),
        }
    }
}

#[test]
fn a_script_path_that_cannot_be_stored_fails_the_build() {
    let cfg = config(&["/etc/handler.js"], None);
    match build(
        to_file("out.tar"),
        CONFIG_TEXT,
        &cfg,
        &no_overrides(),
        &registry(),
        readings_of(&cfg),
    ) {
        Err(BuildError::Archive { path, .. }) => assert_eq!(path, "/etc/handler.js"),
        other => panic!("expected an archive error, got {:?}", other),
    }
}

#[test]
fn the_three_templates_are_accepted() {
    assert!(TemplateRegistry::new().is_ok());
}

#[test]
fn a_value_that_is_empty_leaves_its_lines_out() {
    let mut cfg = config(&[], None);
    cfg.languages = vec![Language::Custom];
    cfg.web_client = String::new();
    let ctx = TemplateContext::build(&cfg, &no_overrides());
    let rendered = registry().render_all(&ctx).unwrap();
    assert_eq!(rendered.install, "");
    assert_eq!(rendered.entrypoint, "exec basalt-server run /basalt/config.toml\n");
    assert!(!rendered.dockerfile.contains("BASALT_WEB_CLIENT"));
    assert!(rendered.dockerfile.contains("COPY entrypoint.sh /basalt/entrypoint.sh\nRUN sh"));
}

#[test]
fn a_script_declared_twice_fails_the_build() {
    let cfg = config(&["a.js", "b.js", "a.js"], None);
    match build(
        to_file("out.tar"),
        CONFIG_TEXT,
        &cfg,
        &no_overrides(),
        &registry(),
        readings_of(&cfg),
    ) {
        Err(BuildError::Archive { path, cause }) => {
            assert_eq!(path, "a.js");
            assert_eq!(cause, "the path is already in the archive");
        }
        other => panic!("expected an archive error, got {:?}", other),
    }
}

#[test]
fn a_script_under_the_path_of_a_fixed_entry_fails_the_build() {
    for taken in ["config.toml", "Dockerfile", ".dockerignore", "install.sh", "entrypoint.sh"] {
        let cfg = config(&["a.js", taken], None);
        match build(
            to_image(None, ContainerBackend::Docker, false),
            CONFIG_TEXT,
            &cfg,
            &no_overrides(),
            &registry(),
            readings_of(&cfg),
        ) {
            Err(BuildError::Archive { path, .. }) => assert_eq!(path, taken),
            other => panic!("expected an archive error, got {:?}", other),
        }
    }
}

#[test]
fn paths_of_a_built_archive_are_unique() {
    let cfg = config(&["a.js", "scripts/a.js", "b.js"], None);
    let output = build(
        to_file("out.tar"),
        CONFIG_TEXT,
        &cfg,
        &no_overrides(),
        &registry(),
        readings_of(&cfg),
    )
    .unwrap();
    let mut names: Vec<String> = listed(&archive_of(output)).into_iter().map(|e| e.0).collect();
    assert_eq!(names.len(), 8);
    names.sort();
    names.dedup();
    assert_eq!(names.len(), 8);
}

#[test]
fn the_first_failed_rendering_is_the_one_reported() {
    let render_error = |name: &str| BuildError::Render {
        template: String::from(name),
        cause: String::from("cause"),
    };
    let ok = |text: &str| Ok(String::from(text));
    assert!(matches!(
        gather(Err(render_error("install.sh")), Err(render_error("entrypoint.sh")), ok("d")),
        Err(BuildError::Render { template, .. }) if template == "install.sh"
    ));
    assert!(matches!(
        gather(ok("i"), Err(render_error("entrypoint.sh")), Err(render_error("dockerfile"))),
        Err(BuildError::Render { template, .. }) if template == "entrypoint.sh"
    ));
    assert!(matches!(
        gather(ok("i"), ok("e"), Err(render_error("dockerfile"))),
        Err(BuildError::Render { template, .. }) if template == "dockerfile"
    ));
    let all = gather(ok("i"), ok("e"), ok("d")).unwrap();
    assert_eq!((all.install.as_str(), all.entrypoint.as_str(), all.dockerfile.as_str()), ("i", "e", "d"));
}

#[test]
fn a_pending_build_waits_for_the_declared_scripts() {
    let cfg = config(&["a.js", "b.js"], None);
    let pending = build_with_output(
        to_file("out.tar"),
        String::from(CONFIG_TEXT),
        cfg.clone(),
        &no_overrides(),
        &registry(),
    )
    .unwrap();
    assert_eq!(pending.script_paths(), &vec![String::from("a.js"), String::from("b.js")]);
    assert!(!pending.is_complete());
    assert!(pending.rendered().dockerfile.contains("basalt-server:0.1.0-scripting"));
    let pending = pending.record(1, Ok(String::from("// b")));
    assert!(!pending.is_complete());
    let pending = pending.record(0, Ok(String::from("// a")));
    assert!(pending.is_complete());
    let entries = listed(&archive_of(pending.finish().unwrap()));
    assert_eq!(entries[5], (String::from("a.js"), b"// a".to_vec()));
    assert_eq!(entries[6], (String::from("b.js"), b"// b".to_vec()));
}

#[test]
fn a_build_that_ends_before_a_reading_fails_and_names_the_script() {
    let cfg = config(&["a.js", "b.js"], None);
    let pending = build_with_output(
        to_file("out.tar"),
        String::from(CONFIG_TEXT),
        cfg,
        &no_overrides(),
        &registry(),
    )
    .unwrap()
    .record(0, Ok(String::from("// a")));
    match pending.finish() {
        Err(BuildError::ScriptCollection { paths, causes }) => {
            assert_eq!(paths, vec!["b.js"]);
            assert_eq!(causes, vec!["the reading has not ended"]);
        }
        other => panic!("expected a collection error, got {:?}", other),
    }
}

#[test]
fn the_fixed_archive_holds_the_five_entries() {
    let rendered = Rendered {
        dockerfile: String::from("FROM x\n"),
        install: String::from("i\n"),
        entrypoint: String::from("e\n"),
    };
    let archive = fixed_archive("c\n", &rendered);
    assert_eq!(archive.len(), 5);
    let entries = listed(&archive.to_bytes());
    assert_eq!(
        entries,
        vec![
            (String::from("config.toml"), b"c\n".to_vec()),
            (String::from("Dockerfile"), b"FROM x\n".to_vec()),
            (String::from(".dockerignore"), b"./Dockerfile\n./.dockerignore".to_vec()),
            (String::from("install.sh"), b"i\n".to_vec()),
            (String::from("entrypoint.sh"), b"e\n".to_vec()),
        ]
    );
}

#[test]
fn rendered_texts_decide_the_archive() {
    let cfg = config(&[], None);
    let rendered = Rendered {
        dockerfile: String::from("FROM x\n"),
        install: String::from(""),
        entrypoint: String::from("exec\n"),
    };
    let output =
        build_from_rendered(to_file("a.tar"), "cfg", &cfg, &rendered, &all_read(&cfg)).unwrap();
    let bytes = archive_of(output);
    assert_eq!(bytes, fixed_archive("cfg", &rendered).to_bytes());
    assert_eq!(bytes.len(), 512 * 5 + 512 * 4 + 1024);
}

#[test]
fn a_name_without_template_does_not_render() {
    let ctx = TemplateContext::build(&config(&[], None), &no_overrides());
    for name in ["Dockerfile", "install", "", "entrypoint.sh "] {
        match registry().render(name, &ctx) {
            Err(BuildError::Render { template, cause }) => {
                assert_eq!(template, name);
                assert!(!cause.is_empty());
            }
            other => panic!("expected a render error, got {:?}", other),
        }
    }
    for name in ["dockerfile", "install.sh", "entrypoint.sh"] {
        assert!(registry().render(name, &ctx).is_ok());
    }
}

use mahayana::cli::install_remote;
use mahayana::json::Json;
use mahayana::json_text::parse;
use mahayana::miniapp_html::{extract_html, inspect_miniapp, remote_script};
use mahayana::path::{file_stem, has_extension, lies_under, path_components, Component, PathStyle};
use mahayana::path_join::join_path;
use mahayana::plugin_dev::{
    check_plugin, check_required_files, check_servers, clone_error, content_files, content_path,
    finish_validation, github_clone_source, init_report, inspect_remote_checkout,
    looks_like_github_source, marketplace_entries, marketplace_report, plan_init, plugin_path,
    plugin_report, plugin_titles, read_marketplace, required_files, resolve_relative,
    update_marketplace, validate_marketplace_entry, CompiledContent, FileName, InitPlan,
    PluginChecks, PluginFacts, RemoteRepository, Servers, SourceKind,
};
use mahayana::plugin_name::normalized_name;
use mahayana::plugin_plan::{
    check_new_file, check_new_plugin, checkout_report, plan_checkout, plan_content,
    plan_validation, ContentFile, ContentListing, Validation,
};
use mahayana::plugin_template::template_files;

fn json(text: &str) -> Json {
    parse(text).expect("json")
}

#[test]
fn extracts_only_complete_html_documents() {
    let source = "说明\n```html\n<!DOCTYPE html><html><body>南无阿弥陀佛</body></html>\n```";
    assert_eq!(
        extract_html(source),
        Some("<!DOCTYPE html><html><body>南无阿弥陀佛</body></html>")
    );
    assert_eq!(extract_html("<html><body>截断"), None);
}

#[test]
fn a_document_reaches_to_the_last_end_of_its_root() {
    assert_eq!(
        extract_html("x <HTML>a</html>b</HTML> <html>"),
        Some("<HTML>a</html>b</HTML>")
    );
    assert_eq!(extract_html("</html><html>"), None);
}

#[test]
fn inspection_accepts_safe_apps_and_rejects_remote_code() {
    let safe_result = inspect_miniapp("<!DOCTYPE html><html><body>安全</body></html>");
    assert_eq!(safe_result.flag_field("passed"), Some(true));
    assert_eq!(safe_result.get("errors"), Some(&json("[]")));

    let unsafe_result = inspect_miniapp(
        "<!DOCTYPE html><html><body><script src='https://example.test/app.js'></script></body></html>",
    );
    assert_eq!(unsafe_result.flag_field("passed"), Some(false));
    assert_eq!(
        unsafe_result.get("errors"),
        Some(&json(r#"["禁止加载外部脚本"]"#))
    );
}

#[test]
fn scripts_of_the_page_itself_are_no_remote_code() {
    assert!(!remote_script("<script>let x = 'https://example.test';</script>"));
    assert!(!remote_script("<script src='app.js'></script>"));
    assert!(remote_script("<SCRIPT SRC=\"HTTP://example.test/a.js\"></SCRIPT>"));
    assert!(!remote_script("<a src='https://example.test'>"));
}

#[test]
fn github_sources_are_told_from_plugins() {
    assert!(looks_like_github_source("https://github.com/owner/repo"));
    assert!(looks_like_github_source("ssh://git@github.com/owner/repo"));
    assert!(looks_like_github_source("git@github.com:owner/repo.git"));
    assert!(looks_like_github_source("owner/repo"));
    assert!(!looks_like_github_source("owner/repo/deep"));
    assert!(!looks_like_github_source("plugin"));
    assert!(!looks_like_github_source("http://example.test/x:y"));
}

#[test]
fn only_plain_github_repositories_are_cloned() {
    assert_eq!(
        github_clone_source("owner/repo").as_deref(),
        Ok("https://github.com/owner/repo")
    );
    assert_eq!(
        github_clone_source("https://github.com/owner/repo.git").as_deref(),
        Ok("https://github.com/owner/repo.git")
    );
    assert_eq!(
        github_clone_source("git@github.com:owner/repo").as_deref(),
        Ok("git@github.com:owner/repo")
    );
    assert_eq!(
        github_clone_source("https://example.test/owner/repo"),
        Err("plugin install accepts GitHub repositories only".to_string())
    );
    assert_eq!(
        github_clone_source("ssh://git@github.com/owner/repo"),
        Err("GitHub source must not embed credentials or query parameters".to_string())
    );
    assert_eq!(
        github_clone_source("https://github.com/owner/repo?x=1"),
        Err("GitHub source must not embed credentials or query parameters".to_string())
    );
    assert_eq!(
        github_clone_source("plugin"),
        Err("plugin install requires an HTTPS or SSH GitHub repository URL".to_string())
    );
    assert_eq!(
        clone_error(" fatal: gone \n"),
        "failed to clone plugin repository: fatal: gone"
    );
}

#[test]
fn a_repository_lists_what_can_be_installed() {
    let marketplace = r#"{"name": "shop", "plugins": [
        {"name": "a"}, {"name": "b", "policy": {"installation": "NOT_AVAILABLE"}}, {}, {"name": "c"}
    ]}"#;
    assert_eq!(
        inspect_remote_checkout(marketplace, &json(r#"{"plugins": [{"localServers": []}]}"#)),
        Ok(RemoteRepository {
            marketplace: "shop".into(),
            plugins: vec!["a".into(), "c".into()],
            has_local_runtimes: false,
        })
    );
    assert!(
        inspect_remote_checkout(
            marketplace,
            &json(r#"{"plugins": [{"localServers": []}, {"localServers": ["x"]}]}"#)
        )
        .expect("repository")
        .has_local_runtimes
    );
    assert_eq!(
        inspect_remote_checkout(r#"{"name": " "}"#, &Json::Null),
        Err("marketplace name is required".to_string())
    );
    assert_eq!(
        inspect_remote_checkout(r#"{"name": "shop"}"#, &Json::Null),
        Err("repository marketplace has no installable plugins".to_string())
    );
    assert_eq!(
        inspect_remote_checkout("", &Json::Null),
        Err("EOF while parsing a value at line 1 column 0".to_string())
    );
}

#[test]
fn names_are_normalized() {
    assert_eq!(normalized_name("  My  Plugin!! 2 ").as_deref(), Ok("my-plugin-2"));
    assert_eq!(normalized_name("\u{212A}elvin").as_deref(), Ok("kelvin"));
    assert_eq!(normalized_name("ÉTUDE").as_deref(), Ok("tude"));
    assert_eq!(normalized_name("İx").as_deref(), Ok("i-x"));
    let once = normalized_name("a--B_c").expect("name");
    assert_eq!(once, "a-b-c");
    assert_eq!(normalized_name(&once), Ok(once.clone()));
    let error =
        "plugin name must normalize to 1-64 kebab-case characters starting with a letter";
    for name in ["", "九", "9lives", "-"] {
        assert_eq!(normalized_name(name), Err(error.to_string()));
    }
    assert!(normalized_name(&"a".repeat(64)).is_ok());
    assert!(normalized_name(&"a".repeat(65)).is_err());
}

#[test]
fn marketplace_entries_are_checked_in_order() {
    let entry = |name: &str, source: &str, policy: &str, rest: &str| {
        json(&format!(
            r#"{{"name": "{name}", "source": {source}, "policy": {policy}{rest}}}"#
        ))
    };
    let source = r#"{"source": "local", "path": "./plugins/a"}"#;
    let policy = r#"{"installation": "AVAILABLE", "authentication": "ON_USE"}"#;
    let category = r#", "category": "Productivity""#;
    assert_eq!(
        validate_marketplace_entry(&entry("a", source, policy, category)).as_deref(),
        Ok("./plugins/a")
    );
    let refused = |value: Json, message: &str| {
        assert_eq!(validate_marketplace_entry(&value), Err(message.to_string()));
    };
    refused(
        entry("A b", source, policy, category),
        "marketplace plugin name is not normalized: A b",
    );
    refused(
        entry("a", r#"{"source": "git"}"#, "{}", ""),
        "marketplace plugin a must use local source",
    );
    refused(
        entry("a", source, r#"{"installation": "SOMETIMES"}"#, ""),
        "marketplace plugin a has invalid installation policy",
    );
    refused(
        entry("a", source, r#"{"installation": "AVAILABLE"}"#, ""),
        "marketplace plugin a has invalid authentication policy",
    );
    refused(
        entry("a", source, policy, ""),
        "marketplace plugin a requires category",
    );
    refused(
        entry("a", r#"{"source": "local"}"#, policy, category),
        "marketplace plugin a requires source.path",
    );
    refused(
        Json::Null,
        "plugin name must normalize to 1-64 kebab-case characters starting with a letter",
    );
}

#[test]
fn plugin_paths_stay_inside_the_repository() {
    assert_eq!(
        resolve_relative(PathStyle::Posix, "/repo", "./plugins/a").as_deref(),
        Ok("/repo/./plugins/a")
    );
    assert_eq!(
        resolve_relative(PathStyle::Posix, "/repo", "plugins/a"),
        Err("plugin path must start with ./: plugins/a".to_string())
    );
    assert_eq!(
        resolve_relative(PathStyle::Posix, "/repo", "./../x"),
        Err("plugin path escapes marketplace root: ./../x".to_string())
    );
    let windows = |relative| resolve_relative(PathStyle::Windows, r"C:\repo", relative);
    assert_eq!(windows("./plugins/a").as_deref(), Ok(r"C:\repo\./plugins/a"));
    assert_eq!(
        windows(r"./a\..\..\b"),
        Err(r"plugin path escapes marketplace root: ./a\..\..\b".to_string())
    );
    let added = parse(&update_marketplace(None, "a").expect("text")).expect("json");
    let entries = marketplace_entries(&added).expect("entries");
    assert_eq!(
        plugin_path(PathStyle::Posix, "/repo", &entries[0]).as_deref(),
        Ok("/repo/./plugins/a")
    );
    assert_eq!(
        marketplace_entries(&Json::Null),
        Err("marketplace plugins must be an array".to_string())
    );
    assert_eq!(
        marketplace_report(&added, vec![Json::Bool(true)]),
        json(r#"{"valid": true, "marketplace": "mahayana-repository", "plugins": [true]}"#)
    );
}

#[test]
fn a_plugin_is_added_once() {
    let first = update_marketplace(None, "a").expect("text");
    assert_eq!(
        parse(&first),
        Ok(json(
            r#"{"name": "mahayana-repository", "interface": {"displayName": "大乘仓库插件"},
                "plugins": [{"name": "a", "source": {"source": "local", "path": "./plugins/a"},
                    "policy": {"installation": "AVAILABLE", "authentication": "ON_INSTALL"},
                    "category": "Productivity"}]}"#
        ))
    );
    assert!(first.ends_with("}\n"));
    assert_eq!(
        update_marketplace(Some(first.clone()), "a"),
        Err("marketplace already contains plugin a".to_string())
    );
    for number in ["0.1", "1e300", "1.7976931348623157e308", "-5e-324"] {
        let before = format!(r#"{{"n": {number}, "plugins": []}}"#);
        let after = update_marketplace(Some(before), "a");
        assert_eq!(
            update_marketplace(Some(after.expect("text")), "a"),
            Err("marketplace already contains plugin a".to_string())
        );
    }
    let deep = format!(
        r#"{{"n": {}1{}, "plugins": []}}"#,
        "[".repeat(126),
        "]".repeat(126)
    );
    let after = update_marketplace(Some(deep), "a");
    assert_eq!(
        update_marketplace(Some(after.expect("text")), "a"),
        Err("marketplace already contains plugin a".to_string())
    );
    let second = parse(&update_marketplace(Some(first), "b").expect("text")).expect("json");
    assert_eq!(marketplace_entries(&second).expect("entries").len(), 2);
    assert_eq!(
        update_marketplace(Some("{}".into()), "a"),
        Err("marketplace plugins must be an array".to_string())
    );
    assert_eq!(
        update_marketplace(Some("{".into()), "a"),
        Err(
            "invalid existing marketplace: EOF while parsing an object at line 1 column 1"
                .to_string()
        )
    );
}

#[test]
fn servers_are_remote_over_https_or_local() {
    let servers = |text: &str| check_servers(&json(&format!(r#"{{"mcpServers": {text}}}"#)));
    assert_eq!(
        servers(
            r#"{"z": {"url": "https://example.test/mcp"}, "l": {"command": "x"},
                "a": {"url": "https://example.test", "command": "x"}}"#
        ),
        Ok(Servers {
            remote: vec!["a".into(), "z".into()],
            local: vec!["l".into()],
        })
    );
    let refused = |text: &str, message: &str| {
        assert_eq!(servers(text), Err(message.to_string()));
    };
    refused("[]", ".mcp.json requires mcpServers");
    refused("{}", ".mcp.json requires at least one server");
    refused(r#"{"a": {}}"#, "MCP server a requires url or command");
    refused(
        r#"{"a": {"url": "/mcp"}}"#,
        "MCP server a URL is invalid: relative URL without a base",
    );
    refused(
        r#"{"a": {"url": "http://example.test"}}"#,
        "MCP server a must use an absolute HTTPS URL",
    );
    refused(
        r#"{"a": {"url": "https://me:pw@example.test"}}"#,
        "MCP server a URL must not embed credentials",
    );
}

#[test]
fn content_is_found_by_folder_and_name() {
    let names = ["b.md", "a.md", "c.txt", ".md", "d.md.bak"]
        .into_iter()
        .map(|name| FileName(name.into()))
        .collect();
    assert_eq!(content_files(names), vec!["a.md", "b.md"]);
    assert_eq!(content_path("tips", "a.md"), "content/tips/a.md");
    assert_eq!(
        plugin_titles(&json(r#"{"version": "1.2.3"}"#), "name"),
        ("1.2.3".to_string(), "name".to_string())
    );
    assert_eq!(
        plugin_titles(&json(r#"{"interface": {"displayName": "题"}}"#), "name"),
        ("0.0.0".to_string(), "题".to_string())
    );
}

#[test]
fn a_plugin_needs_its_files() {
    assert_eq!(check_required_files(&vec![true; 5]), Ok(()));
    assert_eq!(
        check_required_files(&vec![true, false, false, true, true]),
        Err("plugin is missing required template file worker/src/index.ts".to_string())
    );
    assert_eq!(
        check_required_files(&Vec::new()),
        Err("plugin is missing required template file wrangler.toml".to_string())
    );
}

#[test]
fn a_report_says_what_was_checked() {
    let report = plugin_report(
        &PluginFacts {
            name: "a".into(),
            has_extension: true,
            home_schema: "s".into(),
            content_revision: "r".into(),
            feed_items: 2,
            resources: 1,
        },
        &Servers {
            remote: vec!["x".into()],
            local: Vec::new(),
        },
    );
    assert_eq!(
        report,
        json(
            r#"{"valid": true, "plugin": "a", "mahayanaExtension": true, "homeSchema": "s",
                "contentRevision": "r", "feedItems": 2, "resources": 1, "remoteServers": ["x"],
                "localServers": [], "localExecutionRequiresSeparateApproval": false,
                "checks": ["manifest", "content", "mcp-config", "https", "cloudflare",
                    "contract-test"]}"#
        )
    );
}

#[test]
fn a_plugin_is_validated_in_order() {
    let mcp = || Ok(r#"{"mcpServers": {"l": {"command": "x"}}}"#.to_string());
    let manifest = || Ok(r#"{"version": "2.0.0"}"#.to_string());
    let checks = PluginChecks {
        servers: Servers {
            remote: Vec::new(),
            local: vec!["l".into()],
        },
        version: "2.0.0".into(),
        title: "a".into(),
    };
    assert_eq!(
        check_plugin("a", "p/.mcp.json", Err("gone".into()), Err("lost".into())),
        Err("failed to read p/.mcp.json: gone".to_string())
    );
    assert_eq!(
        check_plugin("a", "p", Ok("[".into()), Err("lost".into())),
        Err("invalid .mcp.json: EOF while parsing a list at line 1 column 1".to_string())
    );
    assert_eq!(
        check_plugin("a", "p", Ok("{}".into()), Err("lost".into())),
        Err(".mcp.json requires mcpServers".to_string())
    );
    assert_eq!(
        check_plugin("a", "p", mcp(), Err("lost".into())),
        Err("lost".to_string())
    );
    assert_eq!(check_plugin("a", "p", mcp(), manifest()).as_ref(), Ok(&checks));
    let content = || CompiledContent {
        home_schema: "s".into(),
        revision: "r".into(),
        feed_items: 0,
        resources: 0,
    };
    assert_eq!(
        finish_validation("a".into(), false, &checks, Err("broken".into()), &Vec::new()),
        Err("broken".to_string())
    );
    assert_eq!(
        finish_validation("a".into(), false, &checks, Ok(content()), &Vec::new()),
        Err("plugin is missing required template file wrangler.toml".to_string())
    );
    let report = finish_validation("a".into(), false, &checks, Ok(content()), &vec![true; 5])
        .expect("report");
    assert_eq!(report.text_field("contentRevision"), Some("r"));
    assert_eq!(
        report.flag_field("localExecutionRequiresSeparateApproval"),
        Some(true)
    );
}

#[test]
fn a_directory_is_a_plugin_or_a_marketplace() {
    assert_eq!(
        read_marketplace("dir", Err("no file".into())),
        Err("dir is neither a plugin nor a repository marketplace: no file".to_string())
    );
    assert_eq!(
        read_marketplace("dir", Ok("{".into())),
        Err("invalid marketplace: EOF while parsing an object at line 1 column 1".to_string())
    );
    assert_eq!(read_marketplace("dir", Ok("{}".into())), Ok(json("{}")));
}

#[test]
fn a_new_plugin_is_complete() {
    assert_eq!(
        plan_init(" My App ", Some(" ")),
        Ok(InitPlan {
            name: "my-app".into(),
            title: "My App".into()
        })
    );
    assert_eq!(
        plan_init("my-app", Some(" 题 ")).expect("plan").title,
        "题"
    );
    let files = template_files("my-app", "题");
    for path in required_files() {
        assert!(files.contains(&path), "{path}");
    }
    let text = |path: &str| files.get(path).expect("file").clone();
    assert!(text("worker/src/index.ts").contains("serverInfo: { name: 'my-app'"));
    assert!(!text("worker/src/index.ts").contains("__PLUGIN_NAME__"));
    assert_eq!(
        text("wrangler.toml"),
        "name = \"my-app-mcp\"\nmain = \"worker/src/index.ts\"\ncompatibility_date = \"2026-07-19\"\n"
    );
    let mcp = parse(&text(".mcp.json")).expect("json");
    assert_eq!(check_servers(&mcp).expect("servers").remote.len(), 1);
    let (version, title) = plugin_titles(
        &parse(&text(".codex-plugin/plugin.json")).expect("json"),
        "my-app",
    );
    assert_eq!((version.as_str(), title.as_str()), ("0.1.0", "题"));
    assert_eq!(
        init_report("my-app", "p", "m", &vec!["f".into()], Json::Null),
        json(
            r#"{"created": true, "plugin": "my-app", "pluginRoot": "p", "marketplace": "m",
                "files": ["f"], "validation": null}"#
        )
    );
}

#[test]
fn paths_are_taken_apart() {
    let posix = PathStyle::Posix;
    assert_eq!(join_path(posix, "/a", "b"), "/a/b");
    assert_eq!(join_path(posix, "/a/", "b"), "/a/b");
    assert_eq!(join_path(posix, "/a", "/b"), "/b");
    assert_eq!(join_path(posix, "", "b"), "b");
    assert!(lies_under(posix, "/a/b", "/a"));
    assert!(!lies_under(posix, "/ab", "/a"));
    assert_eq!(file_stem(posix, "/bin/official.tar.gz").as_deref(), Some("official.tar"));
    assert_eq!(file_stem(posix, "/").as_deref(), None);
    assert_eq!(file_stem(posix, "..").as_deref(), None);
    assert_eq!(file_stem(posix, ".hidden").as_deref(), Some(".hidden"));
    assert!(has_extension("a.md", "md"));
    assert!(!has_extension(".md", "md"));
    let name = |text: &str| Component::Name(text.into());
    assert_eq!(
        path_components(posix, "./a//../b/."),
        vec![Component::Here, name("a"), Component::Up, name("b")]
    );
    assert_eq!(path_components(posix, "/"), vec![Component::Root]);
}

#[test]
fn windows_paths_are_taken_apart() {
    let windows = PathStyle::Windows;
    let name = |text: &str| Component::Name(text.into());
    let prefix = |text: &str| Component::Prefix(text.into());
    let verbatim = |text: &str| Component::Verbatim(text.into());
    let parts = |path| path_components(windows, path);
    assert_eq!(
        parts(r"c:\a/b\..\."),
        vec![prefix("C:"), Component::Root, name("a"), name("b"), Component::Up]
    );
    assert_eq!(parts(r"C:a"), vec![prefix("C:"), name("a")]);
    assert_eq!(
        parts(r"\\srv/share\a"),
        vec![prefix(r"\\srv\share"), Component::Root, name("a")]
    );
    assert_eq!(parts(r"\\srv"), vec![Component::Root, name("srv")]);
    assert_eq!(parts(r"\\.\COM1"), vec![prefix(r"\\.\COM1"), Component::Root]);
    assert_eq!(
        parts(r"\\?\C:\a/b\."),
        vec![verbatim(r"\\?\C:"), Component::Root, name("a/b"), Component::Here]
    );
    assert_eq!(
        parts(r"\\?\c:/a/b\c"),
        vec![verbatim(r"\\?\C:"), Component::Root, name("a/b"), name("c")]
    );
    assert_eq!(parts(r"\\?\C:a/b"), vec![verbatim(r"\\?\C:a/b")]);
    for path in [r"\\?\UNC\srv\share\a", r"\\?\UNC/srv\share\a"] {
        assert_eq!(
            parts(path),
            vec![verbatim(r"\\?\UNC\srv\share"), Component::Root, name("a")]
        );
    }
    assert_eq!(
        parts("//?/C:/a"),
        vec![prefix(r"\\?\C:"), Component::Root, name("a")]
    );
    assert!(!lies_under(windows, "//?/C:/a", r"\\?\C:\"));
    assert_eq!(file_stem(windows, r"\\?\C:/beta.exe").as_deref(), Some("beta"));
    assert_eq!(join_path(windows, r"\\?\C:/a", "b"), r"\\?\C:\a\b");
    assert_eq!(
        join_path(windows, r"\\?\UNC/srv\share\a", "./b"),
        r"\\?\UNC/srv\share\a\b"
    );
    assert_eq!(parts("./a"), vec![Component::Here, name("a")]);
    assert_eq!(file_stem(windows, r"C:\bin\beta.exe").as_deref(), Some("beta"));
    assert_eq!(file_stem(windows, r"C:\"), None);
    assert_eq!(join_path(windows, r"C:\a", "b"), r"C:\a\b");
    assert_eq!(join_path(windows, r"C:\a\", "./b"), r"C:\a\./b");
    assert_eq!(join_path(windows, "C:", "b"), "C:b");
    assert_eq!(join_path(windows, r"\\?\C:\a\", "./b/c"), r"\\?\C:\a\b\c");
    assert!(lies_under(windows, r"c:\a\b", "C:/a"));
    assert!(!lies_under(windows, r"C:\ab", r"C:\a"));
}

#[test]
fn a_local_runtime_at_the_root_needs_permission() {
    let marketplace = r#"{"name": "shop", "plugins": [{"name": "a"}]}"#;
    let facts = PluginFacts {
        name: "root".into(),
        has_extension: false,
        home_schema: "h".into(),
        content_revision: "r".into(),
        feed_items: 0,
        resources: 0,
    };
    let report = |local: Vec<String>| {
        plugin_report(
            &facts,
            &Servers {
                remote: Vec::new(),
                local,
            },
        )
    };
    let remote = inspect_remote_checkout(marketplace, &report(vec!["x".into()])).expect("offer");
    assert!(remote.has_local_runtimes);
    assert!(install_remote(&remote, "o/r", false, false).is_err());
    assert!(install_remote(&remote, "o/r", false, true).is_ok());
    let remote = inspect_remote_checkout(marketplace, &report(Vec::new())).expect("offer");
    assert!(!remote.has_local_runtimes);

    let listed = vec![report(Vec::new()), report(vec!["x".into()])];
    let whole = checkout_report(true, report(Vec::new()), listed);
    assert_eq!(whole.text_field("plugin"), Some("root"));
    assert!(
        inspect_remote_checkout(marketplace, &whole)
            .expect("offer")
            .has_local_runtimes
    );
    assert_eq!(
        checkout_report(false, report(Vec::new()), vec![Json::Null]),
        report(Vec::new())
    );
}

#[test]
fn every_listed_plugin_is_validated() {
    let source = update_marketplace(None, "a").expect("text");
    let listing = parse(&source).expect("json");
    let places = vec![Ok("/repo/./plugins/a".to_string())];
    let plan = |is_plugin, source| plan_validation(PathStyle::Posix, "/repo", is_plugin, source);
    assert_eq!(plan(true, Err("gone".into())), Ok(Validation::Plugin));
    assert_eq!(
        plan(false, Ok(source.clone())),
        Ok(Validation::Marketplace {
            marketplace: listing,
            places: vec![Ok("/repo/./plugins/a".to_string())],
        })
    );
    assert_eq!(
        plan(false, Err("gone".into())),
        Err("/repo is neither a plugin nor a repository marketplace: gone".to_string())
    );
    assert_eq!(
        plan(false, Ok("{}".into())),
        Err("marketplace plugins must be an array".to_string())
    );
    let checkout = |is_plugin| plan_checkout(PathStyle::Posix, "/repo", is_plugin, &source);
    assert_eq!(checkout(true), Ok(places));
    assert_eq!(checkout(false), Ok(Vec::new()));
    assert_eq!(
        plan_checkout(PathStyle::Posix, "/repo", true, ""),
        Err("EOF while parsing a value at line 1 column 0".to_string())
    );
}

#[test]
fn nothing_is_overwritten() {
    assert_eq!(check_new_plugin("p", false), Ok(()));
    assert_eq!(
        check_new_plugin("p", true),
        Err("refusing to overwrite existing plugin directory p".to_string())
    );
    assert_eq!(check_new_file("f", false), Ok(()));
    assert_eq!(
        check_new_file("f", true),
        Err("refusing to overwrite f".to_string())
    );
}

#[test]
fn content_is_compiled_in_its_order() {
    let names = |names: &[&str]| -> Vec<FileName> {
        names.iter().map(|name| FileName(name.to_string())).collect()
    };
    let file = |kind, path: &str| ContentFile {
        kind,
        path: path.into(),
    };
    assert_eq!(
        plan_content(ContentListing {
            has_welcome: true,
            tips: names(&["b.md", "a.md", "a.txt"]),
            announcements: names(&["n.md"]),
            articles: names(&["z.md"]),
        }),
        vec![
            file(SourceKind::Welcome, "content/welcome.md"),
            file(SourceKind::Tip, "content/tips/a.md"),
            file(SourceKind::Tip, "content/tips/b.md"),
            file(SourceKind::Announcement, "content/announcements/n.md"),
            file(SourceKind::Article, "content/articles/z.md"),
        ]
    );
    assert_eq!(
        plan_content(ContentListing {
            has_welcome: false,
            tips: Vec::new(),
            announcements: Vec::new(),
            articles: Vec::new(),
        }),
        Vec::new()
    );
}

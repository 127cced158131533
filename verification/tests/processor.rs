use bargo::aggregate::in_cluster_destination;
use bargo::app_project::AppProjectClusterResourceWhitelist;
use bargo::config::{Args, Config, ConfigTarget, Metadata, MetadataProjectOptions, MetadataTarget};
use bargo::context::{template_context_for_dir, TemplateContext};
use bargo::document::{Node, Object};
use bargo::engine::{nindent_for_engine, yaml_encode_for_engine, RenderFailure};
use bargo::error::{ErrorKind, ProcessError};
use bargo::output::project_file;
use bargo::processor::{render_error, Deployment, Planned, ProjectProcessor, Step};

const TEMPLATE: &str = "name: {{ normalized_app_name }}\nproject: {{ normalized_project }}\nnamespace: {{ namespace }}\ntarget: {{ target_name }}";

fn text(s: &str) -> Node {
    Node::String(s.to_string())
}

fn number(n: u64) -> Node {
    Node::Number(serde_json::Number::from(n))
}

fn table(entries: Vec<(&str, Node)>) -> Node {
    let mut object = Object::new();
    for (key, value) in entries {
        object.insert(key.to_string(), value);
    }
    Node::Object(object)
}

fn lookup<'a>(v: &'a Node, key: &str) -> Option<&'a Node> {
    match v {
        Node::Object(object) => object.get(&key.to_string()),
        _ => None,
    }
}

fn string_at(v: &Node, key: &str) -> String {
    match lookup(v, key) {
        Some(Node::String(s)) => s.clone(),
        other => panic!("no string under {}: {:?}", key, other),
    }
}

fn config(targets: Vec<&str>) -> Config {
    Config {
        application_template: "application.yaml.tera".to_string(),
        argocd_namespace: "argocd".to_string(),
        argocd_source_repo: "https://git.example/repo.git".to_string(),
        targets: targets.into_iter().map(|t| ConfigTarget { name: t.to_string() }).collect(),
        vars: None,
        default_application_options: None,
    }
}

fn metadata(targets: Vec<&str>) -> Metadata {
    Metadata {
        namespace: None,
        script: None,
        application_options: None,
        targets: targets.into_iter().map(|t| MetadataTarget { name: t.to_string(), vars: None }).collect(),
        project_options: None,
    }
}

fn engine(templates: Vec<(&str, &str)>) -> tera::Tera {
    let mut engine = tera::Tera::default();
    engine.add_raw_templates(templates).unwrap();
    engine
}

fn processor_with(cfg: Config, template: &str) -> ProjectProcessor {
    ProjectProcessor::new(cfg, "application.yaml.tera".to_string(), engine(vec![("application.yaml.tera", template)]))
}

fn renderer(templates: Vec<(&str, &str)>) -> ProjectProcessor {
    ProjectProcessor::new(config(vec![]), "application.yaml.tera".to_string(), engine(templates))
}

fn processor(targets: Vec<&str>) -> ProjectProcessor {
    processor_with(config(targets), TEMPLATE)
}

fn deploy(p: &mut ProjectProcessor, project: &str, app: &str, m: &Metadata, index: usize) -> Deployment {
    let dir = format!("/in/{}/{}", project, app);
    match p.process(&dir, Some(project.to_string()), Some(app.to_string()), m, &m.targets[index]) {
        Ok(Step::Deploy(d)) => d,
        other => panic!("not deployed: {:?}", other),
    }
}

#[test]
fn args_default_input_is_the_current_directory() {
    assert_eq!(Args { input_path: None, output_path: None }.input_root(), ".");
    assert_eq!(Args { input_path: Some("/x".to_string()), output_path: None }.input_root(), "/x");
}

#[test]
fn context_follows_folder_layout() {
    let m = metadata(vec!["prod"]);
    let c = template_context_for_dir("/in/My Shop/Api_1", Some("My Shop".to_string()), Some("Api_1".to_string()), "prod", &m)
        .unwrap();
    assert_eq!(
        c,
        TemplateContext {
            namespace: "my-shop".to_string(),
            project: "My Shop".to_string(),
            app_name: "Api_1".to_string(),
            normalized_project: "my-shop".to_string(),
            normalized_app_name: "api-1".to_string(),
            path: "prod/My Shop/Api_1".to_string(),
            target_name: "prod".to_string(),
        }
    );
    assert_eq!(c.duplicate(), c);
}

#[test]
fn context_takes_namespace_from_metadata() {
    let mut m = metadata(vec!["prod"]);
    m.namespace = Some("Custom_NS".to_string());
    let c = template_context_for_dir("d", Some("shop".to_string()), Some("api".to_string()), "prod", &m).unwrap();
    assert_eq!(c.namespace, "Custom_NS");
    assert_eq!(c.normalized_project, "shop");
}

#[test]
fn context_needs_project_and_application() {
    let m = metadata(vec!["prod"]);
    let e = template_context_for_dir("/", None, None, "prod", &m).unwrap_err();
    assert_eq!(e, ProcessError::LayoutError { path: "/".to_string() });
    let e = template_context_for_dir("/api", None, Some("api".to_string()), "prod", &m).unwrap_err();
    assert_eq!(e.kind(), ErrorKind::Layout);
    let e = template_context_for_dir("x", Some("p".to_string()), None, "prod", &m).unwrap_err();
    assert_eq!(e, ProcessError::LayoutError { path: "x".to_string() });
}

#[test]
fn context_document_has_one_text_per_field() {
    let m = metadata(vec!["prod"]);
    let c = template_context_for_dir("d", Some("Shop".to_string()), Some("Api".to_string()), "prod", &m).unwrap();
    let v = c.to_document();
    match &v {
        Node::Object(object) => assert_eq!(object.len(), 7),
        other => panic!("{:?}", other),
    }
    assert_eq!(string_at(&v, "namespace"), "shop");
    assert_eq!(string_at(&v, "project"), "Shop");
    assert_eq!(string_at(&v, "app_name"), "Api");
    assert_eq!(string_at(&v, "normalized_project"), "shop");
    assert_eq!(string_at(&v, "normalized_app_name"), "api");
    assert_eq!(string_at(&v, "path"), "prod/Shop/Api");
    assert_eq!(string_at(&v, "target_name"), "prod");
}

#[test]
fn new_registers_every_configured_target_once() {
    let p = processor(vec!["prod", "staging", "prod"]);
    assert!(p.has_target(&"prod".to_string()));
    assert!(p.has_target(&"staging".to_string()));
    assert!(!p.has_target(&"dev".to_string()));
    assert!(!p.has_failed());
    assert_eq!(p.finish().unwrap().len(), 0);
    assert_eq!(p.configuration().argocd_namespace, "argocd");
}

#[test]
fn scenario_one_target_one_project_one_application() {
    let mut p = processor(vec!["prod"]);
    let m = metadata(vec!["prod"]);
    let d = deploy(&mut p, "shop", "api", &m, 0);
    assert_eq!(d.context.path, "prod/shop/api");
    assert_eq!(d.manifest, "name: api\nproject: shop\nnamespace: shop\ntarget: prod");
    assert!(d.script.is_none());
    let files = p.finish().unwrap();
    assert_eq!(files.len(), 1);
    let file = &files[0];
    assert_eq!(file.target, "prod");
    assert_eq!(file.path, "prod/argocd-config/shop.yaml");
    let project = &file.aggregate.project;
    assert_eq!(project.api_version, "argoproj.io/v1alpha1");
    assert_eq!(project.kind, "AppProject");
    assert_eq!(project.metadata.name, "shop");
    assert_eq!(project.metadata.namespace, "argocd");
    assert_eq!(project.spec.source_repos.len(), 1);
    assert_eq!(project.spec.source_repos.get(0), "https://git.example/repo.git");
    assert_eq!(project.spec.destinations.len(), 1);
    assert_eq!(*project.spec.destinations.get(0), in_cluster_destination("shop".to_string()));
    assert_eq!(project.spec.cluster_resource_whitelist.len(), 1);
    assert_eq!(
        *project.spec.cluster_resource_whitelist.get(0),
        AppProjectClusterResourceWhitelist { group: "".to_string(), kind: "Namespace".to_string() }
    );
    assert_eq!(file.aggregate.applications, vec![d.manifest.clone()]);
    assert_eq!(
        project_file("kind: AppProject\n", &file.aggregate.applications),
        "kind: AppProject\n\n---\nname: api\nproject: shop\nnamespace: shop\ntarget: prod"
    );
}

#[test]
fn scenario_namespace_override_is_the_destination() {
    let mut p = processor(vec!["prod"]);
    let mut m = metadata(vec!["prod"]);
    m.namespace = Some("payments".to_string());
    let d = deploy(&mut p, "shop", "api", &m, 0);
    assert_eq!(d.manifest, "name: api\nproject: shop\nnamespace: payments\ntarget: prod");
    let files = p.finish().unwrap();
    assert_eq!(*files[0].aggregate.project.spec.destinations.get(0), in_cluster_destination("payments".to_string()));
}

#[test]
fn scenario_unconfigured_target_is_skipped() {
    let mut p = processor(vec!["prod"]);
    let m = metadata(vec!["staging2", "prod"]);
    let step = p.process("/in/shop/api", Some("shop".to_string()), Some("api".to_string()), &m, &m.targets[0]).unwrap();
    assert!(matches!(step, Step::Skipped));
    assert!(!p.has_failed());
    assert_eq!(p.finish().unwrap().len(), 0);
    deploy(&mut p, "shop", "api", &m, 1);
    let files = p.finish().unwrap();
    assert_eq!(files.len(), 1);
    assert_eq!(files[0].target, "prod");
    assert_eq!(files[0].aggregate.applications.len(), 1);
}

#[test]
fn scenario_additional_namespaces_add_two_destinations() {
    let mut p = processor(vec!["prod"]);
    let plain = metadata(vec!["prod"]);
    let mut extra = metadata(vec!["prod"]);
    extra.project_options = Some(MetadataProjectOptions {
        additional_namespaces: Some(vec!["ns1".to_string(), "ns2".to_string()]),
        cluster_resource_whitelist: None,
    });
    deploy(&mut p, "shop", "api", &plain, 0);
    assert_eq!(p.aggregate(&"prod".to_string(), &"shop".to_string()).unwrap().project.spec.destinations.len(), 1);
    deploy(&mut p, "shop", "web", &extra, 0);
    assert_eq!(p.aggregate(&"prod".to_string(), &"shop".to_string()).unwrap().project.spec.destinations.len(), 3);
    deploy(&mut p, "shop", "db", &plain, 0);
    deploy(&mut p, "shop", "web", &extra, 0);
    let files = p.finish().unwrap();
    assert_eq!(files.len(), 1);
    let spec = &files[0].aggregate.project.spec;
    assert_eq!(spec.destinations.len(), 3);
    assert!(spec.destinations.contains(&in_cluster_destination("shop".to_string())));
    assert!(spec.destinations.contains(&in_cluster_destination("ns1".to_string())));
    assert!(spec.destinations.contains(&in_cluster_destination("ns2".to_string())));
    assert_eq!(spec.cluster_resource_whitelist.len(), 1);
    assert_eq!(spec.source_repos.len(), 1);
    assert_eq!(files[0].aggregate.applications.len(), 4);
}

#[test]
fn scenario_failed_hook_ends_the_pass() {
    let mut p = processor(vec!["prod"]);
    let mut m = metadata(vec!["prod"]);
    m.script = Some("exit 1".to_string());
    let d = deploy(&mut p, "shop", "api", &m, 0);
    assert_eq!(d.script, Some("exit 1".to_string()));
    let e = p.hook_finished(false, b"boom".to_vec()).unwrap_err();
    assert_eq!(e, ProcessError::HookError { output: b"boom".to_vec() });
    assert_eq!(e.kind(), ErrorKind::Hook);
    assert_eq!(e.message(), "script exited with a non zero status");
    assert!(p.has_failed());
    let next = metadata(vec!["prod"]);
    let again = p.process("/in/shop/web", Some("shop".to_string()), Some("web".to_string()), &next, &next.targets[0]);
    assert_eq!(again.unwrap_err(), ProcessError::HookError { output: b"boom".to_vec() });
    let planned = p.prepare("/in/shop/web", Some("shop".to_string()), Some("web".to_string()), &next, &next.targets[0]);
    assert_eq!(planned.unwrap_err().kind(), ErrorKind::Hook);
    assert_eq!(p.record_manifest(&d.context, Ok("x".to_string())).unwrap_err().kind(), ErrorKind::Hook);
    assert_eq!(p.render_file("application.yaml.tera", "api", &d.vars).unwrap_err().kind(), ErrorKind::Hook);
    assert_eq!(p.hook_finished(true, Vec::new()).unwrap_err().kind(), ErrorKind::Hook);
    assert_eq!(p.finish().unwrap_err(), ProcessError::HookError { output: b"boom".to_vec() });
    assert_eq!(p.aggregate(&"prod".to_string(), &"shop".to_string()).unwrap().applications.len(), 1);
}

#[test]
fn successful_hook_changes_nothing() {
    let mut p = processor(vec!["prod"]);
    assert!(p.hook_finished(true, b"ok".to_vec()).is_ok());
    assert!(!p.has_failed());
}

#[test]
fn manifests_keep_the_order_of_discovery() {
    let mut p = processor_with(config(vec!["prod", "dev"]), "{{ app_name }}@{{ target_name }}");
    let m = metadata(vec!["prod", "dev"]);
    for app in ["A", "B", "C"] {
        for index in 0..2 {
            deploy(&mut p, "shop", app, &m, index);
        }
    }
    let prod = p.aggregate(&"prod".to_string(), &"shop".to_string()).unwrap();
    assert_eq!(prod.applications, vec!["A@prod".to_string(), "B@prod".to_string(), "C@prod".to_string()]);
    assert_eq!(project_file("P", &prod.applications), "P\n---\nA@prod\n---\nB@prod\n---\nC@prod");
    let dev = p.aggregate(&"dev".to_string(), &"shop".to_string()).unwrap();
    assert_eq!(dev.applications, vec!["A@dev".to_string(), "B@dev".to_string(), "C@dev".to_string()]);
}

#[test]
fn finish_lists_one_file_for_each_project_of_each_target() {
    let mut p = processor(vec!["prod", "dev"]);
    let both = metadata(vec!["prod", "dev"]);
    let one = metadata(vec!["dev"]);
    deploy(&mut p, "shop", "api", &both, 0);
    deploy(&mut p, "shop", "api", &both, 1);
    deploy(&mut p, "Billing Dept", "ledger", &one, 0);
    deploy(&mut p, "shop", "web", &both, 0);
    let mut got: Vec<(String, String, usize)> = p
        .finish()
        .unwrap()
        .into_iter()
        .map(|f| (f.target, f.path, f.aggregate.applications.len()))
        .collect();
    got.sort();
    assert_eq!(
        got,
        vec![
            ("dev".to_string(), "dev/argocd-config/billing-dept.yaml".to_string(), 1),
            ("dev".to_string(), "dev/argocd-config/shop.yaml".to_string(), 1),
            ("prod".to_string(), "prod/argocd-config/shop.yaml".to_string(), 2),
        ]
    );
    assert!(p.aggregate(&"prod".to_string(), &"billing-dept".to_string()).is_none());
    assert!(p.aggregate(&"nowhere".to_string(), &"shop".to_string()).is_none());
}

#[test]
fn projects_with_the_same_sanitized_name_share_an_aggregate() {
    let mut p = processor(vec!["prod"]);
    let m = metadata(vec!["prod"]);
    deploy(&mut p, "My Shop", "api", &m, 0);
    deploy(&mut p, "my_shop", "web", &m, 0);
    let files = p.finish().unwrap();
    assert_eq!(files.len(), 1);
    assert_eq!(files[0].path, "prod/argocd-config/my-shop.yaml");
    assert_eq!(files[0].aggregate.applications.len(), 2);
}

#[test]
fn layout_error_ends_the_pass() {
    let mut p = processor(vec!["prod"]);
    let m = metadata(vec!["prod"]);
    let e = p.process("/metadata", None, None, &m, &m.targets[0]).unwrap_err();
    assert_eq!(e, ProcessError::LayoutError { path: "/metadata".to_string() });
    assert!(e.message().ends_with("/metadata"));
    assert!(p.has_failed());
    assert_eq!(p.finish().unwrap_err().kind(), ErrorKind::Layout);
}

#[test]
fn layout_is_not_looked_at_for_a_skipped_target() {
    let mut p = processor(vec!["prod"]);
    let m = metadata(vec!["other"]);
    assert!(matches!(p.process("/", None, None, &m, &m.targets[0]), Ok(Step::Skipped)));
    assert!(matches!(p.prepare("/", None, None, &m, &m.targets[0]), Ok(Planned::Skipped)));
    assert!(!p.has_failed());
}

#[test]
fn render_failure_ends_the_pass_and_names_template_and_application() {
    let mut p = processor_with(config(vec!["prod"]), "{{ missing_variable }}");
    let m = metadata(vec!["prod"]);
    let e = p.process("/in/shop/api", Some("shop".to_string()), Some("api".to_string()), &m, &m.targets[0]).unwrap_err();
    match &e {
        ProcessError::RenderError { template, application, cause } => {
            assert_eq!(template, "application.yaml.tera");
            assert_eq!(application, "api");
            assert!(cause.contains("missing_variable"), "{}", cause);
        }
        other => panic!("{:?}", other),
    }
    assert_eq!(e.duplicate(), e);
    assert!(e.message().starts_with("failed to render template application.yaml.tera for application api: "));
    assert!(p.has_failed());
    assert_eq!(p.finish().unwrap_err().kind(), ErrorKind::Render);
    assert_eq!(p.aggregate(&"prod".to_string(), &"shop".to_string()).unwrap().applications.len(), 0);
}

#[test]
fn render_error_carries_the_underlying_cause() {
    let with_source = RenderFailure { message: "outer".to_string(), source: Some("inner".to_string()) };
    assert_eq!(
        render_error("t", "a", with_source),
        ProcessError::RenderError { template: "t".to_string(), application: "a".to_string(), cause: "inner".to_string() }
    );
    let without = RenderFailure { message: "outer".to_string(), source: None };
    assert_eq!(
        render_error("t", "a", without),
        ProcessError::RenderError { template: "t".to_string(), application: "a".to_string(), cause: "outer".to_string() }
    );
}

#[test]
fn record_manifest_takes_what_the_engine_gave() {
    let mut p = processor(vec!["prod"]);
    let m = metadata(vec!["prod"]);
    let plan = match p.prepare("/in/shop/api", Some("shop".to_string()), Some("api".to_string()), &m, &m.targets[0]) {
        Ok(Planned::Render(plan)) => plan,
        other => panic!("{:?}", other),
    };
    assert_eq!(plan.template_name, "application.yaml.tera");
    p.record_manifest(&plan.context, Ok("first".to_string())).unwrap();
    p.record_manifest(&plan.context, Ok("second".to_string())).unwrap();
    let aggregate = p.aggregate(&"prod".to_string(), &"shop".to_string()).unwrap();
    assert_eq!(aggregate.applications, vec!["first".to_string(), "second".to_string()]);
    let failure = RenderFailure { message: "m".to_string(), source: Some("Variable `x` not found".to_string()) };
    let e = p.record_manifest(&plan.context, Err(failure)).unwrap_err();
    assert_eq!(
        e,
        ProcessError::RenderError {
            template: "application.yaml.tera".to_string(),
            application: "api".to_string(),
            cause: "Variable `x` not found".to_string(),
        }
    );
}

#[test]
fn manifest_for_an_application_never_counted_in_is_refused() {
    let mut p = processor(vec!["prod"]);
    let m = metadata(vec!["prod"]);
    let c = template_context_for_dir("d", Some("shop".to_string()), Some("api".to_string()), "prod", &m).unwrap();
    let e = p.record_manifest(&c, Ok("m".to_string())).unwrap_err();
    assert_eq!(e, ProcessError::LayoutError { path: "prod/shop/api".to_string() });
    let mut q = processor(vec!["prod"]);
    let c = template_context_for_dir("d", Some("shop".to_string()), Some("api".to_string()), "dev", &m).unwrap();
    assert_eq!(q.record_manifest(&c, Ok("m".to_string())).unwrap_err().kind(), ErrorKind::Layout);
}

#[test]
fn first_fatal_error_stays() {
    let mut p = processor(vec!["prod"]);
    let first = p.fail(ProcessError::WriteError { path: "/out/x".to_string(), cause: "denied".to_string() });
    assert_eq!(first.kind(), ErrorKind::Write);
    assert_eq!(first.message(), "failed to write /out/x: denied");
    let second = p.fail(ProcessError::ConfigError { path: "bargo.toml".to_string(), cause: "c".to_string() });
    assert_eq!(second, ProcessError::WriteError { path: "/out/x".to_string(), cause: "denied".to_string() });
    assert_eq!(p.finish().unwrap_err().kind(), ErrorKind::Write);
}

#[test]
fn error_kinds_and_messages() {
    let e = ProcessError::ConfigError { path: "p".to_string(), cause: "c".to_string() };
    assert_eq!(e.kind(), ErrorKind::Config);
    assert_eq!(e.message(), "failed to parse config file p: c");
    let e = ProcessError::MetadataError { path: "p".to_string(), cause: "c".to_string() };
    assert_eq!(e.kind(), ErrorKind::Metadata);
    assert_eq!(e.message(), "failed to parse metadata file p: c");
    let e = ProcessError::TemplateLoadError { cause: "c".to_string() };
    assert_eq!(e.kind(), ErrorKind::TemplateLoad);
    assert_eq!(e.message(), "failed to load templates: c");
}

#[test]
fn create_or_update_says_whether_the_target_is_configured() {
    let mut p = processor(vec!["prod"]);
    let m = metadata(vec!["prod"]);
    let c = template_context_for_dir("d", Some("shop".to_string()), Some("api".to_string()), "prod", &m).unwrap();
    assert!(p.create_or_update_app_project_for_dir(&"prod".to_string(), &m, &c));
    assert!(!p.create_or_update_app_project_for_dir(&"dev".to_string(), &m, &c));
    assert_eq!(p.finish().unwrap().len(), 1);
}

#[test]
fn application_document_layers_defaults_metadata_and_context() {
    let mut cfg = config(vec!["prod"]);
    cfg.default_application_options = Some(table(vec![
        ("syncPolicy", table(vec![("automated", Node::Bool(true)), ("prune", Node::Bool(true))])),
        ("revision", text("main")),
        ("namespace", text("from-defaults")),
    ]));
    let p = processor_with(cfg, TEMPLATE);
    let mut m = metadata(vec!["prod"]);
    m.application_options = Some(table(vec![
        ("syncPolicy", table(vec![("prune", Node::Null)])),
        ("revision", text("v2")),
        ("target_name", text("from-metadata")),
    ]));
    let c = template_context_for_dir("d", Some("shop".to_string()), Some("api".to_string()), "prod", &m).unwrap();
    let doc = p.application_document(&m, &c);
    assert_eq!(string_at(&doc, "revision"), "v2");
    assert_eq!(string_at(&doc, "namespace"), "shop");
    assert_eq!(string_at(&doc, "target_name"), "prod");
    assert_eq!(string_at(&doc, "app_name"), "api");
    let sync = lookup(&doc, "syncPolicy").unwrap();
    assert!(matches!(lookup(sync, "automated"), Some(Node::Bool(true))));
    assert!(lookup(sync, "prune").is_none());
}

#[test]
fn manifest_is_rendered_with_the_layered_options_and_the_filters() {
    let mut cfg = config(vec!["prod"]);
    cfg.default_application_options = Some(table(vec![
        ("syncPolicy", table(vec![("automated", Node::Bool(true)), ("prune", Node::Bool(true))])),
        ("revision", text("main")),
    ]));
    let template = "metadata:\n  name: {{ normalized_app_name }}\nspec:\n  revision: {{ revision }}\n  syncPolicy:{{ syncPolicy | yaml_encode | nindent(spaces=4) }}";
    let mut p = processor_with(cfg, template);
    let mut m = metadata(vec!["prod"]);
    m.application_options = Some(table(vec![("syncPolicy", table(vec![("prune", Node::Null), ("retries", number(3))]))]));
    let d = deploy(&mut p, "shop", "My Api", &m, 0);
    assert_eq!(
        d.manifest,
        "metadata:\n  name: my-api\nspec:\n  revision: main\n  syncPolicy:\n    automated: true\n    retries: 3"
    );
    let document = p.application_document(&m, &d.context);
    assert_eq!(p.render_template("application.yaml.tera", &document).unwrap(), d.manifest);
}

#[test]
fn rendering_twice_gives_the_same_text() {
    let p = renderer(vec![("f.tera", "replicas: {{ replicas }}\nlabels:{{ labels | yaml_encode | nindent(spaces=2) }}\n")]);
    let vars = table(vec![("replicas", number(2)), ("labels", table(vec![("b", text("2")), ("a", text("1"))]))]);
    let first = p.render_template("f.tera", &vars).unwrap();
    let second = p.render_template("f.tera", &vars.duplicate()).unwrap();
    assert_eq!(first, "replicas: 2\nlabels:\n  a: '1'\n  b: '2'\n");
    assert_eq!(first, second);
}

#[test]
fn nindent_without_spaces_fails_the_render_and_names_the_filter() {
    let p = renderer(vec![("f.tera", "{{ text | nindent }}")]);
    let failure = p.render_template("f.tera", &table(vec![("text", text("a"))])).unwrap_err();
    assert_eq!(failure.message, "Failed to render 'f.tera'");
    assert_eq!(failure.source, Some("Filter call 'nindent' failed".to_string()));
}

#[test]
fn filters_as_the_engine_calls_them() {
    let mut args = std::collections::HashMap::new();
    let value = serde_json::Value::String("a\nb".to_string());
    let e = nindent_for_engine(&value, &args).unwrap_err();
    assert_eq!(e.to_string(), "Filter `nindent` expected an arg called `spaces`");
    args.insert("spaces".to_string(), serde_json::Value::from(2u64));
    assert_eq!(nindent_for_engine(&value, &args).unwrap(), serde_json::Value::String("\n  a\n  b".to_string()));
    args.insert("spaces".to_string(), serde_json::Value::String("2".to_string()));
    assert!(nindent_for_engine(&value, &args).unwrap_err().to_string().contains("`spaces`"));
    let encoded = yaml_encode_for_engine(&serde_json::Value::Array(vec![value]), &args).unwrap();
    assert_eq!(encoded, serde_json::Value::String("- |-\n  a\n  b".to_string()));
}

#[test]
fn render_refuses_a_document_that_is_no_table() {
    let p = renderer(vec![("f.tera", "x")]);
    let refused = p.render_template("f.tera", &text("scalar")).unwrap_err();
    assert!(refused.source.is_none());
    assert!(refused.message.contains("JSON object"), "{}", refused.message);
    assert!(p.render_template("f.tera", &Node::Null).unwrap_err().source.is_none());
    assert_eq!(p.render_template("f.tera", &Node::empty_object()).unwrap(), "x");
    assert!(p.render_template("unknown.tera", &Node::empty_object()).is_err());
}

#[test]
fn render_file_renders_with_the_variables_of_the_target() {
    let mut cfg = config(vec!["prod"]);
    cfg.vars = Some(table(vec![("replicas", number(1)), ("domain", text("example.org"))]));
    let e = engine(vec![("application.yaml.tera", TEMPLATE), ("shop/api/values.yaml.tera", "replicas: {{ replicas }}")]);
    let mut p = ProjectProcessor::new(cfg, "application.yaml.tera".to_string(), e);
    let target = MetadataTarget { name: "prod".to_string(), vars: Some(table(vec![("replicas", number(3))])) };
    let vars = p.target_vars(&target);
    assert_eq!(p.render_file("shop/api/values.yaml.tera", "api", &vars).unwrap(), "replicas: 3");
    let err = p.render_file("shop/api/missing.tera", "api", &vars).unwrap_err();
    assert!(matches!(&err, ProcessError::RenderError { template, application, .. }
        if template == "shop/api/missing.tera" && application == "api"));
    assert!(p.has_failed());
}

#[test]
fn target_vars_layer_target_over_configuration() {
    let mut cfg = config(vec!["prod"]);
    cfg.vars = Some(table(vec![("replicas", number(1)), ("domain", text("example.org"))]));
    let p = processor_with(cfg, TEMPLATE);
    let target = MetadataTarget {
        name: "prod".to_string(),
        vars: Some(table(vec![("replicas", number(3)), ("domain", Node::Null)])),
    };
    let vars = p.target_vars(&target);
    assert!(matches!(lookup(&vars, "replicas"), Some(Node::Number(n)) if n.as_u64() == Some(3)));
    assert!(lookup(&vars, "domain").is_none());
    let bare = p.target_vars(&MetadataTarget { name: "prod".to_string(), vars: None });
    assert_eq!(string_at(&bare, "domain"), "example.org");
}

#[test]
fn absent_documents_count_as_empty_tables() {
    let p = processor(vec!["prod"]);
    let vars = p.target_vars(&MetadataTarget { name: "prod".to_string(), vars: None });
    match vars {
        Node::Object(object) => assert_eq!(object.len(), 0),
        other => panic!("{:?}", other),
    }
}

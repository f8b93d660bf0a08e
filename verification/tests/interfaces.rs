use mind_palace::config::{
    BedrockConfig, BedrockEmbeddingConfig, DreamConfig, DynamoConfig, MindPalaceBuilder, S3Config,
    S3VectorsConfig,
};
use mind_palace::dream::{changes_context, count_changes, count_occurrences, is_log_key, truncate_log, user_prompt, DreamStats};
use mind_palace::error::MindPalaceError;
use mind_palace::mcp::{
    create_input, list_filter, parse_page_type, parse_principal, read_level, share_level,
    update_input, CreateParams, ListParams, SectionInput, UpdateParams,
};
use mind_palace::page::ReadLevel;
use mind_palace::ports::{ChangeAction, ChangelogEntry};
use mind_palace::clock::Timestamp;
use mind_palace::records::{action_from_name, group_pk, page_pk, parse_page_id, parse_timestamp_from_sk};
use mind_palace::tenant::{Identity, TenantContext};
use mind_palace::tools::{create_args_input, list_args_filter, page_type_str, WikiCreateArgs, WikiListArgs};
use mind_palace::value_objects::{BaseVisibility, GroupId, Level, PageId, PageType, Principal, Slug, Visibility};
use mind_palace::web::{
    base_visibility_str, context_for, create_input_from_request, map_err, parse_base_visibility,
    parse_level, set_parent_input, CreatePageRequest, WebConfig,
};

#[test]
fn ctx_from_extensions_maps_injected_user_identity() {
    let ctx = context_for(Some(Identity::User { id: "alice@example.com".into() }));
    assert_eq!(ctx.user_id(), Some("alice@example.com"));
}

#[test]
fn ctx_from_extensions_defaults_to_anonymous_when_absent() {
    let ctx = context_for(None);
    assert!(ctx.identity.is_anonymous());
    assert_eq!(ctx.user_id(), None);
}

#[test]
fn web_error_statuses() {
    assert_eq!(map_err(&MindPalaceError::PageNotFound("x".into())), 404);
    assert_eq!(map_err(&MindPalaceError::AccessDenied("x".into())), 403);
    assert_eq!(map_err(&MindPalaceError::Validation("x".into())), 400);
    assert_eq!(map_err(&MindPalaceError::Store("x".into())), 500);
    assert_eq!(WebConfig::new(8080).port, 8080);
}

#[test]
fn web_field_parsing() {
    assert_eq!(parse_base_visibility(Some(" Public ")), Some(BaseVisibility::Public));
    assert_eq!(parse_base_visibility(Some("USER")), Some(BaseVisibility::Private));
    assert_eq!(parse_base_visibility(Some("other")), None);
    assert_eq!(parse_base_visibility(None), None);
    assert_eq!(base_visibility_str(BaseVisibility::Private), "private");
    assert_eq!(parse_level(Some(" Edit")), Level::Edit);
    assert_eq!(parse_level(None), Level::View);
    assert_eq!(
        mind_palace::web::parse_principal(" Group ", "eng"),
        Ok(Principal::Group(GroupId::new("eng")))
    );
    assert_eq!(mind_palace::web::parse_principal("robot", "x"), Err(400));
}

#[test]
fn web_requests_become_inputs() {
    let req = CreatePageRequest {
        title: "T".into(),
        slug: "t".into(),
        summary: "S".into(),
        sections: vec![SectionInput { heading: "H".into(), content: "C".into() }],
        page_type: None,
        links: Some(vec!["ok".into(), "Not Ok".into()]),
        base_visibility: Some("private".into()),
        parent: None,
    };
    let input = create_input_from_request(req).unwrap();
    assert_eq!(input.page_type, PageType::Concept);
    assert_eq!(input.links, vec![Slug::new("ok").unwrap()]);
    assert_eq!(input.base_visibility, Some(BaseVisibility::Private));
    let detach = set_parent_input(None).unwrap();
    assert_eq!(detach.parent, Some(None));
    assert!(set_parent_input(Some("Bad!".into())).is_err());
}

#[test]
fn mcp_conversions() {
    assert_eq!(parse_page_type("Sop"), PageType::Sop);
    assert_eq!(parse_page_type("whatever"), PageType::Leaf);
    assert_eq!(parse_principal("user", "a@b"), Ok(Principal::User("a@b".into())));
    assert_eq!(
        parse_principal("team", "a"),
        Err("invalid principal_type 'team' (expected 'user' or 'group')".to_string())
    );
    assert_eq!(share_level(Some("edit")), Level::Edit);
    assert_eq!(share_level(Some("EDIT")), Level::View);
    assert_eq!(read_level(Some("full"), None), Ok(ReadLevel::Full));
    assert_eq!(read_level(Some("section"), Some("H".into())), Ok(ReadLevel::Section("H".into())));
    assert_eq!(read_level(Some("section"), None), Err("missing section heading".to_string()));
    assert_eq!(read_level(None, None), Ok(ReadLevel::Summary));
    let filter = list_filter(&ListParams { page_type: Some("Index".into()), limit: None });
    assert_eq!(filter.page_type, Some(PageType::Index));
    assert_eq!(filter.limit, None);
}

#[test]
fn mcp_create_and_update_inputs() {
    let params = CreateParams {
        title: "T".into(),
        slug: "t".into(),
        summary: "S".into(),
        sections: vec![SectionInput { heading: "H".into(), content: "C".into() }],
        page_type: "Concept".into(),
        links: None,
        visibility: Some("user".into()),
        base_visibility: None,
        parent: Some("Bad Parent".into()),
        secret_refs: None,
    };
    let me = TenantContext::user("me@x.com");
    let input = create_input(params.clone(), &me).unwrap();
    assert_eq!(input.visibility, Visibility::User("me@x.com".into()));
    assert_eq!(input.base_visibility, Some(BaseVisibility::Private));
    assert!(input.parent.is_none());
    assert!(create_input(params, &TenantContext::anonymous()).is_err());
    let upd = UpdateParams {
        slug: "t".into(),
        title: None,
        summary: None,
        sections: None,
        links: None,
        replace_sections: None,
        delete_sections: None,
        parent: None,
        detach_parent: Some(true),
        secret_refs: None,
    };
    let (s, input) = update_input(upd).unwrap();
    assert_eq!(s.as_str(), "t");
    assert_eq!(input.parent, Some(None));
    assert!(!input.replace_sections);
}

#[test]
fn tool_args_conversions() {
    let args = WikiCreateArgs {
        title: "T".into(),
        slug: "t".into(),
        summary: "S".into(),
        sections: vec![],
        page_type: "Index".into(),
        links: None,
        visibility: Some("user".into()),
    };
    let input = create_args_input(args, &TenantContext::global()).unwrap();
    assert_eq!(input.visibility, Visibility::User("unknown".into()));
    assert_eq!(list_args_filter(&WikiListArgs { page_type: None, limit: None }).limit, Some(20));
    assert_eq!(page_type_str(PageType::Decision), "Decision");
}

#[test]
fn builder_reports_first_missing_part() {
    let b: MindPalaceBuilder<()> = MindPalaceBuilder::new();
    assert!(matches!(b.plan(), Err(MindPalaceError::Validation(m)) if m == "s3 config required"));
    let b: MindPalaceBuilder<()> = MindPalaceBuilder::new().s3(S3Config {
        bucket_name: "b".into(),
        region: "r".into(),
        prefix: "p".into(),
    });
    assert!(matches!(b.plan(), Err(MindPalaceError::Validation(m)) if m == "dynamo config required"));
    let plan = MindPalaceBuilder::new()
        .s3(S3Config { bucket_name: "b".into(), region: "r".into(), prefix: "p".into() })
        .dynamo(DynamoConfig { table_name: "t".into(), region: "r".into() })
        .s3vectors(S3VectorsConfig { bucket_name: "v".into(), index_name: "i".into(), region: "r".into() })
        .bedrock(BedrockConfig { model_id: "m".into(), region: "r".into() })
        .enable_tenancy(true)
        .changelog(7u8)
        .plan()
        .ok()
        .unwrap();
    assert!(plan.tenancy_enabled);
    assert_eq!(plan.changelog, Some(7u8));
    assert_eq!(plan.page_store_config().prefix, "p");
    assert_eq!(BedrockEmbeddingConfig::default().model_id, "amazon.titan-embed-text-v2:0");
}

#[test]
fn dream_config_from_environment() {
    let env: Vec<(String, String)> = vec![
        ("MIND_PALACE_S3_BUCKET".into(), "pages".into()),
        ("MIND_PALACE_DYNAMO_TABLE".into(), "graph".into()),
        ("MIND_PALACE_VECTORS_BUCKET".into(), "vectors".into()),
        ("MP_LOG_BUCKET".into(), "logs".into()),
    ];
    let cfg = DreamConfig::from_env(&env, "model-x").unwrap();
    assert_eq!(cfg.s3_prefix, "v1");
    assert_eq!(cfg.region, "us-west-2");
    assert_eq!(cfg.llm_model_id, "model-x");
    let err = DreamConfig::from_env(&env[..2].to_vec(), "model-x").unwrap_err();
    assert_eq!(err, "environment variable not found: MIND_PALACE_VECTORS_BUCKET");
    let (s3, _, _, bedrock) = cfg.system_configs();
    assert_eq!(s3.bucket_name, "pages");
    assert_eq!(bedrock.model_id, "amazon.titan-embed-text-v2:0");
}

#[test]
fn dream_prompt_pieces() {
    assert!(is_log_key("sessions/a.jsonl"));
    assert!(!is_log_key("sessions/a.json"));
    assert_eq!(count_occurrences("aaaa", "aa"), 2);
    assert_eq!(count_changes("Created page: a. created page: b. Updated: c"), (2, 1));
    assert_eq!(truncate_log("short".to_string()), "short");
    assert_eq!(changes_context(&vec![]), "No recent wiki changes.");
    let e = ChangelogEntry {
        timestamp: Timestamp::epoch(),
        slug: Slug::new("p").unwrap(),
        page_id: PageId(1),
        action: ChangeAction::Created,
        agent_id: None,
        summary: None,
    };
    assert_eq!(changes_context(&vec![e.clone(), e]), "Recent wiki changes:\n- Created p (no summary)\n- Created p (no summary)");
    assert!(user_prompt("ctx", "LOG").contains("--- SESSION LOG ---\nLOG\n--- END SESSION LOG ---"));
    let mut stats = DreamStats::default();
    stats.record(2, 1, true);
    stats.record(0, 3, false);
    assert_eq!(stats, DreamStats { logs_processed: 2, pages_created: 2, pages_updated: 4, logs_deleted: 1 });
}

#[test]
fn record_keys_and_fields() {
    assert_eq!(page_pk(&PageId(0x0123456789abcdef0123456789abcdef)), "PAGE#01234567-89ab-cdef-0123-456789abcdef");
    assert_eq!(group_pk(&GroupId::new("eng")), "GROUP#eng");
    assert_eq!(parse_page_id("PAGE#01234567-89ab-cdef-0123-456789abcdef").unwrap(), PageId(0x0123456789abcdef0123456789abcdef));
    assert!(matches!(parse_page_id("NODE#x"), Err(MindPalaceError::Graph(m)) if m == "invalid PK format"));
    assert!(parse_page_id("PAGE#nope").is_err());
    let t = parse_timestamp_from_sk("1970-01-01T00:00:10+00:00#abc").unwrap();
    assert_eq!(t.secs, 10);
    assert!(matches!(parse_timestamp_from_sk("garbage#x"), Err(MindPalaceError::Changelog(_))));
    assert_eq!(action_from_name("Deleted"), Some(ChangeAction::Deleted));
    assert_eq!(action_from_name("deleted"), None);
}

#[test]
fn empty_pattern_matches_at_every_boundary() {
    assert_eq!(count_occurrences("abc", ""), 4);
    assert_eq!(count_occurrences("", ""), 1);
}

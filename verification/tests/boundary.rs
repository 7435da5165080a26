use hybrid_retrieval::adapters::graph_entity_to_candidate;
use hybrid_retrieval::adapters::neighbor_to_candidate;
use hybrid_retrieval::adapters::vector_hit_to_candidate;
use hybrid_retrieval::adapters::GraphEntityRecord;
use hybrid_retrieval::adapters::NeighborRecord;
use hybrid_retrieval::adapters::VectorHit;
use hybrid_retrieval::chroma::build_where_filter;
use hybrid_retrieval::chroma::collect_results;
use hybrid_retrieval::chroma::ChromaMetadata;
use hybrid_retrieval::chroma::WhereFilter;
use hybrid_retrieval::config::McpConfig;
use hybrid_retrieval::db::Database;
use hybrid_retrieval::db::DatabaseConfig;
use hybrid_retrieval::db::DatabasePool;
use hybrid_retrieval::db::EncryptedSecret;
use hybrid_retrieval::db::SecurityRepository;
use hybrid_retrieval::localfs::LocalFsConnector;
use hybrid_retrieval::milvus::build_milvus_filter;
use hybrid_retrieval::milvus::collect_milvus_hits;
use hybrid_retrieval::milvus::MilvusHit;
use hybrid_retrieval::mcp::ClientInfo;
use hybrid_retrieval::schema::PaginatedResult;

#[test]
fn vector_hits_fill_their_defaults() {
    let c = vector_hit_to_candidate(VectorHit {
        id: "h1".to_string(),
        entity_id: None,
        title: None,
        content: "body".to_string(),
        path: None,
        source: None,
        content_type: None,
        score: 912,
    });
    assert_eq!(c.id, "h1");
    assert_eq!(c.title, "");
    assert_eq!(c.source, "unknown");
    assert_eq!(c.content_type, "code");
    assert_eq!(c.semantic_score, 912);
    assert_eq!(c.graph_score, 0);
    assert_eq!(c.relationship_depth, 0);
    assert_eq!(c.final_score, 0);
    assert!(c.related_ids.is_empty());
}

#[test]
fn graph_entities_fill_their_defaults() {
    let c = graph_entity_to_candidate(GraphEntityRecord {
        id: "e1".to_string(),
        name: "Validator".to_string(),
        entity_type: "class".to_string(),
        content: None,
        path: Some("/src/v.rs".to_string()),
        source: None,
        centrality: None,
        depth: None,
        related_ids: None,
    });
    assert_eq!(c.id, "e1");
    assert_eq!(c.entity_id.as_deref(), Some("e1"));
    assert_eq!(c.title, "Validator");
    assert_eq!(c.content, "");
    assert_eq!(c.source, "graph");
    assert_eq!(c.content_type, "class");
    assert_eq!(c.semantic_score, 0);
    assert_eq!(c.graph_score, 500);
    assert_eq!(c.relationship_depth, 1);
}

#[test]
fn neighbors_are_tagged_graph_related() {
    let c = neighbor_to_candidate(
        NeighborRecord {
            id: "n1".to_string(),
            name: "auth_test".to_string(),
            entity_type: "test".to_string(),
            content: Some("fn test_auth()".to_string()),
            path: None,
            weight: None,
        },
        2,
    );
    assert_eq!(c.source, "graph_related");
    assert_eq!(c.graph_score, 300);
    assert_eq!(c.relationship_depth, 2);
    assert_eq!(c.entity_id.as_deref(), Some("n1"));
}

#[test]
fn where_filter_shapes_follow_the_constraints() {
    assert!(matches!(build_where_filter(None, None), WhereFilter::Unfiltered));
    match build_where_filter(Some("ws1".to_string()), None) {
        WhereFilter::Equals(k, v) => {
            assert_eq!(k, "workspace_id");
            assert_eq!(v, "ws1");
        },
        _ => panic!("expected a single equality"),
    }
    match build_where_filter(None, Some("code".to_string())) {
        WhereFilter::Equals(k, v) => {
            assert_eq!(k, "content_type");
            assert_eq!(v, "code");
        },
        _ => panic!("expected a single equality"),
    }
    match build_where_filter(Some("ws1".to_string()), Some("code".to_string())) {
        WhereFilter::AllOf(pairs) => {
            assert_eq!(pairs.len(), 2);
            assert_eq!(pairs[0].0, "workspace_id");
            assert_eq!(pairs[0].1, "ws1");
            assert_eq!(pairs[1].0, "content_type");
            assert_eq!(pairs[1].1, "code");
        },
        _ => panic!("expected a conjunction"),
    }
}

#[test]
fn chroma_rows_default_what_runs_short() {
    let meta = ChromaMetadata {
        source_id: Some("github".to_string()),
        chunk_id: None,
        workspace_id: Some("ws".to_string()),
        content_type: None,
        filename: None,
        blob_path: None,
    };
    let rows = collect_results(
        vec!["a".to_string(), "b".to_string(), "c".to_string()],
        vec![900, 800],
        vec![Some(meta)],
    );
    assert_eq!(rows.len(), 3);
    assert_eq!(rows[0].id, "a");
    assert_eq!(rows[0].score, 900);
    assert_eq!(rows[0].source_id, "github");
    assert_eq!(rows[0].chunk_id, "");
    assert_eq!(rows[0].workspace_id, "ws");
    // metadata ran short
    assert_eq!(rows[1].score, 800);
    assert_eq!(rows[1].source_id, "");
    // distances ran short too
    assert_eq!(rows[2].score, 0);
    assert_eq!(rows[2].blob_path, "");
}

#[test]
fn milvus_filters_join_the_equality_clauses() {
    assert_eq!(build_milvus_filter(None, None), None);
    assert_eq!(
        build_milvus_filter(Some("ws1".to_string()), None).as_deref(),
        Some("workspace_id == \"ws1\"")
    );
    assert_eq!(
        build_milvus_filter(None, Some("code".to_string())).as_deref(),
        Some("content_type == \"code\"")
    );
    assert_eq!(
        build_milvus_filter(Some("ws1".to_string()), Some("code".to_string())).as_deref(),
        Some("workspace_id == \"ws1\" && content_type == \"code\"")
    );
}

#[test]
fn milvus_hits_default_missing_metadata() {
    let hits = vec![
        MilvusHit {
            id: "h1".to_string(),
            distance: 870,
            source_id: Some("github".to_string()),
            chunk_id: None,
            workspace_id: Some("ws".to_string()),
            content_type: None,
            filename: Some("lib.rs".to_string()),
            blob_path: None,
        },
        MilvusHit {
            id: "h2".to_string(),
            distance: 120,
            source_id: None,
            chunk_id: None,
            workspace_id: None,
            content_type: None,
            filename: None,
            blob_path: None,
        },
    ];
    let rows = collect_milvus_hits(hits);
    assert_eq!(rows.len(), 2);
    assert_eq!(rows[0].id, "h1");
    assert_eq!(rows[0].score, 870);
    assert_eq!(rows[0].source_id, "github");
    assert_eq!(rows[0].chunk_id, "");
    assert_eq!(rows[0].workspace_id, "ws");
    assert_eq!(rows[0].filename, "lib.rs");
    assert_eq!(rows[1].id, "h2");
    assert_eq!(rows[1].score, 120);
    assert_eq!(rows[1].source_id, "");
    assert_eq!(rows[1].blob_path, "");
}

fn config_with(flags: Vec<(&str, bool)>) -> McpConfig {
    McpConfig {
        service_port: 3004,
        host: "0.0.0.0".to_string(),
        enabled_connectors: flags.into_iter().map(|(k, v)| (k.to_string(), v)).collect(),
        github_api_base: "https://api.github.example".to_string(),
        gitlab_base_url: None,
        bitbucket_base_url: "https://api.bitbucket.example".to_string(),
        fs_root_paths: Vec::new(),
        fs_ignore_patterns: Vec::new(),
        request_timeout_secs: 30,
        cache_ttl_secs: 300,
        rate_limit_per_minute: 60,
    }
}

#[test]
fn connector_flags_resolve_by_first_entry() {
    let cfg = config_with(vec![("github", true), ("gitlab", false), ("github", false)]);
    assert!(cfg.is_connector_enabled(&"github".to_string()));
    assert!(!cfg.is_connector_enabled(&"gitlab".to_string()));
    assert!(!cfg.is_connector_enabled(&"notion".to_string()));
}

#[test]
fn safe_paths_respect_component_boundaries() {
    let fs = LocalFsConnector::new(
        vec!["/data".to_string(), "/srv/repos/".to_string()],
        vec![".git".to_string()],
    );
    assert!(fs.is_safe_path(&"/data/project/file.rs".to_string()));
    assert!(fs.is_safe_path(&"/data".to_string()));
    assert!(!fs.is_safe_path(&"/database/file".to_string()));
    assert!(fs.is_safe_path(&"/srv/repos/x".to_string()));
    // trailing and repeated separators contribute no components
    assert!(fs.is_safe_path(&"/srv/repos".to_string()));
    assert!(fs.is_safe_path(&"/data/".to_string()));
    assert!(fs.is_safe_path(&"/data//project".to_string()));
    assert!(!fs.is_safe_path(&"/etc/passwd".to_string()));
    let closed = LocalFsConnector::new(Vec::new(), Vec::new());
    assert!(!closed.is_safe_path(&"/data/x".to_string()));
    // a root of separators alone admits exactly the absolute paths
    let rooted = LocalFsConnector::new(vec!["/".to_string()], Vec::new());
    assert!(rooted.is_safe_path(&"/anything".to_string()));
    assert!(!rooted.is_safe_path(&"relative/path".to_string()));
}

#[test]
fn safe_paths_normalize_dot_segments() {
    let fs = LocalFsConnector::new(vec!["a/b".to_string()], Vec::new());
    // interior `.` segments and doubled separators are normalized away
    assert!(fs.is_safe_path(&"a/./b".to_string()));
    assert!(fs.is_safe_path(&"a//b/c".to_string()));
    assert!(fs.is_safe_path(&"a/b/./c".to_string()));
    // `..` is a real component and is compared literally
    assert!(!fs.is_safe_path(&"a/../b".to_string()));
    // a leading `.` component is kept, as the standard library keeps it
    assert!(!fs.is_safe_path(&"./a/b".to_string()));
    let dotted = LocalFsConnector::new(vec!["./a".to_string()], Vec::new());
    assert!(dotted.is_safe_path(&"./a/b".to_string()));
    assert!(!dotted.is_safe_path(&"a/b".to_string()));
}

#[test]
fn safe_paths_agree_with_std_path_prefixes() {
    let roots = vec![
        "/data".to_string(),
        "/srv/repos/".to_string(),
        "a/b".to_string(),
        "./rel".to_string(),
        "".to_string(),
    ];
    let paths = [
        "/data/x", "/data", "/data/", "/database", "/srv/repos", "/srv/repos//x",
        "a/./b/c", "a//b", "a/b/.", "a/../b", "./rel/x", "rel/x", ".", "x",
        "/", "//", "a/b", "./a/b",
    ];
    for root in &roots {
        let fs = LocalFsConnector::new(vec![root.clone()], Vec::new());
        for path in paths {
            let expected = std::path::Path::new(path).starts_with(std::path::Path::new(root));
            assert_eq!(
                fs.is_safe_path(&path.to_string()),
                expected,
                "root {:?}, path {:?}",
                root,
                path
            );
        }
    }
}

#[test]
fn pagination_knows_when_a_next_page_exists() {
    let p = PaginatedResult::new(vec![1, 2, 3], Some(100), Some(2), Some(10));
    assert!(p.has_next);
    assert_eq!(p.items, vec![1, 2, 3]);
    let last = PaginatedResult::<u32>::new(Vec::new(), Some(100), Some(10), Some(10));
    assert!(!last.has_next);
    let unknown = PaginatedResult::<u32>::new(Vec::new(), None, Some(1), Some(10));
    assert!(!unknown.has_next);
}

#[test]
fn database_stub_has_no_cache() {
    let db = Database::new(&DatabaseConfig { url: String::new() });
    assert!(db.cache().is_none());
    let pool: DatabasePool = db.pool().clone();
    let _repo = SecurityRepository::new(pool);
    let secret = EncryptedSecret { encrypted_value: vec![1, 2, 3] };
    assert_eq!(secret.encrypted_value.len(), 3);
    let info = ClientInfo { name: "cli".to_string(), version: "1.0".to_string() };
    assert_eq!(info.name, "cli");
}

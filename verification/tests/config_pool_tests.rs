use workspace_analyzer::config::default_embedding_fields;
use workspace_analyzer::config::default_max_threads;
use workspace_analyzer::config::default_supported_frameworks;
use workspace_analyzer::config::Config;
use workspace_analyzer::config::Layer;
use workspace_analyzer::config::MemgraphPerformanceConfig;
use workspace_analyzer::pool::connections_needed;
use workspace_analyzer::pool::pool_stats;
use workspace_analyzer::pool::pop_healthy_index;
use workspace_analyzer::pool::should_retain;
use workspace_analyzer::pool::survives_sweep;
use workspace_analyzer::pool::ConnectionHealth;
use workspace_analyzer::pool::ConnectionPoolConfig;
use workspace_analyzer::pool::ConnectionTracker;
use workspace_analyzer::pool::PoolError;

#[test]
fn default_configuration_values() {
    let c = Config::default();
    assert_eq!(c.workspace.root, ".");
    assert_eq!(c.memgraph.uri, "bolt://localhost:7687");
    assert_eq!(c.memgraph.batch_size, 1000);
    assert_eq!(c.memgraph.performance.connection_pool_size, 4);
    assert_eq!(c.memgraph.retry.max_attempts, 5);
    assert_eq!(c.memgraph.memory.monitor_interval_ms, 60000);
    assert_eq!(c.embeddings.model, "text-embedding-3-small");
    assert!(c.performance.max_threads >= 1);
    assert_eq!(c.cross_crate.max_index_memory_mb, 100);
    assert_eq!(default_embedding_fields()[1], "module_path");
    assert_eq!(default_supported_frameworks(), vec!["tokio", "actix-web", "async-std", "websocket"]);
    assert!(default_max_threads() >= 1);
}

#[test]
fn workspace_roots_and_layers() {
    let mut c = Config::from_workspace_root("/repo");
    assert_eq!(c.workspace.root, "/repo");
    c.workspace.additional_roots = vec!["/extra".to_string()];
    assert_eq!(c.all_workspace_roots(), vec!["/repo".to_string(), "/extra".to_string()]);
    c.architecture.layers = vec![
        Layer { name: "low".to_string(), crates: vec!["x".to_string()] },
        Layer { name: "high".to_string(), crates: vec!["x".to_string(), "y".to_string()] },
    ];
    assert_eq!(c.get_layer_index("x"), Some(1));
    assert!(!c.is_layer_violation("x", "y"));
}

#[test]
fn pool_config_from_performance_settings() {
    let perf = MemgraphPerformanceConfig {
        use_analytical_mode: true,
        connection_pool_size: 1,
        connection_timeout_ms: 250,
        query_timeout_ms: 900,
    };
    let c = ConnectionPoolConfig::from(&perf);
    assert_eq!(c.min_connections, 1);
    assert_eq!(c.max_connections, 1);
    assert_eq!(c.connection_timeout_ms, 250);
    assert_eq!(c.max_connection_age_ms, 3_600_000);
    let d = ConnectionPoolConfig::from(&MemgraphPerformanceConfig::default());
    assert_eq!(d.min_connections, 2);
    assert_eq!(d.max_connections, 4);
    assert_eq!(ConnectionPoolConfig::default().max_connections, 10);
}

#[test]
fn connection_health_after_failures() {
    let mut t = ConnectionTracker::new(100);
    t.mark_failure();
    assert_eq!(t.health, ConnectionHealth::Degraded);
    t.mark_failure();
    t.mark_failure();
    assert_eq!(t.health, ConnectionHealth::Degraded);
    t.mark_failure();
    assert_eq!(t.health, ConnectionHealth::Failed);
    t.mark_success();
    assert_eq!(t.health, ConnectionHealth::Healthy);
    assert_eq!(t.consecutive_failures, 0);
    t.mark_used(500);
    assert_eq!(t.last_used_ms, 500);
    assert!(t.is_expired(200, 99));
    assert!(!t.is_expired(200, 100));
    assert!(!t.is_idle(50, 0));
}

#[test]
fn pool_decisions() {
    let config = ConnectionPoolConfig::default();
    let healthy = ConnectionTracker::new(0);
    let mut failed = ConnectionTracker::new(0);
    for _ in 0..4 {
        failed.mark_failure();
    }
    assert!(should_retain(&healthy, 1000, &config));
    assert!(!should_retain(&failed, 1000, &config));
    assert!(!should_retain(&healthy, 3_600_001, &config));
    assert!(!survives_sweep(&healthy, 300_001, &config));
    assert!(survives_sweep(&healthy, 300_000, &config));
    assert_eq!(pop_healthy_index(&[failed, healthy]), Some(1));
    assert_eq!(pop_healthy_index(&[failed]), None);
    let st = pool_stats(&[failed, healthy, healthy], 3, 10);
    assert_eq!((st.healthy_connections, st.failed_connections, st.total_connections), (2, 1, 3));
    assert_eq!(connections_needed(0, 2), 2);
    assert_eq!(connections_needed(5, 2), 0);
}

#[test]
fn pool_error_messages() {
    assert_eq!(PoolError::Exhausted.message(), "Connection pool exhausted");
    assert_eq!(PoolError::ConnectionFailed("timeout".to_string()).message(), "Connection failed: timeout");
    assert_eq!(PoolError::HealthCheckFailed("x".to_string()).message(), "Health check failed: x");
    assert_eq!(PoolError::PoolClosed.message(), "Pool is closed");
}

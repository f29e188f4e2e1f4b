use pmr::config::{Config, LogRotationConfig};

#[test]
fn test_config_new() {
    let config = Config::new("/home/operator", "/work");

    assert!(config.database_path.contains(".pmr"));
    assert!(config.database_path.ends_with("processes.db"));

    assert!(config.default_log_dir.ends_with("logs"));

    assert!(config.log_rotation.enabled);
    assert_eq!(config.log_rotation.max_file_size, 10 * 1024 * 1024);
    assert_eq!(config.log_rotation.max_files, 5);
}

#[test]
fn test_config_with_custom_log_dir() {
    let custom_log_dir = "/tmp/somewhere/custom_logs".to_string();

    let config = Config::new("/home/operator", "/work").with_log_dir(custom_log_dir.clone());

    assert_eq!(config.default_log_dir, custom_log_dir);
}

#[test]
fn test_config_with_custom_log_rotation() {
    let custom_rotation = LogRotationConfig { max_file_size: 1024, max_files: 10, enabled: false };

    let config = Config::new("/home/operator", "/work").with_log_rotation(custom_rotation.clone());

    assert_eq!(config.log_rotation.max_file_size, 1024);
    assert_eq!(config.log_rotation.max_files, 10);
    assert!(!config.log_rotation.enabled);
}

#[test]
fn test_log_rotation_config_default() {
    let config = LogRotationConfig::default();

    assert!(config.enabled);
    assert_eq!(config.max_file_size, 10 * 1024 * 1024);
    assert_eq!(config.max_files, 5);
}

#[test]
fn test_http_api_not_enabled() {
    let config = Config::new("/home/operator", "/work");
    assert!(!config.api.enabled);
}

#[test]
fn config_places_state_under_the_home_directory() {
    let config = Config::new("/home/operator", "/work");
    assert_eq!(config.database_path, "/home/operator/.pmr/processes.db");
    assert_eq!(config.default_log_dir, "/work/logs");
    assert_eq!(config.api.port, 8080);
    assert_eq!(config.api.auth_tokens_path, "/home/operator/.pmr/api_tokens.json");
    assert_eq!(config.store_directory(), Some("/home/operator/.pmr".to_string()));
    let moved = config.with_database_path("/data/p.db".to_string());
    assert_eq!(moved.database_path, "/data/p.db");
    assert_eq!(moved.default_log_dir, "/work/logs");
}

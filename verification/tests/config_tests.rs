use kube_config_updater::config::{Config, ConfigError, Server};

fn server(name: &str) -> Server {
    Server {
        name: name.to_string(),
        address: "".to_string(),
        target_cluster_ip: "".to_string(),
        user: None,
        file_path: None,
        file_name: None,
        context_name: None,
        identity_file: None,
    }
}

fn empty_config() -> Config {
    Config {
        default_user: None,
        default_file_path: None,
        default_file_name: None,
        default_identity_file: None,
        local_output_dir: "".to_string(),
        servers: vec![],
    }
}

#[test]
fn test_server_user_fallback() {
    let config = Config {
        default_user: Some("default_user".to_string()),
        default_file_path: None,
        default_file_name: None,
        default_identity_file: None,
        local_output_dir: "".to_string(),
        servers: vec![
            Server {
                name: "server1".to_string(),
                address: "".to_string(),
                target_cluster_ip: "".to_string(),
                user: None, // Should use default
                file_path: None,
                file_name: None,
                context_name: None,
                identity_file: None,
            },
            Server {
                name: "server2".to_string(),
                address: "".to_string(),
                target_cluster_ip: "".to_string(),
                user: Some("server_user".to_string()), // Should use its own
                file_path: None,
                file_name: None,
                context_name: None,
                identity_file: None,
            },
        ],
    };

    assert_eq!(config.servers[0].user(&config).unwrap(), "default_user");
    assert_eq!(config.servers[1].user(&config).unwrap(), "server_user");
}

#[test]
fn test_server_identity_file_fallback() {
    let config = Config {
        default_user: None,
        default_file_path: None,
        default_file_name: None,
        default_identity_file: Some("default_key".to_string()),
        local_output_dir: "".to_string(),
        servers: vec![
            Server {
                name: "server1".to_string(),
                address: "".to_string(),
                target_cluster_ip: "".to_string(),
                user: None,
                file_path: None,
                file_name: None,
                context_name: None,
                identity_file: None, // Should use default
            },
            Server {
                name: "server2".to_string(),
                address: "".to_string(),
                target_cluster_ip: "".to_string(),
                user: None,
                file_path: None,
                file_name: None,
                context_name: None,
                identity_file: Some("server_key".to_string()), // Should use its own
            },
        ],
    };

    assert_eq!(config.servers[0].identity_file(&config).unwrap(), "default_key");
    assert_eq!(config.servers[1].identity_file(&config).unwrap(), "server_key");
}

#[test]
fn test_server_file_path_fallback() {
    let config = Config {
        default_user: None,
        default_file_path: Some("/default/path".to_string()),
        default_file_name: Some("default_name".to_string()),
        default_identity_file: None,
        local_output_dir: "".to_string(),
        servers: vec![
            Server {
                name: "server1".to_string(),
                address: "".to_string(),
                target_cluster_ip: "".to_string(),
                user: None,
                file_path: None, // Should use default
                file_name: None, // Should use default
                context_name: None,
                identity_file: None,
            },
            Server {
                name: "server2".to_string(),
                address: "".to_string(),
                target_cluster_ip: "".to_string(),
                user: None,
                file_path: Some("/server/path".to_string()), // Should use its own
                file_name: Some("server_name".to_string()), // Should use its own
                context_name: None,
                identity_file: None,
            },
        ],
    };

    assert_eq!(
        config.servers[0].file_path(&config).unwrap(),
        "/default/path/default_name"
    );
    assert_eq!(
        config.servers[1].file_path(&config).unwrap(),
        "/server/path/server_name"
    );
}

#[test]
fn test_missing_required_fields_name_the_field() {
    let config = empty_config();
    let s = server("lonely");
    assert_eq!(s.user(&config).unwrap_err(), ConfigError::MissingUser);
    assert_eq!(s.file_path(&config).unwrap_err(), ConfigError::MissingFilePath);

    let mut with_path = empty_config();
    with_path.default_file_path = Some("/somewhere".to_string());
    assert_eq!(
        s.file_path(&with_path).unwrap_err(),
        ConfigError::MissingFileName
    );
    assert!(ConfigError::MissingUser.message().contains("user"));
}

#[test]
fn test_local_cache_path_joins_output_dir_and_name() {
    let mut config = empty_config();
    config.local_output_dir = "/tmp/kube".to_string();
    let s = server("edge-1");
    assert_eq!(s.local_cache_path(&config), "/tmp/kube/edge-1");
}

#[test]
fn test_select_servers_follows_the_name_filter() {
    let mut config = empty_config();
    config.servers.push(server("alpha"));
    config.servers.push(server("beta"));
    config.servers.push(server("gamma"));

    let all = kube_config_updater::config::select_servers(&config, &vec![]);
    assert_eq!(all.len(), 3);
    assert_eq!(all[0].name, "alpha");

    let some = kube_config_updater::config::select_servers(
        &config,
        &vec!["gamma".to_string(), "alpha".to_string()],
    );
    assert_eq!(some.len(), 2);
    assert_eq!(some[0].name, "alpha");
    assert_eq!(some[1].name, "gamma");

    let none = kube_config_updater::config::select_servers(&config, &vec!["delta".to_string()]);
    assert!(none.is_empty());
}

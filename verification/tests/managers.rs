use borui::error::AppError;
use borui::models::client::{Client, ClientStatus};
use borui::models::server::{Server, ServerStatus};
use borui::orchestrator::{
    auto_start_client_candidates, auto_start_server_candidates, client_start_outcome,
    server_start_outcome,
};
use borui::tunnel::{ClientManager, ServerManager};

fn sample_client(id: i64) -> Client {
    Client {
        id,
        name: "web".to_string(),
        description: None,
        local_host: "127.0.0.1".to_string(),
        local_port: 8080,
        remote_server: "tunnel.example.com".to_string(),
        remote_port: 0,
        assigned_port: None,
        secret: None,
        status: ClientStatus::Stopped,
        auto_start: false,
        webhook_url: None,
        webhook_format: "json".to_string(),
        webhook_template: None,
        created_at: "2024-01-01T00:00:00Z".to_string(),
        updated_at: "2024-01-01T00:00:00Z".to_string(),
        last_connected_at: None,
        error_message: None,
    }
}

fn sample_server(id: i64, bind_addr: &str) -> Server {
    Server {
        id,
        name: "edge".to_string(),
        description: None,
        bind_addr: bind_addr.to_string(),
        bind_tunnels: "0.0.0.0".to_string(),
        port_range_start: 1024,
        port_range_end: 65535,
        secret: None,
        status: ServerStatus::Stopped,
        auto_start: true,
        created_at: "2024-01-01T00:00:00Z".to_string(),
        updated_at: "2024-01-01T00:00:00Z".to_string(),
        last_started_at: None,
        error_message: None,
    }
}

#[test]
fn duplicate_start_yields_one_success_and_one_conflict() {
    let rt = tokio::runtime::Runtime::new().unwrap();
    rt.block_on(async {
        let mut mgr = ClientManager::new();
        let t1 = tokio::spawn(async {
            std::future::pending::<()>().await;
        });
        let t2 = tokio::spawn(async {
            std::future::pending::<()>().await;
        });
        let first = mgr.register_started(1, 40000, t1, 1_000);
        assert!(first.is_ok());
        let second = mgr.register_started(1, 40001, t2, 2_000);
        match second {
            Err(AppError::BadRequest(m)) => {
                assert_eq!(m, "Client 1 is already running");
            }
            other => panic!("expected a conflict, got {:?}", other.is_ok()),
        }
        // Exactly one handle exists: the first one's port is still reported.
        let status = mgr.get_status(1, 2_000).expect("running");
        assert_eq!(status.assigned_port, Some(40000));
    });
}

#[test]
fn prepare_start_refuses_running_entity() {
    let rt = tokio::runtime::Runtime::new().unwrap();
    rt.block_on(async {
        let mut mgr = ClientManager::new();
        let t = tokio::spawn(async {
            std::future::pending::<()>().await;
        });
        mgr.register_started(7, 40000, t, 0).unwrap();
        match mgr.prepare_start(&sample_client(7)) {
            Err(AppError::BadRequest(m)) => assert_eq!(m, "Client 7 is already running"),
            _ => panic!("expected a conflict"),
        }
    });
}

#[test]
fn stop_on_unknown_id_reports_not_found() {
    let rt = tokio::runtime::Runtime::new().unwrap();
    rt.block_on(async {
        let mut mgr = ClientManager::new();
        match mgr.stop_client(42) {
            Err(AppError::NotFound(m)) => assert_eq!(m, "Client 42 not running"),
            _ => panic!("expected not-found"),
        }
        let mut smgr = ServerManager::new();
        match smgr.stop_server(9) {
            Err(AppError::NotFound(m)) => assert_eq!(m, "Server 9 not running"),
            _ => panic!("expected not-found"),
        }
    });
}

#[test]
fn stop_running_entity_makes_status_absent() {
    let rt = tokio::runtime::Runtime::new().unwrap();
    rt.block_on(async {
        let mut mgr = ClientManager::new();
        let t = tokio::spawn(async {
            std::future::pending::<()>().await;
        });
        mgr.register_started(3, 41000, t, 0).unwrap();
        assert!(mgr.get_status(3, 10).is_some());
        assert!(mgr.stop_client(3).is_ok());
        assert!(mgr.get_status(3, 20).is_none());
    });
}

#[test]
fn finished_task_is_absent_from_status_before_reaping() {
    let rt = tokio::runtime::Runtime::new().unwrap();
    rt.block_on(async {
        let mut mgr = ClientManager::new();
        let t = tokio::spawn(async {});
        mgr.register_started(5, 42000, t, 0).unwrap();
        // Wait until the runtime reports the task finished.
        let mut finished = false;
        for _ in 0..200 {
            if !mgr.get_finished_clients().is_empty() {
                finished = true;
                break;
            }
            tokio::time::sleep(std::time::Duration::from_millis(5)).await;
        }
        assert!(finished, "task never reported finished");
        // The handle is still registered, but status is already absent.
        assert!(mgr.get_status(5, 1_000).is_none());
        assert_eq!(mgr.get_finished_clients(), vec![5]);
        assert_eq!(mgr.remove_finished_client(5), Some(()));
        assert_eq!(mgr.remove_finished_client(5), None);
    });
}

#[test]
fn client_start_stop_round_trip() {
    let rt = tokio::runtime::Runtime::new().unwrap();
    rt.block_on(async {
        let mut mgr = ClientManager::new();
        let config = sample_client(1);
        let params = mgr.prepare_start(&config).expect("valid configuration");
        assert_eq!(params.local_host, "127.0.0.1");
        assert_eq!(params.local_port, 8080);
        assert_eq!(params.remote_server, "tunnel.example.com");
        assert_eq!(params.remote_port, 0);
        // The tunnel capability would now connect and report the port the
        // remote assigned; a forwarding task runs for the tunnel's lifetime.
        let assigned_port: u16 = 45000;
        let task = tokio::spawn(async {
            std::future::pending::<()>().await;
        });
        mgr.register_started(config.id, assigned_port, task, 1_000).unwrap();
        let status = mgr.get_status(1, 6_200).expect("connected");
        assert!(assigned_port > 0);
        assert_eq!(status.id, 1);
        assert_eq!(status.status, "connected");
        assert_eq!(status.assigned_port, Some(45000));
        assert_eq!(status.uptime_seconds, 5);
        assert!(mgr.stop_client(1).is_ok());
        assert!(mgr.get_status(1, 7_000).is_none());
    });
}

#[test]
fn client_rejects_out_of_range_ports() {
    let mgr = ClientManager::new();
    let mut config = sample_client(2);
    config.local_port = 70000;
    match mgr.prepare_start(&config) {
        Err(AppError::BadRequest(m)) => {
            assert_eq!(m, "Invalid local_port: out of range 0-65535")
        }
        _ => panic!("expected a configuration error"),
    }
    let mut config = sample_client(2);
    config.remote_port = -1;
    match mgr.prepare_start(&config) {
        Err(AppError::BadRequest(m)) => {
            assert_eq!(m, "Invalid remote_port: out of range 0-65535")
        }
        _ => panic!("expected a configuration error"),
    }
}

#[test]
fn server_validation_checks_addresses_and_range() {
    let mgr = ServerManager::new();
    let ok = mgr.prepare_start(&sample_server(1, "0.0.0.0")).expect("valid");
    assert_eq!(ok.port_range_start, 1024);
    assert_eq!(ok.port_range_end, 65535);
    assert!(mgr.prepare_start(&sample_server(5, "::")).is_ok());
    match mgr.prepare_start(&sample_server(2, "not-an-ip")) {
        Err(AppError::BadRequest(m)) => {
            assert_eq!(m, "Invalid bind_addr: invalid IP address syntax")
        }
        _ => panic!("expected a configuration error"),
    }
    let mut inverted = sample_server(3, "0.0.0.0");
    inverted.port_range_start = 9000;
    inverted.port_range_end = 8000;
    match mgr.prepare_start(&inverted) {
        Err(AppError::BadRequest(m)) => assert_eq!(m, "Invalid port_range: start exceeds end"),
        _ => panic!("expected a configuration error"),
    }
}

#[test]
fn auto_start_selection_filters_flag_and_state() {
    let mut running = sample_server(1, "0.0.0.0");
    running.status = ServerStatus::Running;
    let mut unflagged = sample_server(2, "0.0.0.0");
    unflagged.auto_start = false;
    let wanted = sample_server(3, "0.0.0.0");
    let picked = auto_start_server_candidates(vec![running, unflagged, wanted]);
    assert_eq!(picked.len(), 1);
    assert_eq!(picked[0].id, 3);

    let mut connected = sample_client(1);
    connected.auto_start = true;
    connected.status = ClientStatus::Connected;
    let mut wanted_client = sample_client(2);
    wanted_client.auto_start = true;
    let picked = auto_start_client_candidates(vec![connected, wanted_client]);
    assert_eq!(picked.len(), 1);
    assert_eq!(picked[0].id, 2);
}

#[test]
fn auto_start_continues_past_a_failing_server() {
    let rt = tokio::runtime::Runtime::new().unwrap();
    rt.block_on(async {
        let mut mgr = ServerManager::new();
        let good = sample_server(1, "0.0.0.0");
        let mut bad = sample_server(2, "0.0.0.0");
        bad.bind_addr = "not-an-address".to_string();
        let candidates = auto_start_server_candidates(vec![good, bad]);
        assert_eq!(candidates.len(), 2);
        let mut processed = 0;
        let mut recorded: Vec<(i64, ServerStatus, Option<String>)> = Vec::new();
        for server in &candidates {
            let outcome: Result<(), AppError> = match mgr.prepare_start(server) {
                Ok(_params) => {
                    // The tunnel capability would open the listener here.
                    let task = tokio::spawn(async {
                        std::future::pending::<()>().await;
                    });
                    mgr.register_started(server.id, task, 0).map(|_| ())
                }
                Err(e) => Err(e),
            };
            let (status, message) = server_start_outcome(&outcome);
            recorded.push((server.id, status, message));
            processed += 1;
        }
        assert_eq!(processed, 2);
        assert_eq!(recorded[0].0, 1);
        assert_eq!(recorded[0].1, ServerStatus::Running);
        assert_eq!(recorded[0].2, None);
        assert_eq!(recorded[1].0, 2);
        assert_eq!(recorded[1].1, ServerStatus::Error);
        assert_eq!(
            recorded[1].2.as_deref(),
            Some("Bad request: Invalid bind_addr: invalid IP address syntax")
        );
        // The failure of the second server did not disturb the first.
        assert!(mgr.get_status(1, 1_000).is_some());
        assert!(mgr.get_status(2, 1_000).is_none());
    });
}

#[test]
fn start_outcome_mappings() {
    let ok: Result<u16, AppError> = Ok(45000);
    let (status, port, message) = client_start_outcome(&ok);
    assert_eq!(status, ClientStatus::Connected);
    assert_eq!(port, Some(45000));
    assert_eq!(message, None);
    let err: Result<u16, AppError> = Err(AppError::Tunnel("remote unreachable".to_string()));
    let (status, port, message) = client_start_outcome(&err);
    assert_eq!(status, ClientStatus::Error);
    assert_eq!(port, None);
    assert_eq!(message.as_deref(), Some("Tunnel error: remote unreachable"));
}

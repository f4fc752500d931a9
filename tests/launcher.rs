use batch_router::launcher::{stop_step, LaunchArgs, LauncherError, ProgramName, StopAction};

fn args() -> LaunchArgs {
    LaunchArgs {
        reply_server_address: "0.0.0.0".to_string(),
        reply_server_port: 8080,
        grpc_port: 50051,
        tg_token: "SECRET-REDACTED".to_string(),
        debug: false,
    }
}

#[test]
fn program_names() {
    assert_eq!(ProgramName::from_str("telegram_bot"), Some(ProgramName::TGBot));
    assert_eq!(ProgramName::from_str("grpc_server"), Some(ProgramName::GrpcServer));
    assert_eq!(ProgramName::from_str("router"), Some(ProgramName::Router));
    assert_eq!(ProgramName::from_str("server"), None);
    assert_eq!(ProgramName::from_str(""), None);
}

#[test]
fn program_errors() {
    assert_eq!(ProgramName::TGBot.get_error(), LauncherError::TGBotError);
    assert_eq!(ProgramName::GrpcServer.get_error(), LauncherError::ServerError);
    assert_eq!(ProgramName::Router.get_error(), LauncherError::RouterError);
}

#[test]
fn executables() {
    assert_eq!(ProgramName::GrpcServer.get_executable(false), "server");
    assert_eq!(ProgramName::TGBot.get_executable(false), "telegram_bot");
    assert_eq!(
        ProgramName::Router.get_executable(true),
        "/Users/amarkov/Documents/Projects/rust/batching_service/target/debug/router"
    );
}

#[test]
fn arguments_per_program() {
    let a = args();
    assert_eq!(a.get_arguments(&ProgramName::GrpcServer), vec!["--port", "50051"]);
    assert_eq!(
        a.get_arguments(&ProgramName::Router),
        vec!["--address", "0.0.0.0:8080", "--grpc-address", "127.0.0.1:50051"]
    );
    assert_eq!(
        a.get_arguments(&ProgramName::TGBot),
        vec!["--reply-server-address", "0.0.0.0:8080", "--tg-token", "SECRET-REDACTED"]
    );
}

#[test]
fn port_digits_at_the_edges() {
    let mut a = args();
    a.grpc_port = 0;
    assert_eq!(a.get_arguments(&ProgramName::GrpcServer), vec!["--port", "0"]);
    a.grpc_port = 65535;
    assert_eq!(a.get_arguments(&ProgramName::GrpcServer), vec!["--port", "65535"]);
    a.grpc_port = 10;
    assert_eq!(a.get_arguments(&ProgramName::GrpcServer), vec!["--port", "10"]);
}

#[test]
fn graceful_then_forced_stop() {
    assert_eq!(stop_step(true, 500, 100), StopAction::Done);
    assert_eq!(stop_step(false, 0, 100), StopAction::Wait);
    assert_eq!(stop_step(false, 99, 100), StopAction::Wait);
    assert_eq!(stop_step(false, 100, 100), StopAction::Kill);
}

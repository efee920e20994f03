use shabtzak_shell::config::injection_script;
use shabtzak_shell::supervisor::Supervisor;
use shabtzak_shell::DEFAULT_PORT;

#[test]
fn starts_on_the_default_port() {
    assert_eq!(DEFAULT_PORT, 8000);
    let supervisor = Supervisor::new();
    assert_eq!(supervisor.port, 8000);
}

#[test]
fn ordinary_lines_change_nothing() {
    let mut supervisor = Supervisor::new();
    let effect = supervisor.process_line("INFO: Started server process");
    assert_eq!(supervisor.port, 8000);
    assert!(effect.update.is_none());
    assert_eq!(effect.log_line, "[api] INFO: Started server process");
}

#[test]
fn announcement_updates_port_url_and_script() {
    let mut supervisor = Supervisor::new();
    let effect =
        supervisor.process_line("Uvicorn running on http://127.0.0.1:8005 (Press CTRL+C to quit)");
    assert_eq!(supervisor.port, 8005);
    let update = effect.update.expect("an announcement must yield an update");
    assert_eq!(update.port, 8005);
    assert_eq!(update.url, "http://localhost:8005");
    assert_eq!(
        update.script,
        "window.__BACKEND_URL__ = 'http://localhost:8005'; \
         if (typeof localStorage !== 'undefined') { \
         localStorage.setItem('backend_url', 'http://localhost:8005'); } \
         if (window.updateApiBaseURL) { \
         window.updateApiBaseURL('http://localhost:8005'); }"
    );
}

#[test]
fn injection_script_mentions_the_url_three_times() {
    let script = injection_script("http://localhost:9000");
    assert_eq!(script.matches("http://localhost:9000").count(), 3);
    assert!(script.starts_with("window.__BACKEND_URL__ = '"));
}

#[test]
fn last_announcement_governs() {
    let mut supervisor = Supervisor::new();
    supervisor.process_line("Uvicorn running on http://127.0.0.1:8001 (Press CTRL+C to quit)");
    assert_eq!(supervisor.port, 8001);
    let effect =
        supervisor.process_line("Uvicorn running on http://127.0.0.1:8002 (Press CTRL+C to quit)");
    assert_eq!(supervisor.port, 8002);
    assert_eq!(effect.update.expect("second announcement").url, "http://localhost:8002");
}

#[test]
fn log_lines_are_prefixed_and_stripped() {
    let mut supervisor = Supervisor::new();
    let effect = supervisor.process_line("\x1b[32mOK\x1b[0m");
    assert_eq!(effect.log_line, "[api] OK");
    assert!(effect.update.is_none());
    // The port scan reads the raw line, stripping only affects the log.
    let framed = supervisor
        .process_line("\x1b[1mINFO\x1b[0m: Uvicorn running on http://127.0.0.1:8003 ready");
    assert_eq!(framed.log_line, "[api] INFO: Uvicorn running on http://127.0.0.1:8003 ready");
    assert_eq!(supervisor.port, 8003);
}

#[test]
fn non_ascii_lines_are_logged_verbatim() {
    let mut supervisor = Supervisor::new();
    let effect = supervisor.process_line("נתונים נטענו");
    assert_eq!(effect.log_line, "[api] נתונים נטענו");
    assert!(effect.update.is_none());
}

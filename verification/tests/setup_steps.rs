use shabtzak_shell::config::connection_string;
use shabtzak_shell::config::u16_to_string;
use shabtzak_shell::setup::apply_seed;
use shabtzak_shell::setup::choose_data_dir;
use shabtzak_shell::setup::plan_launch;
use shabtzak_shell::setup::seed_action;
use shabtzak_shell::setup::SeedAction;

#[test]
fn fresh_install_copies_template() {
    let template = b"soldier records".to_vec();
    let seeded = apply_seed(None, Some(template.clone()));
    assert_eq!(seeded, Some(template));
}

#[test]
fn existing_database_is_never_replaced() {
    let existing = b"user data".to_vec();
    let template = b"different template".to_vec();
    let seeded = apply_seed(Some(existing.clone()), Some(template));
    assert_eq!(seeded, Some(existing.clone()));
    let seeded_without_template = apply_seed(Some(existing.clone()), None);
    assert_eq!(seeded_without_template, Some(existing));
}

#[test]
fn missing_template_leaves_nothing() {
    assert_eq!(apply_seed(None, None), None);
}

#[test]
fn seed_action_copies_only_on_first_run() {
    assert_eq!(seed_action(false, true), SeedAction::CopyTemplate);
    assert_eq!(seed_action(true, true), SeedAction::LeaveInPlace);
    assert_eq!(seed_action(true, false), SeedAction::LeaveInPlace);
    assert_eq!(seed_action(false, false), SeedAction::LeaveInPlace);
}

#[test]
fn data_dir_falls_back_to_temp() {
    let chosen = choose_data_dir(Some("/home/someone/.local/share/app".to_string()), "/tmp/shabtzak".to_string());
    assert_eq!(chosen, "/home/someone/.local/share/app");
    let fallback = choose_data_dir(None, "/tmp/shabtzak".to_string());
    assert_eq!(fallback, "/tmp/shabtzak");
}

#[test]
fn connection_string_uses_forward_slashes() {
    assert_eq!(
        connection_string("C:\\Users\\someone\\AppData\\shabtzak.db"),
        "sqlite:///C:/Users/someone/AppData/shabtzak.db"
    );
    assert_eq!(
        connection_string("/home/someone/.local/share/shabtzak.db"),
        "sqlite:////home/someone/.local/share/shabtzak.db"
    );
    assert_eq!(connection_string(""), "sqlite:///");
}

#[test]
fn launch_plan_names_the_sidecar() {
    let plan = plan_launch("/data/shabtzak.db");
    assert_eq!(plan.program, "api-server");
    let args: Vec<&str> = plan.args.iter().map(|a| a.as_str()).collect();
    assert_eq!(args, vec!["--host", "127.0.0.1", "--port", "8000"]);
    assert_eq!(plan.env_key, "DATABASE_URL");
    assert_eq!(plan.env_value, "sqlite:////data/shabtzak.db");
}

#[test]
fn ports_render_in_decimal() {
    assert_eq!(u16_to_string(0), "0");
    assert_eq!(u16_to_string(7), "7");
    assert_eq!(u16_to_string(100), "100");
    assert_eq!(u16_to_string(8000), "8000");
    assert_eq!(u16_to_string(65535), "65535");
}

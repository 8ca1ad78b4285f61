use tedge_core::{
    cert_create_plan, config_get_args, config_list_all_args, config_set_args,
    TedgeConfigCredentials, TedgeStep,
};

fn strs(args: &[String]) -> Vec<&str> {
    args.iter().map(|a| a.as_str()).collect()
}

#[test]
fn default_credentials() {
    let credentials = TedgeConfigCredentials::default();
    assert_eq!(credentials.c8y_url, "initard.basic.stage.c8y.io");
    assert_eq!(credentials.device_id, "testuser");
    assert_eq!(credentials.c8y_user, "initard-test");
}

#[test]
fn config_set_in_directory() {
    let args = config_set_args("logs.path", "/tmp/logs", Some("/tmp/dir"));
    assert_eq!(strs(&args), vec!["--config-dir", "/tmp/dir", "config", "set", "logs.path", "/tmp/logs"]);
}

#[test]
fn config_set_in_default_directory() {
    let args = config_set_args("logs.path", "/tmp", None);
    assert_eq!(strs(&args), vec!["config", "set", "logs.path", "/tmp"]);
}

#[test]
fn config_get_args_with_and_without_directory() {
    assert_eq!(strs(&config_get_args("device.id", None)), vec!["config", "get", "device.id"]);
    assert_eq!(
        strs(&config_get_args("logs.path", Some("/d"))),
        vec!["--config-dir", "/d", "config", "get", "logs.path"]
    );
}

#[test]
fn config_list_all() {
    assert_eq!(
        strs(&config_list_all_args("/d")),
        vec!["--config-dir", "/d", "config", "list", "--all"]
    );
}

#[test]
fn cert_create_steps() {
    let plan = cert_create_plan("/d");
    assert_eq!(plan.len(), 6);
    let expected_runs: Vec<(bool, Vec<&str>)> = vec![
        (true, vec!["--config-dir", "/d", "config", "set", "c8y.url", "initard.basic.stage.c8y.io"]),
        (true, vec!["--config-dir", "/d", "config", "set", "c8y.root.cert.path", "/etc/ssl/certs"]),
        (false, vec!["--config-dir", "/d", "cert", "create", "--device-id", "testuser"]),
    ];
    for (step, (wait, args)) in plan.iter().zip(expected_runs) {
        match step {
            TedgeStep::Run(a) if wait => assert_eq!(strs(a), args),
            TedgeStep::Spawn(a) if !wait => assert_eq!(strs(a), args),
            _ => panic!("unexpected step"),
        }
    }
    assert!(matches!(plan[3], TedgeStep::PauseSeconds(1)));
    match (&plan[4], &plan[5]) {
        (TedgeStep::Spawn(list), TedgeStep::Spawn(upload)) => {
            assert_eq!(strs(list), vec!["--config-dir", "/d", "config", "list", "--all"]);
            assert_eq!(
                strs(upload),
                vec!["--config-dir", "/d", "cert", "upload", "c8y", "--user", "initard-test"]
            );
        }
        _ => panic!("unexpected steps"),
    }
}

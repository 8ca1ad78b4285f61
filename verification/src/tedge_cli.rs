//! The `tedge` command lines that the integration helpers run: configuration
//! reads and writes, and the steps that create and upload a device
//! certificate.
use vstd::prelude::*;

verus! {

/// The Cumulocity account that the integration helpers use.
pub struct TedgeConfigCredentials {
    pub c8y_url: String,
    pub device_id: String,
    pub c8y_user: String,
}

impl Default for TedgeConfigCredentials {
    fn default() -> (res: Self)
        ensures
            res.c8y_url@ == "initard.basic.stage.c8y.io"@,
            res.device_id@ == "testuser"@,
            res.c8y_user@ == "initard-test"@,
    {
        TedgeConfigCredentials {
            c8y_url: String::from_str("initard.basic.stage.c8y.io"),
            device_id: String::from_str("testuser"),
            c8y_user: String::from_str("initard-test"),
        }
    }
}

/// One step of a helper that drives the `tedge` binary.
pub enum TedgeStep {
    /// Run `tedge` with these arguments and wait until it exits.
    Run(Vec<String>),
    /// Start `tedge` with these arguments and go on without waiting.
    Spawn(Vec<String>),
    /// Wait this many seconds.
    PauseSeconds(u64),
}

/// Model of `TedgeStep`.
pub enum TedgeStepModel {
    Run(Seq<Seq<char>>),
    Spawn(Seq<Seq<char>>),
    PauseSeconds(u64),
}

/// The text of each argument.
pub open spec fn args_view(args: Seq<String>) -> Seq<Seq<char>> {
    args.map_values(|a: String| a@)
}

impl View for TedgeStep {
    type V = TedgeStepModel;

    open spec fn view(&self) -> TedgeStepModel {
        match self {
            TedgeStep::Run(args) => TedgeStepModel::Run(args_view(args@)),
            TedgeStep::Spawn(args) => TedgeStepModel::Spawn(args_view(args@)),
            TedgeStep::PauseSeconds(secs) => TedgeStepModel::PauseSeconds(*secs),
        }
    }
}

/// The arguments that select a configuration directory, none for the default one.
pub open spec fn config_dir_args(config_dir: Option<Seq<char>>) -> Seq<Seq<char>> {
    match config_dir {
        Some(dir) => seq!["--config-dir"@, dir],
        None => Seq::empty(),
    }
}

/// The text of an optional argument.
pub open spec fn opt_view(s: Option<&str>) -> Option<Seq<char>> {
    match s {
        Some(t) => Some(t@),
        None => None,
    }
}

/// The command lines that select a configuration directory are those for
/// the default directory preceded by `--config-dir` and the directory.
pub proof fn law_config_dir_prefixes(dir: &str, key: Seq<char>, value: Seq<char>)
    ensures
        config_dir_args(opt_view(Some(dir))) + seq!["config"@, "set"@, key, value]
            == seq!["--config-dir"@, dir@] + (config_dir_args(opt_view(None)) + seq!["config"@, "set"@, key, value]),
        config_dir_args(opt_view(Some(dir))) + seq!["config"@, "get"@, key]
            == seq!["--config-dir"@, dir@] + (config_dir_args(opt_view(None)) + seq!["config"@, "get"@, key]),
        config_dir_args(opt_view(None)) + seq!["config"@, "get"@, key] == seq!["config"@, "get"@, key],
{
    assert(config_dir_args(opt_view(Some(dir))) + seq!["config"@, "set"@, key, value]
        =~= seq!["--config-dir"@, dir@] + (config_dir_args(opt_view(None)) + seq!["config"@, "set"@, key, value]));
    assert(config_dir_args(opt_view(Some(dir))) + seq!["config"@, "get"@, key]
        =~= seq!["--config-dir"@, dir@] + (config_dir_args(opt_view(None)) + seq!["config"@, "get"@, key]));
    assert(config_dir_args(opt_view(None)) + seq!["config"@, "get"@, key] =~= seq!["config"@, "get"@, key]);
}

fn push_arg(args: &mut Vec<String>, arg: &str)
    ensures
        args_view(final(args)@) == args_view(old(args)@).push(arg@),
{
    args.push(String::from_str(arg));
    assert(args_view(args@) =~= args_view(old(args)@).push(arg@));
}

fn start_args(config_dir: Option<&str>) -> (res: Vec<String>)
    ensures
        args_view(res@) == config_dir_args(opt_view(config_dir)),
{
    let mut args = Vec::new();
    match config_dir {
        Some(dir) => {
            push_arg(&mut args, "--config-dir");
            push_arg(&mut args, dir);
        },
        None => {},
    }
    assert(args_view(args@) =~= config_dir_args(opt_view(config_dir)));
    args
}

/// `tedge config set KEY VALUE`, in `config_dir` when one is given.
pub fn config_set_args(key: &str, value: &str, config_dir: Option<&str>) -> (res: Vec<String>)
    ensures
        args_view(res@) == config_dir_args(opt_view(config_dir)) + seq!["config"@, "set"@, key@, value@],
{
    let mut args = start_args(config_dir);
    push_arg(&mut args, "config");
    push_arg(&mut args, "set");
    push_arg(&mut args, key);
    push_arg(&mut args, value);
    assert(args_view(args@) =~= config_dir_args(opt_view(config_dir)) + seq!["config"@, "set"@, key@, value@]);
    args
}

/// `tedge config get KEY`, in `config_dir` when one is given.
pub fn config_get_args(key: &str, config_dir: Option<&str>) -> (res: Vec<String>)
    ensures
        args_view(res@) == config_dir_args(opt_view(config_dir)) + seq!["config"@, "get"@, key@],
{
    let mut args = start_args(config_dir);
    push_arg(&mut args, "config");
    push_arg(&mut args, "get");
    push_arg(&mut args, key);
    assert(args_view(args@) =~= config_dir_args(opt_view(config_dir)) + seq!["config"@, "get"@, key@]);
    args
}

/// `tedge config list --all` in `config_dir`.
pub fn config_list_all_args(config_dir: &str) -> (res: Vec<String>)
    ensures
        args_view(res@) == seq!["--config-dir"@, config_dir@, "config"@, "list"@, "--all"@],
{
    let mut args = start_args(Some(config_dir));
    push_arg(&mut args, "config");
    push_arg(&mut args, "list");
    push_arg(&mut args, "--all");
    assert(args_view(args@) =~= seq!["--config-dir"@, config_dir@, "config"@, "list"@, "--all"@]);
    args
}

/// The steps that create a device certificate in `directory_path` and
/// upload it to Cumulocity: set the cloud's URL and root certificate path,
/// start creating the certificate, wait a second, then start listing the
/// configuration and start the upload.
pub open spec fn spec_cert_create_plan(dir: Seq<char>) -> Seq<TedgeStepModel> {
    seq![
        TedgeStepModel::Run(seq!["--config-dir"@, dir, "config"@, "set"@, "c8y.url"@, "initard.basic.stage.c8y.io"@]),
        TedgeStepModel::Run(seq!["--config-dir"@, dir, "config"@, "set"@, "c8y.root.cert.path"@, "/etc/ssl/certs"@]),
        TedgeStepModel::Spawn(seq!["--config-dir"@, dir, "cert"@, "create"@, "--device-id"@, "testuser"@]),
        TedgeStepModel::PauseSeconds(1),
        TedgeStepModel::Spawn(seq!["--config-dir"@, dir, "config"@, "list"@, "--all"@]),
        TedgeStepModel::Spawn(seq!["--config-dir"@, dir, "cert"@, "upload"@, "c8y"@, "--user"@, "initard-test"@]),
    ]
}

/// The steps that create a device certificate in `directory_path` and upload it.
pub fn cert_create_plan(directory_path: &str) -> (res: Vec<TedgeStep>)
    ensures
        res@.map_values(|s: TedgeStep| s@) == spec_cert_create_plan(directory_path@),
{
    let mut plan: Vec<TedgeStep> = Vec::new();
    let dir = Some(directory_path);
    plan.push(TedgeStep::Run(config_set_args("c8y.url", "initard.basic.stage.c8y.io", dir)));
    plan.push(TedgeStep::Run(config_set_args("c8y.root.cert.path", "/etc/ssl/certs", dir)));

    let mut create = start_args(dir);
    push_arg(&mut create, "cert");
    push_arg(&mut create, "create");
    push_arg(&mut create, "--device-id");
    push_arg(&mut create, "testuser");
    assert(args_view(create@) =~= seq!["--config-dir"@, directory_path@, "cert"@, "create"@, "--device-id"@, "testuser"@]);
    plan.push(TedgeStep::Spawn(create));

    plan.push(TedgeStep::PauseSeconds(1));
    plan.push(TedgeStep::Spawn(config_list_all_args(directory_path)));

    let mut upload = start_args(dir);
    push_arg(&mut upload, "cert");
    push_arg(&mut upload, "upload");
    push_arg(&mut upload, "c8y");
    push_arg(&mut upload, "--user");
    push_arg(&mut upload, "initard-test");
    assert(args_view(upload@) =~= seq!["--config-dir"@, directory_path@, "cert"@, "upload"@, "c8y"@, "--user"@, "initard-test"@]);
    plan.push(TedgeStep::Spawn(upload));

    let ghost d = directory_path@;
    assert(config_dir_args(opt_view(dir)) + seq!["config"@, "set"@, "c8y.url"@, "initard.basic.stage.c8y.io"@]
        =~= seq!["--config-dir"@, d, "config"@, "set"@, "c8y.url"@, "initard.basic.stage.c8y.io"@]);
    assert(config_dir_args(opt_view(dir)) + seq!["config"@, "set"@, "c8y.root.cert.path"@, "/etc/ssl/certs"@]
        =~= seq!["--config-dir"@, d, "config"@, "set"@, "c8y.root.cert.path"@, "/etc/ssl/certs"@]);
    let ghost steps = plan@.map_values(|s: TedgeStep| s@);
    let ghost expected = spec_cert_create_plan(d);
    assert(steps.len() == expected.len());
    assert(steps[0] == expected[0]);
    assert(steps[1] == expected[1]);
    assert(steps[2] == expected[2]);
    assert(steps[3] == expected[3]);
    assert(steps[4] == expected[4]);
    assert(steps[5] == expected[5]);
    assert(steps =~= expected);
    plan
}

} // verus!

use cargo_repo::metric::MetricRow;
use cargo_repo::setup::{
    cargo_image, choose_or, deployment_namespace, split_image, Discovered, SetupError, SetupOpts,
};

fn nothing_chosen() -> SetupOpts {
    SetupOpts {
        docker_host: None,
        state_dir: None,
        conf_dir: None,
        gateway: None,
        advertise_addr: None,
        deamon_hosts: None,
        group: None,
        hostname: None,
    }
}

fn parts(name: &str, tag: &str) -> Result<(String, String), SetupError> {
    Ok((name.to_string(), tag.to_string()))
}

fn found() -> Discovered {
    Discovered {
        gateway: Some("192.168.1.1".to_string()),
        hostname: Some("box".to_string()),
        gid: Some(998),
    }
}

#[test]
fn defaults_apply_where_nothing_was_chosen() {
    let args = nothing_chosen().resolve(&found()).unwrap();
    assert_eq!(args.docker_host, "unix:///var/run/docker.sock");
    assert_eq!(args.state_dir, "/var/lib/nanocl");
    assert_eq!(args.conf_dir, "/etc/nanocl");
    assert_eq!(args.gateway, "192.168.1.1");
    assert_eq!(args.advertise_addr, "192.168.1.1");
    assert_eq!(args.hosts, vec!["unix:///run/nanocl/nanocl.sock"]);
    assert_eq!(args.gid, 998);
    assert_eq!(args.hostname, "box");
}

#[test]
fn choices_win_over_defaults_and_over_what_was_found() {
    let options = SetupOpts {
        docker_host: Some("tcp://docker:2375".to_string()),
        state_dir: Some("/srv/state".to_string()),
        conf_dir: Some("/srv/conf".to_string()),
        gateway: Some("10.0.0.1".to_string()),
        advertise_addr: Some("10.0.0.2".to_string()),
        deamon_hosts: Some(vec![
            "tcp://0.0.0.0:8585".to_string(),
            "unix:///tmp/n.sock".to_string(),
        ]),
        group: Some("ops".to_string()),
        hostname: Some("chosen".to_string()),
    };
    let args = options.resolve(&found()).unwrap();
    assert_eq!(args.docker_host, "tcp://docker:2375");
    assert_eq!(args.state_dir, "/srv/state");
    assert_eq!(args.conf_dir, "/srv/conf");
    assert_eq!(args.gateway, "10.0.0.1");
    assert_eq!(args.advertise_addr, "10.0.0.2");
    assert_eq!(args.hosts, vec!["tcp://0.0.0.0:8585", "unix:///tmp/n.sock"]);
    assert_eq!(args.hostname, "chosen");
    assert_eq!(args.gid, 998);
    assert_eq!(options.group_to_find(), "ops");
    assert!(!options.needs_gateway());
    assert!(!options.needs_hostname());
}

#[test]
fn advertised_address_follows_the_chosen_gateway() {
    let mut options = nothing_chosen();
    options.gateway = Some("10.0.0.1".to_string());
    let args = options.resolve(&found()).unwrap();
    assert_eq!(args.gateway, "10.0.0.1");
    assert_eq!(args.advertise_addr, "10.0.0.1");
}

#[test]
fn what_is_left_open_is_to_be_found() {
    let options = nothing_chosen();
    assert!(options.needs_gateway());
    assert!(options.needs_hostname());
    assert_eq!(options.group_to_find(), "nanocl");
}

#[test]
fn missing_gateway_group_and_hostname_are_reported_in_that_order() {
    let none = Discovered { gateway: None, hostname: None, gid: None };
    assert_eq!(nothing_chosen().resolve(&none).err(), Some(SetupError::NoGateway));
    let gateway_only = Discovered { gateway: Some("g".to_string()), hostname: None, gid: None };
    assert_eq!(nothing_chosen().resolve(&gateway_only).err(), Some(SetupError::NoGroup));
    let no_hostname = Discovered { gateway: Some("g".to_string()), hostname: None, gid: Some(1) };
    assert_eq!(nothing_chosen().resolve(&no_hostname).err(), Some(SetupError::NoHostname));
    let mut chosen = nothing_chosen();
    chosen.gateway = Some("g".to_string());
    chosen.hostname = Some("h".to_string());
    assert_eq!(chosen.resolve(&none).err(), Some(SetupError::NoGroup));
    let gid_only = Discovered { gateway: None, hostname: None, gid: Some(7) };
    let args = chosen.resolve(&gid_only).unwrap();
    assert_eq!(args.gid, 7);
    assert_eq!(args.hostname, "h");
}

#[test]
fn image_splits_into_name_and_tag() {
    assert_eq!(split_image("nginx:1"), parts("nginx", "1"));
    assert_eq!(split_image("ghcr.io/org/app:1.2.3"), parts("ghcr.io/org/app", "1.2.3"));
}

#[test]
fn image_without_a_tag_is_refused() {
    assert_eq!(split_image("nginx"), Err(SetupError::NoImageTag));
    assert_eq!(split_image(""), Err(SetupError::NoImageTag));
}

#[test]
fn image_parts_end_at_the_marks() {
    assert_eq!(split_image("nginx:"), parts("nginx", ""));
    assert_eq!(split_image(":1"), parts("", "1"));
    assert_eq!(split_image(":"), parts("", ""));
    assert_eq!(split_image("registry:5000/app:1"), parts("registry", "5000/app"));
    assert_eq!(split_image("a::b"), parts("a", ""));
    assert_eq!(split_image("é:ü"), parts("é", "ü"));
}

#[test]
fn cargo_without_an_image_is_refused() {
    assert_eq!(cargo_image(&None), Err(SetupError::NoImage));
    assert_eq!(cargo_image(&Some("nginx".to_string())), Err(SetupError::NoImageTag));
    assert_eq!(cargo_image(&Some("nginx:1".to_string())), parts("nginx", "1"));
}

#[test]
fn installer_deploys_into_system_unless_it_names_a_namespace() {
    assert_eq!(deployment_namespace(&None), "system");
    assert_eq!(deployment_namespace(&Some("global".to_string())), "global");
    assert_eq!(choose_or(&None, "x"), "x");
    assert_eq!(choose_or(&Some("y".to_string()), "x"), "y");
}

#[test]
fn metrics_are_listed_by_their_key() {
    let row = MetricRow {
        key: "m-1".to_string(),
        created_at: "2024-01-01".to_string(),
        node_name: "box".to_string(),
        kind: "cpu".to_string(),
    };
    assert_eq!(MetricRow::object_name(), "metrics");
    assert_eq!(row.get_key(), "m-1");
}

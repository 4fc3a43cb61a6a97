use lemmy_know::config::{
    ConfigError, DiscordWebhook, EnvArgs, EnvVariables, MqttEnvVariables,
};
use lemmy_know::dispatch::{interval_millis, sleep_step};
use lemmy_know::notify::{active_notifiers, FanoutCursor, NotifierKind};

fn base_args() -> EnvArgs {
    EnvArgs {
        db_host: "localhost".to_string(),
        db_port: 5432,
        db_user: "reports".to_string(),
        db_password: "SECRET-REDACTED".to_string(),
        db_name: "reports".to_string(),
        discord_webhook: None,
        mqtt_host: None,
        mqtt_port: None,
        mqtt_user: None,
        mqtt_password: None,
        interval: 60,
    }
}

#[test]
fn mqtt_requires_both_user_and_password() {
    let mut args = base_args();
    args.mqtt_host = Some("broker.example".to_string());
    args.mqtt_port = Some(1883);
    args.mqtt_user = Some("bot".to_string());
    let r = MqttEnvVariables::try_from_args(&args);
    assert!(matches!(r, Err(ConfigError::MqttUserWithoutPassword)));

    args.mqtt_user = None;
    args.mqtt_password = Some("SECRET-REDACTED".to_string());
    let r = MqttEnvVariables::try_from_args(&args);
    assert!(matches!(r, Err(ConfigError::MqttPasswordWithoutUser)));
}

#[test]
fn mqtt_requires_host_and_port() {
    let args = base_args();
    assert!(matches!(
        MqttEnvVariables::try_from_args(&args),
        Err(ConfigError::MqttHostMissing)
    ));

    let mut with_host = base_args();
    with_host.mqtt_host = Some("broker.example".to_string());
    assert!(matches!(
        MqttEnvVariables::try_from_args(&with_host),
        Err(ConfigError::MqttPortMissing)
    ));
}

#[test]
fn mqtt_complete_block_is_accepted() {
    let mut args = base_args();
    args.mqtt_host = Some("broker.example".to_string());
    args.mqtt_port = Some(1883);
    args.mqtt_user = Some("bot".to_string());
    args.mqtt_password = Some("SECRET-REDACTED".to_string());
    let vars = MqttEnvVariables::try_from_args(&args).expect("complete block");
    assert_eq!("broker.example", vars.host.as_str());
    assert_eq!(1883, vars.port);
    let creds = vars.credentials.expect("credentials kept");
    assert_eq!("bot", creds.user.as_str());
}

#[test]
fn incomplete_mqtt_block_is_dropped() {
    let mut args = base_args();
    args.mqtt_host = Some("broker.example".to_string());
    let env = EnvVariables::from_args(args);
    assert!(env.mqtt.is_none());
    assert_eq!("localhost", env.db_host.as_str());
    assert_eq!(60, env.interval);
}

#[test]
fn webhook_prefix_is_enforced() {
    let ok = DiscordWebhook::parse("https://discord.com/api/webhooks/123/abc");
    assert!(ok.is_ok());
    assert_eq!(
        "https://discord.com/api/webhooks/123/abc",
        ok.expect("valid address").url()
    );
    let bad = DiscordWebhook::parse("https://example.com/hook");
    assert!(matches!(bad, Err(ConfigError::WebhookUrlInvalid)));
    let short = DiscordWebhook::parse("https://");
    assert!(matches!(short, Err(ConfigError::WebhookUrlInvalid)));
}

#[test]
fn console_notifier_is_always_active() {
    let env = EnvVariables::from_args(base_args());
    let notifiers = active_notifiers(&env);
    assert_eq!(vec![NotifierKind::Console], notifiers);
}

#[test]
fn configured_notifiers_come_in_fixed_order() {
    let mut args = base_args();
    args.discord_webhook =
        Some(DiscordWebhook::parse("https://discord.com/api/webhooks/1/a").expect("valid"));
    args.mqtt_host = Some("broker.example".to_string());
    args.mqtt_port = Some(1883);
    let env = EnvVariables::from_args(args);
    let notifiers = active_notifiers(&env);
    assert_eq!(
        vec![NotifierKind::Console, NotifierKind::Webhook, NotifierKind::Broker],
        notifiers
    );
}

#[test]
fn fanout_visits_every_pair_despite_failures() {
    // Two reports, two notifiers; the first delivery fails. Every
    // (report, notifier) pair is still visited, in order.
    let mut cursor = FanoutCursor::new(2, 2);
    let mut visited: Vec<(usize, usize)> = Vec::new();
    let mut call: usize = 0;
    while !(cursor.report_idx >= cursor.n_reports) {
        visited.push((cursor.report_idx, cursor.notifier_idx));
        let delivered = call != 0;
        cursor.advance(delivered);
        call += 1;
    }
    assert_eq!(vec![(0, 0), (0, 1), (1, 0), (1, 1)], visited);
}

#[test]
fn fanout_with_no_notifiers_does_nothing() {
    let cursor = FanoutCursor::new(3, 0);
    assert!(cursor.report_idx >= cursor.n_reports);
}

#[test]
fn sleep_is_cut_into_short_checks() {
    assert_eq!((100, 150), sleep_step(250));
    assert_eq!((100, 0), sleep_step(100));
    assert_eq!((40, 0), sleep_step(40));
    assert_eq!((0, 0), sleep_step(0));
    assert_eq!(60000, interval_millis(60));
    assert_eq!(u64::MAX, interval_millis(u64::MAX));
}

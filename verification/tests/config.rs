use std::io::ErrorKind;
use std::time::Duration;

use afar::backend::local::{LocalShell, LocalShellConfig};
use afar::backend::ssh::{HostKeyPolicy, SshAuth, SshConfig, SshSession};
use afar::live_multi;
use afar::multi_terminal;

#[test]
fn ssh_config_for_host_defaults() {
    let c = SshConfig::for_host("edge-01".to_string(), "root".to_string());
    assert_eq!(c.host, "edge-01");
    assert_eq!(c.user, "root");
    assert_eq!(c.port, 22);
    assert!(matches!(c.auth, SshAuth::Agent));
    assert!(matches!(c.host_key, HostKeyPolicy::StrictKnownHosts));
    assert!(c.on_mismatch.is_none());
    assert_eq!(c.keepalive, Some(Duration::from_secs(30)));
    assert_eq!(c.connect_timeout, Duration::from_secs(10));
    assert!(!c.agent_forward);
    assert!(c.env.is_empty());
    assert_eq!(c.term, "xterm-256color");
    assert!(c.allocate_pty);
}

#[test]
fn ssh_config_no_pty_keeps_everything_else() {
    let c = SshConfig::for_host("h".to_string(), "u".to_string()).no_pty();
    assert!(!c.allocate_pty);
    assert_eq!(c.host, "h");
    assert_eq!(c.user, "u");
    assert_eq!(c.port, 22);
    assert_eq!(c.term, "xterm-256color");
}

#[test]
fn ssh_config_default_is_root_at_empty_host() {
    let c = SshConfig::default();
    assert_eq!(c.host, "");
    assert_eq!(c.user, "root");
    assert!(c.allocate_pty);
    let d = c.clone();
    assert_eq!(d.user, "root");
    assert_eq!(d.keepalive, Some(Duration::from_secs(30)));
}

#[test]
fn ssh_connect_is_unsupported() {
    match SshSession::connect(SshConfig::default()) {
        Err(e) => assert_eq!(e.kind(), ErrorKind::Unsupported),
        Ok(_) => panic!("connect succeeded"),
    }
}

#[test]
fn local_shell_config_default_and_new() {
    let c = LocalShellConfig::default();
    assert!(c.program.is_none());
    assert!(c.args.is_empty());
    assert!(c.env.is_empty());
    assert_eq!(c.initial_size, (80, 24));
    let mut c2 = c.clone();
    c2.args.push("-l".to_string());
    assert_eq!(c2.clone().args, vec!["-l".to_string()]);
    match LocalShell::new(c) {
        Err(e) => assert_eq!(e.kind(), ErrorKind::Unsupported),
        Ok(_) => panic!("new succeeded"),
    }
}

#[test]
fn overflow_policy_defaults_to_drop_newest() {
    assert_eq!(multi_terminal::OverflowPolicy::default(), multi_terminal::OverflowPolicy::DropNewest);
    assert_eq!(live_multi::OverflowPolicy::default(), live_multi::OverflowPolicy::DropNewest);
}

#[test]
fn ssh_auth_and_policy_clone_keep_their_variant() {
    let a = SshAuth::Key { path: "/k".into(), passphrase: Some("pw".to_string()) };
    match a.clone() {
        SshAuth::Key { path, passphrase } => {
            assert_eq!(path, std::path::PathBuf::from("/k"));
            assert_eq!(passphrase.as_deref(), Some("pw"));
        }
        SshAuth::Agent => panic!("variant changed"),
    }
    let p = HostKeyPolicy::TofuStore { path: "/store".into() };
    assert!(matches!(p.clone(), HostKeyPolicy::TofuStore { .. }));
    let mut c = SshConfig::default();
    c.host_key = p;
    assert!(matches!(c.clone().host_key, HostKeyPolicy::TofuStore { .. }));
}

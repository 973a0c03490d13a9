use vpnget::cmd::{
    build_openvpn_command, decrypt_command, execute_cmd, pre_enter_sudo, remove_file_extension,
    resolve, run_openvpn_command, unlock_gpg, DeletionTask, Invocation,
    DEFAULT_CREDENTIALS_DELETE_TIMER,
};
use vpnget::common::Options;
use vpnget::error::{CommandError, ResolutionError, UnlockError};

fn names(items: &[&str]) -> Vec<String> {
    items.iter().map(|s| s.to_string()).collect()
}

fn udp_options<'a>() -> Options<'a> {
    Options::new()
        .with_base_folder("ovpn")
        .with_udp_suffix(".udp.ovpn")
        .with_tcp_suffix(".tcp.ovpn")
}

#[test]
fn second_candidate_has_its_file() {
    let mut hosts = names(&["de1", "de2"]);
    let files = names(&["de2.udp.ovpn"]);
    let opt = udp_options().with_use_udp(true).with_random(false);
    let path = resolve(&mut hosts, &opt, &files).unwrap();
    assert!(path.ends_with("de2.udp.ovpn"));
    assert_eq!(path, "ovpn/de2.udp.ovpn");
    assert_eq!(hosts, names(&["de1", "de2"]));
}

#[test]
fn forced_file_is_returned_verbatim() {
    let mut hosts = names(&["de1", "de2"]);
    let files = names(&["de2.udp.ovpn"]);
    let opt = udp_options().with_forced(Some("manual.ovpn"));
    assert_eq!(resolve(&mut hosts, &opt, &files), Ok("manual.ovpn".to_string()));
    assert_eq!(hosts, names(&["de1", "de2"]));
}

#[test]
fn forced_file_ignores_candidates_disk_and_randomization() {
    let opt = udp_options().with_forced(Some("some/where.conf")).with_random(true);
    let mut none: Vec<String> = Vec::new();
    assert_eq!(resolve(&mut none, &opt, &Vec::new()), Ok("some/where.conf".to_string()));
    let mut many = names(&["a", "b", "c", "d", "e", "f", "g", "h"]);
    let files = names(&["a.udp.ovpn", "b.udp.ovpn"]);
    assert_eq!(resolve(&mut many, &opt, &files), Ok("some/where.conf".to_string()));
    assert_eq!(many, names(&["a", "b", "c", "d", "e", "f", "g", "h"]));
}

#[test]
fn no_candidates_and_nothing_forced_is_no_match() {
    let mut hosts: Vec<String> = Vec::new();
    let files = names(&["de2.udp.ovpn"]);
    assert_eq!(resolve(&mut hosts, &udp_options(), &files), Err(ResolutionError::NoMatch));
    let random = udp_options().with_random(true);
    assert_eq!(resolve(&mut hosts, &random, &files), Err(ResolutionError::NoMatch));
    assert_eq!(build_openvpn_command(&mut hosts, &random, &files), Err(ResolutionError::NoMatch));
}

#[test]
fn no_candidate_with_a_file_is_no_match() {
    let mut hosts = names(&["de1", "de2"]);
    let files = names(&["de3.udp.ovpn", "de1.tcp.ovpn", "de1"]);
    assert_eq!(resolve(&mut hosts, &udp_options(), &files), Err(ResolutionError::NoMatch));
    assert_eq!(resolve(&mut hosts, &udp_options(), &Vec::new()), Err(ResolutionError::NoMatch));
}

#[test]
fn first_candidate_with_a_file_wins_in_input_order() {
    let mut hosts = names(&["us9", "ca3", "de1", "ca1"]);
    let files = names(&["ca1.udp.ovpn", "de1.udp.ovpn", "ca3.udp.ovpn"]);
    assert_eq!(resolve(&mut hosts, &udp_options(), &files), Ok("ovpn/ca3.udp.ovpn".to_string()));
    let only_last = names(&["ca1.udp.ovpn"]);
    assert_eq!(
        resolve(&mut hosts, &udp_options(), &only_last),
        Ok("ovpn/ca1.udp.ovpn".to_string())
    );
}

#[test]
fn suffix_follows_the_transport() {
    let files = names(&["de1.tcp.ovpn", "de2.udp.ovpn"]);
    let mut hosts = names(&["de1", "de2"]);
    let udp = udp_options().with_use_udp(true);
    assert_eq!(udp.transport_suffix(), ".udp.ovpn");
    assert_eq!(resolve(&mut hosts, &udp, &files), Ok("ovpn/de2.udp.ovpn".to_string()));
    let tcp = udp_options().with_use_udp(false);
    assert_eq!(tcp.transport_suffix(), ".tcp.ovpn");
    assert_eq!(resolve(&mut hosts, &tcp, &files), Ok("ovpn/de1.tcp.ovpn".to_string()));
}

#[test]
fn host_names_are_not_stripped_of_extensions() {
    let files = names(&["de1.udp.ovpn"]);
    let mut hosts = names(&["de1.nordvpn.com"]);
    assert_eq!(resolve(&mut hosts, &udp_options(), &files), Err(ResolutionError::NoMatch));
    let full = names(&["de1.nordvpn.com.udp.ovpn"]);
    assert_eq!(
        resolve(&mut hosts, &udp_options(), &full),
        Ok("ovpn/de1.nordvpn.com.udp.ovpn".to_string())
    );
}

#[test]
fn random_order_keeps_the_candidates_and_takes_the_first_tried() {
    let given: Vec<String> = (0..40).map(|i| format!("host{}", i)).collect();
    let files: Vec<String> = given.iter().map(|h| format!("{}.udp.ovpn", h)).collect();
    let opt = udp_options().with_random(true);
    let mut moved = false;
    for _ in 0..20 {
        let mut hosts = given.clone();
        let path = resolve(&mut hosts, &opt, &files).unwrap();
        assert_eq!(path, format!("ovpn/{}.udp.ovpn", hosts[0]));
        let mut sorted = hosts.clone();
        sorted.sort();
        let mut expected = given.clone();
        expected.sort();
        assert_eq!(sorted, expected);
        if hosts != given {
            moved = true;
        }
    }
    assert!(moved);
}

#[test]
fn random_order_still_finds_the_only_file() {
    let given: Vec<String> = (0..30).map(|i| format!("host{}", i)).collect();
    let files = names(&["host17.udp.ovpn"]);
    let opt = udp_options().with_random(true);
    for _ in 0..10 {
        let mut hosts = given.clone();
        assert_eq!(resolve(&mut hosts, &opt, &files), Ok("ovpn/host17.udp.ovpn".to_string()));
        assert_eq!(hosts.len(), given.len());
    }
}

#[test]
fn command_line_without_credentials() {
    let mut hosts = names(&["de1", "de2"]);
    let files = names(&["de2.udp.ovpn"]);
    assert_eq!(
        build_openvpn_command(&mut hosts, &udp_options(), &files),
        Ok("sudo openvpn --config ovpn/de2.udp.ovpn".to_string())
    );
}

#[test]
fn command_line_with_credentials() {
    let mut hosts = names(&["de1", "de2"]);
    let files = names(&["de1.udp.ovpn"]);
    let opt = udp_options().with_credential_file(Some("credentials_vpn.gpg"));
    assert_eq!(
        build_openvpn_command(&mut hosts, &opt, &files),
        Ok("sudo openvpn --config ovpn/de1.udp.ovpn --auth-user-pass credentials_vpn".to_string())
    );
}

#[test]
fn command_line_for_a_forced_file() {
    let mut hosts: Vec<String> = Vec::new();
    let opt = udp_options().with_forced(Some("manual.ovpn")).with_credential_file(Some("c.gpg"));
    assert_eq!(
        build_openvpn_command(&mut hosts, &opt, &Vec::new()),
        Ok("sudo openvpn --config manual.ovpn --auth-user-pass c".to_string())
    );
}

#[test]
fn launch_is_the_split_command_line() {
    let mut hosts = names(&["de1"]);
    let files = names(&["de1.udp.ovpn"]);
    let opt = udp_options().with_credential_file(Some("creds.gpg"));
    assert_eq!(
        run_openvpn_command(&mut hosts, &opt, &files),
        Ok(Invocation {
            program: "sudo".to_string(),
            args: names(&["openvpn", "--config", "ovpn/de1.udp.ovpn", "--auth-user-pass", "creds"]),
        })
    );
    assert_eq!(
        run_openvpn_command(&mut hosts, &opt, &Vec::new()),
        Err(ResolutionError::NoMatch)
    );
}

#[test]
fn command_lines_split_at_single_blanks() {
    assert_eq!(
        execute_cmd("gpg file".to_string()),
        Ok(Invocation { program: "gpg".to_string(), args: names(&["file"]) })
    );
    assert_eq!(
        execute_cmd("ls".to_string()),
        Ok(Invocation { program: "ls".to_string(), args: Vec::new() })
    );
    assert_eq!(
        execute_cmd("a  b ".to_string()),
        Ok(Invocation { program: "a".to_string(), args: names(&["", "b", ""]) })
    );
}

#[test]
fn command_line_without_a_program() {
    assert_eq!(execute_cmd(String::new()), Err(CommandError::NoCommand));
    assert_eq!(execute_cmd(" ls".to_string()), Err(CommandError::NoCommand));
    assert_eq!(execute_cmd(" ".to_string()), Err(CommandError::NoCommand));
}

#[test]
fn sudo_is_asked_for_ahead() {
    assert_eq!(
        pre_enter_sudo(),
        Invocation { program: "sudo".to_string(), args: names(&["echo"]) }
    );
}

#[test]
fn final_extension_is_stripped() {
    assert_eq!(remove_file_extension("creds.gpg"), "creds");
    assert_eq!(remove_file_extension("creds.tar.gz"), "creds.tar");
    assert_eq!(remove_file_extension("keys/creds.gpg"), "keys/creds");
    assert_eq!(remove_file_extension("keys.d/creds.gpg"), "keys.d/creds");
    assert_eq!(remove_file_extension("creds."), "creds");
    assert_eq!(remove_file_extension(".hidden.gpg"), ".hidden");
}

#[test]
fn path_without_extension_is_unchanged() {
    assert_eq!(remove_file_extension("creds"), "creds");
    assert_eq!(remove_file_extension(""), "");
    assert_eq!(remove_file_extension("keys.d/creds"), "keys.d/creds");
    assert_eq!(remove_file_extension(".hidden"), ".hidden");
    assert_eq!(remove_file_extension("keys/.hidden"), "keys/.hidden");
    assert_eq!(remove_file_extension(".."), "..");
    assert_eq!(remove_file_extension("keys/.."), "keys/..");
    assert_eq!(remove_file_extension("keys.d/"), "keys.d/");
}

#[test]
fn decryption_tool_gets_the_file() {
    assert_eq!(
        decrypt_command("credentials_vpn.gpg"),
        Invocation { program: "gpg".to_string(), args: names(&["credentials_vpn.gpg"]) }
    );
    assert_eq!(
        decrypt_command("my creds.gpg"),
        Invocation { program: "gpg".to_string(), args: names(&["my", "creds.gpg"]) }
    );
}

#[test]
fn unlocking_schedules_the_removal_of_the_unlocked_file() {
    let opt = udp_options().with_credential_file(Some("keys/creds.gpg"));
    assert_eq!(DEFAULT_CREDENTIALS_DELETE_TIMER, 1);
    assert_eq!(
        unlock_gpg(true, &opt),
        Ok(Some(DeletionTask { path: "keys/creds".to_string(), delay_secs: 1 }))
    );
}

#[test]
fn unlocking_without_a_configured_file_schedules_nothing() {
    assert_eq!(unlock_gpg(true, &udp_options()), Ok(None));
}

#[test]
fn failed_decryption_gives_neither_handle_nor_success() {
    let opt = udp_options().with_credential_file(Some("creds.gpg"));
    assert_eq!(unlock_gpg(false, &opt), Err(UnlockError::DecryptFailed));
    assert_eq!(unlock_gpg(false, &udp_options()), Err(UnlockError::DecryptFailed));
}

use vpnget::cmd::{DeletionTask, Invocation};
use vpnget::common::{Country, Options};
use vpnget::credential::{CredentialEvent, CredentialLifecycle};
use vpnget::error::{
    DirectoryError, FatalError, Failure, ResolutionError, SyncError, UnlockError,
};
use vpnget::orchestrator::{interrupt_notice, Action, Event, Fetch, Orchestrator, Phase, Step};
use vpnget::server::{Options as ServerOptions, Server, Servers};

fn names(items: &[&str]) -> Vec<String> {
    items.iter().map(|s| s.to_string()).collect()
}

fn answered(hosts: &[&str]) -> Fetch {
    let records = hosts
        .iter()
        .map(|h| Server {
            id: 1,
            created_at: String::new(),
            updated_at: String::new(),
            name: String::new(),
            station: String::new(),
            hostname: h.to_string(),
            load: 0,
            status: String::new(),
        })
        .collect();
    let list = Servers::new("u", ServerOptions { country: Country::Default, verbose: false });
    Fetch::Answered(list.update_server_list(records))
}

fn options<'a>() -> Options<'a> {
    Options::new().with_base_folder("ovpn").with_udp_suffix(".udp.ovpn")
}

fn only(action: Action) -> Option<Step> {
    Some(Step { reports: Vec::new(), action })
}

fn client(args: &[&str]) -> Invocation {
    Invocation { program: "sudo".to_string(), args: names(args) }
}

#[test]
fn no_candidates_aborts_before_any_launch() {
    let mut run = Orchestrator::new(options(), false, true);
    assert_eq!(run.phase(), Phase::Ready);
    assert_eq!(run.advance(Event::Begin), only(Action::Gather { sync: false, fetch: true }));
    assert_eq!(run.phase(), Phase::Gathering);
    let step = run.advance(Event::Joined {
        sync: None,
        fetch: Fetch::Failed(DirectoryError::Fetch),
    });
    assert_eq!(
        step,
        Some(Step {
            reports: vec![Failure::Directory(DirectoryError::Fetch)],
            action: Action::Abort { failure: Failure::Fatal(FatalError::NoCandidates) },
        })
    );
    assert!(run.is_finished());
    assert_eq!(run.advance(Event::Listed { files: names(&["de1.udp.ovpn"]) }), None);
    assert_eq!(run.advance(Event::Decrypted { ok: true }), None);
    assert_eq!(run.advance(Event::ClientExited), None);
    assert_eq!(run.advance(Event::Begin), None);
    assert!(run.is_finished());
}

#[test]
fn skipped_request_without_a_forced_file_aborts() {
    let mut run = Orchestrator::new(options(), true, false);
    assert_eq!(run.advance(Event::Begin), only(Action::Gather { sync: true, fetch: true }));
    assert_eq!(
        run.advance(Event::Joined { sync: None, fetch: Fetch::Skipped }),
        only(Action::Abort { failure: Failure::Fatal(FatalError::NoCandidates) })
    );
    assert!(run.is_finished());
}

#[test]
fn empty_answer_fails_at_resolution() {
    let mut run = Orchestrator::new(options(), false, true);
    run.advance(Event::Begin);
    assert_eq!(run.advance(Event::Joined { sync: None, fetch: answered(&[]) }), only(Action::List));
    assert_eq!(run.phase(), Phase::Listing);
    assert_eq!(
        run.advance(Event::Listed { files: names(&["de1.udp.ovpn"]) }),
        only(Action::Abort { failure: Failure::Resolution(ResolutionError::NoMatch) })
    );
    assert!(run.is_finished());
}

#[test]
fn print_mode_prints_and_starts_nothing() {
    let opt = options().with_credential_file(Some("creds.gpg"));
    let mut run = Orchestrator::new(opt, false, false);
    assert_eq!(run.credential(), Some(CredentialLifecycle::Locked));
    run.advance(Event::Begin);
    assert_eq!(
        run.advance(Event::Joined { sync: None, fetch: answered(&["de1", "de2"]) }),
        only(Action::List)
    );
    assert_eq!(
        run.advance(Event::Listed { files: names(&["de2.udp.ovpn"]) }),
        only(Action::Print {
            command: "sudo openvpn --config ovpn/de2.udp.ovpn --auth-user-pass creds".to_string(),
        })
    );
    assert!(run.is_finished());
    assert_eq!(run.credential(), Some(CredentialLifecycle::Locked));
    assert_eq!(run.advance(Event::Decrypted { ok: true }), None);
}

#[test]
fn failed_refresh_is_reported_and_the_run_goes_on() {
    let mut run = Orchestrator::new(options(), true, false);
    assert_eq!(run.advance(Event::Begin), only(Action::Gather { sync: true, fetch: true }));
    assert_eq!(
        run.advance(Event::Joined { sync: Some(SyncError::Archive), fetch: answered(&["de1"]) }),
        Some(Step { reports: vec![Failure::Sync(SyncError::Archive)], action: Action::List })
    );
    assert_eq!(
        run.advance(Event::Listed { files: names(&["de1.udp.ovpn"]) }),
        only(Action::Print { command: "sudo openvpn --config ovpn/de1.udp.ovpn".to_string() })
    );
}

#[test]
fn both_failures_are_reported_in_order() {
    let mut run = Orchestrator::new(options(), true, true);
    run.advance(Event::Begin);
    assert_eq!(
        run.advance(Event::Joined {
            sync: Some(SyncError::Io),
            fetch: Fetch::Failed(DirectoryError::Decode),
        }),
        Some(Step {
            reports: vec![
                Failure::Sync(SyncError::Io),
                Failure::Directory(DirectoryError::Decode),
            ],
            action: Action::Abort { failure: Failure::Fatal(FatalError::NoCandidates) },
        })
    );
}

#[test]
fn forced_file_skips_request_and_listing() {
    let opt = options().with_forced(Some("manual.ovpn")).with_random(true);
    let mut run = Orchestrator::new(opt, false, false);
    assert_eq!(run.advance(Event::Begin), only(Action::Gather { sync: false, fetch: false }));
    assert_eq!(
        run.advance(Event::Joined { sync: None, fetch: Fetch::Skipped }),
        only(Action::Print { command: "sudo openvpn --config manual.ovpn".to_string() })
    );
    assert!(run.is_finished());
}

#[test]
fn forced_file_wins_over_an_answer() {
    let opt = options().with_forced(Some("manual.ovpn"));
    let mut run = Orchestrator::new(opt, true, true);
    assert_eq!(run.advance(Event::Begin), only(Action::Gather { sync: true, fetch: false }));
    assert_eq!(
        run.advance(Event::Joined { sync: Some(SyncError::Fetch), fetch: answered(&["de1"]) }),
        Some(Step {
            reports: vec![Failure::Sync(SyncError::Fetch)],
            action: Action::Launch {
                client: client(&["openvpn", "--config", "manual.ovpn"]),
                deletion: None,
            },
        })
    );
    assert_eq!(run.phase(), Phase::Running);
    assert_eq!(run.advance(Event::ClientExited), only(Action::Finish));
    assert!(run.is_finished());
}

#[test]
fn launch_without_credentials() {
    let mut run = Orchestrator::new(options(), false, true);
    assert_eq!(run.credential(), None);
    run.advance(Event::Begin);
    run.advance(Event::Joined { sync: None, fetch: answered(&["de1", "de2"]) });
    assert_eq!(
        run.advance(Event::Listed { files: names(&["de2.udp.ovpn", "de1.udp.ovpn"]) }),
        only(Action::Launch {
            client: client(&["openvpn", "--config", "ovpn/de1.udp.ovpn"]),
            deletion: None,
        })
    );
    assert_eq!(run.advance(Event::Deleted), None);
    assert_eq!(run.advance(Event::ClientExited), only(Action::Finish));
    assert!(run.is_finished());
    assert_eq!(run.credential(), None);
}

#[test]
fn launch_with_credentials_waits_for_the_removal() {
    let opt = options().with_credential_file(Some("keys/creds.gpg"));
    let mut run = Orchestrator::new(opt, false, true);
    run.advance(Event::Begin);
    run.advance(Event::Joined { sync: None, fetch: answered(&["de1"]) });
    assert_eq!(
        run.advance(Event::Listed { files: names(&["de1.udp.ovpn"]) }),
        only(Action::Decrypt {
            tool: Invocation { program: "gpg".to_string(), args: names(&["keys/creds.gpg"]) },
        })
    );
    assert_eq!(run.phase(), Phase::Unlocking);
    assert_eq!(run.credential(), Some(CredentialLifecycle::Unlocking));
    assert_eq!(run.advance(Event::ClientExited), None);
    assert_eq!(
        run.advance(Event::Decrypted { ok: true }),
        only(Action::Launch {
            client: client(&[
                "openvpn",
                "--config",
                "ovpn/de1.udp.ovpn",
                "--auth-user-pass",
                "keys/creds",
            ]),
            deletion: Some(DeletionTask { path: "keys/creds".to_string(), delay_secs: 1 }),
        })
    );
    assert_eq!(run.credential(), Some(CredentialLifecycle::Unlocked));
    assert_eq!(run.advance(Event::ClientExited), only(Action::AwaitDeletion));
    assert_eq!(run.phase(), Phase::Cleaning);
    assert!(!run.is_finished());
    assert_eq!(run.advance(Event::ClientExited), None);
    assert_eq!(run.advance(Event::Deleted), only(Action::Finish));
    assert!(run.is_finished());
    assert_eq!(run.credential(), Some(CredentialLifecycle::Deleted));
}

#[test]
fn failed_decryption_ends_the_run_without_a_launch() {
    let opt = options().with_credential_file(Some("creds.gpg"));
    let mut run = Orchestrator::new(opt, false, true);
    run.advance(Event::Begin);
    run.advance(Event::Joined { sync: None, fetch: answered(&["de1"]) });
    run.advance(Event::Listed { files: names(&["de1.udp.ovpn"]) });
    assert_eq!(
        run.advance(Event::Decrypted { ok: false }),
        only(Action::Abort { failure: Failure::Unlock(UnlockError::DecryptFailed) })
    );
    assert!(run.is_finished());
    assert_eq!(run.credential(), Some(CredentialLifecycle::Failed));
    assert_eq!(run.advance(Event::ClientExited), None);
    assert_eq!(run.advance(Event::Deleted), None);
}

#[test]
fn events_out_of_turn_change_nothing() {
    let mut run = Orchestrator::new(options(), false, true);
    assert_eq!(run.advance(Event::Joined { sync: None, fetch: answered(&["de1"]) }), None);
    assert_eq!(run.advance(Event::Listed { files: Vec::new() }), None);
    assert_eq!(run.advance(Event::Deleted), None);
    assert_eq!(run.phase(), Phase::Ready);
    assert_eq!(run.advance(Event::Begin), only(Action::Gather { sync: false, fetch: true }));
    assert_eq!(run.advance(Event::Begin), None);
    assert_eq!(run.phase(), Phase::Gathering);
    assert_eq!(run.get_options().base_folder, "ovpn");
}

#[test]
fn random_order_in_a_run_takes_the_first_tried() {
    let hosts: Vec<String> = (0..30).map(|i| format!("h{}", i)).collect();
    let refs: Vec<&str> = hosts.iter().map(|h| h.as_str()).collect();
    let files: Vec<String> = hosts.iter().map(|h| format!("{}.udp.ovpn", h)).collect();
    let mut seen = Vec::new();
    for _ in 0..20 {
        let mut run = Orchestrator::new(options().with_random(true), false, false);
        run.advance(Event::Begin);
        run.advance(Event::Joined { sync: None, fetch: answered(&refs) });
        match run.advance(Event::Listed { files: files.clone() }) {
            Some(Step { action: Action::Print { command }, .. }) => {
                let config = command.strip_prefix("sudo openvpn --config ovpn/").unwrap().to_string();
                assert!(files.contains(&config));
                seen.push(config);
            }
            other => panic!("unexpected step: {:?}", other),
        }
    }
    seen.sort();
    seen.dedup();
    assert!(seen.len() > 1);
}

#[test]
fn interrupts_are_answered_only_when_verbose() {
    assert_eq!(interrupt_notice(true), Some("There is no escape..."));
    assert_eq!(interrupt_notice(false), None);
}

#[test]
fn life_of_a_credential_file() {
    let states = [
        CredentialLifecycle::Locked,
        CredentialLifecycle::Unlocking,
        CredentialLifecycle::Unlocked,
        CredentialLifecycle::Deleted,
        CredentialLifecycle::Failed,
    ];
    let events = [
        CredentialEvent::Attempt,
        CredentialEvent::Decrypted,
        CredentialEvent::DecryptFailed,
        CredentialEvent::Removed,
    ];
    assert_eq!(
        CredentialLifecycle::Locked.on(CredentialEvent::Attempt),
        Some(CredentialLifecycle::Unlocking)
    );
    assert_eq!(
        CredentialLifecycle::Unlocking.on(CredentialEvent::Decrypted),
        Some(CredentialLifecycle::Unlocked)
    );
    assert_eq!(
        CredentialLifecycle::Unlocking.on(CredentialEvent::DecryptFailed),
        Some(CredentialLifecycle::Failed)
    );
    assert_eq!(
        CredentialLifecycle::Unlocked.on(CredentialEvent::Removed),
        Some(CredentialLifecycle::Deleted)
    );
    let mut moves = 0;
    for state in states {
        for event in events {
            if state.on(event).is_some() {
                moves += 1;
            }
        }
        let over = matches!(state, CredentialLifecycle::Deleted | CredentialLifecycle::Failed);
        assert_eq!(state.is_terminal(), over);
    }
    assert_eq!(moves, 4);
}

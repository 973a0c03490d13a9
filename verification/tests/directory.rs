use vpnget::common::{Country, Options};
use vpnget::error::CommandError;
use vpnget::ovpn::{handler_ovpn_zip, is_inside, is_selected, strip_top_level, Extraction};
use vpnget::server::{Options as ServerOptions, Server, Servers};

fn server(id: u32, hostname: &str) -> Server {
    Server {
        id,
        created_at: "2019-01-01".to_string(),
        updated_at: "2019-01-02".to_string(),
        name: format!("Server #{}", id),
        station: "10.0.0.1".to_string(),
        hostname: hostname.to_string(),
        load: 12,
        status: "online".to_string(),
    }
}

fn list_for(country: Country) -> Servers {
    Servers::new("https://example.org/api?action=servers", ServerOptions { country, verbose: false })
}

fn names(items: &[&str]) -> Vec<String> {
    items.iter().map(|s| s.to_string()).collect()
}

#[test]
fn query_ids() {
    assert_eq!(ServerOptions { country: Country::Canada, verbose: false }.get_id(), Some(38));
    assert_eq!(ServerOptions { country: Country::US, verbose: true }.get_id(), Some(228));
    assert_eq!(ServerOptions { country: Country::Default, verbose: false }.get_id(), None);
}

#[test]
fn unscoped_request_has_no_filter() {
    assert_eq!(list_for(Country::Default).request_url(), "https://example.org/api?action=servers");
}

#[test]
fn scoped_request_carries_the_country_id() {
    assert_eq!(
        list_for(Country::Canada).request_url(),
        "https://example.org/api?action=servers&filters={\"country_id\":38}"
    );
    assert_eq!(
        list_for(Country::US).request_url(),
        "https://example.org/api?action=servers&filters={\"country_id\":228}"
    );
}

#[test]
fn new_list_is_empty() {
    let list = Servers::new("u", ServerOptions { country: Country::Default, verbose: true });
    assert!(list.get_servers().is_empty());
    assert!(list.get_hostnames().is_empty());
    assert_eq!(list.get_best_server(), None);
    assert_eq!(list.build_command(), Err(CommandError::NoServer));
    assert!(list.is_verbose());
    assert_eq!(list.request_url(), "u");
}

#[test]
fn answers_keep_their_order() {
    let list = list_for(Country::Default)
        .update_server_list(vec![server(1, "de1"), server(2, "ca7"), server(3, "us3")]);
    assert_eq!(list.get_hostnames(), names(&["de1", "ca7", "us3"]));
    assert_eq!(list.get_servers().len(), 3);
    assert_eq!(list.get_servers()[1].id, 2);
    assert_eq!(list.get_best_server(), Some("de1"));
    let more = list.update_server_list(vec![server(4, "fr2")]).update_server_list(Vec::new());
    assert_eq!(more.get_hostnames(), names(&["de1", "ca7", "us3", "fr2"]));
    assert_eq!(more.get_best_server(), Some("de1"));
    assert_eq!(more.request_url(), "https://example.org/api?action=servers");
}

#[test]
fn command_for_the_best_server() {
    let list = list_for(Country::Canada).update_server_list(vec![server(9, "ca9"), server(1, "ca1")]);
    assert_eq!(list.build_command(), Ok("sudo openvpn --config ca9".to_string()));
}

#[test]
fn top_level_folder_is_stripped() {
    assert_eq!(strip_top_level("root/ca/x.ovpn"), "ca/x.ovpn");
    assert_eq!(strip_top_level("root/x.ovpn"), "x.ovpn");
    assert_eq!(strip_top_level("root/"), "");
    assert_eq!(strip_top_level("root"), "");
    assert_eq!(strip_top_level(""), "");
    assert_eq!(strip_top_level("/x"), "x");
    assert_eq!(strip_top_level("a//b"), "b");
    assert_eq!(strip_top_level("root//x"), "x");
    assert_eq!(strip_top_level("root////ca//x"), "ca//x");
    assert_eq!(strip_top_level("//"), "");
    assert_eq!(strip_top_level("root/../../x"), "../../x");
}

#[test]
fn paths_that_stay_inside_a_folder() {
    assert!(is_inside("x.ovpn"));
    assert!(is_inside("ca/x.ovpn"));
    assert!(is_inside("ca/"));
    assert!(is_inside("..x/y"));
    assert!(is_inside("x../y.."));
    assert!(is_inside("./x"));
    assert!(is_inside("a/.../b"));
    assert!(is_inside("a//b"));
}

#[test]
fn paths_that_leave_a_folder_or_name_nothing() {
    assert!(!is_inside(""));
    assert!(!is_inside("/x"));
    assert!(!is_inside("/"));
    assert!(!is_inside(".."));
    assert!(!is_inside("../x"));
    assert!(!is_inside("../../x"));
    assert!(!is_inside("a/../b"));
    assert!(!is_inside("a/.."));
    assert!(!is_inside("a/../"));
}

#[test]
fn doubled_separator_does_not_lead_to_the_root() {
    let entries = names(&["root//x", "root///ca/y"]);
    let opt = Options::new().with_base_folder("ovpn");
    assert_eq!(
        handler_ovpn_zip(&entries, &opt),
        vec![
            Extraction { index: 0, target: "ovpn/x".to_string() },
            Extraction { index: 1, target: "ovpn/ca/y".to_string() },
        ]
    );
}

#[test]
fn entries_that_would_leave_the_base_folder_are_passed_over() {
    let entries = names(&[
        "root/../../x",
        "root/ca/x.ovpn",
        "root/ca/../../../etc/passwd",
        "root/..",
        "/../x",
        "root/us/..hidden",
    ]);
    let opt = Options::new().with_base_folder("ovpn");
    assert_eq!(
        handler_ovpn_zip(&entries, &opt),
        vec![
            Extraction { index: 1, target: "ovpn/ca/x.ovpn".to_string() },
            Extraction { index: 5, target: "ovpn/us/..hidden".to_string() },
        ]
    );
    let canada = Options::new().with_base_folder("ovpn").with_country(Country::Canada);
    assert_eq!(
        handler_ovpn_zip(&entries, &canada),
        vec![Extraction { index: 1, target: "ovpn/ca/x.ovpn".to_string() }]
    );
}

#[test]
fn entries_that_name_no_file_are_passed_over() {
    let entries = names(&["root", "root/", "", "root//", "root/x"]);
    let opt = Options::new().with_base_folder("ovpn");
    assert_eq!(
        handler_ovpn_zip(&entries, &opt),
        vec![Extraction { index: 4, target: "ovpn/x".to_string() }]
    );
}

#[test]
fn every_planned_target_starts_with_the_base_folder() {
    let entries = names(&["a/b", "a//c", "a/../d", "/e", "a/f/g", "h", "a/./i"]);
    for base in ["ovpn", "ovpn/", "", "/srv/vpn"] {
        let opt = Options::new().with_base_folder(base);
        let plan = handler_ovpn_zip(&entries, &opt);
        assert_eq!(plan.iter().map(|e| e.index).collect::<Vec<_>>(), vec![0, 1, 3, 4, 6]);
        for e in plan {
            assert!(e.target.starts_with(base));
            assert!(!e.target.split('/').any(|part| part == ".."));
        }
    }
}

#[test]
fn entries_are_selected_by_the_country_token() {
    assert!(is_selected("root/ca/x.ovpn", &Country::Canada));
    assert!(!is_selected("root/us/y.ovpn", &Country::Canada));
    assert!(is_selected("root/us/y.ovpn", &Country::US));
    assert!(!is_selected("root/ca/x.ovpn", &Country::US));
    assert!(is_selected("ovpn_udp/us1.example.com.udp.ovpn", &Country::US));
    assert!(is_selected("root/de/cat.ovpn", &Country::Canada));
    assert!(is_selected("anything", &Country::Default));
    assert!(is_selected("", &Country::Default));
    assert!(!is_selected("", &Country::US));
}

#[test]
fn only_the_country_is_unpacked() {
    let entries = names(&["root/ca/x.ovpn", "root/us/y.ovpn"]);
    let opt = Options::new().with_base_folder("base").with_country(Country::new("ca"));
    assert_eq!(
        handler_ovpn_zip(&entries, &opt),
        vec![Extraction { index: 0, target: "base/ca/x.ovpn".to_string() }]
    );
}

#[test]
fn without_a_country_everything_is_unpacked_in_order() {
    let entries = names(&["root/ca/x.ovpn", "root/us/y.ovpn", "root/z.ovpn"]);
    let opt = Options::new().with_base_folder("ovpn");
    assert_eq!(
        handler_ovpn_zip(&entries, &opt),
        vec![
            Extraction { index: 0, target: "ovpn/ca/x.ovpn".to_string() },
            Extraction { index: 1, target: "ovpn/us/y.ovpn".to_string() },
            Extraction { index: 2, target: "ovpn/z.ovpn".to_string() },
        ]
    );
}

#[test]
fn plan_keeps_positions_of_the_archive() {
    let entries = names(&["a/de1.ovpn", "a/us1.ovpn", "a/ca1.ovpn", "a/us2.ovpn"]);
    let opt = Options::new().with_base_folder("ovpn/").with_country(Country::US);
    assert_eq!(
        handler_ovpn_zip(&entries, &opt),
        vec![
            Extraction { index: 1, target: "ovpn/us1.ovpn".to_string() },
            Extraction { index: 3, target: "ovpn/us2.ovpn".to_string() },
        ]
    );
    assert_eq!(handler_ovpn_zip(&Vec::new(), &opt), Vec::new());
    let none = names(&["a/de1.ovpn"]);
    assert_eq!(handler_ovpn_zip(&none, &opt), Vec::new());
}

//! Process-wide configuration and the country selector.

use crate::text::{eq_ignore_ascii_case, same_ignoring_ascii_case};
use vstd::prelude::*;

verus! {

/// The countries a request can be scoped to.
#[derive(Debug, Clone, Copy, PartialEq, Eq, Structural)]
pub enum Country {
    Default,
    Canada,
    US,
}

/// The country that the name `s` stands for. Names are matched without
/// regard to the case of ASCII letters, and a name that is not known stands
/// for `Country::Default`.
pub open spec fn country_named(s: Seq<char>) -> Country {
    if same_ignoring_ascii_case(s, "canada"@) || same_ignoring_ascii_case(s, "ca"@) {
        Country::Canada
    } else if same_ignoring_ascii_case(s, "us"@) || same_ignoring_ascii_case(s, "usa"@) {
        Country::US
    } else {
        Country::Default
    }
}

impl Country {
    /// The token by which the entries of a configuration archive are
    /// filtered; `Country::Default` has none.
    pub open spec fn token(self) -> Option<Seq<char>> {
        match self {
            Country::Canada => Some("ca"@),
            Country::US => Some("us"@),
            Country::Default => None,
        }
    }

    /// The numeric id by which a server query is filtered;
    /// `Country::Default` has none.
    pub open spec fn query_id(self) -> Option<u32> {
        match self {
            Country::Canada => Some(38u32),
            Country::US => Some(228u32),
            Country::Default => None,
        }
    }

    /// The country named by `country`. Never fails: an unknown name gives
    /// `Country::Default`.
    pub fn new(country: &str) -> (r: Country)
        ensures
            r == country_named(country@),
    {
        if eq_ignore_ascii_case(country, "canada") || eq_ignore_ascii_case(country, "ca") {
            Country::Canada
        } else if eq_ignore_ascii_case(country, "us") || eq_ignore_ascii_case(country, "usa") {
            Country::US
        } else {
            Country::Default
        }
    }

    /// The archive filter token of the country.
    pub fn to_str(&self) -> (r: Option<&'static str>)
        ensures
            match r {
                Some(s) => self.token() == Some(s@),
                None => self.token() is None,
            },
    {
        match self {
            Country::Canada => Some("ca"),
            Country::US => Some("us"),
            _ => None,
        }
    }
}

/// Configuration of one run. Built once, read-only afterwards.
#[derive(Debug)]
pub struct Options<'a> {
    /// Whether diagnostic messages are wanted.
    pub verbose: bool,
    /// The folder that holds the configuration files.
    pub base_folder: &'a str,
    /// What follows a host name in the name of its TCP configuration file.
    pub tcp_suffix: &'a str,
    /// What follows a host name in the name of its UDP configuration file.
    pub udp_suffix: &'a str,
    /// Whether the UDP configuration is used rather than the TCP one.
    pub use_udp: bool,
    /// The encrypted credential file, if credentials are used.
    pub credential_file: Option<&'a str>,
    /// The country that requests are scoped to.
    pub country: Country,
    /// Whether candidates are tried in random order.
    pub random: bool,
    /// A configuration file that is used whatever the candidates are.
    pub forced: Option<&'a str>,
}

impl<'a> Options<'a> {
    /// The suffix for the selected transport: the UDP suffix if and only if
    /// `use_udp` is set, else the TCP suffix.
    pub open spec fn suffix(self) -> Seq<char> {
        if self.use_udp {
            self.udp_suffix@
        } else {
            self.tcp_suffix@
        }
    }

    /// The options everything starts from: UDP, no folder, no suffixes, no
    /// credentials, no country, nothing forced.
    pub fn new() -> (r: Options<'a>)
        ensures
            !r.verbose,
            r.base_folder@ == Seq::<char>::empty(),
            r.tcp_suffix@ == Seq::<char>::empty(),
            r.udp_suffix@ == Seq::<char>::empty(),
            r.use_udp,
            r.credential_file is None,
            r.country == Country::Default,
            !r.random,
            r.forced is None,
    {
        proof {
            reveal_strlit("");
            assert(""@ =~= Seq::<char>::empty());
        }
        Options {
            verbose: false,
            base_folder: "",
            tcp_suffix: "",
            udp_suffix: "",
            use_udp: true,
            credential_file: None,
            country: Country::Default,
            random: false,
            forced: None,
        }
    }

    /// The same options, with diagnostic messages wanted or not.
    pub fn with_verbose(self, v: bool) -> (r: Self)
        ensures
            r == (Options { verbose: v, ..self }),
    {
        let mut next = self;
        next.verbose = v;
        next
    }

    /// The same options, with `base_folder` as the folder of the configuration files.
    pub fn with_base_folder(self, base_folder: &'a str) -> (r: Self)
        ensures
            r == (Options { base_folder, ..self }),
    {
        let mut next = self;
        next.base_folder = base_folder;
        next
    }

    /// The same options, with `tcp_suffix` as the suffix of TCP configuration files.
    pub fn with_tcp_suffix(self, tcp_suffix: &'a str) -> (r: Self)
        ensures
            r == (Options { tcp_suffix, ..self }),
    {
        let mut next = self;
        next.tcp_suffix = tcp_suffix;
        next
    }

    /// The same options, with `udp_suffix` as the suffix of UDP configuration files.
    pub fn with_udp_suffix(self, udp_suffix: &'a str) -> (r: Self)
        ensures
            r == (Options { udp_suffix, ..self }),
    {
        let mut next = self;
        next.udp_suffix = udp_suffix;
        next
    }

    /// The same options, with UDP selected if `use_udp` is set and TCP if not.
    pub fn with_use_udp(self, use_udp: bool) -> (r: Self)
        ensures
            r == (Options { use_udp, ..self }),
    {
        let mut next = self;
        next.use_udp = use_udp;
        next
    }

    /// The same options, with `credential_file` as the encrypted credential file.
    pub fn with_credential_file(self, credential_file: Option<&'a str>) -> (r: Self)
        ensures
            r == (Options { credential_file, ..self }),
    {
        let mut next = self;
        next.credential_file = credential_file;
        next
    }

    /// The same options, scoped to `country`.
    pub fn with_country(self, country: Country) -> (r: Self)
        ensures
            r == (Options { country, ..self }),
    {
        let mut next = self;
        next.country = country;
        next
    }

    /// The same options, with candidates tried in random order or not.
    pub fn with_random(self, random: bool) -> (r: Self)
        ensures
            r == (Options { random, ..self }),
    {
        let mut next = self;
        next.random = random;
        next
    }

    /// The same options, with `forced` as the configuration file to use whatever the
    /// candidates are.
    pub fn with_forced(self, forced: Option<&'a str>) -> (r: Self)
        ensures
            r == (Options { forced, ..self }),
    {
        let mut next = self;
        next.forced = forced;
        next
    }

    /// The suffix for the selected transport.
    pub fn transport_suffix(&self) -> (r: &'a str)
        ensures
            r@ == self.suffix(),
            self.use_udp ==> r@ == self.udp_suffix@,
            !self.use_udp ==> r@ == self.tcp_suffix@,
    {
        if self.use_udp {
            self.udp_suffix
        } else {
            self.tcp_suffix
        }
    }
}

/// The diagnostic message to print: `msg` where diagnostic messages are
/// wanted, nothing where they are not.
pub fn vprint<'m>(v: bool, msg: &'m str) -> (r: Option<&'m str>)
    ensures
        r == if v {
            Some(msg)
        } else {
            None
        },
{
    if v {
        Some(msg)
    } else {
        None
    }
}

} // verus!

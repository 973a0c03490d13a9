//! The list of recommended servers and the request that asks for it.

use crate::common::Country;
use crate::error::CommandError;
use crate::text::{decimal, decimal_digits, names_of};
use vstd::prelude::*;

verus! {

/// What a request for the server list depends on.
pub struct Options {
    /// The country the list is scoped to.
    pub country: Country,
    /// Whether diagnostic messages are wanted.
    pub verbose: bool,
}

impl Options {
    /// The numeric id the request filters by, if the country has one.
    pub fn get_id(&self) -> (r: Option<u32>)
        ensures
            r == self.country.query_id(),
    {
        match self.country {
            Country::Canada => Some(38),
            Country::US => Some(228),
            _ => None,
        }
    }
}

/// One server as the directory describes it. Only the host name takes part
/// in what the library decides; the other fields are carried along.
#[derive(Debug)]
pub struct Server {
    pub id: u32,
    pub created_at: String,
    pub updated_at: String,
    pub name: String,
    pub station: String,
    pub hostname: String,
    pub load: u32,
    pub status: String,
}

/// The servers received so far, with the address they are asked from.
pub struct Servers {
    servers: Vec<Server>,
    options: Options,
    base_url: String,
}

/// What is added to the address of a request that is scoped to the country
/// with the id `id`.
pub open spec fn country_filter(id: u32) -> Seq<char> {
    "&filters={\"country_id\":"@ + decimal_digits(id as nat) + "}"@
}

/// The address of the request for `country`: the base address, followed by
/// the country filter where the country has an id.
pub open spec fn request_for(base: Seq<char>, country: Country) -> Seq<char> {
    match country.query_id() {
        Some(id) => base + country_filter(id),
        None => base,
    }
}

/// The host names of `records`, in order.
pub open spec fn hostnames_of(records: Seq<Server>) -> Seq<Seq<char>> {
    Seq::new(records.len(), |i: int| records[i].hostname@)
}

/// The command line that starts the client with `config`.
pub open spec fn client_command(config: Seq<char>) -> Seq<char> {
    "sudo openvpn --config "@ + config
}

impl Servers {
    /// The records held, first received first.
    pub closed spec fn records(&self) -> Seq<Server> {
        self.servers@
    }

    /// The base address of requests.
    pub closed spec fn url(&self) -> Seq<char> {
        self.base_url@
    }

    /// The country requests are scoped to.
    pub closed spec fn country(&self) -> Country {
        self.options.country
    }

    /// Whether diagnostic messages are wanted.
    pub closed spec fn verbose(&self) -> bool {
        self.options.verbose
    }

    /// An empty list that will be asked from `url`.
    pub fn new(url: &str, opt: Options) -> (r: Servers)
        ensures
            r.records() == Seq::<Server>::empty(),
            r.url() == url@,
            r.country() == opt.country,
            r.verbose() == opt.verbose,
    {
        Servers { servers: Vec::new(), options: opt, base_url: String::from_str(url) }
    }

    /// The address to ask the list from.
    pub fn request_url(&self) -> (r: String)
        ensures
            r@ == request_for(self.url(), self.country()),
    {
        let url = self.base_url.clone();
        match self.options.get_id() {
            Some(id) => {
                let r = url.concat("&filters={\"country_id\":").concat(decimal(id).as_str()).concat(
                    "}",
                );
                proof {
                    assert(r@ =~= self.url() + country_filter(id));
                }
                r
            },
            None => url,
        }
    }

    /// Whether diagnostic messages are wanted.
    pub fn is_verbose(&self) -> (r: bool)
        ensures
            r == self.verbose(),
    {
        self.options.verbose
    }

    /// Adds the records of an answer behind those already held, in the
    /// order of the answer.
    pub fn update_server_list(self, answer: Vec<Server>) -> (r: Servers)
        ensures
            r.records() == self.records() + answer@,
            r.url() == self.url(),
            r.country() == self.country(),
            r.verbose() == self.verbose(),
    {
        let mut next = self;
        let mut more = answer;
        next.servers.append(&mut more);
        next
    }

    /// The records held.
    pub fn get_servers(&self) -> (r: &Vec<Server>)
        ensures
            r@ == self.records(),
    {
        &self.servers
    }

    /// The host name of the first record, which the directory ranks best.
    pub fn get_best_server(&self) -> (r: Option<&str>)
        ensures
            match r {
                Some(name) => self.records().len() > 0 && name@ == self.records()[0].hostname@,
                None => self.records().len() == 0,
            },
    {
        if self.servers.len() > 0 {
            Some(self.servers[0].hostname.as_str())
        } else {
            None
        }
    }

    /// The host names of the records held, in the order of the records.
    pub fn get_hostnames(&self) -> (r: Vec<String>)
        ensures
            names_of(r@) == hostnames_of(self.records()),
    {
        let mut names: Vec<String> = Vec::new();
        let mut i: usize = 0;
        while i < self.servers.len()
            invariant
                i <= self.servers.len(),
                names@.len() == i,
                forall|k: int| 0 <= k < i ==> (#[trigger] names@[k])@ == self.servers@[k].hostname@,
            decreases self.servers.len() - i,
        {
            names.push(self.servers[i].hostname.clone());
            i += 1;
        }
        proof {
            assert(names_of(names@) =~= hostnames_of(self.records()));
        }
        names
    }

    /// The command line that starts the client with the best server.
    pub fn build_command(&self) -> (r: Result<String, CommandError>)
        ensures
            match r {
                Ok(command) => self.records().len() > 0 && command@ == client_command(
                    self.records()[0].hostname@,
                ),
                Err(e) => self.records().len() == 0 && e == CommandError::NoServer,
            },
    {
        let command = String::from_str("sudo openvpn --config ");
        match self.get_best_server() {
            Some(s) => Ok(command.concat(s)),
            None => Err(CommandError::NoServer),
        }
    }
}

} // verus!

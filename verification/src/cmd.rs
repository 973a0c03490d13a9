//! From candidate hosts to the command line that starts the client.

use crate::common::Options;
use crate::error::{CommandError, ResolutionError, UnlockError};
use crate::paths::{join, joined};
use crate::text::{
    find_last_end, last_end, lemma_last_end, lemma_last_end_unique, lemma_prefix_len_unique,
    names_of, same, split, split_on,
};
use rand::seq::SliceRandom;
use vstd::prelude::*;

verus! {

/// Seconds between the unlocking of a credential file and the removal of
/// what the unlocking left on disk.
pub const DEFAULT_CREDENTIALS_DELETE_TIMER: u64 = 1;

/// A program to start, with its arguments.
#[derive(Debug, PartialEq, Eq)]
pub struct Invocation {
    pub program: String,
    pub args: Vec<String>,
}

/// An `Invocation` as character sequences.
pub struct InvocationView {
    pub program: Seq<char>,
    pub args: Seq<Seq<char>>,
}

impl View for Invocation {
    type V = InvocationView;

    open spec fn view(&self) -> InvocationView {
        InvocationView { program: self.program@, args: names_of(self.args@) }
    }
}

/// What a command line starts: its first word is the program, the words
/// after it are the arguments. Words are what stands between single blanks,
/// so two blanks in a row enclose an empty argument. A command line whose
/// first word is empty starts nothing.
pub open spec fn parsed(cmd: Seq<char>) -> Option<InvocationView> {
    let words = split_on(cmd, ' ');
    if words[0].len() == 0 {
        None
    } else {
        Some(InvocationView { program: words[0], args: words.skip(1) })
    }
}

/// Where the file name of `path` starts: behind its last `/`.
pub open spec fn name_start(path: Seq<char>) -> nat {
    last_end(path, '/')
}

/// The file name of `path`: what follows its last `/`.
pub open spec fn file_name(path: Seq<char>) -> Seq<char> {
    path.skip(name_start(path) as int)
}

/// Whether the file name of `path` ends in an extension: it holds a `.`
/// that is not its first character, and it is not the name `..`.
pub open spec fn has_extension(path: Seq<char>) -> bool {
    last_end(file_name(path), '.') >= 2 && file_name(path) != seq!['.', '.']
}

/// `path` without the extension of its file name, that is without the last
/// `.` of the file name and what follows it. A path whose file name has no
/// extension is left as it is.
pub open spec fn without_extension(path: Seq<char>) -> Seq<char> {
    if has_extension(path) {
        path.take(name_start(path) + last_end(file_name(path), '.') - 1)
    } else {
        path
    }
}

/// Splits a command line at its blanks into the program and its arguments,
/// ready to be started. Fails if and only if the command line names no
/// program.
pub fn execute_cmd(cmd: String) -> (r: Result<Invocation, CommandError>)
    ensures
        match r {
            Ok(invocation) => parsed(cmd@) == Some(invocation@),
            Err(e) => e == CommandError::NoCommand && parsed(cmd@) is None,
        },
{
    let mut words = split(cmd.as_str(), ' ');
    proof {
        assert(split_on(cmd@, ' ').len() >= 1);
    }
    let ghost all = words@;
    let program = words.remove(0);
    if program.as_str().unicode_len() == 0 {
        return Err(CommandError::NoCommand);
    }
    let invocation = Invocation { program, args: words };
    proof {
        assert(names_of(words@) =~= split_on(cmd@, ' ').skip(1)) by {
            assert forall|k: int| 0 <= k < words@.len() implies names_of(words@)[k] == split_on(
                cmd@,
                ' ',
            ).skip(1)[k] by {
                assert(words@[k] == all[k + 1]);
            }
        }
    }
    Ok(invocation)
}

/// The path of the file that unlocking `file` leaves on disk: `file`
/// without the extension of its file name.
pub fn remove_file_extension(file: &str) -> (r: String)
    ensures
        r@ == without_extension(file@),
{
    let len: usize = file.unicode_len();
    let start: usize = find_last_end(file, '/');
    let name = file.substring_char(start, len);
    let dot_end: usize = find_last_end(name, '.');
    proof {
        assert(name@ =~= file_name(file@));
    }
    if dot_end >= 2 && !same(name, "..") {
        proof {
            reveal_strlit("..");
            assert(".."@ =~= seq!['.', '.']);
            assert(file@.subrange(0, start + dot_end - 1) =~= file@.take(start + dot_end - 1));
        }
        file.substring_char(0, start + dot_end - 1).to_owned()
    } else {
        proof {
            reveal_strlit("..");
            assert(".."@ =~= seq!['.', '.']);
        }
        file.to_owned()
    }
}

/// The name of the configuration file of `host`: the host name followed by
/// the suffix of the selected transport. Nothing is taken off the host name.
pub open spec fn config_name(host: Seq<char>, opt: Options) -> Seq<char> {
    host + opt.suffix()
}

/// Whether the configuration file of `host` is among `files`, the names of
/// the files in the base folder.
pub open spec fn listed(files: Seq<Seq<char>>, host: Seq<char>, opt: Options) -> bool {
    files.contains(config_name(host, opt))
}

/// Number of candidates at the head of `scan` whose configuration file is
/// not among `files`; the length of `scan` where no candidate has its file.
pub open spec fn misses(scan: Seq<Seq<char>>, opt: Options, files: Seq<Seq<char>>) -> nat
    decreases scan.len(),
{
    if scan.len() == 0 || listed(files, scan[0], opt) {
        0
    } else {
        1 + misses(scan.drop_first(), opt, files)
    }
}

/// The configuration file that the candidates `scan`, tried in this order,
/// resolve to. A forced file is the answer whatever the candidates and the
/// folder hold. Otherwise the answer is the path, below the base folder, of
/// the file of the first candidate that has its file in the folder, and
/// there is none where no candidate has.
pub open spec fn resolution(scan: Seq<Seq<char>>, opt: Options, files: Seq<Seq<char>>) -> Result<
    Seq<char>,
    ResolutionError,
> {
    match opt.forced {
        Some(forced) => Ok(forced@),
        None => {
            let first = misses(scan, opt, files) as int;
            if first < scan.len() {
                Ok(joined(opt.base_folder@, config_name(scan[first], opt)))
            } else {
                Err(ResolutionError::NoMatch)
            }
        },
    }
}

/// The command line that starts the client with the configuration file
/// `config`, and with the unlocked credential file where credentials are
/// used.
pub open spec fn launch_command(config: Seq<char>, opt: Options) -> Seq<char> {
    "sudo openvpn --config "@ + config + match opt.credential_file {
        Some(file) => " --auth-user-pass "@ + without_extension(file@),
        None => Seq::<char>::empty(),
    }
}

/// The command line that the candidates `scan` lead to.
pub open spec fn command_for(scan: Seq<Seq<char>>, opt: Options, files: Seq<Seq<char>>) -> Result<
    Seq<char>,
    ResolutionError,
> {
    match resolution(scan, opt, files) {
        Ok(config) => Ok(launch_command(config, opt)),
        Err(e) => Err(e),
    }
}

/// A text result as character sequences.
pub open spec fn text_of<E>(r: Result<String, E>) -> Result<Seq<char>, E> {
    match r {
        Ok(s) => Ok(s@),
        Err(e) => Err(e),
    }
}

/// `misses` is the position of the first candidate that has its file.
pub proof fn lemma_misses(scan: Seq<Seq<char>>, opt: Options, files: Seq<Seq<char>>)
    ensures
        misses(scan, opt, files) <= scan.len(),
        forall|j: int| 0 <= j < misses(scan, opt, files) ==> !listed(files, scan[j], opt),
        misses(scan, opt, files) < scan.len() ==> listed(
            files,
            scan[misses(scan, opt, files) as int],
            opt,
        ),
    decreases scan.len(),
{
    if scan.len() != 0 && !listed(files, scan[0], opt) {
        let rest = scan.drop_first();
        lemma_misses(rest, opt, files);
        assert forall|j: int| 0 <= j < misses(scan, opt, files) implies !listed(
            files,
            scan[j],
            opt,
        ) by {
            if j > 0 {
                assert(scan[j] == rest[j - 1]);
            }
        }
        let p = misses(rest, opt, files) as int;
        assert(p < rest.len() ==> rest[p] == scan[p + 1]);
    }
}

/// A candidate that has its file, or the end of `scan`, with no candidate
/// before it that has its file, is where `misses` points.
pub proof fn lemma_misses_unique(scan: Seq<Seq<char>>, opt: Options, files: Seq<Seq<char>>, n: int)
    requires
        0 <= n <= scan.len(),
        forall|j: int| 0 <= j < n ==> !listed(files, scan[j], opt),
        n < scan.len() ==> listed(files, scan[n], opt),
    ensures
        misses(scan, opt, files) == n,
{
    lemma_misses(scan, opt, files);
    let p = misses(scan, opt, files) as int;
    if p < n {
        assert(!listed(files, scan[p], opt));
    } else if n < p {
        assert(!listed(files, scan[n], opt));
    }
}

/// Where at least one candidate has its file in the folder and nothing is
/// forced, resolution succeeds with exactly one file: that of the first
/// such candidate in scan order.
pub proof fn lemma_first_listed_wins(
    scan: Seq<Seq<char>>,
    opt: Options,
    files: Seq<Seq<char>>,
    i: int,
)
    requires
        opt.forced is None,
        0 <= i < scan.len(),
        listed(files, scan[i], opt),
        forall|j: int| 0 <= j < i ==> !listed(files, scan[j], opt),
    ensures
        resolution(scan, opt, files) == Ok::<Seq<char>, ResolutionError>(
            joined(opt.base_folder@, config_name(scan[i], opt)),
        ),
{
    lemma_misses_unique(scan, opt, files, i);
}

/// Where some candidate has its file in the folder and nothing is forced,
/// resolution succeeds, and the file it gives belongs to a candidate with
/// no earlier candidate that has its file.
pub proof fn lemma_some_listed_resolves(
    scan: Seq<Seq<char>>,
    opt: Options,
    files: Seq<Seq<char>>,
    k: int,
)
    requires
        opt.forced is None,
        0 <= k < scan.len(),
        listed(files, scan[k], opt),
    ensures
        resolution(scan, opt, files) is Ok,
        exists|i: int|
            0 <= i <= k && listed(files, #[trigger] scan[i], opt) && resolution(scan, opt, files)
                == Ok::<Seq<char>, ResolutionError>(
                joined(opt.base_folder@, config_name(scan[i], opt)),
            ) && forall|j: int| 0 <= j < i ==> !listed(files, scan[j], opt),
{
    lemma_misses(scan, opt, files);
    let i = misses(scan, opt, files) as int;
    if k < i {
        assert(!listed(files, scan[k], opt));
    }
    assert(listed(files, scan[i], opt));
}

/// Resolution fails only where nothing is forced and no candidate has its
/// file in the folder, and then the failure is `NoMatch`.
pub proof fn lemma_no_match(scan: Seq<Seq<char>>, opt: Options, files: Seq<Seq<char>>)
    ensures
        resolution(scan, opt, files) is Err <==> opt.forced is None && forall|j: int|
            0 <= j < scan.len() ==> !listed(files, #[trigger] scan[j], opt),
        resolution(scan, opt, files) is Err ==> resolution(scan, opt, files) == Err::<
            Seq<char>,
            ResolutionError,
        >(ResolutionError::NoMatch),
{
    lemma_misses(scan, opt, files);
    if opt.forced is None {
        let i = misses(scan, opt, files) as int;
        if i < scan.len() {
            assert(listed(files, scan[i], opt));
        }
    }
}

/// A forced file is the answer, whatever the candidates, the folder and
/// the order of the scan are.
pub proof fn lemma_forced_wins(scan: Seq<Seq<char>>, opt: Options, files: Seq<Seq<char>>)
    requires
        opt.forced is Some,
    ensures
        resolution(scan, opt, files) == Ok::<Seq<char>, ResolutionError>(opt.forced->0@),
{
}

/// With no candidates and nothing forced, resolution fails with `NoMatch`.
pub proof fn lemma_nothing_to_scan(opt: Options, files: Seq<Seq<char>>)
    requires
        opt.forced is None,
    ensures
        resolution(Seq::<Seq<char>>::empty(), opt, files) == Err::<Seq<char>, ResolutionError>(
            ResolutionError::NoMatch,
        ),
{
}

/// The file that is looked for depends on the transport alone: the UDP
/// suffix follows the host name if and only if `use_udp` is set, else the
/// TCP suffix does.
pub proof fn lemma_suffix_by_transport(host: Seq<char>, opt: Options)
    ensures
        opt.use_udp ==> config_name(host, opt) == host + opt.udp_suffix@,
        !opt.use_udp ==> config_name(host, opt) == host + opt.tcp_suffix@,
{
}

/// A path whose file name has no extension is left as it is.
pub proof fn lemma_no_extension_unchanged(path: Seq<char>)
    requires
        !has_extension(path),
    ensures
        without_extension(path) == path,
{
}

/// Exactly the final extension is taken off: from a path that ends in a
/// file name, a `.` and an extension, what stands before that `.` is left.
pub proof fn lemma_extension_removed(stem: Seq<char>, ext: Seq<char>)
    requires
        !ext.contains('.'),
        !ext.contains('/'),
        file_name(stem).len() > 0,
        !(file_name(stem) == seq!['.'] && ext.len() == 0),
    ensures
        has_extension(stem + seq!['.'] + ext),
        without_extension(stem + seq!['.'] + ext) == stem,
{
    let path = stem + seq!['.'] + ext;
    let start = name_start(stem) as int;
    lemma_last_end(stem, '/');
    assert forall|j: int| start <= j < path.len() implies path[j] != '/' by {
        if j < stem.len() {
            assert(path[j] == stem[j]);
        } else if j > stem.len() {
            assert(path[j] == ext[j - stem.len() - 1]);
            assert(ext.contains(path[j]));
        }
    }
    assert(start > 0 ==> path[start - 1] == stem[start - 1]);
    lemma_last_end_unique(path, '/', start);
    let name = file_name(path);
    assert(name =~= file_name(stem) + seq!['.'] + ext);
    let dot = file_name(stem).len() as int;
    assert forall|j: int| dot + 1 <= j < name.len() implies name[j] != '.' by {
        assert(name[j] == ext[j - dot - 1]);
        assert(ext.contains(name[j]));
    }
    assert(name[dot] == '.');
    lemma_last_end_unique(name, '.', dot + 1);
    if name == seq!['.', '.'] {
        assert(name.len() == 2);
        assert(file_name(stem) =~= seq![name[0]]);
    }
    assert(path.take(start + dot) =~= stem);
}

/// Brings `names` into a random order with `rand::seq::SliceRandom::shuffle`,
/// drawing from `rand::thread_rng()`. The shuffle only swaps elements of the
/// slice, so afterwards the vector holds the same names, each as often as
/// before; which order comes out is left open. The generator is seeded by
/// the operating system when a thread first uses it, and the call does not
/// come back where no seed can be had; no argument has a part in that.
#[verifier::external_body]
fn shuffle(names: &mut Vec<String>)
    ensures
        names_of(final(names)@).to_multiset() == names_of(old(names)@).to_multiset(),
{
    names.shuffle(&mut rand::thread_rng());
}

/// Whether `name` is among `files`.
fn is_listed(files: &Vec<String>, name: &str) -> (r: bool)
    ensures
        r == names_of(files@).contains(name@),
{
    let mut i: usize = 0;
    while i < files.len()
        invariant
            i <= files.len(),
            forall|j: int| 0 <= j < i ==> names_of(files@)[j] != name@,
        decreases files.len() - i,
    {
        if same(files[i].as_str(), name) {
            proof {
                assert(names_of(files@)[i as int] == name@);
            }
            return true;
        }
        i += 1;
    }
    false
}

/// Resolves the candidates `hostnames` to one configuration file.
///
/// `files` holds the names of the files in the base folder. A forced file
/// is returned as it is, and neither the candidates nor `files` are looked
/// at. Otherwise the candidates are first brought into a random order if
/// `opt.random` is set, then tried in order: the answer is the path of the
/// file of the first candidate whose file is in the folder. On return
/// `hostnames` holds the candidates in the order in which they were tried.
pub fn resolve(hostnames: &mut Vec<String>, opt: &Options, files: &Vec<String>) -> (r: Result<
    String,
    ResolutionError,
>)
    ensures
        names_of(final(hostnames)@).to_multiset() == names_of(old(hostnames)@).to_multiset(),
        opt.forced is Some || !opt.random ==> final(hostnames)@ == old(hostnames)@,
        text_of(r) == resolution(names_of(final(hostnames)@), *opt, names_of(files@)),
        opt.forced matches Some(forced) ==> r matches Ok(config) && config@ == forced@,
        opt.forced is None && old(hostnames)@.len() == 0 ==> r matches Err(
            ResolutionError::NoMatch,
        ),
{
    if let Some(forced) = opt.forced {
        return Ok(String::from_str(forced));
    }
    if opt.random {
        shuffle(hostnames);
    }
    proof {
        names_of(hostnames@).to_multiset_ensures();
        names_of(old(hostnames)@).to_multiset_ensures();
    }
    let suffix = opt.transport_suffix();
    let ghost scan = names_of(hostnames@);
    let ghost listing = names_of(files@);
    let mut i: usize = 0;
    while i < hostnames.len()
        invariant
            i <= hostnames.len(),
            opt.forced is None,
            names_of(hostnames@).to_multiset() == names_of(old(hostnames)@).to_multiset(),
            !opt.random ==> hostnames@ == old(hostnames)@,
            hostnames@.len() == old(hostnames)@.len(),
            scan == names_of(hostnames@),
            listing == names_of(files@),
            suffix@ == opt.suffix(),
            forall|j: int| 0 <= j < i ==> !listed(listing, scan[j], *opt),
        decreases hostnames.len() - i,
    {
        let name = hostnames[i].clone().concat(suffix);
        proof {
            assert(name@ == config_name(scan[i as int], *opt));
        }
        if is_listed(files, name.as_str()) {
            proof {
                lemma_misses_unique(scan, *opt, listing, i as int);
            }
            return Ok(join(opt.base_folder, name.as_str()));
        }
        i += 1;
    }
    proof {
        lemma_misses_unique(scan, *opt, listing, i as int);
    }
    Err(ResolutionError::NoMatch)
}

/// The command line that starts the client for the candidates `hostnames`:
/// the client, the resolved configuration file and, where credentials are
/// used, the unlocked credential file. Fails if and only if resolution does.
pub fn build_openvpn_command(
    hostnames: &mut Vec<String>,
    opt: &Options,
    files: &Vec<String>,
) -> (r: Result<String, ResolutionError>)
    ensures
        names_of(final(hostnames)@).to_multiset() == names_of(old(hostnames)@).to_multiset(),
        opt.forced is Some || !opt.random ==> final(hostnames)@ == old(hostnames)@,
        text_of(r) == command_for(names_of(final(hostnames)@), *opt, names_of(files@)),
{
    let config = match resolve(hostnames, opt, files) {
        Ok(config) => config,
        Err(e) => {
            return Err(e);
        },
    };
    let command = String::from_str("sudo openvpn --config ").concat(config.as_str());
    match opt.credential_file {
        Some(file) => {
            let unlocked = remove_file_extension(file);
            let r = command.concat(" --auth-user-pass ").concat(unlocked.as_str());
            proof {
                assert(r@ =~= launch_command(config@, *opt));
            }
            Ok(r)
        },
        None => {
            proof {
                assert(command@ =~= launch_command(config@, *opt));
            }
            Ok(command)
        },
    }
}

/// The first word of a client command line is `sudo`, so it always names a
/// program.
pub proof fn lemma_launch_command_parses(config: Seq<char>, opt: Options)
    ensures
        parsed(launch_command(config, opt)) is Some,
        parsed(launch_command(config, opt))->0.program == "sudo"@,
{
    reveal_strlit("sudo openvpn --config ");
    reveal_strlit("sudo");
    let command = launch_command(config, opt);
    let head = "sudo openvpn --config "@;
    assert forall|j: int| 0 <= j < 5 implies command[j] == head[j] by {}
    lemma_prefix_len_unique(command, ' ', 4);
    assert(command.take(4) =~= "sudo"@);
}

/// What is to be started for the candidates `hostnames`: the client command
/// line, split into the program and its arguments. Fails if and only if
/// resolution does.
pub fn run_openvpn_command(
    hostnames: &mut Vec<String>,
    opt: &Options,
    files: &Vec<String>,
) -> (r: Result<Invocation, ResolutionError>)
    ensures
        names_of(final(hostnames)@).to_multiset() == names_of(old(hostnames)@).to_multiset(),
        opt.forced is Some || !opt.random ==> final(hostnames)@ == old(hostnames)@,
        match r {
            Ok(invocation) => command_for(names_of(final(hostnames)@), *opt, names_of(files@))
                matches Ok(command) && parsed(command) == Some(invocation@),
            Err(e) => command_for(names_of(final(hostnames)@), *opt, names_of(files@)) == Err::<
                Seq<char>,
                ResolutionError,
            >(e),
        },
{
    let command = match build_openvpn_command(hostnames, opt, files) {
        Ok(command) => command,
        Err(e) => {
            return Err(e);
        },
    };
    proof {
        let config = resolution(names_of(hostnames@), *opt, names_of(files@))->Ok_0;
        lemma_launch_command_parses(config, *opt);
    }
    let invocation = execute_cmd(command);
    assert(invocation is Ok);
    Ok(invocation.unwrap())
}

/// The command line that asks for the administrator's password ahead of
/// the launch.
pub open spec fn sudo_command() -> Seq<char> {
    "sudo echo"@
}

/// What is to be started to have the administrator's password asked for
/// ahead of the launch: `sudo` with the one argument `echo`.
pub fn pre_enter_sudo() -> (r: Invocation)
    ensures
        parsed(sudo_command()) == Some(r@),
        r@.program == "sudo"@,
        r@.args == seq!["echo"@],
{
    proof {
        reveal_strlit("sudo echo");
        reveal_strlit("sudo");
        reveal_strlit("echo");
        let command = "sudo echo"@;
        lemma_prefix_len_unique(command, ' ', 4);
        let rest = command.skip(5);
        lemma_prefix_len_unique(rest, ' ', 4);
        assert(command.take(4) =~= "sudo"@);
        assert(rest =~= "echo"@);
        assert(split_on(rest, ' ') =~= seq![rest]);
        assert(split_on(command, ' ') =~= seq!["sudo"@, "echo"@]);
        assert(split_on(command, ' ').skip(1) =~= seq!["echo"@]);
    }
    let invocation = execute_cmd(String::from_str("sudo echo"));
    invocation.unwrap()
}

/// A file to remove once a delay has passed.
#[derive(Debug, PartialEq, Eq)]
pub struct DeletionTask {
    /// The file to remove.
    pub path: String,
    /// Seconds to wait before the file is removed.
    pub delay_secs: u64,
}

/// A `DeletionTask` as plain values.
pub struct DeletionTaskView {
    pub path: Seq<char>,
    pub delay_secs: u64,
}

impl View for DeletionTask {
    type V = DeletionTaskView;

    open spec fn view(&self) -> DeletionTaskView {
        DeletionTaskView { path: self.path@, delay_secs: self.delay_secs }
    }
}

/// An optional deletion task as plain values.
pub open spec fn task_view(task: Option<DeletionTask>) -> Option<DeletionTaskView> {
    match task {
        Some(t) => Some(t@),
        None => None,
    }
}

/// The command line that decrypts the credential file `file_name`.
pub open spec fn gpg_command(file_name: Seq<char>) -> Seq<char> {
    "gpg "@ + file_name
}

/// The removal that follows a successful unlocking: where a credential file
/// is configured, the file that unlocking it leaves on disk is removed
/// after the fixed delay; where none is configured, nothing is removed.
pub open spec fn scheduled_deletion(opt: Options) -> Option<DeletionTaskView> {
    match opt.credential_file {
        Some(file) => Some(
            DeletionTaskView {
                path: without_extension(file@),
                delay_secs: DEFAULT_CREDENTIALS_DELETE_TIMER,
            },
        ),
        None => None,
    }
}

/// What is to be started to decrypt the credential file `file_name`: the
/// tool `gpg`, with the words of the file name as its arguments.
pub fn decrypt_command(file_name: &str) -> (r: Invocation)
    ensures
        parsed(gpg_command(file_name@)) == Some(r@),
        r@.program == "gpg"@,
{
    proof {
        reveal_strlit("gpg ");
        reveal_strlit("gpg");
        let command = gpg_command(file_name@);
        let head = "gpg "@;
        assert forall|j: int| 0 <= j < 4 implies command[j] == head[j] by {}
        lemma_prefix_len_unique(command, ' ', 3);
        assert(command.take(3) =~= "gpg"@);
    }
    let invocation = execute_cmd(String::from_str("gpg ").concat(file_name));
    invocation.unwrap()
}

/// What follows the run of the decryption tool. Where the tool failed, or
/// could not be started, unlocking has failed and nothing is scheduled.
/// Where it succeeded, the removal of the unlocked file is scheduled if and
/// only if a credential file is configured.
pub fn unlock_gpg(decrypted: bool, opt: &Options) -> (r: Result<Option<DeletionTask>, UnlockError>)
    ensures
        match r {
            Ok(task) => decrypted && task_view(task) == scheduled_deletion(*opt),
            Err(e) => !decrypted && e == UnlockError::DecryptFailed,
        },
        decrypted && opt.credential_file is Some ==> r matches Ok(Some(_)),
        decrypted && opt.credential_file is None ==> r matches Ok(None),
{
    if !decrypted {
        return Err(UnlockError::DecryptFailed);
    }
    match opt.credential_file {
        Some(file) => Ok(
            Some(
                DeletionTask {
                    path: remove_file_extension(file),
                    delay_secs: DEFAULT_CREDENTIALS_DELETE_TIMER,
                },
            ),
        ),
        None => Ok(None),
    }
}

} // verus!

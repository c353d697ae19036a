use vstd::prelude::*;

verus! {

/// `file` placed in the directory `dir`, with one `/` between them.
pub open spec fn join_path(dir: Seq<char>, file: Seq<char>) -> Seq<char> {
    if dir.len() == 0 || dir.last() == '/' { dir + file } else { dir + seq!['/'] + file }
}

/// The files of the DHCP service of one network.
#[derive(Debug)]
pub struct DhcpFiles {
    pub conf: String,
    pub pid: String,
    pub leases: String,
    pub log: String,
}

/// The suffixes of the DHCP files.
pub open spec fn conf_suffix() -> Seq<char> { seq!['.', 'c', 'o', 'n', 'f'] }
pub open spec fn pid_suffix() -> Seq<char> { seq!['.', 'p', 'i', 'd'] }
pub open spec fn leases_suffix() -> Seq<char> { seq!['.', 'l', 'e', 'a', 's', 'e', 's'] }
pub open spec fn log_suffix() -> Seq<char> { seq!['.', 'l', 'o', 'g'] }

/// `dir` joined with `name` followed by `suffix`.
fn file_in(dir: &String, name: &String, suffix: &str) -> (r: String)
    ensures
        r@ == join_path(dir@, name@ + suffix@),
{
    let mut r = dir.clone();
    let n = dir.as_str().unicode_len();
    if n > 0 && dir.as_str().get_char(n - 1) != '/' {
        r.append("/");
        proof {
            reveal_strlit("/");
        }
    }
    r.append(name.as_str());
    r.append(suffix);
    assert(r@ =~= join_path(dir@, name@ + suffix@));
    r
}

/// The DHCP files of the interface `name` under the run directory:
/// `<name>.conf`, `<name>.pid`, `<name>.leases` and `<name>.log`.
pub fn dhcp_files(run_path: &String, name: &String) -> (r: DhcpFiles)
    ensures
        r.conf@ == join_path(run_path@, name@ + conf_suffix()),
        r.pid@ == join_path(run_path@, name@ + pid_suffix()),
        r.leases@ == join_path(run_path@, name@ + leases_suffix()),
        r.log@ == join_path(run_path@, name@ + log_suffix()),
{
    proof {
        reveal_strlit(".conf");
        reveal_strlit(".pid");
        reveal_strlit(".leases");
        reveal_strlit(".log");
    }
    let r = DhcpFiles {
        conf: file_in(run_path, name, ".conf"),
        pid: file_in(run_path, name, ".pid"),
        leases: file_in(run_path, name, ".leases"),
        log: file_in(run_path, name, ".log"),
    };
    assert(".conf"@ =~= conf_suffix());
    assert(".pid"@ =~= pid_suffix());
    assert(".leases"@ =~= leases_suffix());
    assert(".log"@ =~= log_suffix());
    r
}

/// The lowercase hexadecimal digit of `n`, which is below 16.
pub open spec fn hex_digit(n: u128) -> char {
    seq!['0', '1', '2', '3', '4', '5', '6', '7', '8', '9', 'a', 'b', 'c', 'd', 'e', 'f'][n as int]
}

/// The `k`-th four-bit group of `id`, counted from the most significant.
pub open spec fn nibble(id: u128, k: int) -> u128 {
    (id >> ((124 - 4 * k) as u128)) & 0xf
}

/// The textual form of an identifier: its 32 hexadecimal digits, most
/// significant first, in groups of 8, 4, 4, 4 and 12 separated by `-`.
pub open spec fn uuid_text(id: u128) -> Seq<char> {
    Seq::new(36, |p: int| if p == 8 || p == 13 || p == 18 || p == 23 {
        '-'
    } else {
        let hyphens: int = if p < 8 { 0 } else if p < 13 { 1 } else if p < 18 { 2 } else if p < 23 { 3 } else { 4 };
        hex_digit(nibble(id, p - hyphens))
    })
}

/// Relies on uuid's `Uuid::from_u128`, which lays the identifier out in
/// big-endian bytes, and its `Display`, which writes them in the hyphenated
/// lowercase form (`Hyphenated::LENGTH`, 36 characters).
#[verifier::external_body]
fn uuid_string(id: u128) -> (r: String)
    ensures
        r@ == uuid_text(id),
{
    uuid::Uuid::from_u128(id).to_string()
}

/// Relies on uuid's `Uuid::new_v4`: a random identifier; nothing is known of it.
#[verifier::external_body]
pub(crate) fn fresh_id() -> (r: u128) {
    uuid::Uuid::new_v4().as_u128()
}

/// The program that manages one namespace.
pub const WORKER_PROGRAM: &'static str = "fos-net-linux-ns-manager";
/// The DHCP daemon.
pub const DHCP_PROGRAM: &'static str = "dnsmasq";

pub open spec fn netns_flag() -> Seq<char> { seq!['-', '-', 'n', 'e', 't', 'n', 's'] }
pub open spec fn id_flag() -> Seq<char> { seq!['-', '-', 'i', 'd'] }
pub open spec fn locator_flag() -> Seq<char> { seq!['-', '-', 'l', 'o', 'c', 'a', 't', 'o', 'r'] }
pub open spec fn config_flag() -> Seq<char> { seq!['-', 'C'] }

/// The views of a list of strings.
pub open spec fn texts(v: Seq<String>) -> Seq<Seq<char>> {
    v.map_values(|s: String| s@)
}

/// The arguments of the worker of namespace `ns_id`, named `ns_name`, that
/// serves its RPC endpoint over `locator`.
pub fn worker_arguments(ns_name: &String, ns_id: u128, locator: &String) -> (r: Vec<String>)
    ensures
        texts(r@) == seq![netns_flag(), ns_name@, id_flag(), uuid_text(ns_id), locator_flag(), locator@],
{
    let mut r: Vec<String> = Vec::new();
    r.push(String::from_str("--netns"));
    r.push(ns_name.clone());
    r.push(String::from_str("--id"));
    r.push(uuid_string(ns_id));
    r.push(String::from_str("--locator"));
    r.push(locator.clone());
    proof {
        reveal_strlit("--netns");
        reveal_strlit("--id");
        reveal_strlit("--locator");
    }
    assert("--netns"@ =~= netns_flag());
    assert("--id"@ =~= id_flag());
    assert("--locator"@ =~= locator_flag());
    assert(texts(r@) =~= seq![netns_flag(), ns_name@, id_flag(), uuid_text(ns_id), locator_flag(), locator@]);
    r
}

/// The arguments of the DHCP daemon that reads the configuration `conf`.
pub fn dhcp_arguments(conf: &String) -> (r: Vec<String>)
    ensures
        texts(r@) == seq![config_flag(), conf@],
{
    let mut r: Vec<String> = Vec::new();
    r.push(String::from_str("-C"));
    r.push(conf.clone());
    proof {
        reveal_strlit("-C");
    }
    assert("-C"@ =~= config_flag());
    assert(texts(r@) =~= seq![config_flag(), conf@]);
    r
}

pub open spec fn netns_dir() -> Seq<char> {
    seq!['/', 'r', 'u', 'n', '/', 'n', 'e', 't', 'n', 's', '/']
}

/// The path of the kernel namespace named `name`: `/run/netns/<name>`.
pub fn netns_path(name: &String) -> (r: String)
    ensures
        r@ == netns_dir() + name@,
{
    let mut r = String::from_str("/run/netns/");
    proof {
        reveal_strlit("/run/netns/");
    }
    r.append(name.as_str());
    assert(r@ =~= netns_dir() + name@);
    r
}

} // verus!

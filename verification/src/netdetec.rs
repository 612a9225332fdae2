//! The discovery client and announcer configuration: the mDNS work itself
//! is an outside service, driven by the program around this library; the
//! types, defaults and the TXT-record parser live here.

use vstd::prelude::*;
use crate::strutil::spec_find_char;

verus! {

/// What can go wrong building or running a discovery client.
#[derive(Debug)]
pub enum ClientError {
    /// The mDNS daemon reported an error, kept readable.
    Mdns(String),
    /// Discovery ended without resolving any service.
    NotFound,
}

/// What to look for on the network.
pub struct DiscoveryFilter {
    pub service_type: Option<String>,
    pub host_name: Option<String>,
}

impl Default for DiscoveryFilter {
    /// No constraints: any service, any host.
    fn default() -> (r: Self)
        ensures
            r.service_type is None,
            r.host_name is None,
    {
        DiscoveryFilter { service_type: None, host_name: None }
    }
}

/// How long discovery listens before giving up, by default, in
/// milliseconds.
pub const DEFAULT_RX_TIMEOUT_MS: u64 = 1000;

/// A discovery client: which interface to browse on, and for how long.
pub struct Client {
    pub interface: Option<String>,
    pub discovery_duration_ms: u64,
}

impl Client {
    /// A client browsing on the given interface, with the given listening
    /// window or the default one.
    pub fn new(interface: Option<String>, max_duration_ms: Option<u64>) -> (r: Result<
        Client,
        ClientError,
    >)
        ensures
            r matches Ok(c) && c.interface == interface && c.spec_duration_ms() == (
            match max_duration_ms {
                Some(d) => d,
                None => DEFAULT_RX_TIMEOUT_MS,
            }),
    {
        let discovery_duration_ms = match max_duration_ms {
            Some(d) => d,
            None => DEFAULT_RX_TIMEOUT_MS,
        };
        Ok(Client { interface, discovery_duration_ms })
    }

    /// How long this client listens, in milliseconds.
    pub open spec fn spec_duration_ms(&self) -> u64 {
        self.discovery_duration_ms
    }

    /// How long this client listens, in milliseconds.
    pub fn duration_ms(&self) -> (r: u64)
        ensures
            r == self.spec_duration_ms(),
    {
        self.discovery_duration_ms
    }
}

/// The announcer's configuration: what to advertise and where.
pub struct Server {
    /// Interface name, e.g. `eth0`.
    pub interface: String,
    /// Service type, e.g. `_net-detec._tcp.local.`.
    pub service_type: String,
    /// Instance name shown to browsers.
    pub instance_name: String,
    /// Hostname to advertise; must end with `.local.`.
    pub host_name: String,
    /// IPv4 to advertise; detected from the interface when absent.
    pub ip: Option<String>,
    /// Port to advertise.
    pub port: u16,
    /// TXT records, in announcement order.
    pub txt: Vec<(String, String)>,
}

/// How one `key=value` token parses: split at the first equals sign;
/// a token without one yields nothing.
pub open spec fn spec_txt_entry(s: Seq<char>) -> Option<(Seq<char>, Seq<char>)> {
    match spec_find_char(s, '=') {
        Some(i) => Some((s.take(i), s.skip(i + 1))),
        None => None,
    }
}

/// The entries of a list of `key=value` tokens, tokens without an equals
/// sign dropped, order kept.
pub open spec fn spec_parse_txt(kvs: Seq<Seq<char>>) -> Seq<(Seq<char>, Seq<char>)>
    decreases kvs.len(),
{
    if kvs.len() == 0 {
        Seq::empty()
    } else {
        spec_parse_txt(kvs.drop_last()) + (match spec_txt_entry(kvs.last()) {
            Some(p) => seq![p],
            None => Seq::empty(),
        })
    }
}

/// Parse `key=value` TXT tokens, keeping their order; a repeated key
/// keeps every occurrence, and the map-building caller lets the last win.
pub fn parse_txt(kvs: &Vec<String>) -> (r: Vec<(String, String)>)
    ensures
        r.deep_view() == spec_parse_txt(kvs.deep_view()),
{
    let mut out: Vec<(String, String)> = Vec::new();
    let mut i: usize = 0;
    proof {
        assert(kvs.deep_view().take(0) =~= Seq::<Seq<char>>::empty());
        assert(out.deep_view() =~= spec_parse_txt(kvs.deep_view().take(0)));
    }
    while i < kvs.len()
        invariant
            i <= kvs@.len(),
            kvs.deep_view().len() == kvs@.len(),
            out.deep_view() == spec_parse_txt(kvs.deep_view().take(i as int)),
        decreases kvs@.len() - i,
    {
        let kv = kvs[i].as_str();
        let n = kv.unicode_len();
        let ghost v = kvs.deep_view()[i as int];
        proof {
            assert(v == kvs@[i as int]@);
            assert(kvs.deep_view().take(i + 1).drop_last() =~= kvs.deep_view().take(i as int));
            assert(kvs.deep_view().take(i + 1).last() == v);
        }
        let mut j: usize = 0;
        let mut found = false;
        while j < n && !found
            invariant
                j <= n,
                n == kv@.len(),
                !found ==> (forall|w: int| 0 <= w < j ==> kv@[w] != '='),
                found ==> (j > 0 && kv@[j - 1] == '=' && (forall|w: int|
                    0 <= w < j - 1 ==> kv@[w] != '=')),
            decreases n - j,
        {
            if kv.get_char(j) == '=' {
                found = true;
            }
            j = j + 1;
        }
        if found {
            let key = kv.substring_char(0, j - 1);
            let val = kv.substring_char(j, n);
            proof {
                assert(spec_find_char(kv@, '=') == Some(j - 1)) by {
                    assert(0 <= j - 1 < kv@.len() && kv@[j - 1] == '=' && (forall|w: int|
                        0 <= w < j - 1 ==> kv@[w] != '='));
                    let w = choose|w: int|
                        0 <= w < kv@.len() && kv@[w] == '=' && (forall|x: int|
                            0 <= x < w ==> kv@[x] != '=');
                    if w < j - 1 {
                        assert(kv@[w] != '=');
                    } else if w > j - 1 {
                        assert(kv@[j - 1] != '=');
                    }
                }
                assert(kv@.subrange(0, j - 1) =~= kv@.take(j - 1));
                assert(kv@.subrange(j as int, n as int) =~= kv@.skip(j as int));
            }
            out.push((key.to_owned(), val.to_owned()));
            proof {
                assert(v == kv@);
                assert(out.deep_view() =~~= spec_parse_txt(kvs.deep_view().take(i + 1)));
            }
        } else {
            proof {
                assert(spec_find_char(kv@, '=') is None) by {
                    if exists|w: int| 0 <= w < kv@.len() && kv@[w] == '=' {
                        let w = choose|w: int| 0 <= w < kv@.len() && kv@[w] == '=';
                        assert(kv@[w] != '=');
                    }
                }
                assert(v == kv@);
                assert(out.deep_view() =~~= spec_parse_txt(kvs.deep_view().take(i + 1)));
            }
        }
        i = i + 1;
    }
    proof {
        assert(kvs.deep_view().take(kvs@.len() as int) =~= kvs.deep_view());
    }
    out
}

} // verus!

//! What the remote-procedure-call servers are set up with: where they
//! listen, and which interfaces they offer.

use vstd::prelude::*;
use vstd::string::StringExecFns;
use crate::text::{decimal, decimal_text, parts, same_text, split};

verus! {

/// How the server over HTTP is to be set up.
pub struct HttpConfiguration {
    /// Whether there is to be such a server.
    pub enabled: bool,
    /// The interface to listen on: `all`, `local`, or an address.
    pub interface: String,
    /// The port to listen on.
    pub port: u16,
    /// The interfaces to offer, by name, with commas between them.
    pub apis: String,
    /// The domains that may call from a browser.
    pub cors: Vec<String>,
}

/// How the server over a local socket is to be set up.
pub struct IpcConfiguration {
    /// Whether there is to be such a server.
    pub enabled: bool,
    /// The socket to listen on.
    pub socket_addr: String,
    /// The interfaces to offer, by name, with commas between them.
    pub apis: String,
}

/// An interface that a server can offer.
#[derive(Debug, Clone, Copy, PartialEq, Eq, Structural)]
pub enum Api {
    Web3,
    Net,
    Eth,
    Personal,
    Ethcore,
    Traces,
}

impl Api {
    /// The interface that a name stands for, where it stands for one.
    pub open spec fn named(name: Seq<char>) -> Option<Api> {
        if name == "web3"@ {
            Some(Api::Web3)
        } else if name == "net"@ {
            Some(Api::Net)
        } else if name == "eth"@ {
            Some(Api::Eth)
        } else if name == "personal"@ {
            Some(Api::Personal)
        } else if name == "ethcore"@ {
            Some(Api::Ethcore)
        } else if name == "traces"@ {
            Some(Api::Traces)
        } else {
            None
        }
    }

    /// The interface that a name stands for, where it stands for one.
    pub fn from_name(name: &str) -> (r: Option<Api>)
        ensures
            r == Api::named(name@),
    {
        if same_text(name, "web3") {
            Some(Api::Web3)
        } else if same_text(name, "net") {
            Some(Api::Net)
        } else if same_text(name, "eth") {
            Some(Api::Eth)
        } else if same_text(name, "personal") {
            Some(Api::Personal)
        } else if same_text(name, "ethcore") {
            Some(Api::Ethcore)
        } else if same_text(name, "traces") {
            Some(Api::Traces)
        } else {
            None
        }
    }

    /// The name of the interface.
    pub open spec fn title(self) -> Seq<char> {
        match self {
            Api::Web3 => "web3"@,
            Api::Net => "net"@,
            Api::Eth => "eth"@,
            Api::Personal => "personal"@,
            Api::Ethcore => "ethcore"@,
            Api::Traces => "traces"@,
        }
    }

    /// The name of the interface.
    pub fn name(&self) -> (r: &'static str)
        ensures
            r@ == self.title(),
    {
        match *self {
            Api::Web3 => "web3",
            Api::Net => "net",
            Api::Eth => "eth",
            Api::Personal => "personal",
            Api::Ethcore => "ethcore",
            Api::Traces => "traces",
        }
    }

    /// The version of the interface that is offered.
    pub fn version(&self) -> (r: &'static str)
        ensures
            r@ == "1.0"@,
    {
        "1.0"
    }
}

/// The address that an interface setting stands for: `all` is every
/// interface of the machine, `local` the machine itself, anything else is
/// taken as it is.
pub open spec fn interface_text(interface: Seq<char>) -> Seq<char> {
    if interface == "all"@ {
        "0.0.0.0"@
    } else if interface == "local"@ {
        "127.0.0.1"@
    } else {
        interface
    }
}

/// The address that an interface setting stands for.
pub fn interface_address(interface: &str) -> (r: String)
    ensures
        r@ == interface_text(interface@),
{
    if same_text(interface, "all") {
        String::from_str("0.0.0.0")
    } else if same_text(interface, "local") {
        String::from_str("127.0.0.1")
    } else {
        String::from_str(interface)
    }
}

/// Where the server over HTTP is to listen, as host and port with a colon
/// between them; `None` where there is to be no such server.
pub fn http_listen_url(conf: &HttpConfiguration) -> (r: Option<String>)
    ensures
        match r {
            Some(url) => conf.enabled && url@ == interface_text(conf.interface@) + ":"@
                + decimal_text(conf.port as nat),
            None => !conf.enabled,
        },
{
    if !conf.enabled {
        return None;
    }
    let mut url = interface_address(conf.interface.as_str());
    url.append(":");
    let port = decimal(conf.port as u64);
    url.append(port.as_str());
    Some(url)
}

/// The names of the interfaces to offer, as they stand between the commas.
pub fn api_names(apis: &str) -> (r: Vec<String>)
    ensures
        r.deep_view() == parts(apis@, ','),
{
    split(apis, ',')
}

/// The interfaces that the first `count` names stand for, in order; `None`
/// where one of those names stands for no interface.
pub open spec fn planned(names: Seq<Seq<char>>, count: nat) -> Option<Seq<Api>>
    decreases count,
{
    if count == 0 || count > names.len() {
        Some(Seq::empty())
    } else {
        match (planned(names, (count - 1) as nat), Api::named(names[count - 1])) {
            (Some(before), Some(api)) => Some(before.push(api)),
            _ => None,
        }
    }
}

/// The place of the first name that stands for no interface, where there
/// is one.
pub open spec fn first_unknown(names: Seq<Seq<char>>) -> Option<int> {
    if exists|i: int|
        0 <= i < names.len() && Api::named(names[i]).is_none() && forall|j: int|
            0 <= j < i ==> Api::named(#[trigger] names[j]).is_some() {
        Some(
            choose|i: int|
                0 <= i < names.len() && Api::named(names[i]).is_none() && forall|j: int|
                    0 <= j < i ==> Api::named(#[trigger] names[j]).is_some(),
        )
    } else {
        None
    }
}

/// The interfaces to set a server up with, in the order of their names; or
/// the place of the first name that stands for none.
pub fn plan_apis(names: &Vec<String>) -> (r: Result<Vec<Api>, usize>)
    ensures
        match r {
            Ok(apis) => planned(names.deep_view(), names@.len()) == Some(apis@) && apis@.len()
                == names@.len(),
            Err(place) => first_unknown(names.deep_view()) == Some(place as int),
        },
{
    let mut apis: Vec<Api> = Vec::new();
    let mut i: usize = 0;
    while i < names.len()
        invariant
            i <= names@.len(),
            names.deep_view().len() == names@.len(),
            planned(names.deep_view(), i as nat) == Some(apis@),
            apis@.len() == i,
            forall|j: int| 0 <= j < i ==> Api::named(#[trigger] names.deep_view()[j]).is_some(),
        decreases names@.len() - i,
    {
        proof {
            assert(names.deep_view()[i as int] == names@[i as int]@);
        }
        match Api::from_name(names[i].as_str()) {
            Some(api) => {
                apis.push(api);
            },
            None => {
                proof {
                    let views = names.deep_view();
                    let p = i as int;
                    assert(0 <= p < views.len() && Api::named(views[p]).is_none());
                    let chosen = first_unknown(views).unwrap();
                    if chosen < p {
                        assert(Api::named(views[chosen]).is_some());
                    } else if p < chosen {
                        assert(Api::named(views[p]).is_some());
                    }
                }
                return Err(i);
            },
        }
        i = i + 1;
    }
    Ok(apis)
}

} // verus!

//! Bus addresses, written as colon-separated text.
use vstd::prelude::*;
use crate::registry::starts_with;

verus! {

/// The address of the router of a domain: `opensrf:router:<domain>`.
pub open spec fn router_address(domain: Seq<char>) -> Seq<char> {
    "opensrf:router:"@ + domain
}

/// The address under which a service listens: `opensrf:service:<name>`.
pub open spec fn service_address(service: Seq<char>) -> Seq<char> {
    "opensrf:service:"@ + service
}

/// Builds the router address of `domain`.
pub fn router_address_of(domain: &str) -> (r: String)
    ensures
        r@ == router_address(domain@),
{
    "opensrf:router:".to_owned().concat(domain)
}

/// Builds the address of service `service`.
pub fn service_address_of(service: &str) -> (r: String)
    ensures
        r@ == service_address(service@),
{
    "opensrf:service:".to_owned().concat(service)
}

/// The three kinds of bus address.
#[derive(Debug, Clone, Copy, PartialEq, Eq, Structural)]
pub enum AddressKind {
    Router,
    Service,
    Client,
}

/// A structured bus address. A router address names its domain; a
/// service address names its service; a client address names its domain
/// and an instance token that keeps it apart from every other client.
#[derive(Debug)]
pub struct BusAddress {
    pub kind: AddressKind,
    pub domain: String,
    pub service: Option<String>,
    pub instance: Option<String>,
}

/// A bus address as the contracts see it.
pub ghost struct AddressView {
    pub kind: AddressKind,
    pub domain: Seq<char>,
    pub service: Option<Seq<char>>,
    pub instance: Option<Seq<char>>,
}

impl View for BusAddress {
    type V = AddressView;

    open spec fn view(&self) -> AddressView {
        AddressView {
            kind: self.kind,
            domain: self.domain@,
            service: match self.service {
                Some(s) => Some(s@),
                None => None,
            },
            instance: match self.instance {
                Some(s) => Some(s@),
                None => None,
            },
        }
    }
}

/// The first position of `c` in `s`.
pub open spec fn index_of(s: Seq<char>, c: char) -> Option<int>
    decreases s.len(),
{
    if s.len() == 0 {
        None
    } else if s[0] == c {
        Some(0)
    } else {
        match index_of(s.drop_first(), c) {
            Some(i) => Some(i + 1),
            None => None,
        }
    }
}

/// `a` can be written and read back: a router or client domain holds no
/// colon, and exactly the parts that its kind names are present.
pub open spec fn address_wf(a: AddressView) -> bool {
    match a.kind {
        AddressKind::Router => a.service is None && a.instance is None,
        AddressKind::Service => a.service is Some && a.instance is None && a.domain.len() == 0,
        AddressKind::Client => a.service is None && a.instance is Some && index_of(a.domain, ':') is None,
    }
}

/// The text of an address.
pub open spec fn address_text(a: AddressView) -> Seq<char> {
    match a.kind {
        AddressKind::Router => router_address(a.domain),
        AddressKind::Service => service_address(a.service->0),
        AddressKind::Client => "opensrf:client:"@ + a.domain + ":"@ + a.instance->0,
    }
}

/// The address that a text writes, if it writes one.
pub open spec fn parse_address_text(s: Seq<char>) -> Option<AddressView> {
    if "opensrf:router:"@.is_prefix_of(s) {
        Some(AddressView { kind: AddressKind::Router, domain: s.skip(15), service: None, instance: None })
    } else if "opensrf:service:"@.is_prefix_of(s) {
        Some(AddressView { kind: AddressKind::Service, domain: Seq::empty(), service: Some(s.skip(16)), instance: None })
    } else if "opensrf:client:"@.is_prefix_of(s) {
        let rest = s.skip(15);
        match index_of(rest, ':') {
            Some(j) => Some(AddressView {
                kind: AddressKind::Client,
                domain: rest.take(j),
                service: None,
                instance: Some(rest.skip(j + 1)),
            }),
            None => None,
        }
    } else {
        None
    }
}

/// Finds the first `c` in `s`.
fn find_char(s: &str, c: char) -> (r: Option<usize>)
    ensures
        match r {
            Some(i) => index_of(s@, c) == Some(i as int) && i < s@.len(),
            None => index_of(s@, c) is None,
        },
{
    let n = s.unicode_len();
    let mut i: usize = 0;
    proof {
        assert(s@.skip(0) =~= s@);
    }
    while i < n
        invariant
            n == s@.len(),
            i <= n,
            index_of(s@, c) == match index_of(s@.skip(i as int), c) {
                Some(k) => Some(k + i),
                None => None::<int>,
            },
        decreases n - i,
    {
        let ghost rest = s@.skip(i as int);
        proof {
            assert(rest.drop_first() =~= s@.skip(i + 1));
        }
        if s.get_char(i) == c {
            return Some(i);
        }
        i = i + 1;
    }
    proof {
        assert(s@.skip(i as int).len() == 0);
    }
    None
}

/// Text `s` with `k` more characters after a prefix without `c`.
proof fn lemma_index_after(p: Seq<char>, c: char, rest: Seq<char>)
    requires
        index_of(p, c) is None,
    ensures
        index_of(p + seq![c] + rest, c) == Some(p.len() as int),
    decreases p.len(),
{
    let s = p + seq![c] + rest;
    if p.len() == 0 {
        assert(s[0] == c);
    } else {
        assert(s[0] == p[0]);
        assert(s.drop_first() =~= p.drop_first() + seq![c] + rest);
        lemma_index_after(p.drop_first(), c, rest);
    }
}

impl BusAddress {
    /// The address as text: `opensrf:router:<domain>`,
    /// `opensrf:service:<service>` or `opensrf:client:<domain>:<instance>`.
    pub fn as_text(&self) -> (r: String)
        requires
            address_wf(self@),
        ensures
            r@ == address_text(self@),
    {
        match self.kind {
            AddressKind::Router => router_address_of(self.domain.as_str()),
            AddressKind::Service => match &self.service {
                Some(s) => service_address_of(s.as_str()),
                None => String::new(),
            },
            AddressKind::Client => match &self.instance {
                Some(i) => "opensrf:client:".to_owned().concat(self.domain.as_str()).concat(":").concat(i.as_str()),
                None => String::new(),
            },
        }
    }

    /// Reads an address from its text; `None` where the text is no address.
    pub fn parse(text: &String) -> (r: Option<BusAddress>)
        ensures
            match r {
                Some(a) => parse_address_text(text@) == Some(a@),
                None => parse_address_text(text@) is None,
            },
    {
        let s = text.as_str();
        let n = s.unicode_len();
        let router = "opensrf:router:".to_owned();
        let service = "opensrf:service:".to_owned();
        let client = "opensrf:client:".to_owned();
        proof {
            reveal_strlit("opensrf:router:");
            reveal_strlit("opensrf:service:");
            reveal_strlit("opensrf:client:");
        }
        if starts_with(text, &router) {
            let d = s.substring_char(15, n).to_owned();
            proof {
                assert(d@ =~= text@.skip(15));
            }
            return Some(BusAddress { kind: AddressKind::Router, domain: d, service: None, instance: None });
        }
        if starts_with(text, &service) {
            let v = s.substring_char(16, n).to_owned();
            let e = String::new();
            proof {
                assert(v@ =~= text@.skip(16));
                assert(e@ =~= Seq::<char>::empty());
            }
            return Some(BusAddress { kind: AddressKind::Service, domain: e, service: Some(v), instance: None });
        }
        if starts_with(text, &client) {
            let rest = s.substring_char(15, n);
            proof {
                assert(rest@ =~= text@.skip(15));
            }
            match find_char(rest, ':') {
                Some(j) => {
                    let m = rest.unicode_len();
                    let d = rest.substring_char(0, j).to_owned();
                    let i = rest.substring_char(j + 1, m).to_owned();
                    proof {
                        assert(d@ =~= rest@.take(j as int));
                        assert(i@ =~= rest@.skip(j + 1));
                    }
                    return Some(BusAddress { kind: AddressKind::Client, domain: d, service: None, instance: Some(i) });
                },
                None => return None,
            }
        }
        None
    }
}

/// An address read back from its text is the address that was written.
pub proof fn lemma_address_round_trip(a: AddressView)
    requires
        address_wf(a),
    ensures
        parse_address_text(address_text(a)) == Some(a),
{
    reveal_strlit("opensrf:router:");
    reveal_strlit("opensrf:service:");
    reveal_strlit("opensrf:client:");
    reveal_strlit(":");
    let t = address_text(a);
    assert("opensrf:router:"@[8] != "opensrf:service:"@[8]);
    assert("opensrf:router:"@[8] != "opensrf:client:"@[8]);
    assert("opensrf:service:"@[8] != "opensrf:client:"@[8]);
    match a.kind {
        AddressKind::Router => {
            assert("opensrf:router:"@.is_prefix_of(t));
            assert(t.skip(15) =~= a.domain);
        },
        AddressKind::Service => {
            assert(!"opensrf:router:"@.is_prefix_of(t)) by {
                assert(t[8] == "opensrf:service:"@[8]);
            }
            assert("opensrf:service:"@.is_prefix_of(t));
            assert(t.skip(16) =~= a.service->0);
            assert(a.domain =~= Seq::<char>::empty());
        },
        AddressKind::Client => {
            assert(!"opensrf:router:"@.is_prefix_of(t)) by {
                assert(t[8] == "opensrf:client:"@[8]);
            }
            assert(!"opensrf:service:"@.is_prefix_of(t)) by {
                assert(t[8] == "opensrf:client:"@[8]);
            }
            assert("opensrf:client:"@.is_prefix_of(t));
            let rest = t.skip(15);
            assert(rest =~= a.domain + seq![':'] + a.instance->0);
            lemma_index_after(a.domain, ':', a.instance->0);
            assert(rest.take(a.domain.len() as int) =~= a.domain);
            assert(rest.skip(a.domain.len() as int + 1) =~= a.instance->0);
        },
    }
}

} // verus!

//! Service discovery through nsqlookupd: the query URL and the nsqd
//! addresses an answer yields.

use crate::error::{digits_text, owned, push_decimal_text};
use crate::wire::decimal;
use vstd::prelude::*;

verus! {

/// The URL that asks nsqlookupd for the producers of `topic`.
pub fn lookup_url(lookupd_url: &str, topic: &str) -> (r: String)
    ensures
        r@ == lookupd_url@ + "/lookup?topic="@ + topic@,
{
    let mut url = owned(lookupd_url);
    url.append("/lookup?topic=");
    url.append(topic);
    url
}

/// The host a producer is reached at: its broadcast address, except that
/// the name "nsqd" stands for the local host.
pub open spec fn producer_host(broadcast_address: Seq<char>) -> Seq<char> {
    if broadcast_address == "nsqd"@ {
        "127.0.0.1"@
    } else {
        broadcast_address
    }
}

/// The `host:port` address of a producer nsqlookupd reported.
pub fn node_address(broadcast_address: &str, tcp_port: u16) -> (r: String)
    ensures
        r@ == producer_host(broadcast_address@) + ":"@ + digits_text(decimal(tcp_port as nat)),
{
    let nsqd = owned("nsqd");
    let own = owned(broadcast_address);
    let mut addr = if own == nsqd {
        owned("127.0.0.1")
    } else {
        own
    };
    addr.append(":");
    push_decimal_text(&mut addr, tcp_port as u64);
    addr
}

/// A producer as nsqlookupd reports it.
#[derive(Debug, Clone)]
pub struct LookupProducer {
    pub broadcast_address: String,
    pub tcp_port: u16,
}

/// The addresses of the producers nsqlookupd reported, in its order.
pub fn node_addresses(producers: &Vec<LookupProducer>) -> (r: Vec<String>)
    ensures
        r@.len() == producers@.len(),
        forall|i: int|
            0 <= i < r@.len() ==> #[trigger] r@[i]@ == producer_host(producers@[i].broadcast_address@)
                + ":"@ + digits_text(decimal(producers@[i].tcp_port as nat)),
{
    let mut out: Vec<String> = Vec::new();
    let mut i: usize = 0;
    while i < producers.len()
        invariant
            i <= producers@.len(),
            out@.len() == i,
            forall|k: int|
                0 <= k < i ==> #[trigger] out@[k]@ == producer_host(
                    producers@[k].broadcast_address@,
                ) + ":"@ + digits_text(decimal(producers@[k].tcp_port as nat)),
        decreases producers@.len() - i,
    {
        let p = &producers[i];
        out.push(node_address(p.broadcast_address.as_str(), p.tcp_port));
        i = i + 1;
    }
    out
}

} // verus!

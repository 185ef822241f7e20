//! Routing under the `/monitor/` prefix.

use crate::rpc::filters::{
    ascii, exact, join, law_exact_consumes_its_segment, law_param_takes_whole_segment,
    law_start_skips_leading_slash, no_slash, param, spec_exact, spec_param, start, start_of, SLASH,
};
use vstd::prelude::*;

verus! {

/// The requests served under `/monitor/`.
pub enum MonitorRoute {
    Bootstrapped,
    CommitHash,
    ActiveChains,
    Protocols,
    ValidBlocks,
    /// `/monitor/heads/<chain_id>`, with the chain id as it stands in the path.
    Heads(Vec<u8>),
}

/// A route as the contracts see it.
pub enum MonitorRouteView {
    Bootstrapped,
    CommitHash,
    ActiveChains,
    Protocols,
    ValidBlocks,
    Heads(Seq<u8>),
}

impl View for MonitorRoute {
    type V = MonitorRouteView;

    open spec fn view(&self) -> MonitorRouteView {
        match self {
            MonitorRoute::Bootstrapped => MonitorRouteView::Bootstrapped,
            MonitorRoute::CommitHash => MonitorRouteView::CommitHash,
            MonitorRoute::ActiveChains => MonitorRouteView::ActiveChains,
            MonitorRoute::Protocols => MonitorRouteView::Protocols,
            MonitorRoute::ValidBlocks => MonitorRouteView::ValidBlocks,
            MonitorRoute::Heads(chain) => MonitorRouteView::Heads(chain@),
        }
    }
}

/// The route a request takes: only GET requests are served; after the
/// segment `monitor`, the segments `bootstrapped`, `commit_hash`,
/// `active_chains`, `protocols` and `valid_blocks` each select their route
/// whatever follows them, and `heads` selects its route when exactly one
/// non-empty segment follows it (a trailing `/` allowed).
pub open spec fn spec_routes(is_get: bool, full_path: Seq<u8>) -> Option<MonitorRouteView> {
    if !is_get {
        None
    } else {
        match spec_exact(start_of(full_path), "monitor"@) {
            None => None,
            Some(rest) => if spec_exact(rest, "bootstrapped"@) is Some {
                Some(MonitorRouteView::Bootstrapped)
            } else if spec_exact(rest, "commit_hash"@) is Some {
                Some(MonitorRouteView::CommitHash)
            } else if spec_exact(rest, "active_chains"@) is Some {
                Some(MonitorRouteView::ActiveChains)
            } else if spec_exact(rest, "protocols"@) is Some {
                Some(MonitorRouteView::Protocols)
            } else if spec_exact(rest, "valid_blocks"@) is Some {
                Some(MonitorRouteView::ValidBlocks)
            } else {
                match spec_exact(rest, "heads"@) {
                    Some(after_heads) => match spec_param(after_heads) {
                        Some((chain, tail)) => if tail.len() == 0 {
                            Some(MonitorRouteView::Heads(chain))
                        } else {
                            None
                        },
                        None => None,
                    },
                    None => None,
                }
            },
        }
    }
}

/// Routes a request under the `/monitor/` prefix.
pub fn routes(is_get: bool, full_path: &[u8]) -> (route: Option<MonitorRoute>)
    ensures
        match route {
            Some(r) => spec_routes(is_get, full_path@) == Some(r@),
            None => spec_routes(is_get, full_path@) is None,
        },
{
    if !is_get {
        return None;
    }
    proof {
        reveal_strlit("monitor");
        reveal_strlit("bootstrapped");
        reveal_strlit("commit_hash");
        reveal_strlit("active_chains");
        reveal_strlit("protocols");
        reveal_strlit("valid_blocks");
        reveal_strlit("heads");
    }
    let rest = match exact(start(full_path), "monitor") {
        Some(rest) => rest,
        None => return None,
    };
    if exact(rest, "bootstrapped").is_some() {
        Some(MonitorRoute::Bootstrapped)
    } else if exact(rest, "commit_hash").is_some() {
        Some(MonitorRoute::CommitHash)
    } else if exact(rest, "active_chains").is_some() {
        Some(MonitorRoute::ActiveChains)
    } else if exact(rest, "protocols").is_some() {
        Some(MonitorRoute::Protocols)
    } else if exact(rest, "valid_blocks").is_some() {
        Some(MonitorRoute::ValidBlocks)
    } else {
        match exact(rest, "heads") {
            Some(after_heads) => match param(after_heads) {
                Some((chain, tail)) => if tail.len() == 0 {
                    Some(MonitorRoute::Heads(chain))
                } else {
                    None
                },
                None => None,
            },
            None => None,
        }
    }
}

proof fn lemma_literals()
    ensures
        no_slash(ascii("monitor"@)),
        no_slash(ascii("bootstrapped"@)),
        no_slash(ascii("commit_hash"@)),
        no_slash(ascii("active_chains"@)),
        no_slash(ascii("protocols"@)),
        no_slash(ascii("valid_blocks"@)),
        no_slash(ascii("heads"@)),
        ascii("bootstrapped"@).len() == 12,
        ascii("commit_hash"@).len() == 11,
        ascii("active_chains"@).len() == 13,
        ascii("protocols"@).len() == 9,
        ascii("valid_blocks"@).len() == 12,
        ascii("heads"@).len() == 5,
        ascii("bootstrapped"@) != ascii("valid_blocks"@),
{
    reveal_strlit("monitor");
    reveal_strlit("bootstrapped");
    reveal_strlit("commit_hash");
    reveal_strlit("active_chains");
    reveal_strlit("protocols");
    reveal_strlit("valid_blocks");
    reveal_strlit("heads");
    assert(ascii("bootstrapped"@)[0] != ascii("valid_blocks"@)[0]);
}

/// The path `/monitor/<first>`, followed by `/<rest>` when `rest` is given.
pub open spec fn monitor_path(first: Seq<u8>, rest: Option<Seq<u8>>) -> Seq<u8> {
    seq![SLASH] + join(
        ascii("monitor"@),
        match rest {
            Some(r) => join(first, r),
            None => first,
        },
    )
}

/// A GET of `/monitor/heads/<chain_id>`, with or without a trailing `/`,
/// routes to the heads of exactly that chain id, whatever its length, as
/// long as it is non-empty and holds no `/`; any other method is refused.
pub proof fn law_routes_heads(chain_id: Seq<u8>, trailing_slash: bool)
    requires
        chain_id.len() > 0,
        no_slash(chain_id),
    ensures
        ({
            let last = if trailing_slash {
                join(chain_id, Seq::empty())
            } else {
                chain_id
            };
            let path = monitor_path(ascii("heads"@), Some(last));
            &&& spec_routes(true, path) == Some(MonitorRouteView::Heads(chain_id))
            &&& spec_routes(false, path) is None
        }),
{
    lemma_literals();
    let last = if trailing_slash {
        join(chain_id, Seq::empty())
    } else {
        chain_id
    };
    let heads = ascii("heads"@);
    let rest = join(heads, last);
    law_start_skips_leading_slash(join(ascii("monitor"@), rest));
    law_exact_consumes_its_segment("monitor"@, ascii("monitor"@), rest);
    law_exact_consumes_its_segment("bootstrapped"@, heads, last);
    law_exact_consumes_its_segment("commit_hash"@, heads, last);
    law_exact_consumes_its_segment("active_chains"@, heads, last);
    law_exact_consumes_its_segment("protocols"@, heads, last);
    law_exact_consumes_its_segment("valid_blocks"@, heads, last);
    law_exact_consumes_its_segment("heads"@, heads, last);
    law_param_takes_whole_segment(chain_id, Seq::empty());
}

/// What follows `monitor/` in `monitor_path(first, rest)`.
pub open spec fn after_monitor(first: Seq<u8>, rest: Option<Seq<u8>>) -> Seq<u8> {
    match rest {
        Some(r) => join(first, r),
        None => first,
    }
}

proof fn lemma_monitor_prefix(first: Seq<u8>, rest: Option<Seq<u8>>)
    ensures
        spec_exact(start_of(monitor_path(first, rest)), "monitor"@) == Some(after_monitor(first, rest)),
{
    lemma_literals();
    law_start_skips_leading_slash(join(ascii("monitor"@), after_monitor(first, rest)));
    law_exact_consumes_its_segment("monitor"@, ascii("monitor"@), after_monitor(first, rest));
}

proof fn lemma_exact_after(first: Seq<u8>, rest: Option<Seq<u8>>, literal: Seq<char>)
    requires
        no_slash(first),
    ensures
        (spec_exact(after_monitor(first, rest), literal) is Some) == (first == ascii(literal)),
{
    match rest {
        Some(r) => law_exact_consumes_its_segment(literal, first, r),
        None => law_exact_consumes_its_segment(literal, first, Seq::empty()),
    }
}

/// A GET of `/monitor/bootstrapped`, `/monitor/commit_hash`,
/// `/monitor/active_chains`, `/monitor/protocols` or `/monitor/valid_blocks`
/// routes to that request, whatever follows it.
pub proof fn law_routes_fixed_requests(rest: Option<Seq<u8>>)
    ensures
        spec_routes(true, monitor_path(ascii("bootstrapped"@), rest)) == Some(MonitorRouteView::Bootstrapped),
        spec_routes(true, monitor_path(ascii("commit_hash"@), rest)) == Some(MonitorRouteView::CommitHash),
        spec_routes(true, monitor_path(ascii("active_chains"@), rest)) == Some(MonitorRouteView::ActiveChains),
        spec_routes(true, monitor_path(ascii("protocols"@), rest)) == Some(MonitorRouteView::Protocols),
        spec_routes(true, monitor_path(ascii("valid_blocks"@), rest)) == Some(MonitorRouteView::ValidBlocks),
{
    lemma_literals();
    let b = ascii("bootstrapped"@);
    let c = ascii("commit_hash"@);
    let a = ascii("active_chains"@);
    let p = ascii("protocols"@);
    let v = ascii("valid_blocks"@);
    lemma_monitor_prefix(b, rest);
    lemma_monitor_prefix(c, rest);
    lemma_monitor_prefix(a, rest);
    lemma_monitor_prefix(p, rest);
    lemma_monitor_prefix(v, rest);
    lemma_exact_after(b, rest, "bootstrapped"@);
    lemma_exact_after(c, rest, "bootstrapped"@);
    lemma_exact_after(c, rest, "commit_hash"@);
    lemma_exact_after(a, rest, "bootstrapped"@);
    lemma_exact_after(a, rest, "commit_hash"@);
    lemma_exact_after(a, rest, "active_chains"@);
    lemma_exact_after(p, rest, "bootstrapped"@);
    lemma_exact_after(p, rest, "commit_hash"@);
    lemma_exact_after(p, rest, "active_chains"@);
    lemma_exact_after(p, rest, "protocols"@);
    lemma_exact_after(v, rest, "bootstrapped"@);
    lemma_exact_after(v, rest, "commit_hash"@);
    lemma_exact_after(v, rest, "active_chains"@);
    lemma_exact_after(v, rest, "protocols"@);
    lemma_exact_after(v, rest, "valid_blocks"@);
}

} // verus!

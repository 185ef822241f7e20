//! Routing under the `/chains/<chain_id>/blocks/` prefix.

use crate::rpc::filters::{
    ascii, exact, join, law_exact_consumes_its_segment, law_param_takes_whole_segment,
    law_start_skips_leading_slash, no_slash, param, spec_exact, spec_param, start, start_of, SLASH,
};
use vstd::prelude::*;

verus! {

/// A request for `/chains/<chain_id>/blocks/<block_id>`, with both ids as
/// they stand in the path.
pub struct BlockRoute {
    pub chain_id: Vec<u8>,
    pub block_id: Vec<u8>,
}

/// The route a request takes: a GET request whose path is exactly `chains`,
/// a non-empty chain id, `blocks` and a non-empty block id (a trailing `/`
/// allowed) names a block; nothing else is served here.
pub open spec fn spec_routes(is_get: bool, full_path: Seq<u8>) -> Option<(Seq<u8>, Seq<u8>)> {
    if !is_get {
        None
    } else {
        match spec_exact(start_of(full_path), "chains"@) {
            None => None,
            Some(p1) => match spec_param(p1) {
                None => None,
                Some((chain_id, p2)) => match spec_exact(p2, "blocks"@) {
                    None => None,
                    Some(p3) => match spec_param(p3) {
                        None => None,
                        Some((block_id, tail)) => if tail.len() == 0 {
                            Some((chain_id, block_id))
                        } else {
                            None
                        },
                    },
                },
            },
        }
    }
}

/// Routes a request under the `/chains/<chain_id>/blocks/` prefix.
pub fn routes(is_get: bool, full_path: &[u8]) -> (route: Option<BlockRoute>)
    ensures
        match route {
            Some(r) => spec_routes(is_get, full_path@) == Some((r.chain_id@, r.block_id@)),
            None => spec_routes(is_get, full_path@) is None,
        },
{
    if !is_get {
        return None;
    }
    proof {
        reveal_strlit("chains");
        reveal_strlit("blocks");
    }
    let p1 = match exact(start(full_path), "chains") {
        Some(p) => p,
        None => return None,
    };
    let (chain_id, p2) = match param(p1) {
        Some(found) => found,
        None => return None,
    };
    let p3 = match exact(p2, "blocks") {
        Some(p) => p,
        None => return None,
    };
    match param(p3) {
        Some((block_id, tail)) => if tail.len() == 0 {
            Some(BlockRoute { chain_id, block_id })
        } else {
            None
        },
        None => None,
    }
}

/// A GET of `/chains/<chain_id>/blocks/<block_id>`, with or without a
/// trailing `/`, routes to exactly those two ids, whatever their length, as
/// long as both are non-empty and hold no `/`; any other method is refused.
pub proof fn law_routes_block_request(chain_id: Seq<u8>, block_id: Seq<u8>, trailing_slash: bool)
    requires
        chain_id.len() > 0,
        no_slash(chain_id),
        block_id.len() > 0,
        no_slash(block_id),
    ensures
        ({
            let last = if trailing_slash {
                join(block_id, Seq::empty())
            } else {
                block_id
            };
            let path = seq![SLASH] + join(ascii("chains"@), join(chain_id, join(ascii("blocks"@), last)));
            &&& spec_routes(true, path) == Some((chain_id, block_id))
            &&& spec_routes(false, path) is None
        }),
{
    reveal_strlit("chains");
    reveal_strlit("blocks");
    let chains = ascii("chains"@);
    let blocks = ascii("blocks"@);
    assert(no_slash(chains));
    assert(no_slash(blocks));
    let last = if trailing_slash {
        join(block_id, Seq::empty())
    } else {
        block_id
    };
    let p3 = last;
    let p2 = join(blocks, p3);
    let p1 = join(chain_id, p2);
    law_start_skips_leading_slash(join(chains, p1));
    law_exact_consumes_its_segment("chains"@, chains, p1);
    law_param_takes_whole_segment(chain_id, p2);
    law_exact_consumes_its_segment("blocks"@, blocks, p3);
    law_param_takes_whole_segment(block_id, Seq::empty());
}

} // verus!

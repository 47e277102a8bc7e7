//! The retrieval policy: which tiers (cache, network, render) a request may
//! use, and the order in which a retrieval tries them.

use vstd::prelude::*;

verus! {

/// How hard a request may try to produce a resource.
#[derive(Clone, Copy, Debug, PartialEq, Eq, Structural)]
pub enum RequestMode {
    /// Cache, network and render all allowed.
    Normal,
    /// Cache and render, no network.
    NoNetwork,
    /// Network and render; cache reads skipped, cache writes still made.
    BustCache,
    /// Cache only: for latency-sensitive probes.
    VeryFast,
}

impl RequestMode {
    pub open spec fn allows_network(self) -> bool {
        match self {
            RequestMode::Normal | RequestMode::BustCache => true,
            RequestMode::NoNetwork | RequestMode::VeryFast => false,
        }
    }

    pub open spec fn allows_cache(self) -> bool {
        match self {
            RequestMode::BustCache => false,
            _ => true,
        }
    }

    pub open spec fn allows_render(self) -> bool {
        match self {
            RequestMode::VeryFast => false,
            _ => true,
        }
    }

    /// Whether the remote API may be asked.
    pub fn network(&self) -> (r: bool)
        ensures
            r == self.allows_network(),
    {
        match self {
            RequestMode::Normal => true,
            RequestMode::NoNetwork => false,
            RequestMode::BustCache => true,
            RequestMode::VeryFast => false,
        }
    }

    /// Whether the cache store may be read.
    pub fn cache(&self) -> (r: bool)
        ensures
            r == self.allows_cache(),
    {
        match self {
            RequestMode::Normal => true,
            RequestMode::NoNetwork => true,
            RequestMode::BustCache => false,
            RequestMode::VeryFast => true,
        }
    }

    /// Whether an image may be composited on demand.
    pub fn render(&self) -> (r: bool)
        ensures
            r == self.allows_render(),
    {
        match self {
            RequestMode::Normal => true,
            RequestMode::NoNetwork => true,
            RequestMode::BustCache => true,
            RequestMode::VeryFast => false,
        }
    }
}

/// The presets: `Normal` allows every tier, `VeryFast` only the cache,
/// `BustCache` everything but cache reads, `NoNetwork` everything but the
/// network.
pub proof fn lemma_presets()
    ensures
        RequestMode::Normal.allows_cache() && RequestMode::Normal.allows_network()
            && RequestMode::Normal.allows_render(),
        RequestMode::VeryFast.allows_cache() && !RequestMode::VeryFast.allows_network()
            && !RequestMode::VeryFast.allows_render(),
        !RequestMode::BustCache.allows_cache() && RequestMode::BustCache.allows_network()
            && RequestMode::BustCache.allows_render(),
        RequestMode::NoNetwork.allows_cache() && !RequestMode::NoNetwork.allows_network()
            && RequestMode::NoNetwork.allows_render(),
{
}

/// What a retrieval produces.
#[derive(Clone, Copy, Debug, PartialEq, Eq, Structural)]
pub enum Resource {
    /// The metadata of one comic.
    Comic(u32),
    /// The metadata of the newest comic; never served from the cache.
    Latest,
    /// The upstream image of one comic.
    RawImage(u32),
    /// The composited image of one comic.
    RenderedImage(u32),
}

/// The next thing a retrieval asks its driver to do.
#[derive(Clone, Copy, Debug, PartialEq, Eq, Structural)]
pub enum Action {
    /// Look the resource up in the cache store.
    ReadCache,
    /// Fetch the resource from the remote API.
    Fetch,
    /// Obtain the comic's raw image, by a retrieval under the same mode.
    ObtainRaw,
    /// Composite the raw image just obtained.
    Render,
    /// Store what was produced in the cache (best effort), then hand it back.
    StoreAndReturn,
    /// Hand back what the cache held.
    Return,
    /// No tier produced the resource.
    Unavailable,
}

impl Action {
    /// Whether the retrieval is over.
    pub open spec fn is_final(self) -> bool {
        match self {
            Action::StoreAndReturn | Action::Return | Action::Unavailable => true,
            _ => false,
        }
    }
}

/// The first tier after the cache: the network for metadata and raw images,
/// the compositor for rendered images.
pub open spec fn after_cache(resource: Resource, mode: RequestMode) -> Action {
    match resource {
        Resource::RenderedImage(_) => if mode.allows_render() {
            Action::ObtainRaw
        } else {
            Action::Unavailable
        },
        _ => if mode.allows_network() {
            Action::Fetch
        } else {
            Action::Unavailable
        },
    }
}

/// The first action of a retrieval.
pub open spec fn first_action(resource: Resource, mode: RequestMode) -> Action {
    if mode.allows_cache() && resource != Resource::Latest {
        Action::ReadCache
    } else {
        after_cache(resource, mode)
    }
}

/// The action that follows `last`, given whether `last` produced the resource.
pub open spec fn next_action(
    resource: Resource,
    mode: RequestMode,
    last: Action,
    produced: bool,
) -> Action {
    match last {
        Action::ReadCache => if produced {
            Action::Return
        } else {
            after_cache(resource, mode)
        },
        Action::Fetch => if produced {
            Action::StoreAndReturn
        } else {
            Action::Unavailable
        },
        Action::ObtainRaw => if produced {
            Action::Render
        } else {
            Action::Unavailable
        },
        Action::Render => if produced {
            Action::StoreAndReturn
        } else {
            Action::Unavailable
        },
        _ => last,
    }
}

/// One retrieval of one resource: a state machine that a driver runs by
/// performing `action` and reporting whether it produced the resource.
#[derive(Clone, Copy, Debug)]
pub struct Retrieval {
    pub resource: Resource,
    pub mode: RequestMode,
    pub action: Action,
}

fn after_cache_exec(resource: Resource, mode: RequestMode) -> (r: Action)
    ensures
        r == after_cache(resource, mode),
{
    match resource {
        Resource::RenderedImage(_) => if mode.render() {
            Action::ObtainRaw
        } else {
            Action::Unavailable
        },
        _ => if mode.network() {
            Action::Fetch
        } else {
            Action::Unavailable
        },
    }
}

impl Retrieval {
    /// Starts a retrieval: the cache first where the mode allows it (never
    /// for the latest comic), then the network or the compositor.
    pub fn start(resource: Resource, mode: RequestMode) -> (r: Retrieval)
        ensures
            r.resource == resource,
            r.mode == mode,
            r.action == first_action(resource, mode),
    {
        let latest = match resource {
            Resource::Latest => true,
            _ => false,
        };
        let action = if mode.cache() && !latest {
            Action::ReadCache
        } else {
            after_cache_exec(resource, mode)
        };
        Retrieval { resource, mode, action }
    }

    /// Reports the outcome of the current action and moves to the next one.
    pub fn advance(&mut self, produced: bool)
        ensures
            final(self).resource == old(self).resource,
            final(self).mode == old(self).mode,
            final(self).action == next_action(
                old(self).resource,
                old(self).mode,
                old(self).action,
                produced,
            ),
    {
        let next = match self.action {
            Action::ReadCache => if produced {
                Action::Return
            } else {
                after_cache_exec(self.resource, self.mode)
            },
            Action::Fetch => if produced {
                Action::StoreAndReturn
            } else {
                Action::Unavailable
            },
            Action::ObtainRaw => if produced {
                Action::Render
            } else {
                Action::Unavailable
            },
            Action::Render => if produced {
                Action::StoreAndReturn
            } else {
                Action::Unavailable
            },
            other => other,
        };
        self.action = next;
    }

    /// Whether the retrieval is over.
    pub fn is_done(&self) -> (r: bool)
        ensures
            r == self.action.is_final(),
    {
        match self.action {
            Action::StoreAndReturn | Action::Return | Action::Unavailable => true,
            _ => false,
        }
    }
}

/// A retrieval ends after at most three actions, and it writes to the cache
/// only what the network or the compositor produced.
pub proof fn lemma_retrieval_ends(resource: Resource, mode: RequestMode, a: bool, b: bool, c: bool)
    ensures
        ({
            let s1 = first_action(resource, mode);
            let s2 = next_action(resource, mode, s1, a);
            let s3 = next_action(resource, mode, s2, b);
            let s4 = next_action(resource, mode, s3, c);
            s4.is_final()
        }),
        forall|last: Action, p: bool|
            #[trigger] next_action(resource, mode, last, p) == Action::StoreAndReturn
                && !last.is_final() ==> p && (last == Action::Fetch || last == Action::Render),
{
}

} // verus!

use xkcdfs::request::{Action, RequestMode, Resource, Retrieval};

#[test]
fn policy_presets() {
    let normal = RequestMode::Normal;
    assert!(normal.cache() && normal.network() && normal.render());
    let fast = RequestMode::VeryFast;
    assert!(fast.cache() && !fast.network() && !fast.render());
    let bust = RequestMode::BustCache;
    assert!(!bust.cache() && bust.network() && bust.render());
    let offline = RequestMode::NoNetwork;
    assert!(offline.cache() && !offline.network() && offline.render());
}

#[test]
fn cache_hit_is_returned() {
    let mut r = Retrieval::start(Resource::Comic(5), RequestMode::Normal);
    assert_eq!(r.action, Action::ReadCache);
    r.advance(true);
    assert_eq!(r.action, Action::Return);
    assert!(r.is_done());
}

#[test]
fn cache_miss_goes_to_network_and_is_stored() {
    let mut r = Retrieval::start(Resource::RawImage(5), RequestMode::Normal);
    r.advance(false);
    assert_eq!(r.action, Action::Fetch);
    r.advance(true);
    assert_eq!(r.action, Action::StoreAndReturn);
}

#[test]
fn very_fast_never_fetches_or_renders() {
    for res in [Resource::Comic(1), Resource::RawImage(1), Resource::RenderedImage(1)].iter() {
        let mut r = Retrieval::start(*res, RequestMode::VeryFast);
        assert_eq!(r.action, Action::ReadCache);
        r.advance(false);
        assert_eq!(r.action, Action::Unavailable);
    }
}

#[test]
fn latest_is_never_read_from_cache() {
    let r = Retrieval::start(Resource::Latest, RequestMode::Normal);
    assert_eq!(r.action, Action::Fetch);
    let r = Retrieval::start(Resource::Latest, RequestMode::NoNetwork);
    assert_eq!(r.action, Action::Unavailable);
}

#[test]
fn bust_cache_skips_the_cache_read() {
    let r = Retrieval::start(Resource::Comic(3), RequestMode::BustCache);
    assert_eq!(r.action, Action::Fetch);
    let r = Retrieval::start(Resource::RenderedImage(3), RequestMode::BustCache);
    assert_eq!(r.action, Action::ObtainRaw);
}

#[test]
fn rendering_needs_the_raw_image() {
    let mut r = Retrieval::start(Resource::RenderedImage(3), RequestMode::NoNetwork);
    r.advance(false);
    assert_eq!(r.action, Action::ObtainRaw);
    r.advance(false);
    assert_eq!(r.action, Action::Unavailable);

    let mut r = Retrieval::start(Resource::RenderedImage(3), RequestMode::Normal);
    r.advance(false);
    r.advance(true);
    assert_eq!(r.action, Action::Render);
    r.advance(false);
    assert_eq!(r.action, Action::Unavailable);
}

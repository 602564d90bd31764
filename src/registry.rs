use vstd::prelude::*;

verus! {

/// The User-Agent header sent with registry queries; the registry refuses
/// requests without a browser-like agent.
pub const USER_AGENT: &'static str =
    "Mozilla/5.0 (X11; Linux x86_64) AppleWebKit/537.36 (KHTML, like Gecko) Chrome/116.0.0.0 Safari/537.36";

/// The registry endpoint that describes one crate.
pub const CRATES_API: &'static str = "https://crates.io/api/v1/crates/";

/// The address of the registry's description of the crate `name`.
pub fn registry_url(name: &str) -> (r: String)
    ensures
        r@ == CRATES_API@ + name@,
{
    let mut r = String::from_str(CRATES_API);
    r.append(name);
    r
}

} // verus!

//! The QUIC/TLS settings that the configuration selects.
use vstd::prelude::*;

verus! {

/// The congestion control algorithms that the server can run.
#[derive(Clone, Copy, Debug, PartialEq, Eq)]
pub enum CongestionControl {
    Cubic,
    Bbr,
    Reno,
}

/// The algorithm that a configured name selects; CUBIC for any name it does
/// not know.
pub open spec fn algorithm_named(name: Seq<char>) -> CongestionControl {
    if name == "cubic"@ {
        CongestionControl::Cubic
    } else if name == "bbr"@ {
        CongestionControl::Bbr
    } else if name == "reno"@ {
        CongestionControl::Reno
    } else {
        CongestionControl::Cubic
    }
}

/// The congestion control algorithm that a configured name selects.
pub fn congestion_algorithm(name: &str) -> (a: CongestionControl)
    ensures
        a == algorithm_named(name@),
{
    let n = String::from_str(name);
    if n == String::from_str("cubic") {
        CongestionControl::Cubic
    } else if n == String::from_str("bbr") {
        CongestionControl::Bbr
    } else if n == String::from_str("reno") {
        CongestionControl::Reno
    } else {
        CongestionControl::Cubic
    }
}

/// Each algorithm name that validation accepts selects the algorithm of
/// that name, so the fallback to CUBIC is never taken for a valid
/// configuration.
pub proof fn law_valid_names_select_their_algorithm(name: Seq<char>)
    requires
        crate::config::validation::is_congestion_control(name),
    ensures
        name == "cubic"@ ==> algorithm_named(name) == CongestionControl::Cubic,
        name == "bbr"@ ==> algorithm_named(name) == CongestionControl::Bbr,
        name == "reno"@ ==> algorithm_named(name) == CongestionControl::Reno,
{
    reveal_strlit("cubic");
    reveal_strlit("bbr");
    reveal_strlit("reno");
    assert("bbr"@.len() != "cubic"@.len());
    assert("reno"@.len() != "cubic"@.len());
    assert("reno"@[0] != "bbr"@[0]);
}

} // verus!

//! Reading the provider's documents: when to look, and what a look does.
use crate::metrics::Metrics;
use crate::oidc::claims::{text_opt, texts};
use crate::oidc::{Discovered, OidcClient, OidcProvider, ProviderView};
use vstd::arithmetic::power2::pow2;
use vstd::prelude::*;

verus! {

/// Where the reading of the provider's documents stands.
#[derive(Clone, Copy, Debug, PartialEq, Eq, Structural)]
pub enum DiscoveryPhase {
    /// They were never read; so many looks failed.
    Bootstrap { attempt: u32 },
    /// They were read, and are read again from time to time.
    Periodic,
    /// They are not read any more.
    Stopped,
}

/// The longest wait between two first looks, in seconds.
pub const MAX_BACKOFF_SECS: u64 = 300;

/// The wait after so many failed looks doubles up to the eighth.
pub open spec fn backoff(attempt: u32) -> int {
    let p = pow2(if attempt < 8 {
        attempt as nat
    } else {
        8
    });
    if p < MAX_BACKOFF_SECS {
        p as int
    } else {
        MAX_BACKOFF_SECS as int
    }
}

/// The wait after so many failed looks, in seconds.
pub fn backoff_secs(attempt: u32) -> (r: u64)
    ensures
        r == backoff(attempt),
{
    let shift: u32 = if attempt < 8 {
        attempt
    } else {
        8
    };
    let mut secs: u64 = 1;
    let mut i: u32 = 0;
    proof {
        reveal(pow2);
        vstd::arithmetic::power2::lemma2_to64();
    }
    while i < shift
        invariant
            i <= shift <= 8,
            secs == pow2(i as nat),
            pow2(8) == 256,
        decreases shift - i,
    {
        proof {
            vstd::arithmetic::power2::lemma_pow2_unfold((i + 1) as nat);
            if i + 1 < 8 {
                vstd::arithmetic::power2::lemma_pow2_strictly_increases((i + 1) as nat, 8);
            }
        }
        secs = secs * 2;
        i = i + 1;
    }
    if secs < MAX_BACKOFF_SECS {
        secs
    } else {
        MAX_BACKOFF_SECS
    }
}

/// What a successful look leaves behind.
pub open spec fn published(p: ProviderView, d: Discovered) -> ProviderView {
    ProviderView {
        client: Some((d.issuer@, d.authorization_url@)),
        end_session_url: text_opt(d.end_session_url),
        revocation_url: text_opt(d.revocation_url),
        jwks: Some(texts(d.jwks@)),
        ..p
    }
}

/// What a look does to the state of the provider: nothing where it failed.
pub open spec fn after_look(p: ProviderView, found: Option<Discovered>) -> ProviderView {
    match found {
        Some(d) => published(p, d),
        None => p,
    }
}

/// What a look adds to the counters.
pub open spec fn look_counted(m: Metrics, ok: bool) -> Metrics {
    if ok {
        Metrics { oidc_discoveries: m.oidc_discoveries.wrapping_add(1), ..m }
    } else {
        Metrics { oidc_discovery_failures: m.oidc_discovery_failures.wrapping_add(1), ..m }
    }
}

/// Where the reading stands after a look, and the seconds to wait for the next
/// one.
pub open spec fn next_look(
    phase: DiscoveryPhase,
    ok: bool,
    retry: bool,
    refresh_secs: u64,
) -> (DiscoveryPhase, Option<int>) {
    match phase {
        DiscoveryPhase::Stopped => (DiscoveryPhase::Stopped, None),
        DiscoveryPhase::Periodic => (DiscoveryPhase::Periodic, Some(refresh_secs as int)),
        DiscoveryPhase::Bootstrap { attempt } => if ok {
            if refresh_secs == 0 {
                (DiscoveryPhase::Stopped, None)
            } else {
                (DiscoveryPhase::Periodic, Some(refresh_secs as int))
            }
        } else if retry {
            (
                DiscoveryPhase::Bootstrap {
                    attempt: if attempt < u32::MAX {
                        (attempt + 1) as u32
                    } else {
                        attempt
                    },
                },
                Some(backoff(attempt)),
            )
        } else {
            (DiscoveryPhase::Stopped, None)
        },
    }
}

/// A wait, by value.
pub open spec fn wait_view(w: Option<u64>) -> Option<int> {
    match w {
        Some(s) => Some(s as int),
        None => None,
    }
}

/// The time between two sweeps, in nanoseconds.
pub open spec fn sweep_every(state_ttl_secs: u64) -> int {
    if state_ttl_secs < 300 {
        30_000_000_000
    } else {
        state_ttl_secs * 100_000_000
    }
}

/// The interval between two sweeps of what has expired, in nanoseconds: a tenth
/// of the time that a login may take, and half a minute at least.
pub fn eviction_interval(state_ttl_secs: u64) -> (r: u128)
    ensures
        r == if state_ttl_secs < 300 {
            30_000_000_000
        } else {
            state_ttl_secs * 100_000_000
        },
        r == sweep_every(state_ttl_secs),
{
    let tenth: u128 = state_ttl_secs as u128 * 100_000_000;
    if tenth < 30_000_000_000 {
        30_000_000_000
    } else {
        tenth
    }
}

impl OidcProvider {
    /// Takes up what a look found.
    pub fn publish(&mut self, found: Discovered, metrics: &mut Metrics)
        ensures
            final(self)@ == published(old(self)@, found),
            final(self).cfg == old(self).cfg,
            *final(metrics) == look_counted(*old(metrics), true),
    {
        self.client = Some(
            OidcClient { issuer: found.issuer, authorization_url: found.authorization_url },
        );
        self.end_session_url = found.end_session_url;
        self.revocation_url = found.revocation_url;
        self.jwks = Some(found.jwks);
        metrics.oidc_discoveries = metrics.oidc_discoveries.wrapping_add(1);
    }

    /// One step of the reading of the provider's documents: takes up the outcome
    /// of a look, and says where the reading stands and how many seconds to wait
    /// before the next look, if there is one.
    pub fn discovery_step(
        &mut self,
        phase: DiscoveryPhase,
        found: Option<Discovered>,
        metrics: &mut Metrics,
    ) -> (r: (DiscoveryPhase, Option<u64>))
        ensures
            final(self)@ == after_look(old(self)@, found),
            final(self).cfg == old(self).cfg,
            *final(metrics) == look_counted(*old(metrics), found is Some),
            (r.0, wait_view(r.1)) == next_look(
                phase,
                found is Some,
                old(self).cfg.discovery_retry,
                old(self).cfg.discovery_refresh_secs,
            ),
    {
        let ok = found.is_some();
        match found {
            Some(d) => {
                self.publish(d, metrics);
            },
            None => {
                metrics.oidc_discovery_failures = metrics.oidc_discovery_failures.wrapping_add(1);
            },
        }
        let every: u64 = self.cfg.discovery_refresh_secs;
        match phase {
            DiscoveryPhase::Stopped => (DiscoveryPhase::Stopped, None),
            DiscoveryPhase::Periodic => (DiscoveryPhase::Periodic, Some(every)),
            DiscoveryPhase::Bootstrap { attempt } => {
                if ok {
                    if every == 0 {
                        (DiscoveryPhase::Stopped, None)
                    } else {
                        (DiscoveryPhase::Periodic, Some(every))
                    }
                } else if self.cfg.discovery_retry {
                    (
                        DiscoveryPhase::Bootstrap { attempt: attempt.saturating_add(1) },
                        Some(backoff_secs(attempt)),
                    )
                } else {
                    (DiscoveryPhase::Stopped, None)
                }
            },
        }
    }
}

} // verus!

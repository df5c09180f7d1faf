//! Leases, freshness records, and the two checks on them: the write fence and
//! the promotion policy.
use vstd::prelude::*;

use crate::text;

verus! {

/// Authoritative lease information for the current writer generation.
#[derive(Debug, PartialEq, Eq)]
pub struct LeaseRecord {
    /// Node identity currently holding the writer lease.
    pub holder_node_id: String,
    /// Monotonic generation value associated with lease ownership.
    pub generation: u64,
    /// Unix timestamp (seconds) when the lease was last renewed.
    pub renewed_at_secs: u64,
    /// Lease time-to-live in seconds.
    pub ttl_secs: u64,
}

impl Clone for LeaseRecord {
    fn clone(&self) -> (r: LeaseRecord)
        ensures
            r == *self,
    {
        LeaseRecord {
            holder_node_id: self.holder_node_id.clone(),
            generation: self.generation,
            renewed_at_secs: self.renewed_at_secs,
            ttl_secs: self.ttl_secs,
        }
    }
}

/// The sum of two numbers, at most `u64::MAX`.
pub open spec fn capped_sum(a: u64, b: u64) -> int {
    if a + b <= u64::MAX {
        a + b
    } else {
        u64::MAX as int
    }
}

impl LeaseRecord {
    /// The lease is no longer valid at `now_secs`.
    pub open spec fn expired(self, now_secs: u64) -> bool {
        now_secs > capped_sum(self.renewed_at_secs, self.ttl_secs)
    }

    /// Returns `true` when the lease is no longer valid at `now_secs`.
    pub fn is_expired(&self, now_secs: u64) -> (r: bool)
        ensures
            r == self.expired(now_secs),
    {
        now_secs > self.renewed_at_secs.saturating_add(self.ttl_secs)
    }
}

/// Most recent successful replica sync metadata.
#[derive(Debug, PartialEq, Eq)]
pub struct FreshnessLedger {
    /// Source node from which the replica was synchronized.
    pub source_node_id: String,
    /// Source generation represented by this sync point.
    pub source_generation: u64,
    /// Unix timestamp (seconds) when sync completed.
    pub synced_at_secs: u64,
}

impl Clone for FreshnessLedger {
    fn clone(&self) -> (r: FreshnessLedger)
        ensures
            r == *self,
    {
        FreshnessLedger {
            source_node_id: self.source_node_id.clone(),
            source_generation: self.source_generation,
            synced_at_secs: self.synced_at_secs,
        }
    }
}

/// Promotion safety policy tuning.
#[derive(Debug, Clone, Copy, PartialEq, Eq, Structural)]
pub struct PromotionConfig {
    /// Maximum accepted freshness age for promotion.
    pub max_freshness_age_secs: u64,
    /// Allowed forward clock skew before rejecting as invalid future metadata.
    pub max_future_skew_secs: u64,
}

impl Default for PromotionConfig {
    fn default() -> (r: PromotionConfig)
        ensures
            r.max_freshness_age_secs == 10,
            r.max_future_skew_secs == 2,
    {
        PromotionConfig { max_freshness_age_secs: 10, max_future_skew_secs: 2 }
    }
}

/// Inputs required to validate promotion for a candidate node.
#[derive(Debug, PartialEq, Eq)]
pub struct PromotionRequest {
    /// Node attempting to become writer.
    pub candidate_node_id: String,
    /// Target writer generation expected for this promotion.
    pub target_generation: u64,
    /// Minimum source generation the candidate must contain.
    pub min_source_generation: u64,
}

/// Reasons why write access must be denied.
#[derive(Debug, PartialEq, Eq)]
pub enum WriteFenceViolation {
    LeaseExpired,
    NotLeaseHolder { holder_node_id: String },
    GenerationMismatch { local: u64, lease: u64 },
}

impl Clone for WriteFenceViolation {
    fn clone(&self) -> (r: WriteFenceViolation)
        ensures
            r == *self,
    {
        match self {
            WriteFenceViolation::LeaseExpired => WriteFenceViolation::LeaseExpired,
            WriteFenceViolation::NotLeaseHolder { holder_node_id } =>
                WriteFenceViolation::NotLeaseHolder { holder_node_id: holder_node_id.clone() },
            WriteFenceViolation::GenerationMismatch { local, lease } =>
                WriteFenceViolation::GenerationMismatch { local: *local, lease: *lease },
        }
    }
}

impl WriteFenceViolation {
    /// The debug text of a violation.
    pub open spec fn shown(self) -> Seq<char> {
        match self {
            WriteFenceViolation::LeaseExpired => "LeaseExpired"@,
            WriteFenceViolation::NotLeaseHolder { holder_node_id } =>
                "NotLeaseHolder { holder_node_id: "@ + text::quoted(holder_node_id@) + " }"@,
            WriteFenceViolation::GenerationMismatch { local, lease } =>
                "GenerationMismatch { local: "@ + text::decimal(local as nat) + ", lease: "@
                + text::decimal(lease as nat) + " }"@,
        }
    }

    /// The debug text of this violation.
    pub fn debug_text(&self) -> (r: String)
        ensures
            r@ == self.shown(),
    {
        match self {
            WriteFenceViolation::LeaseExpired => "LeaseExpired".to_owned(),
            WriteFenceViolation::NotLeaseHolder { holder_node_id } => {
                let mut s: String = "NotLeaseHolder { holder_node_id: ".to_owned();
                s.append(text::quote(holder_node_id.as_str()).as_str());
                s.append(" }");
                s
            },
            WriteFenceViolation::GenerationMismatch { local, lease } => {
                let mut s: String = "GenerationMismatch { local: ".to_owned();
                s.append(text::u64_text(*local).as_str());
                s.append(", lease: ");
                s.append(text::u64_text(*lease).as_str());
                s.append(" }");
                s
            },
        }
    }
}

/// Reasons why promotion must be denied.
#[derive(Debug, PartialEq, Eq)]
pub enum PromotionViolation {
    LeaseExpired,
    NotLeaseHolder { holder_node_id: String },
    TargetGenerationMismatch { target: u64, lease: u64 },
    MissingFreshness,
    FreshnessFromFuture { synced_at_secs: u64, now_secs: u64, max_future_skew_secs: u64 },
    StaleFreshness { age_secs: u64, max_freshness_age_secs: u64 },
    LineageTooOld { observed: u64, min_required: u64 },
}

impl Clone for PromotionViolation {
    fn clone(&self) -> (r: PromotionViolation)
        ensures
            r == *self,
    {
        match self {
            PromotionViolation::LeaseExpired => PromotionViolation::LeaseExpired,
            PromotionViolation::NotLeaseHolder { holder_node_id } =>
                PromotionViolation::NotLeaseHolder { holder_node_id: holder_node_id.clone() },
            PromotionViolation::TargetGenerationMismatch { target, lease } =>
                PromotionViolation::TargetGenerationMismatch { target: *target, lease: *lease },
            PromotionViolation::MissingFreshness => PromotionViolation::MissingFreshness,
            PromotionViolation::FreshnessFromFuture {
                synced_at_secs,
                now_secs,
                max_future_skew_secs,
            } => PromotionViolation::FreshnessFromFuture {
                synced_at_secs: *synced_at_secs,
                now_secs: *now_secs,
                max_future_skew_secs: *max_future_skew_secs,
            },
            PromotionViolation::StaleFreshness { age_secs, max_freshness_age_secs } =>
                PromotionViolation::StaleFreshness {
                age_secs: *age_secs,
                max_freshness_age_secs: *max_freshness_age_secs,
            },
            PromotionViolation::LineageTooOld { observed, min_required } =>
                PromotionViolation::LineageTooOld {
                observed: *observed,
                min_required: *min_required,
            },
        }
    }
}

/// The debug text of two named numbers.
pub open spec fn two_fields(
    name: Seq<char>,
    first: Seq<char>,
    a: u64,
    second: Seq<char>,
    b: u64,
) -> Seq<char> {
    name + " { "@ + first + ": "@ + text::decimal(a as nat) + ", "@ + second + ": "@
        + text::decimal(b as nat) + " }"@
}

fn two_fields_text(name: &str, first: &str, a: u64, second: &str, b: u64) -> (r: String)
    ensures
        r@ == two_fields(name@, first@, a, second@, b),
{
    let mut s: String = name.to_owned();
    s.append(" { ");
    s.append(first);
    s.append(": ");
    s.append(text::u64_text(a).as_str());
    s.append(", ");
    s.append(second);
    s.append(": ");
    s.append(text::u64_text(b).as_str());
    s.append(" }");
    s
}

impl PromotionViolation {
    /// The debug text of a violation.
    pub open spec fn shown(self) -> Seq<char> {
        match self {
            PromotionViolation::LeaseExpired => "LeaseExpired"@,
            PromotionViolation::NotLeaseHolder { holder_node_id } =>
                "NotLeaseHolder { holder_node_id: "@ + text::quoted(holder_node_id@) + " }"@,
            PromotionViolation::TargetGenerationMismatch { target, lease } => two_fields(
                "TargetGenerationMismatch"@,
                "target"@,
                target,
                "lease"@,
                lease,
            ),
            PromotionViolation::MissingFreshness => "MissingFreshness"@,
            PromotionViolation::FreshnessFromFuture {
                synced_at_secs,
                now_secs,
                max_future_skew_secs,
            } => "FreshnessFromFuture { synced_at_secs: "@ + text::decimal(synced_at_secs as nat)
                + ", now_secs: "@ + text::decimal(now_secs as nat) + ", max_future_skew_secs: "@
                + text::decimal(max_future_skew_secs as nat) + " }"@,
            PromotionViolation::StaleFreshness { age_secs, max_freshness_age_secs } => two_fields(
                "StaleFreshness"@,
                "age_secs"@,
                age_secs,
                "max_freshness_age_secs"@,
                max_freshness_age_secs,
            ),
            PromotionViolation::LineageTooOld { observed, min_required } => two_fields(
                "LineageTooOld"@,
                "observed"@,
                observed,
                "min_required"@,
                min_required,
            ),
        }
    }

    /// The debug text of this violation.
    pub fn debug_text(&self) -> (r: String)
        ensures
            r@ == self.shown(),
    {
        match self {
            PromotionViolation::LeaseExpired => "LeaseExpired".to_owned(),
            PromotionViolation::NotLeaseHolder { holder_node_id } => {
                let mut s: String = "NotLeaseHolder { holder_node_id: ".to_owned();
                s.append(text::quote(holder_node_id.as_str()).as_str());
                s.append(" }");
                s
            },
            PromotionViolation::TargetGenerationMismatch { target, lease } => two_fields_text(
                "TargetGenerationMismatch",
                "target",
                *target,
                "lease",
                *lease,
            ),
            PromotionViolation::MissingFreshness => "MissingFreshness".to_owned(),
            PromotionViolation::FreshnessFromFuture {
                synced_at_secs,
                now_secs,
                max_future_skew_secs,
            } => {
                let mut s: String = "FreshnessFromFuture { synced_at_secs: ".to_owned();
                s.append(text::u64_text(*synced_at_secs).as_str());
                s.append(", now_secs: ");
                s.append(text::u64_text(*now_secs).as_str());
                s.append(", max_future_skew_secs: ");
                s.append(text::u64_text(*max_future_skew_secs).as_str());
                s.append(" }");
                s
            },
            PromotionViolation::StaleFreshness { age_secs, max_freshness_age_secs } =>
                two_fields_text(
                "StaleFreshness",
                "age_secs",
                *age_secs,
                "max_freshness_age_secs",
                *max_freshness_age_secs,
            ),
            PromotionViolation::LineageTooOld { observed, min_required } => two_fields_text(
                "LineageTooOld",
                "observed",
                *observed,
                "min_required",
                *min_required,
            ),
        }
    }
}

/// Current local data-plane mode.
#[derive(Debug, Clone, Copy, PartialEq, Eq, Structural)]
pub enum NodeRole {
    Writer,
    Replica,
}

/// What the write fence objects to, if anything.
///
/// - The lease must be valid.
/// - The local node must be the lease holder.
/// - The local writer generation must match the lease generation.
pub open spec fn fence_violation(
    now_secs: u64,
    local_node_id: Seq<char>,
    local_generation: u64,
    lease: LeaseRecord,
) -> Option<WriteFenceViolation> {
    if lease.expired(now_secs) {
        Some(WriteFenceViolation::LeaseExpired)
    } else if lease.holder_node_id@ != local_node_id {
        Some(WriteFenceViolation::NotLeaseHolder { holder_node_id: lease.holder_node_id })
    } else if lease.generation != local_generation {
        Some(
            WriteFenceViolation::GenerationMismatch {
                local: local_generation,
                lease: lease.generation,
            },
        )
    } else {
        None
    }
}

/// Enforce single-writer fencing for the local write path.
pub fn enforce_write_fence(
    now_secs: u64,
    local_node_id: &str,
    local_generation: u64,
    lease: &LeaseRecord,
) -> (r: Result<(), WriteFenceViolation>)
    ensures
        match fence_violation(now_secs, local_node_id@, local_generation, *lease) {
            None => r is Ok,
            Some(v) => r == Err::<(), WriteFenceViolation>(v),
        },
{
    if lease.is_expired(now_secs) {
        return Err(WriteFenceViolation::LeaseExpired);
    }
    if lease.holder_node_id != local_node_id.to_owned() {
        return Err(
            WriteFenceViolation::NotLeaseHolder { holder_node_id: lease.holder_node_id.clone() },
        );
    }
    if lease.generation != local_generation {
        return Err(
            WriteFenceViolation::GenerationMismatch {
                local: local_generation,
                lease: lease.generation,
            },
        );
    }
    Ok(())
}

/// How far `now_secs` is past `synced_at_secs`.
pub open spec fn age(now_secs: u64, synced_at_secs: u64) -> u64 {
    if now_secs >= synced_at_secs {
        (now_secs - synced_at_secs) as u64
    } else {
        0
    }
}

/// What the promotion policy objects to, if anything.
///
/// - The candidate must currently hold a valid lease.
/// - The lease generation must equal the requested target generation.
/// - Freshness data must exist and be recent.
/// - The freshness timestamp cannot be implausibly in the future.
/// - The freshness lineage must reach the required minimum source generation.
pub open spec fn promotion_violation(
    now_secs: u64,
    lease: LeaseRecord,
    candidate: Seq<char>,
    target_generation: u64,
    min_source_generation: u64,
    freshness: Option<FreshnessLedger>,
    config: PromotionConfig,
) -> Option<PromotionViolation> {
    if lease.expired(now_secs) {
        Some(PromotionViolation::LeaseExpired)
    } else if lease.holder_node_id@ != candidate {
        Some(PromotionViolation::NotLeaseHolder { holder_node_id: lease.holder_node_id })
    } else if lease.generation != target_generation {
        Some(
            PromotionViolation::TargetGenerationMismatch {
                target: target_generation,
                lease: lease.generation,
            },
        )
    } else {
        match freshness {
            None => Some(PromotionViolation::MissingFreshness),
            Some(f) => if f.synced_at_secs > capped_sum(now_secs, config.max_future_skew_secs) {
                Some(
                    PromotionViolation::FreshnessFromFuture {
                        synced_at_secs: f.synced_at_secs,
                        now_secs,
                        max_future_skew_secs: config.max_future_skew_secs,
                    },
                )
            } else if age(now_secs, f.synced_at_secs) > config.max_freshness_age_secs {
                Some(
                    PromotionViolation::StaleFreshness {
                        age_secs: age(now_secs, f.synced_at_secs),
                        max_freshness_age_secs: config.max_freshness_age_secs,
                    },
                )
            } else if f.source_generation < min_source_generation {
                Some(
                    PromotionViolation::LineageTooOld {
                        observed: f.source_generation,
                        min_required: min_source_generation,
                    },
                )
            } else {
                None
            },
        }
    }
}

/// The value behind an optional reference.
pub open spec fn deref_option<T>(o: Option<&T>) -> Option<T> {
    match o {
        Some(t) => Some(*t),
        None => None,
    }
}

/// Validate whether a node is safe to promote to writer.
pub fn validate_promotion(
    now_secs: u64,
    lease: &LeaseRecord,
    request: &PromotionRequest,
    freshness: Option<&FreshnessLedger>,
    config: &PromotionConfig,
) -> (r: Result<(), PromotionViolation>)
    ensures
        match promotion_violation(
            now_secs,
            *lease,
            request.candidate_node_id@,
            request.target_generation,
            request.min_source_generation,
            deref_option(freshness),
            *config,
        ) {
            None => r is Ok,
            Some(v) => r == Err::<(), PromotionViolation>(v),
        },
{
    if lease.is_expired(now_secs) {
        return Err(PromotionViolation::LeaseExpired);
    }
    if lease.holder_node_id != request.candidate_node_id {
        return Err(
            PromotionViolation::NotLeaseHolder { holder_node_id: lease.holder_node_id.clone() },
        );
    }
    if lease.generation != request.target_generation {
        return Err(
            PromotionViolation::TargetGenerationMismatch {
                target: request.target_generation,
                lease: lease.generation,
            },
        );
    }
    let freshness: &FreshnessLedger = match freshness {
        None => {
            return Err(PromotionViolation::MissingFreshness);
        },
        Some(f) => f,
    };
    let allowed_future: u64 = now_secs.saturating_add(config.max_future_skew_secs);
    if freshness.synced_at_secs > allowed_future {
        return Err(
            PromotionViolation::FreshnessFromFuture {
                synced_at_secs: freshness.synced_at_secs,
                now_secs,
                max_future_skew_secs: config.max_future_skew_secs,
            },
        );
    }
    let age_secs: u64 = now_secs.saturating_sub(freshness.synced_at_secs);
    if age_secs > config.max_freshness_age_secs {
        return Err(
            PromotionViolation::StaleFreshness {
                age_secs,
                max_freshness_age_secs: config.max_freshness_age_secs,
            },
        );
    }
    if freshness.source_generation < request.min_source_generation {
        return Err(
            PromotionViolation::LineageTooOld {
                observed: freshness.source_generation,
                min_required: request.min_source_generation,
            },
        );
    }
    Ok(())
}

/// Two nodes with different identities never both pass the write fence of one
/// lease, at whatever times and with whatever generations they check it.
pub proof fn law_one_node_passes_the_fence(
    now_a: u64,
    now_b: u64,
    node_a: Seq<char>,
    node_b: Seq<char>,
    generation_a: u64,
    generation_b: u64,
    lease: LeaseRecord,
)
    requires
        node_a != node_b,
    ensures
        fence_violation(now_a, node_a, generation_a, lease) is Some || fence_violation(
            now_b,
            node_b,
            generation_b,
            lease,
        ) is Some,
{
}

/// An expired lease stays expired, and the fence then stays closed.
pub proof fn law_fence_stays_closed_after_expiry(
    earlier: u64,
    later: u64,
    node: Seq<char>,
    generation: u64,
    lease: LeaseRecord,
)
    requires
        earlier <= later,
        lease.expired(earlier),
    ensures
        lease.expired(later),
        fence_violation(later, node, generation, lease) == Some(WriteFenceViolation::LeaseExpired),
{
}

/// A lease lasts from its renewal for its time to live, the last second included,
/// and no longer.
pub proof fn law_lease_lasts_its_time_to_live(lease: LeaseRecord, now_secs: u64)
    ensures
        lease.expired(now_secs) <==> now_secs > lease.renewed_at_secs + lease.ttl_secs,
{
}

/// The fence is open exactly for the node that the lease names, with the generation
/// of the lease, as long as the lease lasts.
pub proof fn law_fence_is_open_for_the_holder(
    now_secs: u64,
    node: Seq<char>,
    generation: u64,
    lease: LeaseRecord,
)
    ensures
        fence_violation(now_secs, node, generation, lease) is None <==> (now_secs
            <= lease.renewed_at_secs + lease.ttl_secs && lease.holder_node_id@ == node
            && lease.generation == generation),
{
}

/// What the fence objects to: first that the lease is over, next that another node
/// holds it, and last that its generation is another one, each with what is at odds.
pub proof fn law_fence_tells_what_is_at_odds(
    now_secs: u64,
    node: Seq<char>,
    generation: u64,
    lease: LeaseRecord,
)
    ensures
        ({
            let over = now_secs > lease.renewed_at_secs + lease.ttl_secs;
            let other = lease.holder_node_id@ != node;
            match fence_violation(now_secs, node, generation, lease) {
                None => !over && !other && lease.generation == generation,
                Some(WriteFenceViolation::LeaseExpired) => over,
                Some(WriteFenceViolation::NotLeaseHolder { holder_node_id }) => !over && other
                    && holder_node_id == lease.holder_node_id,
                Some(WriteFenceViolation::GenerationMismatch { local, lease: leased }) => !over
                    && !other && local != leased && local == generation && leased
                    == lease.generation,
            }
        }),
{
}

/// A candidate is let through exactly if it holds a lease that lasts, with the
/// generation that it asks for, and has data that is recent enough, not from beyond
/// the clock skew, and from a generation that is recent enough.
pub proof fn law_promotion_is_owed_to_a_fresh_holder(
    now_secs: u64,
    lease: LeaseRecord,
    candidate: Seq<char>,
    target_generation: u64,
    min_source_generation: u64,
    freshness: Option<FreshnessLedger>,
    config: PromotionConfig,
)
    ensures
        promotion_violation(
            now_secs,
            lease,
            candidate,
            target_generation,
            min_source_generation,
            freshness,
            config,
        ) is None <==> {
            &&& now_secs <= lease.renewed_at_secs + lease.ttl_secs
            &&& lease.holder_node_id@ == candidate
            &&& lease.generation == target_generation
            &&& freshness matches Some(f)
            &&& f.synced_at_secs <= now_secs + config.max_future_skew_secs
            &&& now_secs - f.synced_at_secs <= config.max_freshness_age_secs
            &&& f.source_generation >= min_source_generation
        },
{
}

/// What the promotion policy objects to, each with what is at odds: the lease is
/// looked at before the data.
pub proof fn law_promotion_tells_what_is_at_odds(
    now_secs: u64,
    lease: LeaseRecord,
    candidate: Seq<char>,
    target_generation: u64,
    min_source_generation: u64,
    freshness: Option<FreshnessLedger>,
    config: PromotionConfig,
)
    ensures
        ({
            let over = now_secs > lease.renewed_at_secs + lease.ttl_secs;
            let other = lease.holder_node_id@ != candidate;
            let leased = !over && !other && lease.generation == target_generation;
            match promotion_violation(
                now_secs,
                lease,
                candidate,
                target_generation,
                min_source_generation,
                freshness,
                config,
            ) {
                None => leased && freshness is Some,
                Some(PromotionViolation::LeaseExpired) => over,
                Some(PromotionViolation::NotLeaseHolder { holder_node_id }) => !over && other
                    && holder_node_id == lease.holder_node_id,
                Some(PromotionViolation::TargetGenerationMismatch { target, lease: had }) => !over
                    && !other && target != had && target == target_generation && had
                    == lease.generation,
                Some(PromotionViolation::MissingFreshness) => leased && freshness is None,
                Some(
                    PromotionViolation::FreshnessFromFuture {
                        synced_at_secs,
                        now_secs: now,
                        max_future_skew_secs,
                    },
                ) => leased && synced_at_secs > now + max_future_skew_secs && now == now_secs
                    && max_future_skew_secs == config.max_future_skew_secs && (freshness matches Some(
                    f,
                ) && f.synced_at_secs == synced_at_secs),
                Some(PromotionViolation::StaleFreshness { age_secs, max_freshness_age_secs }) => {
                    &&& leased
                    &&& age_secs > max_freshness_age_secs
                    &&& max_freshness_age_secs == config.max_freshness_age_secs
                    &&& freshness matches Some(f)
                    &&& age_secs == now_secs - f.synced_at_secs
                },
                Some(PromotionViolation::LineageTooOld { observed, min_required }) => {
                    &&& leased
                    &&& observed < min_required
                    &&& min_required == min_source_generation
                    &&& freshness matches Some(f)
                    &&& observed == f.source_generation
                },
            }
        }),
{
}

/// The age of the data is looked at before its generation, and the clock before both.
pub proof fn law_data_is_looked_at_last(
    now_secs: u64,
    lease: LeaseRecord,
    candidate: Seq<char>,
    target_generation: u64,
    min_source_generation: u64,
    freshness: FreshnessLedger,
    config: PromotionConfig,
)
    requires
        now_secs <= lease.renewed_at_secs + lease.ttl_secs,
        lease.holder_node_id@ == candidate,
        lease.generation == target_generation,
    ensures
        ({
            let objection = promotion_violation(
                now_secs,
                lease,
                candidate,
                target_generation,
                min_source_generation,
                Some(freshness),
                config,
            );
            let ahead = freshness.synced_at_secs > now_secs + config.max_future_skew_secs;
            let stale = now_secs > freshness.synced_at_secs + config.max_freshness_age_secs;
            &&& ahead <==> (objection matches Some(PromotionViolation::FreshnessFromFuture { .. }))
            &&& stale <==> (objection matches Some(PromotionViolation::StaleFreshness { .. }))
            &&& !ahead && !stale && freshness.source_generation < min_source_generation <==> (
            objection matches Some(PromotionViolation::LineageTooOld { .. }))
        }),
{
}

/// The debug texts of the objections name them and what is at odds.
pub proof fn law_objections_are_shown(a: u64, b: u64, c: u64, holder: String)
    ensures
        WriteFenceViolation::LeaseExpired.shown() == "LeaseExpired"@,
        (WriteFenceViolation::NotLeaseHolder { holder_node_id: holder }).shown()
            == "NotLeaseHolder { holder_node_id: "@ + text::quoted(holder@) + " }"@,
        (WriteFenceViolation::GenerationMismatch { local: a, lease: b }).shown()
            == "GenerationMismatch { local: "@ + text::decimal(a as nat) + ", lease: "@
            + text::decimal(b as nat) + " }"@,
        PromotionViolation::LeaseExpired.shown() == "LeaseExpired"@,
        PromotionViolation::MissingFreshness.shown() == "MissingFreshness"@,
        (PromotionViolation::NotLeaseHolder { holder_node_id: holder }).shown()
            == "NotLeaseHolder { holder_node_id: "@ + text::quoted(holder@) + " }"@,
        (PromotionViolation::TargetGenerationMismatch { target: a, lease: b }).shown()
            == "TargetGenerationMismatch { target: "@ + text::decimal(a as nat) + ", lease: "@
            + text::decimal(b as nat) + " }"@,
        (PromotionViolation::StaleFreshness { age_secs: a, max_freshness_age_secs: b }).shown()
            == "StaleFreshness { age_secs: "@ + text::decimal(a as nat)
            + ", max_freshness_age_secs: "@ + text::decimal(b as nat) + " }"@,
        (PromotionViolation::LineageTooOld { observed: a, min_required: b }).shown()
            == "LineageTooOld { observed: "@ + text::decimal(a as nat) + ", min_required: "@
            + text::decimal(b as nat) + " }"@,
        (PromotionViolation::FreshnessFromFuture {
            synced_at_secs: a,
            now_secs: b,
            max_future_skew_secs: c,
        }).shown() == "FreshnessFromFuture { synced_at_secs: "@ + text::decimal(a as nat)
            + ", now_secs: "@ + text::decimal(b as nat) + ", max_future_skew_secs: "@
            + text::decimal(c as nat) + " }"@,
{
    lemma_two_fields("TargetGenerationMismatch"@, "target"@, a, "lease"@, b);
    lemma_two_fields("StaleFreshness"@, "age_secs"@, a, "max_freshness_age_secs"@, b);
    lemma_two_fields("LineageTooOld"@, "observed"@, a, "min_required"@, b);
    reveal_strlit(" { ");
    reveal_strlit(": ");
    reveal_strlit(", ");
    reveal_strlit("TargetGenerationMismatch");
    reveal_strlit("target");
    reveal_strlit("lease");
    reveal_strlit("TargetGenerationMismatch { target: ");
    reveal_strlit(", lease: ");
    reveal_strlit("StaleFreshness");
    reveal_strlit("age_secs");
    reveal_strlit("max_freshness_age_secs");
    reveal_strlit("StaleFreshness { age_secs: ");
    reveal_strlit(", max_freshness_age_secs: ");
    reveal_strlit("LineageTooOld");
    reveal_strlit("observed");
    reveal_strlit("min_required");
    reveal_strlit("LineageTooOld { observed: ");
    reveal_strlit(", min_required: ");
    assert("TargetGenerationMismatch"@ + " { "@ + "target"@ + ": "@
        =~= "TargetGenerationMismatch { target: "@);
    assert(", "@ + "lease"@ + ": "@ =~= ", lease: "@);
    assert("StaleFreshness"@ + " { "@ + "age_secs"@ + ": "@ =~= "StaleFreshness { age_secs: "@);
    assert(", "@ + "max_freshness_age_secs"@ + ": "@ =~= ", max_freshness_age_secs: "@);
    assert("LineageTooOld"@ + " { "@ + "observed"@ + ": "@ =~= "LineageTooOld { observed: "@);
    assert(", "@ + "min_required"@ + ": "@ =~= ", min_required: "@);
}

proof fn lemma_two_fields(name: Seq<char>, first: Seq<char>, a: u64, second: Seq<char>, b: u64)
    ensures
        two_fields(name, first, a, second, b) == (name + " { "@ + first + ": "@) + text::decimal(
            a as nat,
        ) + (", "@ + second + ": "@) + text::decimal(b as nat) + " }"@,
{
    assert(two_fields(name, first, a, second, b) =~= (name + " { "@ + first + ": "@)
        + text::decimal(a as nat) + (", "@ + second + ": "@) + text::decimal(b as nat) + " }"@);
}

} // verus!

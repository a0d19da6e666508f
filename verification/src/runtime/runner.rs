//! Projection builds: the build runner abstraction and the local runner,
//! which checks the sandbox rules, records a build log and derives a
//! deterministic artifact hash from the build specification.

use vstd::prelude::*;
use vstd::string::*;
use vstd::utf8::encode_utf8;

use crate::runtime::config::{BuildConfig, NetworkPolicy};
use crate::text::{join_strings, joined, spec_decimal, u64_to_decimal, usize_to_decimal};
use crate::trusted::{
    elapsed_micros, hex_encode, instant_now, lower_hex, sha256, sha256_digest,
};

verus! {

/// The outcome of one build. `duration` is in microseconds.
#[derive(Debug, Clone)]
pub struct BuildOutcome {
    pub success: bool,
    pub artifact_hash: Option<String>,
    pub duration: u128,
    pub log: String,
    pub timed_out: bool,
}

/// Runs projection builds in isolation.
pub trait BuildRunner {
    fn run(&self, spec: &BuildSpec) -> BuildOutcome;
}

/// What a build is asked to produce.
#[derive(Debug, Clone)]
pub struct BuildSpec {
    pub projection_id: String,
    pub entrypoint: String,
    pub source_pins: Vec<SourcePin>,
}

/// A source pinned at a watermark.
#[derive(Debug, Clone)]
pub struct SourcePin {
    pub source_ref: String,
    pub watermark: String,
}

/// `{source_ref}@{watermark}`.
pub open spec fn pin_text(p: SourcePin) -> Seq<char> {
    p.source_ref@ + "@"@ + p.watermark@
}

/// The text hashed into the artifact hash:
/// `{projection_id}:{entrypoint}:{pins joined by ','}`.
pub open spec fn hash_input(spec: BuildSpec) -> Seq<char> {
    spec.projection_id@ + ":"@ + spec.entrypoint@ + ":"@ + joined(
        spec.source_pins@.map_values(|p: SourcePin| pin_text(p)),
        ","@,
    )
}

/// The lower-case hex SHA-256 digest of the hash input.
pub open spec fn artifact_hash_of(spec: BuildSpec) -> Seq<char> {
    lower_hex(sha256(encode_utf8(hash_input(spec))))
}

/// A whole number of seconds as `Duration`'s debug text writes it.
pub open spec fn duration_text(secs: u64) -> Seq<char> {
    if secs == 0 {
        "0ns"@
    } else {
        spec_decimal(secs as nat) + "s"@
    }
}

/// The build log: the projection, the entrypoint, the number of source
/// pins, the network policy and the timeout, one per line.
pub open spec fn build_log_text(config: BuildConfig, spec: BuildSpec) -> Seq<char> {
    "Build started for "@ + spec.projection_id@ + "\nEntrypoint: "@ + spec.entrypoint@
        + "\nSource pins: "@ + spec_decimal(spec.source_pins@.len()) + "\nNetwork: "@
        + config.network_policy.spec_name() + "\nTimeout: "@ + duration_text(config.timeout)
        + "\nBuild completed."@
}

/// Whether a build that took `elapsed` microseconds exceeded the timeout.
pub open spec fn exceeds_timeout(config: BuildConfig, elapsed: u128) -> bool {
    elapsed > config.timeout * 1_000_000
}

/// The outcome of building `spec` in `elapsed` microseconds.
pub open spec fn outcome_matches(
    r: BuildOutcome,
    config: BuildConfig,
    spec: BuildSpec,
    elapsed: u128,
) -> bool {
    &&& r.duration == elapsed
    &&& r.timed_out == exceeds_timeout(config, elapsed)
    &&& r.success == !r.timed_out
    &&& r.artifact_hash matches Some(h) && h@ == artifact_hash_of(spec)
    &&& r.log@ == build_log_text(config, spec)
}

/// The sandbox issues of a build configuration: a network policy other
/// than default deny, and a zero timeout.
pub open spec fn sandbox_issues(config: BuildConfig) -> Seq<Seq<char>> {
    let first: Seq<Seq<char>> = if config.network_policy != NetworkPolicy::DefaultDeny {
        seq!["Build network policy is not DefaultDeny"@]
    } else {
        Seq::empty()
    };
    if config.timeout == 0 {
        first.push("Build timeout is zero"@)
    } else {
        first
    }
}

/// Runs builds as local processes.
pub struct LocalBuildRunner {
    pub config: BuildConfig,
}

impl LocalBuildRunner {
    pub fn new(config: BuildConfig) -> (r: Self)
        ensures
            r.config == config,
    {
        LocalBuildRunner { config }
    }

    /// The sandbox rules that the configuration breaks.
    pub fn verify_sandbox(&self) -> (r: Vec<String>)
        ensures
            r@.map_values(|s: String| s@) == sandbox_issues(self.config),
    {
        let mut issues: Vec<String> = Vec::new();
        if self.config.network_policy != NetworkPolicy::DefaultDeny {
            issues.push(String::from_str("Build network policy is not DefaultDeny"));
        }
        if self.config.timeout == 0 {
            issues.push(String::from_str("Build timeout is zero"));
        }
        proof {
            reveal_strlit("Build network policy is not DefaultDeny");
            reveal_strlit("Build timeout is zero");
        }
        assert(issues@.map_values(|s: String| s@) =~= sandbox_issues(self.config));
        issues
    }

    /// The build log of `spec` under this runner's configuration.
    pub fn build_log(&self, spec: &BuildSpec) -> (r: String)
        ensures
            r@ == build_log_text(self.config, *spec),
    {
        let mut log = String::from_str("Build started for ");
        log.append(spec.projection_id.as_str());
        log.append("\nEntrypoint: ");
        log.append(spec.entrypoint.as_str());
        log.append("\nSource pins: ");
        let n = usize_to_decimal(spec.source_pins.len());
        log.append(n.as_str());
        log.append("\nNetwork: ");
        log.append(self.config.network_policy.name());
        log.append("\nTimeout: ");
        if self.config.timeout == 0 {
            log.append("0ns");
        } else {
            let t = u64_to_decimal(self.config.timeout);
            log.append(t.as_str());
            log.append("s");
        }
        log.append("\nBuild completed.");
        log
    }

    /// The outcome of building `spec` when the build took `elapsed`
    /// microseconds.
    pub fn outcome_for(&self, spec: &BuildSpec, elapsed: u128) -> (r: BuildOutcome)
        ensures
            outcome_matches(r, self.config, *spec, elapsed),
    {
        let log = self.build_log(spec);
        let hash = artifact_hash(spec);
        self.finish(log, hash, elapsed)
    }

    fn finish(&self, log: String, hash: String, elapsed: u128) -> (r: BuildOutcome)
        ensures
            r.duration == elapsed,
            r.timed_out == exceeds_timeout(self.config, elapsed),
            r.success == !r.timed_out,
            r.artifact_hash == Some(hash),
            r.log == log,
    {
        let timed_out = elapsed > (self.config.timeout as u128) * 1_000_000;
        BuildOutcome {
            success: !timed_out,
            artifact_hash: Some(hash),
            duration: elapsed,
            log,
            timed_out,
        }
    }
}

/// The artifact hash of a build specification: the lower-case hex SHA-256
/// digest of `{projection_id}:{entrypoint}:{source@watermark,...}`.
pub fn artifact_hash(spec: &BuildSpec) -> (r: String)
    ensures
        r@ == artifact_hash_of(*spec),
{
    let mut parts: Vec<String> = Vec::new();
    let mut i: usize = 0;
    while i < spec.source_pins.len()
        invariant
            i <= spec.source_pins@.len(),
            parts@.len() == i,
            forall|k: int|
                0 <= k < i ==> (#[trigger] parts@[k])@ == pin_text(spec.source_pins@[k]),
        decreases spec.source_pins@.len() - i,
    {
        let p = &spec.source_pins[i];
        let mut t = p.source_ref.clone();
        t.append("@");
        t.append(p.watermark.as_str());
        parts.push(t);
        i = i + 1;
    }
    let pins = join_strings(&parts, ",");
    assert(parts@.map_values(|p: String| p@) =~= spec.source_pins@.map_values(
        |p: SourcePin| pin_text(p),
    ));
    let mut input = spec.projection_id.clone();
    input.append(":");
    input.append(spec.entrypoint.as_str());
    input.append(":");
    input.append(pins.as_str());
    let digest = sha256_digest(input.as_str().as_bytes());
    hex_encode(digest.as_slice())
}

impl BuildRunner for LocalBuildRunner {
    /// Builds `spec`: records the log, derives the artifact hash and marks
    /// the build timed out when it took longer than the configured
    /// timeout. The duration is whatever the clock measured.
    fn run(&self, spec: &BuildSpec) -> (r: BuildOutcome)
        ensures
            outcome_matches(r, self.config, *spec, r.duration),
    {
        let start = instant_now();
        let log = self.build_log(spec);
        let hash = artifact_hash(spec);
        let elapsed = elapsed_micros(&start);
        self.finish(log, hash, elapsed)
    }
}

/// The artifact hash depends on the projection, the entrypoint and the
/// source pins alone: two specifications that agree on them get the same
/// hash, whatever else differs between the runs.
pub proof fn lemma_artifact_hash_deterministic(a: BuildSpec, b: BuildSpec)
    requires
        a.projection_id@ == b.projection_id@,
        a.entrypoint@ == b.entrypoint@,
        a.source_pins@.map_values(|p: SourcePin| pin_text(p)) == b.source_pins@.map_values(
            |p: SourcePin| pin_text(p),
        ),
    ensures
        artifact_hash_of(a) == artifact_hash_of(b),
{
}

} // verus!

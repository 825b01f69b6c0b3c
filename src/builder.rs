//! Rotation configuration: a consuming builder whose setters each replace one
//! field, and the validated configuration that `build` hands out.

use libc::c_int;
use vstd::prelude::*;

verus! {

/// The rotation interval used when none is set: sixty seconds.
pub const DEFAULT_ROTATE_INTERVAL_MS: u64 = 60000;

/// The abstract value of a configuration, builder or built.
pub struct RotationSettings {
    /// `None` leaves the sampling frequency to the session's own default.
    pub frequency: Option<int>,
    /// Libraries whose addresses the sampler skips; `None` when not set.
    pub blocklist: Option<Seq<Seq<char>>>,
    pub base_dir: Seq<char>,
    pub prefix: Seq<char>,
    pub rotate_interval_ms: nat,
}

/// The file-name prefix used when none is set.
pub open spec fn default_prefix() -> Seq<char> {
    seq!['p', 'r', 'o', 'f', 'i', 'l', 'e']
}

/// What a fresh builder holds: everything but the directory at its default.
pub open spec fn default_settings(base_dir: Seq<char>) -> RotationSettings {
    RotationSettings {
        frequency: None,
        blocklist: None,
        base_dir,
        prefix: default_prefix(),
        rotate_interval_ms: DEFAULT_ROTATE_INTERVAL_MS as nat,
    }
}

/// The view of a list of library names.
pub open spec fn names_view(names: Seq<&str>) -> Seq<Seq<char>> {
    names.map_values(|s: &str| s@)
}

/// Why a configuration was refused.
#[derive(Debug, Clone, Copy, PartialEq, Eq)]
pub enum ConfigError {
    /// A rotation interval of zero would rotate without pause.
    ZeroRotateInterval,
}

/// Accumulates the rotation configuration; nothing happens before `build`.
pub struct ContinuousProfilerGuardBuilder {
    frequency: Option<c_int>,
    blocklist: Option<Vec<String>>,
    base_dir: String,
    prefix: String,
    rotate_interval_ms: u64,
}

/// A validated rotation configuration, ready to be started.
pub struct ContinuousProfilerGuard {
    frequency: Option<c_int>,
    blocklist: Option<Vec<String>>,
    base_dir: String,
    prefix: String,
    rotate_interval_ms: u64,
}

spec fn view_of(
    frequency: Option<c_int>,
    blocklist: Option<Vec<String>>,
    base_dir: String,
    prefix: String,
    rotate_interval_ms: u64,
) -> RotationSettings {
    RotationSettings {
        frequency: match frequency {
            Some(f) => Some(f as int),
            None => None,
        },
        blocklist: match blocklist {
            Some(v) => Some(v@.map_values(|s: String| s@)),
            None => None,
        },
        base_dir: base_dir@,
        prefix: prefix@,
        rotate_interval_ms: rotate_interval_ms as nat,
    }
}

impl View for ContinuousProfilerGuardBuilder {
    type V = RotationSettings;

    closed spec fn view(&self) -> RotationSettings {
        view_of(
            self.frequency,
            self.blocklist,
            self.base_dir,
            self.prefix,
            self.rotate_interval_ms,
        )
    }
}

impl View for ContinuousProfilerGuard {
    type V = RotationSettings;

    closed spec fn view(&self) -> RotationSettings {
        view_of(
            self.frequency,
            self.blocklist,
            self.base_dir,
            self.prefix,
            self.rotate_interval_ms,
        )
    }
}

impl ContinuousProfilerGuard {
    /// A built configuration never has a zero interval.
    pub closed spec fn wf(&self) -> bool {
        self.rotate_interval_ms > 0
    }
}

fn copy_names(names: &[&str]) -> (r: Vec<String>)
    ensures
        r@.map_values(|s: String| s@) == names_view(names@),
{
    let mut r: Vec<String> = Vec::new();
    let mut i: usize = 0;
    while i < names.len()
        invariant
            i <= names@.len(),
            r@.len() == i,
            forall|k: int| 0 <= k < i ==> #[trigger] r@[k]@ == names@[k]@,
        decreases names@.len() - i,
    {
        let name = names[i].to_owned();
        r.push(name);
        i = i + 1;
    }
    assert(r@.map_values(|s: String| s@) =~= names_view(names@));
    r
}

impl ContinuousProfilerGuardBuilder {
    /// A builder writing under `base_dir`, with every other field at its default.
    pub fn new(base_dir: String) -> (r: Self)
        ensures
            r@ == default_settings(base_dir@),
    {
        let prefix = "profile";
        proof {
            reveal_strlit("profile");
        }
        let r = ContinuousProfilerGuardBuilder {
            frequency: None,
            blocklist: None,
            base_dir,
            prefix: prefix.to_owned(),
            rotate_interval_ms: DEFAULT_ROTATE_INTERVAL_MS,
        };
        assert(r@.prefix =~= default_prefix());
        r
    }

    /// Sets the sampling frequency, in samples per second.
    pub fn frequency(self, frequency: c_int) -> (r: Self)
        ensures
            r@ == (RotationSettings { frequency: Some(frequency as int), ..self@ }),
    {
        ContinuousProfilerGuardBuilder { frequency: Some(frequency), ..self }
    }

    /// Sets the libraries whose addresses the sampler skips.
    pub fn blocklist(self, blocklist: &[&str]) -> (r: Self)
        ensures
            r@ == (RotationSettings { blocklist: Some(names_view(blocklist@)), ..self@ }),
    {
        let names = copy_names(blocklist);
        ContinuousProfilerGuardBuilder { blocklist: Some(names), ..self }
    }

    /// Sets the directory the files are written to.
    pub fn base_dir(self, base_dir: String) -> (r: Self)
        ensures
            r@ == (RotationSettings { base_dir: base_dir@, ..self@ }),
    {
        ContinuousProfilerGuardBuilder { base_dir, ..self }
    }

    /// Sets the prefix of the file names.
    pub fn prefix(self, prefix: &str) -> (r: Self)
        ensures
            r@ == (RotationSettings { prefix: prefix@, ..self@ }),
    {
        ContinuousProfilerGuardBuilder { prefix: prefix.to_owned(), ..self }
    }

    /// Sets the time between two rotations, in milliseconds.
    pub fn rotate_interval(self, rotate_interval_ms: u64) -> (r: Self)
        ensures
            r@ == (RotationSettings { rotate_interval_ms: rotate_interval_ms as nat, ..self@ }),
    {
        ContinuousProfilerGuardBuilder { rotate_interval_ms, ..self }
    }

    /// Validates the configuration: refused exactly when the interval is zero.
    pub fn build(self) -> (r: Result<ContinuousProfilerGuard, ConfigError>)
        ensures
            self@.rotate_interval_ms == 0 <==> r is Err,
            r is Err ==> r == Err::<ContinuousProfilerGuard, ConfigError>(
                ConfigError::ZeroRotateInterval,
            ),
            r matches Ok(g) ==> g@ == self@ && g.wf(),
    {
        if self.rotate_interval_ms == 0 {
            return Err(ConfigError::ZeroRotateInterval);
        }
        Ok(
            ContinuousProfilerGuard {
                frequency: self.frequency,
                blocklist: self.blocklist,
                base_dir: self.base_dir,
                prefix: self.prefix,
                rotate_interval_ms: self.rotate_interval_ms,
            },
        )
    }
}

impl ContinuousProfilerGuard {
    /// A configuration at the defaults, sampling at `frequency` under `base_dir`.
    pub fn new(frequency: c_int, base_dir: String) -> (r: Result<ContinuousProfilerGuard, ConfigError>)
        ensures
            r matches Ok(g) && g@ == (RotationSettings {
                frequency: Some(frequency as int),
                ..default_settings(base_dir@)
            }) && g.wf(),
    {
        ContinuousProfilerGuardBuilder::new(base_dir).frequency(frequency).build()
    }

    pub fn frequency(&self) -> (r: Option<c_int>)
        ensures
            self@.frequency == (match r {
                Some(f) => Some(f as int),
                None => None::<int>,
            }),
    {
        self.frequency
    }

    pub fn blocklist(&self) -> (r: &Option<Vec<String>>)
        ensures
            self@.blocklist == (match r {
                Some(v) => Some(v@.map_values(|s: String| s@)),
                None => None::<Seq<Seq<char>>>,
            }),
    {
        &self.blocklist
    }

    pub fn base_dir(&self) -> (r: &str)
        ensures
            r@ == self@.base_dir,
    {
        self.base_dir.as_str()
    }

    pub fn prefix(&self) -> (r: &str)
        ensures
            r@ == self@.prefix,
    {
        self.prefix.as_str()
    }

    pub fn rotate_interval_ms(&self) -> (r: u64)
        ensures
            r as nat == self@.rotate_interval_ms,
            self.wf() ==> r > 0,
    {
        self.rotate_interval_ms
    }
}

} // verus!

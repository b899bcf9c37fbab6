//! Configuration: the raw document and the resolved form.
//!
//! The configuration file has a global section — ignore patterns, a
//! poll interval, a write delay — and a list of watch entries, each
//! naming a directory and optionally overriding the global values.
//! The document is parsed elsewhere into the raw structures here;
//! resolution then applies the inheritance, validates the intervals,
//! and compiles every ignore set.  A resolved configuration is created
//! whole at startup and recreated whole on every reload; it is never
//! partially mutated while workers run.

use crate::ignore::{IgnoreSet, PatternError, regex_ok, string_views};
use vstd::prelude::*;

verus! {

/// The global section of the configuration document, as parsed.
#[derive(Debug)]
pub struct RawGlobalConfig {
    pub ignore: Vec<String>,
    pub poll_interval: i32,
    pub write_delay: i32,
}

/// One watch entry of the configuration document, as parsed.  Absent
/// interval fields inherit the global values at resolution.
#[derive(Debug)]
pub struct RawDirConfig {
    pub directory: String,
    pub name: String,
    pub ignore: Vec<String>,
    pub poll_interval: Option<i32>,
    pub write_delay: Option<i32>,
}

/// The whole configuration document, as parsed.
#[derive(Debug)]
pub struct RawCbakConfig {
    pub global: RawGlobalConfig,
    pub watch: Vec<RawDirConfig>,
}

/// The resolved global section.
pub struct GlobalConfig {
    pub ignore: IgnoreSet,
    pub poll_interval: i32,
    pub write_delay: i32,
}

/// One resolved watch entry: the directory, its client-facing name,
/// the compiled union of its own and the global ignore patterns, and
/// its effective intervals.
pub struct DirConfig {
    pub directory: String,
    pub name: String,
    pub ignore: IgnoreSet,
    pub poll_interval: i32,
    pub write_delay: i32,
}

impl DirConfig {
    /// The invariant of a resolved entry.
    pub open spec fn wf(&self) -> bool {
        self.poll_interval > 0 && self.write_delay >= 0
    }
}

/// The resolved configuration the daemon runs on.
pub struct CbakConfig {
    pub global: GlobalConfig,
    pub watch: Vec<DirConfig>,
    /// Answers the control plane's path query.
    pub config_file_path: Vec<u8>,
}

impl CbakConfig {
    /// The invariant of a resolved configuration.
    pub open spec fn wf(&self) -> bool {
        &&& self.global.poll_interval > 0
        &&& self.global.write_delay >= 0
        &&& forall|i: int| 0 <= i < self.watch@.len() ==> (#[trigger] self.watch@[i]).wf()
    }
}

/// Why a configuration document was rejected.
#[derive(Debug)]
pub enum ConfigError {
    /// A poll interval that is not positive, or a negative write
    /// delay, after inheritance.
    InvalidInterval,
    /// An ignore pattern the engine refuses.
    BadPattern(PatternError),
}

/// The effective poll interval of entry `i`: its own, or the global
/// one.
pub open spec fn resolved_poll(raw: RawCbakConfig, i: int) -> i32 {
    match raw.watch@[i].poll_interval {
        Some(p) => p,
        None => raw.global.poll_interval,
    }
}

/// The effective write delay of entry `i`: its own, or the global one.
pub open spec fn resolved_delay(raw: RawCbakConfig, i: int) -> i32 {
    match raw.watch@[i].write_delay {
        Some(d) => d,
        None => raw.global.write_delay,
    }
}

/// Whether every interval of the document, after inheritance, meets
/// the invariant: poll intervals positive, write delays non-negative.
pub open spec fn raw_intervals_ok(raw: RawCbakConfig) -> bool {
    &&& raw.global.poll_interval > 0
    &&& raw.global.write_delay >= 0
    &&& forall|i: int|
        0 <= i < raw.watch@.len() ==> #[trigger] resolved_poll(raw, i) > 0 && resolved_delay(
            raw,
            i,
        ) >= 0
}

/// Whether every ignore pattern of the document compiles.
pub open spec fn raw_patterns_ok(raw: RawCbakConfig) -> bool {
    &&& forall|i: int|
        0 <= i < raw.global.ignore@.len() ==> regex_ok(
            #[trigger] string_views(raw.global.ignore@)[i],
        )
    &&& forall|d: int, i: int|
        0 <= d < raw.watch@.len() && 0 <= i < raw.watch@[d].ignore@.len() ==> regex_ok(
            #[trigger] string_views(raw.watch@[d].ignore@)[i],
        )
}

/// The patterns a resolved entry is compiled from: its own, then the
/// global ones.
pub open spec fn entry_patterns(raw: RawCbakConfig, d: int) -> Seq<Seq<char>> {
    string_views(raw.watch@[d].ignore@) + string_views(raw.global.ignore@)
}

/// What resolution promises: the resolved configuration mirrors the
/// document, entry by entry, with inherited intervals and compiled
/// pattern unions.
pub open spec fn resolves(raw: RawCbakConfig, path: Seq<u8>, c: CbakConfig) -> bool {
    &&& c.global.poll_interval == raw.global.poll_interval
    &&& c.global.write_delay == raw.global.write_delay
    &&& c.global.ignore@ == string_views(raw.global.ignore@)
    &&& c.config_file_path@ == path
    &&& c.watch@.len() == raw.watch@.len()
    &&& forall|d: int|
        0 <= d < raw.watch@.len() ==> {
            let e = #[trigger] c.watch@[d];
            &&& e.directory@ == raw.watch@[d].directory@
            &&& e.name@ == raw.watch@[d].name@
            &&& e.ignore@ == entry_patterns(raw, d)
            &&& e.poll_interval == resolved_poll(raw, d)
            &&& e.write_delay == resolved_delay(raw, d)
        }
}

impl CbakConfig {
    /// Resolve a parsed document.  Succeeds exactly when every
    /// interval, after inheritance, meets the invariant and every
    /// pattern compiles; intervals are checked first.  On success the
    /// result mirrors the document and satisfies the configuration
    /// invariant.
    pub fn new(raw: &RawCbakConfig, config_file_path: &Vec<u8>) -> (r: Result<
        CbakConfig,
        ConfigError,
    >)
        ensures
            r is Ok <==> (raw_intervals_ok(*raw) && raw_patterns_ok(*raw)),
            r is Ok ==> resolves(*raw, config_file_path@, r->Ok_0) && r->Ok_0.wf(),
            r is Err ==> ((r->Err_0 is InvalidInterval) <==> !raw_intervals_ok(*raw)),
            (r is Err && r->Err_0 is BadPattern) ==> !regex_ok(
                r->Err_0->BadPattern_0.pattern@,
            ),
    {
        if raw.global.poll_interval <= 0 || raw.global.write_delay < 0 {
            return Err(ConfigError::InvalidInterval);
        }
        let n = raw.watch.len();
        for d in 0..n
            invariant
                n == raw.watch@.len(),
                raw.global.poll_interval > 0,
                raw.global.write_delay >= 0,
                forall|k: int|
                    0 <= k < d ==> #[trigger] resolved_poll(*raw, k) > 0 && resolved_delay(*raw, k)
                        >= 0,
        {
            let poll = match raw.watch[d].poll_interval {
                Some(p) => p,
                None => raw.global.poll_interval,
            };
            let delay = match raw.watch[d].write_delay {
                Some(w) => w,
                None => raw.global.write_delay,
            };
            if poll <= 0 || delay < 0 {
                proof {
                    assert(resolved_poll(*raw, d as int) == poll);
                    assert(resolved_delay(*raw, d as int) == delay);
                }
                return Err(ConfigError::InvalidInterval);
            }
            proof {
                assert(resolved_poll(*raw, d as int) == poll);
                assert(resolved_delay(*raw, d as int) == delay);
            }
        }
        proof {
            assert(raw_intervals_ok(*raw));
        }
        let global_ignore = match IgnoreSet::compile(&raw.global.ignore) {
            Ok(s) => s,
            Err(pe) => {
                return Err(ConfigError::BadPattern(pe));
            },
        };
        let mut watch: Vec<DirConfig> = Vec::new();
        for d in 0..n
            invariant
                n == raw.watch@.len(),
                raw_intervals_ok(*raw),
                forall|i: int|
                    0 <= i < raw.global.ignore@.len() ==> regex_ok(
                        #[trigger] string_views(raw.global.ignore@)[i],
                    ),
                watch@.len() == d,
                forall|k: int|
                    0 <= k < d ==> {
                        let e = #[trigger] watch@[k];
                        &&& e.directory@ == raw.watch@[k].directory@
                        &&& e.name@ == raw.watch@[k].name@
                        &&& e.ignore@ == entry_patterns(*raw, k)
                        &&& e.poll_interval == resolved_poll(*raw, k)
                        &&& e.write_delay == resolved_delay(*raw, k)
                    },
                forall|k: int, i: int|
                    0 <= k < d && 0 <= i < raw.watch@[k].ignore@.len() ==> regex_ok(
                        #[trigger] string_views(raw.watch@[k].ignore@)[i],
                    ),
        {
            let entry = &raw.watch[d];
            let mut combined: Vec<String> = Vec::new();
            let en = entry.ignore.len();
            for i in 0..en
                invariant
                    en == entry.ignore@.len(),
                    combined@.len() == i,
                    forall|k: int| 0 <= k < i ==> (#[trigger] combined@[k])@ == entry.ignore@[k]@,
            {
                combined.push(entry.ignore[i].clone());
            }
            let gn = raw.global.ignore.len();
            for i in 0..gn
                invariant
                    en == entry.ignore@.len(),
                    gn == raw.global.ignore@.len(),
                    combined@.len() == en + i,
                    forall|k: int| 0 <= k < en ==> (#[trigger] combined@[k])@ == entry.ignore@[k]@,
                    forall|k: int|
                        en <= k < en + i ==> (#[trigger] combined@[k])@ == raw.global.ignore@[k
                            - en]@,
            {
                combined.push(raw.global.ignore[i].clone());
            }
            proof {
                let target = entry_patterns(*raw, d as int);
                assert forall|k: int| 0 <= k < combined@.len() implies string_views(combined@)[k]
                    == target[k] by {
                    assert(string_views(combined@)[k] == combined@[k]@);
                    if k < en {
                        assert(target[k] == string_views(entry.ignore@)[k]);
                    } else {
                        assert(target[k] == string_views(raw.global.ignore@)[k - en]);
                    }
                }
                assert(string_views(combined@) =~= target);
            }
            let ignore = match IgnoreSet::compile(&combined) {
                Ok(s) => s,
                Err(pe) => {
                    proof {
                        let bad = choose|i: int|
                            {
                                &&& 0 <= i < combined@.len()
                                &&& !regex_ok(#[trigger] string_views(combined@)[i])
                                &&& pe.pattern@ == string_views(combined@)[i]
                            };
                        assert(bad < entry.ignore@.len());
                        assert(string_views(entry.ignore@)[bad] == string_views(combined@)[bad]);
                        assert(!raw_patterns_ok(*raw));
                    }
                    return Err(ConfigError::BadPattern(pe));
                },
            };
            watch.push(
                DirConfig {
                    directory: entry.directory.clone(),
                    name: entry.name.clone(),
                    ignore,
                    poll_interval: match entry.poll_interval {
                        Some(p) => p,
                        None => raw.global.poll_interval,
                    },
                    write_delay: match entry.write_delay {
                        Some(w) => w,
                        None => raw.global.write_delay,
                    },
                },
            );
            proof {
                assert(forall|i: int|
                    0 <= i < raw.watch@[d as int].ignore@.len() ==> string_views(combined@)[i]
                        == #[trigger] string_views(raw.watch@[d as int].ignore@)[i]);
            }
        }
        let c = CbakConfig {
            global: GlobalConfig {
                ignore: global_ignore,
                poll_interval: raw.global.poll_interval,
                write_delay: raw.global.write_delay,
            },
            watch,
            config_file_path: crate::paths::copy_path(config_file_path),
        };
        proof {
            assert(resolves(*raw, config_file_path@, c));
        }
        Ok(c)
    }
}

} // verus!

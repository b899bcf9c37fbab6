//! Client-side configuration editing.
//!
//! The control client reads the configuration document, changes it,
//! writes it back, and asks the daemon to reload.  The changes
//! themselves are here: adding a watch entry, removing entries by
//! name, and editing single keys, with the validation the client
//! promises — a numeric key takes exactly one value, and that value
//! must be a non-negative decimal integer.  A validation failure is
//! reported, never silently swallowed.

use crate::config::{RawCbakConfig, RawDirConfig};
use vstd::prelude::*;

verus! {

/// Why an edit was rejected.
#[derive(Clone, Copy, Debug, PartialEq, Eq, Structural)]
pub enum EditError {
    /// The key is not one the scope has.
    InvalidKey,
    /// A numeric key takes exactly one value.
    WrongArgumentCount,
    /// A numeric value must be a non-negative decimal integer in
    /// range.
    ExpectedNonNegativeInt,
    /// No watch entry has the given name.
    NoSuchEntry,
}

/// A key the client can edit, in either scope.
#[derive(Clone, Copy, Debug, PartialEq, Eq, Structural)]
pub enum ConfigKey {
    PollInterval,
    WriteDelay,
    IgnorePatterns,
}

/// A decimal digit.
pub open spec fn is_digit(c: char) -> bool {
    48 <= c as int <= 57
}

/// A non-empty string of decimal digits.
pub open spec fn dec_digits(s: Seq<char>) -> bool {
    s.len() > 0 && forall|i: int| 0 <= i < s.len() ==> is_digit(#[trigger] s[i])
}

/// The value of a digit string, most significant digit first.
pub open spec fn dec_value(s: Seq<char>) -> int
    decreases s.len(),
{
    if s.len() == 0 {
        0
    } else {
        dec_value(s.drop_last()) * 10 + (s.last() as int - 48)
    }
}

/// The value of a digit string is never negative.
pub proof fn lemma_dec_value_nonneg(s: Seq<char>)
    requires
        forall|i: int| 0 <= i < s.len() ==> is_digit(#[trigger] s[i]),
    ensures
        dec_value(s) >= 0,
    decreases s.len(),
{
    if s.len() > 0 {
        lemma_dec_value_nonneg(s.drop_last());
    }
}

/// Reading more digits never shrinks the value.
pub proof fn lemma_dec_value_prefix_le(s: Seq<char>, k: int, m: int)
    requires
        0 <= k <= m <= s.len(),
        forall|i: int| 0 <= i < s.len() ==> is_digit(#[trigger] s[i]),
    ensures
        dec_value(s.subrange(0, k)) <= dec_value(s.subrange(0, m)),
    decreases m - k,
{
    if k < m {
        lemma_dec_value_prefix_le(s, k, m - 1);
        let pre = s.subrange(0, m - 1);
        let cur = s.subrange(0, m);
        assert(cur.drop_last() =~= pre);
        assert(forall|i: int| 0 <= i < pre.len() ==> is_digit(#[trigger] pre[i]));
        lemma_dec_value_nonneg(pre);
        assert(is_digit(cur.last()));
    }
}

/// Parse a non-negative decimal integer, as the client's numeric
/// configuration values are parsed.  Succeeds exactly on non-empty
/// digit strings whose value fits.
pub fn parse_nonneg_i32(s: &String) -> (r: Option<i32>)
    ensures
        r is Some <==> (dec_digits(s@) && dec_value(s@) <= i32::MAX),
        r is Some ==> r->0 == dec_value(s@),
{
    let st = s.as_str();
    let n = st.unicode_len();
    if n == 0 {
        return None;
    }
    let mut acc: i32 = 0;
    for i in 0..n
        invariant
            st@ == s@,
            n == s@.len(),
            n > 0,
            forall|k: int| 0 <= k < i ==> is_digit(#[trigger] s@[k]),
            0 <= acc,
            acc == dec_value(s@.subrange(0, i as int)),
    {
        let c = st.get_char(i);
        let cv = c as u32;
        if cv < 48 || cv > 57 {
            proof {
                assert(!is_digit(s@[i as int]));
                assert(!dec_digits(s@));
            }
            return None;
        }
        let d: i32 = (cv - 48) as i32;
        let wide: i64 = acc as i64 * 10 + d as i64;
        proof {
            let pre = s@.subrange(0, i as int);
            let cur = s@.subrange(0, i + 1);
            assert(cur.drop_last() =~= pre);
            assert(cur.last() == s@[i as int]);
            assert(wide == dec_value(cur));
        }
        if wide > i32::MAX as i64 {
            proof {
                if dec_digits(s@) {
                    lemma_dec_value_prefix_le(s@, i + 1, s@.len() as int);
                    assert(s@.subrange(0, s@.len() as int) =~= s@);
                }
            }
            return None;
        }
        acc = wide as i32;
    }
    proof {
        assert(s@.subrange(0, n as int) =~= s@);
    }
    Some(acc)
}

/// Append a watch entry: the client's add command.
pub fn add_watch(conf: RawCbakConfig, entry: RawDirConfig) -> (r: RawCbakConfig)
    ensures
        r.global == conf.global,
        r.watch@ == conf.watch@.push(entry),
{
    let RawCbakConfig { global, mut watch } = conf;
    watch.push(entry);
    RawCbakConfig { global, watch }
}

/// Remove every watch entry with the given name: the client's remove
/// command.  Entries keep their order.
pub fn remove_watch(conf: RawCbakConfig, name: &String) -> (r: RawCbakConfig)
    ensures
        r.global == conf.global,
        r.watch@ == conf.watch@.filter(|e: RawDirConfig| e.name@ != name@),
{
    let ghost orig = conf.watch@;
    let RawCbakConfig { global, mut watch } = conf;
    let mut kept: Vec<RawDirConfig> = Vec::new();
    proof {
        assert(orig.subrange(0, 0) =~= Seq::<RawDirConfig>::empty());
        reveal_with_fuel(Seq::filter, 1);
        assert(kept@ =~= orig.subrange(0, 0).filter(|e: RawDirConfig| e.name@ != name@));
    }
    let ghost done: int = 0;
    while watch.len() > 0
        invariant
            0 <= done <= orig.len(),
            watch@ =~= orig.subrange(done, orig.len() as int),
            kept@ == orig.subrange(0, done).filter(|e: RawDirConfig| e.name@ != name@),
        decreases watch@.len(),
    {
        let e = watch.remove(0);
        proof {
            reveal_with_fuel(Seq::<RawDirConfig>::filter, 1);
            assert(e == orig[done]);
            let pre = orig.subrange(0, done);
            let cur = orig.subrange(0, done + 1);
            assert(cur.drop_last() =~= pre);
            assert(cur.last() == orig[done]);
        }
        let keep = !(e.name == *name);
        if keep {
            kept.push(e);
        }
        proof {
            done = done + 1;
            assert(kept@ =~= orig.subrange(0, done).filter(|x: RawDirConfig| x.name@ != name@));
        }
    }
    proof {
        assert(orig.subrange(0, orig.len() as int) =~= orig);
    }
    RawCbakConfig { global, watch: kept }
}

/// Copy a list of pattern strings.
fn clone_strings(v: &Vec<String>) -> (r: Vec<String>)
    ensures
        r@.len() == v@.len(),
        forall|i: int| 0 <= i < v@.len() ==> (#[trigger] r@[i])@ == v@[i]@,
{
    let mut r: Vec<String> = Vec::new();
    let n = v.len();
    for i in 0..n
        invariant
            n == v@.len(),
            r@.len() == i,
            forall|k: int| 0 <= k < i ==> (#[trigger] r@[k])@ == v@[k]@,
    {
        r.push(v[i].clone());
    }
    r
}

/// Edit one key of the global scope.  A numeric key takes exactly one
/// value, which must parse; the pattern key replaces the whole list
/// with the given values.
pub fn edit_global(conf: RawCbakConfig, key: ConfigKey, values: &Vec<String>) -> (r: Result<
    RawCbakConfig,
    EditError,
>)
    ensures
        (key == ConfigKey::PollInterval || key == ConfigKey::WriteDelay) ==> {
            &&& r is Ok <==> (values@.len() == 1 && dec_digits(values@[0]@) && dec_value(
                values@[0]@,
            ) <= i32::MAX)
            &&& values@.len() != 1 ==> r == Err::<RawCbakConfig, EditError>(
                EditError::WrongArgumentCount,
            )
            &&& (values@.len() == 1 && !(dec_digits(values@[0]@) && dec_value(values@[0]@)
                <= i32::MAX)) ==> r == Err::<RawCbakConfig, EditError>(
                EditError::ExpectedNonNegativeInt,
            )
        },
        (key == ConfigKey::PollInterval && r is Ok) ==> {
            let c = r->Ok_0;
            &&& c.global.poll_interval == dec_value(values@[0]@)
            &&& c.global.write_delay == conf.global.write_delay
            &&& c.global.ignore@ == conf.global.ignore@
            &&& c.watch@ == conf.watch@
        },
        (key == ConfigKey::WriteDelay && r is Ok) ==> {
            let c = r->Ok_0;
            &&& c.global.write_delay == dec_value(values@[0]@)
            &&& c.global.poll_interval == conf.global.poll_interval
            &&& c.global.ignore@ == conf.global.ignore@
            &&& c.watch@ == conf.watch@
        },
        key == ConfigKey::IgnorePatterns ==> {
            &&& r is Ok
            &&& ({
                let c = r->Ok_0;
                &&& c.global.poll_interval == conf.global.poll_interval
                &&& c.global.write_delay == conf.global.write_delay
                &&& c.global.ignore@.len() == values@.len()
                &&& (forall|i: int|
                    0 <= i < values@.len() ==> (#[trigger] c.global.ignore@[i])@ == values@[i]@)
                &&& c.watch@ == conf.watch@
            })
        },
{
    let RawCbakConfig { mut global, watch } = conf;
    match key {
        ConfigKey::PollInterval => {
            if values.len() != 1 {
                return Err(EditError::WrongArgumentCount);
            }
            match parse_nonneg_i32(&values[0]) {
                Some(v) => {
                    global.poll_interval = v;
                    Ok(RawCbakConfig { global, watch })
                },
                None => Err(EditError::ExpectedNonNegativeInt),
            }
        },
        ConfigKey::WriteDelay => {
            if values.len() != 1 {
                return Err(EditError::WrongArgumentCount);
            }
            match parse_nonneg_i32(&values[0]) {
                Some(v) => {
                    global.write_delay = v;
                    Ok(RawCbakConfig { global, watch })
                },
                None => Err(EditError::ExpectedNonNegativeInt),
            }
        },
        ConfigKey::IgnorePatterns => {
            global.ignore = clone_strings(values);
            Ok(RawCbakConfig { global, watch })
        },
    }
}

/// Where the first watch entry with this name sits.
pub open spec fn entry_index(watch: Seq<RawDirConfig>, name: Seq<char>) -> int
    decreases watch.len(),
{
    if watch.len() == 0 {
        0
    } else if watch.first().name@ == name {
        0
    } else {
        1 + entry_index(watch.drop_first(), name)
    }
}

/// Whether some watch entry has this name.
pub open spec fn has_entry(watch: Seq<RawDirConfig>, name: Seq<char>) -> bool {
    exists|i: int| 0 <= i < watch.len() && (#[trigger] watch[i]).name@ == name
}

/// `entry_index` names the first entry with the name.
pub proof fn lemma_entry_index_first(watch: Seq<RawDirConfig>, name: Seq<char>)
    requires
        has_entry(watch, name),
    ensures
        0 <= entry_index(watch, name) < watch.len(),
        watch[entry_index(watch, name)].name@ == name,
        forall|k: int| 0 <= k < entry_index(watch, name) ==> (#[trigger] watch[k]).name@ != name,
    decreases watch.len(),
{
    if watch.len() > 0 && watch.first().name@ != name {
        let rest = watch.drop_first();
        assert(has_entry(rest, name)) by {
            let i = choose|i: int| 0 <= i < watch.len() && (#[trigger] watch[i]).name@ == name;
            assert(rest[i - 1].name@ == name);
        }
        lemma_entry_index_first(rest, name);
        let ei = entry_index(watch, name);
        assert(watch[ei] == rest[ei - 1]);
        assert forall|k: int| 0 <= k < ei implies (#[trigger] watch[k]).name@ != name by {
            if k > 0 {
                assert(rest[k - 1].name@ != name);
            }
        }
    }
}

/// Find the first watch entry with the given name.
fn find_entry(watch: &Vec<RawDirConfig>, name: &String) -> (r: Option<usize>)
    ensures
        r is Some <==> has_entry(watch@, name@),
        r is Some ==> {
            let i = r->0 as int;
            &&& 0 <= i < watch@.len()
            &&& watch@[i].name@ == name@
            &&& forall|k: int| 0 <= k < i ==> (#[trigger] watch@[k]).name@ != name@
        },
{
    let n = watch.len();
    for i in 0..n
        invariant
            n == watch@.len(),
            forall|k: int| 0 <= k < i ==> (#[trigger] watch@[k]).name@ != name@,
    {
        if watch[i].name == *name {
            proof {
                assert((watch@[i as int]).name@ == name@);
            }
            return Some(i);
        }
    }
    None
}

/// Edit one key of the named watch entry.  The entry is looked up by
/// name; with no values the key's override is cleared, with one value
/// a numeric key is set, and the pattern key takes the values as the
/// new list.  The edited entry moves to the end of the watch list, as
/// the client rewrites it.
pub fn edit_watch(conf: RawCbakConfig, name: &String, key: ConfigKey, values: &Vec<String>) -> (r:
    Result<RawCbakConfig, EditError>)
    ensures
        !has_entry(conf.watch@, name@) ==> r == Err::<RawCbakConfig, EditError>(
            EditError::NoSuchEntry,
        ),
        ((key == ConfigKey::PollInterval || key == ConfigKey::WriteDelay) && has_entry(
            conf.watch@,
            name@,
        )) ==> {
            &&& r is Ok <==> (values@.len() == 0 || (values@.len() == 1 && dec_digits(
                values@[0]@,
            ) && dec_value(values@[0]@) <= i32::MAX))
            &&& values@.len() > 1 ==> r == Err::<RawCbakConfig, EditError>(
                EditError::WrongArgumentCount,
            )
            &&& (values@.len() == 1 && !(dec_digits(values@[0]@) && dec_value(values@[0]@)
                <= i32::MAX)) ==> r == Err::<RawCbakConfig, EditError>(
                EditError::ExpectedNonNegativeInt,
            )
        },
        (key == ConfigKey::IgnorePatterns && has_entry(conf.watch@, name@)) ==> r is Ok,
        r is Ok ==> {
            let c = r->Ok_0;
            let i = entry_index(conf.watch@, name@);
            let e = conf.watch@[i];
            let f = c.watch@.last();
            &&& c.global == conf.global
            &&& c.watch@.len() == conf.watch@.len()
            &&& c.watch@.drop_last() == conf.watch@.remove(i)
            &&& f.directory@ == e.directory@
            &&& f.name@ == e.name@
            &&& (key == ConfigKey::PollInterval ==> {
                &&& f.write_delay == e.write_delay
                &&& (forall|k: int|
                    0 <= k < e.ignore@.len() ==> (#[trigger] f.ignore@[k])@ == e.ignore@[k]@)
                &&& f.ignore@.len() == e.ignore@.len()
                &&& f.poll_interval == (if values@.len() == 0 {
                    Option::<i32>::None
                } else {
                    Option::<i32>::Some(dec_value(values@[0]@) as i32)
                })
            })
            &&& (key == ConfigKey::WriteDelay ==> {
                &&& f.poll_interval == e.poll_interval
                &&& (forall|k: int|
                    0 <= k < e.ignore@.len() ==> (#[trigger] f.ignore@[k])@ == e.ignore@[k]@)
                &&& f.ignore@.len() == e.ignore@.len()
                &&& f.write_delay == (if values@.len() == 0 {
                    Option::<i32>::None
                } else {
                    Option::<i32>::Some(dec_value(values@[0]@) as i32)
                })
            })
            &&& (key == ConfigKey::IgnorePatterns ==> {
                &&& f.poll_interval == e.poll_interval
                &&& f.write_delay == e.write_delay
                &&& f.ignore@.len() == values@.len()
                &&& (forall|k: int|
                    0 <= k < values@.len() ==> (#[trigger] f.ignore@[k])@ == values@[k]@)
            })
        },
{
    let ghost orig = conf.watch@;
    let RawCbakConfig { global, mut watch } = conf;
    let idx = match find_entry(&watch, name) {
        Some(i) => i,
        None => {
            return Err(EditError::NoSuchEntry);
        },
    };
    proof {
        lemma_entry_index_first(orig, name@);
        let j = entry_index(orig, name@);
        if j < idx as int {
            assert(watch@[j].name@ == name@);
            assert(false);
        }
        if (idx as int) < j {
            assert(orig[idx as int].name@ != name@);
            assert(false);
        }
    }
    let mut e = watch.remove(idx);
    match key {
        ConfigKey::PollInterval => {
            if values.len() == 0 {
                e.poll_interval = None;
            } else if values.len() == 1 {
                match parse_nonneg_i32(&values[0]) {
                    Some(v) => {
                        e.poll_interval = Some(v);
                    },
                    None => {
                        return Err(EditError::ExpectedNonNegativeInt);
                    },
                }
            } else {
                return Err(EditError::WrongArgumentCount);
            }
        },
        ConfigKey::WriteDelay => {
            if values.len() == 0 {
                e.write_delay = None;
            } else if values.len() == 1 {
                match parse_nonneg_i32(&values[0]) {
                    Some(v) => {
                        e.write_delay = Some(v);
                    },
                    None => {
                        return Err(EditError::ExpectedNonNegativeInt);
                    },
                }
            } else {
                return Err(EditError::WrongArgumentCount);
            }
        },
        ConfigKey::IgnorePatterns => {
            e.ignore = clone_strings(values);
        },
    }
    watch.push(e);
    proof {
        assert(watch@.drop_last() =~= orig.remove(idx as int));
    }
    Ok(RawCbakConfig { global, watch })
}

} // verus!

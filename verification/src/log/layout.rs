//! The names of the log's objects below a table's directory, and what a
//! listing of them says about the table.

use crate::text::{digit, digit_char, names_of, push_char};
use vstd::prelude::*;

verus! {

/// The directory of the log below a table's directory.
pub const LOG_PREFIX: &'static str = "_log/";

/// The number of digits in the name of a log object.
pub const VERSION_DIGITS: usize = 20;

/// The two kinds of object that the log's directory holds.
#[derive(Debug, Clone, Copy, PartialEq, Eq, Structural)]
pub enum LogObjectKind {
    /// One commit entry.
    Commit,
    /// A summary of the live file-set as of a version.
    Checkpoint,
}

/// What the name of a log object says: its version and its kind.
#[derive(Debug, Clone, Copy, PartialEq, Eq, Structural)]
pub struct LogObject {
    pub version: i64,
    pub kind: LogObjectKind,
}

/// The last `width` decimal digits of `n`, most significant first, with
/// zeros in front where `n` has fewer.
pub open spec fn padded_digits(n: nat, width: nat) -> Seq<char>
    decreases width,
{
    if width == 0 {
        Seq::empty()
    } else {
        padded_digits(n / 10, (width - 1) as nat).push(digit_char(n % 10))
    }
}

/// Whether a character is a decimal digit.
pub open spec fn is_digit(c: char) -> bool {
    '0' <= c <= '9'
}

/// The number that a string of decimal digits denotes.
pub open spec fn digits_value(s: Seq<char>) -> nat
    decreases s.len(),
{
    if s.len() == 0 {
        0
    } else {
        digits_value(s.drop_last()) * 10 + (s.last() as nat - '0' as nat) as nat
    }
}

/// Ten to the power `k`.
pub open spec fn pow10(k: nat) -> nat
    decreases k,
{
    if k == 0 {
        1
    } else {
        10 * pow10((k - 1) as nat)
    }
}

/// The suffix of an object's name.
pub open spec fn suffix_of(kind: LogObjectKind) -> Seq<char> {
    match kind {
        LogObjectKind::Commit => ".json"@,
        LogObjectKind::Checkpoint => ".checkpoint"@,
    }
}

/// The name of a log object within the log's directory: its version in
/// twenty digits, then the suffix of its kind.
pub open spec fn object_name(object: LogObject) -> Seq<char> {
    padded_digits(object.version as nat, 20) + suffix_of(object.kind)
}

/// Padded digits are digits, as many as asked for.
pub proof fn lemma_padded_digits_are_digits(n: nat, width: nat)
    ensures
        padded_digits(n, width).len() == width,
        forall|i: int| 0 <= i < width ==> is_digit(#[trigger] padded_digits(n, width)[i]),
    decreases width,
{
    if width > 0 {
        lemma_padded_digits_are_digits(n / 10, (width - 1) as nat);
    }
}

/// Reading the padded digits of a number gives the number back, as long
/// as it has no more digits than the width.
pub proof fn lemma_digits_round_trip(n: nat, width: nat)
    requires
        n < pow10(width),
    ensures
        digits_value(padded_digits(n, width)) == n,
    decreases width,
{
    if width > 0 {
        lemma_digits_round_trip(n / 10, (width - 1) as nat);
        let s = padded_digits(n, width);
        assert(s.drop_last() =~= padded_digits(n / 10, (width - 1) as nat));
    }
}

/// Writing the number that a string of digits denotes, at the string's
/// width, gives the string back.
pub proof fn lemma_value_round_trip(s: Seq<char>)
    requires
        forall|i: int| 0 <= i < s.len() ==> is_digit(#[trigger] s[i]),
    ensures
        padded_digits(digits_value(s), s.len()) == s,
        digits_value(s) < pow10(s.len()),
    decreases s.len(),
{
    if s.len() > 0 {
        let t = s.drop_last();
        lemma_value_round_trip(t);
        let d = (s.last() as nat - '0' as nat) as nat;
        assert(is_digit(s[s.len() - 1]));
        assert(d < 10);
        assert(digit_char(d) == s.last());
        assert(digits_value(s) / 10 == digits_value(t));
        assert(digits_value(s) % 10 == d);
        assert(padded_digits(digits_value(s), s.len()) =~= s);
    } else {
        assert(padded_digits(digits_value(s), s.len()) =~= s);
    }
}

/// Every version fits twenty digits.
pub proof fn lemma_versions_fit()
    ensures
        i64::MAX < pow10(20),
        pow10(20) == 100_000_000_000_000_000_000,
{
    reveal_with_fuel(pow10, 21);
}

/// Writes the last `width` decimal digits of `n`.
pub fn write_padded(n: u64, width: usize) -> (out: String)
    ensures
        out@ == padded_digits(n as nat, width as nat),
    decreases width,
{
    if width == 0 {
        String::new()
    } else {
        let mut out = write_padded(n / 10, width - 1);
        push_char(&mut out, digit(n % 10));
        out
    }
}

/// The name of the object of the given kind and version within the log's
/// directory.
pub fn log_object_name(version: i64, kind: LogObjectKind) -> (name: String)
    requires
        version >= 0,
    ensures
        name@ == object_name(LogObject { version, kind }),
{
    let mut name = write_padded(version as u64, VERSION_DIGITS);
    match kind {
        LogObjectKind::Commit => name.append(".json"),
        LogObjectKind::Checkpoint => name.append(".checkpoint"),
    }
    name
}

/// The key of a version's commit entry, relative to the table's directory.
pub fn commit_key(version: i64) -> (key: String)
    requires
        version >= 0,
    ensures
        key@ == LOG_PREFIX@ + object_name(LogObject { version, kind: LogObjectKind::Commit }),
{
    let mut key = String::from_str(LOG_PREFIX);
    key.append(log_object_name(version, LogObjectKind::Commit).as_str());
    key
}

/// The key of a version's checkpoint, relative to the table's directory.
pub fn checkpoint_key(version: i64) -> (key: String)
    requires
        version >= 0,
    ensures
        key@ == LOG_PREFIX@ + object_name(
            LogObject { version, kind: LogObjectKind::Checkpoint },
        ),
{
    let mut key = String::from_str(LOG_PREFIX);
    key.append(log_object_name(version, LogObjectKind::Checkpoint).as_str());
    key
}

/// The key of a log object, relative to the table's directory.
pub open spec fn object_key(object: LogObject) -> Seq<char> {
    LOG_PREFIX@ + object_name(object)
}

/// Two objects with the same name are the same object.
pub proof fn lemma_name_determines_object(a: LogObject, b: LogObject)
    requires
        a.version >= 0,
        b.version >= 0,
        object_name(a) == object_name(b),
    ensures
        a == b,
{
    reveal_strlit(".json");
    reveal_strlit(".checkpoint");
    lemma_versions_fit();
    lemma_padded_digits_are_digits(a.version as nat, 20);
    lemma_padded_digits_are_digits(b.version as nat, 20);
    let da = padded_digits(a.version as nat, 20);
    let db = padded_digits(b.version as nat, 20);
    assert(object_name(a).len() == 20 + suffix_of(a.kind).len());
    assert(object_name(b).len() == 20 + suffix_of(b.kind).len());
    assert(object_name(a).subrange(0, 20) =~= da);
    assert(object_name(b).subrange(0, 20) =~= db);
    lemma_digits_round_trip(a.version as nat, 20);
    lemma_digits_round_trip(b.version as nat, 20);
}

/// Whether `text` reads `literal` from position `start` on, up to its end.
fn ends_with_at(text: &str, start: usize, literal: &str) -> (same: bool)
    requires
        start <= text@.len(),
    ensures
        same == (text@.subrange(start as int, text@.len() as int) == literal@),
{
    let n = text.unicode_len();
    let m = literal.unicode_len();
    if n - start != m {
        return false;
    }
    let mut i: usize = 0;
    while i < m
        invariant
            n == text@.len(),
            m == literal@.len(),
            start + m == n,
            i <= m,
            forall|j: int| 0 <= j < i ==> text@[start + j] == literal@[j],
        decreases m - i,
    {
        if text.get_char(start + i) != literal.get_char(i) {
            assert(text@.subrange(start as int, n as int)[i as int] != literal@[i as int]);
            return false;
        }
        i += 1;
    }
    assert(text@.subrange(start as int, n as int) =~= literal@);
    true
}

/// Whether `text` starts with `literal`.
pub(crate) fn starts_with(text: &str, literal: &str) -> (same: bool)
    ensures
        same == (literal@.len() <= text@.len() && text@.subrange(0, literal@.len() as int)
            == literal@),
{
    let n = text.unicode_len();
    let m = literal.unicode_len();
    if n < m {
        return false;
    }
    let mut i: usize = 0;
    while i < m
        invariant
            n == text@.len(),
            m == literal@.len(),
            m <= n,
            i <= m,
            forall|j: int| 0 <= j < i ==> text@[j] == literal@[j],
        decreases m - i,
    {
        if text.get_char(i) != literal.get_char(i) {
            assert(text@.subrange(0, m as int)[i as int] != literal@[i as int]);
            return false;
        }
        i += 1;
    }
    assert(text@.subrange(0, m as int) =~= literal@);
    true
}

/// Reads the key of a log object: the log's directory, twenty digits that
/// denote a version, and the suffix of a commit or of a checkpoint. Any
/// other key is none.
pub fn parse_log_key(key: &str) -> (object: Option<LogObject>)
    ensures
        match object {
            Some(o) => o.version >= 0 && key@ == object_key(o),
            None => forall|o: LogObject| o.version >= 0 ==> key@ != #[trigger] object_key(o),
        },
{
    proof {
        reveal_strlit("_log/");
        reveal_strlit(".json");
        reveal_strlit(".checkpoint");
        lemma_versions_fit();
        assert forall|o: LogObject| o.version >= 0 implies (#[trigger] object_key(o)).len() == 25
            + suffix_of(o.kind).len() && object_key(o).subrange(0, 5) == LOG_PREFIX@
            && object_key(o).subrange(5, 25) == padded_digits(o.version as nat, 20)
            && object_key(o).subrange(25, object_key(o).len() as int) == suffix_of(o.kind) by {
            lemma_padded_digits_are_digits(o.version as nat, 20);
            assert(object_key(o).subrange(0, 5) =~= LOG_PREFIX@);
            assert(object_key(o).subrange(5, 25) =~= padded_digits(o.version as nat, 20));
            assert(object_key(o).subrange(25, object_key(o).len() as int) =~= suffix_of(o.kind));
        }
    }
    let n = key.unicode_len();
    if n < 25 || !starts_with(key, LOG_PREFIX) {
        return None;
    }
    let ghost digits = key@.subrange(5, 25);
    let mut value: u128 = 0;
    let mut i: usize = 0;
    assert(digits.subrange(0, 0) =~= Seq::empty());
    while i < 20
        invariant
            n == key@.len(),
            n >= 25,
            i <= 20,
            digits == key@.subrange(5, 25),
            value == digits_value(digits.subrange(0, i as int)),
            value < pow10(i as nat),
            pow10(20) == 100_000_000_000_000_000_000,
            forall|j: int| 0 <= j < i ==> is_digit(#[trigger] digits[j]),
            forall|o: LogObject|
                o.version >= 0 ==> (#[trigger] object_key(o)).len() >= 25 && object_key(
                    o,
                ).subrange(5, 25) == padded_digits(o.version as nat, 20),
        decreases 20 - i,
    {
        let c = key.get_char(5 + i);
        if !('0' <= c && c <= '9') {
            proof {
                assert(digits[i as int] == c);
                assert forall|o: LogObject| o.version >= 0 implies key@ != #[trigger] object_key(
                    o,
                ) by {
                    lemma_padded_digits_are_digits(o.version as nat, 20);
                    if key@ == object_key(o) {
                        assert(is_digit(padded_digits(o.version as nat, 20)[i as int]));
                    }
                }
            }
            return None;
        }
        proof {
            lemma_pow10_grows(i as nat);
            lemma_pow10_monotone(i as nat + 1, 20);
            assert(digits.subrange(0, i as int + 1).drop_last() =~= digits.subrange(0, i as int));
            assert(digits.subrange(0, i as int + 1).last() == c);
            assert('0' as u32 <= c as u32 <= '9' as u32);
        }
        value = value * 10 + (c as u32 - '0' as u32) as u128;
        i += 1;
    }
    assert(digits.subrange(0, 20) =~= digits);
    if value > i64::MAX as u128 {
        proof {
            assert forall|o: LogObject| o.version >= 0 implies key@ != #[trigger] object_key(
                o,
            ) by {
                lemma_digits_round_trip(o.version as nat, 20);
            }
        }
        return None;
    }
    let version = value as i64;
    let kind = if ends_with_at(key, 25, ".json") {
        LogObjectKind::Commit
    } else if ends_with_at(key, 25, ".checkpoint") {
        LogObjectKind::Checkpoint
    } else {
        return None;
    };
    proof {
        lemma_value_round_trip(digits);
        let o = LogObject { version, kind };
        assert(key@ =~= key@.subrange(0, 5) + key@.subrange(5, 25) + key@.subrange(
            25,
            n as int,
        ));
        assert(key@ =~= object_key(o));
    }
    Some(LogObject { version, kind })
}

/// A larger exponent gives a power of ten that is not smaller.
proof fn lemma_pow10_monotone(a: nat, b: nat)
    requires
        a <= b,
    ensures
        pow10(a) <= pow10(b),
    decreases b - a,
{
    if a < b {
        lemma_pow10_monotone(a, (b - 1) as nat);
        lemma_pow10_grows((b - 1) as nat);
    }
}

/// Two objects with the same key are the same object.
pub proof fn lemma_key_determines_object(a: LogObject, b: LogObject)
    requires
        a.version >= 0,
        b.version >= 0,
        object_key(a) == object_key(b),
    ensures
        a == b,
{
    let n = LOG_PREFIX@.len() as int;
    assert(object_key(a).subrange(n, object_key(a).len() as int) =~= object_name(a));
    assert(object_key(b).subrange(n, object_key(b).len() as int) =~= object_name(b));
    lemma_name_determines_object(a, b);
}

/// Whether a listing of keys holds the object of the given kind and
/// version.
pub open spec fn lists(keys: Seq<String>, kind: LogObjectKind, version: i64) -> bool {
    names_of(keys).contains(object_key(LogObject { version, kind }))
}

/// The greatest version, not above `limit`, of which the listing holds an
/// object of the given kind.
pub fn newest(keys: &Vec<String>, kind: LogObjectKind, limit: i64) -> (found: Option<i64>)
    ensures
        match found {
            Some(best) => {
                &&& 0 <= best <= limit
                &&& lists(keys@, kind, best)
                &&& forall|v: i64| 0 <= v <= limit && #[trigger] lists(keys@, kind, v) ==> v <= best
            },
            None => forall|v: i64| 0 <= v <= limit ==> !#[trigger] lists(keys@, kind, v),
        },
{
    let mut found: Option<i64> = None;
    let mut i: usize = 0;
    while i < keys.len()
        invariant
            i <= keys.len(),
            found matches Some(best) ==> 0 <= best <= limit && lists(keys@, kind, best),
            forall|j: int, v: i64|
                #![trigger names_of(keys@)[j], object_key(LogObject { version: v, kind })]
                0 <= j < i && 0 <= v <= limit && names_of(keys@)[j] == object_key(
                    LogObject { version: v, kind },
                ) ==> (found matches Some(best) && v <= best),
        decreases keys.len() - i,
    {
        let parsed = parse_log_key(keys[i].as_str());
        let ghost before = found;
        match parsed {
            Some(o) => {
                if o.kind == kind && o.version <= limit {
                    assert(names_of(keys@)[i as int] == object_key(o));
                    let better = match found {
                        Some(best) => o.version > best,
                        None => true,
                    };
                    if better {
                        found = Some(o.version);
                    }
                }
            },
            None => {},
        }
        proof {
            assert forall|j: int, v: i64|
                #![trigger names_of(keys@)[j], object_key(LogObject { version: v, kind })]
                0 <= j < i + 1 && 0 <= v <= limit && names_of(keys@)[j] == object_key(
                    LogObject { version: v, kind },
                ) implies (found matches Some(best) && v <= best) by {
                if j == i {
                    match parsed {
                        Some(o) => {
                            lemma_key_determines_object(o, LogObject { version: v, kind });
                        },
                        None => {},
                    }
                }
            }
        }
        i += 1;
    }
    proof {
        assert forall|v: i64| 0 <= v <= limit && #[trigger] lists(keys@, kind, v) implies (
        found matches Some(best) && v <= best) by {
            let key = object_key(LogObject { version: v, kind });
            let j = choose|j: int| 0 <= j < names_of(keys@).len() && names_of(keys@)[j] == key;
            assert(names_of(keys@)[j] == object_key(LogObject { version: v, kind }));
        }
    }
    found
}

/// The head of a table, read from a listing of its log's directory: the
/// greatest version of which the listing holds a commit entry. A listing
/// without a commit entry belongs to no table.
pub fn read_head(keys: &Vec<String>) -> (head: Option<i64>)
    ensures
        match head {
            Some(h) => {
                &&& h >= 0
                &&& lists(keys@, LogObjectKind::Commit, h)
                &&& forall|v: i64|
                    v >= 0 && #[trigger] lists(keys@, LogObjectKind::Commit, v) ==> v <= h
            },
            None => forall|v: i64| v >= 0 ==> !#[trigger] lists(keys@, LogObjectKind::Commit, v),
        },
{
    newest(keys, LogObjectKind::Commit, i64::MAX)
}

/// The version at which a reader of `head` starts its replay: the one
/// after the newest checkpoint at or below `head`, or 0 without one.
pub fn replay_start(keys: &Vec<String>, head: i64) -> (start: i64)
    requires
        0 <= head < i64::MAX,
    ensures
        0 <= start <= head + 1,
        start == 0 ==> forall|v: i64|
            0 <= v <= head ==> !#[trigger] lists(keys@, LogObjectKind::Checkpoint, v),
        start > 0 ==> lists(keys@, LogObjectKind::Checkpoint, (start - 1) as i64) && forall|v: i64|
            0 <= v <= head && #[trigger] lists(keys@, LogObjectKind::Checkpoint, v) ==> v < start,
{
    match newest(keys, LogObjectKind::Checkpoint, head) {
        Some(checkpoint) => {
            checkpoint + 1
        },
        None => 0,
    }
}

/// Whether a checkpoint is written after the commit of `version`: at
/// every `interval`-th version after the creation.
pub fn is_checkpoint_due(version: i64, interval: u64) -> (due: bool)
    ensures
        due == (version > 0 && interval > 0 && (version as int) % (interval as int) == 0),
{
    version > 0 && interval > 0 && (version as u64) % interval == 0
}

/// Each power of ten is positive, and the next is ten times as large.
proof fn lemma_pow10_grows(k: nat)
    ensures
        pow10(k) >= 1,
        pow10(k + 1) == 10 * pow10(k),
    decreases k,
{
    if k > 0 {
        lemma_pow10_grows((k - 1) as nat);
    }
}

} // verus!

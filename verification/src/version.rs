//! Protocol versions and the ranges that a plugin accepts.

use vstd::prelude::*;

use crate::text;

verus! {

/// String form of the current protocol version for non-Rust tooling.
pub const PROTOCOL_VERSION_STRING: &'static str = "1.0.0";

/// A stable semantic protocol version.
///
/// Pre-release/build suffixes are deliberately not accepted. Protocol
/// negotiation uses only the ordered `major.minor.patch` core.
#[derive(Clone, Copy, Debug, PartialEq, Eq, PartialOrd, Ord, Hash, Structural)]
pub struct ProtocolVersion {
    /// Breaking-change component.
    pub major: u64,
    /// Backward-compatible feature component.
    pub minor: u64,
    /// Backward-compatible fix component.
    pub patch: u64,
}

/// The current protocol version.
pub open spec fn current_version() -> ProtocolVersion {
    ProtocolVersion { major: 1, minor: 0, patch: 0 }
}

/// Current Lightrail plugin protocol version.
pub fn protocol_version() -> (r: ProtocolVersion)
    ensures
        r == current_version(),
{
    ProtocolVersion { major: 1, minor: 0, patch: 0 }
}

/// `a` is an older version than `b`.
pub open spec fn older(a: ProtocolVersion, b: ProtocolVersion) -> bool {
    a.major < b.major || (a.major == b.major && (a.minor < b.minor || (a.minor == b.minor && a.patch
        < b.patch)))
}

/// The notation of a version.
pub open spec fn version_text(v: ProtocolVersion) -> Seq<char> {
    text::decimal(v.major as nat) + "."@ + text::decimal(v.minor as nat) + "."@ + text::decimal(
        v.patch as nat,
    )
}

/// A number in decimal notation without needless zeros, within 64 bits.
pub open spec fn is_component(s: Seq<char>) -> bool {
    s.len() > 0 && text::all_digits(s) && !(s.len() > 1 && s[0] == '0') && text::digits_value(s) <= u64::MAX
}

/// The version that a text is the notation of.
pub open spec fn version_of(s: Seq<char>) -> Option<ProtocolVersion> {
    let parts = text::split(s, '.');
    if parts.len() == 3 && is_component(parts[0]) && is_component(parts[1]) && is_component(parts[2]) {
        Some(
            ProtocolVersion {
                major: text::digits_value(parts[0]) as u64,
                minor: text::digits_value(parts[1]) as u64,
                patch: text::digits_value(parts[2]) as u64,
            },
        )
    } else {
        None
    }
}

/// Error returned for a non-canonical semantic protocol version.
#[derive(Clone, Debug, PartialEq, Eq)]
pub struct VersionParseError(pub String);

/// What is said of a text that is no version.
pub open spec fn parse_error_text(value: Seq<char>) -> Seq<char> {
    "invalid protocol version `"@ + value + "`; expected canonical major.minor.patch"@
}

impl VersionParseError {
    /// The text of the error.
    pub open spec fn text(self) -> Seq<char> {
        parse_error_text(self.0@)
    }

    /// Describes the error to a person.
    pub fn message(&self) -> (r: String)
        ensures
            r@ == self.text(),
    {
        text::cat3(
            "invalid protocol version `",
            self.0.as_str(),
            "`; expected canonical major.minor.patch",
        )
    }
}

/// Reads one component of a version.
fn parse_component(s: &str) -> (r: Option<u64>)
    ensures
        match r {
            Some(n) => is_component(s@) && n == text::digits_value(s@),
            None => !is_component(s@),
        },
{
    let chars = text::chars_of(s);
    if chars.len() == 0 || (chars.len() > 1 && chars[0] == '0') {
        return None;
    }
    if chars[0] == '+' {
        assert(!text::is_digit(s@[0]));
        return None;
    }
    text::parse_unsigned(s, u64::MAX)
}

impl ProtocolVersion {
    /// Construct a protocol version.
    pub fn new(major: u64, minor: u64, patch: u64) -> (r: ProtocolVersion)
        ensures
            r == (ProtocolVersion { major, minor, patch }),
    {
        ProtocolVersion { major, minor, patch }
    }

    /// The notation of the version.
    pub fn to_text(&self) -> (r: String)
        ensures
            r@ == version_text(*self),
    {
        text::cat5(
            text::number(self.major as u128).as_str(),
            ".",
            text::number(self.minor as u128).as_str(),
            ".",
            text::number(self.patch as u128).as_str(),
        )
    }

    /// Whether the version is older than another.
    pub fn is_older(&self, other: &ProtocolVersion) -> (r: bool)
        ensures
            r == older(*self, *other),
    {
        self.major < other.major || (self.major == other.major && (self.minor < other.minor || (self.minor
            == other.minor && self.patch < other.patch)))
    }

    /// Reads the canonical notation of a version.
    pub fn parse(value: &str) -> (r: Result<ProtocolVersion, VersionParseError>)
        ensures
            match r {
                Ok(v) => version_of(value@) == Some(v),
                Err(VersionParseError(s)) => s@ == value@ && version_of(value@) is None,
            },
    {
        let parts = text::split_at_char(value, '.');
        assert(text::texts(parts@) == text::split(value@, '.'));
        if parts.len() != 3 {
            return Err(VersionParseError(value.to_owned()));
        }
        assert(text::texts(parts@)[0] == parts@[0]@);
        assert(text::texts(parts@)[1] == parts@[1]@);
        assert(text::texts(parts@)[2] == parts@[2]@);
        match (
            parse_component(parts[0].as_str()),
            parse_component(parts[1].as_str()),
            parse_component(parts[2].as_str()),
        ) {
            (Some(major), Some(minor), Some(patch)) => Ok(ProtocolVersion { major, minor, patch }),
            _ => Err(VersionParseError(value.to_owned())),
        }
    }
}

impl std::str::FromStr for ProtocolVersion {
    type Err = VersionParseError;

    fn from_str(value: &str) -> Result<ProtocolVersion, VersionParseError> {
        ProtocolVersion::parse(value)
    }
}

/// The last digit of a number written behind others.
proof fn lemma_decimal_value(n: nat)
    ensures
        text::digits_value(text::decimal(n)) == n,
        text::all_digits(text::decimal(n)),
        text::decimal(n).len() > 0,
        n > 0 ==> text::decimal(n)[0] != '0',
        n == 0 ==> text::decimal(n).len() == 1,
    decreases n,
{
    assert(text::digit_value(text::digit_char(n % 10)) == n % 10);
    assert(text::digits_value(Seq::<char>::empty()) == 0);
    if n < 10 {
        assert(text::decimal(n).drop_last() =~= Seq::<char>::empty());
        assert(text::decimal(n).last() == text::digit_char(n % 10));
    } else {
        lemma_decimal_value(n / 10);
        assert(text::decimal(n).last() == text::digit_char(n % 10));
        assert(text::decimal(n).drop_last() =~= text::decimal(n / 10));
    }
}

/// A text without the separator splits into itself.
proof fn lemma_split_plain(s: Seq<char>, c: char)
    requires
        !s.contains(c),
    ensures
        text::split(s, c) == seq![s],
{
    text::lemma_first_index(s, c);
}

/// A text without the separator, the separator and more split in two at it.
proof fn lemma_split_head(a: Seq<char>, c: char, rest: Seq<char>)
    requires
        !a.contains(c),
    ensures
        text::split(a + seq![c] + rest, c) == seq![a] + text::split(rest, c),
{
    let s = a + seq![c] + rest;
    text::lemma_first_index(s, c);
    let at = text::first_index(s, c);
    assert(s[a.len() as int] == c);
    if at < a.len() {
        assert(a[at] == s[at]);
        assert(a.contains(c));
    }
    assert(at == a.len());
    assert(s.subrange(0, at) =~= a);
    assert(s.subrange(at + 1, s.len() as int) =~= rest);
}

/// Every version is read back from its notation.
pub proof fn version_round_trip(v: ProtocolVersion)
    ensures
        version_of(version_text(v)) == Some(v),
{
    let a = text::decimal(v.major as nat);
    let b = text::decimal(v.minor as nat);
    let c = text::decimal(v.patch as nat);
    lemma_decimal_value(v.major as nat);
    lemma_decimal_value(v.minor as nat);
    lemma_decimal_value(v.patch as nat);
    reveal_strlit(".");
    assert("."@ =~= seq!['.']);
    lemma_split_plain(c, '.');
    lemma_split_head(b, '.', c);
    lemma_split_head(a, '.', b + seq!['.'] + c);
    assert(version_text(v) =~= a + seq!['.'] + (b + seq!['.'] + c));
    assert(text::split(version_text(v), '.') =~= seq![a, b, c]);
}

/// Digits without needless zeros are the notation of their number.
proof fn lemma_digits_are_decimal(s: Seq<char>)
    requires
        s.len() > 0,
        text::all_digits(s),
        s.len() > 1 ==> s[0] != '0',
    ensures
        text::decimal(text::digits_value(s)) == s,
        s[0] != '0' ==> text::digits_value(s) > 0,
    decreases s.len(),
{
    let rest = s.drop_last();
    let n = text::digits_value(s);
    let d = text::digit_value(s.last());
    assert(text::is_digit(s[s.len() - 1]));
    assert(d < 10 && text::digit_char(d) == s.last());
    if s.len() == 1 {
        assert(rest =~= Seq::<char>::empty());
        assert(text::digits_value(rest) == 0);
        assert(n == d);
        assert(text::decimal(n) =~= s);
    } else {
        assert forall|i: int| 0 <= i < rest.len() implies text::is_digit(#[trigger] rest[i]) by {
            assert(rest[i] == s[i]);
        }
        assert(rest[0] == s[0]);
        lemma_digits_are_decimal(rest);
        let m = text::digits_value(rest);
        assert(m > 0 && n == m * 10 + d);
        assert(n / 10 == m && n % 10 == d);
        assert(text::decimal(n) =~= rest.push(s.last()));
        assert(rest.push(s.last()) =~= s);
    }
}

/// A text that is read as a version is the notation of that version.
pub proof fn notation_is_canonical(s: Seq<char>)
    requires
        version_of(s) is Some,
    ensures
        version_text(version_of(s)->0) == s,
{
    let parts = text::split(s, '.');
    lemma_digits_are_decimal(parts[0]);
    lemma_digits_are_decimal(parts[1]);
    lemma_digits_are_decimal(parts[2]);
    reveal_strlit(".");
    text::lemma_first_index(s, '.');
    let i = text::first_index(s, '.');
    assert(i < s.len());
    let rest = s.subrange(i + 1, s.len() as int);
    assert(parts =~= seq![s.subrange(0, i)] + text::split(rest, '.'));
    let more = text::split(rest, '.');
    assert(more[0] == parts[1] && more[1] == parts[2] && more.len() == 2);
    text::lemma_first_index(rest, '.');
    let j = text::first_index(rest, '.');
    assert(j < rest.len());
    let last = rest.subrange(j + 1, rest.len() as int);
    assert(more =~= seq![rest.subrange(0, j)] + text::split(last, '.'));
    let end = text::split(last, '.');
    assert(end.len() == 1 && end[0] == parts[2]);
    text::lemma_first_index(last, '.');
    if text::first_index(last, '.') < last.len() {
        text::lemma_split_not_empty(
            last.subrange(text::first_index(last, '.') + 1, last.len() as int),
            '.',
        );
    }
    assert(end[0] == last);
    assert(version_text(version_of(s)->0) =~= s);
}

/// Half-open semantic-version range accepted by a plugin.
#[derive(Clone, Copy, Debug, PartialEq, Eq, Structural)]
pub struct ProtocolRequirement {
    /// Oldest accepted version, inclusive.
    pub minimum: ProtocolVersion,
    /// First rejected version, exclusive. `None` means unbounded.
    pub maximum_exclusive: Option<ProtocolVersion>,
}

/// A version is in a half-open range.
pub open spec fn in_range(range: ProtocolRequirement, v: ProtocolVersion) -> bool {
    &&& !older(v, range.minimum)
    &&& match range.maximum_exclusive {
        Some(maximum) => older(v, maximum),
        None => true,
    }
}

impl ProtocolRequirement {
    /// A range containing every version with the same major component.
    pub fn compatible_with(version: ProtocolVersion) -> (r: ProtocolRequirement)
        requires
            version.major < u64::MAX,
        ensures
            forall|v: ProtocolVersion| in_range(r, v) <==> v.major == version.major,
            r.minimum == (ProtocolVersion { major: version.major, minor: 0, patch: 0 }),
            r.maximum_exclusive == Some(
                ProtocolVersion { major: (version.major + 1) as u64, minor: 0, patch: 0 },
            ),
    {
        ProtocolRequirement {
            minimum: ProtocolVersion { major: version.major, minor: 0, patch: 0 },
            maximum_exclusive: Some(
                ProtocolVersion { major: version.major + 1, minor: 0, patch: 0 },
            ),
        }
    }

    /// Whether `version` is in this half-open range.
    pub fn contains(&self, version: ProtocolVersion) -> (r: bool)
        ensures
            r == in_range(*self, version),
    {
        if version.is_older(&self.minimum) {
            return false;
        }
        match self.maximum_exclusive {
            Some(maximum) => version.is_older(&maximum),
            None => true,
        }
    }
}

impl Default for ProtocolRequirement {
    fn default() -> (r: ProtocolRequirement)
        ensures
            forall|v: ProtocolVersion| in_range(r, v) <==> v.major == 1,
            r.minimum == current_version(),
            r.maximum_exclusive == Some(ProtocolVersion { major: 2, minor: 0, patch: 0 }),
    {
        ProtocolRequirement::compatible_with(protocol_version())
    }
}

/// The exact version implemented by a plugin and the core versions it accepts.
#[derive(Clone, Copy, Debug, PartialEq, Eq, Structural)]
pub struct ProtocolCompatibility {
    /// Exact wire version emitted by the plugin.
    pub version: ProtocolVersion,
    /// Core protocol versions with which the plugin can negotiate.
    pub requires: ProtocolRequirement,
}

impl Default for ProtocolCompatibility {
    fn default() -> (r: ProtocolCompatibility)
        ensures
            r.version == current_version(),
            forall|v: ProtocolVersion| in_range(r.requires, v) <==> v.major == 1,
            r.requires.minimum == current_version(),
    {
        ProtocolCompatibility { version: protocol_version(), requires: ProtocolRequirement::default() }
    }
}

/// Versions are ordered by their major part, then the minor one, then the patch: of two versions
/// that differ exactly one is older, and the order carries over.
pub proof fn versions_are_ordered(a: ProtocolVersion, b: ProtocolVersion, c: ProtocolVersion)
    ensures
        a.major < b.major ==> older(a, b),
        a.major == b.major && a.minor < b.minor ==> older(a, b),
        a.major == b.major && a.minor == b.minor && a.patch < b.patch ==> older(a, b),
        !older(a, a),
        !(older(a, b) && older(b, a)),
        a != b ==> older(a, b) || older(b, a),
        older(a, b) && older(b, c) ==> older(a, c),
{
}

/// A range holds its least version, not the one that it ends before, and every version between
/// two that it holds.
pub proof fn ranges_hold_what_is_between(
    range: ProtocolRequirement,
    low: ProtocolVersion,
    v: ProtocolVersion,
    high: ProtocolVersion,
)
    ensures
        range.maximum_exclusive is None ==> in_range(range, range.minimum),
        range.maximum_exclusive matches Some(end) ==> !in_range(range, end) && (older(range.minimum, end)
            ==> in_range(range, range.minimum)),
        older(v, range.minimum) ==> !in_range(range, v),
        in_range(range, low) && in_range(range, high) && !older(v, low) && !older(high, v) ==> in_range(range, v),
        range.maximum_exclusive is None && in_range(range, low) && older(low, v) ==> in_range(range, v),
{
}

} // verus!

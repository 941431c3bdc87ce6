//! IP addresses and their notation.

use vstd::prelude::*;

use crate::text;

verus! {

/// An IP address.
#[derive(Clone, Copy, Debug, PartialEq, Eq)]
pub enum IpAddress {
    /// Four octets.
    V4([u8; 4]),
    /// Eight groups of sixteen bits.
    V6([u16; 8]),
}

/// The model of [`IpAddress`].
pub enum IpV {
    V4(Seq<u8>),
    V6(Seq<u16>),
}

impl View for IpAddress {
    type V = IpV;

    open spec fn view(&self) -> IpV {
        match self {
            IpAddress::V4(octets) => IpV::V4(octets@),
            IpAddress::V6(groups) => IpV::V6(groups@),
        }
    }
}

// ---------------------------------------------------------------------------
// Reading
// ---------------------------------------------------------------------------

/// A decimal number up to 255 without needless zeros.
pub open spec fn is_octet(s: Seq<char>) -> bool {
    1 <= s.len() <= 3 && text::all_digits(s) && !(s.len() > 1 && s[0] == '0') && text::digits_value(s) <= 255
}

/// The octets of the dotted notation.
pub open spec fn ipv4_of(s: Seq<char>) -> Option<Seq<u8>> {
    let parts = text::split(s, '.');
    if parts.len() == 4 && is_octet(parts[0]) && is_octet(parts[1]) && is_octet(parts[2]) && is_octet(
        parts[3],
    ) {
        Some(Seq::new(4, |i: int| text::digits_value(parts[i]) as u8))
    } else {
        None
    }
}

/// The value of a hexadecimal digit.
pub open spec fn hex_value(c: char) -> nat {
    if text::is_digit(c) {
        ((c as u32) - ('0' as u32)) as nat
    } else if 'a' <= c {
        ((c as u32) - ('a' as u32) + 10) as nat
    } else {
        ((c as u32) - ('A' as u32) + 10) as nat
    }
}

/// The number that hexadecimal digits stand for.
pub open spec fn hex_number(s: Seq<char>) -> nat
    decreases s.len(),
{
    if s.len() == 0 {
        0
    } else {
        hex_number(s.drop_last()) * 16 + hex_value(s.last())
    }
}

/// One to four hexadecimal digits.
pub open spec fn is_group(s: Seq<char>) -> bool {
    1 <= s.len() <= 4 && text::all_hex(s)
}

/// The groups of the parts between colons; the last part may be a dotted IPv4 address,
/// which is two groups, where that is allowed.
pub open spec fn groups_of(parts: Seq<Seq<char>>, dotted: bool) -> Option<Seq<u16>>
    decreases parts.len(),
{
    if parts.len() == 0 {
        Some(Seq::empty())
    } else {
        match (groups_of(parts.drop_last(), false), ipv4_of(parts.last())) {
            (None, _) => None,
            (Some(before), Some(octets)) => if dotted {
                Some(
                    before.push((octets[0] * 256 + octets[1]) as u16).push(
                        (octets[2] * 256 + octets[3]) as u16,
                    ),
                )
            } else {
                None
            },
            (Some(before), None) => if is_group(parts.last()) {
                Some(before.push(hex_number(parts.last()) as u16))
            } else {
                None
            },
        }
    }
}

/// The groups on one side of a double colon: none where the side is empty.
pub open spec fn side_groups(s: Seq<char>, dotted: bool) -> Option<Seq<u16>> {
    if s.len() == 0 {
        Some(Seq::empty())
    } else {
        groups_of(text::split(s, ':'), dotted)
    }
}

/// The place of the first double colon, or the length where there is none.
pub open spec fn double_colon(s: Seq<char>) -> int
    decreases s.len(),
{
    if s.len() == 0 || (s.len() >= 2 && s[0] == ':' && s[1] == ':') {
        0
    } else {
        1 + double_colon(s.subrange(1, s.len() as int))
    }
}

/// The groups of the colon notation: eight, or fewer around one double colon that stands
/// for at least one zero group.
pub open spec fn ipv6_of(s: Seq<char>) -> Option<Seq<u16>> {
    let at = double_colon(s);
    if at >= s.len() {
        match side_groups(s, true) {
            Some(groups) => if groups.len() == 8 {
                Some(groups)
            } else {
                None
            },
            None => None,
        }
    } else {
        match (side_groups(s.subrange(0, at), false), side_groups(s.subrange(at + 2, s.len() as int), true)) {
            (Some(head), Some(tail)) => if head.len() + tail.len() <= 7 {
                Some(head + Seq::new((8 - head.len() - tail.len()) as nat, |i: int| 0u16) + tail)
            } else {
                None
            },
            _ => None,
        }
    }
}

/// The address that a text is the notation of.
pub open spec fn ip_of(s: Seq<char>) -> Option<IpV> {
    match ipv4_of(s) {
        Some(octets) => Some(IpV::V4(octets)),
        None => match ipv6_of(s) {
            Some(groups) => Some(IpV::V6(groups)),
            None => None,
        },
    }
}

/// Reads one octet.
fn read_octet(s: &str) -> (r: Option<u8>)
    ensures
        match r {
            Some(n) => is_octet(s@) && n == text::digits_value(s@),
            None => !is_octet(s@),
        },
{
    let chars = text::chars_of(s);
    if chars.len() == 0 || chars.len() > 3 || (chars.len() > 1 && chars[0] == '0') {
        return None;
    }
    if chars[0] == '+' {
        assert(!text::is_digit(s@[0]));
        return None;
    }
    match text::parse_unsigned(s, 255) {
        Some(n) => Some(n as u8),
        None => None,
    }
}

/// Reads the dotted notation.
pub fn parse_ipv4(s: &str) -> (r: Option<[u8; 4]>)
    ensures
        match (r, ipv4_of(s@)) {
            (Some(octets), Some(model)) => octets@ == model,
            (None, None) => true,
            _ => false,
        },
{
    let parts = text::split_at_char(s, '.');
    let ghost model = text::split(s@, '.');
    assert(text::texts(parts@) == model);
    if parts.len() != 4 {
        return None;
    }
    assert(model[0] == parts@[0]@ && model[1] == parts@[1]@ && model[2] == parts@[2]@ && model[3]
        == parts@[3]@);
    match (
        read_octet(parts[0].as_str()),
        read_octet(parts[1].as_str()),
        read_octet(parts[2].as_str()),
        read_octet(parts[3].as_str()),
    ) {
        (Some(a), Some(b), Some(c), Some(d)) => {
            let octets: [u8; 4] = [a, b, c, d];
            assert(octets@ =~= ipv4_of(s@)->0);
            Some(octets)
        },
        _ => None,
    }
}

/// Hexadecimal digits stand for a number below sixteen to their count.
proof fn lemma_hex_bound(s: Seq<char>)
    requires
        text::all_hex(s),
        s.len() <= 4,
    ensures
        s.len() == 0 ==> hex_number(s) < 1,
        s.len() == 1 ==> hex_number(s) < 16,
        s.len() == 2 ==> hex_number(s) < 256,
        s.len() == 3 ==> hex_number(s) < 4096,
        s.len() == 4 ==> hex_number(s) < 65536,
    decreases s.len(),
{
    if s.len() > 0 {
        assert(text::is_hex(s.last()));
        assert forall|i: int| 0 <= i < s.drop_last().len() implies text::is_hex(
            #[trigger] s.drop_last()[i],
        ) by {
            assert(text::is_hex(s[i]));
        }
        lemma_hex_bound(s.drop_last());
    }
}

/// Reads one group.
fn read_group(s: &str) -> (r: Option<u16>)
    ensures
        match r {
            Some(n) => is_group(s@) && n == hex_number(s@),
            None => !is_group(s@),
        },
{
    let chars = text::chars_of(s);
    if chars.len() == 0 || chars.len() > 4 || !text::all_hex_digits(s) {
        return None;
    }
    let mut n: u32 = 0;
    let mut i: usize = 0;
    assert(chars@.take(0) =~= Seq::<char>::empty());
    while i < chars.len()
        invariant
            chars@ == s@,
            i <= chars@.len() <= 4,
            text::all_hex(s@),
            n == hex_number(chars@.take(i as int)),
        decreases chars.len() - i,
    {
        let c = chars[i];
        proof {
            assert(text::is_hex(s@[i as int]));
            assert(chars@.take(i + 1).drop_last() =~= chars@.take(i as int));
            let before = chars@.take(i as int);
            assert forall|k: int| 0 <= k < before.len() implies text::is_hex(#[trigger] before[k]) by {
                assert(text::is_hex(s@[k]));
            }
            lemma_hex_bound(before);
        }
        let d: u32 = if text::digit(c) {
            (c as u8 - 48) as u32
        } else if 'a' <= c {
            (c as u8 - 87) as u32
        } else {
            (c as u8 - 55) as u32
        };
        n = n * 16 + d;
        i += 1;
    }
    assert(chars@.take(chars@.len() as int) =~= s@);
    proof {
        lemma_hex_bound(s@);
    }
    Some(n as u16)
}

/// Reads the groups between colons.
fn read_groups(s: &str, dotted: bool) -> (r: Option<Vec<u16>>)
    ensures
        match (r, side_groups(s@, dotted)) {
            (Some(groups), Some(model)) => groups@ == model,
            (None, None) => true,
            _ => false,
        },
{
    let mut out: Vec<u16> = Vec::new();
    if s.is_empty() {
        return Some(out);
    }
    let parts = text::split_at_char(s, ':');
    let ghost model = text::split(s@, ':');
    let mut i: usize = 0;
    assert(model.take(0) =~= Seq::<Seq<char>>::empty());
    assert(text::texts(parts@).len() == model.len());
    proof {
        text::lemma_split_not_empty(s@, ':');
    }
    while i + 1 < parts.len()
        invariant
            text::texts(parts@) == model,
            model == text::split(s@, ':'),
            s@.len() > 0,
            1 <= parts@.len(),
            i < parts@.len(),
            groups_of(model.take(i as int), false) == Some(out@),
        decreases parts.len() - i,
    {
        let part = parts[i].as_str();
        proof {
            assert(part@ == model[i as int]);
            assert(model.take(i + 1).drop_last() =~= model.take(i as int));
            assert(model.take(i + 1).last() == part@);
        }
        if parse_ipv4(part).is_some() {
            proof {
                lemma_groups_fail(model, i + 1, dotted);
            }
            return None;
        }
        match read_group(part) {
            Some(n) => {
                out.push(n);
            },
            None => {
                proof {
                    lemma_groups_fail(model, i + 1, dotted);
                }
                return None;
            },
        }
        i += 1;
    }
    let last = parts[i].as_str();
    proof {
        assert(last@ == model[i as int]);
        assert(model.drop_last() =~= model.take(i as int));
        assert(model.last() == last@);
    }
    match parse_ipv4(last) {
        Some(octets) => {
            if !dotted {
                return None;
            }
            out.push(octets[0] as u16 * 256 + octets[1] as u16);
            out.push(octets[2] as u16 * 256 + octets[3] as u16);
            Some(out)
        },
        None => match read_group(last) {
            Some(n) => {
                out.push(n);
                Some(out)
            },
            None => None,
        },
    }
}

/// Where the first parts are no groups, more parts after them are none either.
proof fn lemma_groups_fail(parts: Seq<Seq<char>>, n: int, dotted: bool)
    requires
        0 <= n < parts.len(),
        groups_of(parts.take(n), false) is None,
    ensures
        groups_of(parts, dotted) is None,
    decreases parts.len(),
{
    let before = parts.drop_last();
    if n == parts.len() - 1 {
        assert(before =~= parts.take(n));
    } else {
        assert(before.take(n) =~= parts.take(n));
        lemma_groups_fail(before, n, false);
    }
}

/// Finds the first double colon.
fn find_double_colon(chars: &Vec<char>) -> (r: usize)
    ensures
        r == double_colon(chars@),
        r <= chars@.len(),
        r < chars@.len() ==> r + 2 <= chars@.len(),
{
    let mut i: usize = 0;
    assert(chars@.subrange(0, chars@.len() as int) =~= chars@);
    while i < chars.len() && !(chars.len() - i >= 2 && chars[i] == ':' && chars[i + 1] == ':')
        invariant
            i <= chars@.len(),
            i + double_colon(chars@.subrange(i as int, chars@.len() as int)) == double_colon(chars@),
        decreases chars.len() - i,
    {
        proof {
            let rest = chars@.subrange(i as int, chars@.len() as int);
            assert(rest.subrange(1, rest.len() as int) =~= chars@.subrange(i + 1, chars@.len() as int));
        }
        i += 1;
    }
    i
}

/// Eight groups as an array.
fn eight(groups: &Vec<u16>) -> (r: [u16; 8])
    requires
        groups@.len() == 8,
    ensures
        r@ == groups@,
{
    let r: [u16; 8] = [
        groups[0],
        groups[1],
        groups[2],
        groups[3],
        groups[4],
        groups[5],
        groups[6],
        groups[7],
    ];
    assert(r@ =~= groups@);
    r
}

/// Reads the colon notation.
pub fn parse_ipv6(s: &str) -> (r: Option<[u16; 8]>)
    ensures
        match (r, ipv6_of(s@)) {
            (Some(groups), Some(model)) => groups@ == model,
            (None, None) => true,
            _ => false,
        },
{
    let chars = text::chars_of(s);
    let at: usize = find_double_colon(&chars);
    if at >= chars.len() {
        return match read_groups(s, true) {
            Some(groups) => if groups.len() == 8 {
                Some(eight(&groups))
            } else {
                None
            },
            None => None,
        };
    }
    let left = text::string_of(&chars, 0, at);
    let right = text::string_of(&chars, at + 2, chars.len());
    match (read_groups(left.as_str(), false), read_groups(right.as_str(), true)) {
        (Some(head), Some(tail)) => {
            if head.len() > 7 || tail.len() > 7 - head.len() {
                return None;
            }
            let ghost model = ipv6_of(s@)->0;
            let total: usize = head.len() + tail.len();
            let mut all: Vec<u16> = Vec::new();
            let mut i: usize = 0;
            while i < 8
                invariant
                    i <= 8,
                    total == head@.len() + tail@.len(),
                    total <= 7,
                    all@.len() == i,
                    model == head@ + Seq::new((8 - head@.len() - tail@.len()) as nat, |i: int| 0u16) + tail@,
                    forall|k: int| 0 <= k < i ==> all@[k] == model[k],
                decreases 8 - i,
            {
                let g: u16 = if i < head.len() {
                    head[i]
                } else if i < 8 - tail.len() {
                    0
                } else {
                    tail[i - (8 - tail.len())]
                };
                all.push(g);
                i += 1;
            }
            assert(all@ =~= model);
            Some(eight(&all))
        },
        _ => None,
    }
}

/// Reads the notation of an address.
pub fn parse_ip(s: &str) -> (r: Option<IpAddress>)
    ensures
        match (r, ip_of(s@)) {
            (Some(address), Some(model)) => address@ == model,
            (None, None) => true,
            _ => false,
        },
{
    match parse_ipv4(s) {
        Some(octets) => Some(IpAddress::V4(octets)),
        None => match parse_ipv6(s) {
            Some(groups) => Some(IpAddress::V6(groups)),
            None => None,
        },
    }
}

// ---------------------------------------------------------------------------
// Kinds of addresses
// ---------------------------------------------------------------------------

/// The address of the machine itself.
pub open spec fn is_loopback_ip(ip: IpV) -> bool {
    match ip {
        IpV::V4(octets) => octets[0] == 127,
        IpV::V6(groups) => groups == seq![0u16, 0, 0, 0, 0, 0, 0, 1],
    }
}

/// Tests for the address of the machine itself.
pub fn is_loopback(address: IpAddress) -> (r: bool)
    ensures
        r == is_loopback_ip(address@),
{
    match address {
        IpAddress::V4(octets) => octets[0] == 127,
        IpAddress::V6(g) => {
            let r = g[0] == 0 && g[1] == 0 && g[2] == 0 && g[3] == 0 && g[4] == 0 && g[5] == 0 && g[6] == 0
                && g[7] == 1;
            proof {
                if r {
                    assert(g@ =~= seq![0u16, 0, 0, 0, 0, 0, 0, 1]);
                }
            }
            r
        },
    }
}

/// An IPv4 address that the public network can route: none of the private, loopback,
/// link-local, broadcast, documentation, multicast and zero networks.
pub open spec fn is_public(octets: Seq<u8>) -> bool {
    &&& octets[0] != 10
    &&& !(octets[0] == 172 && 16 <= octets[1] <= 31)
    &&& !(octets[0] == 192 && octets[1] == 168)
    &&& octets[0] != 127
    &&& !(octets[0] == 169 && octets[1] == 254)
    &&& !(octets[0] == 255 && octets[1] == 255 && octets[2] == 255 && octets[3] == 255)
    &&& !(octets[0] == 192 && octets[1] == 0 && octets[2] == 2)
    &&& !(octets[0] == 198 && octets[1] == 51 && octets[2] == 100)
    &&& !(octets[0] == 203 && octets[1] == 0 && octets[2] == 113)
    &&& !(224 <= octets[0] <= 239)
    &&& octets[0] != 0
}

/// Tests for an IPv4 address that the public network can route.
pub fn is_public_ipv4(o: [u8; 4]) -> (r: bool)
    ensures
        r == is_public(o@),
{
    !(o[0] == 10 || (o[0] == 172 && o[1] >= 16 && o[1] <= 31) || (o[0] == 192 && o[1] == 168) || o[0] == 127
        || (o[0] == 169 && o[1] == 254) || (o[0] == 255 && o[1] == 255 && o[2] == 255 && o[3] == 255) || (
    o[0] == 192 && o[1] == 0 && o[2] == 2) || (o[0] == 198 && o[1] == 51 && o[2] == 100) || (o[0] == 203
        && o[1] == 0 && o[2] == 113) || (o[0] >= 224 && o[0] <= 239) || o[0] == 0)
}

// ---------------------------------------------------------------------------
// Writing
// ---------------------------------------------------------------------------

/// The dotted notation.
pub open spec fn ipv4_text(o: Seq<u8>) -> Seq<char> {
    text::decimal(o[0] as nat) + "."@ + text::decimal(o[1] as nat) + "."@ + text::decimal(o[2] as nat)
        + "."@ + text::decimal(o[3] as nat)
}

/// Writes the dotted notation.
pub fn ipv4_notation(o: [u8; 4]) -> (r: String)
    ensures
        r@ == ipv4_text(o@),
{
    let head = text::cat5(
        text::number(o[0] as u128).as_str(),
        ".",
        text::number(o[1] as u128).as_str(),
        ".",
        text::number(o[2] as u128).as_str(),
    );
    text::cat3(head.as_str(), ".", text::number(o[3] as u128).as_str())
}

/// The lowercase hexadecimal notation of a number, without leading zeros.
pub open spec fn hex_notation(n: nat) -> Seq<char>
    decreases n,
{
    if n < 16 {
        seq![crate::outside::hex_char(n)]
    } else {
        hex_notation(n / 16).push(crate::outside::hex_char(n % 16))
    }
}

/// Writes a number in hexadecimal notation.
fn write_hex(n: u16) -> (r: String)
    ensures
        r@ == hex_notation(n as nat),
    decreases n,
{
    let d: u8 = (n % 16) as u8;
    let c = if d < 10 {
        (48u8 + d) as char
    } else {
        (87u8 + d) as char
    };
    if n < 16 {
        let mut out = String::new();
        out.push(c);
        assert(out@ =~= hex_notation(n as nat));
        out
    } else {
        let mut out = write_hex(n / 16);
        out.push(c);
        out
    }
}

/// Groups with colons between them.
pub open spec fn group_list(groups: Seq<u16>) -> Seq<char>
    decreases groups.len(),
{
    if groups.len() == 0 {
        Seq::empty()
    } else if groups.len() == 1 {
        hex_notation(groups[0] as nat)
    } else {
        group_list(groups.drop_last()) + ":"@ + hex_notation(groups.last() as nat)
    }
}

/// The number of zero groups from a place on.
pub open spec fn zeros_from(groups: Seq<u16>, i: int) -> nat
    decreases groups.len() - i,
{
    if 0 <= i < groups.len() && groups[i] == 0 {
        1 + zeros_from(groups, i + 1)
    } else {
        0
    }
}

/// The first place below `n` from which the most zero groups follow.
pub open spec fn longest_zeros(groups: Seq<u16>, n: int) -> int
    decreases n,
{
    if n <= 0 {
        0
    } else {
        let best = longest_zeros(groups, n - 1);
        if zeros_from(groups, n - 1) > zeros_from(groups, best) {
            n - 1
        } else {
            best
        }
    }
}

/// The canonical colon notation: the longest run of at least two zero groups becomes a
/// double colon, and an address that stands for an IPv4 address ends in its notation.
pub open spec fn ipv6_text(groups: Seq<u16>) -> Seq<char> {
    let at = longest_zeros(groups, 8);
    let run = zeros_from(groups, at) as int;
    if groups.subrange(0, 5) == seq![0u16, 0, 0, 0, 0] && groups[5] == 65535 {
        "::ffff:"@ + ipv4_text(
            seq![
                (groups[6] / 256) as u8,
                (groups[6] % 256) as u8,
                (groups[7] / 256) as u8,
                (groups[7] % 256) as u8,
            ],
        )
    } else if run > 1 {
        group_list(groups.subrange(0, at)) + "::"@ + group_list(groups.subrange(at + run, 8))
    } else {
        group_list(groups)
    }
}

/// Writes groups `from..to` with colons between them.
fn write_groups(groups: &[u16; 8], from: usize, to: usize) -> (r: String)
    requires
        from <= to <= 8,
    ensures
        r@ == group_list(groups@.subrange(from as int, to as int)),
{
    let mut out = String::new();
    let mut i: usize = from;
    while i < to
        invariant
            from <= i <= to <= 8,
            out@ == group_list(groups@.subrange(from as int, i as int)),
        decreases to - i,
    {
        let part = write_hex(groups[i]);
        proof {
            let upto = groups@.subrange(from as int, i + 1);
            assert(upto.drop_last() =~= groups@.subrange(from as int, i as int));
            assert(upto.last() == groups@[i as int]);
        }
        out = if i == from {
            part
        } else {
            text::cat3(out.as_str(), ":", part.as_str())
        };
        i += 1;
    }
    out
}

/// Counts the zero groups from a place on.
fn count_zeros(groups: &[u16; 8], from: usize) -> (r: usize)
    requires
        from <= 8,
    ensures
        r == zeros_from(groups@, from as int),
        r <= 8 - from,
    decreases 8 - from,
{
    if from < 8 && groups[from] == 0 {
        1 + count_zeros(groups, from + 1)
    } else {
        0
    }
}

/// Writes the canonical colon notation.
pub fn ipv6_notation(groups: [u16; 8]) -> (r: String)
    ensures
        r@ == ipv6_text(groups@),
{
    if groups[0] == 0 && groups[1] == 0 && groups[2] == 0 && groups[3] == 0 && groups[4] == 0 && groups[5]
        == 65535 {
        let octets: [u8; 4] = [
            (groups[6] / 256) as u8,
            (groups[6] % 256) as u8,
            (groups[7] / 256) as u8,
            (groups[7] % 256) as u8,
        ];
        proof {
            assert(groups@.subrange(0, 5) =~= seq![0u16, 0, 0, 0, 0]);
            assert(octets@ =~= seq![
                (groups@[6] / 256) as u8,
                (groups@[6] % 256) as u8,
                (groups@[7] / 256) as u8,
                (groups@[7] % 256) as u8,
            ]);
        }
        return text::cat2("::ffff:", ipv4_notation(octets).as_str());
    }
    proof {
        let head = groups@.subrange(0, 5);
        if head == seq![0u16, 0, 0, 0, 0] && groups@[5] == 65535 {
            assert(head[0] == groups@[0] && head[1] == groups@[1] && head[2] == groups@[2] && head[3]
                == groups@[3] && head[4] == groups@[4]);
        }
    }
    let mut at: usize = 0;
    let mut run: usize = count_zeros(&groups, 0);
    let mut i: usize = 0;
    while i < 8
        invariant
            i <= 8,
            at <= 8,
            at == longest_zeros(groups@, i as int),
            run == zeros_from(groups@, at as int),
            run <= 8 - at,
        decreases 8 - i,
    {
        let here: usize = count_zeros(&groups, i);
        if here > run {
            at = i;
            run = here;
        }
        i += 1;
    }
    if run > 1 {
        let head = write_groups(&groups, 0, at);
        let tail = write_groups(&groups, at + run, 8);
        text::cat3(head.as_str(), "::", tail.as_str())
    } else {
        assert(groups@.subrange(0, 8) =~= groups@);
        write_groups(&groups, 0, 8)
    }
}

/// The canonical notation of an address.
pub open spec fn ip_text(ip: IpV) -> Seq<char> {
    match ip {
        IpV::V4(octets) => ipv4_text(octets),
        IpV::V6(groups) => ipv6_text(groups),
    }
}

/// Writes the canonical notation of an address.
pub fn ip_notation(address: IpAddress) -> (r: String)
    ensures
        r@ == ip_text(address@),
{
    match address {
        IpAddress::V4(octets) => ipv4_notation(octets),
        IpAddress::V6(groups) => ipv6_notation(groups),
    }
}

/// The notation of a byte is an octet.
proof fn lemma_octet(n: u8)
    ensures
        is_octet(text::decimal(n as nat)),
        text::digits_value(text::decimal(n as nat)) == n,
        !text::decimal(n as nat).contains('.'),
{
    let s = text::decimal(n as nat);
    text::lemma_decimal(n as nat);
    let tens: nat = (n / 10) as nat;
    if n < 10 {
        assert(s.len() == 1);
    } else if n < 100 {
        assert(text::decimal(tens).len() == 1);
        assert(s.len() == 2);
    } else {
        assert(tens >= 10);
        assert(text::decimal((n / 10 / 10) as nat).len() == 1);
        assert(text::decimal(tens).len() == 2);
        assert(s.len() == 3);
    }
    if s.contains('.') {
        let i = choose|i: int| 0 <= i < s.len() && s[i] == '.';
        assert(text::is_digit(s[i]));
    }
}

/// Four parts behind each other, with dots between them.
proof fn lemma_four_parts(a: Seq<char>, b: Seq<char>, c: Seq<char>, d: Seq<char>)
    requires
        !a.contains('.'),
        !b.contains('.'),
        !c.contains('.'),
        !d.contains('.'),
    ensures
        text::split(a + seq!['.'] + b + seq!['.'] + c + seq!['.'] + d, '.') == seq![a, b, c, d],
{
    let cd = c + seq!['.'] + d;
    let bcd = b + seq!['.'] + cd;
    text::first_parts_are_split_off(d, '.', d);
    text::first_parts_are_split_off(c, '.', d);
    text::first_parts_are_split_off(b, '.', cd);
    text::first_parts_are_split_off(a, '.', bcd);
    let whole = a + seq!['.'] + b + seq!['.'] + c + seq!['.'] + d;
    assert(whole =~= a + seq!['.'] + bcd);
    assert(text::split(d, '.') == seq![d]);
    assert(text::split(cd, '.') =~= seq![c, d]);
    assert(text::split(bcd, '.') =~= seq![b, c, d]);
    assert(text::split(whole, '.') =~= seq![a, b, c, d]);
}

/// The four bytes of an address are read back from its dotted notation.
pub proof fn addresses_are_read_back(o: Seq<u8>)
    requires
        o.len() == 4,
    ensures
        ipv4_of(ipv4_text(o)) == Some(o),
        ip_of(ipv4_text(o)) == Some(IpV::V4(o)),
{
    let a = text::decimal(o[0] as nat);
    let b = text::decimal(o[1] as nat);
    let c = text::decimal(o[2] as nat);
    let d = text::decimal(o[3] as nat);
    lemma_octet(o[0]);
    lemma_octet(o[1]);
    lemma_octet(o[2]);
    lemma_octet(o[3]);
    lemma_four_parts(a, b, c, d);
    reveal_strlit(".");
    assert("."@ =~= seq!['.']);
    let parts = text::split(ipv4_text(o), '.');
    assert(parts == seq![a, b, c, d]);
    assert(parts[0] == a && parts[1] == b && parts[2] == c && parts[3] == d);
    assert(ipv4_of(ipv4_text(o))->0 =~= o);
}

/// Addresses of private networks, of the machine itself, of a link, of documentation, of
/// multicast and of broadcast are not public.
pub proof fn special_addresses_are_not_public(o: Seq<u8>)
    requires
        o.len() == 4,
    ensures
        ({
            let n = o[0] as int * 16777216 + o[1] as int * 65536 + o[2] as int * 256 + o[3] as int;
            is_public(o) <==> {
                &&& !(0x0a000000 <= n <= 0x0affffff)
                &&& !(0xac100000 <= n <= 0xac1fffff)
                &&& !(0xc0a80000 <= n <= 0xc0a8ffff)
                &&& !(0x7f000000 <= n <= 0x7fffffff)
                &&& !(0xa9fe0000 <= n <= 0xa9feffff)
                &&& n != 0xffffffff
                &&& !(0xc0000200 <= n <= 0xc00002ff)
                &&& !(0xc6336400 <= n <= 0xc63364ff)
                &&& !(0xcb007100 <= n <= 0xcb0071ff)
                &&& !(0xe0000000 <= n <= 0xefffffff)
                &&& !(0 <= n <= 0x00ffffff)
            }
        }),
{
}

/// The machine itself is reached under `127.0.0.0/8` and `::1`.
pub proof fn loopback_is_the_machine_itself(octets: Seq<u8>, groups: Seq<u16>)
    requires
        octets.len() == 4,
        groups.len() == 8,
    ensures
        is_loopback_ip(IpV::V4(octets)) <==> octets[0] == 127,
        is_loopback_ip(IpV::V6(groups)) <==> groups[7] == 1 && forall|i: int| 0 <= i < 7 ==> #[trigger] groups[i] == 0,
{
    if groups[7] == 1 && forall|i: int| 0 <= i < 7 ==> #[trigger] groups[i] == 0 {
        assert(groups =~= seq![0u16, 0, 0, 0, 0, 0, 0, 1]);
    }
}

} // verus!

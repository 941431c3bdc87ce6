//! Deterministic DNS and provider-safe naming.

use vstd::prelude::*;

use crate::outside;
use crate::text;

verus! {

/// Maximum number of bytes in one DNS label.
pub const DNS_LABEL_MAX_BYTES: usize = 63;

/// Maximum number of bytes in a fully-qualified DNS name without a trailing dot.
pub const DNS_NAME_MAX_BYTES: usize = 253;

/// Digest bytes that a hashed label carries.
const SHORT_HASH_BYTES: usize = 4;

/// Room for the readable part of a hashed label.
pub const HASHED_LABEL_PREFIX_MAX_BYTES: usize = 54;

/// A DNS or provider-safe name could not be constructed.
#[derive(Clone, Debug, PartialEq, Eq)]
#[non_exhaustive]
pub enum NamingError {
    /// A nil UUID cannot identify a project.
    NilProjectId,
    /// A semantic value used to form a name is empty.
    Empty {
        /// The kind of value, for example `branch` or `app`.
        kind: &'static str,
    },
    /// A complete DNS name exceeds the protocol limit.
    DnsNameTooLong {
        /// Actual encoded length, excluding a trailing dot.
        length: usize,
        /// Maximum accepted encoded length.
        maximum: usize,
    },
    /// A DNS suffix other than `sslip.io` or `nip.io` was requested.
    UnsupportedIpDnsDomain(String),
}

impl NamingError {
    /// The text of the error.
    pub open spec fn text(self) -> Seq<char> {
        match self {
            NamingError::NilProjectId => "project UUID must not be nil"@,
            NamingError::Empty { kind } => kind@ + " must not be empty"@,
            NamingError::DnsNameTooLong { length, maximum } => "DNS name is "@ + text::decimal(
                length as nat,
            ) + " bytes; the maximum is "@ + text::decimal(maximum as nat),
            NamingError::UnsupportedIpDnsDomain(domain) => "unsupported IP DNS domain `"@ + domain@
                + "`; expected `sslip.io` or `nip.io`"@,
        }
    }

    /// Describes the error to a person.
    pub fn message(&self) -> (r: String)
        ensures
            r@ == self.text(),
    {
        match self {
            NamingError::NilProjectId => "project UUID must not be nil".to_owned(),
            NamingError::Empty { kind } => text::cat2(kind, " must not be empty"),
            NamingError::DnsNameTooLong { length, maximum } => text::cat4(
                "DNS name is ",
                text::number(*length as u128).as_str(),
                " bytes; the maximum is ",
                text::number(*maximum as u128).as_str(),
            ),
            NamingError::UnsupportedIpDnsDomain(domain) => text::cat3(
                "unsupported IP DNS domain `",
                domain.as_str(),
                "`; expected `sslip.io` or `nip.io`",
            ),
        }
    }
}

/// The letters and digits of a name in lowercase, with one hyphen for each run of
/// other characters between them.
pub open spec fn normalized(name: Seq<char>) -> Seq<char>
    decreases name.len(),
{
    if name.len() == 0 {
        Seq::empty()
    } else {
        let before = normalized(name.drop_last());
        let c = name.last();
        if !text::is_alnum(c) {
            before
        } else if before.len() > 0 && !text::is_alnum(name[name.len() - 2]) {
            before.push('-').push(text::lower(c))
        } else {
            before.push(text::lower(c))
        }
    }
}

/// A text without its trailing hyphens.
pub open spec fn without_trailing_hyphens(s: Seq<char>) -> Seq<char>
    decreases s.len(),
{
    if s.len() > 0 && s.last() == '-' {
        without_trailing_hyphens(s.drop_last())
    } else {
        s
    }
}

/// The first eight hexadecimal digits of the SHA-256 digest of a text.
pub open spec fn short_hash(name: Seq<char>) -> Seq<char> {
    outside::hex_text(outside::sha256_of(vstd::utf8::encode_utf8(name)).subrange(0, 4))
}

/// The DNS label of a name: the name itself where it is one, else its normalized form,
/// shortened to leave room, with a hyphen and the hash of the name.
pub open spec fn label_of(name: Seq<char>) -> Seq<char> {
    let n = normalized(name);
    if n == name && n.len() <= DNS_LABEL_MAX_BYTES {
        n
    } else {
        let head = without_trailing_hyphens(
            n.take(if n.len() < HASHED_LABEL_PREFIX_MAX_BYTES { n.len() as int } else { 54 }),
        );
        head.push('-') + short_hash(name)
    }
}

/// A character that a DNS label may hold.
pub open spec fn is_label_char(c: char) -> bool {
    text::is_lower(c) || text::is_digit(c) || c == '-'
}

/// A lowercase DNS label: 1 to 63 letters, digits and hyphens, with a letter or digit
/// at either end.
pub open spec fn is_dns_label(s: Seq<char>) -> bool {
    &&& 1 <= s.len() <= DNS_LABEL_MAX_BYTES
    &&& forall|i: int| 0 <= i < s.len() ==> is_label_char(#[trigger] s[i])
    &&& s[0] != '-'
    &&& s.last() != '-'
}

/// What a normalized name holds.
proof fn lemma_normalized(name: Seq<char>)
    ensures
        forall|i: int| 0 <= i < normalized(name).len() ==> is_label_char(#[trigger] normalized(name)[i]),
        normalized(name).len() > 0 ==> normalized(name)[0] != '-' && normalized(name).last() != '-',
    decreases name.len(),
{
    if name.len() > 0 {
        lemma_normalized(name.drop_last());
    }
}

/// What is left when trailing hyphens go.
proof fn lemma_without_trailing_hyphens(s: Seq<char>)
    requires
        s.len() > 0,
        s[0] != '-',
        forall|i: int| 0 <= i < s.len() ==> is_label_char(#[trigger] s[i]),
    ensures
        1 <= without_trailing_hyphens(s).len() <= s.len(),
        without_trailing_hyphens(s)[0] == s[0],
        without_trailing_hyphens(s).last() != '-',
        forall|i: int|
            0 <= i < without_trailing_hyphens(s).len() ==> is_label_char(
                #[trigger] without_trailing_hyphens(s)[i],
            ),
    decreases s.len(),
{
    if s.last() == '-' {
        lemma_without_trailing_hyphens(s.drop_last());
    }
}

/// What a hexadecimal text holds.
pub proof fn lemma_hex_text(data: Seq<u8>)
    ensures
        outside::hex_text(data).len() == 2 * data.len(),
        forall|i: int|
            0 <= i < 2 * data.len() ==> is_label_char(#[trigger] outside::hex_text(data)[i])
                && outside::hex_text(data)[i] != '-',
{
}

/// Every label is a lowercase DNS label of at most 63 bytes.
pub proof fn label_is_dns_label(name: Seq<char>)
    requires
        normalized(name).len() > 0,
        outside::sha256_of(vstd::utf8::encode_utf8(name)).len() == 32,
    ensures
        is_dns_label(label_of(name)),
{
    let n = normalized(name);
    lemma_normalized(name);
    if !(n == name && n.len() <= DNS_LABEL_MAX_BYTES) {
        let cut = n.take(if n.len() < HASHED_LABEL_PREFIX_MAX_BYTES { n.len() as int } else { 54 });
        lemma_without_trailing_hyphens(cut);
        lemma_hex_text(outside::sha256_of(vstd::utf8::encode_utf8(name)).subrange(0, 4));
    }
}

/// A name that is a DNS label already, without two hyphens in a row, is its own label.
pub proof fn dns_label_is_unchanged(name: Seq<char>)
    requires
        is_dns_label(name),
        forall|i: int| 0 <= i < name.len() - 1 ==> !(#[trigger] name[i] == '-' && name[i + 1] == '-'),
    ensures
        label_of(name) == name,
{
    lemma_unchanged(name, name.len() as int);
    assert(name.take(name.len() as int) =~= name);
}

/// Normalizing the start of a DNS label without double hyphens drops at most a last hyphen.
proof fn lemma_unchanged(name: Seq<char>, n: int)
    requires
        is_dns_label(name),
        forall|i: int| 0 <= i < name.len() - 1 ==> !(#[trigger] name[i] == '-' && name[i + 1] == '-'),
        0 <= n <= name.len(),
    ensures
        normalized(name.take(n)) == (if n > 0 && name[n - 1] == '-' {
            name.take(n - 1)
        } else {
            name.take(n)
        }),
    decreases n,
{
    if n > 0 {
        let part = name.take(n);
        lemma_unchanged(name, n - 1);
        assert(part.drop_last() =~= name.take(n - 1));
        let c = name[n - 1];
        assert(is_label_char(c));
        if c == '-' {
            assert(name[n - 2] != '-');
        } else if n >= 2 && name[n - 2] == '-' {
            assert(normalized(part) =~= name.take(n - 2).push('-').push(c));
            assert(normalized(part) =~= name.take(n));
        } else {
            assert(normalized(part) =~= name.take(n - 1).push(c));
            assert(normalized(part) =~= name.take(n));
        }
    } else {
        assert(name.take(0) =~= Seq::<char>::empty());
    }
}

/// A lowercase DNS-safe label whose encoded size is at most 63 bytes.
#[derive(Debug, PartialEq, Eq, PartialOrd, Ord, Hash)]
pub struct DnsLabel {
    name: String,
}

impl Clone for DnsLabel {
    fn clone(&self) -> (r: DnsLabel)
        ensures
            r@ == self@,
    {
        proof {
            use_type_invariant(self);
        }
        DnsLabel { name: self.name.clone() }
    }
}

impl View for DnsLabel {
    type V = Seq<char>;

    closed spec fn view(&self) -> Seq<char> {
        self.name@
    }
}

impl DnsLabel {
    /// Every label holds a lowercase DNS label.
    #[verifier::type_invariant]
    closed spec fn valid(self) -> bool {
        is_dns_label(self.name@)
    }

    /// Normalizes an arbitrary semantic name into a collision-safe DNS label.
    ///
    /// Invalid character runs become one hyphen. If normalization changes the
    /// input, or truncation is necessary, the first eight hexadecimal
    /// characters of the input's SHA-256 digest are appended.
    ///
    /// # Errors
    ///
    /// Returns [`NamingError::Empty`] when `value` is empty or holds no ASCII
    /// letter or digit.
    pub fn new(value: &str) -> (r: Result<DnsLabel, NamingError>)
        ensures
            match r {
                Ok(label) => value@.len() > 0 && normalized(value@).len() > 0 && label@ == label_of(value@)
                    && is_dns_label(label@),
                Err(NamingError::Empty { kind }) => normalized(value@).len() == 0 && kind@ == (if value@.len()
                    == 0 {
                    "DNS label"@
                } else {
                    "normalized DNS label"@
                }),
                Err(_) => false,
            },
    {
        if value.is_empty() {
            return Err(NamingError::Empty { kind: "DNS label" });
        }
        let mut out = normalize(value);
        if out.len() == 0 {
            return Err(NamingError::Empty { kind: "normalized DNS label" });
        }
        let digest = outside::sha256(value.as_bytes());
        proof {
            lemma_normalized(value@);
            label_is_dns_label(value@);
        }
        let whole: usize = out.len();
        let plain = text::string_of(&out, 0, whole);
        assert(out@.subrange(0, whole as int) =~= out@);
        if whole <= DNS_LABEL_MAX_BYTES && text::same(plain.as_str(), value) {
            return Ok(DnsLabel { name: plain });
        }
        let mut kept: usize = if whole < HASHED_LABEL_PREFIX_MAX_BYTES {
            whole
        } else {
            HASHED_LABEL_PREFIX_MAX_BYTES
        };
        let ghost cut = out@.take(kept as int);
        while kept > 0 && out[kept - 1] == '-'
            invariant
                kept <= out@.len(),
                without_trailing_hyphens(out@.take(kept as int)) == without_trailing_hyphens(cut),
            decreases kept,
        {
            assert(out@.take(kept as int).drop_last() =~= out@.take(kept - 1));
            kept -= 1;
        }
        assert(out@.take(kept as int) =~= without_trailing_hyphens(cut));
        let mut name = text::string_of(&out, 0, kept);
        assert(out@.subrange(0, kept as int) =~= out@.take(kept as int));
        name.push('-');
        let short = outside::hex_encode(vstd::slice::slice_subrange(digest.as_slice(), 0, SHORT_HASH_BYTES));
        let full = name.concat(short.as_str());
        assert(full@ =~= label_of(value@));
        Ok(DnsLabel { name: full })
    }

    /// Returns the normalized label.
    pub fn as_str(&self) -> (r: &str)
        ensures
            r@ == self@,
            is_dns_label(r@),
    {
        proof {
            use_type_invariant(self);
        }
        self.name.as_str()
    }
}

/// The normalized form of a name.
fn normalize(value: &str) -> (r: Vec<char>)
    ensures
        r@ == normalized(value@),
{
    let chars = text::chars_of(value);
    let mut out: Vec<char> = Vec::new();
    let mut i: usize = 0;
    assert(value@.take(0) =~= Seq::<char>::empty());
    while i < chars.len()
        invariant
            chars@ == value@,
            i <= chars@.len(),
            out@ == normalized(value@.take(i as int)),
        decreases chars.len() - i,
    {
        let c = chars[i];
        proof {
            assert(value@.take(i + 1).drop_last() =~= value@.take(i as int));
            assert(value@.take(i + 1).last() == c);
        }
        if text::alnum(c) {
            if out.len() > 0 && i > 0 && !text::alnum(chars[i - 1]) {
                out.push('-');
            }
            out.push(text::lower_char(c));
        }
        i += 1;
    }
    assert(value@.take(value@.len() as int) =~= value@);
    out
}

/// The supported embedded-IP DNS suffixes.
#[derive(Clone, Copy, Debug, PartialEq, Eq, Hash, Structural)]
pub enum IpDnsDomain {
    /// `sslip.io`
    SslipIo,
    /// `nip.io`
    NipIo,
}

impl IpDnsDomain {
    /// The canonical DNS suffix.
    pub open spec fn text(self) -> Seq<char> {
        match self {
            IpDnsDomain::SslipIo => "sslip.io"@,
            IpDnsDomain::NipIo => "nip.io"@,
        }
    }

    /// Returns the canonical DNS suffix.
    pub fn as_str(self) -> (r: &'static str)
        ensures
            r@ == self.text(),
    {
        match self {
            IpDnsDomain::SslipIo => "sslip.io",
            IpDnsDomain::NipIo => "nip.io",
        }
    }

    /// Reads a DNS suffix.
    pub fn parse(value: &str) -> (r: Result<IpDnsDomain, NamingError>)
        ensures
            match r {
                Ok(domain) => value@ == domain.text(),
                Err(NamingError::UnsupportedIpDnsDomain(other)) => other@ == value@ && value@ != "sslip.io"@
                    && value@ != "nip.io"@,
                Err(_) => false,
            },
    {
        if text::same(value, "sslip.io") {
            Ok(IpDnsDomain::SslipIo)
        } else if text::same(value, "nip.io") {
            Ok(IpDnsDomain::NipIo)
        } else {
            Err(NamingError::UnsupportedIpDnsDomain(value.to_owned()))
        }
    }
}

impl std::str::FromStr for IpDnsDomain {
    type Err = NamingError;

    fn from_str(value: &str) -> Result<IpDnsDomain, NamingError> {
        IpDnsDomain::parse(value)
    }
}

/// Converts IPv4 octets to exactly eight lowercase hexadecimal characters.
pub fn ipv4_hex(address: [u8; 4]) -> (r: String)
    ensures
        r@ == outside::hex_text(address@),
        r@.len() == 8,
{
    outside::hex_encode(address.as_slice())
}

/// The name of an application: branch first, application second.
pub open spec fn hostname_text(
    branch: Seq<char>,
    app: Seq<char>,
    profile: Seq<char>,
    project: Seq<char>,
    address: Seq<u8>,
    domain: IpDnsDomain,
) -> Seq<char> {
    branch + "."@ + app + "."@ + profile + "."@ + project + "."@ + outside::hex_text(address) + "."@
        + domain.text()
}

/// A complete, validated Lightrail application hostname.
#[derive(Clone, Debug, PartialEq, Eq, PartialOrd, Ord, Hash)]
pub struct Hostname {
    name: String,
}

impl View for Hostname {
    type V = Seq<char>;

    closed spec fn view(&self) -> Seq<char> {
        self.name@
    }
}

impl Hostname {
    /// Creates a hostname in the required branch-first/app-second order.
    ///
    /// # Errors
    ///
    /// Returns [`NamingError::DnsNameTooLong`] when the complete name exceeds
    /// 253 bytes.
    pub fn new(
        branch: &DnsLabel,
        app: &DnsLabel,
        profile: &DnsLabel,
        project: &DnsLabel,
        address: [u8; 4],
        domain: IpDnsDomain,
    ) -> (r: Result<Hostname, NamingError>)
        ensures
            ({
                let full = hostname_text(branch@, app@, profile@, project@, address@, domain);
                match r {
                    Ok(hostname) => hostname@ == full && text::utf8_len(full) <= DNS_NAME_MAX_BYTES,
                    Err(NamingError::DnsNameTooLong { length, maximum }) => length == text::utf8_len(full)
                        && maximum == DNS_NAME_MAX_BYTES && length > maximum,
                    Err(_) => false,
                }
            }),
    {
        let head = text::cat5(branch.as_str(), ".", app.as_str(), ".", profile.as_str());
        let middle = text::cat5(head.as_str(), ".", project.as_str(), ".", ipv4_hex(address).as_str());
        let name = text::cat3(middle.as_str(), ".", domain.as_str());
        let length: usize = text::byte_len(name.as_str());
        if length > DNS_NAME_MAX_BYTES {
            return Err(NamingError::DnsNameTooLong { length, maximum: DNS_NAME_MAX_BYTES });
        }
        Ok(Hostname { name })
    }

    /// Returns the complete hostname.
    pub fn as_str(&self) -> (r: &str)
        ensures
            r@ == self@,
    {
        self.name.as_str()
    }

    /// Returns the mandatory HTTPS URL for this hostname.
    pub fn https_url(&self) -> (r: String)
        ensures
            r@ == "https://"@ + self@,
    {
        text::cat2("https://", self.name.as_str())
    }
}

/// A name that cannot stand as a label is told apart by its digest: its label ends with that of
/// the whole name.
pub proof fn changed_names_keep_their_digest(name: Seq<char>)
    ensures
        label_of(name) != name ==> text::has_suffix(label_of(name), seq!['-'] + short_hash(name)),
{
    let label = label_of(name);
    if label != name {
        let end = seq!['-'] + short_hash(name);
        assert(label.subrange(label.len() - end.len(), label.len() as int) =~= end);
    }
}

/// The address of an application names its branch, the application, the profile and the project,
/// in this order, then the address of the machine in hexadecimal digits, under the chosen domain.
pub proof fn hostnames_name_everything_in_order(
    branch: Seq<char>,
    app: Seq<char>,
    profile: Seq<char>,
    project: Seq<char>,
    address: Seq<u8>,
    domain: IpDnsDomain,
)
    ensures
        ({
            let host = hostname_text(branch, app, profile, project, address, domain);
            let hex = outside::hex_text(address);
            &&& text::has_prefix(
                host,
                branch + seq!['.'] + app + seq!['.'] + profile + seq!['.'] + project + seq!['.'] + hex + seq!['.'],
            )
            &&& domain == IpDnsDomain::SslipIo ==> text::has_suffix(host, ".sslip.io"@)
            &&& domain == IpDnsDomain::NipIo ==> text::has_suffix(host, ".nip.io"@)
        }),
{
    reveal_strlit(".");
    reveal_strlit("sslip.io");
    reveal_strlit("nip.io");
    reveal_strlit(".sslip.io");
    reveal_strlit(".nip.io");
    assert("."@ =~= seq!['.']);
    let host = hostname_text(branch, app, profile, project, address, domain);
    let hex = outside::hex_text(address);
    let head = branch + seq!['.'] + app + seq!['.'] + profile + seq!['.'] + project + seq!['.'] + hex + seq!['.'];
    assert(host =~= head + domain.text());
    assert(host.subrange(0, head.len() as int) =~= head);
    let end = seq!['.'] + domain.text();
    assert(host.subrange(host.len() - end.len(), host.len() as int) =~= end);
    if domain == IpDnsDomain::SslipIo {
        assert(end =~= ".sslip.io"@);
    } else {
        assert(end =~= ".nip.io"@);
    }
}

/// An address is written byte by byte, the high half first, in lowercase digits.
pub proof fn addresses_are_written_byte_by_byte(address: Seq<u8>, i: int)
    requires
        0 <= i < address.len(),
    ensures
        outside::hex_text(address).len() == 2 * address.len(),
        outside::hex_value(outside::hex_text(address)[2 * i]) * 16 + outside::hex_value(
            outside::hex_text(address)[2 * i + 1],
        ) == address[i],
{
    let h = outside::hex_text(address);
    assert(h[2 * i] == outside::hex_char((address[i] / 16) as nat));
    assert(h[2 * i + 1] == outside::hex_char((address[i] % 16) as nat));
}

} // verus!

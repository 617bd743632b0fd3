//! File versions: how a module's version resource holds one, and how one is
//! named in the configuration.

use crate::bytes;
use crate::number;
use vstd::prelude::*;

verus! {

/// The version of a file.
#[derive(Clone, Copy, Debug, PartialEq, Eq, Structural)]
pub struct FileVersion {
    pub major: u16,
    pub minor: u16,
    pub release: u16,
    pub build: u16,
}

impl Default for FileVersion {
    fn default() -> (r: Self)
        ensures
            r == (FileVersion { major: 0, minor: 0, release: 0, build: 0 }),
    {
        FileVersion { major: 0, minor: 0, release: 0, build: 0 }
    }
}

/// The least size of a version resource that holds a version.
pub const VERSION_RESOURCE_SIZE: usize = 56;

/// The version in a version resource: two little-endian numbers from position
/// 48 on, each with its more significant half first.
pub open spec fn version_of(resource: Seq<u8>) -> Option<FileVersion> {
    if resource.len() < VERSION_RESOURCE_SIZE {
        None
    } else {
        let ms = bytes::le_value(resource.subrange(48, 52));
        let ls = bytes::le_value(resource.subrange(52, 56));
        Some(
            FileVersion {
                major: (ms / 0x1_0000) as u16,
                minor: (ms % 0x1_0000) as u16,
                release: (ls / 0x1_0000) as u16,
                build: (ls % 0x1_0000) as u16,
            },
        )
    }
}

/// Reads the version out of a version resource; `None` where the resource is too
/// small.
pub fn read_version(resource: &[u8]) -> (r: Option<FileVersion>)
    ensures
        r == version_of(resource@),
{
    if resource.len() < VERSION_RESOURCE_SIZE {
        return None;
    }
    let ms: u32 = bytes::read_le_u32(resource, 48);
    let ls: u32 = bytes::read_le_u32(resource, 52);
    Some(
        FileVersion {
            major: (ms / 0x1_0000) as u16,
            minor: (ms % 0x1_0000) as u16,
            release: (ls / 0x1_0000) as u16,
            build: (ls % 0x1_0000) as u16,
        },
    )
}

impl FileVersion {
    /// Major and minor version in one number.
    pub open spec fn packed(self) -> u16 {
        self.minor | (self.major << 8u16)
    }

    /// Major and minor version in one number, the major version shifted up by
    /// eight bits.
    pub fn pack(self) -> (r: u16)
        ensures
            r == self.packed(),
    {
        self.minor | (self.major << 8u16)
    }

    /// The version in text: its four numbers in decimal, with dots between them.
    pub open spec fn dotted(self) -> Seq<char> {
        number::decimal(self.major as nat).push('.') + (number::decimal(self.minor as nat).push('.')
            + (number::decimal(self.release as nat).push('.') + number::decimal(
            self.build as nat,
        )))
    }

    /// Writes the version in text; this is the name of the section with what the
    /// version needs.
    pub fn text(self) -> (r: String)
        ensures
            r@ == self.dotted(),
    {
        let mut r = String::new();
        r.append(&number::to_decimal(self.major as u64));
        r.push('.');
        r.append(&number::to_decimal(self.minor as u64));
        r.push('.');
        r.append(&number::to_decimal(self.release as u64));
        r.push('.');
        r.append(&number::to_decimal(self.build as u64));
        assert(r@ =~= self.dotted());
        r
    }
}

/// Versions below 256.256 pack into their two numbers side by side.
pub proof fn law_packed(v: FileVersion)
    requires
        v.major < 256,
        v.minor < 256,
    ensures
        v.packed() == v.major * 256 + v.minor,
{
    let major = v.major;
    let minor = v.minor;
    assert(minor | (major << 8u16) == major * 256 + minor) by (bit_vector)
        requires
            major < 256,
            minor < 256,
    ;
}

proof fn lemma_no_dot(n: nat)
    ensures
        !number::decimal(n).contains('.'),
{
    number::law_written_in_digits(n, 10);
    if number::decimal(n).contains('.') {
        let k = choose|k: int| 0 <= k < number::decimal(n).len() && number::decimal(n)[k] == '.';
        assert(number::digit_value(number::decimal(n)[k], 10) is Some);
    }
}

proof fn lemma_first_part(a: nat, b: nat, x: Seq<char>, y: Seq<char>)
    requires
        number::decimal(a).push('.') + x == number::decimal(b).push('.') + y,
    ensures
        a == b,
        x == y,
{
    let p = number::decimal(a);
    let q = number::decimal(b);
    let s = p.push('.') + x;
    let t = q.push('.') + y;
    lemma_no_dot(a);
    lemma_no_dot(b);
    if p.len() < q.len() {
        assert(t[p.len() as int] == q[p.len() as int]);
        assert(s[p.len() as int] == '.');
        assert(q.contains(q[p.len() as int]));
    }
    if q.len() < p.len() {
        assert(s[q.len() as int] == p[q.len() as int]);
        assert(t[q.len() as int] == '.');
        assert(p.contains(p[q.len() as int]));
    }
    assert forall|i: int| 0 <= i < p.len() implies p[i] == q[i] by {
        assert(s[i] == p[i] && t[i] == q[i]);
    }
    assert(p =~= q);
    lemma_decimal_injective(a, b);
    assert(x =~= s.skip(p.len() as int + 1));
    assert(y =~= t.skip(q.len() as int + 1));
}

proof fn lemma_decimal_injective(a: nat, b: nat)
    requires
        number::decimal(a) == number::decimal(b),
    ensures
        a == b,
{
    number::law_read_back(a, 10, Seq::empty());
    number::law_read_back(b, 10, Seq::empty());
}

/// Different versions have different texts, so no version reads the section of
/// another.
pub proof fn law_versions_have_their_own_section(a: FileVersion, b: FileVersion)
    requires
        a.dotted() == b.dotted(),
    ensures
        a == b,
{
    lemma_first_part(
        a.major as nat,
        b.major as nat,
        number::decimal(a.minor as nat).push('.') + (number::decimal(a.release as nat).push('.')
            + number::decimal(a.build as nat)),
        number::decimal(b.minor as nat).push('.') + (number::decimal(b.release as nat).push('.')
            + number::decimal(b.build as nat)),
    );
    lemma_first_part(
        a.minor as nat,
        b.minor as nat,
        number::decimal(a.release as nat).push('.') + number::decimal(a.build as nat),
        number::decimal(b.release as nat).push('.') + number::decimal(b.build as nat),
    );
    lemma_first_part(
        a.release as nat,
        b.release as nat,
        number::decimal(a.build as nat),
        number::decimal(b.build as nat),
    );
    lemma_decimal_injective(a.build as nat, b.build as nat);
}

/// Where the numbers of a version stand in a version resource: each in two bytes,
/// the less significant first, minor and major from position 48 on, build and
/// release from position 52 on. A resource of less than 56 bytes has none.
pub proof fn law_version_of(resource: Seq<u8>)
    ensures
        resource.len() < 56 ==> version_of(resource) is None,
        resource.len() >= 56 ==> (version_of(resource) matches Some(v) && v.minor == resource[48]
            + 256 * resource[49] && v.major == resource[50] + 256 * resource[51] && v.build
            == resource[52] + 256 * resource[53] && v.release == resource[54] + 256
            * resource[55]),
{
    if resource.len() >= 56 {
        lemma_four(resource.subrange(48, 52));
        lemma_four(resource.subrange(52, 56));
    }
}

proof fn lemma_four(s: Seq<u8>)
    requires
        s.len() == 4,
    ensures
        bytes::le_value(s) == s[0] + 256 * s[1] + 0x1_0000 * (s[2] + 256 * s[3]),
{
    reveal_with_fuel(bytes::le_value, 5);
    assert(s.skip(1).skip(1).skip(1).skip(1).len() == 0);
}

/// The packed version has the low byte of the minor version below, and above it
/// the low byte of the major version together with the high byte of the minor. So
/// it is 0x0600 for 6.0, 0x0601 for 6.1 and 0x0602 for 6.2.
pub proof fn law_packed_bytes(v: FileVersion)
    ensures
        v.packed() & 0xff == v.minor & 0xff,
        v.packed() >> 8 == (v.minor >> 8) | (v.major & 0xff),
{
    let major = v.major;
    let minor = v.minor;
    assert((minor | (major << 8u16)) & 0xff == minor & 0xff) by (bit_vector);
    assert((minor | (major << 8u16)) >> 8 == (minor >> 8) | (major & 0xff)) by (bit_vector);
}

/// A version in text is its major, minor, release and build number in decimal, in
/// this order, with a dot between each two.
pub proof fn law_dotted(v: FileVersion)
    ensures
        v.dotted() == number::decimal(v.major as nat) + "."@ + number::decimal(v.minor as nat)
            + "."@ + number::decimal(v.release as nat) + "."@ + number::decimal(v.build as nat),
{
    reveal_strlit(".");
    assert("."@ =~= seq!['.']);
    assert(v.dotted() =~= number::decimal(v.major as nat) + "."@ + number::decimal(v.minor as nat)
        + "."@ + number::decimal(v.release as nat) + "."@ + number::decimal(v.build as nat));
}

} // verus!

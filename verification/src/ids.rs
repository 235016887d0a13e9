//! Who the pool connects to, and which connection is which.

use vstd::prelude::*;
use vstd::string::StringExecFns;

verus! {

/// Identifies a peer: its 32 byte public key, read as one big-endian number.
///
/// `hi` holds the first 16 bytes and `lo` the other 16, so peers compare as
/// their keys do byte by byte.
#[derive(Debug, Clone, Copy, PartialEq, Eq, Structural, Hash)]
pub struct EndpointId {
    /// The first 16 bytes of the key, the first byte being the highest.
    pub hi: u128,
    /// The last 16 bytes of the key, the last byte being the lowest.
    pub lo: u128,
}

impl EndpointId {
    /// The pair of numbers that peers are ordered by.
    pub open spec fn spec_key(self) -> (u128, u128) {
        (self.hi, self.lo)
    }

    /// Returns the pair of numbers that peers are ordered by.
    pub(crate) fn key(self) -> (key: (u128, u128))
        ensures
            key == self.spec_key(),
    {
        (self.hi, self.lo)
    }

    /// The peer whose key comes before `other`'s.
    pub open spec fn before(self, other: EndpointId) -> bool {
        self.hi < other.hi || (self.hi == other.hi && self.lo < other.lo)
    }

    /// The first five bytes of the key, in lower case hexadecimal.
    pub open spec fn short_text(self) -> Seq<char> {
        Seq::new(10, |i: int| hex_digit(self.nibble(i)))
    }

    /// The `i`-th four bits of the key, counted from its first byte.
    pub open spec fn nibble(self, i: int) -> int {
        ((self.hi >> ((124 - 4 * i) as u128)) & 15) as int
    }

    /// Returns the first five bytes of the key in lower case hexadecimal, which
    /// is enough to tell peers apart in a log.
    pub fn fmt_short(&self) -> (text: String)
        ensures
            text@ == self.short_text(),
    {
        let mut text: String = String::new();
        let mut i: u32 = 0;
        while i < 10
            invariant
                i <= 10,
                text@ == self.short_text().take(i as int),
            decreases 10 - i,
        {
            let shift: u128 = (124 - 4 * i) as u128;
            let shifted: u128 = self.hi >> shift;
            let nibble: u128 = shifted & 15;
            assert(nibble < 16) by (bit_vector)
                requires
                    nibble == shifted & 15,
            ;
            text.append(digit(nibble as u8));
            i = i + 1;
        }
        text
    }
}

/// The digit for a number below 16.
pub open spec fn hex_digit(n: int) -> char {
    if n < 10 {
        ('0' as int + n) as char
    } else {
        ('a' as int + (n - 10)) as char
    }
}

/// Decimal digits of a number, without leading zeros.
pub open spec fn decimal(n: nat) -> Seq<char>
    decreases n,
{
    if n < 10 {
        seq![hex_digit(n as int)]
    } else {
        decimal(n / 10).push(hex_digit((n % 10) as int))
    }
}

/// Returns the digit for `n`, as a text of one character.
fn digit(n: u8) -> (text: &'static str)
    requires
        n < 16,
    ensures
        text@ == seq![hex_digit(n as int)],
{
    proof {
        reveal_strlit("0");
        reveal_strlit("1");
        reveal_strlit("2");
        reveal_strlit("3");
        reveal_strlit("4");
        reveal_strlit("5");
        reveal_strlit("6");
        reveal_strlit("7");
        reveal_strlit("8");
        reveal_strlit("9");
        reveal_strlit("a");
        reveal_strlit("b");
        reveal_strlit("c");
        reveal_strlit("d");
        reveal_strlit("e");
        reveal_strlit("f");
    }
    match n {
        0 => "0",
        1 => "1",
        2 => "2",
        3 => "3",
        4 => "4",
        5 => "5",
        6 => "6",
        7 => "7",
        8 => "8",
        9 => "9",
        10 => "a",
        11 => "b",
        12 => "c",
        13 => "d",
        14 => "e",
        _ => "f",
    }
}

/// Appends the decimal digits of `n` to `text`.
fn append_decimal(text: &mut String, n: u64)
    ensures
        final(text)@ == old(text)@ + decimal(n as nat),
    decreases n,
{
    if n >= 10 {
        append_decimal(text, n / 10);
    }
    text.append(digit((n % 10) as u8));
}

/// Which attempt to a peer made a connection.
///
/// Connections to a peer come and go, and an event about one can arrive after
/// the pool has moved on. The generation tells them apart.
#[derive(Debug, Clone, Copy, PartialEq, Eq, Structural, PartialOrd, Ord, Hash)]
pub struct Generation(pub u64);

impl Generation {
    /// Returns the generation, and moves `self` on to the next one.
    pub fn next(&mut self) -> (current: Self)
        requires
            old(self).0 < u64::MAX,
        ensures
            current == *old(self),
            final(self).0 == old(self).0 + 1,
    {
        let current = *self;
        self.0 = self.0 + 1;
        current
    }
}

/// Identifies one connection: the peer, and the attempt that made it.
#[derive(Debug, Clone, Copy, PartialEq, Eq, Structural, Hash)]
pub struct ConnId {
    /// Who the connection is to.
    pub peer: EndpointId,
    /// The attempt that made it.
    pub generation: Generation,
}

impl ConnId {
    /// The numbers that connections are ordered by: first the peer's.
    pub open spec fn spec_key(self) -> (u128, u128, u64) {
        (self.peer.hi, self.peer.lo, self.generation.0)
    }

    /// Returns the numbers that connections are ordered by.
    pub(crate) fn key(self) -> (key: (u128, u128, u64))
        ensures
            key == self.spec_key(),
    {
        (self.peer.hi, self.peer.lo, self.generation.0)
    }

    /// Whether the connection comes before `other`: by peer, then by generation.
    pub open spec fn before(self, other: ConnId) -> bool {
        self.peer.before(other.peer) || (self.peer == other.peer && self.generation.0
            < other.generation.0)
    }

    /// The text that names the connection in a log.
    pub open spec fn text(self) -> Seq<char> {
        self.peer.short_text() + "#"@ + decimal(self.generation.0 as nat)
    }

    /// Returns the text that names the connection in a log: the start of the
    /// peer's key, a `#` and the generation.
    pub fn to_text(&self) -> (text: String)
        ensures
            text@ == self.text(),
    {
        let mut text: String = self.peer.fmt_short();
        text.append("#");
        append_decimal(&mut text, self.generation.0);
        text
    }
}

} // verus!

//! The binary (version 2) PROXY header that precedes every client connection.
//!
//! Only the TCP-over-IPv4 form is accepted: a twelve-byte signature, the
//! `PROXY` command byte, the address-family/protocol byte, a big-endian length
//! of the address block, and then the source and destination IPv4 addresses.

use vstd::prelude::*;

verus! {

/// Number of bytes read from a fresh connection to find the header in.
pub const PROXY_EXPECTED_HEADER_BYTES: usize = 28;

/// Length of the fixed signature that opens every header.
pub const GREETING_LEN: usize = 12;

/// Length of one IPv4 address.
pub const BYTES: usize = 4;

/// Length of the IPv4 address block: two addresses and two 16-bit ports.
pub const ADDRESS_BLOCK_LEN: usize = 12;

/// Offset of the address block: signature, command, protocol, length.
pub const ADDRESS_BLOCK_OFFSET: usize = 16;

/// Command byte of a relayed connection (version 2, `PROXY`).
pub const COMMAND_PROXY: u8 = 0x21;

/// Command byte of a health check from the balancer itself (version 2, `LOCAL`).
pub const COMMAND_LOCAL: u8 = 0x20;

/// Address-family/protocol byte of TCP over IPv4.
pub const TCP_OVER_IPV4: u8 = 0x11;

/// Why a header was refused.
#[derive(Debug, Clone, Copy, PartialEq, Eq, Structural)]
pub enum HeaderError {
    /// Fewer bytes arrived than the header needs.
    BufferTooShort,
    /// The bytes are not an acceptable header.
    Invalid,
}

/// An IPv4 address as its four octets, most significant first.
#[derive(Debug, Clone, Copy)]
pub struct ProxiedAddress(pub [u8; 4]);

/// The two ends of a relayed connection, as the balancer reports them.
#[derive(Debug, Clone, Copy)]
pub struct ProxiedAddresses {
    /// Source address (this is the address of the actual client)
    pub source: ProxiedAddress,
    /// Destination address (this is the address of the proxy)
    pub destination: ProxiedAddress,
}

impl View for ProxiedAddress {
    type V = Seq<u8>;

    open spec fn view(&self) -> Seq<u8> {
        self.0@
    }
}

impl View for ProxiedAddresses {
    type V = (Seq<u8>, Seq<u8>);

    open spec fn view(&self) -> (Seq<u8>, Seq<u8>) {
        (self.source@, self.destination@)
    }
}

/// The signature: `\r\n\r\n\0\r\nQUIT\n`.
pub open spec fn greeting() -> Seq<u8> {
    seq![0x0du8, 0x0au8, 0x0du8, 0x0au8, 0x00u8, 0x0du8, 0x0au8, 0x51u8, 0x55u8, 0x49u8, 0x54u8, 0x0au8]
}

/// A 16-bit big-endian number.
pub open spec fn be16(hi: u8, lo: u8) -> nat {
    (hi as nat) * 256 + (lo as nat)
}

/// The length of the address block that the header announces.
pub open spec fn announced_len(b: Seq<u8>) -> nat
    recommends
        b.len() >= 16,
{
    be16(b[14], b[15])
}

/// What a header in `b` decodes to: the source and destination octets, or why
/// it is refused. Bytes after the header are ignored.
pub open spec fn spec_parse_header(b: Seq<u8>) -> Result<(Seq<u8>, Seq<u8>), HeaderError> {
    if b.len() < GREETING_LEN + 4 {
        Err(HeaderError::BufferTooShort)
    } else if b.subrange(0, GREETING_LEN as int) != greeting() {
        Err(HeaderError::Invalid)
    } else if b[12] != COMMAND_PROXY {
        Err(HeaderError::Invalid)
    } else if b.len() < ADDRESS_BLOCK_OFFSET + announced_len(b) {
        Err(HeaderError::BufferTooShort)
    } else if b[13] != TCP_OVER_IPV4 {
        Err(HeaderError::Invalid)
    } else if b.len() < ADDRESS_BLOCK_OFFSET + ADDRESS_BLOCK_LEN {
        Err(HeaderError::BufferTooShort)
    } else if announced_len(b) < ADDRESS_BLOCK_LEN {
        Err(HeaderError::Invalid)
    } else {
        Ok((b.subrange(16, 20), b.subrange(20, 24)))
    }
}

/// The header that announces a TCP-over-IPv4 connection from `source` to
/// `destination`, with the two ports in `ports`.
pub open spec fn ipv4_header(source: Seq<u8>, destination: Seq<u8>, ports: Seq<u8>) -> Seq<u8> {
    greeting() + seq![COMMAND_PROXY, TCP_OVER_IPV4, 0u8, 12u8] + source + destination + ports
}

/// Reads the address block at `*pos`: the source and destination addresses,
/// followed by the two ports, which are skipped. `*rest` is what is left of the
/// announced length; on success both counters move past the block.
pub fn parse_addrs(buf: &[u8], pos: &mut usize, rest: &mut usize) -> (res: Result<
    ProxiedAddresses,
    HeaderError,
>)
    requires
        *old(pos) + ADDRESS_BLOCK_LEN <= usize::MAX,
    ensures
        buf@.len() < *old(pos) + ADDRESS_BLOCK_LEN ==> res == Err::<ProxiedAddresses, HeaderError>(
            HeaderError::BufferTooShort,
        ),
        buf@.len() >= *old(pos) + ADDRESS_BLOCK_LEN && *old(rest) < ADDRESS_BLOCK_LEN ==> res
            == Err::<ProxiedAddresses, HeaderError>(HeaderError::Invalid),
        res is Err ==> *final(pos) == *old(pos) && *final(rest) == *old(rest),
        res is Ok <==> (buf@.len() >= *old(pos) + ADDRESS_BLOCK_LEN && *old(rest)
            >= ADDRESS_BLOCK_LEN),
        res matches Ok(a) ==> {
            &&& a.source@ == buf@.subrange(*old(pos) as int, *old(pos) + 4)
            &&& a.destination@ == buf@.subrange(*old(pos) + 4, *old(pos) + 8)
            &&& *final(pos) == *old(pos) + ADDRESS_BLOCK_LEN
            &&& *final(rest) == *old(rest) - ADDRESS_BLOCK_LEN
        },
{
    if buf.len() < *pos + BYTES * 2 + 4 {
        return Err(HeaderError::BufferTooShort);
    }
    if *rest < BYTES * 2 + 4 {
        return Err(HeaderError::Invalid);
    }
    let p = *pos;
    let source = ProxiedAddress([buf[p], buf[p + 1], buf[p + 2], buf[p + 3]]);
    let destination = ProxiedAddress([buf[p + 4], buf[p + 5], buf[p + 6], buf[p + 7]]);
    assert(source@ =~= buf@.subrange(p as int, p + 4));
    assert(destination@ =~= buf@.subrange(p + 4, p + 8));
    *rest = *rest - (BYTES * 2 + 4);
    *pos = *pos + (BYTES * 2 + 4);
    Ok(ProxiedAddresses { source, destination })
}

/// Whether `buf` opens with the signature.
fn starts_with_greeting(buf: &[u8]) -> (res: bool)
    requires
        buf@.len() >= GREETING_LEN,
    ensures
        res == (buf@.subrange(0, GREETING_LEN as int) == greeting()),
{
    let expected: [u8; 12] = [0x0d, 0x0a, 0x0d, 0x0a, 0x00, 0x0d, 0x0a, 0x51, 0x55, 0x49, 0x54, 0x0a];
    assert(expected@ =~= greeting());
    let mut i: usize = 0;
    while i < GREETING_LEN
        invariant
            i <= GREETING_LEN,
            buf@.len() >= GREETING_LEN,
            expected@ == greeting(),
            forall|j: int| 0 <= j < i ==> buf@[j] == greeting()[j],
        decreases GREETING_LEN - i,
    {
        if buf[i] != expected[i] {
            assert(buf@.subrange(0, GREETING_LEN as int)[i as int] != greeting()[i as int]);
            return false;
        }
        i = i + 1;
    }
    assert(buf@.subrange(0, GREETING_LEN as int) =~= greeting());
    true
}

/// Decodes the header at the start of `buf`, the bytes first read from a
/// connection. Bytes after the header are ignored.
pub fn parse_proxy_header(buf: &[u8]) -> (res: Result<ProxiedAddresses, HeaderError>)
    ensures
        match res {
            Ok(a) => spec_parse_header(buf@) == Ok::<(Seq<u8>, Seq<u8>), HeaderError>(a@),
            Err(e) => spec_parse_header(buf@) == Err::<(Seq<u8>, Seq<u8>), HeaderError>(e),
        },
{
    let mut pos: usize = 0;
    if buf.len() < 4 + GREETING_LEN {
        return Err(HeaderError::BufferTooShort);
    }
    if !starts_with_greeting(buf) {
        return Err(HeaderError::Invalid);
    }
    pos = pos + GREETING_LEN;
    if buf[pos] == COMMAND_LOCAL {
        // health checks of the balancer are not relayed
        return Err(HeaderError::Invalid);
    } else if buf[pos] != COMMAND_PROXY {
        return Err(HeaderError::Invalid);
    }
    let protocol = buf[pos + 1];
    let mut rest: usize = (buf[pos + 2] as usize) * 256 + (buf[pos + 3] as usize);
    pos = pos + 4;
    if buf.len() < pos + rest {
        return Err(HeaderError::BufferTooShort);
    }
    if protocol == TCP_OVER_IPV4 {
        parse_addrs(buf, &mut pos, &mut rest)
    } else {
        Err(HeaderError::Invalid)
    }
}

/// A header that decodes keeps decoding to the same addresses whatever bytes
/// follow it.
pub proof fn lemma_parse_ignores_trailing_bytes(b: Seq<u8>, extra: Seq<u8>)
    requires
        spec_parse_header(b) is Ok,
    ensures
        spec_parse_header(b + extra) == spec_parse_header(b),
{
    let c = b + extra;
    assert(c.subrange(0, GREETING_LEN as int) =~= b.subrange(0, GREETING_LEN as int));
    assert(c.subrange(16, 20) =~= b.subrange(16, 20));
    assert(c.subrange(20, 24) =~= b.subrange(20, 24));
}

/// A malformed header stays malformed whatever bytes follow it: only a short
/// buffer can be mended by reading more.
pub proof fn lemma_invalid_stays_invalid(b: Seq<u8>, extra: Seq<u8>)
    requires
        spec_parse_header(b) == Err::<(Seq<u8>, Seq<u8>), HeaderError>(HeaderError::Invalid),
    ensures
        spec_parse_header(b + extra) == Err::<(Seq<u8>, Seq<u8>), HeaderError>(
            HeaderError::Invalid,
        ),
{
    let c = b + extra;
    assert(c.subrange(0, GREETING_LEN as int) =~= b.subrange(0, GREETING_LEN as int));
}

/// The header of a TCP-over-IPv4 connection decodes to the addresses it was
/// made of, whatever follows it.
pub proof fn lemma_ipv4_header_round_trip(
    source: Seq<u8>,
    destination: Seq<u8>,
    ports: Seq<u8>,
    extra: Seq<u8>,
)
    requires
        source.len() == 4,
        destination.len() == 4,
        ports.len() == 4,
    ensures
        spec_parse_header(ipv4_header(source, destination, ports) + extra) == Ok::<
            (Seq<u8>, Seq<u8>),
            HeaderError,
        >((source, destination)),
{
    let h = ipv4_header(source, destination, ports);
    let c = h + extra;
    assert(h.len() == 28);
    assert(c.subrange(0, GREETING_LEN as int) =~= greeting());
    assert(c[12] == COMMAND_PROXY);
    assert(c[13] == TCP_OVER_IPV4);
    assert(c[14] == 0u8);
    assert(c[15] == 12u8);
    assert(c.subrange(16, 20) =~= source);
    assert(c.subrange(20, 24) =~= destination);
}

/// The character of decimal digit `d`.
pub open spec fn digit_char(d: int) -> char {
    (48 + d) as char
}

/// The decimal form of `n`, without leading zeros.
pub open spec fn decimal_text(n: u8) -> Seq<char> {
    if n >= 100 {
        seq![digit_char(n as int / 100), digit_char((n as int / 10) % 10), digit_char(n as int % 10)]
    } else if n >= 10 {
        seq![digit_char(n as int / 10), digit_char(n as int % 10)]
    } else {
        seq![digit_char(n as int)]
    }
}

/// The dotted-decimal form of four octets, such as `192.168.0.1`.
pub open spec fn dotted(o: Seq<u8>) -> Seq<char>
    recommends
        o.len() == 4,
{
    decimal_text(o[0]) + seq!['.'] + decimal_text(o[1]) + seq!['.'] + decimal_text(o[2]) + seq![
        '.',
    ] + decimal_text(o[3])
}

/// The one-character string of a decimal digit.
fn digit_str(d: u8) -> (s: &'static str)
    requires
        d < 10,
    ensures
        s@ == seq![digit_char(d as int)],
{
    if d == 0 {
        proof {
            reveal_strlit("0");
        }
        "0"
    } else if d == 1 {
        proof {
            reveal_strlit("1");
        }
        "1"
    } else if d == 2 {
        proof {
            reveal_strlit("2");
        }
        "2"
    } else if d == 3 {
        proof {
            reveal_strlit("3");
        }
        "3"
    } else if d == 4 {
        proof {
            reveal_strlit("4");
        }
        "4"
    } else if d == 5 {
        proof {
            reveal_strlit("5");
        }
        "5"
    } else if d == 6 {
        proof {
            reveal_strlit("6");
        }
        "6"
    } else if d == 7 {
        proof {
            reveal_strlit("7");
        }
        "7"
    } else if d == 8 {
        proof {
            reveal_strlit("8");
        }
        "8"
    } else {
        proof {
            reveal_strlit("9");
        }
        "9"
    }
}

/// Appends the decimal form of `n` to `out`.
fn push_decimal(out: &mut String, n: u8)
    ensures
        final(out)@ == old(out)@ + decimal_text(n),
{
    if n >= 100 {
        out.append(digit_str(n / 100));
        out.append(digit_str((n / 10) % 10));
        out.append(digit_str(n % 10));
    } else if n >= 10 {
        out.append(digit_str(n / 10));
        out.append(digit_str(n % 10));
    } else {
        out.append(digit_str(n));
    }
    assert(final(out)@ =~= old(out)@ + decimal_text(n));
}

impl ProxiedAddress {
    /// The address in dotted-decimal form, such as `192.168.0.1`.
    pub fn to_dotted(&self) -> (s: String)
        ensures
            s@ == dotted(self@),
    {
        let mut out = String::new();
        push_decimal(&mut out, self.0[0]);
        proof {
            reveal_strlit(".");
        }
        out.append(".");
        push_decimal(&mut out, self.0[1]);
        out.append(".");
        push_decimal(&mut out, self.0[2]);
        out.append(".");
        push_decimal(&mut out, self.0[3]);
        assert(out@ =~= dotted(self@));
        out
    }
}

/// Whether `b` opens with the signature `\r\n\r\n\0\r\nQUIT\n`, byte by byte.
pub open spec fn has_signature_bytes(b: Seq<u8>) -> bool {
    &&& b.len() >= 12
    &&& b[0] == 0x0d && b[1] == 0x0a && b[2] == 0x0d && b[3] == 0x0a
    &&& b[4] == 0x00 && b[5] == 0x0d && b[6] == 0x0a && b[7] == 0x51
    &&& b[8] == 0x55 && b[9] == 0x49 && b[10] == 0x54 && b[11] == 0x0a
}

/// A header is accepted exactly when it is the signature, the `PROXY` command
/// (0x21), TCP over IPv4 (0x11), and an announced length of at least the
/// twelve-byte address block, all of which has arrived; it then gives the
/// source octets at offset 16 and the destination octets at offset 20. Fewer
/// than sixteen bytes are too short, and a signed header with any other command
/// (among them `LOCAL`, 0x20, a health check) is invalid.
pub proof fn lemma_header_accepted_exactly(b: Seq<u8>)
    ensures
        spec_parse_header(b) is Ok <==> ({
            &&& has_signature_bytes(b)
            &&& b.len() >= 28
            &&& b[12] == 0x21
            &&& b[13] == 0x11
            &&& b[14] as int * 256 + b[15] as int >= 12
            &&& b.len() >= 16 + b[14] as int * 256 + b[15] as int
        }),
        spec_parse_header(b) matches Ok((source, destination)) ==> {
            &&& source.len() == 4 && destination.len() == 4
            &&& forall|i: int| 0 <= i < 4 ==> source[i] == b[16 + i] && destination[i] == b[20 + i]
        },
        b.len() < 16 ==> spec_parse_header(b) == Err::<(Seq<u8>, Seq<u8>), HeaderError>(
            HeaderError::BufferTooShort,
        ),
        b.len() >= 16 && !has_signature_bytes(b) ==> spec_parse_header(b) == Err::<
            (Seq<u8>, Seq<u8>),
            HeaderError,
        >(HeaderError::Invalid),
        b.len() >= 16 && has_signature_bytes(b) && b[12] != 0x21 ==> spec_parse_header(b) == Err::<
            (Seq<u8>, Seq<u8>),
            HeaderError,
        >(HeaderError::Invalid),
{
    if b.len() >= 12 {
        let g = b.subrange(0, 12);
        if has_signature_bytes(b) {
            assert(g =~= greeting());
        }
        if g == greeting() {
            assert(g[0] == b[0] && g[1] == b[1] && g[2] == b[2] && g[3] == b[3]);
            assert(g[4] == b[4] && g[5] == b[5] && g[6] == b[6] && g[7] == b[7]);
            assert(g[8] == b[8] && g[9] == b[9] && g[10] == b[10] && g[11] == b[11]);
        }
    }
}

/// The dotted form writes each octet in plain decimal: only digits, no leading
/// zero, and the digits read back as the octet.
pub proof fn lemma_decimal_text_reads_back(n: u8)
    ensures
        1 <= decimal_text(n).len() <= 3,
        forall|i: int| 0 <= i < decimal_text(n).len() ==> '0' <= #[trigger] decimal_text(n)[i] <= '9',
        decimal_text(n).len() > 1 ==> decimal_text(n)[0] != '0',
        decimal_text(n).len() == 1 ==> n == decimal_text(n)[0] as int - 48,
        decimal_text(n).len() == 2 ==> n == (decimal_text(n)[0] as int - 48) * 10 + (decimal_text(
            n,
        )[1] as int - 48),
        decimal_text(n).len() == 3 ==> n == (decimal_text(n)[0] as int - 48) * 100 + (
        decimal_text(n)[1] as int - 48) * 10 + (decimal_text(n)[2] as int - 48),
{
    let t = decimal_text(n);
    if n >= 100 {
        assert(t[0] as int == 48 + n as int / 100);
        assert(t[1] as int == 48 + (n as int / 10) % 10);
        assert(t[2] as int == 48 + n as int % 10);
    } else if n >= 10 {
        assert(t[0] as int == 48 + n as int / 10);
        assert(t[1] as int == 48 + n as int % 10);
    } else {
        assert(t[0] as int == 48 + n as int);
    }
}

} // verus!

//! What the process that monitors the runner is told.
use vstd::prelude::*;
use vstd::string::*;

use crate::{codec, number, text};

verus! {

/// Where the monitor listens.
#[derive(Debug, Clone, Copy, PartialEq, Eq, Structural)]
pub struct MonitorAddress {
    pub a: u8,
    pub b: u8,
    pub c: u8,
    pub d: u8,
    pub port: u16,
}

/// What is wrong with the monitor's address.
#[derive(Debug, Clone, Copy, PartialEq, Eq, Structural)]
pub enum AddressError {
    /// It is not a host and a port with a colon between them.
    Shape,
    /// The host is not an IPv4 address.
    Host,
    /// The port is not a number of 16 bits.
    Port,
}

/// The number of an octet: one to three digits, without a leading zero, at most 255.
pub open spec fn octet_value(s: Seq<char>) -> Option<int> {
    if 1 <= s.len() <= 3 && (s.len() > 1 ==> s[0] != '0') {
        match number::digits_value(s) {
            Some(n) => if n <= 255 {
                Some(n)
            } else {
                None
            },
            None => None,
        }
    } else {
        None
    }
}

/// The octets of an IPv4 address in dotted decimal form.
pub open spec fn ipv4_value(s: Seq<char>) -> Option<(int, int, int, int)> {
    let parts = text::pieces(s, '.');
    if parts.len() == 4 {
        match (
            octet_value(parts[0]),
            octet_value(parts[1]),
            octet_value(parts[2]),
            octet_value(parts[3]),
        ) {
            (Some(a), Some(b), Some(c), Some(d)) => Some((a, b, c, d)),
            _ => None,
        }
    } else {
        None
    }
}

/// The address that `s` writes.
pub open spec fn address_value(s: Seq<char>) -> Result<
    ((int, int, int, int), int),
    AddressError,
> {
    let parts = text::pieces(s, ':');
    if parts.len() != 2 {
        Err(AddressError::Shape)
    } else {
        match ipv4_value(parts[0]) {
            None => Err(AddressError::Host),
            Some(host) => match number::unsigned_value(parts[1], 65535) {
                None => Err(AddressError::Port),
                Some(port) => Ok((host, port)),
            },
        }
    }
}

fn parse_octet(s: &str) -> (r: Option<u8>)
    ensures
        match r {
            Some(n) => octet_value(s@) == Some(n as int),
            None => octet_value(s@) is None,
        },
{
    let v = text::to_chars(s);
    if v.len() < 1 || v.len() > 3 {
        return None;
    }
    if v.len() > 1 && v[0] == '0' {
        return None;
    }
    // A sign is no digit.
    if v[0] == '+' {
        proof {
            lemma_sign_is_no_octet(s@);
        }
        return None;
    }
    match number::parse_unsigned(s, 255) {
        Some(n) => Some(n as u8),
        None => None,
    }
}

proof fn lemma_sign_is_no_octet(s: Seq<char>)
    requires
        s.len() > 0,
        s[0] == '+',
    ensures
        number::digits_value(s) is None,
    decreases s.len(),
{
    if s.len() > 1 {
        lemma_sign_is_no_octet(s.drop_last());
    }
}

fn parse_ipv4(s: &str) -> (r: Option<(u8, u8, u8, u8)>)
    ensures
        match r {
            Some((a, b, c, d)) => ipv4_value(s@) == Some((a as int, b as int, c as int, d as int)),
            None => ipv4_value(s@) is None,
        },
{
    let parts = text::split(s, '.');
    let ghost all = text::views(parts@);
    assert(all == text::pieces(s@, '.'));
    if parts.len() != 4 {
        return None;
    }
    assert(all[0] == parts@[0]@ && all[1] == parts@[1]@ && all[2] == parts@[2]@ && all[3]
        == parts@[3]@);
    match (
        parse_octet(parts[0].as_str()),
        parse_octet(parts[1].as_str()),
        parse_octet(parts[2].as_str()),
        parse_octet(parts[3].as_str()),
    ) {
        (Some(a), Some(b), Some(c), Some(d)) => Some((a, b, c, d)),
        _ => None,
    }
}

/// Reads the monitor's address: an IPv4 address and a port with a colon between them.
pub fn parse_address(s: &str) -> (r: Result<MonitorAddress, AddressError>)
    ensures
        match r {
            Ok(m) => address_value(s@) == Ok::<((int, int, int, int), int), AddressError>(
                ((m.a as int, m.b as int, m.c as int, m.d as int), m.port as int),
            ),
            Err(e) => address_value(s@) == Err::<((int, int, int, int), int), AddressError>(e),
        },
{
    let parts = text::split(s, ':');
    let ghost all = text::views(parts@);
    assert(all == text::pieces(s@, ':'));
    if parts.len() != 2 {
        return Err(AddressError::Shape);
    }
    assert(all[0] == parts@[0]@ && all[1] == parts@[1]@);
    match parse_ipv4(parts[0].as_str()) {
        None => Err(AddressError::Host),
        Some((a, b, c, d)) => match number::parse_unsigned(parts[1].as_str(), 65535) {
            None => Err(AddressError::Port),
            Some(port) => Ok(MonitorAddress { a, b, c, d, port: port as u16 }),
        },
    }
}

/// The channel to the monitor.
#[derive(Debug)]
pub struct JobNotification {
    is_monitor_configured: bool,
}

impl JobNotification {
    /// Whether there is a monitor.
    pub closed spec fn connected(self) -> bool {
        self.is_monitor_configured
    }

    /// A channel without a monitor.
    pub fn new() -> (r: Self)
        ensures
            !r.connected(),
    {
        JobNotification { is_monitor_configured: false }
    }

    /// Where to connect to. `None` where there is nothing to do: there is a monitor already,
    /// or none is named.
    pub fn start_client(&self, monitor_socket_address: &str) -> (r: Option<
        Result<MonitorAddress, AddressError>,
    >)
        ensures
            match r {
                None => self.connected() || monitor_socket_address@.len() == 0,
                Some(parsed) => {
                    &&& !self.connected() && monitor_socket_address@.len() > 0
                    &&& match parsed {
                        Ok(m) => address_value(monitor_socket_address@) == Ok::<
                            ((int, int, int, int), int),
                            AddressError,
                        >(((m.a as int, m.b as int, m.c as int, m.d as int), m.port as int)),
                        Err(e) => address_value(monitor_socket_address@) == Err::<
                            ((int, int, int, int), int),
                            AddressError,
                        >(e),
                    }
                },
            },
    {
        if self.is_monitor_configured || text::is_empty(monitor_socket_address) {
            None
        } else {
            Some(parse_address(monitor_socket_address))
        }
    }

    /// Takes note that the monitor was reached.
    pub fn monitor_connected(&mut self)
        ensures
            final(self).connected(),
    {
        self.is_monitor_configured = true;
    }

    /// What the monitor is told when a job starts. Nothing, without a token or a monitor.
    pub fn job_started(
        &self,
        job_id: u128,
        access_token: &str,
        server_url: &str,
        process_id: u32,
    ) -> (r: Option<String>)
        ensures
            text::view_option(r) == if access_token@.len() > 0 && self.connected() {
                Some(
                    "Start "@ + codec::uuid_text(job_id) + " "@ + access_token@ + " "@
                        + server_url@ + " "@ + number::decimal(process_id as int),
                )
            } else {
                None
            },
    {
        if text::is_empty(access_token) || !self.is_monitor_configured {
            return None;
        }
        let mut s = "Start ".to_owned();
        s.append(codec::format_uuid(job_id).as_str());
        s.append(" ");
        s.append(access_token);
        s.append(" ");
        s.append(server_url);
        s.append(" ");
        s.append(number::u64_text(process_id as u64).as_str());
        Some(s)
    }

    /// What the monitor is told when a job is done. Nothing, without a monitor.
    pub fn job_completed(&self, process_id: u32) -> (r: Option<String>)
        ensures
            text::view_option(r) == if self.connected() {
                Some("End "@ + number::decimal(process_id as int))
            } else {
                None
            },
    {
        if !self.is_monitor_configured {
            return None;
        }
        let mut s = "End ".to_owned();
        s.append(number::u64_text(process_id as u64).as_str());
        Some(s)
    }
}

impl Default for JobNotification {
    fn default() -> (r: Self)
        ensures
            !r.connected(),
    {
        JobNotification::new()
    }
}

// ---------------------------------------------------------------------------
// Laws
// ---------------------------------------------------------------------------

proof fn lemma_decimal_digits(n: int, c: char)
    requires
        0 <= n,
        c == '.' || c == ':',
    ensures
        !number::decimal(n).contains(c),
{
    number::law_decimal_reads_back(n);
    let s = number::decimal(n);
    number::law_only_digits_are_read(s);
    assert forall|i: int| 0 <= i < s.len() implies s[i] != c by {
        assert(number::is_digit(s[i]));
    }
}

/// Every number of eight bits is read as an octet, as it is written in decimal.
pub proof fn law_octet_reads_back(n: int)
    requires
        0 <= n <= 255,
    ensures
        octet_value(number::decimal(n)) == Some(n),
{
    number::law_decimal_reads_back(n);
    let s = number::decimal(n);
    if n >= 100 {
        let t = number::decimal(n / 10);
        assert(t == number::decimal(n / 100).push(number::digit((n / 10) % 10)));
        assert(number::decimal(n / 100) == seq![number::digit(n / 100)]);
        assert(s[0] == number::digit(n / 100));
    } else if n >= 10 {
        assert(number::decimal(n / 10) == seq![number::digit(n / 10)]);
        assert(s[0] == number::digit(n / 10));
    }
}

/// A larger number is no octet, nor is one with a leading zero, nor what is no number.
pub proof fn law_other_octets_are_refused(s: Seq<char>)
    ensures
        number::digits_value(s) is None ==> octet_value(s) is None,
        number::digits_value(s) matches Some(n) ==> n > 255 ==> octet_value(s) is None,
        s.len() > 1 && s[0] == '0' ==> octet_value(s) is None,
        s.len() > 3 ==> octet_value(s) is None,
{
}

/// An address reads as it is written: four octets with periods between them, a colon and a
/// port.
pub proof fn law_address_reads_back(a: int, b: int, c: int, d: int, port: int)
    requires
        0 <= a <= 255,
        0 <= b <= 255,
        0 <= c <= 255,
        0 <= d <= 255,
        0 <= port <= 65535,
    ensures
        address_value(
            text::joined(
                seq![
                    text::joined(
                        seq![
                            number::decimal(a),
                            number::decimal(b),
                            number::decimal(c),
                            number::decimal(d),
                        ],
                        seq!['.'],
                    ),
                    number::decimal(port),
                ],
                seq![':'],
            ),
        ) == Ok::<((int, int, int, int), int), AddressError>(((a, b, c, d), port)),
{
    let octets = seq![
        number::decimal(a),
        number::decimal(b),
        number::decimal(c),
        number::decimal(d),
    ];
    let host = text::joined(octets, seq!['.']);
    let parts = seq![host, number::decimal(port)];
    law_octet_reads_back(a);
    law_octet_reads_back(b);
    law_octet_reads_back(c);
    law_octet_reads_back(d);
    number::law_parse_reads_back(port, 65535);
    lemma_decimal_digits(a, '.');
    lemma_decimal_digits(b, '.');
    lemma_decimal_digits(c, '.');
    lemma_decimal_digits(d, '.');
    lemma_decimal_digits(a, ':');
    lemma_decimal_digits(b, ':');
    lemma_decimal_digits(c, ':');
    lemma_decimal_digits(d, ':');
    lemma_decimal_digits(port, ':');
    text::law_pieces_of_joined(octets, '.');
    text::law_joined_holds_no_other(octets, '.', ':');
    text::law_pieces_of_joined(parts, ':');
}

/// What does not have just one colon has not the shape of an address; the host is looked at
/// before the port.
pub proof fn law_address_errors(s: Seq<char>)
    ensures
        ({
            let parts = text::pieces(s, ':');
            &&& parts.len() != 2 <==> address_value(s) == Err::<
                ((int, int, int, int), int),
                AddressError,
            >(AddressError::Shape)
            &&& parts.len() == 2 && ipv4_value(parts[0]) is None ==> address_value(s) == Err::<
                ((int, int, int, int), int),
                AddressError,
            >(AddressError::Host)
            &&& parts.len() == 2 && ipv4_value(parts[0]) is Some && number::unsigned_value(
                parts[1],
                65535,
            ) is None ==> address_value(s) == Err::<((int, int, int, int), int), AddressError>(
                AddressError::Port,
            )
        }),
{
}

} // verus!

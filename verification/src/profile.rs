use vstd::prelude::*;
use vstd::string::*;

use crate::ssh;
use crate::ssh::profile::SshProfileSpec;

verus! {

/// The character of a decimal digit.
pub open spec fn digit_char(d: nat) -> char {
    if d == 0 {
        '0'
    } else if d == 1 {
        '1'
    } else if d == 2 {
        '2'
    } else if d == 3 {
        '3'
    } else if d == 4 {
        '4'
    } else if d == 5 {
        '5'
    } else if d == 6 {
        '6'
    } else if d == 7 {
        '7'
    } else if d == 8 {
        '8'
    } else {
        '9'
    }
}

/// The decimal representation of `n`, without sign or leading zeros.
pub open spec fn decimal(n: nat) -> Seq<char>
    decreases n,
{
    if n < 10 {
        seq![digit_char(n)]
    } else {
        decimal(n / 10).push(digit_char(n % 10))
    }
}

/// The identifier of an SSH profile: `ssh://{username}@{host}:{port}`.
pub open spec fn ssh_id(p: SshProfileSpec) -> Seq<char> {
    seq!['s', 's', 'h', ':', '/', '/'] + p.username + seq!['@'] + p.host + seq![':']
        + decimal(p.port as nat)
}

/// The number a base-10 numeral denotes, each character counting as its
/// distance from `'0'`.
pub open spec fn numeral_value(s: Seq<char>) -> int
    decreases s.len(),
{
    if s.len() == 0 {
        0
    } else {
        10 * numeral_value(s.drop_last()) + (s.last() as int - '0' as int)
    }
}

/// The port part of an identifier is the usual base-10 numeral of the port:
/// every character is a digit `'0'`..`'9'`, the first is not `'0'` unless
/// the numeral is `"0"`, and read back as a number it gives `n`.
pub proof fn law_decimal_reads_back(n: nat)
    ensures
        numeral_value(decimal(n)) == n,
        forall|i: int|
            0 <= i < decimal(n).len() ==> '0' as int <= #[trigger] decimal(n)[i] as int <= '9' as int,
        decimal(n).len() > 1 ==> decimal(n)[0] != '0',
    decreases n,
{
    if n < 10 {
        assert(decimal(n).drop_last() =~= Seq::<char>::empty());
        assert(digit_char(n) as int == '0' as int + n);
        assert(decimal(n).last() == digit_char(n));
        assert(numeral_value(decimal(n)) == 10 * numeral_value(decimal(n).drop_last()) + (
        decimal(n).last() as int - '0' as int));
    } else {
        lemma_decimal_shape(n / 10);
        law_decimal_reads_back(n / 10);
        let d = decimal(n / 10);
        assert(decimal(n).drop_last() =~= d);
        assert(digit_char(n % 10) as int == '0' as int + n % 10);
        assert(n == 10 * (n / 10) + n % 10) by (nonlinear_arith);
        assert(decimal(n).last() == digit_char(n % 10));
        assert(numeral_value(decimal(n)) == 10 * numeral_value(decimal(n).drop_last()) + (
        decimal(n).last() as int - '0' as int));
        assert forall|i: int| 0 <= i < decimal(n).len() implies '0' as int <= #[trigger] decimal(n)[i] as int
            <= '9' as int by {
            if i < d.len() {
                assert(decimal(n)[i] == d[i]);
            }
        }
        if n / 10 < 10 {
            assert(d[0] == digit_char(n / 10));
            assert(n / 10 != 0);
        }
        assert(decimal(n)[0] == d[0]);
    }
}

proof fn lemma_decimal_shape(n: nat)
    ensures
        decimal(n).len() >= 1,
        n >= 10 ==> decimal(n).len() >= 2,
        forall|i: int| 0 <= i < decimal(n).len() ==> #[trigger] decimal(n)[i] != ':',
    decreases n,
{
    if n >= 10 {
        lemma_decimal_shape(n / 10);
        let d = decimal(n / 10);
        assert forall|i: int| 0 <= i < decimal(n).len() implies #[trigger] decimal(n)[i] != ':' by {
            if i < d.len() {
                assert(decimal(n)[i] == d[i]);
            }
        }
    }
}

proof fn lemma_decimal_injective(a: nat, b: nat)
    requires
        decimal(a) == decimal(b),
    ensures
        a == b,
    decreases a,
{
    lemma_decimal_shape(a);
    lemma_decimal_shape(b);
    if a < 10 && b < 10 {
        assert(decimal(a)[0] == digit_char(a));
        assert(decimal(b)[0] == digit_char(b));
    } else if a >= 10 && b >= 10 {
        let da = decimal(a / 10);
        let db = decimal(b / 10);
        assert(decimal(a).last() == digit_char(a % 10));
        assert(decimal(b).last() == digit_char(b % 10));
        assert(a % 10 == b % 10);
        assert(decimal(a).drop_last() =~= da);
        assert(decimal(b).drop_last() =~= db);
        lemma_decimal_injective(a / 10, b / 10);
        assert(a == 10 * (a / 10) + a % 10) by (nonlinear_arith);
        assert(b == 10 * (b / 10) + b % 10) by (nonlinear_arith);
    }
}

proof fn lemma_split_at_first(u1: Seq<char>, r1: Seq<char>, u2: Seq<char>, r2: Seq<char>, c: char)
    requires
        !u1.contains(c),
        !u2.contains(c),
        u1 + seq![c] + r1 == u2 + seq![c] + r2,
    ensures
        u1 == u2,
        r1 == r2,
{
    let s = u1 + seq![c] + r1;
    let t = u2 + seq![c] + r2;
    let n1 = u1.len() as int;
    let n2 = u2.len() as int;
    assert(s[n1] == c);
    assert(t[n2] == c);
    if n1 < n2 {
        assert(t[n1] == u2[n1]);
    }
    if n2 < n1 {
        assert(s[n2] == u1[n2]);
    }
    assert(u1 =~= s.take(n1));
    assert(u2 =~= t.take(n2));
    assert(r1 =~= s.skip(n1 + 1));
    assert(r2 =~= t.skip(n2 + 1));
}

proof fn lemma_split_at_last(h1: Seq<char>, d1: Seq<char>, h2: Seq<char>, d2: Seq<char>, c: char)
    requires
        !d1.contains(c),
        !d2.contains(c),
        h1 + seq![c] + d1 == h2 + seq![c] + d2,
    ensures
        h1 == h2,
        d1 == d2,
{
    let s = h1 + seq![c] + d1;
    let t = h2 + seq![c] + d2;
    let len = s.len() as int;
    let k1 = d1.len() as int;
    let k2 = d2.len() as int;
    assert(s[len - k1 - 1] == c);
    assert(t[len - k2 - 1] == c);
    if k1 < k2 {
        assert(t[len - k1 - 1] == d2[(len - k1 - 1) - (len - k2)]);
    }
    if k2 < k1 {
        assert(s[len - k2 - 1] == d1[(len - k2 - 1) - (len - k1)]);
    }
    assert(h1 =~= s.take(len - k1 - 1));
    assert(h2 =~= t.take(len - k2 - 1));
    assert(d1 =~= s.skip(len - k1));
    assert(d2 =~= t.skip(len - k2));
}

/// An identifier names one endpoint: when neither user name contains `@`,
/// two SSH profiles with the same identifier have the same user name, host
/// and port.
pub proof fn law_id_determines_endpoint(p1: ProfileSpec, p2: ProfileSpec)
    requires
        !p1.ssh().username.contains('@'),
        !p2.ssh().username.contains('@'),
        p1.id() == p2.id(),
    ensures
        p1.ssh().username == p2.ssh().username,
        p1.ssh().host == p2.ssh().host,
        p1.ssh().port == p2.ssh().port,
{
    let a = p1.ssh();
    let b = p2.ssh();
    assert(p1.id() == ssh_id(a));
    assert(p2.id() == ssh_id(b));
    let scheme = seq!['s', 's', 'h', ':', '/', '/'];
    let da = decimal(a.port as nat);
    let db = decimal(b.port as nat);
    let ra = a.host + seq![':'] + da;
    let rb = b.host + seq![':'] + db;
    assert(ssh_id(a) =~= scheme + (a.username + seq!['@'] + ra));
    assert(ssh_id(b) =~= scheme + (b.username + seq!['@'] + rb));
    assert((scheme + (a.username + seq!['@'] + ra)).skip(6) =~= a.username + seq!['@'] + ra);
    assert((scheme + (b.username + seq!['@'] + rb)).skip(6) =~= b.username + seq!['@'] + rb);
    lemma_split_at_first(a.username, ra, b.username, rb, '@');
    lemma_decimal_shape(a.port as nat);
    lemma_decimal_shape(b.port as nat);
    assert(!da.contains(':'));
    assert(!db.contains(':'));
    lemma_split_at_last(a.host, da, b.host, db, ':');
    lemma_decimal_injective(a.port as nat, b.port as nat);
}

fn digit_str(d: u16) -> (r: &'static str)
    requires
        d < 10,
    ensures
        r@ == seq![digit_char(d as nat)],
{
    match d {
        0 => {
            proof {
                reveal_strlit("0");
            }
            "0"
        },
        1 => {
            proof {
                reveal_strlit("1");
            }
            "1"
        },
        2 => {
            proof {
                reveal_strlit("2");
            }
            "2"
        },
        3 => {
            proof {
                reveal_strlit("3");
            }
            "3"
        },
        4 => {
            proof {
                reveal_strlit("4");
            }
            "4"
        },
        5 => {
            proof {
                reveal_strlit("5");
            }
            "5"
        },
        6 => {
            proof {
                reveal_strlit("6");
            }
            "6"
        },
        7 => {
            proof {
                reveal_strlit("7");
            }
            "7"
        },
        8 => {
            proof {
                reveal_strlit("8");
            }
            "8"
        },
        _ => {
            proof {
                reveal_strlit("9");
            }
            "9"
        },
    }
}

/// Writes `n` in decimal.
pub fn decimal_string(n: u16) -> (r: String)
    ensures
        r@ == decimal(n as nat),
        numeral_value(r@) == n,
    decreases n,
{
    proof {
        law_decimal_reads_back(n as nat);
    }
    if n < 10 {
        String::from_str(digit_str(n))
    } else {
        let mut s = decimal_string(n / 10);
        s.append(digit_str(n % 10));
        s
    }
}

/// The protocol a profile connects with, and its parameters.
#[derive(Clone, Debug)]
pub enum Protocol {
    Ssh(ssh::Profile),
}

/// The abstract value of a protocol choice.
pub enum ProtocolSpec {
    Ssh(SshProfileSpec),
}

impl View for Protocol {
    type V = ProtocolSpec;

    open spec fn view(&self) -> ProtocolSpec {
        match self {
            Protocol::Ssh(p) => ProtocolSpec::Ssh(p@),
        }
    }
}

/// The abstract value of a stored profile.
pub struct ProfileSpec {
    pub transport: Option<Seq<char>>,
    pub protocol: ProtocolSpec,
}

impl ProfileSpec {
    /// The identifier under which the profile is known.
    pub open spec fn id(self) -> Seq<char> {
        match self.protocol {
            ProtocolSpec::Ssh(p) => ssh_id(p),
        }
    }

    /// The SSH parameters of the profile.
    pub open spec fn ssh(self) -> SshProfileSpec {
        match self.protocol {
            ProtocolSpec::Ssh(p) => p,
        }
    }
}

/// A connection profile: the protocol to speak and, optionally, the
/// identifier of the profile whose session carries the connection.
#[derive(Clone, Debug)]
pub struct Profile {
    pub transport: Option<String>,
    pub protocol: Protocol,
}

pub open spec fn option_string_view(o: Option<String>) -> Option<Seq<char>> {
    match o {
        Some(s) => Some(s@),
        None => None,
    }
}

impl View for Profile {
    type V = ProfileSpec;

    open spec fn view(&self) -> ProfileSpec {
        ProfileSpec { transport: option_string_view(self.transport), protocol: self.protocol@ }
    }
}

impl Profile {
    /// The identifier of the profile, `ssh://{username}@{host}:{port}` for
    /// an SSH profile; the transport takes no part in it.
    pub fn id(&self) -> (r: String)
        ensures
            r@ == self@.id(),
    {
        match &self.protocol {
            Protocol::Ssh(p) => {
                proof {
                    reveal_strlit("ssh://");
                    reveal_strlit("@");
                    reveal_strlit(":");
                }
                let mut s = String::from_str("ssh://");
                s.append(p.username.as_str());
                s.append("@");
                s.append(p.host.as_str());
                s.append(":");
                let port = decimal_string(p.port);
                s.append(port.as_str());
                s
            },
        }
    }

    /// The SSH parameters of the profile.
    pub fn ssh(&self) -> (r: &ssh::Profile)
        ensures
            r@ == self@.ssh(),
    {
        match &self.protocol {
            Protocol::Ssh(p) => p,
        }
    }

    /// A field-by-field copy of the profile.
    pub fn duplicate(&self) -> (r: Profile)
        ensures
            r@ == self@,
    {
        let transport = match &self.transport {
            Some(t) => Some(t.clone()),
            None => None,
        };
        let protocol = match &self.protocol {
            Protocol::Ssh(p) => Protocol::Ssh(p.duplicate()),
        };
        Profile { transport, protocol }
    }
}

} // verus!

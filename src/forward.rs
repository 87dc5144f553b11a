use vstd::prelude::*;
use vstd::string::*;
use crate::text::{chars_of, push_char};

verus! {

/// One requested forward: `local_port` on this machine reaches `remote_port`
/// on the far side of `host`.
pub struct TunnelSpec {
    pub host: String,
    pub local_port: u16,
    pub remote_port: u16,
}

/// The mathematical value of a [`TunnelSpec`].
pub struct TunnelSpecView {
    pub host: Seq<char>,
    pub local_port: u16,
    pub remote_port: u16,
}

impl View for TunnelSpec {
    type V = TunnelSpecView;

    open spec fn view(&self) -> TunnelSpecView {
        TunnelSpecView { host: self.host@, local_port: self.local_port, remote_port: self.remote_port }
    }
}

/// Why a `<host> <local>:<remote>` text was refused.
#[derive(Clone, Copy, Debug, PartialEq, Eq, Structural)]
pub enum ParseError {
    /// The text does not hold exactly one space.
    BadSpacing,
    /// The part after the space does not hold exactly one colon.
    BadPortPair,
    /// The local port is not an unsigned 16-bit number.
    BadLocalPort,
    /// The remote port is not an unsigned 16-bit number.
    BadRemotePort,
}

pub open spec fn is_digit(c: char) -> bool {
    '0' <= c && c <= '9'
}

pub open spec fn digit_value(c: char) -> nat {
    (c as u32 - '0' as u32) as nat
}

pub open spec fn all_digits(d: Seq<char>) -> bool {
    forall|k: int| 0 <= k < d.len() ==> is_digit(#[trigger] d[k])
}

/// The number that a sequence of decimal digits writes, most significant first.
pub open spec fn digits_value(d: Seq<char>) -> nat
    decreases d.len(),
{
    if d.len() == 0 {
        0
    } else {
        digits_value(d.drop_last()) * 10 + digit_value(d.last())
    }
}

/// The digits of a port after an optional leading `+`.
pub open spec fn unsigned_digits(s: Seq<char>) -> Seq<char> {
    if s.len() > 0 && s[0] == '+' {
        s.drop_first()
    } else {
        s
    }
}

/// The port that `s` writes: an optional `+`, then one or more decimal
/// digits whose value fits in 16 bits.
pub open spec fn port_value(s: Seq<char>) -> Option<u16> {
    let d = unsigned_digits(s);
    if d.len() > 0 && all_digits(d) && digits_value(d) <= u16::MAX {
        Some(digits_value(d) as u16)
    } else {
        None
    }
}

/// `i` is the one position of `c` in `s`.
pub open spec fn sole_index(s: Seq<char>, c: char, i: int) -> bool {
    &&& 0 <= i < s.len()
    &&& s[i] == c
    &&& forall|k: int| 0 <= k < s.len() && #[trigger] s[k] == c ==> k == i
}

/// The meaning of the text form `<host> <local>:<remote>`.
pub open spec fn parse_text(s: Seq<char>) -> Result<TunnelSpecView, ParseError> {
    if exists|i: int| sole_index(s, ' ', i) {
        let i = choose|i: int| sole_index(s, ' ', i);
        let ports = s.subrange(i + 1, s.len() as int);
        if exists|j: int| sole_index(ports, ':', j) {
            let j = choose|j: int| sole_index(ports, ':', j);
            match port_value(ports.subrange(0, j)) {
                None => Err(ParseError::BadLocalPort),
                Some(l) => match port_value(ports.subrange(j + 1, ports.len() as int)) {
                    None => Err(ParseError::BadRemotePort),
                    Some(r) => Ok(
                        TunnelSpecView { host: s.subrange(0, i), local_port: l, remote_port: r },
                    ),
                },
            }
        } else {
            Err(ParseError::BadPortPair)
        }
    } else {
        Err(ParseError::BadSpacing)
    }
}

/// The character of a decimal digit below ten.
pub open spec fn digit_char(d: nat) -> char {
    seq!['0', '1', '2', '3', '4', '5', '6', '7', '8', '9'][d as int]
}

/// The shortest decimal writing of `n`.
pub open spec fn decimal(n: nat) -> Seq<char>
    decreases n,
{
    if n < 10 {
        seq![digit_char(n)]
    } else {
        decimal(n / 10).push(digit_char(n % 10))
    }
}

/// Caps a value at one past the largest port.
pub open spec fn capped(v: int) -> int {
    if v > u16::MAX {
        u16::MAX + 1
    } else {
        v
    }
}

/// First position of `c` in `t[from..to]`.
fn find_char(t: &Vec<char>, c: char, from: usize, to: usize) -> (r: Option<usize>)
    requires
        from <= to <= t@.len(),
    ensures
        match r {
            Some(k) => from <= k < to && t@[k as int] == c && forall|m: int|
                from <= m < k ==> t@[m] != c,
            None => forall|m: int| from <= m < to ==> t@[m] != c,
        },
{
    let mut k = from;
    while k < to
        invariant
            from <= k <= to <= t@.len(),
            forall|m: int| from <= m < k ==> t@[m] != c,
        decreases to - k,
    {
        if t[k] == c {
            return Some(k);
        }
        k = k + 1;
    }
    None
}

/// The port that `t[lo..hi]` writes.
fn parse_port(t: &Vec<char>, lo: usize, hi: usize) -> (r: Option<u16>)
    requires
        lo <= hi <= t@.len(),
    ensures
        r == port_value(t@.subrange(lo as int, hi as int)),
{
    let ghost s = t@.subrange(lo as int, hi as int);
    let mut k = lo;
    if k < hi && t[k] == '+' {
        k = k + 1;
        assert(unsigned_digits(s) =~= t@.subrange(k as int, hi as int));
    } else {
        assert(unsigned_digits(s) =~= t@.subrange(k as int, hi as int));
    }
    if k == hi {
        return None;
    }
    let mut acc: u32 = 0;
    let mut m = k;
    while m < hi
        invariant
            lo <= k < hi <= t@.len(),
            k <= m <= hi,
            s == t@.subrange(lo as int, hi as int),
            unsigned_digits(s) == t@.subrange(k as int, hi as int),
            acc as int == capped(digits_value(t@.subrange(k as int, m as int)) as int),
            all_digits(t@.subrange(k as int, m as int)),
        decreases hi - m,
    {
        let c = t[m];
        if !('0' <= c && c <= '9') {
            assert(t@.subrange(k as int, hi as int)[m - k] == c);
            assert(!is_digit(unsigned_digits(s)[m - k]));
            return None;
        }
        let d = (c as u32) - ('0' as u32);
        let ghost prev = t@.subrange(k as int, m as int);
        let ghost next = t@.subrange(k as int, m + 1);
        assert(next.drop_last() =~= prev);
        assert(next.last() == c);
        assert(capped(capped(digits_value(prev) as int) * 10 + d) == capped(digits_value(prev) * 10 + d))
            by (nonlinear_arith)
            requires
                d < 10,
        ;
        if acc * 10 + d > 65535 {
            acc = 65536;
        } else {
            acc = acc * 10 + d;
        }
        m = m + 1;
        assert(all_digits(next)) by {
            assert forall|q: int| 0 <= q < next.len() implies is_digit(#[trigger] next[q]) by {
                if q < prev.len() {
                    assert(next[q] == prev[q]);
                }
            }
        }
    }
    if acc > 65535 {
        None
    } else {
        Some(acc as u16)
    }
}

/// Reads the text form `<host> <local>:<remote>`: exactly one space between
/// the host and the ports, exactly one colon between the two ports.
pub fn get_config_from_str(input: &str) -> (r: Result<TunnelSpec, ParseError>)
    ensures
        match r {
            Ok(spec) => parse_text(input@) == Ok::<TunnelSpecView, ParseError>(spec@),
            Err(e) => parse_text(input@) == Err::<TunnelSpecView, ParseError>(e),
        },
{
    let t = chars_of(input);
    let n = t.len();
    let ghost s = input@;
    let i = match find_char(&t, ' ', 0, n) {
        None => {
            assert(!exists|i: int| sole_index(s, ' ', i));
            return Err(ParseError::BadSpacing);
        },
        Some(i) => i,
    };
    match find_char(&t, ' ', i + 1, n) {
        Some(k) => {
            assert(!exists|i: int| sole_index(s, ' ', i)) by {
                assert(s[i as int] == ' ' && s[k as int] == ' ');
            }
            return Err(ParseError::BadSpacing);
        },
        None => {},
    }
    assert(sole_index(s, ' ', i as int));
    let ghost ports = s.subrange(i + 1, s.len() as int);
    let j = match find_char(&t, ':', i + 1, n) {
        None => {
            assert(!exists|j: int| sole_index(ports, ':', j)) by {
                assert forall|j: int| 0 <= j < ports.len() implies ports[j] != ':' by {
                    assert(ports[j] == s[i + 1 + j]);
                }
            }
            return Err(ParseError::BadPortPair);
        },
        Some(j) => j,
    };
    match find_char(&t, ':', j + 1, n) {
        Some(k) => {
            assert(!exists|q: int| sole_index(ports, ':', q)) by {
                assert(ports[j - i - 1] == ':' && ports[k - i - 1] == ':');
            }
            return Err(ParseError::BadPortPair);
        },
        None => {},
    }
    assert(sole_index(ports, ':', j - i - 1)) by {
        assert forall|q: int| 0 <= q < ports.len() && #[trigger] ports[q] == ':' implies q == j - i
            - 1 by {
            assert(ports[q] == s[i + 1 + q]);
        }
    }
    assert(ports.subrange(0, j - i - 1) =~= s.subrange(i + 1, j as int));
    assert(ports.subrange(j - i, ports.len() as int) =~= s.subrange(j + 1, n as int));
    let local_port = match parse_port(&t, i + 1, j) {
        None => return Err(ParseError::BadLocalPort),
        Some(p) => p,
    };
    let remote_port = match parse_port(&t, j + 1, n) {
        None => return Err(ParseError::BadRemotePort),
        Some(p) => p,
    };
    let host = String::from_str(input.substring_char(0, i));
    Ok(TunnelSpec { host, local_port, remote_port })
}

proof fn lemma_digit_char(d: nat)
    requires
        d < 10,
    ensures
        is_digit(digit_char(d)),
        digit_value(digit_char(d)) == d,
{
    assert(seq!['0', '1', '2', '3', '4', '5', '6', '7', '8', '9'][d as int] == digit_char(d));
    if d == 0 {} else if d == 1 {} else if d == 2 {} else if d == 3 {} else if d == 4 {}
    else if d == 5 {} else if d == 6 {} else if d == 7 {} else if d == 8 {} else {}
}

/// The decimal writing of `n` is a non-empty run of digits whose value is `n`.
pub proof fn lemma_decimal(n: nat)
    ensures
        decimal(n).len() > 0,
        all_digits(decimal(n)),
        digits_value(decimal(n)) == n,
    decreases n,
{
    if n < 10 {
        lemma_digit_char(n);
        assert(decimal(n).drop_last() =~= Seq::<char>::empty());
        assert(digits_value(Seq::<char>::empty()) == 0);
        assert(digits_value(decimal(n)) == digits_value(decimal(n).drop_last()) * 10 + digit_value(
            decimal(n).last(),
        ));
    } else {
        lemma_decimal(n / 10);
        lemma_digit_char(n % 10);
        let d = decimal(n);
        assert(d.drop_last() =~= decimal(n / 10));
        assert(d.last() == digit_char(n % 10));
        assert((n / 10) * 10 + n % 10 == n) by (nonlinear_arith);
        assert(digits_value(d) == digits_value(decimal(n / 10)) * 10 + digit_value(d.last()));
        assert forall|k: int| 0 <= k < d.len() implies is_digit(#[trigger] d[k]) by {
            if k < d.len() - 1 {
                assert(d[k] == decimal(n / 10)[k]);
            }
        }
    }
}

/// A port written in decimal reads back as itself.
pub proof fn lemma_port_value_decimal(p: u16)
    ensures
        port_value(decimal(p as nat)) == Some(p),
{
    let d = decimal(p as nat);
    lemma_decimal(p as nat);
    assert(is_digit(d[0]));
    assert(unsigned_digits(d) == d);
}

/// Writing a host that holds no space and two ports as `<host> <local>:<remote>`,
/// with the ports in decimal, and reading the text back gives the same host and
/// ports.
pub proof fn lemma_parse_round_trip(h: Seq<char>, p: u16, r: u16)
    requires
        forall|k: int| 0 <= k < h.len() ==> h[k] != ' ',
    ensures
        parse_text(h + seq![' '] + decimal(p as nat) + seq![':'] + decimal(r as nat)) == Ok::<
            TunnelSpecView,
            ParseError,
        >(TunnelSpecView { host: h, local_port: p, remote_port: r }),
{
    let dp = decimal(p as nat);
    let dr = decimal(r as nat);
    lemma_decimal(p as nat);
    lemma_decimal(r as nat);
    lemma_port_value_decimal(p);
    lemma_port_value_decimal(r);
    let s = h + seq![' '] + dp + seq![':'] + dr;
    let i = h.len() as int;
    assert forall|k: int| 0 <= k < s.len() && #[trigger] s[k] == ' ' implies k == i by {
        if k < i {
            assert(s[k] == h[k]);
        } else if i < k < i + 1 + dp.len() {
            assert(s[k] == dp[k - i - 1]);
            assert(is_digit(dp[k - i - 1]));
        } else if k == i + 1 + dp.len() {
        } else if k > i + 1 + dp.len() {
            assert(s[k] == dr[k - i - 2 - dp.len()]);
            assert(is_digit(dr[k - i - 2 - dp.len()]));
        }
    }
    assert(sole_index(s, ' ', i));
    let ports = s.subrange(i + 1, s.len() as int);
    assert(ports =~= dp + seq![':'] + dr);
    let j = dp.len() as int;
    assert forall|k: int| 0 <= k < ports.len() && #[trigger] ports[k] == ':' implies k == j by {
        if k < j {
            assert(ports[k] == dp[k]);
            assert(is_digit(dp[k]));
        } else if k > j {
            assert(ports[k] == dr[k - j - 1]);
            assert(is_digit(dr[k - j - 1]));
        }
    }
    assert(sole_index(ports, ':', j));
    assert(ports.subrange(0, j) =~= dp);
    assert(ports.subrange(j + 1, ports.len() as int) =~= dr);
    assert(s.subrange(0, i) =~= h);
}

/// A text without any space, or without any colon, is refused.
pub proof fn lemma_parse_rejects_missing_separator(s: Seq<char>)
    ensures
        (forall|k: int| 0 <= k < s.len() ==> s[k] != ' ') ==> parse_text(s) == Err::<
            TunnelSpecView,
            ParseError,
        >(ParseError::BadSpacing),
        (forall|k: int| 0 <= k < s.len() ==> s[k] != ':') ==> parse_text(s) is Err,
{
    if forall|k: int| 0 <= k < s.len() ==> s[k] != ':' {
        if exists|i: int| sole_index(s, ' ', i) {
            let i = choose|i: int| sole_index(s, ' ', i);
            let ports = s.subrange(i + 1, s.len() as int);
            assert forall|j: int| 0 <= j < ports.len() implies ports[j] != ':' by {
                assert(ports[j] == s[i + 1 + j]);
            }
            assert(!exists|j: int| sole_index(ports, ':', j));
        }
    }
}

/// A port segment that holds a character other than a digit or `+` is no port.
pub open spec fn non_numeric(a: Seq<char>) -> bool {
    exists|k: int| 0 <= k < a.len() && a[k] != '+' && !is_digit(#[trigger] a[k])
}

proof fn lemma_non_numeric_port(a: Seq<char>)
    requires
        non_numeric(a),
    ensures
        port_value(a) is None,
{
    let k = choose|k: int| 0 <= k < a.len() && a[k] != '+' && !is_digit(#[trigger] a[k]);
    let d = unsigned_digits(a);
    if a.len() > 0 && a[0] == '+' {
        assert(d[k - 1] == a[k]);
    } else {
        assert(d[k] == a[k]);
    }
}

/// A text of the form `<host> <local>:<remote>` whose local or remote segment
/// is not numeric is refused.
pub proof fn lemma_parse_rejects_non_numeric(h: Seq<char>, a: Seq<char>, b: Seq<char>)
    requires
        forall|k: int| 0 <= k < h.len() ==> h[k] != ' ',
        forall|k: int| 0 <= k < a.len() ==> a[k] != ' ' && a[k] != ':',
        forall|k: int| 0 <= k < b.len() ==> b[k] != ' ' && b[k] != ':',
        non_numeric(a) || non_numeric(b),
    ensures
        parse_text(h + seq![' '] + a + seq![':'] + b) is Err,
{
    let s = h + seq![' '] + a + seq![':'] + b;
    let i = h.len() as int;
    assert forall|k: int| 0 <= k < s.len() && #[trigger] s[k] == ' ' implies k == i by {
        if k < i {
            assert(s[k] == h[k]);
        } else if i < k < i + 1 + a.len() {
            assert(s[k] == a[k - i - 1]);
        } else if k > i + 1 + a.len() {
            assert(s[k] == b[k - i - 2 - a.len()]);
        }
    }
    assert(sole_index(s, ' ', i));
    let ports = s.subrange(i + 1, s.len() as int);
    assert(ports =~= a + seq![':'] + b);
    let j = a.len() as int;
    assert forall|k: int| 0 <= k < ports.len() && #[trigger] ports[k] == ':' implies k == j by {
        if k < j {
            assert(ports[k] == a[k]);
        } else if k > j {
            assert(ports[k] == b[k - j - 1]);
        }
    }
    assert(sole_index(ports, ':', j));
    assert(ports.subrange(0, j) =~= a);
    assert(ports.subrange(j + 1, ports.len() as int) =~= b);
    if non_numeric(a) {
        lemma_non_numeric_port(a);
    } else {
        lemma_non_numeric_port(b);
    }
}

/// The character of the digit `d`.
fn digit_to_char(d: u16) -> (c: char)
    requires
        d < 10,
    ensures
        c == digit_char(d as nat),
{
    if d == 0 { '0' } else if d == 1 { '1' } else if d == 2 { '2' } else if d == 3 { '3' }
    else if d == 4 { '4' } else if d == 5 { '5' } else if d == 6 { '6' } else if d == 7 { '7' }
    else if d == 8 { '8' } else { '9' }
}

/// Appends the decimal writing of `n` to `out`.
fn push_decimal(out: &mut String, n: u16)
    ensures
        final(out)@ == old(out)@ + decimal(n as nat),
    decreases n,
{
    if n >= 10 {
        push_decimal(out, n / 10);
    }
    let c = digit_to_char(n % 10);
    push_char(out, c);
    if n < 10 {
        assert(final(out)@ =~= old(out)@ + decimal(n as nat));
    } else {
        assert(final(out)@ =~= old(out)@ + decimal(n as nat));
    }
}

/// The decimal writing of a port.
pub fn port_to_string(n: u16) -> (r: String)
    ensures
        r@ == decimal(n as nat),
{
    let mut r = String::new();
    push_decimal(&mut r, n);
    assert(r@ =~= decimal(n as nat));
    r
}

/// The value handed to ssh's `-L`: `<local>:127.0.0.1:<remote>`.
pub open spec fn forward_arg(local_port: u16, remote_port: u16) -> Seq<char> {
    decimal(local_port as nat) + ":127.0.0.1:"@ + decimal(remote_port as nat)
}

/// The arguments of the ssh process that holds one forward open: no remote
/// command, no terminal, and the local forward through the spec's host.
pub open spec fn ssh_args_of(spec: TunnelSpecView) -> Seq<Seq<char>> {
    seq!["-N"@, "-T"@, "-L"@, forward_arg(spec.local_port, spec.remote_port), spec.host]
}

/// Builds the arguments of the ssh process for `spec`.
pub fn ssh_args(spec: &TunnelSpec) -> (r: Vec<String>)
    ensures
        r@.map_values(|s: String| s@) == ssh_args_of(spec@),
{
    let mut forward = port_to_string(spec.local_port);
    forward.append(":127.0.0.1:");
    let remote = port_to_string(spec.remote_port);
    forward.append(remote.as_str());
    let mut r: Vec<String> = Vec::new();
    r.push(String::from_str("-N"));
    r.push(String::from_str("-T"));
    r.push(String::from_str("-L"));
    r.push(forward);
    r.push(spec.host.clone());
    assert(r@.map_values(|s: String| s@) =~= ssh_args_of(spec@));
    r
}

/// One forward per requested port, each through `host`, with the same port on
/// both sides, in the order of `ports`.
pub fn forwards_for_ports(ports: &Vec<u16>, host: &str) -> (r: Vec<TunnelSpec>)
    ensures
        r@.len() == ports@.len(),
        forall|k: int|
            0 <= k < r@.len() ==> #[trigger] r@[k]@ == (TunnelSpecView {
                host: host@,
                local_port: ports@[k],
                remote_port: ports@[k],
            }),
{
    let mut r: Vec<TunnelSpec> = Vec::new();
    let mut i: usize = 0;
    while i < ports.len()
        invariant
            i <= ports@.len(),
            r@.len() == i,
            forall|k: int|
                0 <= k < i ==> #[trigger] r@[k]@ == (TunnelSpecView {
                    host: host@,
                    local_port: ports@[k],
                    remote_port: ports@[k],
                }),
        decreases ports@.len() - i,
    {
        let p = ports[i];
        r.push(TunnelSpec { host: String::from_str(host), local_port: p, remote_port: p });
        i = i + 1;
    }
    r
}

} // verus!

//! The session credential and its persisted record form.
//!
//! A credential is the opaque session material owned by the credential
//! store: access token, device identifier and associated metadata. The
//! store persists it as a single text record; this module defines that
//! record form (`spec_encode`/`spec_decode`) together with the verified
//! encoder and decoder, and proves that decoding an encoded record gives
//! back the credential.
//!
//! Record layout, all text: three mandatory fields (user id, device id,
//! access token) followed by an optional refresh token. Each field is its
//! character count as sixteen lower-case hex digits, then the characters
//! themselves; the optional field is preceded by `+` when present and
//! replaced by `-` when absent. A single trailing newline is accepted.

use vstd::prelude::*;

use vstd::arithmetic::div_mod::{lemma_breakdown, lemma_div_by_multiple, lemma_small_mod};

verus! {

/// Session material persisted for one user identity.
#[derive(Debug, Clone, PartialEq, Eq)]
pub struct SessionCredential {
    pub user_id: String,
    pub device_id: String,
    pub access_token: String,
    pub refresh_token: Option<String>,
}

/// Mathematical image of a credential: each field as a character sequence.
pub struct CredentialView {
    pub user_id: Seq<char>,
    pub device_id: Seq<char>,
    pub access_token: Seq<char>,
    pub refresh_token: Option<Seq<char>>,
}

impl View for SessionCredential {
    type V = CredentialView;

    open spec fn view(&self) -> CredentialView {
        CredentialView {
            user_id: self.user_id@,
            device_id: self.device_id@,
            access_token: self.access_token@,
            refresh_token: match self.refresh_token {
                Some(r) => Some(r@),
                None => None,
            },
        }
    }
}

impl CredentialView {
    /// Every field short enough for its sixteen-digit length prefix.
    /// Any credential held in memory satisfies this.
    pub open spec fn wf(self) -> bool {
        &&& self.user_id.len() < pow16(16)
        &&& self.device_id.len() < pow16(16)
        &&& self.access_token.len() < pow16(16)
        &&& match self.refresh_token {
            Some(r) => r.len() < pow16(16),
            None => true,
        }
    }
}

/// How an operation of the credential store fails.
#[derive(Debug, Clone, PartialEq, Eq)]
pub enum StoreError {
    /// The stored bytes are not a well-formed credential record.
    Corrupt,
    /// The physical backend reported a failure, carried verbatim.
    Backend { message: String },
}

impl StoreError {
    /// Human-readable form of the error.
    pub fn describe(&self) -> (r: String)
        ensures
            self is Corrupt ==> r@ == "stored record does not decode"@,
            self matches StoreError::Backend { message } ==> r@ == message@,
    {
        match self {
            StoreError::Corrupt => {
                let s: &str = "stored record does not decode";
                s.to_owned()
            },
            StoreError::Backend { message } => message.clone(),
        }
    }
}

/// Sixteen to the power `k`.
pub open spec fn pow16(k: nat) -> nat
    decreases k,
{
    if k == 0 {
        1
    } else {
        16 * pow16((k - 1) as nat)
    }
}

proof fn lemma_pow16_pos(k: nat)
    ensures
        pow16(k) >= 1,
    decreases k,
{
    if k > 0 {
        lemma_pow16_pos((k - 1) as nat);
    }
}

proof fn lemma_pow16_mono(a: nat, b: nat)
    requires
        a <= b,
    ensures
        pow16(a) <= pow16(b),
    decreases b,
{
    if a < b {
        lemma_pow16_mono(a, (b - 1) as nat);
        lemma_pow16_pos((b - 1) as nat);
    }
}

proof fn lemma_pow16_values()
    ensures
        pow16(15) == 0x1000_0000_0000_0000,
        pow16(16) == 0x1_0000_0000_0000_0000,
{
    reveal_with_fuel(pow16, 17);
}

/// The hex digit for a value below sixteen.
pub open spec fn spec_hex_digit(n: u8) -> char {
    if n == 0 {
        '0'
    } else if n == 1 {
        '1'
    } else if n == 2 {
        '2'
    } else if n == 3 {
        '3'
    } else if n == 4 {
        '4'
    } else if n == 5 {
        '5'
    } else if n == 6 {
        '6'
    } else if n == 7 {
        '7'
    } else if n == 8 {
        '8'
    } else if n == 9 {
        '9'
    } else if n == 10 {
        'a'
    } else if n == 11 {
        'b'
    } else if n == 12 {
        'c'
    } else if n == 13 {
        'd'
    } else if n == 14 {
        'e'
    } else {
        'f'
    }
}

/// The value of a lower-case hex digit.
pub open spec fn spec_hex_val(c: char) -> Option<u8> {
    match c {
        '0' => Some(0u8),
        '1' => Some(1u8),
        '2' => Some(2u8),
        '3' => Some(3u8),
        '4' => Some(4u8),
        '5' => Some(5u8),
        '6' => Some(6u8),
        '7' => Some(7u8),
        '8' => Some(8u8),
        '9' => Some(9u8),
        'a' => Some(10u8),
        'b' => Some(11u8),
        'c' => Some(12u8),
        'd' => Some(13u8),
        'e' => Some(14u8),
        'f' => Some(15u8),
        _ => None,
    }
}

proof fn lemma_hex_digit_val(n: u8)
    requires
        n < 16,
    ensures
        spec_hex_val(spec_hex_digit(n)) == Some(n),
{
}

/// Digit `i` (big-endian, sixteen digits) of a 64-bit value.
pub open spec fn spec_nibble(n: u64, i: int) -> u8 {
    (((n as nat) / pow16((15 - i) as nat)) % 16) as u8
}

/// A 64-bit value as sixteen lower-case hex digits, most significant first.
pub open spec fn spec_hex16(n: u64) -> Seq<char> {
    Seq::new(16, |i: int| spec_hex_digit(spec_nibble(n, i)))
}

/// Left fold of a hex digit run onto an accumulator; `None` on the first
/// character that is not a lower-case hex digit.
pub open spec fn spec_hex_acc(s: Seq<char>, acc: nat) -> Option<nat>
    decreases s.len(),
{
    if s.len() == 0 {
        Some(acc)
    } else {
        match spec_hex_val(s[0]) {
            Some(d) => spec_hex_acc(s.drop_first(), 16 * acc + d as nat),
            None => None,
        }
    }
}

proof fn lemma_hex16_acc(n: u64, i: int, acc: nat)
    requires
        0 <= i <= 16,
    ensures
        spec_hex_acc(spec_hex16(n).subrange(i, 16), acc) == Some(
            acc * pow16((16 - i) as nat) + (n as nat) % pow16((16 - i) as nat),
        ),
    decreases 16 - i,
{
    if i == 16 {
        assert(spec_hex16(n).subrange(16, 16) =~= Seq::<char>::empty());
        assert(acc * pow16(0) == acc) by (nonlinear_arith)
            requires
                pow16(0) == 1,
        ;
        assert((n as nat) % pow16(0) == 0);
    } else {
        lemma_pow16_pos((15 - i) as nat);
        let d = spec_nibble(n, i);
        let s = spec_hex16(n).subrange(i, 16);
        assert(s[0] == spec_hex_digit(d));
        lemma_hex_digit_val(d);
        assert(s.drop_first() =~= spec_hex16(n).subrange(i + 1, 16));
        lemma_hex16_acc(n, i + 1, 16 * acc + d as nat);
        let ps = pow16((15 - i) as nat) as int;
        let pb = pow16((16 - i) as nat) as int;
        let nn = n as int;
        let dd = d as int;
        let aa = acc as int;
        assert(pb == 16 * ps);
        lemma_breakdown(nn, ps, 16);
        assert(nn % (ps * 16) == ps * ((nn / ps) % 16) + nn % ps);
        assert(dd == (nn / ps) % 16);
        assert((16 * aa + dd) * ps + nn % ps == aa * pb + nn % pb) by (nonlinear_arith)
            requires
                pb == 16 * ps,
                nn >= 0,
                ps > 0,
                nn % (ps * 16) == ps * ((nn / ps) % 16) + nn % ps,
                dd == (nn / ps) % 16,
        ;
    }
}

proof fn lemma_hex16_roundtrip(n: u64)
    ensures
        spec_hex_acc(spec_hex16(n), 0) == Some(n as nat),
{
    lemma_hex16_acc(n, 0, 0);
    lemma_pow16_values();
    assert(spec_hex16(n).subrange(0, 16) =~= spec_hex16(n));
    lemma_small_mod(n as nat, pow16(16));
}

fn hex_digit_str(d: u8) -> (r: &'static str)
    requires
        d < 16,
    ensures
        r@ == seq![spec_hex_digit(d)],
{
    let r: &'static str = match d {
        0 => "0",
        1 => "1",
        2 => "2",
        3 => "3",
        4 => "4",
        5 => "5",
        6 => "6",
        7 => "7",
        8 => "8",
        9 => "9",
        10 => "a",
        11 => "b",
        12 => "c",
        13 => "d",
        14 => "e",
        _ => "f",
    };
    proof {
        reveal_strlit("0");
        reveal_strlit("1");
        reveal_strlit("2");
        reveal_strlit("3");
        reveal_strlit("4");
        reveal_strlit("5");
        reveal_strlit("6");
        reveal_strlit("7");
        reveal_strlit("8");
        reveal_strlit("9");
        reveal_strlit("a");
        reveal_strlit("b");
        reveal_strlit("c");
        reveal_strlit("d");
        reveal_strlit("e");
        reveal_strlit("f");
        assert(r@ =~= seq![spec_hex_digit(d)]);
    }
    r
}

fn hex_val(c: char) -> (r: Option<u8>)
    ensures
        r == spec_hex_val(c),
{
    match c {
        '0' => Some(0),
        '1' => Some(1),
        '2' => Some(2),
        '3' => Some(3),
        '4' => Some(4),
        '5' => Some(5),
        '6' => Some(6),
        '7' => Some(7),
        '8' => Some(8),
        '9' => Some(9),
        'a' => Some(10),
        'b' => Some(11),
        'c' => Some(12),
        'd' => Some(13),
        'e' => Some(14),
        'f' => Some(15),
        _ => None,
    }
}

fn append_hex16(out: &mut String, n: u64)
    ensures
        final(out)@ == old(out)@ + spec_hex16(n),
{
    let mut p: u64 = 0x1000_0000_0000_0000;
    proof {
        lemma_pow16_values();
    }
    let mut k: usize = 0;
    while k < 16
        invariant
            k <= 16,
            k < 16 ==> p as nat == pow16((15 - k) as nat),
            out@ == old(out)@ + spec_hex16(n).subrange(0, k as int),
        decreases 16 - k,
    {
        proof {
            lemma_pow16_pos((15 - k) as nat);
        }
        let d = ((n / p) % 16) as u8;
        assert(d == spec_nibble(n, k as int));
        out.append(hex_digit_str(d));
        proof {
            assert(spec_hex16(n).subrange(0, k + 1 as int) =~= spec_hex16(n).subrange(
                0,
                k as int,
            ).push(spec_hex_digit(spec_nibble(n, k as int))));
            assert(old(out)@ + spec_hex16(n).subrange(0, k + 1 as int) =~= (old(out)@ + spec_hex16(
                n,
            ).subrange(0, k as int)) + seq![spec_hex_digit(d)]);
        }
        k += 1;
        if k < 16 {
            proof {
                assert(pow16((16 - k) as nat) == 16 * pow16((15 - k) as nat));
                lemma_pow16_pos((15 - k) as nat);
                lemma_div_by_multiple(pow16((15 - k) as nat) as int, 16);
                assert(pow16((15 - k) as nat) as int * 16 == 16 * pow16((15 - k) as nat) as int);
            }
            p = p / 16;
        }
    }
    proof {
        assert(spec_hex16(n).subrange(0, 16) =~= spec_hex16(n));
    }
}

/// One field in record form: sixteen hex digits of length, then the text.
pub open spec fn spec_enc_field(s: Seq<char>) -> Seq<char> {
    spec_hex16(s.len() as u64) + s
}

fn append_enc_field(out: &mut String, s: &String)
    ensures
        final(out)@ == old(out)@ + spec_enc_field(s@),
        s@.len() < pow16(16),
{
    let l = s.as_str().unicode_len();
    proof {
        lemma_pow16_values();
    }
    append_hex16(out, l as u64);
    out.append(s.as_str());
    proof {
        assert(out@ =~= old(out)@ + spec_enc_field(s@));
    }
}

/// A credential in record form.
pub open spec fn spec_encode(c: CredentialView) -> Seq<char> {
    spec_enc_field(c.user_id) + spec_enc_field(c.device_id) + spec_enc_field(c.access_token)
        + match c.refresh_token {
        Some(r) => seq!['+'] + spec_enc_field(r),
        None => seq!['-'],
    }
}

/// Serializes a credential to its record form.
pub fn encode_credential(c: &SessionCredential) -> (r: String)
    ensures
        r@ == spec_encode(c@),
        c@.wf(),
{
    let mut out = String::new();
    append_enc_field(&mut out, &c.user_id);
    append_enc_field(&mut out, &c.device_id);
    append_enc_field(&mut out, &c.access_token);
    match &c.refresh_token {
        None => {
            proof {
                reveal_strlit("-");
            }
            out.append("-");
            proof {
                assert(out@ =~= spec_encode(c@));
            }
        },
        Some(rt) => {
            proof {
                reveal_strlit("+");
            }
            out.append("+");
            append_enc_field(&mut out, rt);
            proof {
                assert(out@ =~= spec_encode(c@));
            }
        },
    }
    out
}

/// One parsed field: the text and the position just past it.
pub open spec fn spec_parse_field(s: Seq<char>, p: int) -> Option<(Seq<char>, int)> {
    if 0 <= p && p + 16 <= s.len() {
        match spec_hex_acc(s.subrange(p, p + 16), 0) {
            Some(n) => if p + 16 + n <= s.len() {
                Some((s.subrange(p + 16, p + 16 + n), p + 16 + n))
            } else {
                None
            },
            None => None,
        }
    } else {
        None
    }
}

/// True when `p` is the end of the record: nothing follows, or exactly one
/// trailing newline does.
pub open spec fn spec_tail_ok(s: Seq<char>, p: int) -> bool {
    p == s.len() || (p + 1 == s.len() && s[p] == '\n')
}

/// Total parse of a record; `None` on any malformed input.
pub open spec fn spec_decode(s: Seq<char>) -> Option<CredentialView> {
    match spec_parse_field(s, 0) {
        None => None,
        Some((u, p1)) => match spec_parse_field(s, p1) {
            None => None,
            Some((d, p2)) => match spec_parse_field(s, p2) {
                None => None,
                Some((a, p3)) => if p3 < s.len() && s[p3] == '-' {
                    if spec_tail_ok(s, p3 + 1) {
                        Some(
                            CredentialView {
                                user_id: u,
                                device_id: d,
                                access_token: a,
                                refresh_token: None,
                            },
                        )
                    } else {
                        None
                    }
                } else if p3 < s.len() && s[p3] == '+' {
                    match spec_parse_field(s, p3 + 1) {
                        None => None,
                        Some((r, p4)) => if spec_tail_ok(s, p4) {
                            Some(
                                CredentialView {
                                    user_id: u,
                                    device_id: d,
                                    access_token: a,
                                    refresh_token: Some(r),
                                },
                            )
                        } else {
                            None
                        },
                    }
                } else {
                    None
                },
            },
        },
    }
}

fn parse_field(s: &str, p: usize, n: usize) -> (r: Option<(String, usize)>)
    requires
        n == s@.len(),
        p <= n,
    ensures
        match r {
            Some(pair) => spec_parse_field(s@, p as int) == Some((pair.0@, pair.1 as int)) && p
                < pair.1 <= n,
            None => spec_parse_field(s@, p as int) is None,
        },
{
    if n - p < 16 {
        return None;
    }
    proof {
        lemma_pow16_values();
    }
    let mut acc: u64 = 0;
    let mut i: usize = 0;
    while i < 16
        invariant
            i <= 16,
            n == s@.len(),
            p + 16 <= n,
            (acc as nat) < pow16(i as nat),
            pow16(15) == 0x1000_0000_0000_0000,
            pow16(16) == 0x1_0000_0000_0000_0000,
            spec_hex_acc(s@.subrange(p as int, p + 16 as int), 0) == spec_hex_acc(
                s@.subrange(p + i as int, p + 16 as int),
                acc as nat,
            ),
        decreases 16 - i,
    {
        let c = s.get_char(p + i);
        let ghost pre = s@.subrange(p + i as int, p + 16 as int);
        assert(pre[0] == c);
        match hex_val(c) {
            None => {
                return None;
            },
            Some(d) => {
                proof {
                    assert(pre.drop_first() =~= s@.subrange(p + i + 1 as int, p + 16 as int));
                    assert(16 * (acc as nat) + (d as nat) < pow16((i + 1) as nat))
                        by (nonlinear_arith)
                        requires
                            (acc as nat) < pow16(i as nat),
                            (d as nat) < 16,
                            pow16((i + 1) as nat) == 16 * pow16(i as nat),
                    ;
                    lemma_pow16_mono((i + 1) as nat, 16);
                    assert(16 * (acc as nat) + (d as nat) < 0x1_0000_0000_0000_0000);
                }
                acc = acc * 16 + d as u64;
            },
        }
        i += 1;
    }
    assert(s@.subrange(p + 16 as int, p + 16 as int) =~= Seq::<char>::empty());
    assert(spec_hex_acc(s@.subrange(p as int, p + 16 as int), 0) == Some(acc as nat));
    let rem = n - (p + 16);
    if acc > rem as u64 {
        return None;
    }
    let fl = acc as usize;
    let q = p + 16 + fl;
    let f = s.substring_char(p + 16, q);
    Some((f.to_owned(), q))
}

proof fn lemma_hex_acc_bound(s: Seq<char>, acc: nat)
    requires
        spec_hex_acc(s, acc) is Some,
        s.len() <= 16,
    ensures
        spec_hex_acc(s, acc)->0 < (acc + 1) * pow16(s.len()),
    decreases s.len(),
{
    lemma_pow16_pos(s.len());
    if s.len() == 0 {
        assert(acc < (acc + 1) * pow16(0)) by (nonlinear_arith)
            requires
                pow16(0) == 1,
        ;
    } else {
        let d = spec_hex_val(s[0])->0;
        assert(d < 16);
        lemma_hex_acc_bound(s.drop_first(), 16 * acc + d as nat);
        lemma_pow16_pos((s.len() - 1) as nat);
        assert(pow16(s.len()) == 16 * pow16((s.len() - 1) as nat));
        assert((16 * acc + d + 1) * pow16((s.len() - 1) as nat) <= (acc + 1) * (16 * pow16(
            (s.len() - 1) as nat,
        ))) by (nonlinear_arith)
            requires
                d < 16,
                pow16((s.len() - 1) as nat) >= 1,
        ;
    }
}

proof fn lemma_field_len_bound(s: Seq<char>, p: int)
    requires
        spec_parse_field(s, p) is Some,
    ensures
        (spec_parse_field(s, p)->0).0.len() < pow16(16),
{
    lemma_hex_acc_bound(s.subrange(p, p + 16), 0);
    lemma_pow16_values();
    assert((0 + 1) * pow16(16) == pow16(16)) by (nonlinear_arith);
}

/// Parses a record back into a credential; `Corrupt` on malformed input.
pub fn decode_credential(s: &str) -> (r: Result<SessionCredential, StoreError>)
    ensures
        match r {
            Ok(c) => spec_decode(s@) == Some(c@) && c@.wf(),
            Err(e) => spec_decode(s@) is None && e is Corrupt,
        },
{
    let n = s.unicode_len();
    let user_id: String;
    let device_id: String;
    let access_token: String;
    let p1: usize;
    let p2: usize;
    let p3: usize;
    match parse_field(s, 0, n) {
        None => {
            return Err(StoreError::Corrupt);
        },
        Some(pair) => {
            user_id = pair.0;
            p1 = pair.1;
        },
    }
    match parse_field(s, p1, n) {
        None => {
            return Err(StoreError::Corrupt);
        },
        Some(pair) => {
            device_id = pair.0;
            p2 = pair.1;
        },
    }
    match parse_field(s, p2, n) {
        None => {
            return Err(StoreError::Corrupt);
        },
        Some(pair) => {
            access_token = pair.0;
            p3 = pair.1;
        },
    }
    if p3 >= n {
        return Err(StoreError::Corrupt);
    }
    let tag = s.get_char(p3);
    if tag == '-' {
        if !(p3 + 1 == n || (p3 + 2 == n && s.get_char(p3 + 1) == '\n')) {
            return Err(StoreError::Corrupt);
        }
        let c = SessionCredential { user_id, device_id, access_token, refresh_token: None };
        proof {
            lemma_field_len_bound(s@, 0);
            lemma_field_len_bound(s@, p1 as int);
            lemma_field_len_bound(s@, p2 as int);
        }
        Ok(c)
    } else if tag == '+' {
        let refresh: String;
        let p4: usize;
        match parse_field(s, p3 + 1, n) {
            None => {
                return Err(StoreError::Corrupt);
            },
            Some(pair) => {
                refresh = pair.0;
                p4 = pair.1;
            },
        }
        if !(p4 == n || (p4 + 1 == n && s.get_char(p4) == '\n')) {
            return Err(StoreError::Corrupt);
        }
        let c = SessionCredential {
            user_id,
            device_id,
            access_token,
            refresh_token: Some(refresh),
        };
        proof {
            lemma_field_len_bound(s@, 0);
            lemma_field_len_bound(s@, p1 as int);
            lemma_field_len_bound(s@, p2 as int);
            lemma_field_len_bound(s@, p3 + 1 as int);
        }
        Ok(c)
    } else {
        Err(StoreError::Corrupt)
    }
}

/// Decoding inverts encoding, with or without the trailing newline the
/// file backend appends.
pub proof fn lemma_encode_decode(c: CredentialView)
    requires
        c.wf(),
    ensures
        spec_decode(spec_encode(c)) == Some(c),
        spec_decode(spec_encode(c).push('\n')) == Some(c),
{
    lemma_decode_of_encoded(c, spec_encode(c));
    lemma_decode_of_encoded(c, spec_encode(c).push('\n'));
}

proof fn lemma_parse_field_at(s: Seq<char>, p: int, f: Seq<char>)
    requires
        0 <= p,
        f.len() < pow16(16),
        p + 16 + f.len() <= s.len(),
        s.subrange(p, p + 16 + f.len()) == spec_enc_field(f),
    ensures
        spec_parse_field(s, p) == Some((f, p + 16 + f.len())),
{
    lemma_pow16_values();
    let l = f.len() as u64;
    assert forall|j: int| 0 <= j < 16 implies s.subrange(p, p + 16)[j] == spec_hex16(l)[j] by {
        assert(s.subrange(p, p + 16 + f.len() as int)[j] == spec_enc_field(f)[j]);
    };
    assert(s.subrange(p, p + 16) =~= spec_hex16(l));
    lemma_hex16_roundtrip(l);
    assert(spec_hex_acc(s.subrange(p, p + 16), 0) == Some(f.len()));
    assert forall|j: int| 0 <= j < f.len() implies s.subrange(p + 16, p + 16 + f.len() as int)[j]
        == f[j] by {
        assert(s.subrange(p, p + 16 + f.len() as int)[16 + j] == spec_enc_field(f)[16 + j]);
    };
    assert(s.subrange(p + 16, p + 16 + f.len() as int) =~= f);
}

proof fn lemma_decode_of_encoded(c: CredentialView, s: Seq<char>)
    requires
        c.wf(),
        s == spec_encode(c) || s == spec_encode(c).push('\n'),
    ensures
        spec_decode(s) == Some(c),
{
    let f1 = spec_enc_field(c.user_id);
    let f2 = spec_enc_field(c.device_id);
    let f3 = spec_enc_field(c.access_token);
    let p1 = 16 + c.user_id.len() as int;
    let p2 = p1 + 16 + c.device_id.len() as int;
    let p3 = p2 + 16 + c.access_token.len() as int;
    assert(s.subrange(0, p1) =~= f1);
    lemma_parse_field_at(s, 0, c.user_id);
    assert(s.subrange(p1, p2) =~= f2);
    lemma_parse_field_at(s, p1, c.device_id);
    assert(s.subrange(p2, p3) =~= f3);
    lemma_parse_field_at(s, p2, c.access_token);
    match c.refresh_token {
        None => {
            assert(s[p3] == '-');
            assert(spec_tail_ok(s, p3 + 1));
        },
        Some(r) => {
            assert(s[p3] == '+');
            let p4 = p3 + 1 + 16 + r.len() as int;
            assert(s.subrange(p3 + 1, p4) =~= spec_enc_field(r));
            lemma_parse_field_at(s, p3 + 1, r);
            assert(spec_tail_ok(s, p4));
        },
    }
}

} // verus!

//! Persistent Ed25519 peer identity and the pinned-peer trust store.

use vstd::prelude::*;

use ed25519_dalek::{Signer, SigningKey, Verifier, VerifyingKey};
use rand_core::OsRng;
use vstd::string::StringExecFns;

use crate::text::{chars_of, first_newline, is_whitespace, lemma_first_newline, lemma_trim_end, lemma_trim_start, push_char, trim, trim_range};

verus! {

// ---------------------------------------------------------------------------
// Hexadecimal text form of a peer id
// ---------------------------------------------------------------------------

/// The lower-case hexadecimal digit for a nibble `n` (`0 <= n < 16`).
pub open spec fn hex_digit(n: int) -> char {
    if n < 10 {
        (48 + n) as char
    } else {
        (87 + n) as char
    }
}

/// Two lower-case hex digits per byte, high nibble first.
pub open spec fn hex_lower(bytes: Seq<u8>) -> Seq<char> {
    Seq::new(
        2 * bytes.len(),
        |i: int|
            if i % 2 == 0 {
                hex_digit(bytes[i / 2] as int / 16)
            } else {
                hex_digit(bytes[i / 2] as int % 16)
            },
    )
}

/// The value of one hex digit, either case.
pub open spec fn hex_value(c: char) -> Option<int> {
    let u = c as u32;
    if 48 <= u <= 57 {
        Some(u - 48)
    } else if 97 <= u <= 102 {
        Some(u - 87)
    } else if 65 <= u <= 70 {
        Some(u - 55)
    } else {
        None
    }
}

/// The byte a two-character field stands for, as `u8::from_str_radix(_, 16)`
/// reads it: two hex digits, or a `+` sign followed by one hex digit.
pub open spec fn hex_pair_value(c0: char, c1: char) -> Option<u8> {
    if c0 == '+' {
        match hex_value(c1) {
            Some(v) => Some(v as u8),
            None => None,
        }
    } else {
        match (hex_value(c0), hex_value(c1)) {
            (Some(h), Some(l)) => Some((16 * h + l) as u8),
            _ => None,
        }
    }
}

/// Whether every two-character field of `s` (which has 64 characters) is valid.
pub open spec fn hex_pairs_valid(s: Seq<char>) -> bool {
    forall|i: int| 0 <= i < 32 ==> (#[trigger] hex_pair_value(s[2 * i], s[2 * i + 1])) is Some
}

/// The 32 bytes a 64-character hex text stands for, when it is valid.
pub open spec fn peer_id_hex_bytes(s: Seq<char>) -> Option<Seq<u8>> {
    if s.len() == 64 && hex_pairs_valid(s) {
        Some(Seq::new(32, |i: int| hex_pair_value(s[2 * i], s[2 * i + 1])->0))
    } else {
        None
    }
}

fn hex_digit_char(n: u8) -> (c: char)
    requires
        n < 16,
    ensures
        c == hex_digit(n as int),
{
    if n < 10 {
        (48 + n) as char
    } else {
        (87 + n) as char
    }
}

fn hex_value_exec(c: char) -> (r: Option<u8>)
    ensures
        r is Some <==> hex_value(c) is Some,
        r matches Some(v) ==> v as int == hex_value(c)->0 && v < 16,
{
    let u = c as u32;
    if 48 <= u && u <= 57 {
        Some((u - 48) as u8)
    } else if 97 <= u && u <= 102 {
        Some((u - 87) as u8)
    } else if 65 <= u && u <= 70 {
        Some((u - 55) as u8)
    } else {
        None
    }
}

fn hex_pair_exec(c0: char, c1: char) -> (r: Option<u8>)
    ensures
        r == hex_pair_value(c0, c1),
{
    if c0 == '+' {
        match hex_value_exec(c1) {
            Some(v) => Some(v),
            None => None,
        }
    } else {
        match (hex_value_exec(c0), hex_value_exec(c1)) {
            (Some(h), Some(l)) => Some(16 * h + l),
            _ => None,
        }
    }
}

/// A nibble's digit reads back as the nibble.
proof fn lemma_hex_digit_value(n: int)
    requires
        0 <= n < 16,
    ensures
        hex_value(hex_digit(n)) == Some(n),
{
}

/// The lower-case hexadecimal digits, in order of value.
pub open spec fn lower_hex_digits() -> Seq<char> {
    "0123456789abcdef"@
}

/// The upper-case hexadecimal digits, in order of value.
pub open spec fn upper_hex_digits() -> Seq<char> {
    "0123456789ABCDEF"@
}

/// The digit of nibble `n` is the `n`-th of `0123456789abcdef`, and each
/// digit, in either case, reads as its place in that order.
pub proof fn lemma_hex_digit_table(n: int)
    requires
        0 <= n < 16,
    ensures
        hex_digit(n) == lower_hex_digits()[n],
        hex_value(lower_hex_digits()[n]) == Some(n),
        hex_value(upper_hex_digits()[n]) == Some(n),
{
    reveal_strlit("0123456789abcdef");
    reveal_strlit("0123456789ABCDEF");
    assert(lower_hex_digits() =~= seq!['0', '1', '2', '3', '4', '5', '6', '7', '8', '9', 'a', 'b', 'c', 'd', 'e', 'f']);
    assert(upper_hex_digits() =~= seq!['0', '1', '2', '3', '4', '5', '6', '7', '8', '9', 'A', 'B', 'C', 'D', 'E', 'F']);
}

/// Only the hexadecimal digits have a value: a character that reads as `v`
/// is the digit of `v` in one of the two cases.
pub proof fn lemma_hex_value_only_digits(c: char)
    ensures
        hex_value(c) matches Some(v) ==> 0 <= v < 16 && (c == lower_hex_digits()[v] || c
            == upper_hex_digits()[v]),
{
    reveal_strlit("0123456789abcdef");
    reveal_strlit("0123456789ABCDEF");
    assert(lower_hex_digits() =~= seq!['0', '1', '2', '3', '4', '5', '6', '7', '8', '9', 'a', 'b', 'c', 'd', 'e', 'f']);
    assert(upper_hex_digits() =~= seq!['0', '1', '2', '3', '4', '5', '6', '7', '8', '9', 'A', 'B', 'C', 'D', 'E', 'F']);
}

/// The hex text of a byte string is, for each byte `b`, the digit of
/// `b / 16` then the digit of `b % 16`, taken from `0123456789abcdef`.
pub proof fn lemma_hex_lower_digits(bytes: Seq<u8>, i: int)
    requires
        0 <= i < bytes.len(),
    ensures
        hex_lower(bytes).len() == 2 * bytes.len(),
        hex_lower(bytes)[2 * i] == lower_hex_digits()[bytes[i] as int / 16],
        hex_lower(bytes)[2 * i + 1] == lower_hex_digits()[bytes[i] as int % 16],
{
    lemma_hex_digit_table(bytes[i] as int / 16);
    lemma_hex_digit_table(bytes[i] as int % 16);
    assert((2 * i) / 2 == i && (2 * i) % 2 == 0);
    assert((2 * i + 1) / 2 == i && (2 * i + 1) % 2 == 1);
}

/// The hex text of 32 bytes reads back as the same 32 bytes.
pub proof fn lemma_peer_id_hex_round_trip(bytes: Seq<u8>)
    requires
        bytes.len() == 32,
    ensures
        peer_id_hex_bytes(hex_lower(bytes)) == Some(bytes),
{
    let s = hex_lower(bytes);
    assert forall|i: int| 0 <= i < 32 implies #[trigger] hex_pair_value(s[2 * i], s[2 * i + 1]) == Some(bytes[i]) by {
        assert((2 * i) % 2 == 0);
        assert((2 * i + 1) % 2 == 1);
        assert((2 * i) / 2 == i);
        assert((2 * i + 1) / 2 == i);
        lemma_hex_digit_value(bytes[i] as int / 16);
        lemma_hex_digit_value(bytes[i] as int % 16);
        assert(s[2 * i] != '+');
    }
    assert(hex_pairs_valid(s));
    assert(peer_id_hex_bytes(s)->0 =~= bytes);
}

/// A peer's public key, in the form pinned, compared and persisted everywhere.
#[derive(Debug, Clone, Copy, PartialEq, Eq, Hash)]
pub struct PeerId(pub [u8; 32]);

impl PeerId {
    /// Lower-case hex text of the key, two digits per byte.
    pub fn to_hex(&self) -> (s: String)
        ensures
            s@ == hex_lower(self.0@),
    {
        let mut s = String::new();
        let mut i: usize = 0;
        while i < 32
            invariant
                0 <= i <= 32,
                s@ == hex_lower(self.0@.take(i as int)),
            decreases 32 - i,
        {
            let b = self.0[i];
            proof {
                assert(self.0@.take(i as int + 1) == self.0@.take(i as int).push(b));
            }
            push_char(&mut s, hex_digit_char(b / 16));
            push_char(&mut s, hex_digit_char(b % 16));
            assert(s@ =~= hex_lower(self.0@.take(i as int + 1)));
            i = i + 1;
        }
        assert(self.0@.take(32) =~= self.0@);
        s
    }

    /// Reads the 64-character hex form back; any other text is `Corrupt`.
    pub fn from_hex(s: &str) -> (r: Result<PeerId, IdentityError>)
        ensures
            match peer_id_hex_bytes(s@) {
                Some(bytes) => r matches Ok(p) && p.0@ == bytes,
                None => r matches Err(IdentityError::Corrupt),
            },
    {
        let cs = chars_of(s);
        assert(cs@.subrange(0, cs@.len() as int) =~= s@);
        match parse_peer_id_chars(&cs, 0, cs.len()) {
            Some(p) => Ok(p),
            None => Err(IdentityError::Corrupt),
        }
    }
}

/// The peer id written in hex in `cs[lo..hi]`, if that text is valid.
fn parse_peer_id_chars(cs: &Vec<char>, lo: usize, hi: usize) -> (r: Option<PeerId>)
    requires
        lo <= hi <= cs.len(),
    ensures
        match peer_id_hex_bytes(cs@.subrange(lo as int, hi as int)) {
            Some(bytes) => r matches Some(p) && p.0@ == bytes,
            None => r is None,
        },
{
    let ghost s = cs@.subrange(lo as int, hi as int);
    if hi - lo != 64 {
        return None;
    }
    let mut bytes = [0u8; 32];
    let mut i: usize = 0;
    while i < 32
        invariant
            0 <= i <= 32,
            lo <= hi <= cs.len(),
            hi - lo == 64,
            s == cs@.subrange(lo as int, hi as int),
            forall|j: int| 0 <= j < i ==> (#[trigger] hex_pair_value(s[2 * j], s[2 * j + 1])) == Some(bytes@[j]),
        decreases 32 - i,
    {
        assert(s[2 * i as int] == cs@[lo + 2 * i]);
        assert(s[2 * i + 1] == cs@[lo + 2 * i + 1]);
        match hex_pair_exec(cs[lo + 2 * i], cs[lo + 2 * i + 1]) {
            Some(v) => {
                bytes[i] = v;
            },
            None => {
                assert(!hex_pairs_valid(s));
                return None;
            },
        }
        i = i + 1;
    }
    assert(hex_pairs_valid(s));
    assert(bytes@ =~= peer_id_hex_bytes(s)->0);
    Some(PeerId(bytes))
}

/// Whether two peer ids hold the same key.
fn peer_eq(a: &PeerId, b: &PeerId) -> (r: bool)
    ensures
        r == (a.0@ == b.0@),
{
    let mut i: usize = 0;
    while i < 32
        invariant
            0 <= i <= 32,
            forall|j: int| 0 <= j < i ==> a.0@[j] == b.0@[j],
        decreases 32 - i,
    {
        if a.0[i] != b.0[i] {
            return false;
        }
        i = i + 1;
    }
    assert(a.0@ =~= b.0@);
    true
}

/// The keys a list of peer ids holds, in order.
pub open spec fn peer_keys(ps: Seq<PeerId>) -> Seq<Seq<u8>> {
    ps.map_values(|p: PeerId| p.0@)
}

// ---------------------------------------------------------------------------
// Trust store
// ---------------------------------------------------------------------------

/// The persisted text of a list of pinned keys: one hex key per line.
pub open spec fn pinned_text(keys: Seq<Seq<u8>>) -> Seq<char>
    decreases keys.len(),
{
    if keys.len() == 0 {
        Seq::empty()
    } else {
        hex_lower(keys[0]) + seq!['\n'] + pinned_text(keys.drop_first())
    }
}

/// The set of keys a persisted trust-store text holds: every line that is not
/// blank once trimmed must be a hex key, or the whole text is corrupt.
pub open spec fn parse_pinned(s: Seq<char>) -> Option<Set<Seq<u8>>>
    decreases s.len(),
{
    if s.len() == 0 {
        Some(Set::empty())
    } else {
        let k = first_newline(s);
        let line = trim(s.take(k as int));
        let rest = if k < s.len() {
            parse_pinned(s.skip(k as int + 1))
        } else {
            Some(Set::empty())
        };
        if line.len() == 0 {
            rest
        } else {
            match (peer_id_hex_bytes(line), rest) {
                (Some(b), Some(set)) => Some(set.insert(b)),
                _ => None,
            }
        }
    }
}

/// `a` joined with the set `o` holds, or nothing when `o` is nothing.
pub open spec fn union_with(a: Set<Seq<u8>>, o: Option<Set<Seq<u8>>>) -> Option<Set<Seq<u8>>> {
    match o {
        Some(b) => Some(a.union(b)),
        None => None,
    }
}

proof fn lemma_pinned_text_push(keys: Seq<Seq<u8>>, key: Seq<u8>)
    ensures
        pinned_text(keys.push(key)) == pinned_text(keys) + hex_lower(key) + seq!['\n'],
    decreases keys.len(),
{
    if keys.len() == 0 {
        let ks = keys.push(key);
        assert(ks[0] == key);
        assert(ks.drop_first() =~= Seq::<Seq<u8>>::empty());
        assert(pinned_text(ks.drop_first()) == Seq::<char>::empty());
        assert(pinned_text(keys) == Seq::<char>::empty());
        assert(pinned_text(ks) =~= pinned_text(keys) + hex_lower(key) + seq!['\n']);
    } else {
        assert(keys.push(key).drop_first() =~= keys.drop_first().push(key));
        lemma_pinned_text_push(keys.drop_first(), key);
        assert(pinned_text(keys.push(key)) =~= pinned_text(keys) + hex_lower(key) + seq!['\n']);
    }
}

proof fn lemma_hex_lower_plain(bytes: Seq<u8>)
    ensures
        forall|j: int|
            0 <= j < hex_lower(bytes).len() ==> #[trigger] hex_lower(bytes)[j] != '\n'
                && !is_whitespace(hex_lower(bytes)[j]),
{
    assert forall|j: int| 0 <= j < hex_lower(bytes).len() implies #[trigger] hex_lower(bytes)[j] != '\n'
        && !is_whitespace(hex_lower(bytes)[j]) by {
        let n = if j % 2 == 0 { bytes[j / 2] as int / 16 } else { bytes[j / 2] as int % 16 };
        assert(0 <= n < 16);
        assert(hex_value(hex_digit(n)) is Some);
    }
}

/// Text written by [`pinned_text`] reads back as exactly the keys it was
/// written from.
pub proof fn lemma_pinned_text_round_trip(keys: Seq<Seq<u8>>)
    requires
        forall|i: int| 0 <= i < keys.len() ==> (#[trigger] keys[i]).len() == 32,
    ensures
        parse_pinned(pinned_text(keys)) == Some(keys.to_set()),
    decreases keys.len(),
{
    if keys.len() == 0 {
        assert(keys.to_set() =~= Set::<Seq<u8>>::empty());
    } else {
        let k0 = keys[0];
        let rest = keys.drop_first();
        assert forall|i: int| 0 <= i < rest.len() implies (#[trigger] rest[i]).len() == 32 by {
            assert(rest[i] == keys[i + 1]);
        }
        lemma_pinned_text_round_trip(rest);
        let h = hex_lower(k0);
        let s = pinned_text(keys);
        assert(s == h + seq!['\n'] + pinned_text(rest));
        lemma_hex_lower_plain(k0);
        assert(h.len() == 64);
        assert forall|j: int| 0 <= j < 64 implies s[j] != '\n' by {
            assert(s[j] == h[j]);
        }
        assert(s[64] == '\n');
        lemma_first_newline(s, 64);
        assert(s.take(64) =~= h);
        assert(!is_whitespace(h[0]));
        lemma_trim_start(h, 0);
        assert(h.skip(0) =~= h);
        assert(!is_whitespace(h[63]));
        assert forall|j: int| 64 <= j < h.len() implies is_whitespace(#[trigger] h[j]) by {}
        lemma_trim_end(h, 64);
        assert(h.take(64) =~= h);
        assert(trim(s.take(64)) == h);
        lemma_peer_id_hex_round_trip(k0);
        assert(s.skip(65) =~= pinned_text(rest));
        assert(keys.to_set() =~= rest.to_set().insert(k0)) by {
            assert forall|x: Seq<u8>| keys.to_set().contains(x) <==> rest.to_set().insert(k0).contains(x) by {
                if keys.contains(x) && x != k0 {
                    let i = choose|i: int| 0 <= i < keys.len() && keys[i] == x;
                    assert(rest[i - 1] == x);
                }
                if rest.contains(x) {
                    let i = choose|i: int| 0 <= i < rest.len() && rest[i] == x;
                    assert(keys[i + 1] == x);
                }
                if x == k0 {
                    assert(keys[0] == x);
                }
            }
        }
    }
}

/// No line feed stands before `first_newline(s)`, and one stands there
/// unless it is the end of `s`.
proof fn lemma_first_newline_facts(s: Seq<char>)
    ensures
        first_newline(s) <= s.len(),
        forall|j: int| 0 <= j < first_newline(s) ==> s[j] != '\n',
        first_newline(s) < s.len() ==> s[first_newline(s) as int] == '\n',
    decreases s.len(),
{
    if s.len() > 0 && s[0] != '\n' {
        lemma_first_newline_facts(s.drop_first());
        assert forall|j: int| 0 <= j < first_newline(s) implies s[j] != '\n' by {
            if j > 0 {
                assert(s[j] == s.drop_first()[j - 1]);
            }
        }
        if first_newline(s) < s.len() {
            assert(s[first_newline(s) as int] == s.drop_first()[first_newline(s.drop_first()) as int]);
        }
    }
}

/// A text whose last line is the hex of a key, with no line feed after it,
/// holds that key: appending the hex of `key` to a text that is empty or ends
/// in a line feed adds `key` to what the text holds.
pub proof fn lemma_parse_pinned_last_line(t: Seq<char>, key: Seq<u8>)
    requires
        key.len() == 32,
        t.len() == 0 || t.last() == '\n',
    ensures
        parse_pinned(t + hex_lower(key)) == union_with(Set::<Seq<u8>>::empty().insert(key), parse_pinned(t)),
    decreases t.len(),
{
    let h = hex_lower(key);
    let s = t + h;
    lemma_hex_lower_plain(key);
    assert(h.len() == 64);
    if t.len() == 0 {
        assert(s =~= h);
        lemma_first_newline(h, 64);
        assert(h.take(64) =~= h);
        assert(!is_whitespace(h[0]));
        lemma_trim_start(h, 0);
        assert(h.skip(0) =~= h);
        assert forall|j: int| 64 <= j < h.len() implies is_whitespace(#[trigger] h[j]) by {}
        lemma_trim_end(h, 64);
        lemma_peer_id_hex_round_trip(key);
        assert(Set::<Seq<u8>>::empty().insert(key).union(Set::<Seq<u8>>::empty()) =~= Set::<Seq<u8>>::empty().insert(
            key,
        ));
    } else {
        lemma_first_newline_facts(t);
        let k = first_newline(t);
        assert(k < t.len()) by {
            if k == t.len() {
                assert(t[t.len() - 1] != '\n');
            }
        }
        assert forall|j: int| 0 <= j < k implies s[j] != '\n' by {
            assert(s[j] == t[j]);
        }
        assert(s[k as int] == t[k as int]);
        lemma_first_newline(s, k as int);
        assert(s.take(k as int) =~= t.take(k as int));
        let t2 = t.skip(k as int + 1);
        assert(s.skip(k as int + 1) =~= t2 + h);
        assert(t2.len() == 0 || t2.last() == '\n') by {
            if t2.len() > 0 {
                assert(t2.last() == t.last());
            }
        }
        lemma_parse_pinned_last_line(t2, key);
        let ks = Set::<Seq<u8>>::empty().insert(key);
        match parse_pinned(t2) {
            Some(rest) => {
                let line = trim(t.take(k as int));
                if line.len() != 0 {
                    match peer_id_hex_bytes(line) {
                        Some(b) => {
                            assert(ks.union(rest).insert(b) =~= ks.union(rest.insert(b)));
                        },
                        None => {},
                    }
                }
            },
            None => {},
        }
    }
}

/// A peer's (or host's) list of pinned peers it trusts.
#[derive(Debug)]
pub struct TrustStore {
    pinned: Vec<PeerId>,
}

impl Clone for TrustStore {
    fn clone(&self) -> (t: TrustStore)
        ensures
            t@ == self@,
    {
        self.duplicate()
    }
}

impl Default for TrustStore {
    fn default() -> (t: TrustStore)
        ensures
            t@ == Set::<Seq<u8>>::empty(),
    {
        TrustStore::new()
    }
}

impl View for TrustStore {
    type V = Set<Seq<u8>>;

    closed spec fn view(&self) -> Set<Seq<u8>> {
        peer_keys(self.pinned@).to_set()
    }
}

impl TrustStore {
    #[verifier::type_invariant]
    spec fn no_duplicates(self) -> bool {
        peer_keys(self.pinned@).no_duplicates()
    }

    /// The text this store is persisted as.
    pub closed spec fn file_text(self) -> Seq<char> {
        pinned_text(peer_keys(self.pinned@))
    }

    /// An empty store.
    pub fn new() -> (t: TrustStore)
        ensures
            t@ == Set::<Seq<u8>>::empty(),
    {
        let t = TrustStore { pinned: Vec::new() };
        assert(t@ =~= Set::<Seq<u8>>::empty());
        t
    }

    /// A copy of this store.
    pub fn duplicate(&self) -> (t: TrustStore)
        ensures
            t@ == self@,
    {
        proof {
            use_type_invariant(self);
        }
        let mut pinned: Vec<PeerId> = Vec::new();
        let mut i: usize = 0;
        while i < self.pinned.len()
            invariant
                0 <= i <= self.pinned@.len(),
                pinned@ == self.pinned@.take(i as int),
            decreases self.pinned@.len() - i,
        {
            pinned.push(self.pinned[i]);
            assert(self.pinned@.take(i + 1) =~= self.pinned@.take(i as int).push(self.pinned@[i as int]));
            i = i + 1;
        }
        assert(self.pinned@.take(i as int) =~= self.pinned@);
        TrustStore { pinned }
    }

    /// Adds the key written on the line `cs[lo..hi]`, if the line is not blank.
    fn add_line(&mut self, cs: &Vec<char>, lo: usize, hi: usize) -> (ok: bool)
        requires
            lo <= hi <= cs.len(),
        ensures
            ({
                let line = trim(cs@.subrange(lo as int, hi as int));
                if line.len() == 0 {
                    ok && final(self)@ == old(self)@
                } else {
                    match peer_id_hex_bytes(line) {
                        Some(b) => ok && final(self)@ == old(self)@.insert(b),
                        None => !ok,
                    }
                }
            }),
    {
        let (a, b) = trim_range(cs, lo, hi);
        if a < b {
            match parse_peer_id_chars(cs, a, b) {
                Some(p) => {
                    self.pin(p);
                    true
                },
                None => false,
            }
        } else {
            true
        }
    }

    /// Reads a store from its persisted text: one hex key per line, blank
    /// lines ignored.
    pub fn from_file_contents(contents: &str) -> (r: Result<TrustStore, IdentityError>)
        ensures
            match parse_pinned(contents@) {
                Some(keys) => r matches Ok(t) && t@ == keys,
                None => r matches Err(IdentityError::Corrupt),
            },
    {
        let cs = chars_of(contents);
        let mut store = TrustStore::new();
        let mut start: usize = 0;
        let mut i: usize = 0;
        assert(cs@.skip(0) =~= cs@);
        assert(store@.union(parse_pinned(cs@)->0) =~= parse_pinned(cs@)->0);
        while i < cs.len()
            invariant
                start <= i <= cs.len(),
                cs@ == contents@,
                forall|j: int| start <= j < i ==> cs@[j] != '\n',
                union_with(store@, parse_pinned(cs@.skip(start as int))) == parse_pinned(cs@),
            decreases cs.len() - i,
        {
            if cs[i] == '\n' {
                let ghost t = cs@.skip(start as int);
                let ghost before = store@;
                proof {
                    assert forall|j: int| 0 <= j < i - start implies t[j] != '\n' by {
                        assert(t[j] == cs@[start + j]);
                    }
                    assert(t[i - start] == cs@[i as int]);
                    lemma_first_newline(t, i - start);
                    assert(t.take(i - start) =~= cs@.subrange(start as int, i as int));
                    assert(t.skip(i - start + 1) =~= cs@.skip(i + 1));
                }
                if !store.add_line(&cs, start, i) {
                    return Err(IdentityError::Corrupt);
                }
                proof {
                    let line = trim(cs@.subrange(start as int, i as int));
                    if line.len() != 0 {
                        let b = peer_id_hex_bytes(line)->0;
                        match parse_pinned(cs@.skip(i + 1)) {
                            Some(rs) => {
                                assert(before.union(rs.insert(b)) =~= before.insert(b).union(rs));
                            },
                            None => {},
                        }
                    }
                }
                start = i + 1;
            }
            i = i + 1;
        }
        let ghost t = cs@.skip(start as int);
        let ghost before = store@;
        if start < cs.len() {
            proof {
                assert forall|j: int| 0 <= j < t.len() implies t[j] != '\n' by {
                    assert(t[j] == cs@[start + j]);
                }
                lemma_first_newline(t, t.len() as int);
                assert(t.take(t.len() as int) =~= cs@.subrange(start as int, cs@.len() as int));
            }
            if !store.add_line(&cs, start, cs.len()) {
                return Err(IdentityError::Corrupt);
            }
            proof {
                let line = trim(cs@.subrange(start as int, cs@.len() as int));
                if line.len() != 0 {
                    let b = peer_id_hex_bytes(line)->0;
                    assert(before.union(Set::<Seq<u8>>::empty().insert(b)) =~= before.insert(b));
                } else {
                    assert(before.union(Set::<Seq<u8>>::empty()) =~= before);
                }
            }
        } else {
            assert(t =~= Seq::<char>::empty());
            assert(before.union(Set::<Seq<u8>>::empty()) =~= before);
        }
        Ok(store)
    }

    /// The text this store is persisted as: each pinned key in hex, one per line.
    pub fn to_file_contents(&self) -> (s: String)
        ensures
            s@ == self.file_text(),
    {
        let ghost keys = peer_keys(self.pinned@);
        let mut s = String::new();
        let mut i: usize = 0;
        while i < self.pinned.len()
            invariant
                0 <= i <= self.pinned@.len(),
                keys == peer_keys(self.pinned@),
                s@ == pinned_text(keys.take(i as int)),
            decreases self.pinned@.len() - i,
        {
            let h = self.pinned[i].to_hex();
            s.append(h.as_str());
            push_char(&mut s, '\n');
            proof {
                assert(keys.take(i + 1) =~= keys.take(i as int).push(keys[i as int]));
                lemma_pinned_text_push(keys.take(i as int), keys[i as int]);
            }
            i = i + 1;
        }
        assert(keys.take(i as int) =~= keys);
        s
    }

    /// Whether `peer` is pinned.
    pub fn is_pinned(&self, peer: &PeerId) -> (r: bool)
        ensures
            r == self@.contains(peer.0@),
    {
        let ghost ks = peer_keys(self.pinned@);
        let mut i: usize = 0;
        while i < self.pinned.len()
            invariant
                0 <= i <= self.pinned@.len(),
                ks == peer_keys(self.pinned@),
                forall|j: int| 0 <= j < i ==> ks[j] != peer.0@,
            decreases self.pinned@.len() - i,
        {
            if peer_eq(&self.pinned[i], peer) {
                assert(ks[i as int] == peer.0@);
                return true;
            }
            i = i + 1;
        }
        false
    }

    /// Pins `peer`; pinning an already pinned peer changes nothing.
    pub fn pin(&mut self, peer: PeerId)
        ensures
            final(self)@ == old(self)@.insert(peer.0@),
    {
        if self.is_pinned(&peer) {
            assert(self@.insert(peer.0@) =~= self@);
            return;
        }
        proof {
            use_type_invariant(&*self);
        }
        let ghost before = self.pinned@;
        let mut pinned = Vec::new();
        std::mem::swap(&mut pinned, &mut self.pinned);
        pinned.push(peer);
        proof {
            assert(peer_keys(pinned@) =~= peer_keys(before).push(peer.0@));
            peer_keys(before).lemma_push_to_set_commute(peer.0@);
        }
        self.pinned = pinned;
        assert(self@ =~= old(self)@.insert(peer.0@));
    }

    /// Removes `peer`; revoking a peer that is not pinned changes nothing.
    pub fn revoke(&mut self, peer: &PeerId)
        ensures
            final(self)@ == old(self)@.remove(peer.0@),
    {
        proof {
            use_type_invariant(&*self);
        }
        let ghost bk = peer_keys(self.pinned@);
        let mut kept: Vec<PeerId> = Vec::new();
        let mut i: usize = 0;
        while i < self.pinned.len()
            invariant
                0 <= i <= self.pinned@.len(),
                bk == peer_keys(self.pinned@),
                bk.no_duplicates(),
                peer_keys(kept@).no_duplicates(),
                forall|key: Seq<u8>|
                    #[trigger] peer_keys(kept@).contains(key) <==> (bk.take(i as int).contains(key)
                        && key != peer.0@),
            decreases self.pinned@.len() - i,
        {
            let p = self.pinned[i];
            let ghost kk = peer_keys(kept@);
            let ghost t0 = bk.take(i as int);
            let ghost t1 = bk.take(i + 1);
            proof {
                assert(t1 =~= t0.push(bk[i as int]));
            }
            if !peer_eq(&p, peer) {
                proof {
                    if kk.contains(p.0@) {
                        let j = choose|j: int| 0 <= j < t0.len() && t0[j] == p.0@;
                        assert(bk[j] == bk[i as int]);
                    }
                }
                kept.push(p);
                proof {
                    assert(peer_keys(kept@) =~= kk.push(p.0@));
                    assert forall|key: Seq<u8>| #[trigger] peer_keys(kept@).contains(key) <==> (t1.contains(key) && key != peer.0@) by {
                        if peer_keys(kept@).contains(key) && key != p.0@ {
                            let k = choose|k: int| 0 <= k < peer_keys(kept@).len() && peer_keys(kept@)[k] == key;
                            assert(kk[k] == key);
                            assert(kk.contains(key));
                            let j = choose|j: int| 0 <= j < t0.len() && t0[j] == key;
                            assert(t1[j] == key);
                        }
                        if t1.contains(key) && key != p.0@ && key != peer.0@ {
                            let k = choose|k: int| 0 <= k < t1.len() && t1[k] == key;
                            assert(t0[k] == key);
                            assert(t0.contains(key));
                            assert(kk.contains(key));
                            let j = choose|j: int| 0 <= j < kk.len() && kk[j] == key;
                            assert(peer_keys(kept@)[j] == key);
                        }
                        if key == p.0@ {
                            assert(peer_keys(kept@)[kk.len() as int] == key);
                            assert(t1[i as int] == key);
                        }
                    }
                }
            } else {
                proof {
                    assert forall|key: Seq<u8>| #[trigger] peer_keys(kept@).contains(key) <==> (t1.contains(key) && key != peer.0@) by {
                        if t1.contains(key) && key != peer.0@ {
                            let k = choose|k: int| 0 <= k < t1.len() && t1[k] == key;
                            assert(t0[k] == key);
                        }
                    }
                }
            }
            i = i + 1;
        }
        self.pinned = kept;
        proof {
            assert(bk.take(bk.len() as int) =~= bk);
            assert(self@ =~= old(self)@.remove(peer.0@));
        }
    }
}

/// A trust store's persisted text reads back as the same set of pinned keys.
pub proof fn lemma_trust_store_file_round_trip(store: TrustStore)
    ensures
        parse_pinned(store.file_text()) == Some(store@),
{
    let keys = peer_keys(store.pinned@);
    assert forall|i: int| 0 <= i < keys.len() implies (#[trigger] keys[i]).len() == 32 by {}
    lemma_pinned_text_round_trip(keys);
}

// ---------------------------------------------------------------------------
// Ed25519 keys (ed25519-dalek)
// ---------------------------------------------------------------------------

/// The Ed25519 public key (compressed point) of a 32-byte secret key, as
/// ed25519-dalek's `SigningKey::verifying_key` computes it.
pub uninterp spec fn ed25519_public_key(secret: Seq<u8>) -> Seq<u8>;

/// The 64-byte Ed25519 signature of `message` under a 32-byte secret key, as
/// ed25519-dalek's `Signer::sign` computes it (Ed25519 signing is deterministic).
pub uninterp spec fn ed25519_signature(secret: Seq<u8>, message: Seq<u8>) -> Seq<u8>;

/// Whether ed25519-dalek's `Verifier::verify` accepts `signature` on `message`
/// under the public key bytes `public_key`.
pub uninterp spec fn ed25519_verifies(public_key: Seq<u8>, message: Seq<u8>, signature: Seq<u8>) -> bool;

/// Whether ed25519-dalek's `VerifyingKey::from_bytes` accepts these 32 bytes,
/// that is whether they decompress to a curve point.
pub uninterp spec fn ed25519_point_decompresses(bytes: Seq<u8>) -> bool;

#[verifier::external_type_specification]
#[verifier::external_body]
pub struct ExVerifyingKey(ed25519_dalek::VerifyingKey);

/// The compressed point a verifying key holds, as `VerifyingKey::to_bytes`
/// returns it; verifying keys compare equal exactly when these bytes do.
pub uninterp spec fn verifying_key_bytes_of(key: VerifyingKey) -> Seq<u8>;

#[verifier::external_type_specification]
#[verifier::external_body]
pub struct ExSignatureError(ed25519_dalek::SignatureError);

/// `SigningKey::generate` with the operating system's generator: a fresh
/// random secret key. Nothing is stated of the bytes.
#[verifier::external_body]
fn random_secret_key() -> (secret: [u8; 32]) {
    SigningKey::generate(&mut OsRng).to_bytes()
}

/// `SigningKey::verifying_key`: the public key of a secret key. A public key
/// derived this way is the compression of a curve point, so it decompresses.
#[verifier::external_body]
fn public_key_of(secret: &[u8; 32]) -> (public: [u8; 32])
    ensures
        public@ == ed25519_public_key(secret@),
        ed25519_point_decompresses(public@),
{
    SigningKey::from_bytes(secret).verifying_key().to_bytes()
}

/// `Signer::sign` of ed25519-dalek. A signature it makes is accepted by
/// `Verifier::verify` under the matching public key.
#[verifier::external_body]
fn sign_with(secret: &[u8; 32], message: &[u8]) -> (signature: [u8; 64])
    ensures
        signature@ == ed25519_signature(secret@, message@),
        ed25519_verifies(ed25519_public_key(secret@), message@, signature@),
{
    SigningKey::from_bytes(secret).sign(message).to_bytes()
}

/// `Verifier::verify` of ed25519-dalek, on a key given as bytes; key bytes that
/// do not decompress are rejected before any signature check.
#[verifier::external_body]
fn verify_with(public_key: &[u8; 32], message: &[u8], signature: &[u8; 64]) -> (ok: bool)
    ensures
        ok == ed25519_verifies(public_key@, message@, signature@),
        !ed25519_point_decompresses(public_key@) ==> !ok,
{
    match VerifyingKey::from_bytes(public_key) {
        Ok(key) => key.verify(message, &ed25519_dalek::Signature::from_bytes(signature)).is_ok(),
        Err(_) => false,
    }
}

/// `VerifyingKey::from_bytes`: succeeds exactly on bytes that decompress,
/// and the key keeps those bytes as its compressed form.
#[verifier::external_body]
fn verifying_key_from_bytes(bytes: &[u8; 32]) -> (r: Result<VerifyingKey, ed25519_dalek::SignatureError>)
    ensures
        r is Ok <==> ed25519_point_decompresses(bytes@),
        r matches Ok(k) ==> verifying_key_bytes_of(k) == bytes@,
{
    VerifyingKey::from_bytes(bytes)
}

/// `VerifyingKey::to_bytes`: the compressed point a verifying key holds, which
/// always decompresses (ed25519-dalek keeps the point it decompressed it to).
#[verifier::external_body]
fn verifying_key_bytes(key: &VerifyingKey) -> (bytes: [u8; 32])
    ensures
        bytes@ == verifying_key_bytes_of(*key),
        ed25519_point_decompresses(bytes@),
{
    key.to_bytes()
}

impl PeerId {
    /// The peer id of a verifying key: the key's compressed bytes.
    pub fn from_verifying_key(key: &VerifyingKey) -> (p: PeerId)
        ensures
            p.0@ == verifying_key_bytes_of(*key),
            ed25519_point_decompresses(p.0@),
    {
        PeerId(verifying_key_bytes(key))
    }

    /// The verifying key these bytes stand for; `Corrupt` when they are not a
    /// valid compressed point.
    pub fn to_verifying_key(&self) -> (r: Result<VerifyingKey, IdentityError>)
        ensures
            r is Ok <==> ed25519_point_decompresses(self.0@),
            r matches Ok(k) ==> verifying_key_bytes_of(k) == self.0@,
            r is Err ==> r matches Err(IdentityError::Corrupt),
    {
        match verifying_key_from_bytes(&self.0) {
            Ok(k) => Ok(k),
            Err(_) => Err(IdentityError::Corrupt),
        }
    }
}

/// A peer id turned into a verifying key and back is the same peer id, and a
/// key turned into a peer id and back holds the same compressed bytes (which
/// is how verifying keys compare).
pub proof fn lemma_peer_id_key_round_trip(p: PeerId, key: VerifyingKey, q: PeerId)
    requires
        verifying_key_bytes_of(key) == p.0@,
        q.0@ == verifying_key_bytes_of(key),
    ensures
        q == p,
{
    assert forall|i: int| 0 <= i < 32 implies q.0[i] == p.0[i] by {
        assert(q.0@[i] == p.0@[i]);
    }
    assert(q.0 =~= p.0);
}

/// An Ed25519 signature, as its 64 bytes.
#[derive(Debug, Clone, Copy, PartialEq, Eq)]
pub struct Signature(pub [u8; 64]);

/// A persistent Ed25519 keypair for this peer.
pub struct Identity {
    secret: [u8; 32],
    public: [u8; 32],
}

impl Identity {
    #[verifier::type_invariant]
    spec fn keys_match(self) -> bool {
        self.public@ == ed25519_public_key(self.secret@)
    }

    /// The 32-byte secret key (the Ed25519 seed).
    pub closed spec fn secret_key(self) -> Seq<u8> {
        self.secret@
    }

    /// The public key that goes with the secret key.
    pub open spec fn public_key(self) -> Seq<u8> {
        ed25519_public_key(self.secret_key())
    }

    fn from_secret(secret: [u8; 32]) -> (id: Identity)
        ensures
            id.secret_key() == secret@,
    {
        let public = public_key_of(&secret);
        Identity { secret, public }
    }

    /// A fresh identity with a random secret key.
    pub fn generate() -> (id: Identity) {
        Identity::from_secret(random_secret_key())
    }

    /// The identity stored as these bytes: exactly 32 of them, else `Corrupt`.
    pub fn from_secret_key_bytes(bytes: &[u8]) -> (r: Result<Identity, IdentityError>)
        ensures
            bytes@.len() == 32 <==> r is Ok,
            r matches Ok(id) ==> id.secret_key() == bytes@,
            r is Err ==> r matches Err(IdentityError::Corrupt),
    {
        if bytes.len() != 32 {
            return Err(IdentityError::Corrupt);
        }
        let mut secret = [0u8; 32];
        let mut i: usize = 0;
        while i < 32
            invariant
                0 <= i <= 32,
                bytes@.len() == 32,
                forall|j: int| 0 <= j < i ==> secret@[j] == bytes@[j],
            decreases 32 - i,
        {
            secret[i] = bytes[i];
            i = i + 1;
        }
        assert(secret@ =~= bytes@);
        Ok(Identity::from_secret(secret))
    }

    /// The bytes the identity is stored as: its secret key.
    pub fn secret_key_bytes(&self) -> (bytes: [u8; 32])
        ensures
            bytes@ == self.secret_key(),
    {
        self.secret
    }

    /// This identity's public key, as a peer id.
    pub fn peer_id(&self) -> (p: PeerId)
        ensures
            p.0@ == self.public_key(),
    {
        proof {
            use_type_invariant(self);
        }
        PeerId(self.public)
    }

    /// Signs `message`; the signature verifies under [`Identity::peer_id`].
    pub fn sign(&self, message: &[u8]) -> (signature: Signature)
        ensures
            signature.0@ == ed25519_signature(self.secret_key(), message@),
            ed25519_verifies(self.public_key(), message@, signature.0@),
    {
        Signature(sign_with(&self.secret, message))
    }

    /// The 64-byte keypair: the 32-byte secret key, then the 32-byte public key.
    pub fn to_keypair_bytes(&self) -> (bytes: [u8; 64])
        ensures
            bytes@ == self.secret_key() + self.public_key(),
            self.secret_key().len() == 32,
            self.public_key().len() == 32,
    {
        proof {
            use_type_invariant(self);
        }
        let mut bytes = [0u8; 64];
        let mut i: usize = 0;
        while i < 32
            invariant
                0 <= i <= 32,
                forall|j: int| 0 <= j < i ==> bytes@[j] == self.secret@[j] && bytes@[32 + j] == self.public@[j],
            decreases 32 - i,
        {
            bytes[i] = self.secret[i];
            bytes[32 + i] = self.public[i];
            i = i + 1;
        }
        assert(bytes@ =~= self.secret@ + self.public@);
        bytes
    }
}

/// What reading a stored identity gave.
#[derive(Debug)]
pub enum StoredIdentity {
    /// The stored bytes.
    Found(Vec<u8>),
    /// Nothing is stored yet.
    Missing,
    /// Something is stored but could not be read.
    Unreadable(std::io::Error),
}

/// The identity to use, and whether it is new and must be stored.
pub enum LoadedIdentity {
    /// The stored identity.
    Existing(Identity),
    /// A freshly generated identity, to be stored (its secret key bytes).
    Fresh(Identity),
}

/// Loads the stored identity if there is one, otherwise generates a new one:
/// stored bytes are loaded as a secret key (exactly 32 of them, else
/// `Corrupt`); with nothing stored a fresh identity is made; storage that
/// cannot be read is an `Io` error, so an existing identity is never replaced.
pub fn load_or_generate_identity(stored: StoredIdentity) -> (r: Result<LoadedIdentity, IdentityError>)
    ensures
        stored matches StoredIdentity::Found(bytes) ==> (r is Ok <==> bytes@.len() == 32),
        stored matches StoredIdentity::Found(bytes) ==> (r matches Ok(LoadedIdentity::Existing(id))
            ==> id.secret_key() == bytes@),
        stored is Found ==> (r is Err ==> r matches Err(IdentityError::Corrupt)),
        stored is Found ==> !(r matches Ok(LoadedIdentity::Fresh(_))),
        stored is Missing ==> r matches Ok(LoadedIdentity::Fresh(_)),
        stored is Unreadable ==> r matches Err(IdentityError::Io(_)),
{
    match stored {
        StoredIdentity::Found(bytes) => match Identity::from_secret_key_bytes(bytes.as_slice()) {
            Ok(id) => Ok(LoadedIdentity::Existing(id)),
            Err(e) => Err(e),
        },
        StoredIdentity::Missing => Ok(LoadedIdentity::Fresh(Identity::generate())),
        StoredIdentity::Unreadable(e) => Err(IdentityError::Io(e)),
    }
}

/// Whether `signature` is a valid signature of `message` by `peer`.
pub fn verify(peer: &PeerId, message: &[u8], signature: &Signature) -> (ok: bool)
    ensures
        ok == ed25519_verifies(peer.0@, message@, signature.0@),
        !ed25519_point_decompresses(peer.0@) ==> !ok,
{
    verify_with(&peer.0, message, &signature.0)
}

/// Errors of identity handling.
#[derive(Debug)]
pub enum IdentityError {
    /// Reading or writing persisted identity state failed.
    Io(std::io::Error),
    /// The stored or presented key material is malformed.
    Corrupt,
}

#[verifier::external_type_specification]
#[verifier::external_body]
pub struct ExIoError(std::io::Error);

}

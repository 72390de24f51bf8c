//! In-band detach: recognising the detach key sequence in what the user types.
//!
//! A key of the sequence arrives either as its plain byte or as an enhanced key report, the
//! `CSI code ; modifiers u` form or the xterm `CSI 27 ; modifiers ; code ~` form.

use crate::text::{parse_digits, parse_number};
use vstd::prelude::*;

verus! {

pub const ESC: u8 = 0x1b;

/// An enhanced key report longer than this is given up and forwarded.
pub const MAX_ENHANCED_KEY_SEQUENCE_LEN: usize = 32;

/// What a buffered escape sequence is, with respect to an expected key.
#[derive(Clone, Copy, Debug, PartialEq, Eq, Structural)]
pub enum EnhancedKeyMatch {
    Pending,
    Matched,
    Invalid,
}

// ---------------------------------------------------------------------------
// Enhanced key reports
// ---------------------------------------------------------------------------

pub open spec fn byte_is_digit(b: u8) -> bool {
    48 <= b && b <= 57
}

/// Visible ASCII: everything from `!` to `~`.
pub open spec fn byte_is_graphic(b: u8) -> bool {
    33 <= b && b <= 126
}

pub open spec fn is_separator(b: u8, colon: bool) -> bool {
    b == 59 || (colon && b == 58)
}

/// Index of the first field separator, or the length where there is none. The separators are `;`
/// and, with `colon`, `:`.
pub open spec fn first_separator(s: Seq<u8>, colon: bool) -> int
    decreases s.len(),
{
    if s.len() == 0 || is_separator(s[0], colon) {
        0
    } else {
        1 + first_separator(s.skip(1), colon)
    }
}

/// The fields between the separators; always at least one.
pub open spec fn byte_fields(s: Seq<u8>, colon: bool) -> Seq<Seq<u8>>
    decreases s.len(),
{
    let i = first_separator(s, colon);
    if 0 <= i < s.len() {
        seq![s.take(i)] + byte_fields(s.skip(i + 1), colon)
    } else {
        seq![s]
    }
}

pub open spec fn bytes_as_chars(s: Seq<u8>) -> Seq<char> {
    s.map_values(|b: u8| b as char)
}

/// The 32-bit number that bytes denote in decimal.
pub open spec fn parse_u32(s: Seq<u8>) -> Option<nat> {
    parse_number(bytes_as_chars(s), u32::MAX as nat)
}

/// The first of the fields that is a number.
pub open spec fn first_number(fields: Seq<Seq<u8>>) -> Option<nat>
    decreases fields.len(),
{
    if fields.len() == 0 {
        None
    } else {
        match parse_u32(fields[0]) {
            Some(n) => Some(n),
            None => first_number(fields.skip(1)),
        }
    }
}

/// The two code points under which terminals report a control key.
pub open spec fn control_candidates(key: u8) -> Option<(nat, nat)> {
    if 0x01 <= key && key <= 0x1a {
        Some(((key + 0x40) as nat, (key + 0x60) as nat))
    } else if 0x1b <= key && key <= 0x1f {
        Some(((key + 0x40) as nat, (key + 0x40) as nat))
    } else {
        None
    }
}

/// Whether a report of `codepoint` with `modifiers` is the key `key`: unmodified (1) for a
/// visible key or space, with control (5) for a control key.
pub open spec fn report_is_key(key: u8, codepoint: nat, modifiers: nat) -> bool {
    if modifiers == 1 {
        codepoint == key && (byte_is_graphic(key) || key == 32)
    } else if modifiers == 5 {
        match control_candidates(key) {
            Some(c) => codepoint == c.0 || codepoint == c.1,
            None => false,
        }
    } else {
        false
    }
}

pub open spec fn all_in_report(s: Seq<u8>, tilde: bool) -> bool {
    forall|i: int|
        0 <= i < s.len() ==> byte_is_digit(#[trigger] s[i]) || s[i] == 59 || s[i] == 58 || (tilde
            && s[i] == 126)
}

pub open spec fn all_byte_digits(s: Seq<u8>) -> bool {
    forall|i: int| 0 <= i < s.len() ==> byte_is_digit(#[trigger] s[i])
}

pub open spec fn verdict(ok: bool) -> EnhancedKeyMatch {
    if ok {
        EnhancedKeyMatch::Matched
    } else {
        EnhancedKeyMatch::Invalid
    }
}

/// The body of a `CSI .. u` report: a code point, then the first later field that is a number
/// gives the modifiers, 1 without one.
pub open spec fn csi_u_match(body: Seq<u8>, key: u8) -> EnhancedKeyMatch {
    let fields = byte_fields(body, true);
    if body.len() == 0 || !all_in_report(body, false) {
        EnhancedKeyMatch::Invalid
    } else {
        match parse_u32(fields[0]) {
            None => EnhancedKeyMatch::Invalid,
            Some(code) => {
                let modifiers = match first_number(fields.skip(1)) {
                    Some(m) => m,
                    None => 1,
                };
                verdict(report_is_key(key, code, modifiers))
            },
        }
    }
}

/// The body of a `CSI 27 ; modifiers ; code ~` report.
pub open spec fn csi_tilde_match(body: Seq<u8>, key: u8) -> EnhancedKeyMatch {
    let fields = byte_fields(body, false);
    if fields.len() == 3 && fields[0] == seq![50u8, 55u8] && all_byte_digits(fields[1])
        && all_byte_digits(fields[2]) {
        match (parse_u32(fields[1]), parse_u32(fields[2])) {
            (Some(modifiers), Some(code)) => verdict(report_is_key(key, code, modifiers)),
            _ => EnhancedKeyMatch::Invalid,
        }
    } else {
        EnhancedKeyMatch::Invalid
    }
}

/// What `bytes` is, as a report of `key`: complete and that key, complete or broken otherwise, or
/// the beginning of one.
pub open spec fn enhanced_match(bytes: Seq<u8>, key: u8) -> EnhancedKeyMatch {
    if bytes.len() == 0 {
        EnhancedKeyMatch::Pending
    } else if bytes[0] != ESC {
        EnhancedKeyMatch::Invalid
    } else if bytes.len() == 1 {
        EnhancedKeyMatch::Pending
    } else if bytes[1] != 91 {
        EnhancedKeyMatch::Invalid
    } else if bytes.len() == 2 {
        EnhancedKeyMatch::Pending
    } else {
        let last = bytes.last();
        let body = bytes.subrange(2, bytes.len() - 1);
        if last == 117 {
            csi_u_match(body, key)
        } else if last == 126 {
            csi_tilde_match(body, key)
        } else if (byte_is_digit(last) || last == 59 || last == 58) && all_in_report(body, true) {
            EnhancedKeyMatch::Pending
        } else {
            EnhancedKeyMatch::Invalid
        }
    }
}

/// Whether a key can be reported in an enhanced form at all.
pub open spec fn has_enhanced_form(key: u8) -> bool {
    byte_is_graphic(key) || key == 32 || control_candidates(key) is Some
}

proof fn lemma_first_separator(s: Seq<u8>, colon: bool)
    ensures
        0 <= first_separator(s, colon) <= s.len(),
        forall|i: int| 0 <= i < first_separator(s, colon) ==> !is_separator(s[i], colon),
        first_separator(s, colon) < s.len() ==> is_separator(s[first_separator(s, colon)], colon),
    decreases s.len(),
{
    if s.len() > 0 && !is_separator(s[0], colon) {
        lemma_first_separator(s.skip(1), colon);
        assert forall|i: int| 0 <= i < first_separator(s, colon) implies !is_separator(
            s[i],
            colon,
        ) by {
            if i > 0 {
                assert(s[i] == s.skip(1)[i - 1]);
            }
        }
    }
}

proof fn lemma_first_separator_is(s: Seq<u8>, colon: bool, k: int)
    requires
        0 <= k <= s.len(),
        forall|i: int| 0 <= i < k ==> !is_separator(s[i], colon),
        k < s.len() ==> is_separator(s[k], colon),
    ensures
        first_separator(s, colon) == k,
{
    lemma_first_separator(s, colon);
    if first_separator(s, colon) > k {
        assert(!is_separator(s[k], colon));
    }
}

pub fn sub_bytes(v: &[u8], from: usize, to: usize) -> (r: Vec<u8>)
    requires
        from <= to <= v@.len(),
    ensures
        r@ == v@.subrange(from as int, to as int),
{
    let mut r: Vec<u8> = Vec::new();
    let mut i: usize = from;
    while i < to
        invariant
            from <= i <= to <= v@.len(),
            r@ == v@.subrange(from as int, i as int),
        decreases to - i,
    {
        r.push(v[i]);
        i += 1;
    }
    r
}

pub open spec fn byte_views(v: Seq<Vec<u8>>) -> Seq<Seq<u8>> {
    v.map_values(|s: Vec<u8>| s@)
}

fn split_fields(v: &[u8], colon: bool) -> (r: Vec<Vec<u8>>)
    ensures
        byte_views(r@) == byte_fields(v@, colon),
        r@.len() > 0,
        r@.len() == byte_fields(v@, colon).len(),
        forall|i: int| 0 <= i < r@.len() ==> (#[trigger] r@[i])@ == byte_fields(v@, colon)[i],
{
    let mut r: Vec<Vec<u8>> = Vec::new();
    let mut start: usize = 0;
    let mut i: usize = 0;
    assert(v@.skip(0) =~= v@);
    while i < v.len()
        invariant
            start <= i <= v@.len(),
            forall|k: int| start <= k < i ==> !is_separator(v@[k], colon),
            byte_fields(v@, colon) == byte_views(r@) + byte_fields(v@.skip(start as int), colon),
        decreases v@.len() - i,
    {
        if v[i] == 59 || (colon && v[i] == 58) {
            let part = sub_bytes(v, start, i);
            proof {
                let rest = v@.skip(start as int);
                assert forall|k: int| 0 <= k < i - start implies !is_separator(rest[k], colon) by {
                    assert(rest[k] == v@[start + k]);
                }
                lemma_first_separator_is(rest, colon, i - start);
                assert(rest.take(i - start) =~= part@);
                assert(rest.skip(i - start + 1) =~= v@.skip(i + 1));
                assert(byte_views(r@.push(part)) =~= byte_views(r@).push(part@));
                assert(byte_views(r@) + (seq![part@] + byte_fields(v@.skip(i + 1), colon))
                    =~= byte_views(r@).push(part@) + byte_fields(v@.skip(i + 1), colon));
            }
            r.push(part);
            start = i + 1;
        }
        i += 1;
    }
    let part = sub_bytes(v, start, v.len());
    proof {
        let rest = v@.skip(start as int);
        assert forall|k: int| 0 <= k < rest.len() implies !is_separator(rest[k], colon) by {
            assert(rest[k] == v@[start + k]);
        }
        lemma_first_separator_is(rest, colon, rest.len() as int);
        assert(rest =~= part@);
        assert(byte_views(r@.push(part)) =~= byte_views(r@).push(part@));
        assert(byte_views(r@) + seq![part@] =~= byte_views(r@).push(part@));
    }
    r.push(part);
    assert forall|i: int| 0 <= i < r@.len() implies (#[trigger] r@[i])@ == byte_fields(
        v@,
        colon,
    )[i] by {
        assert(byte_views(r@)[i] == r@[i]@);
    }
    r
}

pub fn parse_ascii_u32(bytes: &[u8]) -> (r: Option<u32>)
    ensures
        match r {
            Some(n) => parse_u32(bytes@) == Some(n as nat),
            None => parse_u32(bytes@) is None,
        },
{
    let mut chars: Vec<char> = Vec::new();
    let mut i: usize = 0;
    while i < bytes.len()
        invariant
            i <= bytes@.len(),
            chars@ == bytes_as_chars(bytes@.take(i as int)),
        decreases bytes@.len() - i,
    {
        chars.push(bytes[i] as char);
        i += 1;
        assert(bytes_as_chars(bytes@.take(i as int)) =~= bytes_as_chars(bytes@.take(i - 1)).push(
            bytes@[i - 1] as char,
        ));
    }
    assert(bytes@.take(i as int) =~= bytes@);
    match parse_digits(&chars, u32::MAX as u64) {
        Some(n) => Some(n as u32),
        None => None,
    }
}

pub fn control_key_candidates(expected_key: u8) -> (r: Option<(u32, u32)>)
    ensures
        match r {
            Some(c) => control_candidates(expected_key) == Some((c.0 as nat, c.1 as nat)),
            None => control_candidates(expected_key) is None,
        },
{
    if 0x01 <= expected_key && expected_key <= 0x1a {
        Some(((expected_key + 0x40) as u32, (expected_key + 0x60) as u32))
    } else if 0x1b <= expected_key && expected_key <= 0x1f {
        Some(((expected_key + 0x40) as u32, (expected_key + 0x40) as u32))
    } else {
        None
    }
}

pub fn enhanced_key_matches(expected_key: u8, codepoint: u32, modifiers: u32) -> (r: bool)
    ensures
        r == report_is_key(expected_key, codepoint as nat, modifiers as nat),
{
    if modifiers == 1 {
        return codepoint == expected_key as u32 && ((33 <= expected_key && expected_key <= 126)
            || expected_key == 32);
    }
    if modifiers == 5 {
        return match control_key_candidates(expected_key) {
            Some(c) => codepoint == c.0 || codepoint == c.1,
            None => false,
        };
    }
    false
}

pub fn detach_key_supports_enhanced_match(key: u8) -> (r: bool)
    ensures
        r == has_enhanced_form(key),
{
    (33 <= key && key <= 126) || key == 32 || control_key_candidates(key).is_some()
}

fn report_bytes_only(v: &[u8], tilde: bool) -> (r: bool)
    ensures
        r == all_in_report(v@, tilde),
{
    let mut i: usize = 0;
    while i < v.len()
        invariant
            i <= v@.len(),
            forall|k: int|
                0 <= k < i ==> byte_is_digit(#[trigger] v@[k]) || v@[k] == 59 || v@[k] == 58 || (
                tilde && v@[k] == 126),
        decreases v@.len() - i,
    {
        let b = v[i];
        if !((48 <= b && b <= 57) || b == 59 || b == 58 || (tilde && b == 126)) {
            return false;
        }
        i += 1;
    }
    true
}

fn digits_only(v: &[u8]) -> (r: bool)
    ensures
        r == all_byte_digits(v@),
{
    let mut i: usize = 0;
    while i < v.len()
        invariant
            i <= v@.len(),
            forall|k: int| 0 <= k < i ==> byte_is_digit(#[trigger] v@[k]),
        decreases v@.len() - i,
    {
        let b = v[i];
        if !(48 <= b && b <= 57) {
            return false;
        }
        i += 1;
    }
    true
}

fn match_csi_u(body: &[u8], expected_key: u8) -> (r: EnhancedKeyMatch)
    ensures
        r == csi_u_match(body@, expected_key),
{
    if body.len() == 0 || !report_bytes_only(body, false) {
        return EnhancedKeyMatch::Invalid;
    }
    let fields = split_fields(body, true);
    let ghost all = byte_fields(body@, true);
    let codepoint = match parse_ascii_u32(&fields[0]) {
        Some(n) => n,
        None => {
            return EnhancedKeyMatch::Invalid;
        },
    };
    let mut modifiers: Option<u32> = None;
    let mut i: usize = 1;
    while i < fields.len() && modifiers.is_none()
        invariant
            1 <= i <= fields@.len(),
            fields@.len() == all.len(),
            forall|k: int| 0 <= k < fields@.len() ==> (#[trigger] fields@[k])@ == all[k],
            match modifiers {
                Some(m) => first_number(all.skip(1)) == Some(m as nat),
                None => first_number(all.skip(1)) == first_number(all.skip(i as int)),
            },
        decreases fields@.len() - i,
    {
        proof {
            assert(all.skip(i as int)[0] == all[i as int]);
            assert(all.skip(i as int).skip(1) =~= all.skip(i + 1));
        }
        modifiers = parse_ascii_u32(&fields[i]);
        i += 1;
    }
    proof {
        if modifiers is None {
            assert(all.skip(i as int).len() == 0);
        }
    }
    let modifiers: u32 = match modifiers {
        Some(m) => m,
        None => 1,
    };
    if enhanced_key_matches(expected_key, codepoint, modifiers) {
        EnhancedKeyMatch::Matched
    } else {
        EnhancedKeyMatch::Invalid
    }
}

fn match_csi_tilde(body: &[u8], expected_key: u8) -> (r: EnhancedKeyMatch)
    ensures
        r == csi_tilde_match(body@, expected_key),
{
    let fields = split_fields(body, false);
    if fields.len() != 3 {
        return EnhancedKeyMatch::Invalid;
    }
    let is_27 = fields[0].len() == 2 && fields[0][0] == 50 && fields[0][1] == 55;
    assert(is_27 == (fields@[0]@ =~= seq![50u8, 55u8]));
    if is_27 && digits_only(&fields[1]) && digits_only(&fields[2]) {
        let modifiers = match parse_ascii_u32(&fields[1]) {
            Some(n) => n,
            None => {
                return EnhancedKeyMatch::Invalid;
            },
        };
        let codepoint = match parse_ascii_u32(&fields[2]) {
            Some(n) => n,
            None => {
                return EnhancedKeyMatch::Invalid;
            },
        };
        if enhanced_key_matches(expected_key, codepoint, modifiers) {
            return EnhancedKeyMatch::Matched;
        }
    }
    EnhancedKeyMatch::Invalid
}

pub fn match_enhanced_key_sequence(bytes: &[u8], expected_key: u8) -> (r: EnhancedKeyMatch)
    ensures
        r == enhanced_match(bytes@, expected_key),
{
    if bytes.len() == 0 {
        return EnhancedKeyMatch::Pending;
    }
    if bytes[0] != ESC {
        return EnhancedKeyMatch::Invalid;
    }
    if bytes.len() == 1 {
        return EnhancedKeyMatch::Pending;
    }
    if bytes[1] != 91 {
        return EnhancedKeyMatch::Invalid;
    }
    if bytes.len() == 2 {
        return EnhancedKeyMatch::Pending;
    }
    let last = bytes[bytes.len() - 1];
    let body = sub_bytes(bytes, 2, bytes.len() - 1);
    if last == 117 {
        return match_csi_u(&body, expected_key);
    }
    if last == 126 {
        return match_csi_tilde(&body, expected_key);
    }
    if ((48 <= last && last <= 57) || last == 59 || last == 58) && report_bytes_only(&body, true) {
        return EnhancedKeyMatch::Pending;
    }
    EnhancedKeyMatch::Invalid
}

// ---------------------------------------------------------------------------
// The filter
// ---------------------------------------------------------------------------

/// How far the detach sequence has been typed.
#[verifier::ext_equal]
pub struct DetachState {
    /// The keys that detach, in order.
    pub sequence: Seq<u8>,
    /// How many of them have arrived.
    pub matched: int,
    /// What has arrived of an enhanced report of the next key.
    pub escape: Seq<u8>,
    /// The whole sequence has been typed.
    pub requested: bool,
}

impl DetachState {
    pub open spec fn wf(self) -> bool {
        &&& 0 <= self.matched
        &&& self.matched < self.sequence.len() || (self.sequence.len() == 0 && self.matched == 0
            && self.escape.len() == 0)
        &&& self.escape.len() <= MAX_ENHANCED_KEY_SEQUENCE_LEN
    }

    /// Nothing of the sequence has been typed.
    pub open spec fn idle(self) -> bool {
        self.matched == 0 && self.escape.len() == 0
    }

    /// The bytes that are held back.
    pub open spec fn held(self) -> Seq<u8> {
        self.sequence.take(self.matched) + self.escape
    }

    /// One more key of the sequence has arrived.
    pub open spec fn advanced(self) -> DetachState {
        if self.matched + 1 == self.sequence.len() {
            DetachState { matched: 0, escape: Seq::empty(), requested: true, ..self }
        } else {
            DetachState { matched: self.matched + 1, escape: Seq::empty(), ..self }
        }
    }

    /// Everything held back, and `escape`, goes on to the session.
    pub open spec fn given_up(self, escape: Seq<u8>) -> (DetachState, Seq<u8>) {
        (
            DetachState { matched: 0, escape: Seq::empty(), ..self },
            self.sequence.take(self.matched) + escape,
        )
    }
}

/// One typed byte: the next state, and what goes on to the session. `next` is the byte that
/// follows in the same read; an escape byte can begin an enhanced report only if `[` does.
pub open spec fn detach_step(st: DetachState, byte: u8, next: Option<u8>) -> (
    DetachState,
    Seq<u8>,
) {
    if st.escape.len() > 0 {
        let escape = st.escape.push(byte);
        match enhanced_match(escape, st.sequence[st.matched]) {
            EnhancedKeyMatch::Matched => (st.advanced(), Seq::empty()),
            EnhancedKeyMatch::Invalid => st.given_up(escape),
            EnhancedKeyMatch::Pending => if escape.len() > MAX_ENHANCED_KEY_SEQUENCE_LEN {
                st.given_up(escape)
            } else {
                (DetachState { escape, ..st }, Seq::empty())
            },
        }
    } else if st.sequence.len() == 0 {
        (st, seq![byte])
    } else if byte == st.sequence[st.matched] {
        (st.advanced(), Seq::empty())
    } else if byte == ESC && has_enhanced_form(st.sequence[st.matched]) && next == Some(91u8) {
        (DetachState { escape: seq![byte], ..st }, Seq::empty())
    } else if st.matched > 0 && byte == st.sequence[0] {
        (DetachState { matched: 1, ..st }, st.sequence.take(st.matched))
    } else {
        (DetachState { matched: 0, ..st }, st.sequence.take(st.matched).push(byte))
    }
}

/// The byte that follows the first.
pub open spec fn second(bytes: Seq<u8>) -> Option<u8> {
    if bytes.len() > 1 {
        Some(bytes[1])
    } else {
        None
    }
}

/// One read of typed bytes: the next state, and what goes on to the session.
pub open spec fn detach_run(st: DetachState, bytes: Seq<u8>) -> (DetachState, Seq<u8>)
    decreases bytes.len(),
{
    if bytes.len() == 0 {
        (st, Seq::empty())
    } else {
        let (st1, out1) = detach_step(st, bytes[0], second(bytes));
        let (st2, out2) = detach_run(st1, bytes.skip(1));
        (st2, out1 + out2)
    }
}

pub proof fn lemma_step_wf(st: DetachState, byte: u8, next: Option<u8>)
    requires
        st.wf(),
    ensures
        detach_step(st, byte, next).0.wf(),
        detach_step(st, byte, next).0.sequence == st.sequence,
        st.requested ==> detach_step(st, byte, next).0.requested,
{
}

pub proof fn lemma_run_wf(st: DetachState, bytes: Seq<u8>)
    requires
        st.wf(),
    ensures
        detach_run(st, bytes).0.wf(),
        detach_run(st, bytes).0.sequence == st.sequence,
        st.requested ==> detach_run(st, bytes).0.requested,
    decreases bytes.len(),
{
    if bytes.len() > 0 {
        lemma_step_wf(st, bytes[0], second(bytes));
        lemma_run_wf(detach_step(st, bytes[0], second(bytes)).0, bytes.skip(1));
    }
}

/// Typing the detach sequence requests a detach, and nothing of it reaches the session.
pub proof fn law_sequence_detaches(st: DetachState)
    requires
        st.wf(),
        st.idle(),
        st.sequence.len() > 0,
    ensures
        detach_run(st, st.sequence).0.requested,
        detach_run(st, st.sequence).0.idle(),
        detach_run(st, st.sequence).1.len() == 0,
{
    assert(st.sequence.skip(0) =~= st.sequence);
    lemma_rest_detaches(st, 0);
}

proof fn lemma_rest_detaches(st: DetachState, k: int)
    requires
        st.wf(),
        st.matched == k,
        st.escape.len() == 0,
        0 <= k < st.sequence.len(),
    ensures
        detach_run(st, st.sequence.skip(k)).0.requested,
        detach_run(st, st.sequence.skip(k)).0.idle(),
        detach_run(st, st.sequence.skip(k)).1.len() == 0,
    decreases st.sequence.len() - k,
{
    let rest = st.sequence.skip(k);
    let (st1, out1) = detach_step(st, rest[0], second(rest));
    assert(rest[0] == st.sequence[k]);
    assert(rest.skip(1) =~= st.sequence.skip(k + 1));
    if k + 1 < st.sequence.len() {
        lemma_rest_detaches(st1, k + 1);
    } else {
        assert(rest.skip(1).len() == 0);
        assert(detach_run(st1, rest.skip(1)) == (st1, Seq::<u8>::empty()));
        assert(st1.requested);
    }
}

/// While these bytes arrive, an enhanced report is taken for a key of the sequence.
pub open spec fn takes_report(st: DetachState, bytes: Seq<u8>) -> bool
    decreases bytes.len(),
{
    bytes.len() > 0 && ((st.escape.len() > 0 && enhanced_match(
        st.escape.push(bytes[0]),
        st.sequence[st.matched],
    ) == EnhancedKeyMatch::Matched) || takes_report(
        detach_step(st, bytes[0], second(bytes)).0,
        bytes.skip(1),
    ))
}

/// Typed input that requests no detach reaches the session whole and in order: what goes on, and
/// then what is still held back, is what was held back before and then the input. Only an
/// enhanced report that was taken for a key is not kept as it came.
pub proof fn law_nothing_is_lost(st: DetachState, bytes: Seq<u8>)
    requires
        st.wf(),
        !takes_report(st, bytes),
        !detach_run(st, bytes).0.requested,
    ensures
        detach_run(st, bytes).1 + detach_run(st, bytes).0.held() == st.held() + bytes,
    decreases bytes.len(),
{
    if bytes.len() == 0 {
        assert(detach_run(st, bytes).1 + st.held() =~= st.held() + bytes);
    } else {
        let (st1, out1) = detach_step(st, bytes[0], second(bytes));
        let rest = bytes.skip(1);
        lemma_step_wf(st, bytes[0], second(bytes));
        lemma_run_wf(st1, rest);
        law_nothing_is_lost(st1, rest);
        let (st2, out2) = detach_run(st1, rest);
        assert(out1 + st1.held() =~= st.held().push(bytes[0])) by {
            if st.escape.len() > 0 {
                assert(st1.sequence == st.sequence);
            } else if st.sequence.len() > 0 && bytes[0] == st.sequence[st.matched] {
                assert(!st1.requested);
                if st.matched + 1 < st.sequence.len() {
                    assert(st.sequence.take(st.matched + 1) =~= st.sequence.take(st.matched).push(
                        bytes[0],
                    ));
                }
            } else if st.matched > 0 && bytes[0] == st.sequence[0] {
                assert(st1.sequence.take(1) =~= seq![bytes[0]]);
            }
        }
        assert(out1 + out2 + st2.held() =~= out1 + (st1.held() + rest));
        assert(out1 + (st1.held() + rest) =~= (out1 + st1.held()) + rest);
        assert(st.held().push(bytes[0]) + rest =~= st.held() + bytes);
    }
}

/// A read that leaves nothing held back has passed unchanged: so do keys that send several bytes.
pub proof fn law_finished_input_passes(st: DetachState, bytes: Seq<u8>)
    requires
        st.wf(),
        st.idle(),
        !takes_report(st, bytes),
        !detach_run(st, bytes).0.requested,
        detach_run(st, bytes).0.idle(),
    ensures
        detach_run(st, bytes).1 == bytes,
{
    law_nothing_is_lost(st, bytes);
    let (end, out) = detach_run(st, bytes);
    assert(end.held() =~= Seq::<u8>::empty());
    assert(st.held() =~= Seq::<u8>::empty());
    assert(out + end.held() =~= out);
    assert(st.held() + bytes =~= bytes);
}

/// Input in which neither an escape byte before a `[` nor the first key of the sequence occurs
/// passes at once and unchanged.
pub proof fn law_unrelated_input_passes(st: DetachState, bytes: Seq<u8>)
    requires
        st.wf(),
        st.idle(),
        forall|i: int|
            0 <= i < bytes.len() - 1 && #[trigger] bytes[i] == ESC ==> bytes[i + 1] != 91,
        st.sequence.len() > 0 ==> !bytes.contains(st.sequence[0]),
    ensures
        detach_run(st, bytes) == (st, bytes),
    decreases bytes.len(),
{
    if bytes.len() == 0 {
        assert(detach_run(st, bytes).1 =~= bytes);
    } else {
        let rest = bytes.skip(1);
        assert(bytes.contains(bytes[0]));
        assert forall|b: u8| rest.contains(b) implies bytes.contains(b) by {
            let i = choose|i: int| 0 <= i < rest.len() && rest[i] == b;
            assert(bytes[i + 1] == b);
        }
        assert forall|i: int| 0 <= i < rest.len() - 1 && #[trigger] rest[i] == ESC implies rest[i
            + 1] != 91 by {
            assert(bytes[i + 1] == rest[i]);
        }
        let (st1, out1) = detach_step(st, bytes[0], second(bytes));
        assert(st1 =~= st);
        assert(out1 =~= seq![bytes[0]]);
        law_unrelated_input_passes(st, rest);
        assert(out1 + rest =~= bytes);
    }
}

/// A lone escape byte goes on immediately, for any sequence that does not begin with one.
pub proof fn law_bare_escape_passes(st: DetachState)
    requires
        st.wf(),
        st.idle(),
        st.sequence.len() > 0 ==> st.sequence[0] != ESC,
    ensures
        detach_run(st, seq![ESC]) == (st, seq![ESC]),
{
    let (st1, out1) = detach_step(st, ESC, None);
    assert(second(seq![ESC]) is None);
    assert(seq![ESC].skip(1).len() == 0);
    assert(st1 =~= st);
    assert(out1 =~= seq![ESC]);
    assert(detach_run(st1, seq![ESC].skip(1)) == (st1, Seq::<u8>::empty()));
    assert(out1 + Seq::<u8>::empty() =~= out1);
}

impl DetachState {
    /// An escape byte before a `[` begins an enhanced report.
    pub open spec fn expects_report(self) -> bool {
        &&& self.escape.len() == 0
        &&& self.sequence.len() > 0
        &&& self.sequence[self.matched] != ESC
        &&& has_enhanced_form(self.sequence[self.matched])
    }
}

/// How typed input is cut into reads does not matter, except between an escape byte and a `[` with
/// which an enhanced report would begin.
pub proof fn law_reads_may_be_cut(st: DetachState, a: Seq<u8>, b: Seq<u8>)
    requires
        st.wf(),
        a.len() > 0 && b.len() > 0 && a.last() == ESC && b[0] == 91 ==> !detach_run(
            st,
            a.drop_last(),
        ).0.expects_report(),
    ensures
        detach_run(st, a + b).0 == detach_run(detach_run(st, a).0, b).0,
        detach_run(st, a + b).1 == detach_run(st, a).1 + detach_run(detach_run(st, a).0, b).1,
    decreases a.len(),
{
    if a.len() == 0 {
        assert(a + b =~= b);
        assert(detach_run(st, a).1 + detach_run(st, b).1 =~= detach_run(st, b).1);
    } else {
        let s = a + b;
        let (st1, out1) = detach_step(st, a[0], second(a));
        assert(s.skip(1) =~= a.skip(1) + b);
        if a.len() == 1 {
            assert(second(a) is None);
            assert(a.drop_last().len() == 0);
            assert(detach_run(st, a.drop_last()).0 == st);
            assert(detach_step(st, a[0], second(s)) == (st1, out1));
        } else {
            assert(second(s) == second(a));
            assert(a.skip(1).last() == a.last());
            if a.last() == ESC {
                let front = a.drop_last();
                assert(front[0] == a[0]);
                assert(front.skip(1) =~= a.skip(1).drop_last());
                assert(detach_step(st, a[0], second(front)) == (st1, out1)) by {
                    if a.len() == 2 {
                        assert(second(front) is None);
                        assert(second(a) == Some(ESC));
                    } else {
                        assert(second(front) == second(a));
                    }
                }
            }
        }
        lemma_step_wf(st, a[0], second(a));
        law_reads_may_be_cut(st1, a.skip(1), b);
        let m = detach_run(st1, a.skip(1));
        let e = detach_run(m.0, b);
        assert(out1 + (m.1 + e.1) =~= (out1 + m.1) + e.1);
    }
}

} // verus!

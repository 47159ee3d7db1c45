//! Command encoder for the engine's line protocol.
//!
//! Every command the shell sends to the engine is one UTF-8 line ending in a
//! newline byte. The three simple actions are bare uppercase keyword lines;
//! configuration sync is a structured JSON object with a `type` discriminator
//! and a nested `data` object. The engine parses a line first as the
//! structured form and falls back to a literal keyword match, so the
//! asymmetry is part of the protocol. `decode_spec` models that parse and the
//! encoder is proved to round-trip through it.

use vstd::prelude::*;

verus! {

/// A high-level action the shell can ask of the engine.
#[derive(Debug, PartialEq, Eq)]
pub enum Action {
    StartRecording,
    StopRecording,
    Ping,
    SetConfig { api_key: Vec<u8>, mode: Vec<u8> },
}

/// Mathematical twin of `Action`, used by contracts.
pub enum ActionModel {
    StartRecording,
    StopRecording,
    Ping,
    SetConfig { api_key: Seq<u8>, mode: Seq<u8> },
}

impl View for Action {
    type V = ActionModel;

    open spec fn view(&self) -> ActionModel {
        match self {
            Action::StartRecording => ActionModel::StartRecording,
            Action::StopRecording => ActionModel::StopRecording,
            Action::Ping => ActionModel::Ping,
            Action::SetConfig { api_key, mode } => ActionModel::SetConfig {
                api_key: api_key@,
                mode: mode@,
            },
        }
    }
}

pub const QUOTE: u8 = 0x22;
pub const BACKSLASH: u8 = 0x5c;
pub const NEWLINE: u8 = 0x0a;

/// `START_RECORDING\n` as bytes.
pub open spec fn start_line() -> Seq<u8> {
    seq![0x53, 0x54, 0x41, 0x52, 0x54, 0x5f, 0x52, 0x45, 0x43, 0x4f, 0x52, 0x44, 0x49, 0x4e, 0x47, 0x0a]
}

/// `STOP_RECORDING\n` as bytes.
pub open spec fn stop_line() -> Seq<u8> {
    seq![0x53, 0x54, 0x4f, 0x50, 0x5f, 0x52, 0x45, 0x43, 0x4f, 0x52, 0x44, 0x49, 0x4e, 0x47, 0x0a]
}

/// `PING\n` as bytes.
pub open spec fn ping_line() -> Seq<u8> {
    seq![0x50, 0x49, 0x4e, 0x47, 0x0a]
}

/// `{"type":"SET_CONFIG","data":{"api_key":"` as bytes: everything of the
/// structured line up to and including the opening quote of the key value.
pub open spec fn cfg_prefix() -> Seq<u8> {
    seq![0x7b, 0x22, 0x74, 0x79, 0x70, 0x65, 0x22, 0x3a, 0x22, 0x53, 0x45, 0x54, 0x5f, 0x43, 0x4f, 0x4e, 0x46, 0x49, 0x47, 0x22, 0x2c, 0x22, 0x64, 0x61, 0x74, 0x61, 0x22, 0x3a, 0x7b, 0x22, 0x61, 0x70, 0x69, 0x5f, 0x6b, 0x65, 0x79, 0x22, 0x3a, 0x22]
}

/// `,"mode":"` as bytes: from after the closing quote of the key value up to
/// and including the opening quote of the mode value.
pub open spec fn cfg_mid() -> Seq<u8> {
    seq![0x2c, 0x22, 0x6d, 0x6f, 0x64, 0x65, 0x22, 0x3a, 0x22]
}

/// `}}\n` as bytes: the tail after the closing quote of the mode value.
pub open spec fn cfg_end() -> Seq<u8> {
    seq![0x7d, 0x7d, 0x0a]
}

/// The hexadecimal digit (lower case) for a value below 16.
pub open spec fn hex_digit(n: u8) -> u8
    recommends
        n < 16,
{
    if n < 10 {
        (0x30 + n) as u8
    } else {
        (0x57 + n) as u8
    }
}

/// How one payload byte appears inside a JSON string: quote and backslash are
/// escaped, control bytes become `\u00XX`, everything else stands as itself.
pub open spec fn esc_byte(b: u8) -> Seq<u8> {
    if b == QUOTE {
        seq![BACKSLASH, QUOTE]
    } else if b == BACKSLASH {
        seq![BACKSLASH, BACKSLASH]
    } else if b < 0x20 {
        seq![BACKSLASH, 0x75, 0x30, 0x30, hex_digit(b / 16), hex_digit(b % 16)]
    } else {
        seq![b]
    }
}

/// A payload as it appears between the quotes of a JSON string.
pub open spec fn escape(s: Seq<u8>) -> Seq<u8>
    decreases s.len(),
{
    if s.len() == 0 {
        Seq::empty()
    } else {
        esc_byte(s[0]) + escape(s.skip(1))
    }
}

pub proof fn lemma_escape_append(a: Seq<u8>, b: Seq<u8>)
    ensures
        escape(a + b) == escape(a) + escape(b),
    decreases a.len(),
{
    if a.len() == 0 {
        assert(a + b =~= b);
        assert(escape(a) + escape(b) =~= escape(b));
    } else {
        assert((a + b).skip(1) =~= a.skip(1) + b);
        lemma_escape_append(a.skip(1), b);
        assert(escape(a + b) =~= escape(a) + escape(b));
    }
}

/// The exact bytes written to the engine for an action: one line, newline
/// terminated; the simple actions as bare keywords, configuration as the
/// structured object.
pub open spec fn encode_spec(a: ActionModel) -> Seq<u8> {
    match a {
        ActionModel::StartRecording => start_line(),
        ActionModel::StopRecording => stop_line(),
        ActionModel::Ping => ping_line(),
        ActionModel::SetConfig { api_key, mode } => cfg_prefix() + escape(api_key) + seq![QUOTE]
            + cfg_mid() + escape(mode) + seq![QUOTE] + cfg_end(),
    }
}

fn hexd(n: u8) -> (r: u8)
    requires
        n < 16,
    ensures
        r == hex_digit(n),
{
    if n < 10 {
        0x30 + n
    } else {
        0x57 + n
    }
}

/// Appends the escaped form of a payload to `out`.
pub(crate) fn push_escaped(out: &mut Vec<u8>, s: &[u8])
    ensures
        final(out)@ == old(out)@ + escape(s@),
{
    let ghost start = out@;
    let mut i: usize = 0;
    while i < s.len()
        invariant
            i <= s@.len(),
            out@ == start + escape(s@.take(i as int)),
        decreases s@.len() - i,
    {
        let b = s[i];
        if b == QUOTE {
            out.push(BACKSLASH);
            out.push(QUOTE);
        } else if b == BACKSLASH {
            out.push(BACKSLASH);
            out.push(BACKSLASH);
        } else if b < 0x20 {
            out.push(BACKSLASH);
            out.push(0x75);
            out.push(0x30);
            out.push(0x30);
            out.push(hexd(b / 16));
            out.push(hexd(b % 16));
        } else {
            out.push(b);
        }
        proof {
            let prev = s@.take(i as int);
            let one = seq![s@[i as int]];
            assert(s@.take(i as int + 1) =~= prev + one);
            lemma_escape_append(prev, one);
            assert(one.skip(1) =~= Seq::<u8>::empty());
            assert(escape(Seq::<u8>::empty()) == Seq::<u8>::empty());
            assert(escape(one) == esc_byte(one[0]) + escape(one.skip(1)));
            assert(escape(one) =~= esc_byte(s@[i as int]));
            assert(out@ =~= start + escape(s@.take(i as int + 1)));
        }
        i = i + 1;
    }
    proof {
        assert(s@.take(s@.len() as int) =~= s@);
    }
}

fn push_start_line(out: &mut Vec<u8>)
    ensures
        final(out)@ == old(out)@ + start_line(),
{
    let ghost start = out@;
    out.push(0x53);
    out.push(0x54);
    out.push(0x41);
    out.push(0x52);
    out.push(0x54);
    out.push(0x5f);
    out.push(0x52);
    out.push(0x45);
    out.push(0x43);
    out.push(0x4f);
    out.push(0x52);
    out.push(0x44);
    out.push(0x49);
    out.push(0x4e);
    out.push(0x47);
    out.push(0x0a);
    proof {
        assert(out@ =~= start + start_line());
    }
}

fn push_stop_line(out: &mut Vec<u8>)
    ensures
        final(out)@ == old(out)@ + stop_line(),
{
    let ghost start = out@;
    out.push(0x53);
    out.push(0x54);
    out.push(0x4f);
    out.push(0x50);
    out.push(0x5f);
    out.push(0x52);
    out.push(0x45);
    out.push(0x43);
    out.push(0x4f);
    out.push(0x52);
    out.push(0x44);
    out.push(0x49);
    out.push(0x4e);
    out.push(0x47);
    out.push(0x0a);
    proof {
        assert(out@ =~= start + stop_line());
    }
}

fn push_ping_line(out: &mut Vec<u8>)
    ensures
        final(out)@ == old(out)@ + ping_line(),
{
    let ghost start = out@;
    out.push(0x50);
    out.push(0x49);
    out.push(0x4e);
    out.push(0x47);
    out.push(0x0a);
    proof {
        assert(out@ =~= start + ping_line());
    }
}

fn push_cfg_prefix(out: &mut Vec<u8>)
    ensures
        final(out)@ == old(out)@ + cfg_prefix(),
{
    let ghost start = out@;
    out.push(0x7b);
    out.push(0x22);
    out.push(0x74);
    out.push(0x79);
    out.push(0x70);
    out.push(0x65);
    out.push(0x22);
    out.push(0x3a);
    out.push(0x22);
    out.push(0x53);
    out.push(0x45);
    out.push(0x54);
    out.push(0x5f);
    out.push(0x43);
    out.push(0x4f);
    out.push(0x4e);
    out.push(0x46);
    out.push(0x49);
    out.push(0x47);
    out.push(0x22);
    out.push(0x2c);
    out.push(0x22);
    out.push(0x64);
    out.push(0x61);
    out.push(0x74);
    out.push(0x61);
    out.push(0x22);
    out.push(0x3a);
    out.push(0x7b);
    out.push(0x22);
    out.push(0x61);
    out.push(0x70);
    out.push(0x69);
    out.push(0x5f);
    out.push(0x6b);
    out.push(0x65);
    out.push(0x79);
    out.push(0x22);
    out.push(0x3a);
    out.push(0x22);
    proof {
        assert(out@ =~= start + cfg_prefix());
    }
}

fn push_cfg_mid(out: &mut Vec<u8>)
    ensures
        final(out)@ == old(out)@ + cfg_mid(),
{
    let ghost start = out@;
    out.push(0x2c);
    out.push(0x22);
    out.push(0x6d);
    out.push(0x6f);
    out.push(0x64);
    out.push(0x65);
    out.push(0x22);
    out.push(0x3a);
    out.push(0x22);
    proof {
        assert(out@ =~= start + cfg_mid());
    }
}

fn push_cfg_end(out: &mut Vec<u8>)
    ensures
        final(out)@ == old(out)@ + cfg_end(),
{
    let ghost start = out@;
    out.push(0x7d);
    out.push(0x7d);
    out.push(0x0a);
    proof {
        assert(out@ =~= start + cfg_end());
    }
}

/// Encodes an action as the one line written to the engine's input stream.
pub fn encode(action: &Action) -> (r: Vec<u8>)
    ensures
        r@ == encode_spec(action@),
{
    let mut out: Vec<u8> = Vec::new();
    match action {
        Action::StartRecording => {
            push_start_line(&mut out);
        },
        Action::StopRecording => {
            push_stop_line(&mut out);
        },
        Action::Ping => {
            push_ping_line(&mut out);
        },
        Action::SetConfig { api_key, mode } => {
            push_cfg_prefix(&mut out);
            push_escaped(&mut out, api_key.as_slice());
            out.push(QUOTE);
            push_cfg_mid(&mut out);
            push_escaped(&mut out, mode.as_slice());
            out.push(QUOTE);
            push_cfg_end(&mut out);
            proof {
                assert(out@ =~= encode_spec(action@));
            }
        },
    }
    out
}

/// Whether a byte is a hexadecimal digit as the encoder writes them
/// (decimal digits and lower-case letters).
pub open spec fn is_hex_low(b: u8) -> bool {
    (0x30 <= b && b <= 0x39) || (0x61 <= b && b <= 0x66)
}

/// The value of a hexadecimal digit byte.
pub open spec fn hex_val(b: u8) -> u8
    recommends
        is_hex_low(b),
{
    if b <= 0x39 {
        (b - 0x30) as u8
    } else {
        (b - 0x57) as u8
    }
}

pub proof fn lemma_hex_digit(n: u8)
    requires
        n < 16,
    ensures
        is_hex_low(hex_digit(n)),
        hex_val(hex_digit(n)) == n,
{
}

/// One step of reading a JSON string from its opening quote onward, as the
/// engine's parser does: the decoded payload up to the closing quote, and
/// whatever follows the closing quote. `None` when the bytes are not a
/// closed JSON string in the form the encoder emits.
pub open spec fn scan_string(s: Seq<u8>) -> Option<(Seq<u8>, Seq<u8>)>
    decreases s.len(),
{
    if s.len() == 0 {
        None
    } else if s[0] == QUOTE {
        Some((Seq::empty(), s.skip(1)))
    } else if s[0] == BACKSLASH {
        if s.len() >= 2 && (s[1] == QUOTE || s[1] == BACKSLASH) {
            match scan_string(s.skip(2)) {
                Some(p) => Some((seq![s[1]] + p.0, p.1)),
                None => None,
            }
        } else if s.len() >= 6 && s[1] == 0x75 && s[2] == 0x30 && s[3] == 0x30 && is_hex_low(s[4])
            && is_hex_low(s[5]) {
            match scan_string(s.skip(6)) {
                Some(p) => Some((seq![(16 * hex_val(s[4]) + hex_val(s[5])) as u8] + p.0, p.1)),
                None => None,
            }
        } else {
            None
        }
    } else {
        match scan_string(s.skip(1)) {
            Some(p) => Some((seq![s[0]] + p.0, p.1)),
            None => None,
        }
    }
}

/// Reading an escaped payload back through the closing quote recovers the
/// payload exactly and leaves the tail untouched.
pub proof fn lemma_scan_escape(k: Seq<u8>, rest: Seq<u8>)
    ensures
        scan_string(escape(k) + seq![QUOTE] + rest) == Some((k, rest)),
    decreases k.len(),
{
    let s = escape(k) + seq![QUOTE] + rest;
    if k.len() == 0 {
        assert(s =~= seq![QUOTE] + rest);
        assert(s[0] == QUOTE);
        assert(s.skip(1) =~= rest);
    } else {
        let b = k[0];
        let tail = k.skip(1);
        let inner = escape(tail) + seq![QUOTE] + rest;
        lemma_scan_escape(tail, rest);
        assert(escape(k) == esc_byte(b) + escape(tail));
        if b == QUOTE {
            assert(s =~= seq![BACKSLASH, QUOTE] + inner);
            assert(s.skip(2) =~= inner);
            assert(seq![s[1]] + tail =~= k);
        } else if b == BACKSLASH {
            assert(s =~= seq![BACKSLASH, BACKSLASH] + inner);
            assert(s.skip(2) =~= inner);
            assert(seq![s[1]] + tail =~= k);
        } else if b < 0x20 {
            let hi = b / 16;
            let lo = b % 16;
            lemma_hex_digit(hi);
            lemma_hex_digit(lo);
            assert(s =~= seq![BACKSLASH, 0x75, 0x30, 0x30, hex_digit(hi), hex_digit(lo)] + inner);
            assert(s.skip(6) =~= inner);
            assert(16 * hex_val(s[4]) + hex_val(s[5]) == b);
            assert(seq![(16 * hex_val(s[4]) + hex_val(s[5])) as u8] + tail =~= k);
        } else {
            assert(s =~= seq![b] + inner);
            assert(s.skip(1) =~= inner);
            assert(seq![s[0]] + tail =~= k);
        }
    }
}

/// The engine's parse of one received line, modelled exactly: the structured
/// configuration form in the shape the encoder emits, else a literal keyword
/// match. `None` for anything the engine would reject.
pub open spec fn decode_spec(line: Seq<u8>) -> Option<ActionModel> {
    if line == start_line() {
        Some(ActionModel::StartRecording)
    } else if line == stop_line() {
        Some(ActionModel::StopRecording)
    } else if line == ping_line() {
        Some(ActionModel::Ping)
    } else if line.len() >= cfg_prefix().len() && line.take(cfg_prefix().len() as int)
        == cfg_prefix() {
        match scan_string(line.skip(cfg_prefix().len() as int)) {
            Some(kr) => {
                let r1 = kr.1;
                if r1.len() >= cfg_mid().len() && r1.take(cfg_mid().len() as int) == cfg_mid() {
                    match scan_string(r1.skip(cfg_mid().len() as int)) {
                        Some(mr) => if mr.1 == cfg_end() {
                            Some(ActionModel::SetConfig { api_key: kr.0, mode: mr.0 })
                        } else {
                            None
                        },
                        None => None,
                    }
                } else {
                    None
                }
            },
            None => None,
        }
    } else {
        None
    }
}

/// Encoding an action and handing the line to the engine's parse gives the
/// action back, whatever bytes stand in the configuration values.
pub proof fn lemma_encode_decode_round_trip(a: ActionModel)
    ensures
        decode_spec(encode_spec(a)) == Some(a),
{
    match a {
        ActionModel::StartRecording => {
        },
        ActionModel::StopRecording => {
            assert(stop_line().len() == 15);
            assert(start_line().len() == 16);
        },
        ActionModel::Ping => {
            assert(ping_line().len() == 5);
            assert(start_line().len() == 16);
            assert(stop_line().len() == 15);
        },
        ActionModel::SetConfig { api_key, mode } => {
            let e = encode_spec(a);
            let rest1 = cfg_mid() + escape(mode) + seq![QUOTE] + cfg_end();
            assert(e =~= cfg_prefix() + (escape(api_key) + seq![QUOTE] + rest1));
            assert(e[0] == 0x7b);
            assert(start_line()[0] == 0x53);
            assert(stop_line()[0] == 0x53);
            assert(ping_line()[0] == 0x50);
            assert(e != start_line());
            assert(e != stop_line());
            assert(e != ping_line());
            assert(cfg_prefix().len() == 40);
            assert(e.take(40) =~= cfg_prefix());
            assert(e.skip(40) =~= escape(api_key) + seq![QUOTE] + rest1);
            lemma_scan_escape(api_key, rest1);
            assert(cfg_mid().len() == 9);
            assert(rest1.take(9) =~= cfg_mid());
            assert(rest1.skip(9) =~= escape(mode) + seq![QUOTE] + cfg_end());
            lemma_scan_escape(mode, cfg_end());
        },
    }
}

/// No byte of the sequence is a newline.
pub open spec fn line_body(s: Seq<u8>) -> bool {
    forall|i: int| 0 <= i < s.len() ==> s[i] != NEWLINE
}

pub proof fn lemma_escape_line_body(s: Seq<u8>)
    ensures
        line_body(escape(s)),
    decreases s.len(),
{
    if s.len() == 0 {
    } else {
        lemma_escape_line_body(s.skip(1));
        assert forall|i: int| 0 <= i < escape(s).len() implies escape(s)[i] != NEWLINE by {
            let block = esc_byte(s[0]);
            assert(escape(s) == block + escape(s.skip(1)));
            if i < block.len() {
                assert(escape(s)[i] == block[i]);
                if s[0] < 0x20 && s[0] != QUOTE && s[0] != BACKSLASH {
                    lemma_hex_digit(s[0] / 16);
                    lemma_hex_digit(s[0] % 16);
                }
            } else {
                assert(escape(s)[i] == escape(s.skip(1))[i - block.len()]);
            }
        }
    }
}

/// Every encoded command is exactly one line: it ends in a newline and holds
/// no newline anywhere else, so the engine's line reader sees it whole.
pub proof fn lemma_encode_single_line(a: ActionModel)
    ensures
        encode_spec(a).len() > 0,
        encode_spec(a)[encode_spec(a).len() - 1] == NEWLINE,
        line_body(encode_spec(a).take(encode_spec(a).len() - 1)),
{
    let e = encode_spec(a);
    match a {
        ActionModel::StartRecording => {
            assert(line_body(e.take(e.len() - 1))) by {
                assert forall|i: int| 0 <= i < e.len() - 1 implies #[trigger] e.take(e.len() - 1)[i] != NEWLINE by {
                    assert(e.take(e.len() - 1)[i] == start_line()[i]);
                }
            }
        },
        ActionModel::StopRecording => {
            assert forall|i: int| 0 <= i < e.len() - 1 implies #[trigger] e.take(e.len() - 1)[i] != NEWLINE by {
                assert(e.take(e.len() - 1)[i] == stop_line()[i]);
            }
        },
        ActionModel::Ping => {
            assert forall|i: int| 0 <= i < e.len() - 1 implies #[trigger] e.take(e.len() - 1)[i] != NEWLINE by {
                assert(e.take(e.len() - 1)[i] == ping_line()[i]);
            }
        },
        ActionModel::SetConfig { api_key, mode } => {
            let body = cfg_prefix() + escape(api_key) + seq![QUOTE] + cfg_mid() + escape(mode)
                + seq![QUOTE] + seq![0x7d, 0x7d];
            assert(e =~= body + seq![NEWLINE]);
            assert(e[e.len() - 1] == NEWLINE);
            lemma_escape_line_body(api_key);
            lemma_escape_line_body(mode);
            assert(line_body(cfg_prefix()));
            assert(line_body(cfg_mid()));
            assert(line_body(body));
            assert(e.take(e.len() - 1) =~= body);
        },
    }
}

fn is_hex_exec(b: u8) -> (r: bool)
    ensures
        r == is_hex_low(b),
{
    (0x30 <= b && b <= 0x39) || (0x61 <= b && b <= 0x66)
}

fn hex_val_exec(b: u8) -> (r: u8)
    requires
        is_hex_low(b),
    ensures
        r == hex_val(b),
        r < 16,
{
    if b <= 0x39 {
        b - 0x30
    } else {
        b - 0x57
    }
}

/// Whether two byte strings hold the same bytes.
fn bytes_eq(a: &[u8], b: &[u8]) -> (r: bool)
    ensures
        r == (a@ == b@),
{
    if a.len() != b.len() {
        proof {
            if a@ == b@ {
                assert(a@.len() == b@.len());
            }
        }
        return false;
    }
    let mut i: usize = 0;
    while i < a.len()
        invariant
            i <= a@.len(),
            a@.len() == b@.len(),
            forall|j: int| 0 <= j < i ==> a@[j] == b@[j],
        decreases a@.len() - i,
    {
        if a[i] != b[i] {
            return false;
        }
        i = i + 1;
    }
    proof {
        assert(a@ =~= b@);
    }
    true
}

/// Whether `pat` stands in `line` at position `pos`.
pub(crate) fn match_at(line: &[u8], pos: usize, pat: &[u8]) -> (r: bool)
    requires
        pos <= line@.len(),
    ensures
        r == (pos + pat@.len() <= line@.len() && line@.subrange(
            pos as int,
            pos as int + pat@.len() as int,
        ) == pat@),
{
    if line.len() - pos < pat.len() {
        return false;
    }
    let mut j: usize = 0;
    while j < pat.len()
        invariant
            j <= pat@.len(),
            pos + pat@.len() <= line@.len(),
            line@.len() <= usize::MAX,
            forall|k: int| 0 <= k < j ==> line@[pos + k] == pat@[k],
        decreases pat@.len() - j,
    {
        if line[pos + j] != pat[j] {
            proof {
                let sub = line@.subrange(pos as int, pos as int + pat@.len() as int);
                if sub == pat@ {
                    assert(sub[j as int] == pat@[j as int]);
                }
            }
            return false;
        }
        j = j + 1;
    }
    proof {
        assert(line@.subrange(pos as int, pos as int + pat@.len() as int) =~= pat@);
    }
    true
}

/// Executable mirror of `scan_string`, reading from `pos`: the decoded
/// payload and the position just past the closing quote.
fn scan_exec(s: &[u8], pos: usize) -> (r: Option<(Vec<u8>, usize)>)
    requires
        pos <= s@.len(),
    ensures
        match r {
            Some(p) => p.1 <= s@.len() && scan_string(s@.skip(pos as int)) == Some(
                (p.0@, s@.skip(p.1 as int)),
            ),
            None => scan_string(s@.skip(pos as int)) is None,
        },
    decreases s@.len() - pos,
{
    let ghost sk = s@.skip(pos as int);
    if pos >= s.len() {
        proof {
            assert(sk.len() == 0);
        }
        return None;
    }
    let b = s[pos];
    proof {
        assert(sk[0] == s@[pos as int]);
    }
    if b == QUOTE {
        proof {
            assert(sk.skip(1) =~= s@.skip(pos as int + 1));
        }
        return Some((Vec::new(), pos + 1));
    }
    if b == BACKSLASH {
        if s.len() - pos >= 2 && (s[pos + 1] == QUOTE || s[pos + 1] == BACKSLASH) {
            proof {
                assert(sk[1] == s@[pos as int + 1]);
                assert(sk.skip(2) =~= s@.skip(pos as int + 2));
            }
            match scan_exec(s, pos + 2) {
                Some((mut d, p)) => {
                    let c = s[pos + 1];
                    let ghost before = d@;
                    d.insert(0, c);
                    proof {
                        assert(d@ =~= seq![sk[1]] + before);
                    }
                    return Some((d, p));
                },
                None => {
                    return None;
                },
            }
        } else if s.len() - pos >= 6 && s[pos + 1] == 0x75 && s[pos + 2] == 0x30 && s[pos + 3]
            == 0x30 && is_hex_exec(s[pos + 4]) && is_hex_exec(s[pos + 5]) {
            proof {
                assert(sk[1] == s@[pos as int + 1]);
                assert(sk[2] == s@[pos as int + 2]);
                assert(sk[3] == s@[pos as int + 3]);
                assert(sk[4] == s@[pos as int + 4]);
                assert(sk[5] == s@[pos as int + 5]);
                assert(sk.skip(6) =~= s@.skip(pos as int + 6));
            }
            let v = 16 * hex_val_exec(s[pos + 4]) + hex_val_exec(s[pos + 5]);
            match scan_exec(s, pos + 6) {
                Some((mut d, p)) => {
                    let ghost before = d@;
                    d.insert(0, v);
                    proof {
                        assert(d@ =~= seq![(16 * hex_val(sk[4]) + hex_val(sk[5])) as u8]
                            + before);
                    }
                    return Some((d, p));
                },
                None => {
                    return None;
                },
            }
        } else {
            proof {
                if sk.len() >= 2 {
                    assert(sk[1] == s@[pos as int + 1]);
                }
                if sk.len() >= 6 {
                    assert(sk[2] == s@[pos as int + 2]);
                    assert(sk[3] == s@[pos as int + 3]);
                    assert(sk[4] == s@[pos as int + 4]);
                    assert(sk[5] == s@[pos as int + 5]);
                }
            }
            return None;
        }
    }
    proof {
        assert(sk.skip(1) =~= s@.skip(pos as int + 1));
    }
    match scan_exec(s, pos + 1) {
        Some((mut d, p)) => {
            let ghost before = d@;
            d.insert(0, b);
            proof {
                assert(d@ =~= seq![sk[0]] + before);
            }
            Some((d, p))
        },
        None => None,
    }
}

/// Parses one line as the engine does. Returns the action the line encodes,
/// or `None` where the engine would reject the line.
pub fn decode(line: &[u8]) -> (r: Option<Action>)
    ensures
        match r {
            Some(a) => decode_spec(line@) == Some(a@),
            None => decode_spec(line@) is None,
        },
{
    let mut kw_start: Vec<u8> = Vec::new();
    push_start_line(&mut kw_start);
    if bytes_eq(line, kw_start.as_slice()) {
        return Some(Action::StartRecording);
    }
    let mut kw_stop: Vec<u8> = Vec::new();
    push_stop_line(&mut kw_stop);
    if bytes_eq(line, kw_stop.as_slice()) {
        return Some(Action::StopRecording);
    }
    let mut kw_ping: Vec<u8> = Vec::new();
    push_ping_line(&mut kw_ping);
    if bytes_eq(line, kw_ping.as_slice()) {
        return Some(Action::Ping);
    }
    let mut pre: Vec<u8> = Vec::new();
    push_cfg_prefix(&mut pre);
    if !match_at(line, 0, pre.as_slice()) {
        proof {
            assert(line@.subrange(0, cfg_prefix().len() as int) == line@.take(
                cfg_prefix().len() as int,
            ));
        }
        return None;
    }
    proof {
        assert(line@.subrange(0, cfg_prefix().len() as int) == line@.take(
            cfg_prefix().len() as int,
        ));
    }
    let scanned_key = scan_exec(line, pre.len());
    match scanned_key {
        None => {
            None
        },
        Some((key, p1)) => {
            let ghost r1 = line@.skip(p1 as int);
            let mut mid: Vec<u8> = Vec::new();
            push_cfg_mid(&mut mid);
            if !match_at(line, p1, mid.as_slice()) {
                proof {
                    if r1.len() >= cfg_mid().len() && r1.take(cfg_mid().len() as int)
                        == cfg_mid() {
                        assert(p1 + cfg_mid().len() <= line@.len());
                        assert(r1.take(cfg_mid().len() as int) =~= line@.subrange(
                            p1 as int,
                            p1 as int + cfg_mid().len() as int,
                        ));
                    }
                }
                return None;
            }
            proof {
                assert(r1.take(cfg_mid().len() as int) =~= line@.subrange(
                    p1 as int,
                    p1 as int + cfg_mid().len() as int,
                ));
                assert(r1.skip(cfg_mid().len() as int) =~= line@.skip(
                    p1 as int + cfg_mid().len() as int,
                ));
            }
            let line_len = line.len();
            proof {
                assert(p1 + cfg_mid().len() <= line_len);
            }
            let scanned_mode = scan_exec(line, p1 + mid.len());
            match scanned_mode {
                None => {
                    None
                },
                Some((mode, p2)) => {
                    let ghost r2 = line@.skip(p2 as int);
                    let mut end: Vec<u8> = Vec::new();
                    push_cfg_end(&mut end);
                    if match_at(line, p2, end.as_slice()) && line.len() - p2 == end.len() {
                        proof {
                            assert(r2 =~= line@.subrange(
                                p2 as int,
                                p2 as int + cfg_end().len() as int,
                            ));
                        }
                        Some(Action::SetConfig { api_key: key, mode })
                    } else {
                        proof {
                            if r2 == cfg_end() {
                                assert(r2.len() == cfg_end().len());
                                assert(p2 + cfg_end().len() == line@.len());
                                assert(line@.subrange(
                                    p2 as int,
                                    p2 as int + cfg_end().len() as int,
                                ) =~= r2);
                            }
                        }
                        None
                    }
                },
            }
        },
    }
}

} // verus!

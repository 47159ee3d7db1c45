//! Event reader logic: classification and routing of the engine's output.
//!
//! A stdout line goes verbatim to every general subscriber; when it carries
//! one of the result or status tags anywhere in it, it also goes to the
//! low-latency overlay channel. The tag test is a substring filter, not a
//! structured parse: the payload passes through unmodified. A stderr line is
//! never shown on the overlay; it is wrapped into a diagnostic event of type
//! `LOG` for the general channel only.

use crate::codec;
use vstd::prelude::*;

verus! {

/// Whether `pat` occurs contiguously inside `s`.
pub open spec fn contains_seq(s: Seq<u8>, pat: Seq<u8>) -> bool {
    exists|i: int| 0 <= i && i + pat.len() <= s.len() && #[trigger] s.subrange(i, i + pat.len())
        == pat
}

/// `PARTIAL_RESULT` as bytes.
pub open spec fn partial_result_tag() -> Seq<u8> {
    seq![0x50, 0x41, 0x52, 0x54, 0x49, 0x41, 0x4c, 0x5f, 0x52, 0x45, 0x53, 0x55, 0x4c, 0x54]
}

/// `RESULT` as bytes.
pub open spec fn result_tag() -> Seq<u8> {
    seq![0x52, 0x45, 0x53, 0x55, 0x4c, 0x54]
}

/// `STATUS` as bytes.
pub open spec fn status_tag() -> Seq<u8> {
    seq![0x53, 0x54, 0x41, 0x54, 0x55, 0x53]
}

/// `{"type": "LOG", "data": "` as bytes.
pub open spec fn log_prefix() -> Seq<u8> {
    seq![0x7b, 0x22, 0x74, 0x79, 0x70, 0x65, 0x22, 0x3a, 0x20, 0x22, 0x4c, 0x4f, 0x47, 0x22, 0x2c, 0x20, 0x22, 0x64, 0x61, 0x74, 0x61, 0x22, 0x3a, 0x20, 0x22]
}

/// `"}` as bytes.
pub open spec fn log_end() -> Seq<u8> {
    seq![0x22, 0x7d]
}

/// `{"type": "STATUS", "data": "RECORDING"}` as bytes: the status event the
/// shell publishes when the hotkey starts a recording.
pub open spec fn recording_status_event() -> Seq<u8> {
    seq![0x7b, 0x22, 0x74, 0x79, 0x70, 0x65, 0x22, 0x3a, 0x20, 0x22, 0x53, 0x54, 0x41, 0x54, 0x55, 0x53, 0x22, 0x2c, 0x20, 0x22, 0x64, 0x61, 0x74, 0x61, 0x22, 0x3a, 0x20, 0x22, 0x52, 0x45, 0x43, 0x4f, 0x52, 0x44, 0x49, 0x4e, 0x47, 0x22, 0x7d]
}

/// The forwarding filter for the overlay channel: a line passes when any of
/// the three tags occurs in it.
pub open spec fn overlay_pass(line: Seq<u8>) -> bool {
    contains_seq(line, partial_result_tag()) || contains_seq(line, result_tag()) || contains_seq(
        line,
        status_tag(),
    )
}

/// The diagnostic event wrapped around one stderr line.
pub open spec fn log_event_spec(line: Seq<u8>) -> Seq<u8> {
    log_prefix() + codec::escape(line) + log_end()
}

/// The byte sequences held by a sequence of lines.
pub open spec fn views_of(lines: Seq<Vec<u8>>) -> Seq<Seq<u8>> {
    lines.map_values(|v: Vec<u8>| v@)
}

/// Whether `pat` occurs contiguously inside `s`.
pub fn contains_bytes(s: &[u8], pat: &[u8]) -> (r: bool)
    ensures
        r == contains_seq(s@, pat@),
{
    if pat.len() > s.len() {
        return false;
    }
    let bound = s.len() - pat.len();
    let mut i: usize = 0;
    loop
        invariant_except_break
            i <= bound,
            bound == s@.len() - pat@.len(),
            pat@.len() <= s@.len(),
            s@.len() <= usize::MAX,
            forall|k: int| 0 <= k < i ==> #[trigger] s@.subrange(k, k + pat@.len()) != pat@,
        ensures
            forall|k: int| 0 <= k <= bound ==> #[trigger] s@.subrange(k, k + pat@.len()) != pat@,
        decreases bound - i,
    {
        if codec::match_at(s, i, pat) {
            proof {
                assert(0 <= i as int && i as int + pat@.len() <= s@.len() && s@.subrange(
                    i as int,
                    i as int + pat@.len(),
                ) == pat@);
            }
            return true;
        }
        if i == bound {
            break;
        }
        i = i + 1;
    }
    proof {
        if contains_seq(s@, pat@) {
            let w = choose|k: int|
                0 <= k && k + pat@.len() <= s@.len() && #[trigger] s@.subrange(k, k + pat@.len())
                    == pat@;
            assert(w <= bound);
        }
    }
    false
}

/// Tests one stdout line against the overlay filter.
pub fn overlay_filter(line: &[u8]) -> (r: bool)
    ensures
        r == overlay_pass(line@),
{
    let mut partial: Vec<u8> = Vec::new();
    push_partial_result_tag(&mut partial);
    if contains_bytes(line, partial.as_slice()) {
        return true;
    }
    let mut result: Vec<u8> = Vec::new();
    push_result_tag(&mut result);
    if contains_bytes(line, result.as_slice()) {
        return true;
    }
    let mut status: Vec<u8> = Vec::new();
    push_status_tag(&mut status);
    contains_bytes(line, status.as_slice())
}

/// Wraps one stderr line into the diagnostic event for the general channel.
pub fn log_event(line: &[u8]) -> (r: Vec<u8>)
    ensures
        r@ == log_event_spec(line@),
{
    let mut out: Vec<u8> = Vec::new();
    push_log_prefix(&mut out);
    codec::push_escaped(&mut out, line);
    push_log_end(&mut out);
    proof {
        assert(out@ =~= log_event_spec(line@));
    }
    out
}

/// The status event published when the hotkey starts a recording.
pub fn recording_status() -> (r: Vec<u8>)
    ensures
        r@ == recording_status_event(),
{
    let mut out: Vec<u8> = Vec::new();
    push_recording_status_event(&mut out);
    out
}

/// What a batch of stdout lines becomes on the two channels.
pub struct RoutedEvents {
    /// Every line, verbatim, in stream order.
    pub general: Vec<Vec<u8>>,
    /// The lines that pass the overlay filter, in stream order.
    pub overlay: Vec<Vec<u8>>,
}

/// Routes a batch of stdout lines: the general channel receives every line in
/// order; the overlay channel receives exactly the lines that pass the
/// filter, in the same order.
pub fn route_stdout_lines(lines: &Vec<Vec<u8>>) -> (r: RoutedEvents)
    ensures
        views_of(r.general@) == views_of(lines@),
        views_of(r.overlay@) == views_of(lines@).filter(|l: Seq<u8>| overlay_pass(l)),
{
    let ghost pred = |l: Seq<u8>| overlay_pass(l);
    let mut general: Vec<Vec<u8>> = Vec::new();
    let mut overlay: Vec<Vec<u8>> = Vec::new();
    let mut i: usize = 0;
    while i < lines.len()
        invariant
            i <= lines@.len(),
            pred == (|l: Seq<u8>| overlay_pass(l)),
            views_of(general@) == views_of(lines@.take(i as int)),
            views_of(overlay@) == views_of(lines@.take(i as int)).filter(pred),
        decreases lines@.len() - i,
    {
        let line = &lines[i];
        let ghost gprev = views_of(general@);
        let ghost oprev = views_of(overlay@);
        let copy = clone_bytes(line);
        general.push(copy);
        let passes = overlay_filter(line.as_slice());
        if passes {
            let copy2 = clone_bytes(line);
            overlay.push(copy2);
        }
        proof {
            let prev = views_of(lines@.take(i as int));
            let one = seq![lines@[i as int]@];
            assert(views_of(lines@.take(i as int + 1)) =~= prev + one);
            assert(views_of(general@) =~= gprev + one);
            Seq::<Seq<u8>>::filter_distributes_over_add(prev, one, pred);
            reveal_with_fuel(Seq::<_>::filter, 2);
            assert(Seq::<Seq<u8>>::empty().filter(pred) == Seq::<Seq<u8>>::empty());
            assert(one.drop_last() =~= Seq::<Seq<u8>>::empty());
            assert(one.filter(pred) == if pred(one.last()) {
                one.drop_last().filter(pred).push(one.last())
            } else {
                one.drop_last().filter(pred)
            });
            assert(one.last() == lines@[i as int]@);
            assert(pred(one.last()) == overlay_pass(lines@[i as int]@));
            if passes {
                assert(one.filter(pred) =~= Seq::<Seq<u8>>::empty().push(one.last()));
                assert(one.filter(pred) =~= one);
                assert(views_of(overlay@) =~= oprev + one);
            } else {
                assert(one.filter(pred) =~= Seq::<Seq<u8>>::empty());
                assert(views_of(overlay@) =~= oprev);
                assert(prev.filter(pred) + one.filter(pred) =~= prev.filter(pred));
            }
        }
        i = i + 1;
    }
    proof {
        assert(lines@.take(lines@.len() as int) =~= lines@);
    }
    RoutedEvents { general, overlay }
}

/// A byte-for-byte copy of a line.
pub(crate) fn clone_bytes(v: &Vec<u8>) -> (r: Vec<u8>)
    ensures
        r@ == v@,
{
    let mut out: Vec<u8> = Vec::new();
    let mut i: usize = 0;
    while i < v.len()
        invariant
            i <= v@.len(),
            out@ == v@.take(i as int),
        decreases v@.len() - i,
    {
        out.push(v[i]);
        proof {
            assert(out@ =~= v@.take(i as int + 1));
        }
        i = i + 1;
    }
    proof {
        assert(v@.take(v@.len() as int) =~= v@);
    }
    out
}

fn push_partial_result_tag(out: &mut Vec<u8>)
    ensures
        final(out)@ == old(out)@ + partial_result_tag(),
{
    let ghost start = out@;
    out.push(0x50);
    out.push(0x41);
    out.push(0x52);
    out.push(0x54);
    out.push(0x49);
    out.push(0x41);
    out.push(0x4c);
    out.push(0x5f);
    out.push(0x52);
    out.push(0x45);
    out.push(0x53);
    out.push(0x55);
    out.push(0x4c);
    out.push(0x54);
    proof {
        assert(out@ =~= start + partial_result_tag());
    }
}

fn push_result_tag(out: &mut Vec<u8>)
    ensures
        final(out)@ == old(out)@ + result_tag(),
{
    let ghost start = out@;
    out.push(0x52);
    out.push(0x45);
    out.push(0x53);
    out.push(0x55);
    out.push(0x4c);
    out.push(0x54);
    proof {
        assert(out@ =~= start + result_tag());
    }
}

fn push_status_tag(out: &mut Vec<u8>)
    ensures
        final(out)@ == old(out)@ + status_tag(),
{
    let ghost start = out@;
    out.push(0x53);
    out.push(0x54);
    out.push(0x41);
    out.push(0x54);
    out.push(0x55);
    out.push(0x53);
    proof {
        assert(out@ =~= start + status_tag());
    }
}

fn push_log_prefix(out: &mut Vec<u8>)
    ensures
        final(out)@ == old(out)@ + log_prefix(),
{
    let ghost start = out@;
    out.push(0x7b);
    out.push(0x22);
    out.push(0x74);
    out.push(0x79);
    out.push(0x70);
    out.push(0x65);
    out.push(0x22);
    out.push(0x3a);
    out.push(0x20);
    out.push(0x22);
    out.push(0x4c);
    out.push(0x4f);
    out.push(0x47);
    out.push(0x22);
    out.push(0x2c);
    out.push(0x20);
    out.push(0x22);
    out.push(0x64);
    out.push(0x61);
    out.push(0x74);
    out.push(0x61);
    out.push(0x22);
    out.push(0x3a);
    out.push(0x20);
    out.push(0x22);
    proof {
        assert(out@ =~= start + log_prefix());
    }
}

fn push_log_end(out: &mut Vec<u8>)
    ensures
        final(out)@ == old(out)@ + log_end(),
{
    let ghost start = out@;
    out.push(0x22);
    out.push(0x7d);
    proof {
        assert(out@ =~= start + log_end());
    }
}

fn push_recording_status_event(out: &mut Vec<u8>)
    ensures
        final(out)@ == old(out)@ + recording_status_event(),
{
    let ghost start = out@;
    out.push(0x7b);
    out.push(0x22);
    out.push(0x74);
    out.push(0x79);
    out.push(0x70);
    out.push(0x65);
    out.push(0x22);
    out.push(0x3a);
    out.push(0x20);
    out.push(0x22);
    out.push(0x53);
    out.push(0x54);
    out.push(0x41);
    out.push(0x54);
    out.push(0x55);
    out.push(0x53);
    out.push(0x22);
    out.push(0x2c);
    out.push(0x20);
    out.push(0x22);
    out.push(0x64);
    out.push(0x61);
    out.push(0x74);
    out.push(0x61);
    out.push(0x22);
    out.push(0x3a);
    out.push(0x20);
    out.push(0x22);
    out.push(0x52);
    out.push(0x45);
    out.push(0x43);
    out.push(0x4f);
    out.push(0x52);
    out.push(0x44);
    out.push(0x49);
    out.push(0x4e);
    out.push(0x47);
    out.push(0x22);
    out.push(0x7d);
    proof {
        assert(out@ =~= start + recording_status_event());
    }
}

} // verus!

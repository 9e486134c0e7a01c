//! The device exchange side of the protocol: topology text parsing, node
//! filtering, the hex dump of raw buffers, and the per-node exchange
//! session.  The privileged device calls and the filesystem reads stay with
//! the caller, who hands their plain results in.

use vstd::prelude::*;

use crate::error::Error;
use crate::guest::{ReportRsp, PAGE_SIZE};

verus! {

/// ASCII whitespace, as trimmed around a topology integer.
pub open spec fn is_ascii_space(b: u8) -> bool {
    b == 32 || (9 <= b <= 13)
}

/// An ASCII decimal digit.
pub open spec fn is_ascii_digit(b: u8) -> bool {
    48 <= b <= 57
}

/// `s` without its leading ASCII whitespace.
pub open spec fn trim_front(s: Seq<u8>) -> Seq<u8>
    decreases s.len(),
{
    if s.len() > 0 && is_ascii_space(s[0]) {
        trim_front(s.drop_first())
    } else {
        s
    }
}

/// `s` without its trailing ASCII whitespace.
pub open spec fn trim_back(s: Seq<u8>) -> Seq<u8>
    decreases s.len(),
{
    if s.len() > 0 && is_ascii_space(s.last()) {
        trim_back(s.drop_last())
    } else {
        s
    }
}

/// `s` without ASCII whitespace on either end.
pub open spec fn trimmed(s: Seq<u8>) -> Seq<u8> {
    trim_back(trim_front(s))
}

/// Whether every byte of `s` is a decimal digit.
pub open spec fn all_digits(s: Seq<u8>) -> bool {
    forall|i: int| 0 <= i < s.len() ==> is_ascii_digit(s[i])
}

/// The value of a decimal digit string.
pub open spec fn dec_value(s: Seq<u8>) -> nat
    decreases s.len(),
{
    if s.len() == 0 {
        0
    } else {
        dec_value(s.drop_last()) * 10 + (s.last() - 48) as nat
    }
}

/// Decides ASCII whitespace.
fn ascii_space(b: u8) -> (r: bool)
    ensures
        r == is_ascii_space(b),
{
    b == 32 || (9 <= b && b <= 13)
}

/// The value of a digit string bounds the value of each of its prefixes.
proof fn lemma_dec_value_prefix(s: Seq<u8>, i: int)
    requires
        0 <= i <= s.len(),
    ensures
        dec_value(s.subrange(0, i)) <= dec_value(s),
    decreases s.len() - i,
{
    if i < s.len() {
        assert(s.subrange(0, i + 1).drop_last() =~= s.subrange(0, i));
        assert(dec_value(s.subrange(0, i)) <= dec_value(s.subrange(0, i + 1)));
        lemma_dec_value_prefix(s, i + 1);
    } else {
        assert(s.subrange(0, i) =~= s);
    }
}

/// Reads the decimal unsigned integer held in a topology text file,
/// ignoring surrounding whitespace: the parse succeeds exactly when the
/// trimmed content is a non-empty digit string whose value fits a `u32`.
pub fn parse_device_id(bytes: &[u8]) -> (r: Result<u32, Error>)
    ensures
        r is Ok <==> {
            &&& trimmed(bytes@).len() > 0
            &&& all_digits(trimmed(bytes@))
            &&& dec_value(trimmed(bytes@)) <= u32::MAX
        },
        r matches Ok(v) ==> v == dec_value(trimmed(bytes@)),
        r matches Err(e) ==> e == Error::ParseFailure,
{
    let n = bytes.len();
    proof {
        assert(bytes@.skip(0) =~= bytes@);
    }
    let mut lo: usize = 0;
    while lo < n && ascii_space(bytes[lo])
        invariant
            0 <= lo <= n,
            n == bytes@.len(),
            trim_front(bytes@) == trim_front(bytes@.skip(lo as int)),
        decreases n - lo,
    {
        proof {
            assert(bytes@.skip(lo as int).drop_first() =~= bytes@.skip(lo as int + 1));
        }
        lo += 1;
    }
    proof {
        assert(trim_front(bytes@) == bytes@.skip(lo as int));
    }

    let mut hi: usize = n;
    while hi > lo && ascii_space(bytes[hi - 1])
        invariant
            lo <= hi <= n,
            n == bytes@.len(),
            trim_front(bytes@) == bytes@.skip(lo as int),
            trimmed(bytes@) == trim_back(bytes@.subrange(lo as int, hi as int)),
        decreases hi,
    {
        proof {
            assert(bytes@.subrange(lo as int, hi as int).drop_last() =~= bytes@.subrange(
                lo as int,
                hi as int - 1,
            ));
        }
        hi -= 1;
    }
    let ghost t = bytes@.subrange(lo as int, hi as int);
    proof {
        assert(trimmed(bytes@) == t);
    }

    if lo == hi {
        return Err(Error::ParseFailure);
    }

    let mut acc: u64 = 0;
    let mut i: usize = lo;
    while i < hi
        invariant
            lo <= i <= hi <= n,
            n == bytes@.len(),
            t == bytes@.subrange(lo as int, hi as int),
            trimmed(bytes@) == t,
            all_digits(t.subrange(0, i - lo)),
            acc == dec_value(t.subrange(0, i - lo)),
            acc <= u32::MAX,
        decreases hi - i,
    {
        let b = bytes[i];
        if b < 48 || b > 57 {
            proof {
                assert(t[i - lo] == bytes@[i as int]);
                assert(!is_ascii_digit(t[i - lo]));
            }
            return Err(Error::ParseFailure);
        }
        let d = (b - 48) as u64;
        acc = acc * 10 + d;
        proof {
            assert(t.subrange(0, i - lo + 1).drop_last() =~= t.subrange(0, i - lo));
            assert(t.subrange(0, i - lo + 1).last() == bytes@[i as int]);
        }
        i += 1;
        if acc > 0xffff_ffff {
            proof {
                lemma_dec_value_prefix(t, i - lo);
            }
            return Err(Error::ParseFailure);
        }
    }
    proof {
        assert(t.subrange(0, hi - lo) =~= t);
    }
    Ok(acc as u32)
}

/// Whether a directory entry counts as a topology node: not the `.` or
/// `..` entry, and carrying the requested name prefix.
pub open spec fn keeps_name(name: Seq<u8>, prefix: Seq<u8>) -> bool {
    &&& name != seq![46u8]
    &&& name != seq![46u8, 46u8]
    &&& name.len() >= prefix.len()
    &&& name.subrange(0, prefix.len() as int) == prefix
}

/// How many of `names` count as topology nodes under `prefix`.
pub open spec fn count_kept(names: Seq<Seq<u8>>, prefix: Seq<u8>) -> nat
    decreases names.len(),
{
    if names.len() == 0 {
        0
    } else {
        count_kept(names.drop_last(), prefix) + if keeps_name(names.last(), prefix) {
            1nat
        } else {
            0nat
        }
    }
}

/// Decides whether one directory entry counts as a topology node.
pub fn name_kept(name: &[u8], prefix: &[u8]) -> (r: bool)
    ensures
        r == keeps_name(name@, prefix@),
{
    if name.len() == 1 && name[0] == 46 {
        proof {
            assert(name@ =~= seq![46u8]);
        }
        return false;
    }
    if name.len() == 2 && name[0] == 46 && name[1] == 46 {
        proof {
            assert(name@ =~= seq![46u8, 46u8]);
        }
        return false;
    }
    if name.len() < prefix.len() {
        return false;
    }
    let mut i: usize = 0;
    while i < prefix.len()
        invariant
            0 <= i <= prefix@.len() <= name@.len(),
            forall|k: int| 0 <= k < i ==> name@[k] == prefix@[k],
        decreases prefix@.len() - i,
    {
        if name[i] != prefix[i] {
            proof {
                assert(name@.subrange(0, prefix@.len() as int)[i as int] == name@[i as int]);
            }
            return false;
        }
        i += 1;
    }
    proof {
        assert(name@.subrange(0, prefix@.len() as int) =~= prefix@);
        assert(name@ != seq![46u8] && name@ != seq![46u8, 46u8]) by {
            if name@ == seq![46u8] {
                assert(name@.len() == 1 && name@[0] == 46u8);
            }
            if name@ == seq![46u8, 46u8] {
                assert(name@.len() == 2 && name@[0] == 46u8 && name@[1] == 46u8);
            }
        }
    }
    true
}

/// Counts the entries of a topology directory that are nodes: everything
/// but `.` and `..`, filtered by the optional name prefix.
pub fn num_subdirs(names: &Vec<Vec<u8>>, prefix: &[u8]) -> (n: usize)
    ensures
        n == count_kept(names.deep_view(), prefix@),
{
    let mut n: usize = 0;
    let mut i: usize = 0;
    while i < names.len()
        invariant
            0 <= i <= names@.len(),
            names.deep_view().len() == names@.len(),
            forall|k: int| 0 <= k < names@.len() ==> names.deep_view()[k] == names@[k]@,
            n == count_kept(names.deep_view().take(i as int), prefix@),
            n <= i,
        decreases names@.len() - i,
    {
        let kept = name_kept(names[i].as_slice(), prefix);
        proof {
            assert(names.deep_view().take(i + 1).drop_last() =~= names.deep_view().take(i as int));
            assert(names.deep_view().take(i + 1).last() == names@[i as int]@);
        }
        if kept {
            n += 1;
        }
        i += 1;
    }
    proof {
        assert(names.deep_view().take(names@.len() as int) =~= names.deep_view());
    }
    n
}

/// The uppercase hex digit for a value below 16.
pub open spec fn hex_digit(n: u8) -> u8 {
    if n < 10 {
        (48 + n) as u8
    } else {
        (55 + n) as u8
    }
}

/// The three output bytes for one dumped byte: two hex digits and a space.
pub open spec fn dump_cell(b: u8) -> Seq<u8> {
    seq![hex_digit(b >> 4), hex_digit(b & 0x0f), 32u8]
}

/// The dump text of `s` with a line break after every 16th byte.
pub open spec fn dump_prefix(s: Seq<u8>) -> Seq<u8>
    decreases s.len(),
{
    if s.len() == 0 {
        Seq::<u8>::empty()
    } else {
        dump_prefix(s.drop_last()) + dump_cell(s.last()) + if s.len() % 16 == 0 {
            seq![10u8]
        } else {
            Seq::<u8>::empty()
        }
    }
}

/// The full dump text: 16 bytes per line, every line closed by a line
/// break, nothing for an empty buffer.
pub open spec fn dump_spec(s: Seq<u8>) -> Seq<u8> {
    if s.len() == 0 {
        Seq::<u8>::empty()
    } else if s.len() % 16 == 0 {
        dump_prefix(s)
    } else {
        dump_prefix(s) + seq![10u8]
    }
}

/// Renders a buffer as the classic hex dump: two uppercase digits and a
/// space per byte, sixteen bytes to a line.  The caller prints the text.
pub fn hex_dump_text(addr: &[u8]) -> (out: Vec<u8>)
    ensures
        out@ == dump_spec(addr@),
{
    let n = addr.len();
    let mut out: Vec<u8> = Vec::new();
    let mut i: usize = 0;
    proof {
        assert(addr@.take(0) =~= Seq::<u8>::empty());
    }
    while i < n
        invariant
            0 <= i <= n,
            n == addr@.len(),
            out@ == dump_prefix(addr@.take(i as int)),
        decreases n - i,
    {
        let b = addr[i];
        let hi = b >> 4;
        let lo = b & 0x0f;
        proof {
            assert(hi < 16 && lo < 16) by (bit_vector)
                requires
                    hi == b >> 4 && lo == b & 0x0f,
            ;
        }
        out.push(if hi < 10 { 48 + hi } else { 55 + hi });
        out.push(if lo < 10 { 48 + lo } else { 55 + lo });
        out.push(32);
        i += 1;
        if i % 16 == 0 {
            out.push(10);
        }
        proof {
            assert(addr@.take(i as int).drop_last() =~= addr@.take(i - 1));
            assert(addr@.take(i as int).last() == addr@[i - 1]);
            assert(out@ =~= dump_prefix(addr@.take(i as int)));
        }
    }
    proof {
        assert(addr@.take(n as int) =~= addr@);
    }
    if n > 0 && n % 16 != 0 {
        out.push(10);
    }
    out
}

/// What one topology node contributed to an attestation request, as the
/// caller observed it at the device boundary.
pub enum NodeEvent {
    /// The node was skipped before or during the exchange, for the given
    /// reason (unreadable topology, malformed device id, failed call).
    Skipped(Error),
    /// The exchange call returned this raw response buffer.
    Response(Vec<u8>),
}

/// The spec-level form of a node event.
pub enum EventModel {
    Skip,
    Page(Seq<u8>),
}

impl NodeEvent {
    /// The event as the session model sees it.
    pub open spec fn model(self) -> EventModel {
        match self {
            NodeEvent::Skipped(_) => EventModel::Skip,
            NodeEvent::Response(b) => EventModel::Page(b@),
        }
    }
}

/// Classifies one privileged exchange call's outcome.  The device
/// boundary demands that both the OS return and the firmware error word
/// be checked: a zero OS return with a non-zero firmware error is still a
/// failed exchange, and only a doubly clean call lets the response buffer
/// count.
pub fn classify_exchange(os_ret: i32, fw_err: u64, response: Vec<u8>) -> (ev: NodeEvent)
    ensures
        os_ret == 0 && fw_err == 0 ==> ev == NodeEvent::Response(response),
        os_ret != 0 || fw_err != 0 ==> ev == NodeEvent::Skipped(Error::ExchangeFailure),
{
    if os_ret != 0 || fw_err != 0 {
        NodeEvent::Skipped(Error::ExchangeFailure)
    } else {
        NodeEvent::Response(response)
    }
}

/// The abstract state of an exchange session: the raw pages accepted so
/// far, how many nodes were skipped, and whether the device handle has
/// been released.
pub struct SessionModel {
    pub pages: Seq<Seq<u8>>,
    pub skipped: nat,
    pub closed: bool,
}

/// How one node event moves the session state: an exactly page-sized
/// response is kept, everything else is counted as a skipped node.
pub open spec fn step_model(m: SessionModel, ev: EventModel) -> SessionModel {
    match ev {
        EventModel::Skip => SessionModel { pages: m.pages, skipped: m.skipped + 1, closed: m.closed },
        EventModel::Page(b) => if b.len() == PAGE_SIZE {
            SessionModel { pages: m.pages.push(b), skipped: m.skipped, closed: m.closed }
        } else {
            SessionModel { pages: m.pages, skipped: m.skipped + 1, closed: m.closed }
        },
    }
}

/// The session state after a whole sequence of node events.
pub open spec fn run_model(m: SessionModel, evs: Seq<EventModel>) -> SessionModel
    decreases evs.len(),
{
    if evs.len() == 0 {
        m
    } else {
        run_model(step_model(m, evs.first()), evs.drop_first())
    }
}

/// One attestation request's pass over the topology nodes.  The caller
/// opens the device, feeds the session one event per node, closes the
/// device through `close` — whose precondition makes a second close
/// unprovable, so the handle is released exactly once — and takes the
/// collected responses from `finish`.
pub struct ExchangeSession {
    device_open: bool,
    results: Vec<ReportRsp>,
    skipped: u64,
}

impl ExchangeSession {
    /// The abstract state: accepted responses are remembered by their wire
    /// bytes.
    pub closed spec fn model(self) -> SessionModel {
        SessionModel {
            pages: Seq::new(self.results@.len(), |i: int| self.results@[i].wire_bytes()),
            skipped: self.skipped as nat,
            closed: !self.device_open,
        }
    }

    /// Starts a session right after the device was opened.
    pub fn new() -> (s: Self)
        ensures
            s.model() == (SessionModel { pages: Seq::<Seq<u8>>::empty(), skipped: 0, closed: false }),
            s.reports().len() == 0,
    {
        let s = Self { device_open: true, results: Vec::new(), skipped: 0 };
        proof {
            assert(s.model().pages =~= Seq::<Seq<u8>>::empty());
        }
        s
    }

    /// The responses accepted so far.
    pub closed spec fn reports(self) -> Seq<ReportRsp> {
        self.results@
    }

    /// How many nodes were skipped so far; callers check it against the
    /// counter's range before feeding another event.
    pub fn skipped_count(&self) -> (n: u64)
        ensures
            n as nat == self.model().skipped,
    {
        self.skipped
    }

    /// Feeds one node's outcome into the session.  A response buffer is
    /// kept exactly when it parses as a page-sized envelope; any failure
    /// is recorded and reported back, never allowed to end the pass.
    pub fn on_node(&mut self, ev: NodeEvent) -> (r: Result<(), Error>)
        requires
            !old(self).model().closed,
            old(self).model().skipped < u64::MAX,
        ensures
            final(self).model() == step_model(old(self).model(), ev.model()),
            r is Ok <==> (ev matches NodeEvent::Response(b) && b@.len() == PAGE_SIZE),
            ev matches NodeEvent::Skipped(err) ==> r == Err::<(), Error>(err),
            (ev matches NodeEvent::Response(b) && b@.len() != PAGE_SIZE) ==> r == Err::<
                (),
                Error,
            >(Error::MalformedResponse),
            r is Ok ==> final(self).reports() == old(self).reports().push(
                final(self).reports().last(),
            ) && final(self).reports().last().wire_bytes() == ev->Response_0@,
            r is Err ==> final(self).reports() == old(self).reports(),
    {
        match ev {
            NodeEvent::Skipped(err) => {
                self.skipped += 1;
                Err(err)
            },
            NodeEvent::Response(bytes) => {
                match ReportRsp::parse(bytes.as_slice()) {
                    Ok(rsp) => {
                        self.results.push(rsp);
                        proof {
                            assert(self.model().pages =~= step_model(
                                old(self).model(),
                                NodeEvent::Response(bytes).model(),
                            ).pages);
                        }
                        Ok(())
                    },
                    Err(e) => {
                        self.skipped += 1;
                        Err(e)
                    },
                }
            },
        }
    }

    /// Releases the device handle.  The precondition rules a second call
    /// out, so along every verified path the handle is closed exactly
    /// once.
    pub fn close(&mut self)
        requires
            !old(self).model().closed,
        ensures
            final(self).model() == (SessionModel {
                pages: old(self).model().pages,
                skipped: old(self).model().skipped,
                closed: true,
            }),
            final(self).reports() == old(self).reports(),
    {
        self.device_open = false;
    }

    /// Ends the pass after the device was closed: all accepted responses
    /// if there is at least one, `AllNodesFailed` otherwise.
    pub fn finish(self) -> (r: Result<Vec<ReportRsp>, Error>)
        requires
            self.model().closed,
        ensures
            r is Ok <==> self.model().pages.len() > 0,
            r matches Ok(v) ==> v@ == self.reports(),
            r matches Err(e) ==> e == Error::AllNodesFailed,
    {
        if self.results.len() == 0 {
            Err(Error::AllNodesFailed)
        } else {
            Ok(self.results)
        }
    }
}

/// A session never loses a node: after any run, accepted pages and skipped
/// nodes together account for every event seen.
pub proof fn lemma_run_accounts_all_nodes(m: SessionModel, evs: Seq<EventModel>)
    ensures
        run_model(m, evs).pages.len() + run_model(m, evs).skipped == m.pages.len() + m.skipped
            + evs.len(),
        run_model(m, evs).closed == m.closed,
    decreases evs.len(),
{
    if evs.len() > 0 {
        lemma_run_accounts_all_nodes(step_model(m, evs.first()), evs.drop_first());
    }
}

/// A run never discards an accepted page.
pub proof fn lemma_run_keeps_pages(m: SessionModel, evs: Seq<EventModel>)
    ensures
        run_model(m, evs).pages.len() >= m.pages.len(),
    decreases evs.len(),
{
    if evs.len() > 0 {
        lemma_run_keeps_pages(step_model(m, evs.first()), evs.drop_first());
    }
}

/// Per-node failure isolation: however many of the other nodes fail, a
/// session that sees one exactly page-sized response ends with at least
/// one report, so a single unreachable node can never abort the request.
pub proof fn lemma_one_success_suffices(m: SessionModel, evs: Seq<EventModel>, i: int)
    requires
        0 <= i < evs.len(),
        evs[i] matches EventModel::Page(b) && b.len() == PAGE_SIZE,
    ensures
        run_model(m, evs).pages.len() > 0,
    decreases evs.len(),
{
    let m1 = step_model(m, evs.first());
    if i == 0 {
        lemma_run_keeps_pages(m1, evs.drop_first());
    } else {
        lemma_one_success_suffices(m1, evs.drop_first(), i - 1);
    }
}

} // verus!

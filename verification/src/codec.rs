//! Message codec: encodes and decodes the five RPC message kinds to and
//! from a self-delimiting framed byte form.
//!
//! A frame is a 4-byte little-endian body length followed by the body.
//! The body is a tag byte followed by the fields of the message kind.
//! Integers are 4-byte little-endian; byte strings and lists carry a
//! 4-byte element count before their elements.
//!
//! `decode` never consumes input: it reports how many bytes a complete
//! frame used, `NeedMoreData` when the buffer holds no complete frame,
//! and `Malformed` when the complete frame at the front does not parse
//! back to a message.  The specification-level `spec_decode` pins the
//! outcome for every input, and `lemma_decode_encode` proves the
//! round trip.

use vstd::bytes::*;
use vstd::prelude::*;
use vstd::slice::{slice_index_get, slice_subrange, slice_to_vec};

verus! {

// ---------------------------------------------------------------------
// Wire data model (executable) and its mathematical view.
// ---------------------------------------------------------------------

/// A capability reference carried inside a payload.
#[derive(PartialEq, Eq, Debug)]
pub enum CapDesc {
    /// A capability hosted by the sender of the message: the peer's
    /// export id, which becomes (or already is) an import id here.
    SenderHosted { id: u32 },
    /// A capability hosted by the receiver: one of our own export ids
    /// handed back to us.
    ReceiverHosted { id: u32 },
    /// A capability found at `path` inside the not-yet-returned answer
    /// of an earlier call.
    PromisedAnswer { answer_id: u32, path: Vec<u32> },
}

/// The target of a `Call` message.
#[derive(PartialEq, Eq, Debug)]
pub enum Target {
    /// One of the receiver's exported capabilities.
    Export { id: u32 },
    /// A capability at `path` inside a pending answer of the receiver.
    PromisedAnswer { answer_id: u32, path: Vec<u32> },
}

/// An opaque parameter or result value plus the capabilities embedded
/// in it.
#[derive(PartialEq, Eq, Debug)]
pub struct Payload {
    pub data: Vec<u8>,
    pub caps: Vec<CapDesc>,
}

/// The result carried by a `Return`: either a payload or an error.
#[derive(PartialEq, Eq, Debug)]
pub enum Outcome {
    Results { payload: Payload },
    Failure { reason: Vec<u8> },
}

/// One discrete RPC message.
#[derive(PartialEq, Eq, Debug)]
pub enum Message {
    Call { call_id: u32, target: Target, method_id: u32, params: Payload },
    Return { call_id: u32, outcome: Outcome },
    Release { export_id: u32, delta: u32 },
    Bootstrap { call_id: u32 },
    Abort { reason: Vec<u8> },
}

/// Mathematical view of `CapDesc`.
pub enum CapDescV {
    SenderHosted { id: u32 },
    ReceiverHosted { id: u32 },
    PromisedAnswer { answer_id: u32, path: Seq<u32> },
}

/// Mathematical view of `Target`.
pub enum TargetV {
    Export { id: u32 },
    PromisedAnswer { answer_id: u32, path: Seq<u32> },
}

/// Mathematical view of `Payload`.
pub struct PayloadV {
    pub data: Seq<u8>,
    pub caps: Seq<CapDescV>,
}

/// Mathematical view of `Outcome`.
pub enum OutcomeV {
    Results { payload: PayloadV },
    Failure { reason: Seq<u8> },
}

/// Mathematical view of `Message`.
pub enum MessageV {
    Call { call_id: u32, target: TargetV, method_id: u32, params: PayloadV },
    Return { call_id: u32, outcome: OutcomeV },
    Release { export_id: u32, delta: u32 },
    Bootstrap { call_id: u32 },
    Abort { reason: Seq<u8> },
}

impl DeepView for CapDesc {
    type V = CapDescV;

    open spec fn deep_view(&self) -> CapDescV {
        match self {
            CapDesc::SenderHosted { id } => CapDescV::SenderHosted { id: *id },
            CapDesc::ReceiverHosted { id } => CapDescV::ReceiverHosted { id: *id },
            CapDesc::PromisedAnswer { answer_id, path } => CapDescV::PromisedAnswer {
                answer_id: *answer_id,
                path: path@,
            },
        }
    }
}

/// Elementwise view of a capability list.
pub open spec fn dv_caps(s: Seq<CapDesc>) -> Seq<CapDescV> {
    Seq::new(s.len(), |i: int| s[i].deep_view())
}

impl DeepView for Target {
    type V = TargetV;

    open spec fn deep_view(&self) -> TargetV {
        match self {
            Target::Export { id } => TargetV::Export { id: *id },
            Target::PromisedAnswer { answer_id, path } => TargetV::PromisedAnswer {
                answer_id: *answer_id,
                path: path@,
            },
        }
    }
}

impl DeepView for Payload {
    type V = PayloadV;

    open spec fn deep_view(&self) -> PayloadV {
        PayloadV { data: self.data@, caps: dv_caps(self.caps@) }
    }
}

impl DeepView for Outcome {
    type V = OutcomeV;

    open spec fn deep_view(&self) -> OutcomeV {
        match self {
            Outcome::Results { payload } => OutcomeV::Results { payload: payload.deep_view() },
            Outcome::Failure { reason } => OutcomeV::Failure { reason: reason@ },
        }
    }
}

impl DeepView for Message {
    type V = MessageV;

    open spec fn deep_view(&self) -> MessageV {
        match self {
            Message::Call { call_id, target, method_id, params } => MessageV::Call {
                call_id: *call_id,
                target: target.deep_view(),
                method_id: *method_id,
                params: params.deep_view(),
            },
            Message::Return { call_id, outcome } => MessageV::Return {
                call_id: *call_id,
                outcome: outcome.deep_view(),
            },
            Message::Release { export_id, delta } => MessageV::Release {
                export_id: *export_id,
                delta: *delta,
            },
            Message::Bootstrap { call_id } => MessageV::Bootstrap { call_id: *call_id },
            Message::Abort { reason } => MessageV::Abort { reason: reason@ },
        }
    }
}

// ---------------------------------------------------------------------
// Tags and well-formedness.
// ---------------------------------------------------------------------

pub const TAG_CALL: u8 = 0;

pub const TAG_RETURN: u8 = 1;

pub const TAG_RELEASE: u8 = 2;

pub const TAG_BOOTSTRAP: u8 = 3;

pub const TAG_ABORT: u8 = 4;

pub const TAG_CAP_SENDER: u8 = 0;

pub const TAG_CAP_RECEIVER: u8 = 1;

pub const TAG_CAP_PROMISED: u8 = 2;

pub const TAG_TARGET_EXPORT: u8 = 0;

pub const TAG_TARGET_PROMISED: u8 = 1;

pub const TAG_OUTCOME_RESULTS: u8 = 0;

pub const TAG_OUTCOME_FAILURE: u8 = 1;

/// Every length carried on the wire must fit its 4-byte count field.
pub open spec fn fits_u32(n: int) -> bool {
    n <= u32::MAX
}

pub open spec fn wf_cap(c: CapDescV) -> bool {
    match c {
        CapDescV::PromisedAnswer { path, .. } => fits_u32(path.len() as int),
        _ => true,
    }
}

pub open spec fn wf_target(t: TargetV) -> bool {
    match t {
        TargetV::PromisedAnswer { path, .. } => fits_u32(path.len() as int),
        _ => true,
    }
}

pub open spec fn wf_payload(p: PayloadV) -> bool {
    &&& fits_u32(p.data.len() as int)
    &&& fits_u32(p.caps.len() as int)
    &&& forall|i: int| 0 <= i < p.caps.len() ==> wf_cap(#[trigger] p.caps[i])
}

pub open spec fn wf_outcome(o: OutcomeV) -> bool {
    match o {
        OutcomeV::Results { payload } => wf_payload(payload),
        OutcomeV::Failure { reason } => fits_u32(reason.len() as int),
    }
}

/// A message that can be framed: its fields fit their count fields and
/// its whole body fits the 4-byte frame-length field.
pub open spec fn wf_msg(m: MessageV) -> bool {
    &&& match m {
        MessageV::Call { target, params, .. } => wf_target(target) && wf_payload(params),
        MessageV::Return { outcome, .. } => wf_outcome(outcome),
        MessageV::Release { .. } => true,
        MessageV::Bootstrap { .. } => true,
        MessageV::Abort { reason } => fits_u32(reason.len() as int),
    }
    &&& fits_u32(se_body(m).len() as int)
}

// ---------------------------------------------------------------------
// Specification-level encoders.
// ---------------------------------------------------------------------

pub open spec fn se_u32(x: u32) -> Seq<u8> {
    spec_u32_to_le_bytes(x)
}

pub open spec fn se_bytes(d: Seq<u8>) -> Seq<u8> {
    se_u32(d.len() as u32) + d
}

pub open spec fn se_u32s(xs: Seq<u32>) -> Seq<u8>
    decreases xs.len(),
{
    if xs.len() == 0 {
        Seq::empty()
    } else {
        se_u32(xs[0]) + se_u32s(xs.drop_first())
    }
}

pub open spec fn se_u32_list(xs: Seq<u32>) -> Seq<u8> {
    se_u32(xs.len() as u32) + se_u32s(xs)
}

pub open spec fn se_cap(c: CapDescV) -> Seq<u8> {
    match c {
        CapDescV::SenderHosted { id } => seq![TAG_CAP_SENDER] + se_u32(id),
        CapDescV::ReceiverHosted { id } => seq![TAG_CAP_RECEIVER] + se_u32(id),
        CapDescV::PromisedAnswer { answer_id, path } => seq![TAG_CAP_PROMISED] + se_u32(answer_id)
            + se_u32_list(path),
    }
}

pub open spec fn se_caps(cs: Seq<CapDescV>) -> Seq<u8>
    decreases cs.len(),
{
    if cs.len() == 0 {
        Seq::empty()
    } else {
        se_cap(cs[0]) + se_caps(cs.drop_first())
    }
}

pub open spec fn se_cap_list(cs: Seq<CapDescV>) -> Seq<u8> {
    se_u32(cs.len() as u32) + se_caps(cs)
}

pub open spec fn se_target(t: TargetV) -> Seq<u8> {
    match t {
        TargetV::Export { id } => seq![TAG_TARGET_EXPORT] + se_u32(id),
        TargetV::PromisedAnswer { answer_id, path } => seq![TAG_TARGET_PROMISED] + se_u32(answer_id)
            + se_u32_list(path),
    }
}

pub open spec fn se_payload(p: PayloadV) -> Seq<u8> {
    se_bytes(p.data) + se_cap_list(p.caps)
}

pub open spec fn se_outcome(o: OutcomeV) -> Seq<u8> {
    match o {
        OutcomeV::Results { payload } => seq![TAG_OUTCOME_RESULTS] + se_payload(payload),
        OutcomeV::Failure { reason } => seq![TAG_OUTCOME_FAILURE] + se_bytes(reason),
    }
}

pub open spec fn se_body(m: MessageV) -> Seq<u8> {
    match m {
        MessageV::Call { call_id, target, method_id, params } => seq![TAG_CALL] + se_u32(call_id)
            + se_target(target) + se_u32(method_id) + se_payload(params),
        MessageV::Return { call_id, outcome } => seq![TAG_RETURN] + se_u32(call_id) + se_outcome(
            outcome,
        ),
        MessageV::Release { export_id, delta } => seq![TAG_RELEASE] + se_u32(export_id) + se_u32(
            delta,
        ),
        MessageV::Bootstrap { call_id } => seq![TAG_BOOTSTRAP] + se_u32(call_id),
        MessageV::Abort { reason } => seq![TAG_ABORT] + se_bytes(reason),
    }
}

/// The full frame for a message: length prefix, then body.
pub open spec fn spec_encode(m: MessageV) -> Seq<u8> {
    se_u32(se_body(m).len() as u32) + se_body(m)
}

// ---------------------------------------------------------------------
// Specification-level parsers.  Each returns the parsed value and the
// offset just past it, or `None` when the input cannot be read that way.
// ---------------------------------------------------------------------

pub open spec fn sp_byte(s: Seq<u8>, i: int) -> Option<(u8, int)> {
    if 0 <= i && i + 1 <= s.len() {
        Some((s[i], i + 1))
    } else {
        None
    }
}

pub open spec fn sp_u32(s: Seq<u8>, i: int) -> Option<(u32, int)> {
    if 0 <= i && i + 4 <= s.len() {
        Some((spec_u32_from_le_bytes(s.subrange(i, i + 4)), i + 4))
    } else {
        None
    }
}

pub open spec fn sp_bytes(s: Seq<u8>, i: int) -> Option<(Seq<u8>, int)> {
    match sp_u32(s, i) {
        None => None,
        Some((n, j)) => if j + n <= s.len() {
            Some((s.subrange(j, j + n), j + n))
        } else {
            None
        },
    }
}

pub open spec fn sp_u32s(s: Seq<u8>, i: int, n: nat) -> Option<(Seq<u32>, int)>
    decreases n,
{
    if n == 0 {
        Some((Seq::empty(), i))
    } else {
        match sp_u32(s, i) {
            None => None,
            Some((x, j)) => match sp_u32s(s, j, (n - 1) as nat) {
                None => None,
                Some((xs, k)) => Some((seq![x] + xs, k)),
            },
        }
    }
}

pub open spec fn sp_u32_list(s: Seq<u8>, i: int) -> Option<(Seq<u32>, int)> {
    match sp_u32(s, i) {
        None => None,
        Some((n, j)) => sp_u32s(s, j, n as nat),
    }
}

pub open spec fn sp_cap(s: Seq<u8>, i: int) -> Option<(CapDescV, int)> {
    match sp_byte(s, i) {
        None => None,
        Some((tag, j)) => if tag == TAG_CAP_SENDER {
            match sp_u32(s, j) {
                None => None,
                Some((id, k)) => Some((CapDescV::SenderHosted { id }, k)),
            }
        } else if tag == TAG_CAP_RECEIVER {
            match sp_u32(s, j) {
                None => None,
                Some((id, k)) => Some((CapDescV::ReceiverHosted { id }, k)),
            }
        } else if tag == TAG_CAP_PROMISED {
            match sp_u32(s, j) {
                None => None,
                Some((answer_id, k)) => match sp_u32_list(s, k) {
                    None => None,
                    Some((path, l)) => Some((CapDescV::PromisedAnswer { answer_id, path }, l)),
                },
            }
        } else {
            None
        },
    }
}

pub open spec fn sp_caps(s: Seq<u8>, i: int, n: nat) -> Option<(Seq<CapDescV>, int)>
    decreases n,
{
    if n == 0 {
        Some((Seq::empty(), i))
    } else {
        match sp_cap(s, i) {
            None => None,
            Some((c, j)) => match sp_caps(s, j, (n - 1) as nat) {
                None => None,
                Some((cs, k)) => Some((seq![c] + cs, k)),
            },
        }
    }
}

pub open spec fn sp_cap_list(s: Seq<u8>, i: int) -> Option<(Seq<CapDescV>, int)> {
    match sp_u32(s, i) {
        None => None,
        Some((n, j)) => sp_caps(s, j, n as nat),
    }
}

pub open spec fn sp_target(s: Seq<u8>, i: int) -> Option<(TargetV, int)> {
    match sp_byte(s, i) {
        None => None,
        Some((tag, j)) => if tag == TAG_TARGET_EXPORT {
            match sp_u32(s, j) {
                None => None,
                Some((id, k)) => Some((TargetV::Export { id }, k)),
            }
        } else if tag == TAG_TARGET_PROMISED {
            match sp_u32(s, j) {
                None => None,
                Some((answer_id, k)) => match sp_u32_list(s, k) {
                    None => None,
                    Some((path, l)) => Some((TargetV::PromisedAnswer { answer_id, path }, l)),
                },
            }
        } else {
            None
        },
    }
}

pub open spec fn sp_payload(s: Seq<u8>, i: int) -> Option<(PayloadV, int)> {
    match sp_bytes(s, i) {
        None => None,
        Some((data, j)) => match sp_cap_list(s, j) {
            None => None,
            Some((caps, k)) => Some((PayloadV { data, caps }, k)),
        },
    }
}

pub open spec fn sp_outcome(s: Seq<u8>, i: int) -> Option<(OutcomeV, int)> {
    match sp_byte(s, i) {
        None => None,
        Some((tag, j)) => if tag == TAG_OUTCOME_RESULTS {
            match sp_payload(s, j) {
                None => None,
                Some((payload, k)) => Some((OutcomeV::Results { payload }, k)),
            }
        } else if tag == TAG_OUTCOME_FAILURE {
            match sp_bytes(s, j) {
                None => None,
                Some((reason, k)) => Some((OutcomeV::Failure { reason }, k)),
            }
        } else {
            None
        },
    }
}

pub open spec fn sp_message(s: Seq<u8>, i: int) -> Option<(MessageV, int)> {
    match sp_byte(s, i) {
        None => None,
        Some((tag, j)) => if tag == TAG_CALL {
            match sp_u32(s, j) {
                None => None,
                Some((call_id, k)) => match sp_target(s, k) {
                    None => None,
                    Some((target, l)) => match sp_u32(s, l) {
                        None => None,
                        Some((method_id, p)) => match sp_payload(s, p) {
                            None => None,
                            Some((params, q)) => Some(
                                (MessageV::Call { call_id, target, method_id, params }, q),
                            ),
                        },
                    },
                },
            }
        } else if tag == TAG_RETURN {
            match sp_u32(s, j) {
                None => None,
                Some((call_id, k)) => match sp_outcome(s, k) {
                    None => None,
                    Some((outcome, l)) => Some((MessageV::Return { call_id, outcome }, l)),
                },
            }
        } else if tag == TAG_RELEASE {
            match sp_u32(s, j) {
                None => None,
                Some((export_id, k)) => match sp_u32(s, k) {
                    None => None,
                    Some((delta, l)) => Some((MessageV::Release { export_id, delta }, l)),
                },
            }
        } else if tag == TAG_BOOTSTRAP {
            match sp_u32(s, j) {
                None => None,
                Some((call_id, k)) => Some((MessageV::Bootstrap { call_id }, k)),
            }
        } else if tag == TAG_ABORT {
            match sp_bytes(s, j) {
                None => None,
                Some((reason, k)) => Some((MessageV::Abort { reason }, k)),
            }
        } else {
            None
        },
    }
}

/// The outcome of decoding a byte buffer, at the specification level.
pub enum SpOutcome {
    Decoded { m: MessageV, used: int },
    NeedMoreData,
    Malformed,
}

/// What decoding must yield on any input: `NeedMoreData` until a whole
/// frame is buffered, then the parse of exactly that frame's body.
pub open spec fn spec_decode(s: Seq<u8>) -> SpOutcome {
    if s.len() < 4 {
        SpOutcome::NeedMoreData
    } else {
        let n = spec_u32_from_le_bytes(s.subrange(0, 4)) as int;
        if s.len() < 4 + n {
            SpOutcome::NeedMoreData
        } else {
            match sp_message(s.subrange(4, 4 + n), 0) {
                Some((m, j)) => if j == n {
                    SpOutcome::Decoded { m, used: 4 + n }
                } else {
                    SpOutcome::Malformed
                },
                None => SpOutcome::Malformed,
            }
        }
    }
}

// ---------------------------------------------------------------------
// Round trip: parsing inverts encoding.
// ---------------------------------------------------------------------

/// `part` occupies `s` from offset `i` on.
pub open spec fn bytes_at(s: Seq<u8>, i: int, part: Seq<u8>) -> bool {
    &&& 0 <= i
    &&& i + part.len() <= s.len()
    &&& s.subrange(i, i + part.len() as int) == part
}

pub proof fn lemma_at_concat(s: Seq<u8>, i: int, a: Seq<u8>, b: Seq<u8>)
    requires
        bytes_at(s, i, a + b),
    ensures
        bytes_at(s, i, a),
        bytes_at(s, i + a.len(), b),
{
    let ab = a + b;
    assert forall|k: int| 0 <= k < a.len() implies s.subrange(i, i + a.len() as int)[k] == a[k] by {
        assert(s.subrange(i, i + ab.len() as int)[k] == s[i + k]);
        assert(s.subrange(i, i + a.len() as int)[k] == s[i + k]);
        assert(ab[k] == a[k]);
    }
    assert(s.subrange(i, i + a.len() as int) =~= a);
    let j = i + a.len();
    assert forall|k: int| 0 <= k < b.len() implies s.subrange(j, j + b.len() as int)[k] == b[k] by {
        assert(s.subrange(i, i + ab.len() as int)[a.len() + k] == s[j + k]);
        assert(s.subrange(j, j + b.len() as int)[k] == s[j + k]);
        assert(ab[a.len() + k] == b[k]);
    }
    assert(s.subrange(j, j + b.len() as int) =~= b);
}

pub proof fn lemma_at_self_concat(a: Seq<u8>, b: Seq<u8>)
    ensures
        bytes_at(a + b, 0, a),
        bytes_at(a + b, a.len() as int, b),
{
    assert((a + b).subrange(0, (a + b).len() as int) =~= a + b);
    lemma_at_concat(a + b, 0, a, b);
}

pub proof fn lemma_inv_u32(s: Seq<u8>, i: int, x: u32)
    requires
        bytes_at(s, i, se_u32(x)),
    ensures
        sp_u32(s, i) == Some((x, i + 4)),
{
    lemma_auto_spec_u32_to_from_le_bytes();
}

pub proof fn lemma_inv_byte(s: Seq<u8>, i: int, t: u8)
    requires
        bytes_at(s, i, seq![t]),
    ensures
        sp_byte(s, i) == Some((t, i + 1)),
{
    assert(s.subrange(i, i + 1)[0] == s[i]);
}

pub proof fn lemma_inv_bytes(s: Seq<u8>, i: int, d: Seq<u8>)
    requires
        bytes_at(s, i, se_bytes(d)),
        fits_u32(d.len() as int),
    ensures
        sp_bytes(s, i) == Some((d, i + se_bytes(d).len())),
{
    lemma_auto_spec_u32_to_from_le_bytes();
    let n = d.len() as u32;
    lemma_at_concat(s, i, se_u32(n), d);
    lemma_inv_u32(s, i, n);
    assert(s.subrange(i + 4, i + 4 + d.len() as int) == d);
}

pub proof fn lemma_inv_u32s(s: Seq<u8>, i: int, xs: Seq<u32>)
    requires
        bytes_at(s, i, se_u32s(xs)),
    ensures
        sp_u32s(s, i, xs.len()) == Some((xs, i + se_u32s(xs).len())),
    decreases xs.len(),
{
    lemma_auto_spec_u32_to_from_le_bytes();
    if xs.len() == 0 {
        assert(xs =~= Seq::<u32>::empty());
    } else {
        let rest = xs.drop_first();
        lemma_at_concat(s, i, se_u32(xs[0]), se_u32s(rest));
        lemma_inv_u32(s, i, xs[0]);
        lemma_inv_u32s(s, i + 4, rest);
        assert(seq![xs[0]] + rest =~= xs);
    }
}

pub proof fn lemma_inv_u32_list(s: Seq<u8>, i: int, xs: Seq<u32>)
    requires
        bytes_at(s, i, se_u32_list(xs)),
        fits_u32(xs.len() as int),
    ensures
        sp_u32_list(s, i) == Some((xs, i + se_u32_list(xs).len())),
{
    lemma_auto_spec_u32_to_from_le_bytes();
    let n = xs.len() as u32;
    lemma_at_concat(s, i, se_u32(n), se_u32s(xs));
    lemma_inv_u32(s, i, n);
    lemma_inv_u32s(s, i + 4, xs);
}

pub proof fn lemma_inv_cap(s: Seq<u8>, i: int, c: CapDescV)
    requires
        bytes_at(s, i, se_cap(c)),
        wf_cap(c),
    ensures
        sp_cap(s, i) == Some((c, i + se_cap(c).len())),
{
    lemma_auto_spec_u32_to_from_le_bytes();
    match c {
        CapDescV::SenderHosted { id } => {
            lemma_at_concat(s, i, seq![TAG_CAP_SENDER], se_u32(id));
            lemma_inv_byte(s, i, TAG_CAP_SENDER);
            lemma_inv_u32(s, i + 1, id);
        },
        CapDescV::ReceiverHosted { id } => {
            lemma_at_concat(s, i, seq![TAG_CAP_RECEIVER], se_u32(id));
            lemma_inv_byte(s, i, TAG_CAP_RECEIVER);
            lemma_inv_u32(s, i + 1, id);
        },
        CapDescV::PromisedAnswer { answer_id, path } => {
            lemma_at_concat(s, i, seq![TAG_CAP_PROMISED] + se_u32(answer_id), se_u32_list(path));
            lemma_at_concat(s, i, seq![TAG_CAP_PROMISED], se_u32(answer_id));
            lemma_inv_byte(s, i, TAG_CAP_PROMISED);
            lemma_inv_u32(s, i + 1, answer_id);
            lemma_inv_u32_list(s, i + 5, path);
        },
    }
}

pub proof fn lemma_inv_caps(s: Seq<u8>, i: int, cs: Seq<CapDescV>)
    requires
        bytes_at(s, i, se_caps(cs)),
        forall|k: int| 0 <= k < cs.len() ==> wf_cap(#[trigger] cs[k]),
    ensures
        sp_caps(s, i, cs.len()) == Some((cs, i + se_caps(cs).len())),
    decreases cs.len(),
{
    if cs.len() == 0 {
        assert(cs =~= Seq::<CapDescV>::empty());
    } else {
        let rest = cs.drop_first();
        lemma_at_concat(s, i, se_cap(cs[0]), se_caps(rest));
        lemma_inv_cap(s, i, cs[0]);
        assert(forall|k: int| 0 <= k < rest.len() ==> wf_cap(#[trigger] rest[k]));
        lemma_inv_caps(s, i + se_cap(cs[0]).len(), rest);
        assert(seq![cs[0]] + rest =~= cs);
    }
}

pub proof fn lemma_inv_cap_list(s: Seq<u8>, i: int, cs: Seq<CapDescV>)
    requires
        bytes_at(s, i, se_cap_list(cs)),
        fits_u32(cs.len() as int),
        forall|k: int| 0 <= k < cs.len() ==> wf_cap(#[trigger] cs[k]),
    ensures
        sp_cap_list(s, i) == Some((cs, i + se_cap_list(cs).len())),
{
    lemma_auto_spec_u32_to_from_le_bytes();
    let n = cs.len() as u32;
    lemma_at_concat(s, i, se_u32(n), se_caps(cs));
    lemma_inv_u32(s, i, n);
    lemma_inv_caps(s, i + 4, cs);
}

pub proof fn lemma_inv_target(s: Seq<u8>, i: int, t: TargetV)
    requires
        bytes_at(s, i, se_target(t)),
        wf_target(t),
    ensures
        sp_target(s, i) == Some((t, i + se_target(t).len())),
{
    lemma_auto_spec_u32_to_from_le_bytes();
    match t {
        TargetV::Export { id } => {
            lemma_at_concat(s, i, seq![TAG_TARGET_EXPORT], se_u32(id));
            lemma_inv_byte(s, i, TAG_TARGET_EXPORT);
            lemma_inv_u32(s, i + 1, id);
        },
        TargetV::PromisedAnswer { answer_id, path } => {
            lemma_at_concat(s, i, seq![TAG_TARGET_PROMISED] + se_u32(answer_id), se_u32_list(path));
            lemma_at_concat(s, i, seq![TAG_TARGET_PROMISED], se_u32(answer_id));
            lemma_inv_byte(s, i, TAG_TARGET_PROMISED);
            lemma_inv_u32(s, i + 1, answer_id);
            lemma_inv_u32_list(s, i + 5, path);
        },
    }
}

pub proof fn lemma_inv_payload(s: Seq<u8>, i: int, p: PayloadV)
    requires
        bytes_at(s, i, se_payload(p)),
        wf_payload(p),
    ensures
        sp_payload(s, i) == Some((p, i + se_payload(p).len())),
{
    lemma_at_concat(s, i, se_bytes(p.data), se_cap_list(p.caps));
    lemma_inv_bytes(s, i, p.data);
    lemma_inv_cap_list(s, i + se_bytes(p.data).len(), p.caps);
}

pub proof fn lemma_inv_outcome(s: Seq<u8>, i: int, o: OutcomeV)
    requires
        bytes_at(s, i, se_outcome(o)),
        wf_outcome(o),
    ensures
        sp_outcome(s, i) == Some((o, i + se_outcome(o).len())),
{
    match o {
        OutcomeV::Results { payload } => {
            lemma_at_concat(s, i, seq![TAG_OUTCOME_RESULTS], se_payload(payload));
            lemma_inv_byte(s, i, TAG_OUTCOME_RESULTS);
            lemma_inv_payload(s, i + 1, payload);
        },
        OutcomeV::Failure { reason } => {
            lemma_at_concat(s, i, seq![TAG_OUTCOME_FAILURE], se_bytes(reason));
            lemma_inv_byte(s, i, TAG_OUTCOME_FAILURE);
            lemma_inv_bytes(s, i + 1, reason);
        },
    }
}

pub proof fn lemma_inv_message(s: Seq<u8>, i: int, m: MessageV)
    requires
        bytes_at(s, i, se_body(m)),
        wf_msg(m),
    ensures
        sp_message(s, i) == Some((m, i + se_body(m).len())),
{
    lemma_auto_spec_u32_to_from_le_bytes();
    match m {
        MessageV::Call { call_id, target, method_id, params } => {
            let a = seq![TAG_CALL] + se_u32(call_id) + se_target(target) + se_u32(method_id);
            lemma_at_concat(s, i, a, se_payload(params));
            lemma_at_concat(s, i, seq![TAG_CALL] + se_u32(call_id) + se_target(target), se_u32(
                method_id,
            ));
            lemma_at_concat(s, i, seq![TAG_CALL] + se_u32(call_id), se_target(target));
            lemma_at_concat(s, i, seq![TAG_CALL], se_u32(call_id));
            lemma_inv_byte(s, i, TAG_CALL);
            lemma_inv_u32(s, i + 1, call_id);
            lemma_inv_target(s, i + 5, target);
            lemma_inv_u32(s, i + 5 + se_target(target).len(), method_id);
            lemma_inv_payload(s, i + 9 + se_target(target).len(), params);
        },
        MessageV::Return { call_id, outcome } => {
            lemma_at_concat(s, i, seq![TAG_RETURN] + se_u32(call_id), se_outcome(outcome));
            lemma_at_concat(s, i, seq![TAG_RETURN], se_u32(call_id));
            lemma_inv_byte(s, i, TAG_RETURN);
            lemma_inv_u32(s, i + 1, call_id);
            lemma_inv_outcome(s, i + 5, outcome);
        },
        MessageV::Release { export_id, delta } => {
            lemma_at_concat(s, i, seq![TAG_RELEASE] + se_u32(export_id), se_u32(delta));
            lemma_at_concat(s, i, seq![TAG_RELEASE], se_u32(export_id));
            lemma_inv_byte(s, i, TAG_RELEASE);
            lemma_inv_u32(s, i + 1, export_id);
            lemma_inv_u32(s, i + 5, delta);
        },
        MessageV::Bootstrap { call_id } => {
            lemma_at_concat(s, i, seq![TAG_BOOTSTRAP], se_u32(call_id));
            lemma_inv_byte(s, i, TAG_BOOTSTRAP);
            lemma_inv_u32(s, i + 1, call_id);
        },
        MessageV::Abort { reason } => {
            lemma_at_concat(s, i, seq![TAG_ABORT], se_bytes(reason));
            lemma_inv_byte(s, i, TAG_ABORT);
            lemma_inv_bytes(s, i + 1, reason);
        },
    }
}

/// Law: a decoder fed the encoding of a well-formed message, possibly
/// followed by further buffered bytes, yields exactly that message and
/// consumes exactly its frame.
pub proof fn lemma_decode_encode_prefix(m: MessageV, extra: Seq<u8>)
    requires
        wf_msg(m),
    ensures
        spec_decode(spec_encode(m) + extra) == (SpOutcome::Decoded {
            m,
            used: spec_encode(m).len() as int,
        }),
{
    lemma_auto_spec_u32_to_from_le_bytes();
    let body = se_body(m);
    let n = body.len() as u32;
    let s = spec_encode(m) + extra;
    lemma_at_self_concat(spec_encode(m), extra);
    lemma_at_concat(s, 0, se_u32(n), body);
    assert(s.subrange(0, 4) == se_u32(n));
    assert(s.len() >= 4 + n);
    let inner = s.subrange(4, 4 + n as int);
    assert(inner == body);
    assert(inner.subrange(0, inner.len() as int) =~= inner);
    lemma_inv_message(inner, 0, m);
}

/// Law (round trip): decoding the encoding of any well-formed message
/// gives back the same message, consuming the whole buffer.
pub proof fn lemma_decode_encode(m: MessageV)
    requires
        wf_msg(m),
    ensures
        spec_decode(spec_encode(m)) == (SpOutcome::Decoded {
            m,
            used: spec_encode(m).len() as int,
        }),
{
    lemma_decode_encode_prefix(m, Seq::empty());
    assert(spec_encode(m) + Seq::<u8>::empty() =~= spec_encode(m));
}

// ---------------------------------------------------------------------
// Cloning, pinned to the view (a derived clone would say nothing).
// ---------------------------------------------------------------------

/// Copy a vector of plain values.
pub fn clone_plain<T: Copy>(v: &Vec<T>) -> (r: Vec<T>)
    ensures
        r@ == v@,
{
    let mut r: Vec<T> = Vec::new();
    let mut i: usize = 0;
    while i < v.len()
        invariant
            i <= v@.len(),
            r@ == v@.take(i as int),
        decreases v@.len() - i,
    {
        r.push(v[i]);
        proof {
            assert(v@.take(i as int).push(v@[i as int]) =~= v@.take(i + 1));
        }
        i = i + 1;
    }
    proof {
        assert(v@.take(v@.len() as int) =~= v@);
    }
    r
}

pub fn clone_cap(c: &CapDesc) -> (r: CapDesc)
    ensures
        r.deep_view() == c.deep_view(),
{
    match c {
        CapDesc::SenderHosted { id } => CapDesc::SenderHosted { id: *id },
        CapDesc::ReceiverHosted { id } => CapDesc::ReceiverHosted { id: *id },
        CapDesc::PromisedAnswer { answer_id, path } => CapDesc::PromisedAnswer {
            answer_id: *answer_id,
            path: clone_plain(path),
        },
    }
}

pub fn clone_payload(p: &Payload) -> (r: Payload)
    ensures
        r.deep_view() == p.deep_view(),
{
    let mut caps: Vec<CapDesc> = Vec::new();
    let mut i: usize = 0;
    while i < p.caps.len()
        invariant
            i <= p.caps@.len(),
            dv_caps(caps@) == dv_caps(p.caps@).take(i as int),
        decreases p.caps@.len() - i,
    {
        let c = clone_cap(&p.caps[i]);
        let ghost prev = caps@;
        caps.push(c);
        proof {
            assert(dv_caps(prev.push(c)) =~= dv_caps(prev).push(c.deep_view()));
            assert(dv_caps(p.caps@).take(i as int).push(dv_caps(p.caps@)[i as int]) =~= dv_caps(
                p.caps@,
            ).take(i + 1));
            assert(dv_caps(p.caps@)[i as int] == p.caps@[i as int].deep_view());
        }
        i = i + 1;
    }
    proof {
        assert(dv_caps(p.caps@).take(p.caps@.len() as int) =~= dv_caps(p.caps@));
    }
    Payload { data: clone_plain(&p.data), caps }
}

pub fn clone_outcome(o: &Outcome) -> (r: Outcome)
    ensures
        r.deep_view() == o.deep_view(),
{
    match o {
        Outcome::Results { payload } => Outcome::Results { payload: clone_payload(payload) },
        Outcome::Failure { reason } => Outcome::Failure { reason: clone_plain(reason) },
    }
}

// ---------------------------------------------------------------------
// Executable encoder.
// ---------------------------------------------------------------------

fn e_u32(out: &mut Vec<u8>, x: u32)
    ensures
        final(out)@ == old(out)@ + se_u32(x),
{
    let mut b = u32_to_le_bytes(x);
    out.append(&mut b);
}

fn e_byte(out: &mut Vec<u8>, t: u8)
    ensures
        final(out)@ == old(out)@ + seq![t],
{
    out.push(t);
    assert(out@ =~= old(out)@ + seq![t]);
}

fn e_bytes(out: &mut Vec<u8>, d: &Vec<u8>)
    requires
        fits_u32(d@.len() as int),
    ensures
        final(out)@ == old(out)@ + se_bytes(d@),
{
    e_u32(out, d.len() as u32);
    out.extend_from_slice(d.as_slice());
    assert(out@ =~= old(out)@ + se_bytes(d@));
}

fn e_u32s(out: &mut Vec<u8>, xs: &Vec<u32>, k: usize)
    requires
        k <= xs@.len(),
    ensures
        final(out)@ == old(out)@ + se_u32s(xs@.skip(k as int)),
    decreases xs@.len() - k,
{
    if k < xs.len() {
        e_u32(out, xs[k]);
        e_u32s(out, xs, k + 1);
        proof {
            let tail = xs@.skip(k as int);
            assert(tail[0] == xs@[k as int]);
            assert(tail.drop_first() =~= xs@.skip(k + 1));
            assert(out@ =~= old(out)@ + se_u32s(tail));
        }
    } else {
        assert(xs@.skip(k as int) =~= Seq::<u32>::empty());
    }
}

fn e_u32_list(out: &mut Vec<u8>, xs: &Vec<u32>)
    requires
        fits_u32(xs@.len() as int),
    ensures
        final(out)@ == old(out)@ + se_u32_list(xs@),
{
    e_u32(out, xs.len() as u32);
    e_u32s(out, xs, 0);
    proof {
        assert(xs@.skip(0) =~= xs@);
        assert(out@ =~= old(out)@ + se_u32_list(xs@));
    }
}

fn e_cap(out: &mut Vec<u8>, c: &CapDesc)
    requires
        wf_cap(c.deep_view()),
    ensures
        final(out)@ == old(out)@ + se_cap(c.deep_view()),
{
    match c {
        CapDesc::SenderHosted { id } => {
            e_byte(out, TAG_CAP_SENDER);
            e_u32(out, *id);
            assert(out@ =~= old(out)@ + se_cap(c.deep_view()));
        },
        CapDesc::ReceiverHosted { id } => {
            e_byte(out, TAG_CAP_RECEIVER);
            e_u32(out, *id);
            assert(out@ =~= old(out)@ + se_cap(c.deep_view()));
        },
        CapDesc::PromisedAnswer { answer_id, path } => {
            e_byte(out, TAG_CAP_PROMISED);
            e_u32(out, *answer_id);
            e_u32_list(out, path);
            assert(out@ =~= old(out)@ + se_cap(c.deep_view()));
        },
    }
}

fn e_caps(out: &mut Vec<u8>, cs: &Vec<CapDesc>, k: usize)
    requires
        k <= cs@.len(),
        forall|i: int| 0 <= i < cs@.len() ==> wf_cap(#[trigger] dv_caps(cs@)[i]),
    ensures
        final(out)@ == old(out)@ + se_caps(dv_caps(cs@).skip(k as int)),
    decreases cs@.len() - k,
{
    if k < cs.len() {
        proof {
            assert(wf_cap(dv_caps(cs@)[k as int]));
            assert(dv_caps(cs@)[k as int] == cs@[k as int].deep_view());
        }
        e_cap(out, &cs[k]);
        e_caps(out, cs, k + 1);
        proof {
            let tail = dv_caps(cs@).skip(k as int);
            assert(tail[0] == dv_caps(cs@)[k as int]);
            assert(tail.drop_first() =~= dv_caps(cs@).skip(k + 1));
            assert(out@ =~= old(out)@ + se_caps(tail));
        }
    } else {
        assert(dv_caps(cs@).skip(k as int) =~= Seq::<CapDescV>::empty());
    }
}

fn e_cap_list(out: &mut Vec<u8>, cs: &Vec<CapDesc>)
    requires
        fits_u32(cs@.len() as int),
        forall|i: int| 0 <= i < cs@.len() ==> wf_cap(#[trigger] dv_caps(cs@)[i]),
    ensures
        final(out)@ == old(out)@ + se_cap_list(dv_caps(cs@)),
{
    e_u32(out, cs.len() as u32);
    e_caps(out, cs, 0);
    proof {
        assert(dv_caps(cs@).skip(0) =~= dv_caps(cs@));
        assert(out@ =~= old(out)@ + se_cap_list(dv_caps(cs@)));
    }
}

fn e_target(out: &mut Vec<u8>, t: &Target)
    requires
        wf_target(t.deep_view()),
    ensures
        final(out)@ == old(out)@ + se_target(t.deep_view()),
{
    match t {
        Target::Export { id } => {
            e_byte(out, TAG_TARGET_EXPORT);
            e_u32(out, *id);
            assert(out@ =~= old(out)@ + se_target(t.deep_view()));
        },
        Target::PromisedAnswer { answer_id, path } => {
            e_byte(out, TAG_TARGET_PROMISED);
            e_u32(out, *answer_id);
            e_u32_list(out, path);
            assert(out@ =~= old(out)@ + se_target(t.deep_view()));
        },
    }
}

fn e_payload(out: &mut Vec<u8>, p: &Payload)
    requires
        wf_payload(p.deep_view()),
    ensures
        final(out)@ == old(out)@ + se_payload(p.deep_view()),
{
    e_bytes(out, &p.data);
    e_cap_list(out, &p.caps);
    assert(out@ =~= old(out)@ + se_payload(p.deep_view()));
}

fn e_outcome(out: &mut Vec<u8>, o: &Outcome)
    requires
        wf_outcome(o.deep_view()),
    ensures
        final(out)@ == old(out)@ + se_outcome(o.deep_view()),
{
    match o {
        Outcome::Results { payload } => {
            e_byte(out, TAG_OUTCOME_RESULTS);
            e_payload(out, payload);
            assert(out@ =~= old(out)@ + se_outcome(o.deep_view()));
        },
        Outcome::Failure { reason } => {
            e_byte(out, TAG_OUTCOME_FAILURE);
            e_bytes(out, reason);
            assert(out@ =~= old(out)@ + se_outcome(o.deep_view()));
        },
    }
}

fn e_body(out: &mut Vec<u8>, m: &Message)
    requires
        wf_msg(m.deep_view()),
    ensures
        final(out)@ == old(out)@ + se_body(m.deep_view()),
{
    match m {
        Message::Call { call_id, target, method_id, params } => {
            e_byte(out, TAG_CALL);
            e_u32(out, *call_id);
            e_target(out, target);
            e_u32(out, *method_id);
            e_payload(out, params);
            assert(out@ =~= old(out)@ + se_body(m.deep_view()));
        },
        Message::Return { call_id, outcome } => {
            e_byte(out, TAG_RETURN);
            e_u32(out, *call_id);
            e_outcome(out, outcome);
            assert(out@ =~= old(out)@ + se_body(m.deep_view()));
        },
        Message::Release { export_id, delta } => {
            e_byte(out, TAG_RELEASE);
            e_u32(out, *export_id);
            e_u32(out, *delta);
            assert(out@ =~= old(out)@ + se_body(m.deep_view()));
        },
        Message::Bootstrap { call_id } => {
            e_byte(out, TAG_BOOTSTRAP);
            e_u32(out, *call_id);
            assert(out@ =~= old(out)@ + se_body(m.deep_view()));
        },
        Message::Abort { reason } => {
            e_byte(out, TAG_ABORT);
            e_bytes(out, reason);
            assert(out@ =~= old(out)@ + se_body(m.deep_view()));
        },
    }
}

/// Encode one message as a complete frame.
pub fn encode(m: &Message) -> (r: Vec<u8>)
    requires
        wf_msg(m.deep_view()),
    ensures
        r@ == spec_encode(m.deep_view()),
{
    let mut body: Vec<u8> = Vec::new();
    e_body(&mut body, m);
    let mut out: Vec<u8> = Vec::new();
    e_u32(&mut out, body.len() as u32);
    out.append(&mut body);
    proof {
        assert(out@ =~= spec_encode(m.deep_view()));
    }
    out
}

// ---------------------------------------------------------------------
// Executable decoder.
// ---------------------------------------------------------------------

proof fn lemma_dv_caps_insert0(s: Seq<CapDesc>, c: CapDesc)
    ensures
        dv_caps(s.insert(0, c)) == seq![c.deep_view()] + dv_caps(s),
{
    let lhs = dv_caps(s.insert(0, c));
    let rhs = seq![c.deep_view()] + dv_caps(s);
    assert forall|i: int| 0 <= i < lhs.len() implies lhs[i] == rhs[i] by {
        if i == 0 {
            assert(s.insert(0, c)[0] == c);
        } else {
            assert(s.insert(0, c)[i] == s[i - 1]);
        }
    }
    assert(lhs =~= rhs);
}

fn p_byte(s: &[u8], i: usize) -> (r: Option<(u8, usize)>)
    requires
        i <= s@.len(),
    ensures
        match r {
            Some((x, j)) => sp_byte(s@, i as int) == Some((x, j as int)) && i < j <= s@.len(),
            None => sp_byte(s@, i as int) is None,
        },
{
    if i < s.len() {
        Some((*slice_index_get(s, i), i + 1))
    } else {
        None
    }
}

fn p_u32(s: &[u8], i: usize) -> (r: Option<(u32, usize)>)
    requires
        i <= s@.len(),
    ensures
        match r {
            Some((x, j)) => sp_u32(s@, i as int) == Some((x, j as int)) && i < j <= s@.len(),
            None => sp_u32(s@, i as int) is None,
        },
{
    if s.len() - i >= 4 {
        let sub = slice_subrange(s, i, i + 4);
        Some((u32_from_le_bytes(sub), i + 4))
    } else {
        None
    }
}

fn p_bytes(s: &[u8], i: usize) -> (r: Option<(Vec<u8>, usize)>)
    requires
        i <= s@.len(),
    ensures
        match r {
            Some((v, j)) => sp_bytes(s@, i as int) == Some((v@, j as int)) && i <= j <= s@.len(),
            None => sp_bytes(s@, i as int) is None,
        },
{
    match p_u32(s, i) {
        None => None,
        Some((n, j)) => {
            if n as usize <= s.len() - j {
                let sub = slice_subrange(s, j, j + n as usize);
                Some((slice_to_vec(sub), j + n as usize))
            } else {
                None
            }
        },
    }
}

fn p_u32s(s: &[u8], i: usize, n: u32) -> (r: Option<(Vec<u32>, usize)>)
    requires
        i <= s@.len(),
    ensures
        match r {
            Some((v, j)) => sp_u32s(s@, i as int, n as nat) == Some((v@, j as int)) && i <= j
                <= s@.len(),
            None => sp_u32s(s@, i as int, n as nat) is None,
        },
    decreases n,
{
    if n == 0 {
        Some((Vec::new(), i))
    } else {
        match p_u32(s, i) {
            None => None,
            Some((x, j)) => match p_u32s(s, j, n - 1) {
                None => None,
                Some((mut v, k)) => {
                    let ghost old_v = v@;
                    v.insert(0, x);
                    proof {
                        assert(v@ =~= seq![x] + old_v);
                    }
                    Some((v, k))
                },
            },
        }
    }
}

fn p_u32_list(s: &[u8], i: usize) -> (r: Option<(Vec<u32>, usize)>)
    requires
        i <= s@.len(),
    ensures
        match r {
            Some((v, j)) => sp_u32_list(s@, i as int) == Some((v@, j as int)) && i <= j
                <= s@.len(),
            None => sp_u32_list(s@, i as int) is None,
        },
{
    match p_u32(s, i) {
        None => None,
        Some((n, j)) => p_u32s(s, j, n),
    }
}

fn p_cap(s: &[u8], i: usize) -> (r: Option<(CapDesc, usize)>)
    requires
        i <= s@.len(),
    ensures
        match r {
            Some((c, j)) => sp_cap(s@, i as int) == Some((c.deep_view(), j as int)) && i <= j
                <= s@.len(),
            None => sp_cap(s@, i as int) is None,
        },
{
    match p_byte(s, i) {
        None => None,
        Some((tag, j)) => {
            if tag == TAG_CAP_SENDER {
                match p_u32(s, j) {
                    None => None,
                    Some((id, k)) => Some((CapDesc::SenderHosted { id }, k)),
                }
            } else if tag == TAG_CAP_RECEIVER {
                match p_u32(s, j) {
                    None => None,
                    Some((id, k)) => Some((CapDesc::ReceiverHosted { id }, k)),
                }
            } else if tag == TAG_CAP_PROMISED {
                match p_u32(s, j) {
                    None => None,
                    Some((answer_id, k)) => match p_u32_list(s, k) {
                        None => None,
                        Some((path, l)) => Some((CapDesc::PromisedAnswer { answer_id, path }, l)),
                    },
                }
            } else {
                None
            }
        },
    }
}

fn p_caps(s: &[u8], i: usize, n: u32) -> (r: Option<(Vec<CapDesc>, usize)>)
    requires
        i <= s@.len(),
    ensures
        match r {
            Some((v, j)) => sp_caps(s@, i as int, n as nat) == Some((dv_caps(v@), j as int)) && i
                <= j <= s@.len(),
            None => sp_caps(s@, i as int, n as nat) is None,
        },
    decreases n,
{
    if n == 0 {
        let v: Vec<CapDesc> = Vec::new();
        proof {
            assert(dv_caps(v@) =~= Seq::<CapDescV>::empty());
        }
        Some((v, i))
    } else {
        match p_cap(s, i) {
            None => None,
            Some((c, j)) => match p_caps(s, j, n - 1) {
                None => None,
                Some((mut v, k)) => {
                    let ghost old_v = v@;
                    let ghost cv = c.deep_view();
                    v.insert(0, c);
                    proof {
                        lemma_dv_caps_insert0(old_v, c);
                        assert(v@ == old_v.insert(0, c));
                        assert(dv_caps(v@) == seq![cv] + dv_caps(old_v));
                    }
                    Some((v, k))
                },
            },
        }
    }
}

fn p_cap_list(s: &[u8], i: usize) -> (r: Option<(Vec<CapDesc>, usize)>)
    requires
        i <= s@.len(),
    ensures
        match r {
            Some((v, j)) => sp_cap_list(s@, i as int) == Some((dv_caps(v@), j as int)) && i <= j
                <= s@.len(),
            None => sp_cap_list(s@, i as int) is None,
        },
{
    match p_u32(s, i) {
        None => None,
        Some((n, j)) => p_caps(s, j, n),
    }
}

fn p_target(s: &[u8], i: usize) -> (r: Option<(Target, usize)>)
    requires
        i <= s@.len(),
    ensures
        match r {
            Some((t, j)) => sp_target(s@, i as int) == Some((t.deep_view(), j as int)) && i <= j
                <= s@.len(),
            None => sp_target(s@, i as int) is None,
        },
{
    match p_byte(s, i) {
        None => None,
        Some((tag, j)) => {
            if tag == TAG_TARGET_EXPORT {
                match p_u32(s, j) {
                    None => None,
                    Some((id, k)) => Some((Target::Export { id }, k)),
                }
            } else if tag == TAG_TARGET_PROMISED {
                match p_u32(s, j) {
                    None => None,
                    Some((answer_id, k)) => match p_u32_list(s, k) {
                        None => None,
                        Some((path, l)) => Some((Target::PromisedAnswer { answer_id, path }, l)),
                    },
                }
            } else {
                None
            }
        },
    }
}

fn p_payload(s: &[u8], i: usize) -> (r: Option<(Payload, usize)>)
    requires
        i <= s@.len(),
    ensures
        match r {
            Some((p, j)) => sp_payload(s@, i as int) == Some((p.deep_view(), j as int)) && i <= j
                <= s@.len(),
            None => sp_payload(s@, i as int) is None,
        },
{
    match p_bytes(s, i) {
        None => None,
        Some((data, j)) => match p_cap_list(s, j) {
            None => None,
            Some((caps, k)) => Some((Payload { data, caps }, k)),
        },
    }
}

fn p_outcome(s: &[u8], i: usize) -> (r: Option<(Outcome, usize)>)
    requires
        i <= s@.len(),
    ensures
        match r {
            Some((o, j)) => sp_outcome(s@, i as int) == Some((o.deep_view(), j as int)) && i <= j
                <= s@.len(),
            None => sp_outcome(s@, i as int) is None,
        },
{
    match p_byte(s, i) {
        None => None,
        Some((tag, j)) => {
            if tag == TAG_OUTCOME_RESULTS {
                match p_payload(s, j) {
                    None => None,
                    Some((payload, k)) => Some((Outcome::Results { payload }, k)),
                }
            } else if tag == TAG_OUTCOME_FAILURE {
                match p_bytes(s, j) {
                    None => None,
                    Some((reason, k)) => Some((Outcome::Failure { reason }, k)),
                }
            } else {
                None
            }
        },
    }
}

fn p_message(s: &[u8], i: usize) -> (r: Option<(Message, usize)>)
    requires
        i <= s@.len(),
    ensures
        match r {
            Some((m, j)) => sp_message(s@, i as int) == Some((m.deep_view(), j as int)) && i <= j
                <= s@.len(),
            None => sp_message(s@, i as int) is None,
        },
{
    match p_byte(s, i) {
        None => None,
        Some((tag, j)) => {
            if tag == TAG_CALL {
                match p_u32(s, j) {
                    None => None,
                    Some((call_id, k)) => match p_target(s, k) {
                        None => None,
                        Some((target, l)) => match p_u32(s, l) {
                            None => None,
                            Some((method_id, p)) => match p_payload(s, p) {
                                None => None,
                                Some((params, q)) => Some(
                                    (Message::Call { call_id, target, method_id, params }, q),
                                ),
                            },
                        },
                    },
                }
            } else if tag == TAG_RETURN {
                match p_u32(s, j) {
                    None => None,
                    Some((call_id, k)) => match p_outcome(s, k) {
                        None => None,
                        Some((outcome, l)) => Some((Message::Return { call_id, outcome }, l)),
                    },
                }
            } else if tag == TAG_RELEASE {
                match p_u32(s, j) {
                    None => None,
                    Some((export_id, k)) => match p_u32(s, k) {
                        None => None,
                        Some((delta, l)) => Some((Message::Release { export_id, delta }, l)),
                    },
                }
            } else if tag == TAG_BOOTSTRAP {
                match p_u32(s, j) {
                    None => None,
                    Some((call_id, k)) => Some((Message::Bootstrap { call_id }, k)),
                }
            } else if tag == TAG_ABORT {
                match p_bytes(s, j) {
                    None => None,
                    Some((reason, k)) => Some((Message::Abort { reason }, k)),
                }
            } else {
                None
            }
        },
    }
}

/// The outcome of decoding the front of a byte buffer.
pub enum DecodeOutcome {
    /// A complete frame parsed to `msg`, occupying the first `used`
    /// bytes of the buffer.
    Decoded { msg: Message, used: usize },
    /// The buffer does not yet hold a complete frame.
    NeedMoreData,
    /// The complete frame at the front of the buffer is not a valid
    /// message; the connection must abort.
    Malformed,
}

/// Decode the frame at the front of `bytes`, consuming nothing.
pub fn decode(bytes: &[u8]) -> (r: DecodeOutcome)
    ensures
        match r {
            DecodeOutcome::Decoded { msg, used } => spec_decode(bytes@) == (SpOutcome::Decoded {
                m: msg.deep_view(),
                used: used as int,
            }) && used <= bytes@.len(),
            DecodeOutcome::NeedMoreData => spec_decode(bytes@) is NeedMoreData,
            DecodeOutcome::Malformed => spec_decode(bytes@) is Malformed,
        },
{
    if bytes.len() < 4 {
        return DecodeOutcome::NeedMoreData;
    }
    let n = u32_from_le_bytes(slice_subrange(bytes, 0, 4));
    if bytes.len() - 4 < n as usize {
        return DecodeOutcome::NeedMoreData;
    }
    let body = slice_subrange(bytes, 4, 4 + n as usize);
    match p_message(body, 0) {
        Some((msg, j)) => {
            if j == n as usize {
                DecodeOutcome::Decoded { msg, used: 4 + n as usize }
            } else {
                DecodeOutcome::Malformed
            }
        },
        None => DecodeOutcome::Malformed,
    }
}

} // verus!

